use steamgamehelper::tuning::{
    hardware_tuning, init_if_available, parse_env_u64, parse_env_usize, pick_model, HwTuning,
    Mode, TuningOverrides,
};

const GIB: u64 = 1024 * 1024 * 1024;

fn none() -> TuningOverrides {
    TuningOverrides { threads: None, ctx: None, batch: None, max_tokens: None, wall_time_ms: None }
}

#[test]
fn low_memory_shrinks_the_session() {
    let t = hardware_tuning(8 * GIB - 1, 8, &none());
    assert_eq!(
        t,
        HwTuning { n_threads: 8, n_ctx: 2048, n_batch: 256, max_tokens: 64, wall_time_ms: 5000 }
    );
}

#[test]
fn middle_memory_keeps_the_defaults() {
    let want =
        HwTuning { n_threads: 8, n_ctx: 3072, n_batch: 512, max_tokens: 96, wall_time_ms: 6000 };
    assert_eq!(hardware_tuning(8 * GIB, 8, &none()), want);
    assert_eq!(hardware_tuning(16 * GIB - 1, 8, &none()), want);
}

#[test]
fn high_memory_grows_the_session() {
    let t = hardware_tuning(16 * GIB, 8, &none());
    assert_eq!(
        t,
        HwTuning { n_threads: 8, n_ctx: 4096, n_batch: 1024, max_tokens: 128, wall_time_ms: 8000 }
    );
}

#[test]
fn threads_follow_the_cores_within_two_and_sixteen() {
    assert_eq!(hardware_tuning(0, 0, &none()).n_threads, 2);
    assert_eq!(hardware_tuning(0, 1, &none()).n_threads, 2);
    assert_eq!(hardware_tuning(0, 2, &none()).n_threads, 2);
    assert_eq!(hardware_tuning(0, 12, &none()).n_threads, 12);
    assert_eq!(hardware_tuning(0, 16, &none()).n_threads, 16);
    assert_eq!(hardware_tuning(0, 64, &none()).n_threads, 16);
}

#[test]
fn overrides_replace_each_parameter_on_its_own() {
    let o = TuningOverrides {
        threads: Some(32),
        ctx: None,
        batch: Some(64),
        max_tokens: None,
        wall_time_ms: Some(20_000),
    };
    let t = hardware_tuning(32 * GIB, 4, &o);
    assert_eq!(
        t,
        HwTuning { n_threads: 32, n_ctx: 4096, n_batch: 64, max_tokens: 128, wall_time_ms: 20_000 }
    );
}

#[test]
fn overrides_are_raised_to_their_floors() {
    let o = TuningOverrides {
        threads: Some(0),
        ctx: Some(100),
        batch: Some(1),
        max_tokens: Some(2),
        wall_time_ms: Some(10),
    };
    let t = hardware_tuning(4 * GIB, 4, &o);
    assert_eq!(
        t,
        HwTuning { n_threads: 1, n_ctx: 512, n_batch: 32, max_tokens: 16, wall_time_ms: 1000 }
    );
}

#[test]
fn the_explicit_model_file_comes_first() {
    let found = vec![Some("dir.gguf".to_string())];
    assert_eq!(
        pick_model(Some("fixed.gguf".to_string()), Some("env.gguf".to_string()), &found),
        Some("fixed.gguf".to_string())
    );
    assert_eq!(
        pick_model(None, Some("env.gguf".to_string()), &found),
        Some("env.gguf".to_string())
    );
}

#[test]
fn the_first_directory_with_a_model_is_taken() {
    let found = vec![None, Some("b.gguf".to_string()), Some("c.gguf".to_string())];
    assert_eq!(pick_model(None, None, &found), Some("b.gguf".to_string()));
}

#[test]
fn no_model_anywhere_gives_none() {
    assert_eq!(pick_model(None, None, &vec![]), None);
    assert_eq!(pick_model(None, None, &vec![None, None]), None);
}

#[test]
fn inference_is_disabled_without_a_model() {
    let mut known: Option<String> = None;
    assert_eq!(init_if_available(&mut known, None), Mode::Disabled);
    assert_eq!(known, None);
}

#[test]
fn the_model_path_is_settled_once() {
    let mut known: Option<String> = None;
    assert_eq!(init_if_available(&mut known, Some("a.gguf".to_string())), Mode::Enabled);
    assert_eq!(known, Some("a.gguf".to_string()));
    assert_eq!(init_if_available(&mut known, Some("b.gguf".to_string())), Mode::Enabled);
    assert_eq!(known, Some("a.gguf".to_string()));
    assert_eq!(init_if_available(&mut known, None), Mode::Enabled);
    assert_eq!(known, Some("a.gguf".to_string()));
}

#[test]
fn settings_are_read_as_trimmed_numbers() {
    assert_eq!(parse_env_usize(" 42\n"), Some(42));
    assert_eq!(parse_env_usize("+7"), Some(7));
    assert_eq!(parse_env_usize("007"), Some(7));
    assert_eq!(parse_env_usize("0"), Some(0));
    assert_eq!(parse_env_u64("18446744073709551615"), Some(u64::MAX));
    assert_eq!(parse_env_u64("18446744073709551616"), None);
    assert_eq!(parse_env_u64("99999999999999999999999"), None);
    assert_eq!(parse_env_u64(""), None);
    assert_eq!(parse_env_u64("   "), None);
    assert_eq!(parse_env_u64("+"), None);
    assert_eq!(parse_env_u64("-1"), None);
    assert_eq!(parse_env_u64("1 2"), None);
    assert_eq!(parse_env_u64("12a"), None);
    assert_eq!(parse_env_u64("\u{661}\u{662}"), None);
}
