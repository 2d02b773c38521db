use steamgamehelper::chunks::{cut_after, rfind_char, split_prompt};
use steamgamehelper::session::{answer, wrap_prompt, Action, Decoder, Event, Phase, Stop};
use steamgamehelper::tuning::{HwTuning, Mode};

fn tuning() -> HwTuning {
    HwTuning { n_threads: 4, n_ctx: 3072, n_batch: 512, max_tokens: 96, wall_time_ms: 6000 }
}

fn is_pull(a: &Action) -> bool {
    matches!(a, Action::Pull)
}

#[test]
fn a_short_prompt_is_one_chunk() {
    let chunks = split_prompt("hello world");
    assert_eq!(chunks, vec!["hello world"]);
    assert_eq!(split_prompt(""), vec![""]);
    let exact = "x".repeat(2000);
    assert_eq!(split_prompt(&exact), vec![exact.clone()]);
}

#[test]
fn chunks_join_to_the_prompt() {
    let mut prompt = String::new();
    for i in 0..900 {
        prompt.push_str(&format!("word{} ", i));
        if i % 37 == 0 {
            prompt.push('\n');
        }
    }
    prompt.push_str(&"y".repeat(4500));
    prompt.push_str("\u{442}\u{435}\u{441}\u{442} \u{2014} end");
    let chunks = split_prompt(&prompt);
    assert!(chunks.len() > 3);
    assert_eq!(chunks.concat(), prompt);
    for c in &chunks {
        assert!(c.chars().count() <= 2000);
        assert!(!c.is_empty());
    }
}

#[test]
fn a_chunk_is_cut_after_its_last_line_break() {
    let prompt = format!("{}\n{} {}", "a".repeat(999), "b".repeat(500), "c".repeat(1500));
    let chunks = split_prompt(&prompt);
    assert_eq!(chunks[0], format!("{}\n", "a".repeat(999)));
    assert_eq!(chunks[1], format!("{} ", "b".repeat(500)));
    assert_eq!(chunks[2], "c".repeat(1500));
    assert_eq!(chunks.len(), 3);
}

#[test]
fn a_chunk_without_line_break_is_cut_after_its_last_space() {
    let prompt = format!("{} {} {}", "a".repeat(700), "b".repeat(700), "c".repeat(700));
    let chunks = split_prompt(&prompt);
    assert_eq!(chunks, vec![format!("{} {} ", "a".repeat(700), "b".repeat(700)), "c".repeat(700)]);
}

#[test]
fn a_chunk_without_any_break_is_cut_at_the_size() {
    let prompt = "z".repeat(4100);
    let chunks = split_prompt(&prompt);
    assert_eq!(chunks, vec!["z".repeat(2000), "z".repeat(2000), "z".repeat(100)]);
}

#[test]
fn the_last_chunk_is_not_cut_at_a_break() {
    let prompt = format!("{}{}", "q".repeat(2000), "r s\nt");
    let chunks = split_prompt(&prompt);
    assert_eq!(chunks, vec!["q".repeat(2000), "r s\nt".to_string()]);
}

#[test]
fn cut_positions_are_exact() {
    let v: Vec<char> = format!("{} {}", "a".repeat(10), "b".repeat(3000)).chars().collect();
    assert_eq!(cut_after(&v, 0), 11);
    assert_eq!(cut_after(&v, 11), 2011);
    assert_eq!(cut_after(&v, 2011), 3011);
    assert_eq!(rfind_char(&v, ' ', 0, 2000), Some(10));
    assert_eq!(rfind_char(&v, ' ', 11, 2011), None);
    assert_eq!(rfind_char(&v, 'a', 0, 0), None);
}

#[test]
fn the_prompt_is_wrapped_between_role_markers() {
    assert_eq!(
        wrap_prompt("  be brief \n", "\tpick a game "),
        "<|system|>be brief<|end|><|user|>pick a game<|end|><|assistant|>"
    );
}

#[test]
fn a_disabled_session_fails_at_once() {
    let (session, action) = answer(Mode::Disabled, false, tuning(), "sys", "user");
    assert_eq!(session.phase, Phase::Failed);
    match action {
        Action::Fail(m) => assert_eq!(m, "Model path not set"),
        other => panic!("unexpected action {:?}", other),
    }
    let (session, action) = answer(Mode::Disabled, true, tuning(), "sys", "user");
    assert_eq!(session.phase, Phase::Failed);
    assert!(matches!(action, Action::Fail(_)));
}

#[test]
fn a_failed_session_repeats_its_error() {
    let (mut session, _) = answer(Mode::Disabled, false, tuning(), "sys", "user");
    match session.step(Event::Done) {
        Action::Fail(m) => assert_eq!(m, "Model path not set"),
        other => panic!("unexpected action {:?}", other),
    }
    assert_eq!(session.phase, Phase::Failed);
}

#[test]
fn a_session_runs_from_load_to_answer() {
    let (mut s, first) = answer(Mode::Enabled, false, tuning(), " sys ", " user ");
    assert!(matches!(first, Action::LoadModel));
    assert_eq!(s.phase, Phase::Unloaded);
    match s.step(Event::Done) {
        Action::CreateSession { n_ctx, n_batch } => {
            assert_eq!(n_ctx, 3072);
            assert_eq!(n_batch, 512);
        },
        other => panic!("unexpected action {:?}", other),
    }
    assert_eq!(s.phase, Phase::Loaded);
    match s.step(Event::Done) {
        Action::Feed(chunk) => {
            assert_eq!(chunk, "<|system|>sys<|end|><|user|>user<|end|><|assistant|>")
        },
        other => panic!("unexpected action {:?}", other),
    }
    assert_eq!(s.phase, Phase::Ready);
    match s.step(Event::Done) {
        Action::StartCompletion { max_tokens } => assert_eq!(max_tokens, 96),
        other => panic!("unexpected action {:?}", other),
    }
    assert!(is_pull(&s.step(Event::Done)));
    assert_eq!(s.phase, Phase::Streaming);
    assert!(is_pull(&s.step(Event::Piece("  {\"picks\"".to_string(), 10))));
    assert!(is_pull(&s.step(Event::Piece(":[]} <|e".to_string(), 20))));
    match s.step(Event::Piece("nd|> trailing".to_string(), 30)) {
        Action::Reply(text) => assert_eq!(text, "{\"picks\":[]}"),
        other => panic!("unexpected action {:?}", other),
    }
    assert_eq!(s.phase, Phase::Done);
    match s.step(Event::Piece("more".to_string(), 40)) {
        Action::Reply(text) => assert_eq!(text, "{\"picks\":[]}"),
        other => panic!("unexpected action {:?}", other),
    }
}

#[test]
fn a_loaded_model_is_not_loaded_again() {
    let (s, first) = answer(Mode::Enabled, true, tuning(), "a", "b");
    assert_eq!(s.phase, Phase::Loaded);
    assert!(matches!(first, Action::CreateSession { n_ctx: 3072, n_batch: 512 }));
}

#[test]
fn every_chunk_is_fed_in_order() {
    let user = format!("{} {}", "a".repeat(1990), "b".repeat(1990));
    let (mut s, _) = answer(Mode::Enabled, true, tuning(), "s", &user);
    let expected = split_prompt(&wrap_prompt("s", &user));
    assert!(expected.len() >= 2);
    let mut action = s.step(Event::Done);
    for chunk in &expected {
        match action {
            Action::Feed(c) => assert_eq!(&c, chunk),
            other => panic!("unexpected action {:?}", other),
        }
        action = s.step(Event::Done);
    }
    assert!(matches!(action, Action::StartCompletion { max_tokens: 96 }));
}

#[test]
fn a_reported_failure_ends_the_request() {
    let (mut s, _) = answer(Mode::Enabled, false, tuning(), "a", "b");
    match s.step(Event::Failed("LLM mutex poisoned".to_string())) {
        Action::Fail(m) => assert_eq!(m, "LLM mutex poisoned"),
        other => panic!("unexpected action {:?}", other),
    }
    assert_eq!(s.phase, Phase::Failed);
}

#[test]
fn an_event_out_of_turn_fails_the_request() {
    let (mut s, _) = answer(Mode::Enabled, false, tuning(), "a", "b");
    match s.step(Event::End) {
        Action::Fail(m) => assert_eq!(m, "unexpected event for this session"),
        other => panic!("unexpected action {:?}", other),
    }
}

#[test]
fn the_end_of_the_stream_gives_the_answer() {
    let (mut s, _) = answer(Mode::Enabled, true, tuning(), "a", "b");
    s.step(Event::Done);
    s.step(Event::Done);
    assert!(is_pull(&s.step(Event::Done)));
    assert!(is_pull(&s.step(Event::Piece(" hi there ".to_string(), 1))));
    match s.step(Event::End) {
        Action::Reply(t) => assert_eq!(t, "hi there"),
        other => panic!("unexpected action {:?}", other),
    }
}

#[test]
fn decoding_stops_at_the_marker() {
    let mut d = Decoder::new();
    assert_eq!(d.push("abc", 0, &tuning()), None);
    assert_eq!(d.push("<|end|", 0, &tuning()), None);
    assert_eq!(d.push(">", 0, &tuning()), Some(Stop::EndOfTurn));
    assert_eq!(d.finish(), "abc");
    assert_eq!(d.pieces, 3);
}

#[test]
fn decoding_stops_at_the_deadline() {
    let mut d = Decoder::new();
    assert_eq!(d.push("a", 5999, &tuning()), None);
    assert_eq!(d.push("b", 6000, &tuning()), Some(Stop::Deadline));
    assert_eq!(d.finish(), "ab");
}

#[test]
fn decoding_stops_at_the_token_cap() {
    let mut t = tuning();
    t.max_tokens = 3;
    let mut d = Decoder::new();
    assert_eq!(d.push("a", 0, &t), None);
    assert_eq!(d.push("b", 0, &t), None);
    assert_eq!(d.push("c", 0, &t), Some(Stop::TokenCap));
}

#[test]
fn decoding_stops_over_the_safety_cap() {
    let mut t = tuning();
    t.max_tokens = 1000;
    let mut d = Decoder::new();
    assert_eq!(d.push(&"x".repeat(12_000), 0, &t), None);
    assert_eq!(d.push("y", 0, &t), Some(Stop::TooLong));
}

#[test]
fn the_marker_is_checked_before_the_deadline() {
    let mut d = Decoder::new();
    assert_eq!(d.push("x<|end|>y", 999_999, &tuning()), Some(Stop::EndOfTurn));
}

#[test]
fn the_answer_is_cut_at_the_first_marker_and_trimmed() {
    let mut d = Decoder::new();
    d.push(" \n one <|end|> two <|end|> three", 0, &tuning());
    assert_eq!(d.finish(), "one");
    let mut e = Decoder::new();
    e.push("  no marker\t", 0, &tuning());
    assert_eq!(e.finish(), "no marker");
    assert_eq!(Decoder::new().finish(), "");
}
