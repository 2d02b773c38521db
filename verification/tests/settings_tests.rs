use steamgamehelper::settings::{
    dedup_ids, get_settings, remember_scan, save_settings, PartialSettings, UserPrefs,
};

fn ids(v: &[&str]) -> Vec<String> {
    v.iter().map(|s| s.to_string()).collect()
}

#[test]
fn ids_are_trimmed_and_kept_once() {
    assert_eq!(dedup_ids(ids(&[" a ", "b", "a", "", "   ", "b ", "c"])), ids(&["a", "b", "c"]));
    assert_eq!(dedup_ids(vec![]), Vec::<String>::new());
    assert_eq!(dedup_ids(ids(&["", " "])), Vec::<String>::new());
    assert_eq!(dedup_ids(ids(&["A", "a"])), ids(&["A", "a"]));
}

#[test]
fn default_settings_are_empty() {
    let p = UserPrefs::default();
    assert!(p.api_key.is_empty() && p.main_steam_id64.is_empty() && p.family_ids.is_empty());
    assert!(p.ai_api_key.is_empty() && p.ai_base_url.is_empty());
    let s = PartialSettings::default();
    assert!(s.api_key.is_none() && s.main_steam_id64.is_none() && s.family_ids.is_none());
    assert!(s.ai_api_key.is_none() && s.ai_base_url.is_none());
}

#[test]
fn empty_fields_are_not_shown() {
    let mut p = UserPrefs::default();
    let s = get_settings(&p);
    assert!(s.api_key.is_none() && s.main_steam_id64.is_none() && s.family_ids.is_none());
    assert!(s.ai_api_key.is_none() && s.ai_base_url.is_none());
    p.api_key = "K".to_string();
    p.family_ids = ids(&["1", "2"]);
    p.ai_base_url = "u".to_string();
    let s = get_settings(&p);
    assert_eq!(s.api_key, Some("K".to_string()));
    assert_eq!(s.main_steam_id64, None);
    assert_eq!(s.family_ids, Some(ids(&["1", "2"])));
    assert_eq!(s.ai_api_key, None);
    assert_eq!(s.ai_base_url, Some("u".to_string()));
}

#[test]
fn sent_fields_replace_kept_ones() {
    let mut p = UserPrefs::default();
    p.api_key = "old".to_string();
    p.main_steam_id64 = "main".to_string();
    p.family_ids = ids(&["x"]);
    let mut s = PartialSettings::default();
    s.api_key = Some("new".to_string());
    s.family_ids = Some(ids(&[" 1", "1", "2 "]));
    s.ai_api_key = Some(String::new());
    save_settings(&mut p, s);
    assert_eq!(p.api_key, "new");
    assert_eq!(p.main_steam_id64, "main");
    assert_eq!(p.family_ids, ids(&["1", "2"]));
    assert_eq!(p.ai_api_key, "");
    assert_eq!(p.ai_base_url, "");
    save_settings(&mut p, PartialSettings::default());
    assert_eq!(p.api_key, "new");
    assert_eq!(p.family_ids, ids(&["1", "2"]));
}

#[test]
fn a_scan_is_remembered() {
    let mut p = UserPrefs::default();
    p.ai_api_key = "keep".to_string();
    remember_scan(&mut p, "K".to_string(), "M".to_string(), ids(&["f", " f", "g"]));
    assert_eq!(p.api_key, "K");
    assert_eq!(p.main_steam_id64, "M");
    assert_eq!(p.family_ids, ids(&["f", "g"]));
    assert_eq!(p.ai_api_key, "keep");
}
