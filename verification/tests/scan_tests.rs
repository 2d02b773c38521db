use std::collections::HashMap;
use steamgamehelper::model::Game;
use steamgamehelper::scan::{
    account_from_captures, collect_file_stats, collect_user_stats, detect_accounts_sync,
    folders_from_matches, ids_from_matches, installed_game, is_manifest, manifest_from_captures,
    overlay_stats, parse_app_stat, parse_libraryfolders, parse_login_users, parse_manifest,
    record_stat, resolve_steamids_from_text, scan_manifests, scan_roots, stat_from_captures,
    AppStat,
};

fn caps(groups: &[Option<&str>]) -> Option<Vec<Option<String>>> {
    Some(groups.iter().map(|g| g.map(|s| s.to_string())).collect())
}

const MANIFEST: &str = "\"AppState\"\n{\n\t\"appid\"\t\t\"620\"\n\t\"Universe\"\t\t\"1\"\n\t\"name\"\t\t\"Portal 2\"\n\t\"StateFlags\"\t\t\"4\"\n}\n";

#[test]
fn manifest_names_are_recognised() {
    assert!(is_manifest("appmanifest_620.acf"));
    assert!(is_manifest("appmanifest_.acf"));
    assert!(!is_manifest("appmanifest_620.acf.bak"));
    assert!(!is_manifest("Appmanifest_620.acf"));
    assert!(!is_manifest("libraryfolders.vdf"));
    assert!(!is_manifest(".acf"));
    assert!(!is_manifest(""));
    assert!(!is_manifest("appmanifest_"));
}

#[test]
fn a_manifest_gives_appid_and_name() {
    assert_eq!(parse_manifest(MANIFEST), Some((620, "Portal 2".to_string())));
    assert_eq!(
        parse_manifest("\"name\" \"First\" \"appid\"\"7\" \"appid\" \"8\""),
        Some((7, "First".to_string()))
    );
}

#[test]
fn a_manifest_without_a_field_gives_nothing() {
    assert_eq!(parse_manifest("\"appid\" \"620\""), None);
    assert_eq!(parse_manifest("\"name\" \"Portal 2\""), None);
    assert_eq!(parse_manifest("\"appid\" \"x\" \"name\" \"Portal 2\""), None);
    assert_eq!(parse_manifest("\"appid\" \"620\" \"name\" \"\""), None);
    assert_eq!(parse_manifest(""), None);
    assert_eq!(parse_manifest("\"appid\" \"99999999999999999999\" \"name\" \"Big\""), None);
}

#[test]
fn manifest_fields_are_taken_from_the_first_groups() {
    assert_eq!(
        manifest_from_captures(&caps(&[Some("x"), Some("12")]), &caps(&[Some("y"), Some("N")])),
        Some((12, "N".to_string()))
    );
    assert_eq!(manifest_from_captures(&None, &caps(&[Some("y"), Some("N")])), None);
    assert_eq!(manifest_from_captures(&caps(&[Some("x"), Some("12")]), &None), None);
    assert_eq!(manifest_from_captures(&caps(&[Some("x")]), &caps(&[Some("y"), Some("N")])), None);
    assert_eq!(
        manifest_from_captures(&caps(&[Some("x"), None]), &caps(&[Some("y"), Some("N")])),
        None
    );
    assert_eq!(
        manifest_from_captures(&caps(&[Some("x"), Some("-3")]), &caps(&[Some("y"), Some("N")])),
        None
    );
}

#[test]
fn an_installed_game_has_no_figures_yet() {
    let g = installed_game(5, "Five".to_string());
    assert_eq!(g.appid, 5);
    assert_eq!(g.name, "Five");
    assert!(g.installed);
    assert_eq!(g.playtime_minutes, None);
    assert_eq!(g.last_played_unix, None);
}

#[test]
fn a_folder_index_lists_its_paths() {
    let text = "\"libraryfolders\"\n{\n\t\"0\"\n\t{\n\t\t\"path\"\t\t\"/home/u/.steam\"\n\t}\n\t\"1\"\n\t{\n\t\t\"path\"\t\t\"D:\\\\Games\"\n\t}\n}";
    assert_eq!(
        parse_libraryfolders(text),
        Some(vec!["/home/u/.steam".to_string(), "D:\\\\Games".to_string()])
    );
    assert_eq!(parse_libraryfolders("\"label\" \"x\""), None);
    assert_eq!(parse_libraryfolders(""), None);
}

#[test]
fn folders_need_the_group_of_every_match() {
    let all = vec![
        vec![Some("m".to_string()), Some("a".to_string())],
        vec![Some("m".to_string()), Some("b".to_string())],
    ];
    assert_eq!(folders_from_matches(&all), Some(vec!["a".to_string(), "b".to_string()]));
    let broken =
        vec![vec![Some("m".to_string()), Some("a".to_string())], vec![Some("m".to_string()), None]];
    assert_eq!(folders_from_matches(&broken), None);
    assert_eq!(folders_from_matches(&vec![]), None);
}

#[test]
fn playtime_is_taken_under_the_first_name_that_is_there() {
    let s = parse_app_stat("\"Playtime\" \"5\" \"playtime_forever\" \"7\" \"MinutesPlayed\" \"9\"");
    assert_eq!(s.playtime_minutes, Some(7));
    let s = parse_app_stat("\"MinutesPlayed2\" \"9\" \"Playtime\" \"5\"");
    assert_eq!(s.playtime_minutes, Some(5));
    let s = parse_app_stat("\"MinutesPlayed2\" \"9\" \"LastPlayed\" \"1700000000\"");
    assert_eq!(s, AppStat { playtime_minutes: Some(9), last_played_unix: Some(1700000000) });
    let s = parse_app_stat("\"other\" \"1\"");
    assert_eq!(s, AppStat { playtime_minutes: None, last_played_unix: None });
}

#[test]
fn a_playtime_that_does_not_fit_falls_to_the_next_name() {
    let s = parse_app_stat("\"playtime_forever\" \"4294967296\" \"Playtime\" \"3\"");
    assert_eq!(s.playtime_minutes, Some(3));
    let s = stat_from_captures(
        &caps(&[Some("m"), Some("18446744073709551615")]),
        &None,
        &caps(&[Some("m"), Some("4294967295")]),
        &caps(&[Some("m"), Some("1")]),
    );
    assert_eq!(s, AppStat { playtime_minutes: Some(4294967295), last_played_unix: Some(u64::MAX) });
}

#[test]
fn a_later_reading_does_not_erase_an_earlier_figure() {
    let mut stats: HashMap<i64, AppStat> = HashMap::new();
    record_stat(&mut stats, 1, AppStat { playtime_minutes: Some(10), last_played_unix: None });
    record_stat(&mut stats, 1, AppStat { playtime_minutes: None, last_played_unix: Some(99) });
    assert_eq!(stats[&1], AppStat { playtime_minutes: Some(10), last_played_unix: Some(99) });
    record_stat(&mut stats, 1, AppStat { playtime_minutes: Some(20), last_played_unix: None });
    assert_eq!(stats[&1], AppStat { playtime_minutes: Some(20), last_played_unix: Some(99) });
    record_stat(&mut stats, 2, AppStat { playtime_minutes: None, last_played_unix: None });
    assert_eq!(stats[&2], AppStat { playtime_minutes: None, last_played_unix: None });
    assert_eq!(stats.len(), 2);
}

#[test]
fn a_usage_file_is_read_block_by_block() {
    let first = "\"apps\" { \"10\" { \"playtime_forever\" \"30\" \"LastPlayed\" \"111\" } }";
    let second = "\"apps\"\n{\n\t\"10\"\n\t{\n\t\t\"LastPlayed\"\t\"222\"\n\t}\n}";
    let stats = collect_user_stats(&vec![first.to_string(), second.to_string()]);
    assert_eq!(stats.len(), 1);
    assert_eq!(stats[&10], AppStat { playtime_minutes: Some(30), last_played_unix: Some(222) });
}

#[test]
fn a_file_without_an_apps_block_changes_nothing() {
    let mut stats: HashMap<i64, AppStat> = HashMap::new();
    stats.insert(4, AppStat { playtime_minutes: Some(1), last_played_unix: None });
    collect_file_stats(&mut stats, "\"friends\" { \"5\" { \"Playtime\" \"3\" } }");
    assert_eq!(stats.len(), 1);
    collect_file_stats(&mut stats, "");
    assert_eq!(stats.len(), 1);
    assert!(collect_user_stats(&vec![]).is_empty());
}

#[test]
fn a_block_under_appid_zero_is_passed_over() {
    let mut stats: HashMap<i64, AppStat> = HashMap::new();
    collect_file_stats(&mut stats, "\"apps\" { \"0\" { \"Playtime\" \"3\" } }");
    assert!(stats.is_empty());
    collect_file_stats(&mut stats, "\"apps\" { \"99999999999999999999\" { \"Playtime\" \"3\" } }");
    assert!(stats.is_empty());
    collect_file_stats(&mut stats, "\"apps\" { \"7\" { \"Playtime\" \"3\" } }");
    assert_eq!(stats[&7].playtime_minutes, Some(3));
}

#[test]
fn usage_figures_are_laid_over_the_scan() {
    let games = vec![
        Game { appid: 1, name: "a".to_string(), installed: true, playtime_minutes: Some(5), last_played_unix: None },
        Game { appid: 2, name: "b".to_string(), installed: true, playtime_minutes: None, last_played_unix: Some(8) },
        Game { appid: 3, name: "c".to_string(), installed: true, playtime_minutes: Some(1), last_played_unix: Some(2) },
    ];
    let mut stats: HashMap<i64, AppStat> = HashMap::new();
    stats.insert(1, AppStat { playtime_minutes: None, last_played_unix: Some(70) });
    stats.insert(2, AppStat { playtime_minutes: Some(60), last_played_unix: Some(80) });
    let out = overlay_stats(&games, &stats);
    assert_eq!(out.len(), 3);
    assert_eq!((out[0].playtime_minutes, out[0].last_played_unix), (Some(5), Some(70)));
    assert_eq!((out[1].playtime_minutes, out[1].last_played_unix), (Some(60), Some(80)));
    assert_eq!((out[2].playtime_minutes, out[2].last_played_unix), (Some(1), Some(2)));
    assert_eq!(out[1].name, "b");
    assert!(out[1].installed);
}

#[test]
fn the_scan_reads_manifests_and_usage_files() {
    let manifests = vec![
        MANIFEST.to_string(),
        "broken".to_string(),
        "\"appid\" \"10\" \"name\" \"Ten\"".to_string(),
    ];
    let found = scan_manifests(&manifests);
    assert_eq!(found.len(), 2);
    assert_eq!(found[0].appid, 620);
    assert_eq!(found[1].name, "Ten");
    let usage = vec!["\"apps\" { \"10\" { \"Playtime\" \"44\" } }".to_string()];
    let games = scan_roots(&manifests, &usage);
    assert_eq!(games.len(), 2);
    assert_eq!(games[0].appid, 620);
    assert_eq!(games[0].playtime_minutes, None);
    assert_eq!(games[1].appid, 10);
    assert_eq!(games[1].playtime_minutes, Some(44));
    assert!(games[1].installed);
}

#[test]
fn login_files_list_their_accounts() {
    let a = "\"users\"\n{\n\t\"76561198000000001\"\n\t{\n\t\t\"AccountName\"\t\"x\"\n\t\t\"PersonaName\"\t\"Alice\"\n\t}\n\t\"76561198000000002\"\n\t{\n\t\t\"AccountName\"\t\"y\"\n\t}\n}";
    let b = "\"76561198000000003\" { \"PersonaName\" \"\" }";
    let out = detect_accounts_sync(&vec![a.to_string(), b.to_string()]);
    assert_eq!(out.len(), 3);
    assert_eq!(out[0].steamid64, "76561198000000001");
    assert_eq!(out[0].persona, "Alice");
    assert_eq!(out[1].steamid64, "76561198000000002");
    assert_eq!(out[1].persona, "");
    assert_eq!(out[2].steamid64, "76561198000000003");
    assert_eq!(out[2].persona, "");
    let mut list = out.clone();
    parse_login_users(&mut list, "nothing here");
    assert_eq!(list.len(), 3);
}

#[test]
fn an_account_needs_an_id() {
    assert!(account_from_captures(None, &caps(&[Some("m"), Some("P")])).is_none());
    assert!(account_from_captures(Some(String::new()), &None).is_none());
    let a = account_from_captures(Some("7".to_string()), &None).unwrap();
    assert_eq!(a.steamid64, "7");
    assert_eq!(a.persona, "");
    let a = account_from_captures(Some("7".to_string()), &caps(&[Some("m"), Some("P")])).unwrap();
    assert_eq!(a.persona, "P");
}

#[test]
fn account_ids_are_found_in_free_text() {
    assert_eq!(
        resolve_steamids_from_text("ids: 76561198000000001, 76561198000000002; 1234 7656"),
        vec!["76561198000000001".to_string(), "76561198000000002".to_string()]
    );
    assert!(resolve_steamids_from_text("none").is_empty());
    let all = vec![
        vec![Some("a".to_string()), Some("1".to_string())],
        vec![Some("b".to_string()), None],
        vec![Some("c".to_string())],
        vec![Some("d".to_string()), Some("2".to_string())],
    ];
    assert_eq!(ids_from_matches(&all), vec!["1".to_string(), "2".to_string()]);
}
