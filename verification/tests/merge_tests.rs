use steamgamehelper::merge::{
    merge_library, owned_games, owned_games_url, OwnedGame, SharedLibrary, WireGame,
};
use steamgamehelper::model::{Game, LibraryGame};

fn owned(appid: i64, name: &str, minutes: Option<u32>) -> OwnedGame {
    OwnedGame { appid, name: name.to_string(), playtime_minutes: minutes }
}

fn installed(appid: i64) -> Game {
    Game {
        appid,
        name: format!("app {}", appid),
        installed: true,
        playtime_minutes: None,
        last_played_unix: None,
    }
}

fn entry(list: &Vec<LibraryGame>, appid: i64) -> LibraryGame {
    let found: Vec<&LibraryGame> = list.iter().filter(|g| g.appid == appid).collect();
    assert_eq!(found.len(), 1);
    found[0].clone()
}

fn sorted(list: &Vec<LibraryGame>) -> Vec<(i64, String, bool, Option<String>, Option<u32>)> {
    let mut rows: Vec<(i64, String, bool, Option<String>, Option<u32>)> = list
        .iter()
        .map(|g| (g.appid, g.name.clone(), g.installed, g.shared_from.clone(), g.playtime_minutes))
        .collect();
    rows.sort();
    rows
}

#[test]
fn primary_entry_wins_over_shared() {
    let primary = vec![owned(10, "Portal", Some(90)), owned(20, "Doom", None)];
    let shared = vec![
        SharedLibrary {
            account: "A".to_string(),
            games: vec![owned(10, "Portal (shared)", Some(5000)), owned(30, "Raft", Some(7))],
        },
        SharedLibrary { account: "B".to_string(), games: vec![owned(10, "Portal B", Some(1))] },
    ];
    let out = merge_library(&primary, &shared, &vec![]);
    assert_eq!(out.len(), 3);
    let portal = entry(&out, 10);
    assert_eq!(portal.name, "Portal");
    assert_eq!(portal.shared_from, None);
    assert_eq!(portal.playtime_minutes, Some(90));
    assert!(!portal.installed);
}

#[test]
fn primary_wins_whatever_the_order_of_shared_accounts() {
    let primary = vec![owned(10, "Portal", Some(90))];
    let a = SharedLibrary { account: "A".to_string(), games: vec![owned(10, "x", Some(1))] };
    let b = SharedLibrary { account: "B".to_string(), games: vec![owned(10, "y", Some(2))] };
    let one = merge_library(&primary, &vec![a.clone(), b.clone()], &vec![]);
    let two = merge_library(&primary, &vec![b, a], &vec![]);
    assert_eq!(sorted(&one), sorted(&two));
    assert_eq!(entry(&one, 10).shared_from, None);
    assert_eq!(entry(&one, 10).playtime_minutes, Some(90));
}

#[test]
fn shared_only_entry_names_first_account_and_has_no_playtime() {
    let primary = vec![owned(10, "Portal", Some(90))];
    let shared = vec![
        SharedLibrary { account: "A".to_string(), games: vec![owned(30, "Raft", Some(7))] },
        SharedLibrary { account: "B".to_string(), games: vec![owned(30, "Raft B", Some(9))] },
    ];
    let out = merge_library(&primary, &shared, &vec![]);
    let raft = entry(&out, 30);
    assert_eq!(raft.name, "Raft");
    assert_eq!(raft.shared_from, Some("A".to_string()));
    assert_eq!(raft.playtime_minutes, None);
}

#[test]
fn installed_is_set_from_the_scan() {
    let primary = vec![owned(10, "Portal", Some(90)), owned(20, "Doom", None)];
    let shared =
        vec![SharedLibrary { account: "A".to_string(), games: vec![owned(30, "Raft", None)] }];
    let scanned = vec![installed(20), installed(30), installed(99), installed(20)];
    let out = merge_library(&primary, &shared, &scanned);
    assert_eq!(out.len(), 3);
    assert!(!entry(&out, 10).installed);
    assert!(entry(&out, 20).installed);
    assert!(entry(&out, 30).installed);
}

#[test]
fn merging_twice_gives_the_same_entries() {
    let primary = vec![owned(1, "a", Some(1)), owned(2, "b", None), owned(1, "a again", Some(3))];
    let shared = vec![
        SharedLibrary { account: "S".to_string(), games: vec![owned(2, "b2", None), owned(3, "c", Some(4))] },
    ];
    let scanned = vec![installed(3)];
    let one = merge_library(&primary, &shared, &scanned);
    let two = merge_library(&primary, &shared, &scanned);
    assert_eq!(sorted(&one), sorted(&two));
    assert_eq!(one.len(), 3);
}

#[test]
fn later_primary_record_of_one_appid_stands() {
    let primary = vec![owned(1, "first", Some(1)), owned(1, "second", Some(2))];
    let out = merge_library(&primary, &vec![], &vec![]);
    assert_eq!(out.len(), 1);
    assert_eq!(out[0].name, "second");
    assert_eq!(out[0].playtime_minutes, Some(2));
}

#[test]
fn empty_inputs_merge_to_nothing() {
    let out = merge_library(&vec![], &vec![], &vec![installed(5)]);
    assert!(out.is_empty());
}

#[test]
fn owned_games_reads_the_listing() {
    let list = Some(vec![
        WireGame { appid: 7, name: Some("Seven".to_string()), playtime_forever: Some(12) },
        WireGame { appid: 8, name: None, playtime_forever: None },
    ]);
    let out = owned_games(&list);
    assert_eq!(out.len(), 2);
    assert_eq!(out[0].appid, 7);
    assert_eq!(out[0].name, "Seven");
    assert_eq!(out[0].playtime_minutes, Some(12));
    assert_eq!(out[1].appid, 8);
    assert_eq!(out[1].name, "");
    assert_eq!(out[1].playtime_minutes, None);
    assert!(owned_games(&None).is_empty());
}

#[test]
fn owned_games_url_is_exact() {
    assert_eq!(
        owned_games_url("KEY", "7656"),
        "https://api.steampowered.com/IPlayerService/GetOwnedGames/v1/?key=KEY&steamid=7656&include_appinfo=1&include_played_free_games=1"
    );
}
