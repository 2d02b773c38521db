use std::collections::HashMap;
use steamgamehelper::candidates::{
    candidate_row, candidate_rows, genre_is_rare, genre_minutes, lead_of, prefilter_candidates,
    CandRow,
};
use steamgamehelper::genre::AppMeta;
use steamgamehelper::model::LibraryGame;
use steamgamehelper::profile::{GenreEntry, GenreStats, PlayerProfile};

fn game(appid: i64, name: &str, installed: bool, minutes: Option<u32>) -> LibraryGame {
    LibraryGame { appid, name: name.to_string(), installed, shared_from: None, playtime_minutes: minutes }
}

fn profile(by_genre: &[(&str, u64)], rare: &[&str]) -> PlayerProfile {
    PlayerProfile {
        by_genre: by_genre
            .iter()
            .map(|(g, m)| GenreEntry { genre: g.to_string(), stats: GenreStats { minutes: *m, count: 1 } })
            .collect(),
        rare_genres: rare.iter().map(|g| g.to_string()).collect(),
        top_genres: vec![],
        total_unplayed: 0,
        total_barely_tried: 0,
        updated_at: 0,
        avg_play_minutes: 120,
        max_play_minutes: 600,
        short_threshold: 72,
        long_threshold: 510,
    }
}

fn row(appid: i64, lead: &str, score: u32) -> CandRow {
    CandRow {
        appid,
        name: format!("row {}", appid),
        installed: false,
        playmin: 0,
        genres: vec![lead.to_string()],
        genre_minutes: vec![0],
        rare_hits: 0,
        score,
    }
}

#[test]
fn rows_are_made_for_named_titles_only() {
    let lib = vec![
        game(1, "Doom", true, Some(5)),
        game(2, "   ", false, None),
        game(3, "", false, None),
        game(4, "Raft", false, None),
    ];
    let mut meta: HashMap<i64, AppMeta> = HashMap::new();
    meta.insert(1, AppMeta { genres: vec!["Shooter".to_string(), "horror".to_string()], coop: false });
    meta.insert(4, AppMeta { genres: vec![], coop: false });
    let p = profile(&[("shooter", 300), ("misc", 40)], &["HORROR", "misc"]);
    let rows = candidate_rows(&lib, &meta, &p);
    assert_eq!(rows.len(), 2);
    assert_eq!(rows[0].appid, 1);
    assert_eq!(rows[0].name, "Doom");
    assert!(rows[0].installed);
    assert_eq!(rows[0].playmin, 5);
    assert_eq!(rows[0].genres, vec!["Shooter", "horror"]);
    assert_eq!(rows[0].genre_minutes, vec![300, 0]);
    assert_eq!(rows[0].rare_hits, 1);
    assert_eq!(rows[0].score, 0);
    assert!(rows[0].barely_played());
    assert!(!rows[0].never_played());
    assert_eq!(rows[1].appid, 4);
    assert_eq!(rows[1].genres, vec!["misc"]);
    assert_eq!(rows[1].genre_minutes, vec![40]);
    assert_eq!(rows[1].rare_hits, 1);
    assert_eq!(rows[1].playmin, 0);
    assert!(rows[1].never_played());
    assert!(!rows[1].barely_played());
}

#[test]
fn a_title_without_metadata_is_a_misc_candidate() {
    let lib = vec![game(9, "Unknown", false, Some(100))];
    let rows = candidate_rows(&lib, &HashMap::new(), &profile(&[], &[]));
    assert_eq!(rows.len(), 1);
    assert_eq!(rows[0].genres, vec!["misc"]);
    assert_eq!(rows[0].genre_minutes, vec![0]);
    assert_eq!(rows[0].rare_hits, 0);
}

#[test]
fn candidate_row_looks_genres_up_by_their_lowercase_form() {
    let p = profile(&[("rpg", 3000)], &["rpg"]);
    let g = game(1, "X", false, None);
    let r = candidate_row(&g, vec!["RPG".to_string()], &vec!["rpg".to_string()], &p);
    assert_eq!(r.genre_minutes, vec![3000]);
    assert_eq!(r.rare_hits, 1);
    let r = candidate_row(&g, vec!["RPG".to_string()], &vec!["RPG".to_string()], &p);
    assert_eq!(r.genre_minutes, vec![0]);
}

#[test]
fn rare_match_ignores_ascii_case_only() {
    let rare = vec!["Co-Op".to_string(), "\u{414}".to_string()];
    assert!(genre_is_rare(&rare, &"co-op".to_string()));
    assert!(genre_is_rare(&rare, &"CO-OP".to_string()));
    assert!(!genre_is_rare(&rare, &"coop".to_string()));
    assert!(!genre_is_rare(&rare, &"\u{434}".to_string()));
    assert!(genre_is_rare(&rare, &"\u{414}".to_string()));
}

#[test]
fn genre_minutes_of_an_unknown_genre_is_zero() {
    let p = profile(&[("a", 5), ("b", 6)], &[]);
    assert_eq!(genre_minutes(&p, &"b".to_string()), 6);
    assert_eq!(genre_minutes(&p, &"c".to_string()), 0);
}

#[test]
fn lead_genre_is_the_first_genre() {
    assert_eq!(lead_of(&row(1, "rpg", 0)), "rpg");
    let mut bare = row(1, "rpg", 0);
    bare.genres.clear();
    assert_eq!(lead_of(&bare), "misc");
}

#[test]
fn shortlist_ranks_by_score_and_keeps_ties_in_order() {
    let rows = vec![row(1, "a", 5), row(2, "b", 9), row(3, "c", 5), row(4, "d", 7)];
    let kept = prefilter_candidates(&rows);
    let ids: Vec<i64> = kept.iter().map(|r| r.appid).collect();
    assert_eq!(ids, vec![2, 4, 1, 3]);
}

#[test]
fn shortlist_takes_six_rows_of_a_lead_genre_at_most() {
    let mut rows: Vec<CandRow> = Vec::new();
    for i in 0..10 {
        rows.push(row(i, "rpg", 100 - i as u32));
    }
    rows.push(row(50, "puzzle", 1));
    let kept = prefilter_candidates(&rows);
    let ids: Vec<i64> = kept.iter().map(|r| r.appid).collect();
    assert_eq!(ids, vec![0, 1, 2, 3, 4, 5, 50]);
}

#[test]
fn shortlist_never_exceeds_twenty_rows() {
    let leads = ["a", "b", "c", "d", "e"];
    let mut rows: Vec<CandRow> = Vec::new();
    for i in 0..60 {
        rows.push(row(i, leads[i as usize % 5], 1000 - i as u32));
    }
    let kept = prefilter_candidates(&rows);
    assert_eq!(kept.len(), 20);
    let ids: Vec<i64> = kept.iter().map(|r| r.appid).collect();
    assert_eq!(ids, (0..20).collect::<Vec<i64>>());
    for lead in leads {
        assert!(kept.iter().filter(|r| r.genres[0] == lead).count() <= 6);
    }
}

#[test]
fn shortlist_passes_over_a_full_genre_and_goes_on() {
    let mut rows: Vec<CandRow> = Vec::new();
    for i in 0..30 {
        rows.push(row(i, if i < 8 { "x" } else if i < 16 { "y" } else if i < 24 { "z" } else { "w" }, 500 - i as u32));
    }
    let kept = prefilter_candidates(&rows);
    let ids: Vec<i64> = kept.iter().map(|r| r.appid).collect();
    assert_eq!(ids, vec![0, 1, 2, 3, 4, 5, 8, 9, 10, 11, 12, 13, 16, 17, 18, 19, 20, 21, 24, 25]);
}

#[test]
fn shortlist_of_nothing_is_empty() {
    assert!(prefilter_candidates(&vec![]).is_empty());
}
