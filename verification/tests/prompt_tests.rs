use steamgamehelper::candidates::CandRow;
use steamgamehelper::model::LibraryGame;
use steamgamehelper::profile::PlayerProfile;
use steamgamehelper::prompt::{
    build_llm_prompt, llm_chat, llm_error, make_candidates_tsv, make_profile_json,
    require_library, ChatUserMsg,
};

fn profile(top: &[&str], rare: &[&str]) -> PlayerProfile {
    PlayerProfile {
        by_genre: vec![],
        rare_genres: rare.iter().map(|g| g.to_string()).collect(),
        top_genres: top.iter().map(|g| g.to_string()).collect(),
        total_unplayed: 60,
        total_barely_tried: 3,
        updated_at: 1,
        avg_play_minutes: 117,
        max_play_minutes: 600,
        short_threshold: 70,
        long_threshold: 510,
    }
}

fn row(appid: i64, name: &str, installed: bool, lead: &str, score: u32) -> CandRow {
    CandRow {
        appid,
        name: name.to_string(),
        installed,
        playmin: 0,
        genres: vec![lead.to_string()],
        genre_minutes: vec![0],
        rare_hits: 0,
        score,
    }
}

fn game(appid: i64) -> LibraryGame {
    LibraryGame {
        appid,
        name: "g".to_string(),
        installed: false,
        shared_from: None,
        playtime_minutes: None,
    }
}

const SYSTEM: &str = "Ти — локальний асистент SteamGameHelper. Відповідай мовою користувача, лаконічно. Із наданого профілю й кандидатів вибери 5–7 найкращих і поверни СТРОГО JSON: {\"picks\":[{\"appid\":<number>,\"reason\":\"<<=120 символів>\"}, ...]}. Не вигадуй ігор поза переліком. Причини конкретні (кооп/коротка/жанр/встановлено), без повторів.";

#[test]
fn the_profile_record_is_exact() {
    let p = profile(&["rpg", "co-op"], &["racing"]);
    assert_eq!(
        make_profile_json(&p),
        "{\"top_gen\":[\"rpg\",\"co-op\"],\"rare_gen\":[\"racing\"],\"avg_min\":117,\"short_thr\":70,\"long_thr\":510,\"unplayed\":60,\"barely\":3}"
    );
}

#[test]
fn the_profile_record_of_no_genres_has_empty_lists() {
    let mut p = profile(&[], &[]);
    p.avg_play_minutes = 0;
    p.total_unplayed = u32::MAX;
    assert_eq!(
        make_profile_json(&p),
        "{\"top_gen\":[],\"rare_gen\":[],\"avg_min\":0,\"short_thr\":70,\"long_thr\":510,\"unplayed\":4294967295,\"barely\":3}"
    );
}

#[test]
fn genre_names_are_escaped_as_json_strings() {
    let p = profile(&["a\"b\\c", "tab\there", "\u{1}\u{1f}\u{7f}\u{e9}", "\u{8}\u{c}\n\r"], &[]);
    let text = make_profile_json(&p);
    assert!(text.starts_with(
        "{\"top_gen\":[\"a\\\"b\\\\c\",\"tab\\there\",\"\\u0001\\u001f\u{7f}\u{e9}\",\"\\b\\f\\n\\r\"],\"rare_gen\":[]"
    ));
}

#[test]
fn the_candidate_table_has_one_row_per_line() {
    let rows = vec![
        row(620, "Portal 2", true, "puzzle", 0),
        row(-5, "Tab\tand\nbreak", false, "misc", 0),
        row(7, "", false, "misc", 0),
    ];
    assert_eq!(
        make_candidates_tsv(&rows),
        "appid\tname\tinstalled\n620\tPortal 2\t1\n-5\tTab and break\t0\n7\t\t0\n"
    );
    assert_eq!(make_candidates_tsv(&vec![]), "appid\tname\tinstalled\n");
}

#[test]
fn the_request_joins_the_trimmed_parts() {
    let (system, user) = build_llm_prompt("  something short \n", " {\"a\":1}\n", "appid\tname\n1\tx\n");
    assert_eq!(system, SYSTEM);
    assert_eq!(user, "something short\n\n[profile]\n{\"a\":1}\n\n[candidates_tsv]\nappid\tname\n1\tx");
}

#[test]
fn an_empty_library_asks_for_a_scan() {
    assert_eq!(
        require_library(&vec![]),
        Err("Library is empty. Scan your library first.".to_string())
    );
    assert_eq!(require_library(&vec![game(1)]), Ok(()));
}

#[test]
fn no_candidate_asks_to_scan_again() {
    let user = ChatUserMsg { text: "hi".to_string() };
    let r = llm_chat(&user, &profile(&[], &[]), &vec![]);
    assert_eq!(r, Err("No candidates to recommend. Try scanning again.".to_string()));
}

#[test]
fn the_chat_request_holds_profile_and_shortlist() {
    let user = ChatUserMsg { text: " co-op tonight? ".to_string() };
    let rows = vec![row(1, "Low", false, "a", 1), row(2, "High", true, "b", 9)];
    let r = llm_chat(&user, &profile(&["rpg"], &["b"]), &rows);
    let (system, text) = r.unwrap();
    assert_eq!(system, SYSTEM);
    assert_eq!(
        text,
        "co-op tonight?\n\n[profile]\n{\"top_gen\":[\"rpg\"],\"rare_gen\":[\"b\"],\"avg_min\":117,\"short_thr\":70,\"long_thr\":510,\"unplayed\":60,\"barely\":3}\n\n[candidates_tsv]\nappid\tname\tinstalled\n2\tHigh\t1\n1\tLow\t0"
    );
}

#[test]
fn a_model_error_is_shown_with_its_prefix() {
    assert_eq!(llm_error("Model path not set"), "LLM error: Model path not set");
    assert_eq!(llm_error(""), "LLM error: ");
}
