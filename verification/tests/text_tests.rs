use steamgamehelper::rank::rank;
use steamgamehelper::text::{
    char_is_space, chars_of, contains, eq_ignoring_ascii_case, find, i64_chars, matches_at,
    parse_unsigned, string_of, trim, trim_chars, u64_chars,
};

fn cs(s: &str) -> Vec<char> {
    s.chars().collect()
}

#[test]
fn white_space_is_the_unicode_property() {
    for c in '\u{0}'..='\u{3100}' {
        assert_eq!(char_is_space(c), c.is_whitespace(), "{:?}", c);
    }
    assert!(!char_is_space('\u{feff}'));
    assert!(!char_is_space('\u{200b}'));
}

#[test]
fn chars_and_strings_convert_both_ways() {
    let s = "a\u{436}\u{2014}\u{1f600}z";
    assert_eq!(chars_of(s), cs(s));
    assert_eq!(string_of(&cs(s)), s);
    assert_eq!(string_of(&vec![]), "");
}

#[test]
fn trim_removes_white_space_at_both_ends() {
    assert_eq!(trim("  a b \t\n"), "a b");
    assert_eq!(trim("\u{a0}x\u{3000}"), "x");
    assert_eq!(trim("   "), "");
    assert_eq!(trim(""), "");
    assert_eq!(trim("x"), "x");
    assert_eq!(trim_chars(&cs(" \u{2003}ab ")), cs("ab"));
}

#[test]
fn contains_finds_a_run_anywhere() {
    assert!(contains(&cs("counter-strike"), &cs("cs")) == false);
    assert!(contains(&cs("physics"), &cs("cs")));
    assert!(contains(&cs("abc"), &cs("")));
    assert!(contains(&cs(""), &cs("")));
    assert!(!contains(&cs("ab"), &cs("abc")));
    assert!(contains(&cs("abc"), &cs("abc")));
    assert!(contains(&cs("xxabc"), &cs("abc")));
    assert!(matches_at(&cs("xxabc"), &cs("abc"), 2));
    assert!(!matches_at(&cs("xxabc"), &cs("abc"), 1));
}

#[test]
fn find_gives_the_first_place() {
    assert_eq!(find(&cs("a<|end|>b<|end|>"), &cs("<|end|>")), Some(1));
    assert_eq!(find(&cs("abc"), &cs("<|end|>")), None);
    assert_eq!(find(&cs("abc"), &cs("c")), Some(2));
    assert_eq!(find(&cs("abc"), &cs("")), Some(0));
}

#[test]
fn ascii_case_is_ignored_letter_by_letter() {
    assert!(eq_ignoring_ascii_case(&cs("RpG"), &cs("rPg")));
    assert!(!eq_ignoring_ascii_case(&cs("rpg"), &cs("rpgs")));
    assert!(!eq_ignoring_ascii_case(&cs("@"), &cs("`")));
    assert!(!eq_ignoring_ascii_case(&cs("["), &cs("{")));
    assert!(eq_ignoring_ascii_case(&cs(""), &cs("")));
    for a in ["a", "Z", "[", "@", "\u{e9}", "\u{c9}", "k", "\u{212a}"] {
        for b in ["A", "z", "{", "`", "\u{e9}", "\u{c9}", "K", "\u{212a}"] {
            assert_eq!(eq_ignoring_ascii_case(&cs(a), &cs(b)), a.eq_ignore_ascii_case(b));
        }
    }
}

#[test]
fn unsigned_numbers_are_read_up_to_the_limit() {
    assert_eq!(parse_unsigned(&cs("0"), 10), Some(0));
    assert_eq!(parse_unsigned(&cs("10"), 10), Some(10));
    assert_eq!(parse_unsigned(&cs("11"), 10), None);
    assert_eq!(parse_unsigned(&cs("+10"), 10), Some(10));
    assert_eq!(parse_unsigned(&cs("0000000000000000000000010"), 10), Some(10));
    assert_eq!(parse_unsigned(&cs("4294967295"), u32::MAX as u64), Some(4294967295));
    assert_eq!(parse_unsigned(&cs("4294967296"), u32::MAX as u64), None);
    assert_eq!(parse_unsigned(&cs("9223372036854775807"), i64::MAX as u64), Some(i64::MAX as u64));
    assert_eq!(parse_unsigned(&cs("9223372036854775808"), i64::MAX as u64), None);
    assert_eq!(parse_unsigned(&cs("++1"), 10), None);
    assert_eq!(parse_unsigned(&cs("1+"), 10), None);
    assert_eq!(parse_unsigned(&cs(" 1"), 10), None);
    assert_eq!(parse_unsigned(&cs("99x"), 10), None);
    assert_eq!(parse_unsigned(&cs("5"), 0), None);
    assert_eq!(parse_unsigned(&cs("0"), 0), Some(0));
}

#[test]
fn numbers_are_written_in_decimal() {
    assert_eq!(string_of(&u64_chars(0)), "0");
    assert_eq!(string_of(&u64_chars(9)), "9");
    assert_eq!(string_of(&u64_chars(10)), "10");
    assert_eq!(string_of(&u64_chars(4294967295)), "4294967295");
    assert_eq!(string_of(&u64_chars(u64::MAX)), u64::MAX.to_string());
    assert_eq!(string_of(&i64_chars(0)), "0");
    assert_eq!(string_of(&i64_chars(-1)), "-1");
    assert_eq!(string_of(&i64_chars(730)), "730");
    assert_eq!(string_of(&i64_chars(i64::MIN)), i64::MIN.to_string());
    assert_eq!(string_of(&i64_chars(i64::MAX)), i64::MAX.to_string());
}

#[test]
fn ranking_is_a_stable_descending_sort() {
    assert_eq!(rank(&vec![]), Vec::<usize>::new());
    assert_eq!(rank(&vec![5]), vec![0]);
    assert_eq!(rank(&vec![1, 3, 2]), vec![1, 2, 0]);
    assert_eq!(rank(&vec![2, 2, 2]), vec![0, 1, 2]);
    assert_eq!(rank(&vec![1, 9, 1, 9, 5]), vec![1, 3, 4, 0, 2]);
    let keys: Vec<u64> = (0..200).map(|i| (i * 7919 % 13) as u64).collect();
    let order = rank(&keys);
    let mut want: Vec<usize> = (0..200).collect();
    want.sort_by(|a, b| keys[*b].cmp(&keys[*a]));
    assert_eq!(order, want);
}
