//! Genre tagging: a keyword heuristic over a title's name, kept as a table of
//! rules, and the per-title metadata cache that it fills.

use crate::model::{texts, LibraryGame};
use crate::text::{chars_of, contains, contains_text, lowercase, str_lower};
use std::collections::HashMap;
use vstd::prelude::*;

verus! {

/// Genre tags and co-op flag of one title.
#[derive(Clone, Debug)]
pub struct AppMeta {
    pub genres: Vec<String>,
    pub coop: bool,
}

/// The mathematical content of an [`AppMeta`].
pub struct AppMetaView {
    pub genres: Seq<Seq<char>>,
    pub coop: bool,
}

impl View for AppMeta {
    type V = AppMetaView;

    open spec fn view(&self) -> AppMetaView {
        AppMetaView { genres: texts(self.genres@), coop: self.coop }
    }
}

/// One tagging rule: a title whose lowercase name holds any of the keywords
/// gets the tag.
pub struct GenreRule {
    pub keywords: Vec<&'static str>,
    pub tag: &'static str,
}

/// The mathematical content of a [`GenreRule`].
pub struct RuleView {
    pub keywords: Seq<Seq<char>>,
    pub tag: Seq<char>,
}

impl View for GenreRule {
    type V = RuleView;

    open spec fn view(&self) -> RuleView {
        RuleView { keywords: self.keywords@.map_values(|s: &'static str| s@), tag: self.tag@ }
    }
}

/// The tag of a title that no rule matches.
pub open spec fn fallback_tag() -> Seq<char> {
    "misc"@
}

/// The tag that marks a co-op title.
pub open spec fn coop_tag() -> Seq<char> {
    "co-op"@
}

/// The tagging rules, in the order in which they are tried.
pub open spec fn rule_table() -> Seq<RuleView> {
    seq![
        RuleView {
            keywords: seq!["rpg"@, "souls"@, "witcher"@, "elder scrolls"@, "divinity"@],
            tag: "rpg"@,
        },
        RuleView {
            keywords: seq![
                "shoot"@,
                "doom"@,
                "cs"@,
                "counter-strike"@,
                "call of duty"@,
                "l4d"@,
                "left 4 dead"@,
            ],
            tag: "shooter"@,
        },
        RuleView { keywords: seq!["puzzle"@, "portal"@, "witness"@, "talos"@], tag: "puzzle"@ },
        RuleView {
            keywords: seq!["strategy"@, "civilization"@, "total war"@, "stellaris"@],
            tag: "strategy"@,
        },
        RuleView { keywords: seq!["action"@, "devil may cry"@, "bayonetta"@], tag: "action"@ },
        RuleView {
            keywords: seq!["platform"@, "ori"@, "hollow knight"@, "celeste"@],
            tag: "platformer"@,
        },
        RuleView {
            keywords: seq!["racing"@, "forza"@, "dirt"@, "need for speed"@],
            tag: "racing"@,
        },
        RuleView {
            keywords: seq!["survival"@, "raft"@, "forest"@, "don\u{2019}t starve"@, "7 days"@],
            tag: "survival"@,
        },
        RuleView {
            keywords: seq!["horror"@, "resident evil"@, "amnesia"@, "outlast"@],
            tag: "horror"@,
        },
        RuleView {
            keywords: seq![
                "co-op"@,
                "coop"@,
                "overcooked"@,
                "it takes two"@,
                "payday"@,
                "borderlands"@,
            ],
            tag: "co-op"@,
        },
    ]
}

/// The tagging rules as data.
pub fn genre_rules() -> (rules: Vec<GenreRule>)
    ensures
        rules@.map_values(|r: GenreRule| r@) == rule_table(),
{
    let rules = vec![
        GenreRule {
            keywords: vec!["rpg", "souls", "witcher", "elder scrolls", "divinity"],
            tag: "rpg",
        },
        GenreRule {
            keywords: vec![
                "shoot",
                "doom",
                "cs",
                "counter-strike",
                "call of duty",
                "l4d",
                "left 4 dead",
            ],
            tag: "shooter",
        },
        GenreRule { keywords: vec!["puzzle", "portal", "witness", "talos"], tag: "puzzle" },
        GenreRule {
            keywords: vec!["strategy", "civilization", "total war", "stellaris"],
            tag: "strategy",
        },
        GenreRule { keywords: vec!["action", "devil may cry", "bayonetta"], tag: "action" },
        GenreRule {
            keywords: vec!["platform", "ori", "hollow knight", "celeste"],
            tag: "platformer",
        },
        GenreRule { keywords: vec!["racing", "forza", "dirt", "need for speed"], tag: "racing" },
        GenreRule {
            keywords: vec!["survival", "raft", "forest", "don\u{2019}t starve", "7 days"],
            tag: "survival",
        },
        GenreRule {
            keywords: vec!["horror", "resident evil", "amnesia", "outlast"],
            tag: "horror",
        },
        GenreRule {
            keywords: vec!["co-op", "coop", "overcooked", "it takes two", "payday", "borderlands"],
            tag: "co-op",
        },
    ];
    proof {
        let got = rules@.map_values(|r: GenreRule| r@);
        let want = rule_table();
        assert(got.len() == want.len());
        assert forall|i: int| 0 <= i < got.len() implies got[i] == want[i] by {
            assert(got[i].keywords =~= want[i].keywords);
        }
        assert(got =~= want);
    }
    rules
}

/// Whether the lowercase name holds one of the rule's keywords.
pub open spec fn rule_hits(lowered: Seq<char>, rule: RuleView) -> bool {
    exists|j: int| 0 <= j < rule.keywords.len() && contains_text(lowered, #[trigger] rule.keywords[j])
}

/// The tags of the rules among `rules` that the lowercase name matches, in
/// rule order.
pub open spec fn matched_tags(lowered: Seq<char>, rules: Seq<RuleView>) -> Seq<Seq<char>>
    decreases rules.len(),
{
    if rules.len() == 0 {
        Seq::empty()
    } else {
        let before = matched_tags(lowered, rules.drop_last());
        if rule_hits(lowered, rules.last()) {
            before.push(rules.last().tag)
        } else {
            before
        }
    }
}

/// The genre tags of a title with the given lowercase name: the tag of every
/// rule that matches, or the fallback tag alone where none does.
pub open spec fn tags_from(lowered: Seq<char>) -> Seq<Seq<char>> {
    let tags = matched_tags(lowered, rule_table());
    if tags.len() == 0 {
        seq![fallback_tag()]
    } else {
        tags
    }
}

/// The metadata derived from a lowercase name.
pub open spec fn meta_from(lowered: Seq<char>) -> AppMetaView {
    AppMetaView {
        genres: tags_from(lowered),
        coop: exists|i: int|
            0 <= i < tags_from(lowered).len() && #[trigger] tags_from(lowered)[i] == coop_tag(),
    }
}

/// Whether the lowercase name holds one of the rule's keywords.
pub fn rule_matches(lowered: &Vec<char>, rule: &GenreRule) -> (r: bool)
    ensures
        r == rule_hits(lowered@, rule@),
{
    let mut j: usize = 0;
    while j < rule.keywords.len()
        invariant
            j <= rule.keywords.len(),
            forall|t: int| 0 <= t < j ==> !contains_text(lowered@, #[trigger] rule@.keywords[t]),
        decreases rule.keywords.len() - j,
    {
        let keyword = chars_of(rule.keywords[j]);
        assert(rule@.keywords[j as int] == keyword@);
        if contains(lowered, &keyword) {
            return true;
        }
        j += 1;
    }
    false
}

/// The genre tags of a title, from its lowercase name.
pub fn genre_tags(lowered: &str) -> (tags: Vec<String>)
    ensures
        texts(tags@) == tags_from(lowered@),
{
    let name = chars_of(lowered);
    let rules = genre_rules();
    let ghost table = rules@.map_values(|r: GenreRule| r@);
    let mut tags: Vec<String> = Vec::new();
    let mut i: usize = 0;
    assert(table.subrange(0, 0) =~= Seq::<RuleView>::empty());
    assert(texts(tags@) =~= Seq::<Seq<char>>::empty());
    while i < rules.len()
        invariant
            i <= rules.len(),
            name@ == lowered@,
            table == rules@.map_values(|r: GenreRule| r@),
            texts(tags@) == matched_tags(lowered@, table.subrange(0, i as int)),
        decreases rules.len() - i,
    {
        let ghost before = texts(tags@);
        assert(table.subrange(0, i + 1).drop_last() == table.subrange(0, i as int));
        assert(table.subrange(0, i + 1).last() == rules@[i as int]@);
        if rule_matches(&name, &rules[i]) {
            tags.push(rules[i].tag.to_owned());
            assert(texts(tags@) =~= before.push(rules@[i as int]@.tag));
        }
        i += 1;
    }
    assert(table.subrange(0, rules.len() as int) == table);
    if tags.len() == 0 {
        tags.push("misc".to_owned());
        assert(texts(tags@) =~= seq![fallback_tag()]);
    }
    tags
}

/// The metadata of a title, from its lowercase name.
pub fn meta_for_lowered(lowered: &str) -> (meta: AppMeta)
    ensures
        meta@ == meta_from(lowered@),
{
    let genres = genre_tags(lowered);
    let coop_name = "co-op".to_owned();
    let mut coop = false;
    let mut i: usize = 0;
    while i < genres.len()
        invariant
            i <= genres.len(),
            coop_name@ == coop_tag(),
            coop == (exists|j: int| 0 <= j < i && #[trigger] texts(genres@)[j] == coop_tag()),
        decreases genres.len() - i,
    {
        assert(texts(genres@)[i as int] == genres@[i as int]@);
        if genres[i] == coop_name {
            coop = true;
        }
        i += 1;
    }
    AppMeta { genres, coop }
}

/// The metadata of a title, derived from its name.
pub fn derive_meta(name: &str) -> (meta: AppMeta)
    ensures
        meta@ == meta_from(str_lower(name@)),
{
    let lowered = lowercase(name);
    meta_for_lowered(lowered.as_str())
}

/// Whether the library holds a title with appid `k`.
pub open spec fn in_library(lib: Seq<LibraryGame>, k: i64) -> bool {
    exists|i: int| 0 <= i < lib.len() && #[trigger] lib[i].appid == k
}

/// Gives every title of the library that the cache does not hold yet its
/// derived metadata. What the cache holds is never derived again: an appid
/// that was present keeps its record, and a new appid is tagged from the name
/// of its first entry in the library.
pub fn ensure_basic_meta(lib: &Vec<LibraryGame>, meta: &mut HashMap<i64, AppMeta>)
    ensures
        forall|k: i64|
            final(meta)@.contains_key(k) <==> (old(meta)@.contains_key(k) || in_library(lib@, k)),
        forall|k: i64| old(meta)@.contains_key(k) ==> final(meta)@[k] == old(meta)@[k],
        forall|i: int|
            0 <= i < lib.len() && !old(meta)@.contains_key(lib[i].appid) && (forall|j: int|
                0 <= j < i ==> lib[j].appid != lib[i].appid) ==> final(meta)@[(
            #[trigger] lib[i]).appid]@ == meta_from(str_lower(lib[i].name@)),
{
    broadcast use vstd::std_specs::hash::group_hash_axioms;

    let mut n: usize = 0;
    while n < lib.len()
        invariant
            n <= lib.len(),
            forall|k: i64|
                meta@.contains_key(k) <==> (old(meta)@.contains_key(k) || in_library(
                    lib@.subrange(0, n as int),
                    k,
                )),
            forall|k: i64| old(meta)@.contains_key(k) ==> meta@[k] == old(meta)@[k],
            forall|i: int|
                0 <= i < n && !old(meta)@.contains_key(lib[i].appid) && (forall|j: int|
                    0 <= j < i ==> lib[j].appid != lib[i].appid) ==> meta@[(
                #[trigger] lib[i]).appid]@ == meta_from(str_lower(lib[i].name@)),
        decreases lib.len() - n,
    {
        let g = &lib[n];
        let ghost before = lib@.subrange(0, n as int);
        let ghost after = lib@.subrange(0, n + 1);
        let ghost prior = meta@;
        let known = meta.contains_key(&g.appid);
        if !known {
            let derived = derive_meta(g.name.as_str());
            meta.insert(g.appid, derived);
        }
        proof {
            assert forall|k: i64|
                in_library(after, k) <==> (in_library(before, k) || k == g.appid) by {
                if in_library(after, k) {
                    let i = choose|i: int| 0 <= i < after.len() && #[trigger] after[i].appid == k;
                    if i < n {
                        assert(before[i].appid == k);
                    }
                }
                if in_library(before, k) {
                    let i = choose|i: int|
                        0 <= i < before.len() && #[trigger] before[i].appid == k;
                    assert(after[i].appid == k);
                }
                if k == g.appid {
                    assert(after[n as int].appid == k);
                }
            }
            assert forall|i: int|
                0 <= i < n + 1 && !old(meta)@.contains_key(lib[i].appid) && (forall|j: int|
                    0 <= j < i ==> lib[j].appid != lib[i].appid) implies meta@[(
            #[trigger] lib[i]).appid]@ == meta_from(str_lower(lib[i].name@)) by {
                if i < n {
                    assert(before[i].appid == lib[i].appid);
                    assert(in_library(before, lib[i].appid));
                    assert(prior.contains_key(lib[i].appid));
                } else {
                    if known {
                        assert(in_library(before, g.appid));
                        let j = choose|j: int|
                            0 <= j < before.len() && #[trigger] before[j].appid == g.appid;
                        assert(lib[j].appid == lib[i].appid);
                    }
                }
            }
        }
        n += 1;
    }
    assert(lib@.subrange(0, lib.len() as int) == lib@);
}

} // verus!
