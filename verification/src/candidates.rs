//! The candidate shortlist: one row per title with what its score is made
//! of, the rows ranked by score, and a greedy choice that keeps any one lead
//! genre from crowding the list.

use crate::genre::{fallback_tag, AppMeta};
use crate::model::{copy_texts, texts, LibraryGame};
use crate::profile::{genre_index, lowercase_all, lowered_all, tallies, PlayerProfile, Tally};
use crate::rank::{rank, rank_order};
use crate::text::{
    chars_of, eq_ignoring_ascii_case, same_ignoring_ascii_case, trim, trimmed,
};
use std::collections::HashMap;
use vstd::prelude::*;

verus! {

/// How many rows of one lead genre the shortlist takes.
pub const LEAD_GENRE_CAP: usize = 6;

/// How many rows the shortlist takes in all.
pub const SHORTLIST_LEN: usize = 20;

/// One title as a candidate.
///
/// `genre_minutes[i]` is what the profile counts for `genres[i]`, and
/// `rare_hits` how many of the genres the profile lists as rare: with the
/// flags and `playmin` they are what the composite score is computed from.
/// `score` is that score as an ordered key, higher for better; the shortlist
/// ranks by it and reads nothing else into it.
#[derive(Clone, Debug)]
pub struct CandRow {
    pub appid: i64,
    pub name: String,
    pub installed: bool,
    pub playmin: u32,
    pub genres: Vec<String>,
    pub genre_minutes: Vec<u64>,
    pub rare_hits: usize,
    pub score: u32,
}

/// The mathematical content of a [`CandRow`].
pub struct RowView {
    pub appid: i64,
    pub name: Seq<char>,
    pub installed: bool,
    pub playmin: u32,
    pub genres: Seq<Seq<char>>,
    pub genre_minutes: Seq<u64>,
    pub rare_hits: nat,
    pub score: u32,
}

impl View for CandRow {
    type V = RowView;

    open spec fn view(&self) -> RowView {
        RowView {
            appid: self.appid,
            name: self.name@,
            installed: self.installed,
            playmin: self.playmin,
            genres: texts(self.genres@),
            genre_minutes: self.genre_minutes@,
            rare_hits: self.rare_hits as nat,
            score: self.score,
        }
    }
}

/// The contents of a list of rows.
pub open spec fn row_views(rows: Seq<CandRow>) -> Seq<RowView> {
    rows.map_values(|r: CandRow| r@)
}

impl CandRow {
    /// A copy with the same content.
    pub fn copy(&self) -> (r: CandRow)
        ensures
            r@ == self@,
    {
        CandRow {
            appid: self.appid,
            name: self.name.clone(),
            installed: self.installed,
            playmin: self.playmin,
            genres: copy_texts(&self.genres),
            genre_minutes: self.genre_minutes.clone(),
            rare_hits: self.rare_hits,
            score: self.score,
        }
    }

    /// Whether the title was never played.
    pub fn never_played(&self) -> (r: bool)
        ensures
            r == (self.playmin == 0),
    {
        self.playmin == 0
    }

    /// Whether the title was played for one to nine minutes.
    pub fn barely_played(&self) -> (r: bool)
        ensures
            r == (1 <= self.playmin <= 9),
    {
        self.playmin > 0 && self.playmin < 10
    }
}

// ------------------------------------------------------------------ the rows

/// The minutes that the tally counts for a genre; none where it does not
/// hold the genre.
pub open spec fn minutes_of(tally: Seq<Tally>, genre: Seq<char>) -> nat {
    let i = genre_index(tally, genre);
    if 0 <= i < tally.len() {
        tally[i].minutes
    } else {
        0
    }
}

/// Whether `genre` is one of the rare genres, the case of ASCII letters
/// ignored.
pub open spec fn is_rare(rare: Seq<Seq<char>>, genre: Seq<char>) -> bool {
    exists|i: int| 0 <= i < rare.len() && same_ignoring_ascii_case(#[trigger] rare[i], genre)
}

/// How many of `genres` are rare.
pub open spec fn rare_hits_of(rare: Seq<Seq<char>>, genres: Seq<Seq<char>>) -> nat
    decreases genres.len(),
{
    if genres.len() == 0 {
        0
    } else {
        rare_hits_of(rare, genres.drop_last()) + if is_rare(rare, genres.last()) {
            1nat
        } else {
            0nat
        }
    }
}

/// The candidate row of a title with the given genres, `lowered` being the
/// same genres in lowercase; its score key is still zero.
pub open spec fn row_of(
    g: LibraryGame,
    genres: Seq<Seq<char>>,
    lowered: Seq<Seq<char>>,
    tally: Seq<Tally>,
    rare: Seq<Seq<char>>,
) -> RowView {
    RowView {
        appid: g.appid,
        name: g.name@,
        installed: g.installed,
        playmin: match g.playtime_minutes {
            Some(m) => m,
            None => 0,
        },
        genres: genres,
        genre_minutes: Seq::new(lowered.len(), |i: int| minutes_of(tally, lowered[i]) as u64),
        rare_hits: rare_hits_of(rare, genres),
        score: 0,
    }
}

/// The minutes that the profile counts for a genre.
pub fn genre_minutes(profile: &PlayerProfile, genre: &String) -> (r: u64)
    ensures
        r == minutes_of(tallies(profile.by_genre@), genre@),
{
    let ghost tally = tallies(profile.by_genre@);
    let mut i: usize = 0;
    while i < profile.by_genre.len() && profile.by_genre[i].genre != *genre
        invariant
            i <= profile.by_genre.len(),
            tally == tallies(profile.by_genre@),
            forall|j: int| 0 <= j < i ==> (#[trigger] tally[j]).genre != genre@,
        decreases profile.by_genre.len() - i,
    {
        assert(tally[i as int].genre == profile.by_genre@[i as int].genre@);
        i += 1;
    }
    proof {
        if i < profile.by_genre.len() {
            assert(tally[i as int].genre == profile.by_genre@[i as int].genre@);
        }
        crate::profile::lemma_genre_index_is(tally, genre@, i as int);
    }
    if i < profile.by_genre.len() {
        profile.by_genre[i].stats.minutes
    } else {
        0
    }
}

/// Whether `genre` is one of the rare genres, the case of ASCII letters
/// ignored.
pub fn genre_is_rare(rare: &Vec<String>, genre: &String) -> (r: bool)
    ensures
        r == is_rare(texts(rare@), genre@),
{
    let wanted = chars_of(genre.as_str());
    let mut i: usize = 0;
    while i < rare.len()
        invariant
            i <= rare.len(),
            wanted@ == genre@,
            forall|j: int|
                0 <= j < i ==> !same_ignoring_ascii_case(#[trigger] texts(rare@)[j], genre@),
        decreases rare.len() - i,
    {
        let have = chars_of(rare[i].as_str());
        assert(texts(rare@)[i as int] == have@);
        if eq_ignoring_ascii_case(&have, &wanted) {
            return true;
        }
        i += 1;
    }
    false
}

/// The candidate row of a title with the given genres, `lowered` being the
/// same genres in lowercase.
pub fn candidate_row(
    g: &LibraryGame,
    genres: Vec<String>,
    lowered: &Vec<String>,
    profile: &PlayerProfile,
) -> (row: CandRow)
    requires
        genres.len() == lowered.len(),
    ensures
        row@ == row_of(
            *g,
            texts(genres@),
            texts(lowered@),
            tallies(profile.by_genre@),
            texts(profile.rare_genres@),
        ),
{
    let ghost tally = tallies(profile.by_genre@);
    let ghost rare = texts(profile.rare_genres@);
    let mut minutes: Vec<u64> = Vec::new();
    let mut hits: usize = 0;
    let mut i: usize = 0;
    assert(texts(genres@).subrange(0, 0) =~= Seq::<Seq<char>>::empty());
    while i < genres.len()
        invariant
            i <= genres.len(),
            genres.len() == lowered.len(),
            tally == tallies(profile.by_genre@),
            rare == texts(profile.rare_genres@),
            minutes.len() == i,
            forall|j: int|
                0 <= j < i ==> #[trigger] minutes@[j] == minutes_of(tally, lowered@[j]@) as u64,
            hits == rare_hits_of(rare, texts(genres@).subrange(0, i as int)),
            hits <= i,
        decreases genres.len() - i,
    {
        minutes.push(genre_minutes(profile, &lowered[i]));
        assert(texts(genres@).subrange(0, i + 1).drop_last() == texts(genres@).subrange(
            0,
            i as int,
        ));
        assert(texts(genres@).subrange(0, i + 1).last() == genres@[i as int]@);
        if genre_is_rare(&profile.rare_genres, &genres[i]) {
            hits += 1;
        }
        i += 1;
    }
    assert(texts(genres@).subrange(0, genres.len() as int) == texts(genres@));
    assert(minutes@ =~= Seq::new(
        texts(lowered@).len(),
        |i: int| minutes_of(tally, texts(lowered@)[i]) as u64,
    ));
    CandRow {
        appid: g.appid,
        name: g.name.clone(),
        installed: g.installed,
        playmin: match g.playtime_minutes {
            Some(m) => m,
            None => 0,
        },
        genres,
        genre_minutes: minutes,
        rare_hits: hits,
        score: 0,
    }
}

/// The genres of a candidate: those of its metadata, or the fallback tag
/// where the metadata has no record of it or lists none.
pub open spec fn candidate_genres(meta: Map<i64, AppMeta>, k: i64) -> Seq<Seq<char>> {
    if meta.contains_key(k) && meta[k].genres@.len() > 0 {
        texts(meta[k].genres@)
    } else {
        seq![fallback_tag()]
    }
}

/// Whether a title can be a candidate: its name is more than white space.
pub open spec fn is_candidate(g: LibraryGame) -> bool {
    trimmed(g.name@).len() > 0
}

/// The candidate rows of a library, in library order.
pub open spec fn rows_of(
    lib: Seq<LibraryGame>,
    meta: Map<i64, AppMeta>,
    tally: Seq<Tally>,
    rare: Seq<Seq<char>>,
) -> Seq<RowView>
    decreases lib.len(),
{
    if lib.len() == 0 {
        Seq::empty()
    } else {
        let before = rows_of(lib.drop_last(), meta, tally, rare);
        let g = lib.last();
        if is_candidate(g) {
            let genres = candidate_genres(meta, g.appid);
            before.push(row_of(g, genres, lowered_all(genres), tally, rare))
        } else {
            before
        }
    }
}

/// Builds one candidate row for every title of the library that has a name,
/// with what its score is made of and a score key of zero.
pub fn candidate_rows(
    lib: &Vec<LibraryGame>,
    meta: &HashMap<i64, AppMeta>,
    profile: &PlayerProfile,
) -> (rows: Vec<CandRow>)
    ensures
        row_views(rows@) == rows_of(
            lib@,
            meta@,
            tallies(profile.by_genre@),
            texts(profile.rare_genres@),
        ),
{
    broadcast use vstd::std_specs::hash::group_hash_axioms;

    let ghost tally = tallies(profile.by_genre@);
    let ghost rare = texts(profile.rare_genres@);
    let mut rows: Vec<CandRow> = Vec::new();
    let mut i: usize = 0;
    assert(lib@.subrange(0, 0) =~= Seq::<LibraryGame>::empty());
    assert(row_views(rows@) =~= Seq::<RowView>::empty());
    while i < lib.len()
        invariant
            i <= lib.len(),
            tally == tallies(profile.by_genre@),
            rare == texts(profile.rare_genres@),
            row_views(rows@) == rows_of(lib@.subrange(0, i as int), meta@, tally, rare),
        decreases lib.len() - i,
    {
        let g = &lib[i];
        let ghost before = row_views(rows@);
        assert(lib@.subrange(0, i + 1).drop_last() == lib@.subrange(0, i as int));
        assert(lib@.subrange(0, i + 1).last() == *g);
        let shown = trim(g.name.as_str());
        if !shown.as_str().is_empty() {
            let known: Option<Vec<String>> = match meta.get(&g.appid) {
                Some(m) => if m.genres.len() > 0 {
                    Some(copy_texts(&m.genres))
                } else {
                    None
                },
                None => None,
            };
            let genres: Vec<String> = match known {
                Some(list) => list,
                None => {
                    let mut only: Vec<String> = Vec::new();
                    only.push("misc".to_owned());
                    assert(texts(only@) =~= seq![fallback_tag()]);
                    only
                },
            };
            assert(texts(genres@) == candidate_genres(meta@, g.appid));
            let lowered = lowercase_all(&genres);
            assert(texts(lowered@).len() == texts(genres@).len());
            let row = candidate_row(g, genres, &lowered, profile);
            rows.push(row);
            assert(row_views(rows@) =~= before.push(row@));
        }
        i += 1;
    }
    assert(lib@.subrange(0, lib.len() as int) == lib@);
    rows
}

// ------------------------------------------------------------- the shortlist

/// The score keys of the rows, as ranking keys.
pub open spec fn score_keys(rows: Seq<RowView>) -> Seq<u64> {
    Seq::new(rows.len(), |i: int| rows[i].score as u64)
}

/// The rows in the given order.
pub open spec fn arrange(rows: Seq<RowView>, order: Seq<usize>) -> Seq<RowView> {
    Seq::new(order.len(), |i: int| rows[order[i] as int])
}

/// The rows from the best score to the worst, rows of equal score in their
/// original order.
pub open spec fn by_score(rows: Seq<RowView>) -> Seq<RowView> {
    arrange(rows, rank_order(score_keys(rows)))
}

/// The lead genre of a row: the first of its genres.
pub open spec fn lead_genre(row: RowView) -> Seq<char> {
    if row.genres.len() > 0 {
        row.genres[0]
    } else {
        fallback_tag()
    }
}

/// How many rows of the list have the given lead genre.
pub open spec fn lead_count(kept: Seq<RowView>, lead: Seq<char>) -> nat
    decreases kept.len(),
{
    if kept.len() == 0 {
        0
    } else {
        lead_count(kept.drop_last(), lead) + if lead_genre(kept.last()) == lead {
            1nat
        } else {
            0nat
        }
    }
}

/// The greedy choice from rows in ranked order: a row is taken unless the
/// list is full or already holds six rows of its lead genre.
pub open spec fn select(sorted: Seq<RowView>) -> Seq<RowView>
    decreases sorted.len(),
{
    if sorted.len() == 0 {
        Seq::empty()
    } else {
        let before = select(sorted.drop_last());
        let row = sorted.last();
        if before.len() >= SHORTLIST_LEN || lead_count(before, lead_genre(row))
            >= LEAD_GENRE_CAP {
            before
        } else {
            before.push(row)
        }
    }
}

/// The shortlist of a set of scored rows.
pub open spec fn shortlist_of(rows: Seq<RowView>) -> Seq<RowView> {
    select(by_score(rows))
}

/// Diversity cap: a shortlist never holds more than twenty rows, nor more
/// than six rows of any one lead genre.
pub proof fn lemma_select_capped(sorted: Seq<RowView>, lead: Seq<char>)
    ensures
        select(sorted).len() <= SHORTLIST_LEN,
        lead_count(select(sorted), lead) <= LEAD_GENRE_CAP,
    decreases sorted.len(),
{
    if sorted.len() > 0 {
        lemma_select_capped(sorted.drop_last(), lead);
        let before = select(sorted.drop_last());
        let row = sorted.last();
        if !(before.len() >= SHORTLIST_LEN || lead_count(before, lead_genre(row))
            >= LEAD_GENRE_CAP) {
            assert(before.push(row).drop_last() == before);
        }
    }
}

/// Every row of a shortlist is one of the ranked rows.
pub proof fn lemma_select_from(sorted: Seq<RowView>, i: int)
    requires
        0 <= i < select(sorted).len(),
    ensures
        exists|j: int| 0 <= j < sorted.len() && #[trigger] sorted[j] == select(sorted)[i],
    decreases sorted.len(),
{
    if sorted.len() > 0 {
        let before = select(sorted.drop_last());
        if i < before.len() {
            lemma_select_from(sorted.drop_last(), i);
            let j = choose|j: int|
                0 <= j < sorted.drop_last().len() && #[trigger] sorted.drop_last()[j] == before[i];
            assert(sorted[j] == select(sorted)[i]);
        } else {
            assert(sorted[sorted.len() - 1] == select(sorted)[i]);
        }
    }
}

/// How many rows of the list have the given lead genre.
fn count_lead(kept: &Vec<CandRow>, lead: &String) -> (n: usize)
    ensures
        n == lead_count(row_views(kept@), lead@),
{
    let ghost views = row_views(kept@);
    let mut n: usize = 0;
    let mut i: usize = 0;
    assert(views.subrange(0, 0) =~= Seq::<RowView>::empty());
    while i < kept.len()
        invariant
            i <= kept.len(),
            views == row_views(kept@),
            n == lead_count(views.subrange(0, i as int), lead@),
            n <= i,
        decreases kept.len() - i,
    {
        assert(views.subrange(0, i + 1).drop_last() == views.subrange(0, i as int));
        assert(views.subrange(0, i + 1).last() == kept@[i as int]@);
        let same = lead_of(&kept[i]) == *lead;
        if same {
            n += 1;
        }
        i += 1;
    }
    assert(views.subrange(0, kept.len() as int) == views);
    n
}

/// The lead genre of a row.
pub fn lead_of(row: &CandRow) -> (lead: String)
    ensures
        lead@ == lead_genre(row@),
{
    if row.genres.len() > 0 {
        assert(texts(row.genres@)[0] == row.genres@[0]@);
        row.genres[0].clone()
    } else {
        "misc".to_owned()
    }
}

/// Chooses the shortlist from scored rows: the rows are ranked by score key,
/// best first and equal keys in their given order, and taken greedily; a row
/// is passed over when the list already holds six rows of its lead genre,
/// and the choice ends at twenty rows.
pub fn prefilter_candidates(rows: &Vec<CandRow>) -> (kept: Vec<CandRow>)
    ensures
        row_views(kept@) == shortlist_of(row_views(rows@)),
        kept.len() <= SHORTLIST_LEN,
        forall|lead: Seq<char>| lead_count(row_views(kept@), lead) <= LEAD_GENRE_CAP,
{
    let ghost views = row_views(rows@);
    let mut keys: Vec<u64> = Vec::new();
    let mut i: usize = 0;
    while i < rows.len()
        invariant
            i <= rows.len(),
            views == row_views(rows@),
            keys.len() == i,
            forall|j: int| 0 <= j < i ==> keys@[j] == (#[trigger] views[j]).score as u64,
        decreases rows.len() - i,
    {
        keys.push(rows[i].score as u64);
        i += 1;
    }
    assert(keys@ =~= score_keys(views));
    let order = rank(&keys);
    let ghost sorted = by_score(views);
    let mut kept: Vec<CandRow> = Vec::new();
    let mut t: usize = 0;
    assert(sorted.subrange(0, 0) =~= Seq::<RowView>::empty());
    assert(row_views(kept@) =~= Seq::<RowView>::empty());
    while t < order.len() && kept.len() < SHORTLIST_LEN
        invariant
            t <= order.len(),
            order.len() == rows.len(),
            order@ == rank_order(score_keys(views)),
            forall|a: int| 0 <= a < order.len() ==> (#[trigger] order@[a]) < rows.len(),
            views == row_views(rows@),
            sorted == by_score(views),
            row_views(kept@) == select(sorted.subrange(0, t as int)),
        decreases order.len() - t,
    {
        assert(order@[t as int] < rows.len());
        let row = &rows[order[t]];
        let ghost before = row_views(kept@);
        assert(sorted.subrange(0, t + 1).drop_last() == sorted.subrange(0, t as int));
        assert(sorted.subrange(0, t + 1).last() == row@);
        let lead = lead_of(row);
        if count_lead(&kept, &lead) < LEAD_GENRE_CAP {
            kept.push(row.copy());
            assert(row_views(kept@) =~= before.push(row@));
        }
        t += 1;
    }
    proof {
        lemma_select_full(sorted, t as int);
        assert forall|lead: Seq<char>| lead_count(row_views(kept@), lead) <= LEAD_GENRE_CAP by {
            lemma_select_capped(sorted, lead);
        }
        lemma_select_capped(sorted, fallback_tag());
    }
    kept
}

/// Once the choice from the first `t` ranked rows is full, the rows after
/// them change nothing.
proof fn lemma_select_full(sorted: Seq<RowView>, t: int)
    requires
        0 <= t <= sorted.len(),
        t == sorted.len() || select(sorted.subrange(0, t)).len() >= SHORTLIST_LEN,
    ensures
        select(sorted) == select(sorted.subrange(0, t)),
    decreases sorted.len() - t,
{
    if t == sorted.len() {
        assert(sorted.subrange(0, t) == sorted);
    } else {
        assert(sorted.subrange(0, t + 1).drop_last() == sorted.subrange(0, t));
        lemma_select_full(sorted, t + 1);
    }
}

} // verus!
