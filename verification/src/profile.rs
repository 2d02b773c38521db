//! The player profile: how much was played per genre, which genres lead and
//! which are rare, how many titles wait unplayed, and the session thresholds
//! that adapt to the player's own average and maximum.

use crate::genre::{fallback_tag, AppMeta};
use crate::model::{texts, LibraryGame};
use crate::rank::{rank, rank_order};
use crate::text::{lowercase, str_lower};
use std::collections::HashMap;
use vstd::prelude::*;

verus! {

/// Minutes and titles counted for one genre.
#[derive(Clone, Copy, Debug)]
pub struct GenreStats {
    pub minutes: u64,
    pub count: u32,
}

impl Default for GenreStats {
    fn default() -> (r: GenreStats)
        ensures
            r.minutes == 0,
            r.count == 0,
    {
        GenreStats { minutes: 0, count: 0 }
    }
}

/// One genre of the profile with its figures.
#[derive(Clone, Debug)]
pub struct GenreEntry {
    pub genre: String,
    pub stats: GenreStats,
}

/// The mathematical content of a [`GenreEntry`].
pub struct Tally {
    pub genre: Seq<char>,
    pub minutes: nat,
    pub count: nat,
}

impl View for GenreEntry {
    type V = Tally;

    open spec fn view(&self) -> Tally {
        Tally {
            genre: self.genre@,
            minutes: self.stats.minutes as nat,
            count: self.stats.count as nat,
        }
    }
}

/// The tallies that a list of genre entries stands for.
pub open spec fn tallies(v: Seq<GenreEntry>) -> Seq<Tally> {
    v.map_values(|e: GenreEntry| e@)
}

/// A player's habits, derived from the merged library.
#[derive(Clone, Debug)]
pub struct PlayerProfile {
    pub by_genre: Vec<GenreEntry>,
    pub rare_genres: Vec<String>,
    pub top_genres: Vec<String>,
    pub total_unplayed: u32,
    pub total_barely_tried: u32,
    pub updated_at: u64,
    pub avg_play_minutes: u32,
    pub max_play_minutes: u32,
    pub short_threshold: u32,
    pub long_threshold: u32,
}

/// The average assumed where nothing was played.
pub const DEFAULT_AVERAGE_MINUTES: u32 = 120;

/// The maximum assumed where nothing was played.
pub const DEFAULT_MAXIMUM_MINUTES: u32 = 600;

/// How many genres the top list and the rare list hold at most.
pub const GENRE_LIST_LEN: usize = 5;

// ---------------------------------------------------------------- thresholds

/// `0.6 * n`, rounded to the nearest whole number, a half upwards.
pub open spec fn six_tenths(n: nat) -> nat {
    (6 * n + 5) / 10
}

/// `2.2 * n`, rounded to the nearest whole number, a half upwards.
pub open spec fn twenty_two_tenths(n: nat) -> nat {
    (22 * n + 5) / 10
}

/// `0.85 * n`, rounded to the nearest whole number, a half upwards.
pub open spec fn eighty_five_hundredths(n: nat) -> nat {
    (17 * n + 10) / 20
}

/// The short-session threshold: six tenths of the average, kept within
/// 20 and 120 minutes.
pub open spec fn short_threshold_of(avg: u32) -> nat {
    let raw = six_tenths(avg as nat);
    if raw < 20 {
        20
    } else if raw > 120 {
        120
    } else {
        raw
    }
}

/// The ceiling of the long-session threshold: eighty-five hundredths of the
/// maximum, but never under 300 minutes.
pub open spec fn long_cap_of(max: u32) -> nat {
    let cap = eighty_five_hundredths(max as nat);
    if cap < 300 {
        300
    } else {
        cap
    }
}

/// What the average asks of the long-session threshold: 2.2 times the
/// average, and at least 600 minutes.
pub open spec fn long_want_of(avg: u32) -> nat {
    let raw = twenty_two_tenths(avg as nat);
    if raw < 600 {
        600
    } else {
        raw
    }
}

/// The long-session threshold: what the average asks for, brought down to
/// the ceiling where it lies above eighty-five hundredths of the maximum.
pub open spec fn long_threshold_of(avg: u32, max: u32) -> nat {
    if long_want_of(avg) > eighty_five_hundredths(max as nat) {
        long_cap_of(max)
    } else {
        long_want_of(avg)
    }
}

/// The long threshold is the smaller of what the average asks for and the
/// ceiling that the maximum allows; so it never exceeds that ceiling and
/// never falls under 300 minutes.
pub proof fn lemma_long_threshold_is_min(avg: u32, max: u32)
    ensures
        long_threshold_of(avg, max) == if long_want_of(avg) <= long_cap_of(max) {
            long_want_of(avg)
        } else {
            long_cap_of(max)
        },
        long_threshold_of(avg, max) <= long_cap_of(max),
        300 <= long_threshold_of(avg, max),
{
}

/// The short and the long session threshold for an average and a maximum
/// playtime.
pub fn session_thresholds(avg: u32, max: u32) -> (r: (u32, u32))
    ensures
        r.0 == short_threshold_of(avg),
        r.1 == long_threshold_of(avg, max),
        20 <= r.0 <= 120,
        300 <= r.1 <= long_cap_of(max),
{
    let short_raw: u64 = (6 * (avg as u64) + 5) / 10;
    let short: u32 = if short_raw < 20 {
        20
    } else if short_raw > 120 {
        120
    } else {
        short_raw as u32
    };
    let long_raw: u64 = (22 * (avg as u64) + 5) / 10;
    let want: u64 = if long_raw < 600 {
        600
    } else {
        long_raw
    };
    let cap: u64 = (17 * (max as u64) + 10) / 20;
    let long: u64 = if want > cap {
        if cap < 300 {
            300
        } else {
            cap
        }
    } else {
        want
    };
    (short, long as u32)
}

// --------------------------------------------------------------- the figures

/// The minutes played of a title; none where no playtime is known.
pub open spec fn played(g: LibraryGame) -> nat {
    match g.playtime_minutes {
        Some(m) => m as nat,
        None => 0,
    }
}

/// How many titles were never played.
pub open spec fn unplayed_count(lib: Seq<LibraryGame>) -> nat
    decreases lib.len(),
{
    if lib.len() == 0 {
        0
    } else {
        unplayed_count(lib.drop_last()) + if played(lib.last()) == 0 {
            1nat
        } else {
            0nat
        }
    }
}

/// How many titles were played for one to nine minutes.
pub open spec fn barely_count(lib: Seq<LibraryGame>) -> nat
    decreases lib.len(),
{
    if lib.len() == 0 {
        0
    } else {
        barely_count(lib.drop_last()) + if 1 <= played(lib.last()) <= 9 {
            1nat
        } else {
            0nat
        }
    }
}

/// How many titles were played at all.
pub open spec fn played_titles(lib: Seq<LibraryGame>) -> nat
    decreases lib.len(),
{
    if lib.len() == 0 {
        0
    } else {
        played_titles(lib.drop_last()) + if played(lib.last()) > 0 {
            1nat
        } else {
            0nat
        }
    }
}

/// The minutes played over all titles.
pub open spec fn played_sum(lib: Seq<LibraryGame>) -> nat
    decreases lib.len(),
{
    if lib.len() == 0 {
        0
    } else {
        played_sum(lib.drop_last()) + played(lib.last())
    }
}

/// The most minutes played of any one title.
pub open spec fn played_max(lib: Seq<LibraryGame>) -> nat
    decreases lib.len(),
{
    if lib.len() == 0 {
        0
    } else if played(lib.last()) > played_max(lib.drop_last()) {
        played(lib.last())
    } else {
        played_max(lib.drop_last())
    }
}

/// The average playtime of the titles that were played; 120 where none was.
pub open spec fn average_minutes(lib: Seq<LibraryGame>) -> nat {
    if played_titles(lib) > 0 {
        played_sum(lib) / played_titles(lib)
    } else {
        DEFAULT_AVERAGE_MINUTES as nat
    }
}

/// The maximum playtime of the titles that were played; 600 where none was.
pub open spec fn maximum_minutes(lib: Seq<LibraryGame>) -> nat {
    if played_max(lib) > 0 {
        played_max(lib)
    } else {
        DEFAULT_MAXIMUM_MINUTES as nat
    }
}

proof fn lemma_figures_bounded(lib: Seq<LibraryGame>)
    ensures
        unplayed_count(lib) <= lib.len(),
        barely_count(lib) <= lib.len(),
        played_titles(lib) <= lib.len(),
        played_sum(lib) <= played_titles(lib) * 0xFFFF_FFFF,
        played_max(lib) <= 0xFFFF_FFFF,
    decreases lib.len(),
{
    if lib.len() > 0 {
        lemma_figures_bounded(lib.drop_last());
    }
}

// ------------------------------------------------------------- the genre tally

/// The position of `genre` in the tally, or the tally's length where it is
/// absent.
pub open spec fn genre_index(tally: Seq<Tally>, genre: Seq<char>) -> int
    decreases tally.len(),
{
    if tally.len() == 0 {
        0
    } else if tally[0].genre == genre {
        0
    } else {
        1 + genre_index(tally.drop_first(), genre)
    }
}

/// The tally after one more title of `genre` with `minutes` played: its
/// genre's figures grow, or the genre joins at the end.
pub open spec fn tally_add(tally: Seq<Tally>, genre: Seq<char>, minutes: nat) -> Seq<Tally> {
    let i = genre_index(tally, genre);
    if 0 <= i < tally.len() {
        tally.update(
            i,
            Tally { genre: genre, minutes: tally[i].minutes + minutes, count: tally[i].count + 1 },
        )
    } else {
        tally.push(Tally { genre: genre, minutes: minutes, count: 1 })
    }
}

/// The tally after one title with the given genres: it counts once for each
/// of them.
pub open spec fn tally_title(tally: Seq<Tally>, genres: Seq<Seq<char>>, minutes: nat) -> Seq<
    Tally,
>
    decreases genres.len(),
{
    if genres.len() == 0 {
        tally
    } else {
        tally_add(tally_title(tally, genres.drop_last(), minutes), genres.last(), minutes)
    }
}

/// The tally of a library whose titles carry the given genres, title by
/// title in library order.
pub open spec fn tally_library(lib: Seq<LibraryGame>, tags: Seq<Seq<Seq<char>>>) -> Seq<Tally>
    decreases lib.len(),
{
    if lib.len() == 0 || tags.len() == 0 {
        Seq::empty()
    } else {
        tally_title(
            tally_library(lib.drop_last(), tags.drop_last()),
            tags.last(),
            played(lib.last()),
        )
    }
}

/// How many genre tags the titles carry in all.
pub open spec fn tag_total(tags: Seq<Seq<Seq<char>>>) -> nat
    decreases tags.len(),
{
    if tags.len() == 0 {
        0
    } else {
        tag_total(tags.drop_last()) + tags.last().len()
    }
}

/// No genre of the tally counts more than `limit` titles, and none more
/// minutes than its titles can have.
pub open spec fn bounded(tally: Seq<Tally>, limit: nat) -> bool {
    forall|i: int|
        0 <= i < tally.len() ==> (#[trigger] tally[i]).count <= limit && tally[i].minutes
            <= tally[i].count * 0xFFFF_FFFF
}

proof fn lemma_genre_index(tally: Seq<Tally>, genre: Seq<char>)
    ensures
        0 <= genre_index(tally, genre) <= tally.len(),
        genre_index(tally, genre) < tally.len() ==> tally[genre_index(tally, genre)].genre
            == genre,
        forall|j: int| 0 <= j < genre_index(tally, genre) ==> (#[trigger] tally[j]).genre != genre,
    decreases tally.len(),
{
    if tally.len() > 0 && tally[0].genre != genre {
        let rest = tally.drop_first();
        lemma_genre_index(rest, genre);
        assert forall|j: int| 0 <= j < genre_index(tally, genre) implies (#[trigger] tally[j]).genre
            != genre by {
            if j > 0 {
                assert(rest[j - 1] == tally[j]);
            }
        }
    }
}

/// The position of a genre is the first place where its name stands.
pub proof fn lemma_genre_index_is(tally: Seq<Tally>, genre: Seq<char>, i: int)
    requires
        0 <= i <= tally.len(),
        forall|j: int| 0 <= j < i ==> (#[trigger] tally[j]).genre != genre,
        i < tally.len() ==> tally[i].genre == genre,
    ensures
        genre_index(tally, genre) == i,
    decreases tally.len(),
{
    if tally.len() > 0 {
        if i == 0 {
        } else {
            let rest = tally.drop_first();
            assert(tally[0].genre != genre);
            assert forall|j: int| 0 <= j < i - 1 implies (#[trigger] rest[j]).genre != genre by {
                assert(rest[j] == tally[j + 1]);
            }
            lemma_genre_index_is(rest, genre, i - 1);
        }
    }
}

proof fn lemma_tally_add_bounded(tally: Seq<Tally>, genre: Seq<char>, minutes: nat, limit: nat)
    requires
        bounded(tally, limit),
        minutes <= 0xFFFF_FFFF,
    ensures
        bounded(tally_add(tally, genre, minutes), limit + 1),
{
    lemma_genre_index(tally, genre);
    let after = tally_add(tally, genre, minutes);
    assert forall|i: int| 0 <= i < after.len() implies (#[trigger] after[i]).count <= limit + 1
        && after[i].minutes <= after[i].count * 0xFFFF_FFFF by {
        if i < tally.len() {
            assert(tally[i].count <= limit);
        }
    }
}

/// Counts one title of `genre` with `minutes` played.
fn add_to_tally(
    by_genre: &mut Vec<GenreEntry>,
    genre: String,
    minutes: u32,
    Ghost(limit): Ghost<nat>,
)
    requires
        bounded(tallies(old(by_genre)@), limit),
        limit < 0xFFFF_FFFF,
    ensures
        tallies(final(by_genre)@) == tally_add(tallies(old(by_genre)@), genre@, minutes as nat),
        bounded(tallies(final(by_genre)@), limit + 1),
{
    let ghost before = tallies(by_genre@);
    let mut i: usize = 0;
    while i < by_genre.len() && by_genre[i].genre != genre
        invariant
            i <= by_genre.len(),
            before == tallies(by_genre@),
            forall|j: int| 0 <= j < i ==> (#[trigger] before[j]).genre != genre@,
        decreases by_genre.len() - i,
    {
        assert(before[i as int].genre == by_genre@[i as int].genre@);
        i += 1;
    }
    proof {
        if i < by_genre.len() {
            assert(before[i as int].genre == by_genre@[i as int].genre@);
        }
        lemma_genre_index_is(before, genre@, i as int);
        lemma_tally_add_bounded(before, genre@, minutes as nat, limit);
    }
    if i < by_genre.len() {
        let stats = by_genre[i].stats;
        assert(before[i as int].count <= limit);
        assert(before[i as int].minutes <= before[i as int].count * 0xFFFF_FFFF);
        let entry = GenreEntry {
            genre,
            stats: GenreStats {
                minutes: stats.minutes + minutes as u64,
                count: stats.count + 1,
            },
        };
        by_genre.set(i, entry);
    } else {
        by_genre.push(GenreEntry { genre, stats: GenreStats { minutes: minutes as u64, count: 1 } });
    }
    assert(tallies(by_genre@) =~= tally_add(before, genre@, minutes as nat));
}

// ------------------------------------------------------- leading and rare genres

/// The minutes of each genre of the tally, as ranking keys.
pub open spec fn minute_keys(tally: Seq<Tally>) -> Seq<u64> {
    Seq::new(tally.len(), |i: int| tally[i].minutes as u64)
}

/// The genre names at the first `n` positions of `order`, or at all of them
/// where there are fewer.
pub open spec fn pick_genres(tally: Seq<Tally>, order: Seq<usize>, n: nat) -> Seq<Seq<char>> {
    Seq::new(
        if order.len() < n {
            order.len()
        } else {
            n
        },
        |i: int| tally[order[i] as int].genre,
    )
}

/// The five genres with the most minutes, the most first; genres of equal
/// minutes in the order in which the tally took them up.
pub open spec fn top_genres_of(tally: Seq<Tally>) -> Seq<Seq<char>> {
    pick_genres(tally, rank_order(minute_keys(tally)), GENRE_LIST_LEN as nat)
}

/// The five genres at the low end of the same ranking, read backwards.
pub open spec fn rare_genres_of(tally: Seq<Tally>) -> Seq<Seq<char>> {
    pick_genres(tally, rank_order(minute_keys(tally)).reverse(), GENRE_LIST_LEN as nat)
}

/// The leading and the rare genres of a tally.
pub fn leading_and_rare(by_genre: &Vec<GenreEntry>) -> (r: (Vec<String>, Vec<String>))
    ensures
        texts(r.0@) == top_genres_of(tallies(by_genre@)),
        texts(r.1@) == rare_genres_of(tallies(by_genre@)),
{
    let ghost tally = tallies(by_genre@);
    let mut keys: Vec<u64> = Vec::new();
    let mut i: usize = 0;
    while i < by_genre.len()
        invariant
            i <= by_genre.len(),
            tally == tallies(by_genre@),
            keys.len() == i,
            forall|j: int| 0 <= j < i ==> keys@[j] == (#[trigger] tally[j]).minutes as u64,
        decreases by_genre.len() - i,
    {
        keys.push(by_genre[i].stats.minutes);
        i += 1;
    }
    assert(keys@ =~= minute_keys(tally));
    let order = rank(&keys);
    let n = order.len();
    let take: usize = if n < GENRE_LIST_LEN {
        n
    } else {
        GENRE_LIST_LEN
    };
    let mut top: Vec<String> = Vec::new();
    let mut rare: Vec<String> = Vec::new();
    let mut t: usize = 0;
    while t < take
        invariant
            t <= take <= n,
            n == order.len(),
            n == by_genre.len(),
            tally == tallies(by_genre@),
            forall|a: int| 0 <= a < n ==> (#[trigger] order@[a]) < n,
            top.len() == t,
            rare.len() == t,
            forall|j: int| 0 <= j < t ==> (#[trigger] top@[j])@ == tally[order@[j] as int].genre,
            forall|j: int|
                0 <= j < t ==> (#[trigger] rare@[j])@ == tally[order@[n - 1 - j] as int].genre,
        decreases take - t,
    {
        assert(order@[t as int] < n);
        assert(order@[n - 1 - t] < n);
        top.push(by_genre[order[t]].genre.clone());
        rare.push(by_genre[order[n - 1 - t]].genre.clone());
        t += 1;
    }
    proof {
        let backwards = order@.reverse();
        assert forall|j: int| 0 <= j < take implies backwards[j] == order@[n - 1 - j] by {}
        assert(texts(top@) =~= top_genres_of(tally));
        assert(texts(rare@) =~= rare_genres_of(tally));
    }
    (top, rare)
}

// ------------------------------------------------------------------ the profile

/// The genre lists of the titles, as texts.
pub open spec fn tag_texts(tags: Seq<Vec<String>>) -> Seq<Seq<Seq<char>>> {
    tags.map_values(|t: Vec<String>| texts(t@))
}

/// `p` is the profile of a library whose titles carry the given genres,
/// built at time `now`.
pub open spec fn describes(
    p: PlayerProfile,
    lib: Seq<LibraryGame>,
    tags: Seq<Seq<Seq<char>>>,
    now: u64,
) -> bool {
    &&& tallies(p.by_genre@) == tally_library(lib, tags)
    &&& texts(p.top_genres@) == top_genres_of(tally_library(lib, tags))
    &&& texts(p.rare_genres@) == rare_genres_of(tally_library(lib, tags))
    &&& p.total_unplayed == unplayed_count(lib)
    &&& p.total_barely_tried == barely_count(lib)
    &&& p.updated_at == now
    &&& p.avg_play_minutes == average_minutes(lib)
    &&& p.max_play_minutes == maximum_minutes(lib)
    &&& p.short_threshold == short_threshold_of(p.avg_play_minutes)
    &&& p.long_threshold == long_threshold_of(p.avg_play_minutes, p.max_play_minutes)
}

proof fn lemma_tag_total_prefix(tags: Seq<Seq<Seq<char>>>, n: int)
    requires
        0 <= n <= tags.len(),
    ensures
        tag_total(tags.subrange(0, n)) <= tag_total(tags),
        n < tags.len() ==> tag_total(tags.subrange(0, n + 1)) == tag_total(tags.subrange(0, n))
            + tags[n].len(),
    decreases tags.len() - n,
{
    if n < tags.len() {
        lemma_tag_total_prefix(tags, n + 1);
        assert(tags.subrange(0, n + 1).drop_last() == tags.subrange(0, n));
    } else {
        assert(tags.subrange(0, n) == tags);
    }
}

/// Builds the profile of a library whose titles carry the given lowercase
/// genres, `tags[i]` being those of `lib[i]`.
pub fn profile_from_tags(lib: &Vec<LibraryGame>, tags: &Vec<Vec<String>>, now: u64) -> (p:
    PlayerProfile)
    requires
        lib.len() == tags.len(),
        lib.len() <= u32::MAX,
        tag_total(tag_texts(tags@)) <= u32::MAX,
    ensures
        describes(p, lib@, tag_texts(tags@), now),
        20 <= p.short_threshold <= 120,
        300 <= p.long_threshold <= long_cap_of(p.max_play_minutes),
{
    let ghost all = tag_texts(tags@);
    let mut by_genre: Vec<GenreEntry> = Vec::new();
    let mut unplayed: u32 = 0;
    let mut barely: u32 = 0;
    let mut sum: u64 = 0;
    let mut count: u64 = 0;
    let mut max: u32 = 0;
    let mut n: usize = 0;
    assert(tallies(by_genre@) =~= Seq::<Tally>::empty());
    while n < lib.len()
        invariant
            n <= lib.len(),
            lib.len() == tags.len(),
            lib.len() <= u32::MAX,
            all == tag_texts(tags@),
            tag_total(all) <= u32::MAX,
            tallies(by_genre@) == tally_library(
                lib@.subrange(0, n as int),
                all.subrange(0, n as int),
            ),
            bounded(tallies(by_genre@), tag_total(all.subrange(0, n as int))),
            unplayed == unplayed_count(lib@.subrange(0, n as int)),
            barely == barely_count(lib@.subrange(0, n as int)),
            sum == played_sum(lib@.subrange(0, n as int)),
            count == played_titles(lib@.subrange(0, n as int)),
            max == played_max(lib@.subrange(0, n as int)),
        decreases lib.len() - n,
    {
        let g = &lib[n];
        let genres = &tags[n];
        let ghost seen = lib@.subrange(0, n as int);
        let ghost next = lib@.subrange(0, n + 1);
        proof {
            assert(next.drop_last() == seen);
            assert(next.last() == *g);
            assert(all.subrange(0, n + 1).drop_last() == all.subrange(0, n as int));
            assert(all.subrange(0, n + 1).last() == texts(genres@));
            lemma_figures_bounded(seen);
            lemma_figures_bounded(next);
            lemma_tag_total_prefix(all, n as int);
            lemma_tag_total_prefix(all, n + 1);
        }
        let minutes: u32 = match g.playtime_minutes {
            Some(m) => m,
            None => 0,
        };
        assert(minutes == played(*g));
        if minutes == 0 {
            unplayed += 1;
        }
        if minutes > 0 && minutes < 10 {
            barely += 1;
        }
        if minutes > 0 {
            sum += minutes as u64;
            count += 1;
            if minutes > max {
                max = minutes;
            }
        }
        let ghost start = tallies(by_genre@);
        let ghost base = tag_total(all.subrange(0, n as int));
        let mut j: usize = 0;
        while j < genres.len()
            invariant
                j <= genres.len(),
                base + genres.len() <= u32::MAX,
                tallies(by_genre@) == tally_title(
                    start,
                    texts(genres@).subrange(0, j as int),
                    minutes as nat,
                ),
                bounded(tallies(by_genre@), (base + j) as nat),
            decreases genres.len() - j,
        {
            assert(texts(genres@).subrange(0, j + 1).drop_last() == texts(genres@).subrange(
                0,
                j as int,
            ));
            assert(texts(genres@).subrange(0, j + 1).last() == genres@[j as int]@);
            add_to_tally(&mut by_genre, genres[j].clone(), minutes, Ghost((base + j) as nat));
            j += 1;
        }
        assert(texts(genres@).subrange(0, genres.len() as int) == texts(genres@));
        n += 1;
    }
    proof {
        assert(lib@.subrange(0, lib.len() as int) == lib@);
        assert(all.subrange(0, lib.len() as int) == all);
        lemma_figures_bounded(lib@);
    }
    let avg: u32 = if count > 0 {
        assert(sum / count <= 0xFFFF_FFFF) by (nonlinear_arith)
            requires
                count > 0,
                sum <= count * 0xFFFF_FFFF,
        ;
        (sum / count) as u32
    } else {
        DEFAULT_AVERAGE_MINUTES
    };
    let max_nonzero: u32 = if max > 0 {
        max
    } else {
        DEFAULT_MAXIMUM_MINUTES
    };
    let (short_threshold, long_threshold) = session_thresholds(avg, max_nonzero);
    let (top_genres, rare_genres) = leading_and_rare(&by_genre);
    PlayerProfile {
        by_genre,
        rare_genres,
        top_genres,
        total_unplayed: unplayed,
        total_barely_tried: barely,
        updated_at: now,
        avg_play_minutes: avg,
        max_play_minutes: max_nonzero,
        short_threshold,
        long_threshold,
    }
}

/// The genres under which a title counts: those of its metadata, or the
/// fallback tag where the metadata has no record of it.
pub open spec fn title_genres(meta: Map<i64, AppMeta>, k: i64) -> Seq<Seq<char>> {
    if meta.contains_key(k) {
        texts(meta[k].genres@)
    } else {
        seq![fallback_tag()]
    }
}

/// Each genre name in lowercase.
pub open spec fn lowered_all(genres: Seq<Seq<char>>) -> Seq<Seq<char>> {
    genres.map_values(|g: Seq<char>| str_lower(g))
}

/// The lowercase genres of each title of the library.
pub open spec fn library_tags(lib: Seq<LibraryGame>, meta: Map<i64, AppMeta>) -> Seq<
    Seq<Seq<char>>,
> {
    Seq::new(lib.len(), |i: int| lowered_all(title_genres(meta, lib[i].appid)))
}

/// How many genre tags the titles of the library carry in all.
pub open spec fn tag_count(lib: Seq<LibraryGame>, meta: Map<i64, AppMeta>) -> nat
    decreases lib.len(),
{
    if lib.len() == 0 {
        0
    } else {
        tag_count(lib.drop_last(), meta) + title_genres(meta, lib.last().appid).len()
    }
}

proof fn lemma_tag_count(lib: Seq<LibraryGame>, meta: Map<i64, AppMeta>)
    ensures
        tag_total(library_tags(lib, meta)) == tag_count(lib, meta),
    decreases lib.len(),
{
    if lib.len() > 0 {
        lemma_tag_count(lib.drop_last(), meta);
        assert(library_tags(lib, meta).drop_last() =~= library_tags(lib.drop_last(), meta));
    }
}

/// Each genre name of `genres` in lowercase.
pub fn lowercase_all(genres: &Vec<String>) -> (r: Vec<String>)
    ensures
        texts(r@) == lowered_all(texts(genres@)),
{
    let mut r: Vec<String> = Vec::new();
    let mut i: usize = 0;
    while i < genres.len()
        invariant
            i <= genres.len(),
            r.len() == i,
            forall|j: int| 0 <= j < i ==> (#[trigger] r@[j])@ == str_lower(genres@[j]@),
        decreases genres.len() - i,
    {
        r.push(lowercase(genres[i].as_str()));
        i += 1;
    }
    assert(texts(r@) =~= lowered_all(texts(genres@)));
    r
}

/// The lowercase genres of each title of the library.
pub fn game_tags(lib: &Vec<LibraryGame>, meta: &HashMap<i64, AppMeta>) -> (tags: Vec<Vec<String>>)
    ensures
        tag_texts(tags@) == library_tags(lib@, meta@),
{
    broadcast use vstd::std_specs::hash::group_hash_axioms;

    let mut tags: Vec<Vec<String>> = Vec::new();
    let mut i: usize = 0;
    while i < lib.len()
        invariant
            i <= lib.len(),
            tags.len() == i,
            forall|j: int|
                0 <= j < i ==> texts((#[trigger] tags@[j])@) == lowered_all(
                    title_genres(meta@, lib@[j].appid),
                ),
        decreases lib.len() - i,
    {
        let lowered = match meta.get(&lib[i].appid) {
            Some(m) => lowercase_all(&m.genres),
            None => {
                let mut only: Vec<String> = Vec::new();
                only.push("misc".to_owned());
                assert(texts(only@) =~= seq![fallback_tag()]);
                lowercase_all(&only)
            },
        };
        tags.push(lowered);
        i += 1;
    }
    assert(tag_texts(tags@) =~= library_tags(lib@, meta@));
    tags
}

/// Whether the library is small enough for the profile's counters: no more
/// titles and no more genre tags than a 32-bit count holds.
pub fn profile_fits(lib: &Vec<LibraryGame>, meta: &HashMap<i64, AppMeta>) -> (r: bool)
    ensures
        r == (lib.len() <= u32::MAX && tag_count(lib@, meta@) <= u32::MAX),
{
    broadcast use vstd::std_specs::hash::group_hash_axioms;

    if lib.len() > 0xFFFF_FFFF {
        return false;
    }
    let mut total: u64 = 0;
    let mut i: usize = 0;
    while i < lib.len()
        invariant
            i <= lib.len(),
            lib.len() <= u32::MAX,
            total == tag_count(lib@.subrange(0, i as int), meta@),
            total <= u32::MAX,
        decreases lib.len() - i,
    {
        let len: usize = match meta.get(&lib[i].appid) {
            Some(m) => m.genres.len(),
            None => 1,
        };
        proof {
            assert(lib@.subrange(0, i + 1).drop_last() == lib@.subrange(0, i as int));
            assert(lib@.subrange(0, i + 1).last() == lib@[i as int]);
            assert(len == title_genres(meta@, lib@[i as int].appid).len());
            lemma_tag_count_prefix(lib@, meta@, i + 1);
        }
        if len as u64 > 0xFFFF_FFFF - total {
            return false;
        }
        total += len as u64;
        i += 1;
    }
    assert(lib@.subrange(0, lib.len() as int) == lib@);
    true
}

proof fn lemma_tag_count_prefix(lib: Seq<LibraryGame>, meta: Map<i64, AppMeta>, n: int)
    requires
        0 <= n <= lib.len(),
    ensures
        tag_count(lib.subrange(0, n), meta) <= tag_count(lib, meta),
    decreases lib.len() - n,
{
    if n < lib.len() {
        lemma_tag_count_prefix(lib, meta, n + 1);
        assert(lib.subrange(0, n + 1).drop_last() == lib.subrange(0, n));
    } else {
        assert(lib.subrange(0, n) == lib);
    }
}

/// Builds the player profile from the merged library and the genre metadata,
/// stamped with the time `now`.
///
/// A title counts under each of its genres, taken in lowercase; a title
/// without metadata counts under the fallback tag.
pub fn build_profile(lib: &Vec<LibraryGame>, meta: &HashMap<i64, AppMeta>, now: u64) -> (p:
    PlayerProfile)
    requires
        lib.len() <= u32::MAX,
        tag_count(lib@, meta@) <= u32::MAX,
    ensures
        describes(p, lib@, library_tags(lib@, meta@), now),
        20 <= p.short_threshold <= 120,
        300 <= p.long_threshold <= long_cap_of(p.max_play_minutes),
{
    let tags = game_tags(lib, meta);
    proof {
        lemma_tag_count(lib@, meta@);
    }
    profile_from_tags(lib, &tags, now)
}

} // verus!
