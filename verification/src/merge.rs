//! The library merger: ownership fetched for the primary account and for the
//! shared accounts, combined with what the scanner found installed, into one
//! entry per title.

use crate::model::{Game, LibraryEntry, LibraryGame};
use crate::text::{append_text, string_of};
use std::collections::HashMap;
use std::collections::HashSet;
use vstd::prelude::*;

verus! {

/// One title of one account's ownership listing.
#[derive(Clone, Debug)]
pub struct OwnedGame {
    pub appid: i64,
    pub name: String,
    pub playtime_minutes: Option<u32>,
}

/// The ownership listing of one shared account.
#[derive(Clone, Debug)]
pub struct SharedLibrary {
    pub account: String,
    pub games: Vec<OwnedGame>,
}

/// The titles that the scan reports as installed.
pub open spec fn installed_ids(scanned: Seq<Game>) -> Set<i64> {
    Set::new(|k: i64| exists|i: int| 0 <= i < scanned.len() && scanned[i].appid == k)
}

/// The merged entry of a title owned by the primary account.
pub open spec fn primary_entry(g: OwnedGame, installed: Set<i64>) -> LibraryEntry {
    LibraryEntry {
        appid: g.appid,
        name: g.name@,
        installed: installed.contains(g.appid),
        shared_from: None,
        playtime_minutes: g.playtime_minutes,
    }
}

/// The merged entry of a title that only a shared account owns: it names the
/// account and carries no playtime.
pub open spec fn shared_entry(g: OwnedGame, account: Seq<char>, installed: Set<i64>)
    -> LibraryEntry {
    LibraryEntry {
        appid: g.appid,
        name: g.name@,
        installed: installed.contains(g.appid),
        shared_from: Some(account),
        playtime_minutes: None,
    }
}

/// The primary account's titles by appid; of two records with one appid the
/// later stands.
pub open spec fn merge_primary(primary: Seq<OwnedGame>, installed: Set<i64>) -> Map<
    i64,
    LibraryEntry,
>
    decreases primary.len(),
{
    if primary.len() == 0 {
        Map::empty()
    } else {
        merge_primary(primary.drop_last(), installed).insert(
            primary.last().appid,
            primary_entry(primary.last(), installed),
        )
    }
}

/// `m` with the titles of one shared account added where the appid is absent.
pub open spec fn merge_account(
    m: Map<i64, LibraryEntry>,
    account: Seq<char>,
    games: Seq<OwnedGame>,
    installed: Set<i64>,
) -> Map<i64, LibraryEntry>
    decreases games.len(),
{
    if games.len() == 0 {
        m
    } else {
        let before = merge_account(m, account, games.drop_last(), installed);
        let g = games.last();
        if before.dom().contains(g.appid) {
            before
        } else {
            before.insert(g.appid, shared_entry(g, account, installed))
        }
    }
}

/// `m` with the shared accounts added in list order.
pub open spec fn merge_shared(
    m: Map<i64, LibraryEntry>,
    shared: Seq<SharedLibrary>,
    installed: Set<i64>,
) -> Map<i64, LibraryEntry>
    decreases shared.len(),
{
    if shared.len() == 0 {
        m
    } else {
        merge_account(
            merge_shared(m, shared.drop_last(), installed),
            shared.last().account@,
            shared.last().games@,
            installed,
        )
    }
}

/// The merged library by appid.
pub open spec fn merged(
    primary: Seq<OwnedGame>,
    shared: Seq<SharedLibrary>,
    installed: Set<i64>,
) -> Map<i64, LibraryEntry> {
    merge_shared(merge_primary(primary, installed), shared, installed)
}

/// `out` holds exactly the entries of `m`, one per appid.
pub open spec fn lists(out: Seq<LibraryGame>, m: Map<i64, LibraryEntry>) -> bool {
    &&& forall|i: int|
        0 <= i < out.len() ==> m.dom().contains(#[trigger] out[i].appid) && out[i]@
            == m[out[i].appid]
    &&& forall|k: i64|
        m.dom().contains(k) ==> exists|i: int| 0 <= i < out.len() && #[trigger] out[i].appid == k
    &&& forall|i: int, j: int|
        0 <= i < j < out.len() ==> #[trigger] out[i].appid != #[trigger] out[j].appid
}

/// `out` holds the entries of `m` and `index` gives each appid its position.
pub open spec fn indexed(
    out: Seq<LibraryGame>,
    index: Map<i64, usize>,
    m: Map<i64, LibraryEntry>,
) -> bool {
    &&& index.dom() == m.dom()
    &&& forall|k: i64| #[trigger]
        index.dom().contains(k) ==> index[k] < out.len() && out[index[k] as int].appid == k
            && out[index[k] as int]@ == m[k]
    &&& forall|i: int|
        0 <= i < out.len() ==> index.dom().contains(#[trigger] out[i].appid)
            && index[out[i].appid] == i
}

/// An indexed list lists its map.
pub proof fn lemma_indexed_lists(
    out: Seq<LibraryGame>,
    index: Map<i64, usize>,
    m: Map<i64, LibraryEntry>,
)
    requires
        indexed(out, index, m),
    ensures
        lists(out, m),
{
    assert forall|k: i64| m.dom().contains(k) implies exists|i: int|
        0 <= i < out.len() && #[trigger] out[i].appid == k by {
        assert(index.dom().contains(k));
        assert(out[index[k] as int].appid == k);
    }
    assert forall|i: int, j: int| 0 <= i < j < out.len() implies #[trigger] out[i].appid
        != #[trigger] out[j].appid by {
        assert(index[out[i].appid] == i);
        assert(index[out[j].appid] == j);
    }
}

/// The appids of the scanned titles, as a set.
pub fn installed_set(scanned: &Vec<Game>) -> (set: HashSet<i64>)
    ensures
        set@ == installed_ids(scanned@),
{
    broadcast use vstd::std_specs::hash::group_hash_axioms;

    let mut set: HashSet<i64> = HashSet::new();
    let mut i: usize = 0;
    while i < scanned.len()
        invariant
            i <= scanned.len(),
            set@ == installed_ids(scanned@.subrange(0, i as int)),
        decreases scanned.len() - i,
    {
        let ghost before = scanned@.subrange(0, i as int);
        let ghost after = scanned@.subrange(0, i + 1);
        set.insert(scanned[i].appid);
        proof {
            assert forall|k: i64| #[trigger]
                installed_ids(after).contains(k) <==> (installed_ids(before).contains(k) || k
                    == scanned@[i as int].appid) by {
                if installed_ids(after).contains(k) {
                    let j = choose|j: int| 0 <= j < after.len() && after[j].appid == k;
                    if j < i {
                        assert(before[j].appid == k);
                    }
                }
                if installed_ids(before).contains(k) {
                    let j = choose|j: int| 0 <= j < before.len() && before[j].appid == k;
                    assert(after[j].appid == k);
                }
                if k == scanned@[i as int].appid {
                    assert(after[i as int].appid == k);
                }
            }
            assert(set@ =~= installed_ids(after));
        }
        i += 1;
    }
    assert(scanned@.subrange(0, scanned.len() as int) == scanned@);
    set
}

/// Whether some record of `games` has appid `k`.
pub open spec fn holds(games: Seq<OwnedGame>, k: i64) -> bool {
    exists|i: int| 0 <= i < games.len() && #[trigger] games[i].appid == k
}

/// Whether some shared account lists appid `k`.
pub open spec fn shared_holds(shared: Seq<SharedLibrary>, k: i64) -> bool {
    exists|a: int| 0 <= a < shared.len() && holds((#[trigger] shared[a]).games@, k)
}

/// Every entry of `m` stands under its own appid and is marked installed
/// exactly when `installed` holds that appid.
pub open spec fn keyed(m: Map<i64, LibraryEntry>, installed: Set<i64>) -> bool {
    forall|k: i64| #[trigger]
        m.dom().contains(k) ==> m[k].appid == k && m[k].installed == installed.contains(k)
}

proof fn lemma_merge_primary(primary: Seq<OwnedGame>, installed: Set<i64>)
    ensures
        keyed(merge_primary(primary, installed), installed),
        forall|k: i64| #[trigger]
            merge_primary(primary, installed).dom().contains(k) <==> holds(primary, k),
        forall|i: int|
            0 <= i < primary.len() && (forall|j: int|
                i < j < primary.len() ==> primary[j].appid != primary[i].appid)
                ==> merge_primary(primary, installed)[(#[trigger] primary[i]).appid]
                == primary_entry(primary[i], installed),
    decreases primary.len(),
{
    if primary.len() > 0 {
        let before = primary.drop_last();
        lemma_merge_primary(before, installed);
        let m = merge_primary(primary, installed);
        assert forall|k: i64| #[trigger] m.dom().contains(k) <==> holds(primary, k) by {
            if holds(primary, k) {
                let i = choose|i: int| 0 <= i < primary.len() && #[trigger] primary[i].appid == k;
                if i < before.len() {
                    assert(before[i].appid == k);
                }
            }
            if holds(before, k) {
                let i = choose|i: int| 0 <= i < before.len() && #[trigger] before[i].appid == k;
                assert(primary[i].appid == k);
            }
            if k == primary.last().appid {
                assert(primary[primary.len() - 1].appid == k);
            }
        }
        assert forall|i: int|
            0 <= i < primary.len() && (forall|j: int|
                i < j < primary.len() ==> primary[j].appid != primary[i].appid) implies m[(
        #[trigger] primary[i]).appid] == primary_entry(primary[i], installed) by {
            if i < before.len() {
                assert(before[i] == primary[i]);
                assert(primary[primary.len() - 1].appid != primary[i].appid);
                assert forall|j: int| i < j < before.len() implies before[j].appid
                    != before[i].appid by {
                    assert(before[j] == primary[j]);
                }
            }
        }
    }
}

proof fn lemma_merge_account(
    m: Map<i64, LibraryEntry>,
    account: Seq<char>,
    games: Seq<OwnedGame>,
    installed: Set<i64>,
)
    ensures
        keyed(m, installed) ==> keyed(merge_account(m, account, games, installed), installed),
        forall|k: i64| #[trigger]
            merge_account(m, account, games, installed).dom().contains(k) <==> (m.dom().contains(
                k,
            ) || holds(games, k)),
        forall|k: i64|
            m.dom().contains(k) ==> #[trigger] merge_account(m, account, games, installed)[k]
                == m[k],
    decreases games.len(),
{
    if games.len() > 0 {
        let before = games.drop_last();
        lemma_merge_account(m, account, before, installed);
        let r = merge_account(m, account, games, installed);
        let mid = merge_account(m, account, before, installed);
        assert forall|k: i64| #[trigger]
            r.dom().contains(k) <==> (m.dom().contains(k) || holds(games, k)) by {
            assert(mid.dom().contains(k) <==> (m.dom().contains(k) || holds(before, k)));
            if holds(games, k) {
                let i = choose|i: int| 0 <= i < games.len() && #[trigger] games[i].appid == k;
                if i < before.len() {
                    assert(before[i].appid == k);
                }
            }
            if holds(before, k) {
                let i = choose|i: int| 0 <= i < before.len() && #[trigger] before[i].appid == k;
                assert(games[i].appid == k);
            }
            if k == games.last().appid {
                assert(games[games.len() - 1].appid == k);
            }
        }
    }
}

proof fn lemma_merge_shared(
    m: Map<i64, LibraryEntry>,
    shared: Seq<SharedLibrary>,
    installed: Set<i64>,
)
    ensures
        keyed(m, installed) ==> keyed(merge_shared(m, shared, installed), installed),
        forall|k: i64| #[trigger]
            merge_shared(m, shared, installed).dom().contains(k) <==> (m.dom().contains(k)
                || shared_holds(shared, k)),
        forall|k: i64|
            m.dom().contains(k) ==> #[trigger] merge_shared(m, shared, installed)[k] == m[k],
    decreases shared.len(),
{
    if shared.len() > 0 {
        let before = shared.drop_last();
        let last = shared.last();
        lemma_merge_shared(m, before, installed);
        let mid = merge_shared(m, before, installed);
        lemma_merge_account(mid, last.account@, last.games@, installed);
        let r = merge_shared(m, shared, installed);
        assert forall|k: i64| #[trigger]
            r.dom().contains(k) <==> (m.dom().contains(k) || shared_holds(shared, k)) by {
            if shared_holds(shared, k) {
                let a = choose|a: int|
                    0 <= a < shared.len() && holds((#[trigger] shared[a]).games@, k);
                if a < before.len() {
                    assert(holds(before[a].games@, k));
                }
            }
            if shared_holds(before, k) {
                let a = choose|a: int|
                    0 <= a < before.len() && holds((#[trigger] before[a]).games@, k);
                assert(holds(shared[a].games@, k));
            }
            if holds(last.games@, k) {
                assert(holds(shared[shared.len() - 1].games@, k));
            }
        }
    }
}

/// The merged library has an entry for exactly the appids that the primary
/// account or some shared account lists, each under its own appid.
pub proof fn lemma_merged_domain(
    primary: Seq<OwnedGame>,
    shared: Seq<SharedLibrary>,
    installed: Set<i64>,
    k: i64,
)
    ensures
        merged(primary, shared, installed).dom().contains(k) <==> (holds(primary, k)
            || shared_holds(shared, k)),
        merged(primary, shared, installed).dom().contains(k) ==> merged(
            primary,
            shared,
            installed,
        )[k].appid == k,
{
    lemma_merge_primary(primary, installed);
    lemma_merge_shared(merge_primary(primary, installed), shared, installed);
    let m = merged(primary, shared, installed);
    if m.dom().contains(k) {
        assert(keyed(m, installed));
    }
}

/// The primary account wins: the entry of a title that the primary account
/// lists is that account's record, names no sharing account and carries the
/// primary playtime, whatever the shared accounts hold and in whatever order
/// they come. (`i` is the last primary record of its appid.)
pub proof fn lemma_primary_wins(
    primary: Seq<OwnedGame>,
    shared: Seq<SharedLibrary>,
    other: Seq<SharedLibrary>,
    installed: Set<i64>,
    i: int,
)
    requires
        0 <= i < primary.len(),
        forall|j: int| i < j < primary.len() ==> primary[j].appid != primary[i].appid,
    ensures
        merged(primary, shared, installed).dom().contains(primary[i].appid),
        merged(primary, shared, installed)[primary[i].appid] == primary_entry(
            primary[i],
            installed,
        ),
        merged(primary, shared, installed)[primary[i].appid].shared_from is None,
        merged(primary, shared, installed)[primary[i].appid].playtime_minutes
            == primary[i].playtime_minutes,
        merged(primary, other, installed)[primary[i].appid] == merged(
            primary,
            shared,
            installed,
        )[primary[i].appid],
{
    let k = primary[i].appid;
    let base = merge_primary(primary, installed);
    lemma_merge_primary(primary, installed);
    assert(holds(primary, k));
    assert(base.dom().contains(k));
    assert(base[primary[i].appid] == primary_entry(primary[i], installed));
    lemma_merge_shared(base, shared, installed);
    lemma_merge_shared(base, other, installed);
    assert(merge_shared(base, shared, installed)[k] == base[k]);
    assert(merge_shared(base, other, installed)[k] == base[k]);
}

/// Installed is an OR over the scan: an entry of the merged library is marked
/// installed exactly when the scan holds its appid, whatever the listings say.
pub proof fn lemma_installed_marked(
    primary: Seq<OwnedGame>,
    shared: Seq<SharedLibrary>,
    scanned: Seq<Game>,
    k: i64,
)
    requires
        merged(primary, shared, installed_ids(scanned)).dom().contains(k),
    ensures
        merged(primary, shared, installed_ids(scanned))[k].installed == (exists|i: int|
            0 <= i < scanned.len() && scanned[i].appid == k),
{
    let installed = installed_ids(scanned);
    lemma_merge_primary(primary, installed);
    lemma_merge_shared(merge_primary(primary, installed), shared, installed);
    assert(keyed(merged(primary, shared, installed), installed));
}

/// A list of a map is as long as the map has keys.
pub proof fn lemma_lists_len(out: Seq<LibraryGame>, m: Map<i64, LibraryEntry>)
    requires
        lists(out, m),
    ensures
        m.dom().finite(),
        out.len() == m.dom().len(),
    decreases out.len(),
{
    if out.len() == 0 {
        assert(m.dom() =~= Set::empty());
    } else {
        let last = out.last();
        let rest = out.drop_last();
        let less = m.remove(last.appid);
        assert(out[out.len() - 1].appid == last.appid);
        assert forall|k: i64| less.dom().contains(k) implies exists|i: int|
            0 <= i < rest.len() && #[trigger] rest[i].appid == k by {
            let i = choose|i: int| 0 <= i < out.len() && #[trigger] out[i].appid == k;
            assert(rest[i].appid == k);
        }
        assert forall|i: int| 0 <= i < rest.len() implies less.dom().contains(
            #[trigger] rest[i].appid,
        ) && rest[i]@ == less[rest[i].appid] by {
            assert(out[i].appid != out[out.len() - 1].appid);
            assert(rest[i] == out[i]);
        }
        assert forall|i: int, j: int| 0 <= i < j < rest.len() implies #[trigger] rest[i].appid
            != #[trigger] rest[j].appid by {
            assert(rest[i] == out[i]);
            assert(rest[j] == out[j]);
        }
        lemma_lists_len(rest, less);
        assert(m.dom() =~= less.dom().insert(last.appid));
    }
}

/// Whether `list` holds an entry with content `e`.
pub open spec fn has_entry(list: Seq<LibraryGame>, e: LibraryEntry) -> bool {
    exists|j: int| 0 <= j < list.len() && (#[trigger] list[j])@ == e
}

/// Merging is repeatable: two lists of one merged library have the same
/// length and the same entries, whatever their order.
pub proof fn lemma_merge_repeatable(
    first: Seq<LibraryGame>,
    second: Seq<LibraryGame>,
    primary: Seq<OwnedGame>,
    shared: Seq<SharedLibrary>,
    installed: Set<i64>,
)
    requires
        lists(first, merged(primary, shared, installed)),
        lists(second, merged(primary, shared, installed)),
    ensures
        first.len() == second.len(),
        forall|i: int| 0 <= i < first.len() ==> has_entry(second, (#[trigger] first[i])@),
        forall|j: int| 0 <= j < second.len() ==> has_entry(first, (#[trigger] second[j])@),
{
    let m = merged(primary, shared, installed);
    lemma_lists_len(first, m);
    lemma_lists_len(second, m);
    assert forall|i: int| 0 <= i < first.len() implies has_entry(
        second,
        (#[trigger] first[i])@,
    ) by {
        let k = first[i].appid;
        assert(m.dom().contains(k));
        let j = choose|j: int| 0 <= j < second.len() && #[trigger] second[j].appid == k;
        assert(second[j]@ == m[k]);
    }
    assert forall|j: int| 0 <= j < second.len() implies has_entry(
        first,
        (#[trigger] second[j])@,
    ) by {
        let k = second[j].appid;
        assert(m.dom().contains(k));
        let i = choose|i: int| 0 <= i < first.len() && #[trigger] first[i].appid == k;
        assert(first[i]@ == m[k]);
    }
}

/// Records `entry` under its appid: in place where the appid is listed, at the
/// end where it is new and `replace` or not.
fn put(
    out: &mut Vec<LibraryGame>,
    index: &mut HashMap<i64, usize>,
    entry: LibraryGame,
    replace: bool,
    Ghost(m): Ghost<Map<i64, LibraryEntry>>,
)
    requires
        indexed(old(out)@, old(index)@, m),
    ensures
        indexed(
            final(out)@,
            final(index)@,
            if m.dom().contains(entry.appid) && !replace {
                m
            } else {
                m.insert(entry.appid, entry@)
            },
        ),
{
    broadcast use vstd::std_specs::hash::group_hash_axioms;

    let appid = entry.appid;
    let ghost content = entry@;
    let found: Option<usize> = match index.get(&appid) {
        Some(pos) => Some(*pos),
        None => None,
    };
    match found {
        Some(pos) => {
            if replace {
                out.set(pos, entry);
                assert(final(index)@.dom() =~= m.insert(appid, content).dom());
            }
        },
        None => {
            let pos = out.len();
            index.insert(appid, pos);
            out.push(entry);
            assert(final(index)@.dom() =~= m.insert(appid, content).dom());
        },
    }
}

/// Merges the ownership listings with the scan.
///
/// The result has one entry per appid that any listing holds. A title of the
/// primary account keeps that account's name and playtime and names no
/// sharing account; a title that only shared accounts hold is taken from the
/// first account that lists it, names that account and has no playtime. An
/// entry is marked installed exactly when the scan holds its appid.
pub fn merge_library(
    primary: &Vec<OwnedGame>,
    shared: &Vec<SharedLibrary>,
    scanned: &Vec<Game>,
) -> (out: Vec<LibraryGame>)
    ensures
        lists(out@, merged(primary@, shared@, installed_ids(scanned@))),
        forall|i: int|
            0 <= i < out.len() ==> (#[trigger] out@[i]).installed == installed_ids(
                scanned@,
            ).contains(out@[i].appid),
{
    broadcast use vstd::std_specs::hash::group_hash_axioms;

    let installed = installed_set(scanned);
    let ghost inst = installed_ids(scanned@);
    let mut out: Vec<LibraryGame> = Vec::new();
    let mut index: HashMap<i64, usize> = HashMap::new();
    assert(index@.dom() =~= merge_primary(primary@.subrange(0, 0), inst).dom());
    let mut i: usize = 0;
    while i < primary.len()
        invariant
            i <= primary.len(),
            installed@ == inst,
            indexed(out@, index@, merge_primary(primary@.subrange(0, i as int), inst)),
        decreases primary.len() - i,
    {
        let g = &primary[i];
        let entry = LibraryGame {
            appid: g.appid,
            name: g.name.clone(),
            installed: installed.contains(&g.appid),
            shared_from: None,
            playtime_minutes: g.playtime_minutes,
        };
        assert(entry@ == primary_entry(*g, inst));
        assert(primary@.subrange(0, i + 1).drop_last() == primary@.subrange(0, i as int));
        put(
            &mut out,
            &mut index,
            entry,
            true,
            Ghost(merge_primary(primary@.subrange(0, i as int), inst)),
        );
        i += 1;
    }
    assert(primary@.subrange(0, primary.len() as int) == primary@);
    let ghost base = merge_primary(primary@, inst);
    let mut a: usize = 0;
    while a < shared.len()
        invariant
            a <= shared.len(),
            installed@ == inst,
            base == merge_primary(primary@, inst),
            indexed(out@, index@, merge_shared(base, shared@.subrange(0, a as int), inst)),
        decreases shared.len() - a,
    {
        let account = &shared[a];
        let ghost start = merge_shared(base, shared@.subrange(0, a as int), inst);
        assert(shared@.subrange(0, a + 1).drop_last() == shared@.subrange(0, a as int));
        let mut j: usize = 0;
        while j < account.games.len()
            invariant
                j <= account.games.len(),
                installed@ == inst,
                indexed(
                    out@,
                    index@,
                    merge_account(start, account.account@, account.games@.subrange(0, j as int), inst),
                ),
            decreases account.games.len() - j,
        {
            let g = &account.games[j];
            let entry = LibraryGame {
                appid: g.appid,
                name: g.name.clone(),
                installed: installed.contains(&g.appid),
                shared_from: Some(account.account.clone()),
                playtime_minutes: None,
            };
            assert(entry@ == shared_entry(*g, account.account@, inst));
            assert(account.games@.subrange(0, j + 1).drop_last() == account.games@.subrange(
                0,
                j as int,
            ));
            put(
                &mut out,
                &mut index,
                entry,
                false,
                Ghost(
                    merge_account(
                        start,
                        account.account@,
                        account.games@.subrange(0, j as int),
                        inst,
                    ),
                ),
            );
            j += 1;
        }
        assert(account.games@.subrange(0, account.games.len() as int) == account.games@);
        a += 1;
    }
    assert(shared@.subrange(0, shared.len() as int) == shared@);
    proof {
        let all = merged(primary@, shared@, inst);
        lemma_indexed_lists(out@, index@, all);
        lemma_merge_primary(primary@, inst);
        lemma_merge_shared(base, shared@, inst);
        assert forall|i: int| 0 <= i < out.len() implies (#[trigger] out@[i]).installed
            == inst.contains(out@[i].appid) by {
            assert(all.dom().contains(out@[i].appid));
            assert(out@[i]@ == all[out@[i].appid]);
        }
    }
    out
}

// ------------------------------------------------------------------ the fetch

/// One title as the ownership endpoint reports it.
#[derive(Clone, Debug)]
pub struct WireGame {
    pub appid: i64,
    pub name: Option<String>,
    pub playtime_forever: Option<u32>,
}

/// The address of the ownership listing of one account, asking for the
/// titles' names and for free titles that were played.
pub open spec fn owned_games_address(key: Seq<char>, account: Seq<char>) -> Seq<char> {
    "https://api.steampowered.com/IPlayerService/GetOwnedGames/v1/?key="@ + key + "&steamid="@
        + account + "&include_appinfo=1&include_played_free_games=1"@
}

/// The address of the ownership listing of one account.
pub fn owned_games_url(key: &str, account: &str) -> (url: String)
    ensures
        url@ == owned_games_address(key@, account@),
{
    let mut v: Vec<char> = Vec::new();
    append_text(&mut v, "https://api.steampowered.com/IPlayerService/GetOwnedGames/v1/?key=");
    append_text(&mut v, key);
    append_text(&mut v, "&steamid=");
    append_text(&mut v, account);
    append_text(&mut v, "&include_appinfo=1&include_played_free_games=1");
    assert(v@ =~= owned_games_address(key@, account@));
    string_of(&v)
}

/// The name of a reported title; empty where none was reported.
pub open spec fn wire_name(g: WireGame) -> Seq<char> {
    match g.name {
        Some(n) => n@,
        None => Seq::empty(),
    }
}

/// The listing that a response holds: its titles in order, each with its
/// name or an empty one, and no title where the response holds no list.
pub fn owned_games(list: &Option<Vec<WireGame>>) -> (out: Vec<OwnedGame>)
    ensures
        list is None ==> out.len() == 0,
        list matches Some(games) ==> out.len() == games.len() && forall|i: int|
            0 <= i < games.len() ==> (#[trigger] out@[i]).appid == games@[i].appid && out@[i].name@
                == wire_name(games@[i]) && out@[i].playtime_minutes
                == games@[i].playtime_forever,
{
    let mut out: Vec<OwnedGame> = Vec::new();
    match list {
        None => {},
        Some(games) => {
            let mut i: usize = 0;
            while i < games.len()
                invariant
                    i <= games.len(),
                    out.len() == i,
                    forall|j: int|
                        0 <= j < i ==> (#[trigger] out@[j]).appid == games@[j].appid
                            && out@[j].name@ == wire_name(games@[j]) && out@[j].playtime_minutes
                            == games@[j].playtime_forever,
                decreases games.len() - i,
            {
                let g = &games[i];
                let name = match &g.name {
                    Some(n) => n.clone(),
                    None => String::new(),
                };
                out.push(
                    OwnedGame { appid: g.appid, name, playtime_minutes: g.playtime_forever },
                );
                i += 1;
            }
        },
    }
    out
}

} // verus!
