//! The user's settings as they are kept and as they are shown, and the list
//! of shared accounts without repeats.

use crate::model::{copy_texts, opt_text, opt_texts, texts};
use crate::text::{trim, trimmed};
use vstd::prelude::*;

verus! {

/// The settings as they are kept.
#[derive(Clone, Debug)]
pub struct UserPrefs {
    pub api_key: String,
    pub main_steam_id64: String,
    pub family_ids: Vec<String>,
    pub ai_api_key: String,
    pub ai_base_url: String,
}

/// The settings as they are shown and sent: a field is there only where it
/// has a value.
#[derive(Clone, Debug)]
pub struct PartialSettings {
    pub api_key: Option<String>,
    pub main_steam_id64: Option<String>,
    pub family_ids: Option<Vec<String>>,
    pub ai_api_key: Option<String>,
    pub ai_base_url: Option<String>,
}

impl Default for UserPrefs {
    fn default() -> (r: UserPrefs)
        ensures
            r.api_key@.len() == 0,
            r.main_steam_id64@.len() == 0,
            r.family_ids@.len() == 0,
            r.ai_api_key@.len() == 0,
            r.ai_base_url@.len() == 0,
    {
        UserPrefs {
            api_key: String::new(),
            main_steam_id64: String::new(),
            family_ids: Vec::new(),
            ai_api_key: String::new(),
            ai_base_url: String::new(),
        }
    }
}

impl Default for PartialSettings {
    fn default() -> (r: PartialSettings)
        ensures
            r.api_key is None,
            r.main_steam_id64 is None,
            r.family_ids is None,
            r.ai_api_key is None,
            r.ai_base_url is None,
    {
        PartialSettings {
            api_key: None,
            main_steam_id64: None,
            family_ids: None,
            ai_api_key: None,
            ai_base_url: None,
        }
    }
}

/// Whether `t` is one of the texts of the list.
pub open spec fn has_text(list: Seq<Seq<char>>, t: Seq<char>) -> bool {
    exists|i: int| 0 <= i < list.len() && #[trigger] list[i] == t
}

/// The ids trimmed, without the empty ones, each kept where it first stands.
pub open spec fn dedup_of(ids: Seq<Seq<char>>) -> Seq<Seq<char>>
    decreases ids.len(),
{
    if ids.len() == 0 {
        Seq::empty()
    } else {
        let before = dedup_of(ids.drop_last());
        let id = trimmed(ids.last());
        if id.len() == 0 || has_text(before, id) {
            before
        } else {
            before.push(id)
        }
    }
}

/// A list of ids without repeats holds no empty id and none twice, and each
/// of its ids is one of the given ids, trimmed.
pub proof fn lemma_dedup_of(ids: Seq<Seq<char>>)
    ensures
        forall|i: int| 0 <= i < dedup_of(ids).len() ==> (#[trigger] dedup_of(ids)[i]).len() > 0,
        forall|i: int, j: int|
            0 <= i < j < dedup_of(ids).len() ==> #[trigger] dedup_of(ids)[i] != #[trigger] dedup_of(
                ids,
            )[j],
        forall|i: int|
            0 <= i < dedup_of(ids).len() ==> exists|k: int|
                0 <= k < ids.len() && trimmed(#[trigger] ids[k]) == #[trigger] dedup_of(ids)[i],
        forall|k: int|
            0 <= k < ids.len() && trimmed(#[trigger] ids[k]).len() > 0 ==> has_text(
                dedup_of(ids),
                trimmed(ids[k]),
            ),
    decreases ids.len(),
{
    if ids.len() > 0 {
        let front = ids.drop_last();
        lemma_dedup_of(front);
        let before = dedup_of(front);
        let id = trimmed(ids.last());
        let after = dedup_of(ids);
        assert forall|i: int| 0 <= i < after.len() implies exists|k: int|
            0 <= k < ids.len() && trimmed(#[trigger] ids[k]) == #[trigger] after[i] by {
            if i < before.len() {
                let k = choose|k: int|
                    0 <= k < front.len() && trimmed(#[trigger] front[k]) == before[i];
                assert(ids[k] == front[k]);
                assert(trimmed(ids[k]) == after[i]);
            } else {
                assert(trimmed(ids[ids.len() - 1]) == after[i]);
            }
        }
        assert forall|k: int|
            0 <= k < ids.len() && trimmed(#[trigger] ids[k]).len() > 0 implies has_text(
            after,
            trimmed(ids[k]),
        ) by {
            if k < front.len() {
                assert(ids[k] == front[k]);
                assert(has_text(before, trimmed(front[k])));
                let i = choose|i: int|
                    0 <= i < before.len() && #[trigger] before[i] == trimmed(front[k]);
                assert(after[i] == trimmed(ids[k]));
            } else {
                if has_text(before, id) {
                    let i = choose|i: int| 0 <= i < before.len() && #[trigger] before[i] == id;
                    assert(after[i] == id);
                } else {
                    assert(after[after.len() - 1] == id);
                }
            }
        }
    }
}

/// Trims the ids, drops the empty ones and keeps each where it first
/// stands.
pub fn dedup_ids(v: Vec<String>) -> (out: Vec<String>)
    ensures
        texts(out@) == dedup_of(texts(v@)),
        forall|i: int| 0 <= i < out.len() ==> (#[trigger] out@[i])@.len() > 0,
        forall|i: int, j: int|
            0 <= i < j < out.len() ==> (#[trigger] out@[i])@ != (#[trigger] out@[j])@,
{
    let ghost ids = texts(v@);
    let mut out: Vec<String> = Vec::new();
    let mut n: usize = 0;
    assert(ids.subrange(0, 0) =~= Seq::<Seq<char>>::empty());
    assert(texts(out@) =~= Seq::<Seq<char>>::empty());
    while n < v.len()
        invariant
            n <= v.len(),
            ids == texts(v@),
            texts(out@) == dedup_of(ids.subrange(0, n as int)),
        decreases v.len() - n,
    {
        let ghost before = texts(out@);
        assert(ids.subrange(0, n + 1).drop_last() == ids.subrange(0, n as int));
        assert(ids.subrange(0, n + 1).last() == v@[n as int]@);
        let id = trim(v[n].as_str());
        if !id.as_str().is_empty() {
            let mut seen = false;
            let mut i: usize = 0;
            while i < out.len()
                invariant
                    i <= out.len(),
                    before == texts(out@),
                    seen == (exists|j: int| 0 <= j < i && #[trigger] before[j] == id@),
                decreases out.len() - i,
            {
                assert(before[i as int] == out@[i as int]@);
                if out[i] == id {
                    seen = true;
                }
                i += 1;
            }
            if !seen {
                out.push(id);
                assert(texts(out@) =~= before.push(id@));
            }
        }
        n += 1;
    }
    proof {
        assert(ids.subrange(0, v.len() as int) == ids);
        lemma_dedup_of(ids);
        assert forall|i: int| 0 <= i < out.len() implies (#[trigger] out@[i])@.len() > 0 by {
            assert(texts(out@)[i] == out@[i]@);
        }
        assert forall|i: int, j: int| 0 <= i < j < out.len() implies (#[trigger] out@[i])@ != (
        #[trigger] out@[j])@ by {
            assert(texts(out@)[i] == out@[i]@);
            assert(texts(out@)[j] == out@[j]@);
        }
    }
    out
}

/// A text where it is not empty.
pub open spec fn filled(t: Seq<char>) -> Option<Seq<char>> {
    if t.len() == 0 {
        None
    } else {
        Some(t)
    }
}

fn filled_text(s: &String) -> (r: Option<String>)
    ensures
        opt_text(r) == filled(s@),
{
    if s.as_str().is_empty() {
        None
    } else {
        Some(s.clone())
    }
}

/// The settings as they are shown: an empty field is left out.
pub fn get_settings(prefs: &UserPrefs) -> (s: PartialSettings)
    ensures
        opt_text(s.api_key) == filled(prefs.api_key@),
        opt_text(s.main_steam_id64) == filled(prefs.main_steam_id64@),
        opt_texts(s.family_ids) == if prefs.family_ids@.len() == 0 {
            None
        } else {
            Some(texts(prefs.family_ids@))
        },
        opt_text(s.ai_api_key) == filled(prefs.ai_api_key@),
        opt_text(s.ai_base_url) == filled(prefs.ai_base_url@),
{
    PartialSettings {
        api_key: filled_text(&prefs.api_key),
        main_steam_id64: filled_text(&prefs.main_steam_id64),
        family_ids: if prefs.family_ids.len() == 0 {
            None
        } else {
            Some(copy_texts(&prefs.family_ids))
        },
        ai_api_key: filled_text(&prefs.ai_api_key),
        ai_base_url: filled_text(&prefs.ai_base_url),
    }
}

/// A kept text after a change: the new text where one was sent.
pub open spec fn changed(kept: Seq<char>, sent: Option<String>) -> Seq<char> {
    match sent {
        Some(t) => t@,
        None => kept,
    }
}

/// Takes the settings that were sent into the kept ones: a field that was
/// sent takes the place of the kept one, the shared accounts without
/// repeats; a field that was not sent stays.
pub fn save_settings(cur: &mut UserPrefs, s: PartialSettings)
    ensures
        final(cur).api_key@ == changed(old(cur).api_key@, s.api_key),
        final(cur).main_steam_id64@ == changed(old(cur).main_steam_id64@, s.main_steam_id64),
        texts(final(cur).family_ids@) == match s.family_ids {
            Some(ids) => dedup_of(texts(ids@)),
            None => texts(old(cur).family_ids@),
        },
        final(cur).ai_api_key@ == changed(old(cur).ai_api_key@, s.ai_api_key),
        final(cur).ai_base_url@ == changed(old(cur).ai_base_url@, s.ai_base_url),
{
    if let Some(v) = s.api_key {
        cur.api_key = v;
    }
    if let Some(v) = s.main_steam_id64 {
        cur.main_steam_id64 = v;
    }
    if let Some(v) = s.family_ids {
        cur.family_ids = dedup_ids(v);
    }
    if let Some(v) = s.ai_api_key {
        cur.ai_api_key = v;
    }
    if let Some(v) = s.ai_base_url {
        cur.ai_base_url = v;
    }
}

/// Notes what a library scan was asked with: the key, the primary account
/// and the shared accounts without repeats. The other settings stay.
pub fn remember_scan(
    prefs: &mut UserPrefs,
    api_key: String,
    main_steam_id64: String,
    family_ids: Vec<String>,
)
    ensures
        final(prefs).api_key@ == api_key@,
        final(prefs).main_steam_id64@ == main_steam_id64@,
        texts(final(prefs).family_ids@) == dedup_of(texts(family_ids@)),
        final(prefs).ai_api_key@ == old(prefs).ai_api_key@,
        final(prefs).ai_base_url@ == old(prefs).ai_base_url@,
{
    prefs.api_key = api_key;
    prefs.main_steam_id64 = main_steam_id64;
    prefs.family_ids = dedup_ids(family_ids);
}

} // verus!
