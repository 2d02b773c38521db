//! The records that flow between the scanner, the merger and the profiler.

use vstd::prelude::*;

verus! {

/// A title found installed on disk, with whatever usage figures were overlaid.
#[derive(Clone, Debug)]
pub struct Game {
    pub appid: i64,
    pub name: String,
    pub installed: bool,
    pub playtime_minutes: Option<u32>,
    pub last_played_unix: Option<u64>,
}

/// One entry of the merged library.
#[derive(Clone, Debug)]
pub struct LibraryGame {
    pub appid: i64,
    pub name: String,
    pub installed: bool,
    pub shared_from: Option<String>,
    pub playtime_minutes: Option<u32>,
}

/// The mathematical content of a [`LibraryGame`].
pub struct LibraryEntry {
    pub appid: i64,
    pub name: Seq<char>,
    pub installed: bool,
    pub shared_from: Option<Seq<char>>,
    pub playtime_minutes: Option<u32>,
}

/// The characters of an optional string.
pub open spec fn opt_text(s: Option<String>) -> Option<Seq<char>> {
    match s {
        Some(t) => Some(t@),
        None => None,
    }
}

impl View for LibraryGame {
    type V = LibraryEntry;

    open spec fn view(&self) -> LibraryEntry {
        LibraryEntry {
            appid: self.appid,
            name: self.name@,
            installed: self.installed,
            shared_from: opt_text(self.shared_from),
            playtime_minutes: self.playtime_minutes,
        }
    }
}

/// The mathematical content of a [`Game`].
pub struct GameView {
    pub appid: i64,
    pub name: Seq<char>,
    pub installed: bool,
    pub playtime_minutes: Option<u32>,
    pub last_played_unix: Option<u64>,
}

impl View for Game {
    type V = GameView;

    open spec fn view(&self) -> GameView {
        GameView {
            appid: self.appid,
            name: self.name@,
            installed: self.installed,
            playtime_minutes: self.playtime_minutes,
            last_played_unix: self.last_played_unix,
        }
    }
}

/// An account found on this machine.
#[derive(Clone, Debug)]
pub struct AccountHint {
    pub steamid64: String,
    pub persona: String,
}

/// The mathematical content of an [`AccountHint`].
pub struct AccountView {
    pub steamid64: Seq<char>,
    pub persona: Seq<char>,
}

impl View for AccountHint {
    type V = AccountView;

    open spec fn view(&self) -> AccountView {
        AccountView { steamid64: self.steamid64@, persona: self.persona@ }
    }
}

/// The characters of each string of a list.
pub open spec fn texts(v: Seq<String>) -> Seq<Seq<char>> {
    v.map_values(|s: String| s@)
}

/// The content of an optional list of texts.
pub open spec fn opt_texts(v: Option<Vec<String>>) -> Option<Seq<Seq<char>>> {
    match v {
        Some(list) => Some(texts(list@)),
        None => None,
    }
}

/// A copy of a list of strings.
pub fn copy_texts(v: &Vec<String>) -> (r: Vec<String>)
    ensures
        texts(r@) == texts(v@),
{
    let mut r: Vec<String> = Vec::new();
    let mut i: usize = 0;
    while i < v.len()
        invariant
            i <= v.len(),
            r.len() == i,
            forall|j: int| 0 <= j < i ==> r@[j]@ == v@[j]@,
        decreases v.len() - i,
    {
        r.push(v[i].clone());
        i += 1;
    }
    assert(texts(r@) =~= texts(v@));
    r
}

} // verus!
