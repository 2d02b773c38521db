//! The local install scanner: what the install manifests, the library-folder
//! index and the per-account usage files say, read by pattern. Finding and
//! reading the files is the caller's part; this module works on their text.

use crate::model::{opt_text, opt_texts, texts, AccountHint, AccountView, Game, GameView};
use crate::pattern::{
    all_captures, captures_view, first_captures, first_group, first_group_text, group,
    group_text, groups_view, matches_view, number_in, number_of, or_empty, regex_captures,
    regex_captures_iter, text_or_empty,
};
use crate::blocks::{
    body_text, find_keyed_block, find_numbered_blocks, keyed_block, numbered_blocks, span_views,
    BlockSpan,
};
use crate::text::{chars_of, matches_at, occurs_at, parse_unsigned, parsed_unsigned, slice_chars};
use std::collections::HashMap;
use vstd::prelude::*;

verus! {

/// The appid of an install manifest.
pub const APPID_PATTERN: &'static str = "\"appid\"\\s*\"(\\d+)\"";

/// The display name of an install manifest.
pub const NAME_PATTERN: &'static str = "\"name\"\\s*\"([^\"]+)\"";

/// One library location of a library-folder index.
pub const PATH_PATTERN: &'static str = "\"path\"\\s*\"([^\"]+)\"";

/// The last-played time of a per-title block.
pub const LAST_PLAYED_PATTERN: &'static str = "\"LastPlayed\"\\s*\"(\\d+)\"";

/// The playtime of a per-title block, under its first name.
pub const PLAYTIME_FOREVER_PATTERN: &'static str = "\"playtime_forever\"\\s*\"(\\d+)\"";

/// The playtime of a per-title block, under its second name.
pub const PLAYTIME_PATTERN: &'static str = "\"Playtime\"\\s*\"(\\d+)\"";

/// The playtime of a per-title block, under its third name.
pub const MINUTES_PLAYED_PATTERN: &'static str = "\"MinutesPlayed\\d*\"\\s*\"(\\d+)\"";

/// One account block of the login file: the account id and what stands
/// between the braces.
pub const USER_BLOCK_PATTERN: &'static str = "(?s)\"(\\d{17})\"\\s*\\{(.*?)\\}";

/// The persona name of an account block.
pub const PERSONA_PATTERN: &'static str = "\"PersonaName\"\\s*\"([^\"]*)\"";

/// An account id in free text.
pub const STEAMID_PATTERN: &'static str = "(76\\d{15})";

// ---------------------------------------------------------- install manifests

/// Whether a file name is that of an install manifest.
pub open spec fn manifest_name(name: Seq<char>) -> bool {
    occurs_at(name, "appmanifest_"@, 0) && occurs_at(name, ".acf"@, name.len() - ".acf"@.len())
}

/// Whether a file name is that of an install manifest: it starts with
/// `appmanifest_` and ends with `.acf`.
pub fn is_manifest(file_name: &str) -> (r: bool)
    ensures
        r == manifest_name(file_name@),
{
    let name = chars_of(file_name);
    let head = chars_of("appmanifest_");
    let tail = chars_of(".acf");
    if name.len() < head.len() || name.len() < tail.len() {
        return false;
    }
    matches_at(&name, &head, 0) && matches_at(&name, &tail, name.len() - tail.len())
}

/// The appid and the name that a manifest gives, from what its two patterns
/// captured: both must be there, and the appid a number that fits.
pub open spec fn manifest_of(
    appid_caps: Option<Seq<Option<Seq<char>>>>,
    name_caps: Option<Seq<Option<Seq<char>>>>,
) -> Option<(i64, Seq<char>)> {
    match (number_of(first_group(appid_caps, 1), i64::MAX as u64), first_group(name_caps, 1)) {
        (Some(appid), Some(name)) => Some((appid as i64, name)),
        _ => None,
    }
}

/// The content of an optional appid and name.
pub open spec fn manifest_view(m: Option<(i64, String)>) -> Option<(i64, Seq<char>)> {
    match m {
        Some((appid, name)) => Some((appid, name@)),
        None => None,
    }
}

/// The appid and the name of a manifest, from what its two patterns
/// captured.
pub fn manifest_from_captures(
    appid_caps: &Option<Vec<Option<String>>>,
    name_caps: &Option<Vec<Option<String>>>,
) -> (r: Option<(i64, String)>)
    ensures
        manifest_view(r) == manifest_of(captures_view(*appid_caps), captures_view(*name_caps)),
{
    let digits = first_group_text(appid_caps, 1);
    let appid = match number_in(&digits, i64::MAX as u64) {
        Some(n) => n as i64,
        None => {
            return None;
        },
    };
    match first_group_text(name_caps, 1) {
        Some(name) => Some((appid, name)),
        None => None,
    }
}

/// Reads the appid and the display name of an install manifest. A manifest
/// that lacks either gives nothing.
pub fn parse_manifest(text: &str) -> (r: Option<(i64, String)>)
    ensures
        manifest_view(r) == manifest_of(
            regex_captures(APPID_PATTERN@, text@),
            regex_captures(NAME_PATTERN@, text@),
        ),
{
    let appid_caps = first_captures(APPID_PATTERN, text);
    let name_caps = first_captures(NAME_PATTERN, text);
    manifest_from_captures(&appid_caps, &name_caps)
}

/// The installed title of a manifest.
pub fn installed_game(appid: i64, name: String) -> (g: Game)
    ensures
        g.appid == appid,
        g.name@ == name@,
        g.installed,
        g.playtime_minutes is None,
        g.last_played_unix is None,
{
    Game { appid, name, installed: true, playtime_minutes: None, last_played_unix: None }
}

// ------------------------------------------------------ library-folder index

/// Whether every match has its first group.
pub open spec fn all_have_group(all: Seq<Seq<Option<Seq<char>>>>) -> bool {
    forall|i: int| 0 <= i < all.len() ==> group(#[trigger] all[i], 1) is Some
}

/// The library locations of an index, from the matches of its pattern:
/// their first groups in order, and nothing where there is no match or a
/// match lacks its group.
pub open spec fn folders_of(all: Seq<Seq<Option<Seq<char>>>>) -> Option<Seq<Seq<char>>> {
    if all.len() > 0 && all_have_group(all) {
        Some(Seq::new(all.len(), |i: int| group(all[i], 1)->0))
    } else {
        None
    }
}

/// The library locations of an index, from the matches of its pattern.
pub fn folders_from_matches(all: &Vec<Vec<Option<String>>>) -> (r: Option<Vec<String>>)
    ensures
        opt_texts(r) == folders_of(matches_view(all@)),
{
    let ghost views = matches_view(all@);
    let mut out: Vec<String> = Vec::new();
    let mut i: usize = 0;
    while i < all.len()
        invariant
            i <= all.len(),
            views == matches_view(all@),
            out.len() == i,
            forall|j: int| 0 <= j < i ==> group(#[trigger] views[j], 1) == Some(out@[j]@),
        decreases all.len() - i,
    {
        assert(views[i as int] == groups_view(all@[i as int]@));
        match group_text(&all[i], 1) {
            Some(dir) => {
                out.push(dir);
            },
            None => {
                assert(!(group(views[i as int], 1) is Some));
                return None;
            },
        }
        i += 1;
    }
    if out.len() == 0 {
        None
    } else {
        assert(texts(out@) =~= Seq::new(views.len(), |i: int| group(views[i], 1)->0));
        Some(out)
    }
}

/// Reads the library locations that a library-folder index names.
pub fn parse_libraryfolders(text: &str) -> (r: Option<Vec<String>>)
    ensures
        opt_texts(r) == folders_of(regex_captures_iter(PATH_PATTERN@, text@)),
{
    let all = all_captures(PATH_PATTERN, text);
    folders_from_matches(&all)
}

// ----------------------------------------------------------------- usage files

/// What the usage files say of one title.
#[derive(Clone, Copy, Debug, PartialEq, Eq, Structural)]
pub struct AppStat {
    pub playtime_minutes: Option<u32>,
    pub last_played_unix: Option<u64>,
}

/// The first of three values that is there.
pub open spec fn first_of(a: Option<u64>, b: Option<u64>, c: Option<u64>) -> Option<u64> {
    if a is Some {
        a
    } else if b is Some {
        b
    } else {
        c
    }
}

/// A 32-bit value, if there is one.
pub open spec fn narrowed(v: Option<u64>) -> Option<u32> {
    match v {
        Some(n) => Some(n as u32),
        None => None,
    }
}

/// The figures of a per-title block, from what the four field patterns
/// captured in it: the last-played time, and the playtime under the first of
/// its three names that is there with a number that fits.
pub open spec fn stat_of(
    last: Option<Seq<Option<Seq<char>>>>,
    forever: Option<Seq<Option<Seq<char>>>>,
    playtime: Option<Seq<Option<Seq<char>>>>,
    minutes: Option<Seq<Option<Seq<char>>>>,
) -> AppStat {
    AppStat {
        playtime_minutes: narrowed(
            first_of(
                number_of(first_group(forever, 1), u32::MAX as u64),
                number_of(first_group(playtime, 1), u32::MAX as u64),
                number_of(first_group(minutes, 1), u32::MAX as u64),
            ),
        ),
        last_played_unix: number_of(first_group(last, 1), u64::MAX),
    }
}

/// The figures of a per-title block, from what the four field patterns
/// captured in it.
pub fn stat_from_captures(
    last: &Option<Vec<Option<String>>>,
    forever: &Option<Vec<Option<String>>>,
    playtime: &Option<Vec<Option<String>>>,
    minutes: &Option<Vec<Option<String>>>,
) -> (r: AppStat)
    ensures
        r == stat_of(
            captures_view(*last),
            captures_view(*forever),
            captures_view(*playtime),
            captures_view(*minutes),
        ),
{
    let last_played_unix = number_in(&first_group_text(last, 1), u64::MAX);
    let a = number_in(&first_group_text(forever, 1), u32::MAX as u64);
    let b = number_in(&first_group_text(playtime, 1), u32::MAX as u64);
    let c = number_in(&first_group_text(minutes, 1), u32::MAX as u64);
    let found = if a.is_some() {
        a
    } else if b.is_some() {
        b
    } else {
        c
    };
    let playtime_minutes = match found {
        Some(n) => Some(n as u32),
        None => None,
    };
    AppStat { playtime_minutes, last_played_unix }
}

/// The figures that a per-title block gives.
pub open spec fn block_stat(block: Seq<char>) -> AppStat {
    stat_of(
        regex_captures(LAST_PLAYED_PATTERN@, block),
        regex_captures(PLAYTIME_FOREVER_PATTERN@, block),
        regex_captures(PLAYTIME_PATTERN@, block),
        regex_captures(MINUTES_PLAYED_PATTERN@, block),
    )
}

/// Reads the figures of a per-title block.
pub fn parse_app_stat(block: &str) -> (r: AppStat)
    ensures
        r == block_stat(block@),
{
    let last = first_captures(LAST_PLAYED_PATTERN, block);
    let forever = first_captures(PLAYTIME_FOREVER_PATTERN, block);
    let playtime = first_captures(PLAYTIME_PATTERN, block);
    let minutes = first_captures(MINUTES_PLAYED_PATTERN, block);
    stat_from_captures(&last, &forever, &playtime, &minutes)
}

/// The figures of a title after a later reading: a figure that the later
/// reading gives takes the place of the earlier one, and one that it lacks
/// leaves the earlier one standing.
pub open spec fn merged_stat(earlier: AppStat, later: AppStat) -> AppStat {
    AppStat {
        playtime_minutes: if later.playtime_minutes is Some {
            later.playtime_minutes
        } else {
            earlier.playtime_minutes
        },
        last_played_unix: if later.last_played_unix is Some {
            later.last_played_unix
        } else {
            earlier.last_played_unix
        },
    }
}

/// The figures known of a title; none of either kind where the title is
/// unknown.
pub open spec fn stat_at(stats: Map<i64, AppStat>, appid: i64) -> AppStat {
    if stats.contains_key(appid) {
        stats[appid]
    } else {
        AppStat { playtime_minutes: None, last_played_unix: None }
    }
}

/// The figures by title once `found` was read for `appid`.
pub open spec fn recorded(stats: Map<i64, AppStat>, appid: i64, found: AppStat) -> Map<
    i64,
    AppStat,
> {
    stats.insert(appid, merged_stat(stat_at(stats, appid), found))
}

/// Records what one reading found for a title, without erasing what an
/// earlier reading found.
pub fn record_stat(stats: &mut HashMap<i64, AppStat>, appid: i64, found: AppStat)
    ensures
        final(stats)@ == recorded(old(stats)@, appid, found),
{
    broadcast use vstd::std_specs::hash::group_hash_axioms;

    let earlier = match stats.get(&appid) {
        Some(s) => *s,
        None => AppStat { playtime_minutes: None, last_played_unix: None },
    };
    let merged = AppStat {
        playtime_minutes: if found.playtime_minutes.is_some() {
            found.playtime_minutes
        } else {
            earlier.playtime_minutes
        },
        last_played_unix: if found.last_played_unix.is_some() {
            found.last_played_unix
        } else {
            earlier.last_played_unix
        },
    };
    stats.insert(appid, merged);
}

/// The key under which the per-title blocks of a usage file stand, with its
/// quotes.
pub open spec fn apps_key() -> Seq<char> {
    "\"apps\""@
}

/// The key of a block.
pub open spec fn block_key(text: Seq<char>, b: BlockSpan) -> Seq<char> {
    text.subrange(b.key_start, b.key_end)
}

/// The body of a block.
pub open spec fn block_body(text: Seq<char>, b: BlockSpan) -> Seq<char> {
    text.subrange(b.body_start, b.body_end)
}

/// The appid that a key writes; zero where it writes no number that fits.
pub open spec fn key_appid(key: Seq<char>) -> i64 {
    match parsed_unsigned(key, i64::MAX as u64) {
        Some(n) => n as i64,
        None => 0,
    }
}

/// The figures by title after the per-title blocks were read in order. A
/// block under appid zero is passed over.
pub open spec fn stats_after_blocks(
    stats: Map<i64, AppStat>,
    text: Seq<char>,
    blocks: Seq<BlockSpan>,
) -> Map<i64, AppStat>
    decreases blocks.len(),
{
    if blocks.len() == 0 {
        stats
    } else {
        let before = stats_after_blocks(stats, text, blocks.drop_last());
        let b = blocks.last();
        if key_appid(block_key(text, b)) == 0 {
            before
        } else {
            recorded(before, key_appid(block_key(text, b)), block_stat(block_body(text, b)))
        }
    }
}

/// The figures by title after one usage file was read: the blocks under
/// quoted numbers inside its `apps` block, each read for its figures. A file
/// without an `apps` block changes nothing.
pub open spec fn stats_after_file(stats: Map<i64, AppStat>, text: Seq<char>) -> Map<i64, AppStat> {
    match keyed_block(text, apps_key(), 0) {
        Some(apps) => stats_after_blocks(
            stats,
            block_body(text, apps),
            numbered_blocks(block_body(text, apps), 0),
        ),
        None => stats,
    }
}

/// The figures by title after the usage files were read in order.
pub open spec fn stats_of_files(files: Seq<String>) -> Map<i64, AppStat>
    decreases files.len(),
{
    if files.len() == 0 {
        Map::empty()
    } else {
        stats_after_file(stats_of_files(files.drop_last()), files.last()@)
    }
}

/// Reads one usage file into the figures by title.
pub fn collect_file_stats(stats: &mut HashMap<i64, AppStat>, text: &str)
    ensures
        final(stats)@ == stats_after_file(old(stats)@, text@),
{
    let whole = chars_of(text);
    let key = chars_of("\"apps\"");
    match find_keyed_block(&whole, &key) {
        None => {},
        Some(apps) => {
            let body = slice_chars(&whole, apps.body_start, apps.body_end);
            let blocks = find_numbered_blocks(&body);
            let ghost spans = span_views(blocks@);
            let mut i: usize = 0;
            assert(spans.subrange(0, 0) =~= Seq::<BlockSpan>::empty());
            while i < blocks.len()
                invariant
                    i <= blocks.len(),
                    spans == span_views(blocks@),
                    forall|j: int|
                        0 <= j < blocks.len() ==> (#[trigger] blocks@[j]).key_start
                            <= blocks@[j].key_end <= blocks@[j].body_start <= blocks@[j].body_end
                            <= body.len(),
                    stats@ == stats_after_blocks(old(stats)@, body@, spans.subrange(0, i as int)),
                decreases blocks.len() - i,
            {
                assert(spans.subrange(0, i + 1).drop_last() == spans.subrange(0, i as int));
                assert(spans.subrange(0, i + 1).last() == blocks@[i as int]@);
                let span = blocks[i];
                let digits = slice_chars(&body, span.key_start, span.key_end);
                let appid: i64 = match parse_unsigned(&digits, i64::MAX as u64) {
                    Some(n) => n as i64,
                    None => 0,
                };
                if appid != 0 {
                    let block = body_text(&body, &span);
                    let found = parse_app_stat(block.as_str());
                    record_stat(stats, appid, found);
                }
                i += 1;
            }
            assert(spans.subrange(0, blocks.len() as int) == spans);
        },
    }
}

/// Reads the usage files, in order, into the figures by title. A later file
/// overrides an earlier one only where it has a figure of its own.
pub fn collect_user_stats(files: &Vec<String>) -> (stats: HashMap<i64, AppStat>)
    ensures
        stats@ == stats_of_files(files@),
{
    let mut stats: HashMap<i64, AppStat> = HashMap::new();
    let mut i: usize = 0;
    assert(files@.subrange(0, 0) =~= Seq::<String>::empty());
    while i < files.len()
        invariant
            i <= files.len(),
            stats@ == stats_of_files(files@.subrange(0, i as int)),
        decreases files.len() - i,
    {
        assert(files@.subrange(0, i + 1).drop_last() == files@.subrange(0, i as int));
        assert(files@.subrange(0, i + 1).last() == files@[i as int]);
        collect_file_stats(&mut stats, files[i].as_str());
        i += 1;
    }
    assert(files@.subrange(0, files.len() as int) == files@);
    stats
}

// -------------------------------------------------------------------- the scan

/// The contents of a list of titles.
pub open spec fn game_views(games: Seq<Game>) -> Seq<GameView> {
    games.map_values(|g: Game| g@)
}

/// The installed title that a manifest gives, if it gives one.
pub open spec fn manifest_game(text: Seq<char>) -> Option<GameView> {
    match manifest_of(regex_captures(APPID_PATTERN@, text), regex_captures(NAME_PATTERN@, text)) {
        Some((appid, name)) => Some(
            GameView {
                appid: appid,
                name: name,
                installed: true,
                playtime_minutes: None,
                last_played_unix: None,
            },
        ),
        None => None,
    }
}

/// The installed titles of the manifests, in order; a manifest that gives no
/// title is passed over.
pub open spec fn scanned_of(manifests: Seq<String>) -> Seq<GameView>
    decreases manifests.len(),
{
    if manifests.len() == 0 {
        Seq::empty()
    } else {
        let before = scanned_of(manifests.drop_last());
        match manifest_game(manifests.last()@) {
            Some(g) => before.push(g),
            None => before,
        }
    }
}

/// A title with the usage figures laid over it: a figure that is known takes
/// the place of the title's own.
pub open spec fn overlaid(g: GameView, stats: Map<i64, AppStat>) -> GameView {
    let merged = merged_stat(
        AppStat { playtime_minutes: g.playtime_minutes, last_played_unix: g.last_played_unix },
        stat_at(stats, g.appid),
    );
    GameView {
        playtime_minutes: merged.playtime_minutes,
        last_played_unix: merged.last_played_unix,
        ..g
    }
}

/// The titles with the usage figures laid over each.
pub open spec fn overlaid_all(games: Seq<GameView>, stats: Map<i64, AppStat>) -> Seq<GameView> {
    Seq::new(games.len(), |i: int| overlaid(games[i], stats))
}

/// Reads the installed titles out of the texts of the install manifests.
pub fn scan_manifests(manifests: &Vec<String>) -> (games: Vec<Game>)
    ensures
        game_views(games@) == scanned_of(manifests@),
{
    let mut games: Vec<Game> = Vec::new();
    let mut i: usize = 0;
    assert(manifests@.subrange(0, 0) =~= Seq::<String>::empty());
    assert(game_views(games@) =~= Seq::<GameView>::empty());
    while i < manifests.len()
        invariant
            i <= manifests.len(),
            game_views(games@) == scanned_of(manifests@.subrange(0, i as int)),
        decreases manifests.len() - i,
    {
        let ghost before = game_views(games@);
        assert(manifests@.subrange(0, i + 1).drop_last() == manifests@.subrange(0, i as int));
        assert(manifests@.subrange(0, i + 1).last() == manifests@[i as int]);
        match parse_manifest(manifests[i].as_str()) {
            Some((appid, name)) => {
                let g = installed_game(appid, name);
                games.push(g);
                assert(game_views(games@) =~= before.push(g@));
            },
            None => {},
        }
        i += 1;
    }
    assert(manifests@.subrange(0, manifests.len() as int) == manifests@);
    games
}

/// Lays the usage figures over the titles.
pub fn overlay_stats(games: &Vec<Game>, stats: &HashMap<i64, AppStat>) -> (r: Vec<Game>)
    ensures
        game_views(r@) == overlaid_all(game_views(games@), stats@),
{
    broadcast use vstd::std_specs::hash::group_hash_axioms;

    let mut r: Vec<Game> = Vec::new();
    let mut i: usize = 0;
    while i < games.len()
        invariant
            i <= games.len(),
            r.len() == i,
            forall|j: int| 0 <= j < i ==> (#[trigger] r@[j])@ == overlaid(games@[j]@, stats@),
        decreases games.len() - i,
    {
        let g = &games[i];
        let mut playtime_minutes = g.playtime_minutes;
        let mut last_played_unix = g.last_played_unix;
        match stats.get(&g.appid) {
            Some(s) => {
                if s.playtime_minutes.is_some() {
                    playtime_minutes = s.playtime_minutes;
                }
                if s.last_played_unix.is_some() {
                    last_played_unix = s.last_played_unix;
                }
            },
            None => {},
        }
        r.push(
            Game {
                appid: g.appid,
                name: g.name.clone(),
                installed: g.installed,
                playtime_minutes,
                last_played_unix,
            },
        );
        i += 1;
    }
    assert(game_views(r@) =~= overlaid_all(game_views(games@), stats@));
    r
}

/// The scan: the installed titles of the manifests, with the figures of the
/// usage files laid over them.
pub fn scan_roots(manifests: &Vec<String>, usage_files: &Vec<String>) -> (games: Vec<Game>)
    ensures
        game_views(games@) == overlaid_all(scanned_of(manifests@), stats_of_files(usage_files@)),
{
    let found = scan_manifests(manifests);
    let stats = collect_user_stats(usage_files);
    overlay_stats(&found, &stats)
}

// --------------------------------------------------------------------- accounts

/// The contents of a list of accounts.
pub open spec fn account_views(accounts: Seq<AccountHint>) -> Seq<AccountView> {
    accounts.map_values(|a: AccountHint| a@)
}

/// The account of one block of the login file, from its id and what the
/// persona pattern captured in it; none where the id is empty.
pub open spec fn account_of(
    id: Option<Seq<char>>,
    persona_caps: Option<Seq<Option<Seq<char>>>>,
) -> Option<AccountView> {
    if text_or_empty(id).len() > 0 {
        Some(
            AccountView {
                steamid64: text_or_empty(id),
                persona: text_or_empty(first_group(persona_caps, 1)),
            },
        )
    } else {
        None
    }
}

/// The content of an optional account.
pub open spec fn opt_account(a: Option<AccountHint>) -> Option<AccountView> {
    match a {
        Some(h) => Some(h@),
        None => None,
    }
}

/// The account of one block of the login file.
pub fn account_from_captures(id: Option<String>, persona_caps: &Option<Vec<Option<String>>>) -> (r:
    Option<AccountHint>)
    ensures
        opt_account(r) == account_of(opt_text(id), captures_view(*persona_caps)),
{
    let steamid64 = or_empty(id);
    let persona = or_empty(first_group_text(persona_caps, 1));
    if steamid64.as_str().is_empty() {
        None
    } else {
        Some(AccountHint { steamid64, persona })
    }
}

/// The accounts of the blocks of a login file, in order.
pub open spec fn accounts_of_blocks(blocks: Seq<Seq<Option<Seq<char>>>>) -> Seq<AccountView>
    decreases blocks.len(),
{
    if blocks.len() == 0 {
        Seq::empty()
    } else {
        let before = accounts_of_blocks(blocks.drop_last());
        let groups = blocks.last();
        match account_of(
            group(groups, 1),
            regex_captures(PERSONA_PATTERN@, text_or_empty(group(groups, 2))),
        ) {
            Some(a) => before.push(a),
            None => before,
        }
    }
}

/// The accounts that a login file lists.
pub open spec fn accounts_of_file(text: Seq<char>) -> Seq<AccountView> {
    accounts_of_blocks(regex_captures_iter(USER_BLOCK_PATTERN@, text))
}

/// The accounts that the login files list, file by file.
pub open spec fn accounts_of_files(files: Seq<String>) -> Seq<AccountView>
    decreases files.len(),
{
    if files.len() == 0 {
        Seq::empty()
    } else {
        accounts_of_files(files.drop_last()) + accounts_of_file(files.last()@)
    }
}

/// Reads the accounts of one login file and adds them to the list.
pub fn parse_login_users(out: &mut Vec<AccountHint>, text: &str)
    ensures
        account_views(final(out)@) == account_views(old(out)@) + accounts_of_file(text@),
{
    let blocks = all_captures(USER_BLOCK_PATTERN, text);
    let ghost views = matches_view(blocks@);
    let ghost start = account_views(out@);
    let mut i: usize = 0;
    assert(views.subrange(0, 0) =~= Seq::<Seq<Option<Seq<char>>>>::empty());
    assert(start + Seq::<AccountView>::empty() =~= start);
    while i < blocks.len()
        invariant
            i <= blocks.len(),
            views == matches_view(blocks@),
            account_views(out@) == start + accounts_of_blocks(views.subrange(0, i as int)),
        decreases blocks.len() - i,
    {
        let ghost before = account_views(out@);
        let ghost seen = accounts_of_blocks(views.subrange(0, i as int));
        assert(views.subrange(0, i + 1).drop_last() == views.subrange(0, i as int));
        assert(views.subrange(0, i + 1).last() == groups_view(blocks@[i as int]@));
        let id = group_text(&blocks[i], 1);
        let body = or_empty(group_text(&blocks[i], 2));
        let persona_caps = first_captures(PERSONA_PATTERN, body.as_str());
        match account_from_captures(id, &persona_caps) {
            Some(a) => {
                out.push(a);
                assert(account_views(out@) =~= before.push(a@));
                assert(before.push(a@) =~= start + seen.push(a@));
            },
            None => {},
        }
        i += 1;
    }
    assert(views.subrange(0, blocks.len() as int) == views);
}

/// Reads the accounts that the login files list, file by file.
pub fn detect_accounts_sync(files: &Vec<String>) -> (out: Vec<AccountHint>)
    ensures
        account_views(out@) == accounts_of_files(files@),
{
    let mut out: Vec<AccountHint> = Vec::new();
    let mut i: usize = 0;
    assert(files@.subrange(0, 0) =~= Seq::<String>::empty());
    assert(account_views(out@) =~= Seq::<AccountView>::empty());
    while i < files.len()
        invariant
            i <= files.len(),
            account_views(out@) == accounts_of_files(files@.subrange(0, i as int)),
        decreases files.len() - i,
    {
        assert(files@.subrange(0, i + 1).drop_last() == files@.subrange(0, i as int));
        assert(files@.subrange(0, i + 1).last() == files@[i as int]);
        parse_login_users(&mut out, files[i].as_str());
        i += 1;
    }
    assert(files@.subrange(0, files.len() as int) == files@);
    out
}

/// The first groups of the matches that have one, in order.
pub open spec fn first_groups(all: Seq<Seq<Option<Seq<char>>>>) -> Seq<Seq<char>>
    decreases all.len(),
{
    if all.len() == 0 {
        Seq::empty()
    } else {
        let before = first_groups(all.drop_last());
        match group(all.last(), 1) {
            Some(t) => before.push(t),
            None => before,
        }
    }
}

/// The first groups of the matches that have one, in order.
pub fn ids_from_matches(all: &Vec<Vec<Option<String>>>) -> (out: Vec<String>)
    ensures
        texts(out@) == first_groups(matches_view(all@)),
{
    let ghost views = matches_view(all@);
    let mut out: Vec<String> = Vec::new();
    let mut i: usize = 0;
    assert(views.subrange(0, 0) =~= Seq::<Seq<Option<Seq<char>>>>::empty());
    assert(texts(out@) =~= Seq::<Seq<char>>::empty());
    while i < all.len()
        invariant
            i <= all.len(),
            views == matches_view(all@),
            texts(out@) == first_groups(views.subrange(0, i as int)),
        decreases all.len() - i,
    {
        let ghost before = texts(out@);
        assert(views.subrange(0, i + 1).drop_last() == views.subrange(0, i as int));
        assert(views.subrange(0, i + 1).last() == groups_view(all@[i as int]@));
        match group_text(&all[i], 1) {
            Some(id) => {
                out.push(id);
                assert(texts(out@) =~= before.push(id@));
            },
            None => {},
        }
        i += 1;
    }
    assert(views.subrange(0, all.len() as int) == views);
    out
}

/// Finds the account ids written in a free text, in the order in which they
/// stand.
pub fn resolve_steamids_from_text(text: &str) -> (out: Vec<String>)
    ensures
        texts(out@) == first_groups(regex_captures_iter(STEAMID_PATTERN@, text@)),
{
    let all = all_captures(STEAMID_PATTERN, text);
    ids_from_matches(&all)
}

} // verus!
