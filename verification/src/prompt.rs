//! The prompt assembler: the profile as a compact record, the shortlist as a
//! table, and the request that goes to the model.

use crate::candidates::{prefilter_candidates, row_views, shortlist_of, CandRow, RowView};
use crate::model::{texts, LibraryGame};
use crate::profile::PlayerProfile;
use crate::text::{
    append_chars, append_text, chars_of, decimal_text, i64_chars, int_text, string_of, trim,
    trimmed, u64_chars,
};
use vstd::prelude::*;

verus! {

/// The free-text request of the user.
#[derive(Clone, Debug)]
pub struct ChatUserMsg {
    pub text: String,
}

// --------------------------------------------------------------- JSON strings

/// The character that writes the hexadecimal digit `d` in lower case.
pub open spec fn hex_char(d: int) -> char {
    if d < 10 {
        ((48 + d) as u8) as char
    } else {
        ((87 + d) as u8) as char
    }
}

/// One character as it stands inside a JSON string: the quote, the
/// backslash and the control characters are escaped, every other character
/// stands for itself.
pub open spec fn json_escape(c: char) -> Seq<char> {
    if c == '"' {
        seq!['\\', '"']
    } else if c == '\\' {
        seq!['\\', '\\']
    } else if c == '\u{8}' {
        seq!['\\', 'b']
    } else if c == '\t' {
        seq!['\\', 't']
    } else if c == '\n' {
        seq!['\\', 'n']
    } else if c == '\u{c}' {
        seq!['\\', 'f']
    } else if c == '\r' {
        seq!['\\', 'r']
    } else if (c as u32) < 0x20 {
        seq!['\\', 'u', '0', '0', hex_char((c as u32 / 16) as int), hex_char((c as u32 % 16) as int)]
    } else {
        seq![c]
    }
}

/// A text with each character as it stands inside a JSON string.
pub open spec fn json_escaped(s: Seq<char>) -> Seq<char>
    decreases s.len(),
{
    if s.len() == 0 {
        Seq::empty()
    } else {
        json_escaped(s.drop_last()) + json_escape(s.last())
    }
}

/// A text as a JSON string: escaped, between double quotes.
pub open spec fn json_quoted(s: Seq<char>) -> Seq<char> {
    seq!['"'] + json_escaped(s) + seq!['"']
}

/// Writes a text as a JSON string.
///
/// Wraps `serde_json::to_string` on a string slice. The serializer puts the
/// text between double quotes and escapes the quote, the backslash and the
/// characters below U+0020 (`\b`, `\t`, `\n`, `\f`, `\r`, else `\u00` and two
/// lower-case hexadecimal digits); it writes into memory and cannot fail.
#[verifier::external_body]
pub(crate) fn json_string(s: &str) -> (r: String)
    ensures
        r@ == json_quoted(s@),
{
    serde_json::to_string(s).unwrap_or_default()
}

/// The texts as a JSON array of strings.
pub open spec fn json_items(items: Seq<Seq<char>>) -> Seq<char>
    decreases items.len(),
{
    if items.len() == 0 {
        Seq::empty()
    } else if items.len() == 1 {
        json_quoted(items[0])
    } else {
        json_items(items.drop_last()) + seq![','] + json_quoted(items.last())
    }
}

/// The texts as a JSON array of strings.
pub open spec fn json_list(items: Seq<Seq<char>>) -> Seq<char> {
    seq!['['] + json_items(items) + seq![']']
}

/// Writes a JSON array of strings at the end of `v`.
fn append_json_list(v: &mut Vec<char>, items: &Vec<String>)
    ensures
        final(v)@ == old(v)@ + json_list(texts(items@)),
{
    let ghost before = v@;
    let ghost all = texts(items@);
    v.push('[');
    let mut i: usize = 0;
    assert(all.subrange(0, 0) =~= Seq::<Seq<char>>::empty());
    assert(v@ =~= before + seq!['['] + json_items(all.subrange(0, 0)));
    while i < items.len()
        invariant
            i <= items.len(),
            all == texts(items@),
            v@ == before + seq!['['] + json_items(all.subrange(0, i as int)),
        decreases items.len() - i,
    {
        let ghost seen = all.subrange(0, i as int);
        let ghost next = all.subrange(0, i + 1);
        assert(next.drop_last() == seen);
        assert(next.last() == items@[i as int]@);
        if i > 0 {
            v.push(',');
        }
        let quoted = json_string(items[i].as_str());
        append_text(v, quoted.as_str());
        proof {
            if i == 0 {
                assert(next[0] == items@[i as int]@);
                assert(json_items(seen) =~= Seq::<char>::empty());
                assert(v@ =~= before + seq!['['] + json_items(next));
            } else {
                assert(v@ =~= before + seq!['['] + json_items(next));
            }
        }
        i += 1;
    }
    assert(all.subrange(0, items.len() as int) == all);
    v.push(']');
    assert(v@ =~= before + json_list(all));
}

// --------------------------------------------------------------- the profile

/// The profile as a compact JSON record: the leading and the rare genres,
/// the average, both thresholds, and the counts of unplayed and barely
/// played titles.
pub open spec fn profile_json(p: PlayerProfile) -> Seq<char> {
    "{\"top_gen\":"@ + json_list(texts(p.top_genres@)) + ",\"rare_gen\":"@ + json_list(
        texts(p.rare_genres@),
    ) + ",\"avg_min\":"@ + decimal_text(p.avg_play_minutes as nat) + ",\"short_thr\":"@
        + decimal_text(p.short_threshold as nat) + ",\"long_thr\":"@ + decimal_text(
        p.long_threshold as nat,
    ) + ",\"unplayed\":"@ + decimal_text(p.total_unplayed as nat) + ",\"barely\":"@
        + decimal_text(p.total_barely_tried as nat) + "}"@
}

/// Writes the profile as a compact JSON record.
pub fn make_profile_json(profile: &PlayerProfile) -> (r: String)
    ensures
        r@ == profile_json(*profile),
{
    let mut v: Vec<char> = Vec::new();
    append_text(&mut v, "{\"top_gen\":");
    append_json_list(&mut v, &profile.top_genres);
    append_text(&mut v, ",\"rare_gen\":");
    append_json_list(&mut v, &profile.rare_genres);
    append_text(&mut v, ",\"avg_min\":");
    append_chars(&mut v, &u64_chars(profile.avg_play_minutes as u64));
    append_text(&mut v, ",\"short_thr\":");
    append_chars(&mut v, &u64_chars(profile.short_threshold as u64));
    append_text(&mut v, ",\"long_thr\":");
    append_chars(&mut v, &u64_chars(profile.long_threshold as u64));
    append_text(&mut v, ",\"unplayed\":");
    append_chars(&mut v, &u64_chars(profile.total_unplayed as u64));
    append_text(&mut v, ",\"barely\":");
    append_chars(&mut v, &u64_chars(profile.total_barely_tried as u64));
    append_text(&mut v, "}");
    assert(v@ =~= profile_json(*profile));
    string_of(&v)
}

// ------------------------------------------------------------- the candidates

/// A name as it stands in a row of the table: a tab or a line break in it
/// becomes a space.
pub open spec fn cell_text(name: Seq<char>) -> Seq<char> {
    name.map_values(
        |c: char|
            if c == '\t' || c == '\n' {
                ' '
            } else {
                c
            },
    )
}

/// One row of the table: appid, name and installed flag, tab-separated on a
/// line of its own.
pub open spec fn table_row(row: RowView) -> Seq<char> {
    int_text(row.appid as int) + seq!['\t'] + cell_text(row.name) + seq![
        '\t',
        if row.installed {
            '1'
        } else {
            '0'
        },
        '\n',
    ]
}

/// The rows of the table, one after the other.
pub open spec fn table_rows(rows: Seq<RowView>) -> Seq<char>
    decreases rows.len(),
{
    if rows.len() == 0 {
        Seq::empty()
    } else {
        table_rows(rows.drop_last()) + table_row(rows.last())
    }
}

/// The candidates as a tab-separated table under a header line.
pub open spec fn candidates_tsv(rows: Seq<RowView>) -> Seq<char> {
    "appid\tname\tinstalled\n"@ + table_rows(rows)
}

/// Writes the candidates as a tab-separated table, one row per line.
pub fn make_candidates_tsv(cands: &Vec<CandRow>) -> (r: String)
    ensures
        r@ == candidates_tsv(row_views(cands@)),
{
    let ghost rows = row_views(cands@);
    let mut v: Vec<char> = Vec::new();
    append_text(&mut v, "appid\tname\tinstalled\n");
    let mut i: usize = 0;
    assert(rows.subrange(0, 0) =~= Seq::<RowView>::empty());
    assert(v@ =~= "appid\tname\tinstalled\n"@ + table_rows(rows.subrange(0, 0)));
    while i < cands.len()
        invariant
            i <= cands.len(),
            rows == row_views(cands@),
            v@ == "appid\tname\tinstalled\n"@ + table_rows(rows.subrange(0, i as int)),
        decreases cands.len() - i,
    {
        let row = &cands[i];
        let ghost before = v@;
        assert(rows.subrange(0, i + 1).drop_last() == rows.subrange(0, i as int));
        assert(rows.subrange(0, i + 1).last() == row@);
        append_chars(&mut v, &i64_chars(row.appid));
        v.push('\t');
        let name = chars_of(row.name.as_str());
        let ghost head = v@;
        let mut j: usize = 0;
        while j < name.len()
            invariant
                j <= name.len(),
                v@ == head + cell_text(name@).subrange(0, j as int),
            decreases name.len() - j,
        {
            let c = name[j];
            if c == '\t' || c == '\n' {
                v.push(' ');
            } else {
                v.push(c);
            }
            j += 1;
        }
        assert(cell_text(name@).subrange(0, name.len() as int) == cell_text(name@));
        v.push('\t');
        if row.installed {
            v.push('1');
        } else {
            v.push('0');
        }
        v.push('\n');
        assert(v@ =~= before + table_row(row@));
        i += 1;
    }
    assert(rows.subrange(0, cands.len() as int) == rows);
    string_of(&v)
}

// ----------------------------------------------------------------- the request

/// The fixed instruction to the model.
pub open spec fn system_instruction() -> Seq<char> {
    "Ти — локальний асистент SteamGameHelper. Відповідай мовою користувача, лаконічно. Із наданого профілю й кандидатів вибери 5–7 найкращих і поверни СТРОГО JSON: {\"picks\":[{\"appid\":<number>,\"reason\":\"<<=120 символів>\"}, ...]}. Не вигадуй ігор поза переліком. Причини конкретні (кооп/коротка/жанр/встановлено), без повторів."@
}

/// The user's part of the request: the user's words, then the profile and
/// the candidate table under their headings, each part trimmed.
pub open spec fn user_request(
    user_text: Seq<char>,
    profile_json: Seq<char>,
    candidates_tsv: Seq<char>,
) -> Seq<char> {
    trimmed(user_text) + "\n\n[profile]\n"@ + trimmed(profile_json) + "\n\n[candidates_tsv]\n"@
        + trimmed(candidates_tsv)
}

/// Builds the request to the model: the fixed instruction, and the user's
/// part with the profile and the candidate table.
pub fn build_llm_prompt(user_text: &str, profile_json: &str, candidates_tsv: &str) -> (r: (
    String,
    String,
))
    ensures
        r.0@ == system_instruction(),
        r.1@ == user_request(user_text@, profile_json@, candidates_tsv@),
{
    let system = "Ти — локальний асистент SteamGameHelper. Відповідай мовою користувача, лаконічно. Із наданого профілю й кандидатів вибери 5–7 найкращих і поверни СТРОГО JSON: {\"picks\":[{\"appid\":<number>,\"reason\":\"<<=120 символів>\"}, ...]}. Не вигадуй ігор поза переліком. Причини конкретні (кооп/коротка/жанр/встановлено), без повторів.".to_owned();
    let mut v: Vec<char> = Vec::new();
    append_text(&mut v, trim(user_text).as_str());
    append_text(&mut v, "\n\n[profile]\n");
    append_text(&mut v, trim(profile_json).as_str());
    append_text(&mut v, "\n\n[candidates_tsv]\n");
    append_text(&mut v, trim(candidates_tsv).as_str());
    assert(v@ =~= user_request(user_text@, profile_json@, candidates_tsv@));
    (system, string_of(&v))
}

/// What is said where the library is empty.
pub open spec fn empty_library_message() -> Seq<char> {
    "Library is empty. Scan your library first."@
}

/// What is said where no candidate is left.
pub open spec fn no_candidates_message() -> Seq<char> {
    "No candidates to recommend. Try scanning again."@
}

/// The content of a request or of the message in its place.
pub open spec fn request_view(r: Result<(String, String), String>) -> Result<
    (Seq<char>, Seq<char>),
    Seq<char>,
> {
    match r {
        Ok((system, user)) => Ok((system@, user@)),
        Err(message) => Err(message@),
    }
}

/// The request for a recommendation, or the message to the user where the
/// shortlist chosen from the rows is empty.
pub open spec fn chat_request(user_text: Seq<char>, profile: PlayerProfile, rows: Seq<RowView>)
    -> Result<(Seq<char>, Seq<char>), Seq<char>> {
    if shortlist_of(rows).len() == 0 {
        Err(no_candidates_message())
    } else {
        Ok(
            (
                system_instruction(),
                user_request(user_text, profile_json(profile), candidates_tsv(shortlist_of(rows))),
            ),
        )
    }
}

/// Whether there is a library to recommend from: an empty library is
/// answered with the advice to scan first.
pub fn require_library(lib: &Vec<LibraryGame>) -> (r: Result<(), String>)
    ensures
        lib.len() > 0 ==> r is Ok,
        lib.len() == 0 ==> (r matches Err(message) && message@ == empty_library_message()),
{
    if lib.len() == 0 {
        Err("Library is empty. Scan your library first.".to_owned())
    } else {
        Ok(())
    }
}

/// Assembles the request for a recommendation from the user's message, the
/// profile and the scored candidate rows.
///
/// The shortlist is chosen from the rows. Where it holds no row the answer
/// is the advice to scan again; otherwise the request holds the profile and
/// the shortlist.
pub fn llm_chat(user: &ChatUserMsg, profile: &PlayerProfile, rows: &Vec<CandRow>) -> (r: Result<
    (String, String),
    String,
>)
    ensures
        request_view(r) == chat_request(user.text@, *profile, row_views(rows@)),
{
    let cands = prefilter_candidates(rows);
    if cands.len() == 0 {
        return Err("No candidates to recommend. Try scanning again.".to_owned());
    }
    let profile_text = make_profile_json(profile);
    let table = make_candidates_tsv(&cands);
    Ok(build_llm_prompt(user.text.as_str(), profile_text.as_str(), table.as_str()))
}

/// The error of the model as it is shown to the user.
pub fn llm_error(message: &str) -> (r: String)
    ensures
        r@ == "LLM error: "@ + message@,
{
    let mut v: Vec<char> = Vec::new();
    append_text(&mut v, "LLM error: ");
    append_text(&mut v, message);
    string_of(&v)
}

} // verus!
