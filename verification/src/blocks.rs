//! Nested blocks of the key/value text format: a quoted key, white space and
//! a block between braces. The scanner goes by position and by brace depth
//! alone; text that is cut short or oddly quoted gives a shorter block or
//! none, never an error.

use crate::chunks::slice_string;
use crate::text::{char_is_space, is_digit, is_space, matches_at, occurs_at};
use vstd::prelude::*;

verus! {

/// The first position at or after `from` that holds no white space.
pub open spec fn skip_space(text: Seq<char>, from: int) -> int
    decreases text.len() - from,
{
    if 0 <= from < text.len() && is_space(text[from]) {
        skip_space(text, from + 1)
    } else {
        from
    }
}

/// The position of the brace that opens a block after the key that ends at
/// `from`: the first character after any white space, where it is `{`.
pub open spec fn brace_after(text: Seq<char>, from: int) -> Option<int> {
    let p = skip_space(text, from);
    if 0 <= p < text.len() && text[p] == '{' {
        Some(p)
    } else {
        None
    }
}

/// The position of the brace that closes the block in which `from` stands
/// `depth` blocks deep; the end of the text where the block is never closed.
pub open spec fn block_close(text: Seq<char>, from: int, depth: nat) -> int
    decreases text.len() - from,
{
    if from < 0 || from >= text.len() {
        text.len() as int
    } else if text[from] == '}' {
        if depth == 0 {
            from
        } else {
            block_close(text, from + 1, (depth - 1) as nat)
        }
    } else if text[from] == '{' {
        block_close(text, from + 1, depth + 1)
    } else {
        block_close(text, from + 1, depth)
    }
}

/// A block as found in a text: where its key stands and where its body
/// stands, each from a position up to but not including another.
pub struct BlockSpan {
    pub key_start: int,
    pub key_end: int,
    pub body_start: int,
    pub body_end: int,
}

/// The same in machine words.
#[derive(Clone, Copy, Debug, PartialEq, Eq, Structural)]
pub struct Span {
    pub key_start: usize,
    pub key_end: usize,
    pub body_start: usize,
    pub body_end: usize,
}

impl View for Span {
    type V = BlockSpan;

    open spec fn view(&self) -> BlockSpan {
        BlockSpan {
            key_start: self.key_start as int,
            key_end: self.key_end as int,
            body_start: self.body_start as int,
            body_end: self.body_end as int,
        }
    }
}

/// The span of an optional block.
pub open spec fn opt_span(s: Option<Span>) -> Option<BlockSpan> {
    match s {
        Some(span) => Some(span@),
        None => None,
    }
}

/// The block whose quoted key stands at `at`, if the key there is `quoted`
/// and a block follows it.
pub open spec fn keyed_block_at(text: Seq<char>, quoted: Seq<char>, at: int) -> Option<BlockSpan> {
    if occurs_at(text, quoted, at) {
        match brace_after(text, at + quoted.len()) {
            Some(open) => Some(
                BlockSpan {
                    key_start: at,
                    key_end: at + quoted.len(),
                    body_start: open + 1,
                    body_end: block_close(text, open + 1, 0),
                },
            ),
            None => None,
        }
    } else {
        None
    }
}

/// The first block at or after `from` whose quoted key is `quoted`.
pub open spec fn keyed_block(text: Seq<char>, quoted: Seq<char>, from: int) -> Option<BlockSpan>
    decreases text.len() + 1 - from,
{
    if from < 0 || from + quoted.len() > text.len() {
        None
    } else if keyed_block_at(text, quoted, from) is Some {
        keyed_block_at(text, quoted, from)
    } else {
        keyed_block(text, quoted, from + 1)
    }
}

/// The end of the run of digits that starts at `from`.
pub open spec fn digits_end(text: Seq<char>, from: int) -> int
    decreases text.len() - from,
{
    if 0 <= from < text.len() && is_digit(text[from]) {
        digits_end(text, from + 1)
    } else {
        from
    }
}

/// The block whose key stands at `at`, if there stands a quoted number with
/// a block after it.
pub open spec fn numbered_block_at(text: Seq<char>, at: int) -> Option<BlockSpan> {
    let end = digits_end(text, at + 1);
    if 0 <= at < text.len() && text[at] == '"' && end > at + 1 && end < text.len() && text[end]
        == '"' {
        match brace_after(text, end + 1) {
            Some(open) => Some(
                BlockSpan {
                    key_start: at + 1,
                    key_end: end,
                    body_start: open + 1,
                    body_end: block_close(text, open + 1, 0),
                },
            ),
            None => None,
        }
    } else {
        None
    }
}

/// The blocks under quoted numbers from `from` on, in order: the first such
/// block, then those after its closing brace.
pub open spec fn numbered_blocks(text: Seq<char>, from: int) -> Seq<BlockSpan>
    decreases
            (if from < text.len() {
                text.len() - from
            } else {
                0
            }),
{
    if from < 0 || from >= text.len() {
        Seq::empty()
    } else {
        match numbered_block_at(text, from) {
            Some(b) => if b.body_end >= from {
                seq![b] + numbered_blocks(text, b.body_end + 1)
            } else {
                seq![b]
            },
            None => numbered_blocks(text, from + 1),
        }
    }
}

/// The first position at or after `from` that holds no white space.
pub fn skip_spaces(text: &Vec<char>, from: usize) -> (p: usize)
    requires
        from <= text.len(),
    ensures
        p == skip_space(text@, from as int),
        from <= p <= text.len(),
{
    let mut p: usize = from;
    while p < text.len() && char_is_space(text[p])
        invariant
            from <= p <= text.len(),
            skip_space(text@, from as int) == skip_space(text@, p as int),
        decreases text.len() - p,
    {
        p += 1;
    }
    p
}

/// The end of the run of digits that starts at `from`.
pub fn skip_digits(text: &Vec<char>, from: usize) -> (p: usize)
    requires
        from <= text.len(),
    ensures
        p == digits_end(text@, from as int),
        from <= p <= text.len(),
{
    let mut p: usize = from;
    while p < text.len() && '0' <= text[p] && text[p] <= '9'
        invariant
            from <= p <= text.len(),
            digits_end(text@, from as int) == digits_end(text@, p as int),
        decreases text.len() - p,
    {
        p += 1;
    }
    p
}

/// The position of the brace that closes the block whose body starts at
/// `from`; the end of the text where the block is never closed.
pub fn close_of(text: &Vec<char>, from: usize) -> (p: usize)
    requires
        from <= text.len(),
    ensures
        p == block_close(text@, from as int, 0),
        from <= p <= text.len(),
{
    let mut p: usize = from;
    let mut depth: usize = 0;
    while p < text.len()
        invariant
            from <= p <= text.len(),
            depth <= p - from,
            block_close(text@, from as int, 0) == block_close(text@, p as int, depth as nat),
        decreases text.len() - p,
    {
        let c = text[p];
        if c == '}' {
            if depth == 0 {
                return p;
            }
            depth -= 1;
        } else if c == '{' {
            depth += 1;
        }
        p += 1;
    }
    p
}

/// The first block of the text whose quoted key is `quoted`.
pub fn find_keyed_block(text: &Vec<char>, quoted: &Vec<char>) -> (r: Option<Span>)
    ensures
        opt_span(r) == keyed_block(text@, quoted@, 0),
        r matches Some(s) ==> s.key_start <= s.key_end <= s.body_start <= s.body_end
            <= text.len(),
{
    if quoted.len() > text.len() {
        return None;
    }
    let last: usize = text.len() - quoted.len();
    let mut at: usize = 0;
    loop
        invariant
            at <= last,
            last == text.len() - quoted.len(),
            keyed_block(text@, quoted@, 0) == keyed_block(text@, quoted@, at as int),
        decreases last - at,
    {
        if matches_at(text, quoted, at) {
            let p = skip_spaces(text, at + quoted.len());
            if p < text.len() && text[p] == '{' {
                let end = close_of(text, p + 1);
                return Some(
                    Span {
                        key_start: at,
                        key_end: at + quoted.len(),
                        body_start: p + 1,
                        body_end: end,
                    },
                );
            }
        }
        if at == last {
            return None;
        }
        at += 1;
    }
}

/// The block whose key stands at `at`, if there stands a quoted number with
/// a block after it.
pub fn numbered_block(text: &Vec<char>, at: usize) -> (r: Option<Span>)
    requires
        at < text.len(),
    ensures
        opt_span(r) == numbered_block_at(text@, at as int),
        r matches Some(s) ==> at < s.key_start < s.key_end < s.body_start <= s.body_end
            <= text.len(),
{
    if text[at] != '"' {
        return None;
    }
    let end = skip_digits(text, at + 1);
    if end == at + 1 || end >= text.len() || text[end] != '"' {
        return None;
    }
    let p = skip_spaces(text, end + 1);
    if p < text.len() && text[p] == '{' {
        let close = close_of(text, p + 1);
        Some(Span { key_start: at + 1, key_end: end, body_start: p + 1, body_end: close })
    } else {
        None
    }
}

/// The spans of a list of blocks.
pub open spec fn span_views(spans: Seq<Span>) -> Seq<BlockSpan> {
    spans.map_values(|s: Span| s@)
}

/// The blocks of the text under quoted numbers, in order.
pub fn find_numbered_blocks(text: &Vec<char>) -> (out: Vec<Span>)
    ensures
        span_views(out@) == numbered_blocks(text@, 0),
        forall|i: int|
            0 <= i < out.len() ==> (#[trigger] out@[i]).key_start <= out@[i].key_end
                <= out@[i].body_start <= out@[i].body_end <= text.len(),
{
    let mut out: Vec<Span> = Vec::new();
    let mut at: usize = 0;
    assert(span_views(out@) =~= Seq::<BlockSpan>::empty());
    assert(span_views(out@) + numbered_blocks(text@, 0) =~= numbered_blocks(text@, 0));
    while at < text.len()
        invariant
            at <= text.len(),
            span_views(out@) + numbered_blocks(text@, at as int) == numbered_blocks(text@, 0),
            forall|i: int|
                0 <= i < out.len() ==> (#[trigger] out@[i]).key_start <= out@[i].key_end
                    <= out@[i].body_start <= out@[i].body_end <= text.len(),
        decreases text.len() - at,
    {
        let ghost before = span_views(out@);
        match numbered_block(text, at) {
            Some(span) => {
                out.push(span);
                assert(span_views(out@) =~= before.push(span@));
                let next: usize = if span.body_end < text.len() {
                    span.body_end + 1
                } else {
                    text.len()
                };
                assert(numbered_blocks(text@, span.body_end + 1) == numbered_blocks(
                    text@,
                    next as int,
                ));
                assert(before.push(span@) + numbered_blocks(text@, next as int) =~= before + (
                seq![span@] + numbered_blocks(text@, span.body_end + 1)));
                at = next;
            },
            None => {
                at += 1;
            },
        }
    }
    assert(span_views(out@) + numbered_blocks(text@, at as int) =~= span_views(out@));
    out
}

/// The key of a block as text.
pub fn key_text(text: &Vec<char>, span: &Span) -> (r: String)
    requires
        span.key_start <= span.key_end <= text.len(),
    ensures
        r@ == text@.subrange(span.key_start as int, span.key_end as int),
{
    slice_string(text, span.key_start, span.key_end)
}

/// The body of a block as text.
pub fn body_text(text: &Vec<char>, span: &Span) -> (r: String)
    requires
        span.body_start <= span.body_end <= text.len(),
    ensures
        r@ == text@.subrange(span.body_start as int, span.body_end as int),
{
    slice_string(text, span.body_start, span.body_end)
}

} // verus!
