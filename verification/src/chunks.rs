//! Context feeding: the prompt is handed to the model in pieces of bounded
//! size, cut after a line break or a space where the piece holds one.

use crate::model::texts;
use crate::text::{chars_of, slice_chars, string_of};
use vstd::prelude::*;

verus! {

/// The most characters that one chunk holds.
pub const CHUNK_LEN: usize = 2000;

/// The last position of `c` in `s` from `lo` up to but not including `hi`;
/// -1 where it does not occur there.
pub open spec fn last_index(s: Seq<char>, c: char, lo: int, hi: int) -> int
    decreases hi - lo,
{
    if hi <= lo {
        -1
    } else if s[hi - 1] == c {
        hi - 1
    } else {
        last_index(s, c, lo, hi - 1)
    }
}

/// Where the chunk that starts at `start` ends. A chunk that does not reach
/// the end of the prompt is cut after its last line break, else after its
/// last space, else at the size limit.
pub open spec fn next_cut(prompt: Seq<char>, start: int) -> int {
    let end = if start + CHUNK_LEN < prompt.len() {
        start + CHUNK_LEN
    } else {
        prompt.len() as int
    };
    let cut = if end < prompt.len() {
        if last_index(prompt, '\n', start, end) >= 0 {
            last_index(prompt, '\n', start, end) + 1
        } else if last_index(prompt, ' ', start, end) >= 0 {
            last_index(prompt, ' ', start, end) + 1
        } else {
            end
        }
    } else {
        end
    };
    if cut <= start {
        end
    } else {
        cut
    }
}

/// The chunks of the prompt from position `start` on.
pub open spec fn chunks_from(prompt: Seq<char>, start: int) -> Seq<Seq<char>>
    decreases
            (if start < prompt.len() {
                prompt.len() - start
            } else {
                0
            }),
{
    if start < 0 || start >= prompt.len() {
        Seq::empty()
    } else {
        seq![prompt.subrange(start, next_cut(prompt, start))] + chunks_from(
            prompt,
            next_cut(prompt, start),
        )
    }
}

/// The chunks in which a prompt is fed: the prompt itself where it fits one
/// chunk, else its pieces in order.
pub open spec fn prompt_chunks(prompt: Seq<char>) -> Seq<Seq<char>> {
    if prompt.len() <= CHUNK_LEN {
        seq![prompt]
    } else {
        chunks_from(prompt, 0)
    }
}

/// The chunks joined end to end.
pub open spec fn concat_all(chunks: Seq<Seq<char>>) -> Seq<char>
    decreases chunks.len(),
{
    if chunks.len() == 0 {
        Seq::empty()
    } else {
        chunks[0] + concat_all(chunks.drop_first())
    }
}

/// `last_index` gives a position in range that holds the character, and no
/// later position in range does.
pub proof fn lemma_last_index(s: Seq<char>, c: char, lo: int, hi: int)
    requires
        0 <= lo,
        hi <= s.len(),
    ensures
        last_index(s, c, lo, hi) == -1 || (lo <= last_index(s, c, lo, hi) < hi && s[last_index(
            s,
            c,
            lo,
            hi,
        )] == c),
        forall|i: int| lo <= i < hi && last_index(s, c, lo, hi) < i ==> s[i] != c,
    decreases hi - lo,
{
    if hi > lo && s[hi - 1] != c {
        lemma_last_index(s, c, lo, hi - 1);
    }
}

/// A cut lies after its start, within the chunk size and within the prompt.
pub proof fn lemma_next_cut(prompt: Seq<char>, start: int)
    requires
        0 <= start < prompt.len(),
    ensures
        start < next_cut(prompt, start) <= prompt.len(),
        next_cut(prompt, start) <= start + CHUNK_LEN,
{
    let end = if start + CHUNK_LEN < prompt.len() {
        start + CHUNK_LEN
    } else {
        prompt.len() as int
    };
    lemma_last_index(prompt, '\n', start, end);
    lemma_last_index(prompt, ' ', start, end);
}

/// Chunk round trip, from any start: the chunks from `start` on, joined,
/// are the prompt from `start` on; and none is empty or over the size.
pub proof fn lemma_chunks_from(prompt: Seq<char>, start: int)
    requires
        0 <= start <= prompt.len(),
    ensures
        concat_all(chunks_from(prompt, start)) == prompt.subrange(start, prompt.len() as int),
        forall|i: int|
            0 <= i < chunks_from(prompt, start).len() ==> 0 < (#[trigger] chunks_from(
                prompt,
                start,
            )[i]).len() <= CHUNK_LEN,
    decreases prompt.len() - start,
{
    let chunks = chunks_from(prompt, start);
    if start < prompt.len() {
        let cut = next_cut(prompt, start);
        lemma_next_cut(prompt, start);
        lemma_chunks_from(prompt, cut);
        let rest = chunks_from(prompt, cut);
        assert(chunks.drop_first() =~= rest);
        assert(chunks[0] == prompt.subrange(start, cut));
        assert(prompt.subrange(start, cut) + prompt.subrange(cut, prompt.len() as int)
            =~= prompt.subrange(start, prompt.len() as int));
        assert forall|i: int| 0 <= i < chunks.len() implies 0 < (#[trigger] chunks[i]).len()
            <= CHUNK_LEN by {
            if i > 0 {
                assert(chunks[i] == rest[i - 1]);
            }
        }
    } else {
        assert(prompt.subrange(start, prompt.len() as int) =~= Seq::<char>::empty());
    }
}

/// Chunk round trip: the chunks of a prompt, joined end to end, are the
/// prompt, whether it fits one chunk or not; and no chunk is over the size.
pub proof fn lemma_chunks_round_trip(prompt: Seq<char>)
    ensures
        concat_all(prompt_chunks(prompt)) == prompt,
        forall|i: int|
            0 <= i < prompt_chunks(prompt).len() ==> (#[trigger] prompt_chunks(prompt)[i]).len()
                <= CHUNK_LEN,
{
    if prompt.len() <= CHUNK_LEN {
        let one = seq![prompt];
        assert(one.drop_first() =~= Seq::<Seq<char>>::empty());
        assert(concat_all(one.drop_first()) =~= Seq::<char>::empty());
        assert(one[0] + Seq::<char>::empty() =~= prompt);
    } else {
        lemma_chunks_from(prompt, 0);
        assert(prompt.subrange(0, prompt.len() as int) == prompt);
    }
}

/// The last position of `c` in `v` from `lo` up to but not including `hi`.
pub fn rfind_char(v: &Vec<char>, c: char, lo: usize, hi: usize) -> (r: Option<usize>)
    requires
        lo <= hi <= v.len(),
    ensures
        match r {
            Some(i) => i == last_index(v@, c, lo as int, hi as int),
            None => last_index(v@, c, lo as int, hi as int) == -1,
        },
{
    let mut i: usize = hi;
    while i > lo
        invariant
            lo <= i <= hi <= v.len(),
            last_index(v@, c, lo as int, hi as int) == last_index(v@, c, lo as int, i as int),
        decreases i - lo,
    {
        if v[i - 1] == c {
            return Some(i - 1);
        }
        i -= 1;
    }
    None
}

/// Where the chunk that starts at `start` ends.
pub fn cut_after(prompt: &Vec<char>, start: usize) -> (cut: usize)
    requires
        start < prompt.len(),
    ensures
        cut == next_cut(prompt@, start as int),
        start < cut <= prompt.len(),
{
    proof {
        lemma_next_cut(prompt@, start as int);
    }
    let end: usize = if prompt.len() - start > CHUNK_LEN {
        start + CHUNK_LEN
    } else {
        prompt.len()
    };
    let mut cut = end;
    if end < prompt.len() {
        match rfind_char(prompt, '\n', start, end) {
            Some(i) => {
                cut = i + 1;
            },
            None => {
                match rfind_char(prompt, ' ', start, end) {
                    Some(i) => {
                        cut = i + 1;
                    },
                    None => {},
                }
            },
        }
    }
    if cut <= start {
        cut = end;
    }
    cut
}

/// The characters of `v` from `lo` up to but not including `hi`, as a string.
pub fn slice_string(v: &Vec<char>, lo: usize, hi: usize) -> (s: String)
    requires
        lo <= hi <= v.len(),
    ensures
        s@ == v@.subrange(lo as int, hi as int),
{
    let part = slice_chars(v, lo, hi);
    string_of(&part)
}

/// Splits a prompt into the chunks in which it is fed. Joined end to end the
/// chunks are the prompt again, and none holds more than 2000 characters.
pub fn split_prompt(prompt: &str) -> (chunks: Vec<String>)
    ensures
        texts(chunks@) == prompt_chunks(prompt@),
        concat_all(texts(chunks@)) == prompt@,
        forall|i: int| 0 <= i < chunks.len() ==> (#[trigger] chunks@[i])@.len() <= CHUNK_LEN,
{
    let v = chars_of(prompt);
    let mut chunks: Vec<String> = Vec::new();
    proof {
        lemma_chunks_round_trip(prompt@);
    }
    if v.len() <= CHUNK_LEN {
        chunks.push(slice_string(&v, 0, v.len()));
        assert(v@.subrange(0, v.len() as int) == v@);
        assert(texts(chunks@) =~= seq![prompt@]);
    } else {
        let mut start: usize = 0;
        assert(texts(chunks@) + chunks_from(v@, 0) =~= chunks_from(v@, 0));
        while start < v.len()
            invariant
                start <= v.len(),
                texts(chunks@) + chunks_from(v@, start as int) == chunks_from(v@, 0),
            decreases v.len() - start,
        {
            let cut = cut_after(&v, start);
            let ghost before = texts(chunks@);
            let piece = slice_string(&v, start, cut);
            chunks.push(piece);
            assert(texts(chunks@) =~= before.push(v@.subrange(start as int, cut as int)));
            assert(before.push(v@.subrange(start as int, cut as int)) + chunks_from(
                v@,
                cut as int,
            ) =~= before + chunks_from(v@, start as int));
            start = cut;
        }
        assert(texts(chunks@) + chunks_from(v@, start as int) =~= texts(chunks@));
    }
    assert forall|i: int| 0 <= i < chunks.len() implies (#[trigger] chunks@[i])@.len()
        <= CHUNK_LEN by {
        assert(texts(chunks@)[i] == chunks@[i]@);
        assert(prompt_chunks(prompt@)[i].len() <= CHUNK_LEN);
    }
    chunks
}

} // verus!
