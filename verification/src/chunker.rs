//! The text chunker: splits a document into bounded, ordered chunks whose
//! concatenation is exactly the original text.

use crate::RagError;
use crate::text::{all_spaces, concat_seqs, is_space, is_space_char};
use vstd::prelude::*;
use vstd::string::*;

verus! {

/// True when the first `max_len` characters of a chunk offer no split point:
/// neither a line break nor a space. Only such a chunk may run oversized.
pub open spec fn unsplittable_prefix(c: Seq<char>, max_len: int) -> bool {
    forall|k: int| 0 <= k < max_len && k < c.len() ==> (#[trigger] c[k]) != '\n' && c[k] != ' '
}

/// What holds of a successful chunking of `text`: at least one chunk, each
/// non-empty, concatenating back to exactly the text, the oversized flag set
/// exactly when some chunk had to exceed `max_len`, and a chunk exceeding
/// `max_len` only where its whole window offered no split point.
pub open spec fn chunks_valid(
    chunks: Seq<Seq<char>>,
    oversized: bool,
    text: Seq<char>,
    max_len: int,
) -> bool {
    &&& chunks.len() >= 1
    &&& concat_seqs(chunks) == text
    &&& (forall|i: int| 0 <= i < chunks.len() ==> (#[trigger] chunks[i]).len() >= 1)
    &&& (oversized <==> exists|i: int| 0 <= i < chunks.len() && (#[trigger] chunks[i]).len() > max_len)
    &&& (forall|i: int|
        0 <= i < chunks.len() && (#[trigger] chunks[i]).len() > max_len ==> unsplittable_prefix(
            chunks[i],
            max_len,
        ))
}

/// The chunks of a document, in order, and whether any of them had to exceed
/// the configured maximum because no split point was available.
pub struct ChunkOutcome {
    pub chunks: Vec<String>,
    pub oversized: bool,
}

/// The format hints the chunker understands: plain text and markdown.
pub open spec fn supported_hint(h: Seq<char>) -> bool {
    h == "txt"@ || h == "md"@
}

/// Whether two text slices hold the same characters.
fn eq_str(a: &str, b: &str) -> (r: bool)
    ensures
        r == (a@ == b@),
{
    let sa = String::from_str(a);
    let sb = String::from_str(b);
    sa == sb
}

/// Whether `s` holds at least one non-whitespace character.
fn has_content(s: &str) -> (r: bool)
    ensures
        r == !all_spaces(s@),
{
    let n: usize = s.unicode_len();
    let mut i: usize = 0;
    while i < n
        invariant
            0 <= i <= n,
            n == s@.len(),
            forall|j: int| 0 <= j < i ==> is_space_char(#[trigger] s@[j]),
        decreases n - i,
    {
        if !is_space(s.get_char(i)) {
            proof {
                assert(!is_space_char(s@[i as int]));
            }
            return true;
        }
        i = i + 1;
    }
    false
}

/// Picks the end of the next chunk, scanning the window of at most `max_len`
/// characters after `pos`: the latest line break wins, then the latest space;
/// with neither, the chunk runs on to the next break or the end of the text,
/// and the caller flags it as oversized.
fn choose_cut(text: &str, pos: usize, max_len: usize) -> (cut: usize)
    requires
        pos < text@.len(),
        max_len >= 1,
        text@.len() <= usize::MAX,
    ensures
        pos < cut <= text@.len(),
        cut - pos > max_len ==> forall|m: int|
            pos < m <= pos + max_len ==> (#[trigger] text@[m - 1]) != '\n' && text@[m - 1] != ' ',
{
    let n: usize = text.unicode_len();
    if n - pos <= max_len {
        return n;
    }
    let window_end: usize = pos + max_len;
    let mut k: usize = window_end;
    while k > pos
        invariant
            pos <= k <= window_end,
            window_end == pos + max_len,
            window_end <= n,
            n == text@.len(),
            forall|m: int| k < m <= window_end ==> (#[trigger] text@[m - 1]) != '\n',
        decreases k,
    {
        if text.get_char(k - 1) == '\n' {
            return k;
        }
        k = k - 1;
    }
    let mut k2: usize = window_end;
    while k2 > pos
        invariant
            pos <= k2 <= window_end,
            window_end == pos + max_len,
            window_end <= n,
            n == text@.len(),
            forall|m: int| k2 < m <= window_end ==> (#[trigger] text@[m - 1]) != ' ',
        decreases k2,
    {
        if text.get_char(k2 - 1) == ' ' {
            return k2;
        }
        k2 = k2 - 1;
    }
    let mut e: usize = window_end;
    while e < n
        invariant
            window_end <= e <= n,
            window_end == pos + max_len,
            pos < window_end < n,
            n == text@.len(),
            forall|m: int|
                pos < m <= window_end ==> (#[trigger] text@[m - 1]) != '\n' && text@[m - 1] != ' ',
        decreases n - e,
    {
        if text.get_char(e) == '\n' || text.get_char(e) == ' ' {
            return e + 1;
        }
        e = e + 1;
    }
    n
}

/// The concatenation of a fragment list grows by the pushed fragment.
proof fn lemma_concat_push(ss: Seq<Seq<char>>, x: Seq<char>)
    ensures
        concat_seqs(ss.push(x)) == concat_seqs(ss) + x,
{
    assert(ss.push(x).drop_last() =~= ss);
    assert(ss.push(x).last() == x);
}

/// Splits `text` into ordered chunks.
///
/// The hint must be an allow-listed text format, and the text must hold at
/// least one non-whitespace character; otherwise the matching error comes
/// back. On success the chunks are non-empty, their concatenation is exactly
/// `text`, and the outcome is flagged oversized exactly when some chunk had
/// to exceed `max_len`.
pub fn chunk(text: &str, hint: &str, max_len: usize) -> (r: Result<ChunkOutcome, RagError>)
    requires
        max_len >= 1,
    ensures
        r is Ok <==> (supported_hint(hint@) && !all_spaces(text@)),
        !supported_hint(hint@) ==> r == Result::<ChunkOutcome, RagError>::Err(
            RagError::UnsupportedFormat,
        ),
        supported_hint(hint@) && all_spaces(text@) ==> r == Result::<ChunkOutcome, RagError>::Err(
            RagError::Chunking,
        ),
        r matches Ok(o) ==> chunks_valid(o.chunks.deep_view(), o.oversized, text@, max_len as int),
{
    if !(eq_str(hint, "txt") || eq_str(hint, "md")) {
        return Err(RagError::UnsupportedFormat);
    }
    if !has_content(text) {
        return Err(RagError::Chunking);
    }
    let n: usize = text.unicode_len();
    let mut chunks: Vec<String> = Vec::new();
    let mut oversized: bool = false;
    let mut pos: usize = 0;
    proof {
        assert(concat_seqs(chunks.deep_view()) =~= text@.subrange(0, 0));
    }
    while pos < n
        invariant
            0 <= pos <= n,
            n == text@.len(),
            concat_seqs(chunks.deep_view()) == text@.subrange(0, pos as int),
            forall|i: int| 0 <= i < chunks@.len() ==> (#[trigger] chunks.deep_view()[i]).len() >= 1,
            oversized <==> exists|i: int|
                0 <= i < chunks@.len() && (#[trigger] chunks.deep_view()[i]).len() > max_len,
            forall|i: int|
                0 <= i < chunks@.len() && (#[trigger] chunks.deep_view()[i]).len() > max_len
                    ==> unsplittable_prefix(chunks.deep_view()[i], max_len as int),
            pos > 0 ==> chunks@.len() >= 1,
            max_len >= 1,
        decreases n - pos,
    {
        let cut = choose_cut(text, pos, max_len);
        let piece = text.substring_char(pos, cut);
        let piece_owned = String::from_str(piece);
        let ghost prev = chunks.deep_view();
        chunks.push(piece_owned);
        proof {
            lemma_concat_push(prev, piece@);
            assert(chunks.deep_view() =~= prev.push(piece@));
            assert(text@.subrange(0, pos as int) + text@.subrange(pos as int, cut as int)
                =~= text@.subrange(0, cut as int));
            if cut - pos > max_len {
                assert forall|k: int| 0 <= k < max_len && k < piece@.len() implies (
                #[trigger] piece@[k]) != '\n' && piece@[k] != ' ' by {
                    let m = pos + k + 1;
                    assert(pos < m <= pos + max_len);
                    assert(text@[m - 1] != '\n' && text@[m - 1] != ' ');
                    assert(piece@[k] == text@[m - 1]);
                }
                assert(unsplittable_prefix(piece@, max_len as int));
            }
            assert forall|i: int|
                0 <= i < chunks@.len() && (#[trigger] chunks.deep_view()[i]).len() > max_len
                    implies unsplittable_prefix(chunks.deep_view()[i], max_len as int) by {
                if i < prev.len() {
                    assert(prev[i].len() > max_len);
                    assert(unsplittable_prefix(prev[i], max_len as int));
                } else {
                    assert(chunks.deep_view()[i] == piece@);
                }
            }
        }
        if cut - pos > max_len {
            oversized = true;
            proof {
                let w = chunks@.len() - 1;
                assert(chunks.deep_view()[w].len() > max_len);
            }
        } else {
            proof {
                if oversized {
                    let i = choose|i: int|
                        0 <= i < prev.len() && (#[trigger] prev[i]).len() > max_len;
                    assert(chunks.deep_view()[i].len() > max_len);
                } else {
                    assert forall|i: int|
                        0 <= i < chunks@.len() implies (#[trigger] chunks.deep_view()[i]).len()
                        <= max_len by {
                        if i < prev.len() {
                            assert(prev[i].len() <= max_len);
                        }
                    }
                }
            }
        }
        pos = cut;
    }
    proof {
        assert(text@.subrange(0, n as int) =~= text@);
        assert(n > 0) by {
            if n == 0 {
                assert(all_spaces(text@));
            }
        }
    }
    Ok(ChunkOutcome { chunks, oversized })
}

} // verus!
