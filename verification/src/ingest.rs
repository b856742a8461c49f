//! The ingestion pipeline: load a stored document, chunk it, pair the chunks
//! with the embedding collaborator's vectors index by index, and account for
//! the persistence step.

use crate::RagError;
use crate::archive::{Archive, spec_lookup};
use crate::chunker::{ChunkOutcome, chunk, chunks_valid, supported_hint};
use crate::text::all_spaces;
use vstd::prelude::*;
use vstd::string::*;

verus! {

/// The index of the last `.` in a filename, if any.
pub open spec fn last_dot(f: Seq<char>) -> Option<int>
    decreases f.len(),
{
    if f.len() == 0 {
        None
    } else if f[f.len() - 1] == '.' {
        Some(f.len() - 1)
    } else {
        last_dot(f.drop_last())
    }
}

/// The filename's extension: the characters after the last dot.
pub open spec fn extension_of(f: Seq<char>) -> Option<Seq<char>> {
    match last_dot(f) {
        Some(i) => Some(f.subrange(i + 1, f.len() as int)),
        None => None,
    }
}

/// A dot-free suffix does not change where the last dot is.
proof fn lemma_last_dot_prefix(f: Seq<char>, j: int)
    requires
        0 <= j <= f.len(),
        forall|m: int| j <= m < f.len() ==> (#[trigger] f[m]) != '.',
    ensures
        last_dot(f) == last_dot(f.subrange(0, j)),
    decreases f.len(),
{
    if j == f.len() {
        assert(f.subrange(0, j) =~= f);
    } else {
        let t = f.drop_last();
        assert(f[f.len() - 1] != '.');
        assert(forall|m: int| j <= m < t.len() ==> (#[trigger] t[m]) != '.');
        lemma_last_dot_prefix(t, j);
        assert(t.subrange(0, j) =~= f.subrange(0, j));
    }
}

/// Finds the position right after the last dot of `f`, if `f` has one.
fn find_extension_start(f: &str) -> (r: Option<usize>)
    ensures
        match r {
            Some(k) => 1 <= k <= f@.len() && last_dot(f@) == Some((k - 1) as int),
            None => last_dot(f@) is None,
        },
{
    let n: usize = f.unicode_len();
    let mut j: usize = n;
    while j > 0
        invariant
            0 <= j <= n,
            n == f@.len(),
            forall|m: int| j <= m < n ==> (#[trigger] f@[m]) != '.',
        decreases j,
    {
        if f.get_char(j - 1) == '.' {
            proof {
                lemma_last_dot_prefix(f@, j as int);
                let p = f@.subrange(0, j as int);
                assert(p[p.len() - 1] == f@[j - 1]);
            }
            return Some(j);
        }
        j = j - 1;
    }
    proof {
        lemma_last_dot_prefix(f@, 0);
        assert(f@.subrange(0, 0) =~= Seq::<char>::empty());
    }
    None
}

/// Loads the document stored under `(id, filename)` and chunks its text,
/// with the filename's extension as the format hint.
///
/// An unknown pair is not found; a filename without an extension, or with one
/// the chunker does not support, is an unsupported format; the chunking
/// itself behaves exactly as [`chunk`] states.
pub fn chunk_stored(archive: &Archive, id: &String, filename: &String, max_len: usize) -> (r:
    Result<ChunkOutcome, RagError>)
    requires
        max_len >= 1,
    ensures
        match spec_lookup(archive@, id@, filename@) {
            None => r == Result::<ChunkOutcome, RagError>::Err(RagError::NotFound),
            Some(text) => match extension_of(filename@) {
                None => r == Result::<ChunkOutcome, RagError>::Err(RagError::UnsupportedFormat),
                Some(ext) => {
                    &&& (r is Ok <==> (supported_hint(ext) && !all_spaces(text)))
                    &&& (!supported_hint(ext) ==> r == Result::<ChunkOutcome, RagError>::Err(
                        RagError::UnsupportedFormat,
                    ))
                    &&& (supported_hint(ext) && all_spaces(text) ==> r == Result::<
                        ChunkOutcome,
                        RagError,
                    >::Err(RagError::Chunking))
                    &&& (r matches Ok(o) ==> chunks_valid(
                        o.chunks.deep_view(),
                        o.oversized,
                        text,
                        max_len as int,
                    ))
                },
            },
        },
{
    let text = match archive.load(id, filename) {
        Ok(t) => t,
        Err(e) => {
            return Err(e);
        },
    };
    let ext_start = match find_extension_start(filename.as_str()) {
        Some(k) => k,
        None => {
            return Err(RagError::UnsupportedFormat);
        },
    };
    let flen: usize = filename.as_str().unicode_len();
    let hint = filename.as_str().substring_char(ext_start, flen);
    chunk(text.as_str(), hint, max_len)
}

/// One vector-store point prepared for the batched upsert: the index of the
/// embedding vector it belongs to and the chunk text it carries as payload.
#[derive(Clone)]
pub struct UpsertPoint {
    pub vector_index: usize,
    pub source: String,
}

/// The mathematical shape of an upsert point.
pub struct UpsertPointView {
    pub vector_index: int,
    pub source: Seq<char>,
}

impl DeepView for UpsertPoint {
    type V = UpsertPointView;

    open spec fn deep_view(&self) -> UpsertPointView {
        UpsertPointView { vector_index: self.vector_index as int, source: self.source@ }
    }
}

/// Pairs the chunks with the vectors of the embedding response, index by
/// index: point `i` refers to vector `i` and carries chunk `i` as payload.
///
/// A response whose vector count differs from the chunk count cannot be
/// aligned and is reported as an embedding failure.
pub fn align_points(chunks: &Vec<String>, vector_count: usize) -> (r: Result<
    Vec<UpsertPoint>,
    RagError,
>)
    ensures
        r is Ok <==> vector_count == chunks@.len(),
        vector_count != chunks@.len() ==> r == Result::<Vec<UpsertPoint>, RagError>::Err(
            RagError::Embedding,
        ),
        r matches Ok(pts) ==> {
            &&& pts@.len() == chunks@.len()
            &&& forall|i: int|
                0 <= i < pts@.len() ==> (#[trigger] pts.deep_view()[i]).vector_index == i
                    && pts.deep_view()[i].source == chunks.deep_view()[i]
        },
{
    if vector_count != chunks.len() {
        return Err(RagError::Embedding);
    }
    let mut points: Vec<UpsertPoint> = Vec::new();
    let mut i: usize = 0;
    while i < chunks.len()
        invariant
            0 <= i <= chunks@.len(),
            points@.len() == i,
            forall|j: int|
                0 <= j < i ==> (#[trigger] points.deep_view()[j]).vector_index == j
                    && points.deep_view()[j].source == chunks.deep_view()[j],
        decreases chunks@.len() - i,
    {
        let ghost prev = points.deep_view();
        points.push(UpsertPoint { vector_index: i, source: chunks[i].clone() });
        proof {
            assert(points.deep_view() =~= prev.push(
                UpsertPointView { vector_index: i as int, source: chunks.deep_view()[i as int] },
            ));
        }
        i = i + 1;
    }
    Ok(points)
}

/// The summary an ingestion reports back.
#[derive(Clone, Copy, Debug, PartialEq, Eq, Structural)]
pub struct IngestSummary {
    pub chunk_count: usize,
    pub oversized: bool,
}

/// Accounts for the batched upsert, which the pipeline treats as atomic: a
/// failure surfaces as a persistence error with no rollback of what the
/// collaborator may already have written; success yields the summary.
pub fn complete_ingest(points: &Vec<UpsertPoint>, oversized: bool, persisted: bool) -> (r: Result<
    IngestSummary,
    RagError,
>)
    ensures
        r is Ok <==> persisted,
        !persisted ==> r == Result::<IngestSummary, RagError>::Err(RagError::Persistence),
        r matches Ok(s) ==> s.chunk_count == points@.len() && s.oversized == oversized,
{
    if !persisted {
        return Err(RagError::Persistence);
    }
    Ok(IngestSummary { chunk_count: points.len(), oversized })
}

} // verus!
