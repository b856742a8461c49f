//! The document archive: an append-only store of uploaded documents, each
//! under a generated id that is guaranteed not to collide with any id already
//! in the archive.

use crate::RagError;
use vstd::prelude::*;
use vstd::string::*;

verus! {

/// The record of one successful upload.
#[derive(Clone)]
pub struct Document {
    pub id: String,
    pub filename: String,
    pub bytes: u64,
    pub created_at: u64,
}

/// The mathematical shape of a document record.
pub struct DocumentView {
    pub id: Seq<char>,
    pub filename: Seq<char>,
    pub bytes: u64,
    pub created_at: u64,
}

impl DeepView for Document {
    type V = DocumentView;

    open spec fn deep_view(&self) -> DocumentView {
        DocumentView {
            id: self.id@,
            filename: self.filename@,
            bytes: self.bytes,
            created_at: self.created_at,
        }
    }
}

/// A stored document: its record and its text.
pub struct StoredDoc {
    pub doc: Document,
    pub text: String,
}

/// The mathematical shape of a stored document.
pub struct StoredDocView {
    pub doc: DocumentView,
    pub text: Seq<char>,
}

impl DeepView for StoredDoc {
    type V = StoredDocView;

    open spec fn deep_view(&self) -> StoredDocView {
        StoredDocView { doc: self.doc.deep_view(), text: self.text@ }
    }
}

/// The archive itself; the documents stay in insertion order.
pub struct Archive {
    docs: Vec<StoredDoc>,
}

impl View for Archive {
    type V = Seq<StoredDocView>;

    closed spec fn view(&self) -> Seq<StoredDocView> {
        self.docs.deep_view()
    }
}

/// No two stored documents share an id.
pub open spec fn ids_unique(s: Seq<StoredDocView>) -> bool {
    forall|i: int, j: int| 0 <= i < j < s.len() ==> s[i].doc.id != s[j].doc.id
}

/// The number of bytes of the UTF-8 encoding of a text.
pub open spec fn text_byte_len(s: Seq<char>) -> nat {
    vstd::utf8::encode_utf8(s).len()
}

/// Case-insensitive match of an ASCII character: `b` is the lower-case form.
pub open spec fn char_eq_ci(a: char, b: char) -> bool {
    a == b || ('A' as int <= a as int <= 'Z' as int && a as int + 32 == b as int)
}

/// Whether `s` ends with `suf`, matching ASCII letters case-insensitively;
/// `suf` is given in lower case.
pub open spec fn has_suffix_ci(s: Seq<char>, suf: Seq<char>) -> bool {
    s.len() >= suf.len() && forall|i: int|
        0 <= i < suf.len() ==> char_eq_ci(s[s.len() - suf.len() + i], #[trigger] suf[i])
}

/// The filename extensions the archive accepts: the text formats the chunker
/// understands.
pub open spec fn allowed_filename(f: Seq<char>) -> bool {
    has_suffix_ci(f, ".txt"@) || has_suffix_ci(f, ".md"@)
}

/// The first stored text under the exact `(id, filename)` pair, if any.
pub open spec fn spec_lookup(s: Seq<StoredDocView>, id: Seq<char>, filename: Seq<char>) -> Option<
    Seq<char>,
>
    decreases s.len(),
{
    if s.len() == 0 {
        None
    } else if s[0].doc.id == id && s[0].doc.filename == filename {
        Some(s[0].text)
    } else {
        spec_lookup(s.drop_first(), id, filename)
    }
}

/// Relies on `uuid::Uuid::new_v4`: a freshly generated random UUID, rendered
/// after the fixed `file_` prefix. Of a random value nothing can be promised,
/// so no contract is stated; the archive itself establishes id freshness.
#[verifier::external_body]
fn generate_doc_id() -> String {
    format!("file_{}", uuid::Uuid::new_v4())
}

/// Case-insensitive ASCII character match, `b` in lower case.
fn char_matches_ci(a: char, b: char) -> (r: bool)
    ensures
        r == char_eq_ci(a, b),
{
    a == b || (('A' <= a && a <= 'Z') && (a as u32) + 32 == (b as u32))
}

/// Whether `s` ends with `suf` (given in lower case), ASCII-case-insensitively.
fn ends_with_ci(s: &str, suf: &str) -> (r: bool)
    ensures
        r == has_suffix_ci(s@, suf@),
{
    let n: usize = s.unicode_len();
    let m: usize = suf.unicode_len();
    if n < m {
        return false;
    }
    let mut i: usize = 0;
    while i < m
        invariant
            0 <= i <= m,
            m <= n,
            n == s@.len(),
            m == suf@.len(),
            forall|j: int| 0 <= j < i ==> char_eq_ci(s@[n - m + j], #[trigger] suf@[j]),
        decreases m - i,
    {
        if !char_matches_ci(s.get_char(n - m + i), suf.get_char(i)) {
            return false;
        }
        i = i + 1;
    }
    true
}

/// Skipping a prefix of non-matching entries leaves the lookup unchanged.
proof fn lemma_lookup_skip(s: Seq<StoredDocView>, id: Seq<char>, filename: Seq<char>, i: int)
    requires
        0 <= i <= s.len(),
        forall|j: int|
            0 <= j < i ==> !((#[trigger] s[j]).doc.id == id && s[j].doc.filename == filename),
    ensures
        spec_lookup(s, id, filename) == spec_lookup(
            s.subrange(i, s.len() as int),
            id,
            filename,
        ),
    decreases i,
{
    if i == 0 {
        assert(s.subrange(0, s.len() as int) =~= s);
    } else {
        let t = s.drop_first();
        assert(forall|j: int|
            0 <= j < i - 1 ==> !((#[trigger] t[j]).doc.id == id && t[j].doc.filename == filename));
        lemma_lookup_skip(t, id, filename, i - 1);
        assert(t.subrange(i - 1, t.len() as int) =~= s.subrange(i, s.len() as int));
    }
}

/// A document whose id is fresh is retrievable right after it is appended.
pub proof fn lemma_stored_doc_retrievable(s: Seq<StoredDocView>, e: StoredDocView)
    requires
        forall|i: int| 0 <= i < s.len() ==> (#[trigger] s[i]).doc.id != e.doc.id,
    ensures
        spec_lookup(s.push(e), e.doc.id, e.doc.filename) == Some(e.text),
    decreases s.len(),
{
    if s.len() == 0 {
        assert(s.push(e)[0] == e);
    } else {
        assert(s.push(e).drop_first() =~= s.drop_first().push(e));
        lemma_stored_doc_retrievable(s.drop_first(), e);
    }
}

/// Appending a new document does not disturb the lookup of an id it does not
/// carry.
pub proof fn lemma_append_preserves_lookup(
    s: Seq<StoredDocView>,
    e: StoredDocView,
    id: Seq<char>,
    filename: Seq<char>,
)
    requires
        id != e.doc.id,
    ensures
        spec_lookup(s.push(e), id, filename) == spec_lookup(s, id, filename),
    decreases s.len(),
{
    if s.len() == 0 {
        assert(s.push(e)[0] == e);
        assert(s.push(e).drop_first() =~= Seq::<StoredDocView>::empty());
        assert(spec_lookup(Seq::<StoredDocView>::empty(), id, filename) is None);
    } else {
        assert(s.push(e)[0] == s[0]);
        assert(s.push(e).drop_first() =~= s.drop_first().push(e));
        lemma_append_preserves_lookup(s.drop_first(), e, id, filename);
    }
}

/// Two uploads never collide, even under one filename: the two ids differ and
/// each document stays retrievable under its own `(id, filename)` pair.
pub proof fn lemma_concurrent_uploads_distinct(
    s: Seq<StoredDocView>,
    e1: StoredDocView,
    e2: StoredDocView,
)
    requires
        forall|i: int| 0 <= i < s.len() ==> (#[trigger] s[i]).doc.id != e1.doc.id,
        forall|i: int|
            0 <= i < s.push(e1).len() ==> (#[trigger] s.push(e1)[i]).doc.id != e2.doc.id,
    ensures
        e1.doc.id != e2.doc.id,
        spec_lookup(s.push(e1).push(e2), e1.doc.id, e1.doc.filename) == Some(e1.text),
        spec_lookup(s.push(e1).push(e2), e2.doc.id, e2.doc.filename) == Some(e2.text),
{
    assert(s.push(e1)[s.len() as int] == e1);
    lemma_stored_doc_retrievable(s.push(e1), e2);
    lemma_stored_doc_retrievable(s, e1);
    lemma_append_preserves_lookup(s.push(e1), e2, e1.doc.id, e1.doc.filename);
}

impl Archive {
    /// No two stored documents share an id.
    pub open spec fn wf(&self) -> bool {
        ids_unique(self@)
    }

    /// An empty archive.
    pub fn new() -> (a: Archive)
        ensures
            a@ =~= Seq::<StoredDocView>::empty(),
            a.wf(),
    {
        Archive { docs: Vec::new() }
    }

    /// The number of stored documents.
    pub fn len(&self) -> (n: usize)
        ensures
            n == self@.len(),
    {
        self.docs.len()
    }

    /// Whether some stored document carries this id.
    fn contains_id(&self, id: &String) -> (r: bool)
        ensures
            r == exists|i: int| 0 <= i < self@.len() && (#[trigger] self@[i]).doc.id == id@,
    {
        let mut i: usize = 0;
        while i < self.docs.len()
            invariant
                0 <= i <= self@.len(),
                self@.len() == self.docs@.len(),
                forall|j: int| 0 <= j < i ==> (#[trigger] self@[j]).doc.id != id@,
            decreases self@.len() - i,
        {
            if self.docs[i].doc.id == *id {
                proof {
                    assert(self@[i as int].doc.id == id@);
                }
                return true;
            }
            i = i + 1;
        }
        false
    }

    /// An upper bound on the lengths of all stored ids.
    fn max_id_len(&self) -> (m: usize)
        ensures
            forall|i: int| 0 <= i < self@.len() ==> (#[trigger] self@[i]).doc.id.len() <= m,
    {
        let mut m: usize = 0;
        let mut i: usize = 0;
        while i < self.docs.len()
            invariant
                0 <= i <= self@.len(),
                self@.len() == self.docs@.len(),
                forall|j: int| 0 <= j < i ==> (#[trigger] self@[j]).doc.id.len() <= m,
            decreases self@.len() - i,
        {
            let l: usize = self.docs[i].doc.id.as_str().unicode_len();
            if l > m {
                m = l;
            }
            i = i + 1;
        }
        m
    }

    /// Stores a document under a freshly generated id.
    ///
    /// A filename without an allow-listed text extension is rejected; on
    /// success the new record is appended, its fields are as given, and its
    /// id differs from every id already stored.
    pub fn store(&mut self, filename: String, text: String, created_at: u64) -> (r: Result<
        Document,
        RagError,
    >)
        requires
            old(self).wf(),
        ensures
            final(self).wf(),
            r is Ok <==> allowed_filename(filename@),
            r is Err ==> final(self)@ == old(self)@ && r == Result::<Document, RagError>::Err(
                RagError::UnsupportedFormat,
            ),
            r matches Ok(d) ==> {
                &&& final(self)@ == old(self)@.push(
                    StoredDocView { doc: d.deep_view(), text: text@ },
                )
                &&& d.filename@ == filename@
                &&& d.created_at == created_at
                &&& d.bytes == text_byte_len(text@)
                &&& forall|i: int|
                    0 <= i < old(self)@.len() ==> (#[trigger] old(self)@[i]).doc.id != d.id@
            },
    {
        if !(ends_with_ci(filename.as_str(), ".txt") || ends_with_ci(filename.as_str(), ".md")) {
            return Err(RagError::UnsupportedFormat);
        }
        let mut id = generate_doc_id();
        if self.contains_id(&id) {
            let ml = self.max_id_len();
            while id.as_str().unicode_len() <= ml
                invariant
                    forall|i: int| 0 <= i < self@.len() ==> (#[trigger] self@[i]).doc.id.len()
                        <= ml,
                decreases ml + 1 - id@.len(),
            {
                id.append("x");
                proof {
                    reveal_strlit("x");
                }
            }
            proof {
                assert forall|i: int| 0 <= i < self@.len() implies (#[trigger] self@[i]).doc.id
                    != id@ by {
                    assert(self@[i].doc.id.len() <= ml);
                }
            }
        } else {
            proof {
                assert(forall|i: int|
                    0 <= i < self@.len() ==> (#[trigger] self@[i]).doc.id != id@);
            }
        }
        let byte_count: usize = text.as_str().as_bytes().len();
        let d = Document {
            id: id.clone(),
            filename: filename.clone(),
            bytes: byte_count as u64,
            created_at,
        };
        let entry = StoredDoc {
            doc: Document { id, filename, bytes: byte_count as u64, created_at },
            text,
        };
        let ghost prev = self@;
        let ghost entry_view = entry.deep_view();
        self.docs.push(entry);
        proof {
            assert(self@ =~= prev.push(entry_view));
            assert(d.deep_view() == entry_view.doc);
            assert forall|i: int, j: int| 0 <= i < j < self@.len() implies self@[i].doc.id
                != self@[j].doc.id by {
                if j < prev.len() {
                    assert(prev[i].doc.id != prev[j].doc.id);
                }
            }
        }
        Ok(d)
    }

    /// Loads the text stored under the exact `(id, filename)` pair; an
    /// unknown pair is reported as not found.
    pub fn load(&self, id: &String, filename: &String) -> (r: Result<String, RagError>)
        ensures
            match spec_lookup(self@, id@, filename@) {
                Some(t) => r matches Ok(s) && s@ == t,
                None => r == Result::<String, RagError>::Err(RagError::NotFound),
            },
    {
        let mut i: usize = 0;
        while i < self.docs.len()
            invariant
                0 <= i <= self@.len(),
                self@.len() == self.docs@.len(),
                forall|j: int|
                    0 <= j < i ==> !((#[trigger] self@[j]).doc.id == id@ && self@[j].doc.filename
                        == filename@),
            decreases self@.len() - i,
        {
            if self.docs[i].doc.id == *id && self.docs[i].doc.filename == *filename {
                proof {
                    lemma_lookup_skip(self@, id@, filename@, i as int);
                    assert(self@.subrange(i as int, self@.len() as int)[0] == self@[i as int]);
                }
                return Ok(self.docs[i].text.clone());
            }
            i = i + 1;
        }
        proof {
            lemma_lookup_skip(self@, id@, filename@, self@.len() as int);
            assert(self@.subrange(self@.len() as int, self@.len() as int)
                =~= Seq::<StoredDocView>::empty());
        }
        Err(RagError::NotFound)
    }
}

} // verus!
