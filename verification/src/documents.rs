//! A document collection searched through a word index. A document's id is
//! its position in the collection.
use crate::search_engine::{
    add_postings,
    lemma_other_words_unchanged,
    lemma_recorded_words_find_document,
    SearchEngine,
};
use crate::text::{lowercase_text, words};
use vstd::prelude::*;

verus! {

#[derive(Debug)]
pub struct Document<'a> {
    pub title: &'a str,
    pub contents: &'a str,
}

/// The documents, in order; a document's id is its position.
#[derive(Debug)]
pub struct Documents<'a> {
    pub docs: Vec<Document<'a>>,
}

/// Every id listed in the index names a document among the first `n`.
pub open spec fn ids_below(m: Map<Seq<char>, Seq<usize>>, n: nat) -> bool {
    forall|w: Seq<char>, j: int| #[trigger]
        m.contains_key(w) && 0 <= j < m[w].len() ==> #[trigger] m[w][j] < n
}

/// Every id listed for word `w` names a document among the first `n`.
pub open spec fn word_ids_below(m: Map<Seq<char>, Seq<usize>>, w: Seq<char>, n: nat) -> bool {
    m.contains_key(w) ==> forall|j: int| 0 <= j < m[w].len() ==> #[trigger] m[w][j] < n
}

/// What a search for word `w` finds: the documents listed for it, in the
/// order of their ids in the index, or nothing when the word is unknown.
pub open spec fn search_outcome<'a>(
    docs: Seq<Document<'a>>,
    m: Map<Seq<char>, Seq<usize>>,
    w: Seq<char>,
) -> Option<Seq<Document<'a>>> {
    if m.contains_key(w) {
        Some(m[w].map_values(|i: usize| docs[i as int]))
    } else {
        None
    }
}

/// The message of a search that finds nothing.
pub open spec fn not_found_message() -> Seq<char> {
    "No found 💀"@
}

/// The message of a deletion with an id past the end.
pub open spec fn invalid_id_message() -> Seq<char> {
    "Invalide Document Id 🏴‍☠️"@
}

/// `r` is what a search for word `w` returns: the found documents, or the
/// not-found message.
pub open spec fn is_search_result<'a>(
    r: Result<Vec<&Document<'a>>, String>,
    docs: Seq<Document<'a>>,
    m: Map<Seq<char>, Seq<usize>>,
    w: Seq<char>,
) -> bool {
    match search_outcome(docs, m, w) {
        Some(found) => match r {
            Ok(v) => v@.len() == found.len() && forall|j: int|
                0 <= j < found.len() ==> *v@[j] == #[trigger] found[j],
            Err(_) => false,
        },
        None => match r {
            Ok(_) => false,
            Err(e) => e@ == not_found_message(),
        },
    }
}

impl<'a> Documents<'a> {
    /// An empty collection.
    pub fn new() -> (r: Self)
        ensures
            r.docs@ == Seq::<Document<'a>>::empty(),
    {
        Documents { docs: Vec::new() }
    }

    /// Appends a document and records each word of its title and then of its
    /// contents in `hash`, under the new document's id.
    pub fn insert_documents(&mut self, title: &'a str, contents: &'a str, hash: &mut SearchEngine<'a>)
        requires
            old(hash).wf(),
        ensures
            final(self).docs@ == old(self).docs@.push(Document { title, contents }),
            final(hash).wf(),
            final(hash).view() == add_postings(
                add_postings(old(hash).view(), words(title@), old(self).docs@.len() as usize),
                words(contents@),
                old(self).docs@.len() as usize,
            ),
    {
        let document = Document { title, contents };
        self.docs.push(document);
        hash.insert_full_content(title, contents, self.docs.len() - 1);
    }

    /// Removes the document with id `id` and hands it back; an id past the
    /// end is refused with a message and changes nothing. Later documents
    /// move down by one, which the index does not follow.
    pub fn delete_documents(&mut self, id: usize) -> (r: Result<Document<'a>, String>)
        ensures
            match r {
                Ok(d) => id < old(self).docs@.len() && d == old(self).docs@[id as int]
                    && final(self).docs@ == old(self).docs@.remove(id as int),
                Err(e) => id >= old(self).docs@.len() && e@ == invalid_id_message()
                    && final(self).docs@ == old(self).docs@,
            },
    {
        if self.docs.len() <= id {
            return Err("Invalide Document Id 🏴‍☠️".to_string());
        }
        let removed_doc = self.docs.remove(id);
        Ok(removed_doc)
    }

    /// The documents listed in `hash` for the lower-cased form of `k`, or the
    /// not-found message when that word is not in the index.
    pub fn search_key<'s>(&'s self, k: &str, hash: &SearchEngine) -> (r: Result<
        Vec<&'s Document<'a>>,
        String,
    >)
        requires
            hash.wf(),
            word_ids_below(hash.view(), lowercase_text(k@), self.docs@.len()),
        ensures
            is_search_result(r, self.docs@, hash.view(), lowercase_text(k@)),
    {
        if let Some(record) = hash.search_engine(k) {
            let mut docs: Vec<&'s Document<'a>> = Vec::new();
            let mut i: usize = 0;
            while i < record.len()
                invariant
                    i <= record@.len(),
                    forall|j: int| 0 <= j < record@.len() ==> #[trigger] record@[j] < self.docs@.len(),
                    docs@.len() == i,
                    forall|j: int| 0 <= j < i ==> *docs@[j] == self.docs@[#[trigger] record@[j] as int],
                decreases record@.len() - i,
            {
                docs.push(&self.docs[record[i]]);
                i = i + 1;
            }
            return Ok(docs);
        }
        Err("No found 💀".to_string())
    }

    /// `search_key` where every listed id names a document; `None` where the
    /// index lists, for the lower-cased form of `k`, an id past the end (as
    /// after a deletion), on which `search_key` cannot be called.
    pub fn search_key_checked<'s>(&'s self, k: &str, hash: &SearchEngine) -> (r: Option<
        Result<Vec<&'s Document<'a>>, String>,
    >)
        requires
            hash.wf(),
        ensures
            r is None <==> !word_ids_below(hash.view(), lowercase_text(k@), self.docs@.len()),
            r matches Some(res) ==> is_search_result(res, self.docs@, hash.view(), lowercase_text(k@)),
    {
        if let Some(record) = hash.search_engine(k) {
            let mut i: usize = 0;
            while i < record.len()
                invariant
                    i <= record@.len(),
                    hash.view().contains_key(lowercase_text(k@)),
                    record@ == hash.view()[lowercase_text(k@)],
                    forall|j: int| 0 <= j < i ==> #[trigger] record@[j] < self.docs@.len(),
                decreases record@.len() - i,
            {
                if record[i] >= self.docs.len() {
                    assert(hash.view()[lowercase_text(k@)][i as int] >= self.docs@.len());
                    return None;
                }
                i = i + 1;
            }
        }
        Some(self.search_key(k, hash))
    }
}

/// After a document is added under id `id`, searching any word of its title
/// or contents finds it.
pub proof fn lemma_added_document_is_found<'a>(
    docs: Seq<Document<'a>>,
    m: Map<Seq<char>, Seq<usize>>,
    title: &'a str,
    contents: &'a str,
    w: Seq<char>,
)
    requires
        words(title@).contains(w) || words(contents@).contains(w),
        docs.len() < usize::MAX,
    ensures
        ({
            let id = docs.len() as usize;
            let after = add_postings(add_postings(m, words(title@), id), words(contents@), id);
            let found = search_outcome(docs.push(Document { title, contents }), after, w);
            &&& found is Some
            &&& found->0.contains(Document { title, contents })
        }),
{
    let id = docs.len() as usize;
    let mid = add_postings(m, words(title@), id);
    let after = add_postings(mid, words(contents@), id);
    let new_docs = docs.push(Document { title, contents });
    if words(contents@).contains(w) {
        lemma_recorded_words_find_document(mid, words(contents@), id, w);
    } else {
        lemma_recorded_words_find_document(m, words(title@), id, w);
        lemma_other_words_unchanged(mid, words(contents@), id, w);
    }
    let j = choose|j: int| 0 <= j < after[w].len() && after[w][j] == id;
    let found = after[w].map_values(|i: usize| new_docs[i as int]);
    assert(found[j] == new_docs[id as int]);
}

/// Adding a document keeps every id in the index naming a document.
pub proof fn lemma_add_keeps_ids_below(
    m: Map<Seq<char>, Seq<usize>>,
    title: Seq<char>,
    contents: Seq<char>,
    n: nat,
)
    requires
        ids_below(m, n),
        n < usize::MAX,
    ensures
        ids_below(
            add_postings(add_postings(m, words(title), n as usize), words(contents), n as usize),
            n + 1,
        ),
{
    lemma_postings_stay_below(m, words(title), n as usize, n);
    lemma_postings_stay_below(
        add_postings(m, words(title), n as usize),
        words(contents),
        n as usize,
        n,
    );
}

/// While every id in the index names a document (as from an empty index
/// and collection grown only by `insert_documents`), every search can run.
pub proof fn lemma_ids_below_allow_search(m: Map<Seq<char>, Seq<usize>>, w: Seq<char>, n: nat)
    requires
        ids_below(m, n),
    ensures
        word_ids_below(m, w, n),
{
    if m.contains_key(w) {
        assert forall|j: int| 0 <= j < m[w].len() implies #[trigger] m[w][j] < n by {
            assert(m.contains_key(w) && 0 <= j < m[w].len());
        }
    }
}

/// An empty index names no document.
pub proof fn lemma_empty_ids_below(n: nat)
    ensures
        ids_below(Map::<Seq<char>, Seq<usize>>::empty(), n),
{
}

proof fn lemma_postings_stay_below(m: Map<Seq<char>, Seq<usize>>, ws: Seq<Seq<char>>, v: usize, n: nat)
    requires
        ids_below(m, n) || ids_below(m, n + 1),
        v <= n,
    ensures
        ids_below(add_postings(m, ws, v), n + 1),
    decreases ws.len(),
{
    if ws.len() > 0 {
        lemma_postings_stay_below(m, ws.drop_last(), v, n);
        let prev = add_postings(m, ws.drop_last(), v);
        let cur = add_postings(m, ws, v);
        assert forall|w: Seq<char>, j: int|
            cur.contains_key(w) && 0 <= j < cur[w].len() implies #[trigger] cur[w][j] < n + 1 by {
            if w == ws.last() && prev.contains_key(w) && j < prev[w].len() {
                assert(prev[w][j] < n + 1);
            } else if w != ws.last() {
                assert(prev[w][j] < n + 1);
            }
        }
    }
}

} // verus!
