//! A word index: each word maps to the ids of the documents it occurs in,
//! in the order in which they were first recorded, without repeats.
use crate::text::{
    ascii_lower,
    has_ascii_capital,
    is_ascii_text,
    lowercase_text,
    split_words,
    texts,
    to_lowercase,
    words,
};
use std::marker::PhantomData;
use vstd::hash_map::StringHashMap;
use vstd::prelude::*;

verus! {

/// A posting list after recording `v`: unchanged when `v` is already there,
/// else `v` appended.
pub open spec fn add_id(ids: Seq<usize>, v: usize) -> Seq<usize> {
    if ids.contains(v) {
        ids
    } else {
        ids.push(v)
    }
}

/// The index after recording that word `w` occurs in document `v`.
pub open spec fn add_posting(m: Map<Seq<char>, Seq<usize>>, w: Seq<char>, v: usize) -> Map<
    Seq<char>,
    Seq<usize>,
> {
    if m.contains_key(w) {
        m.insert(w, add_id(m[w], v))
    } else {
        m.insert(w, seq![v])
    }
}

/// The index after recording, in order, that each word of `ws` occurs in
/// document `v`.
pub open spec fn add_postings(m: Map<Seq<char>, Seq<usize>>, ws: Seq<Seq<char>>, v: usize) -> Map<
    Seq<char>,
    Seq<usize>,
>
    decreases ws.len(),
{
    if ws.len() == 0 {
        m
    } else {
        add_posting(add_postings(m, ws.drop_last(), v), ws.last(), v)
    }
}

/// Every posting list of `m` is free of repeats.
pub open spec fn postings_distinct(m: Map<Seq<char>, Seq<usize>>) -> bool {
    forall|w: Seq<char>| #[trigger] m.contains_key(w) ==> m[w].no_duplicates()
}

/// The word index, a hash map from word to posting list. Its view maps each
/// recorded word (as characters) to the ids recorded for it. Words are
/// borrowed for `'search`, the life of the texts they come from, and kept as
/// owned copies.
pub struct SearchEngine<'search> {
    search: StringHashMap<Vec<usize>>,
    source: PhantomData<&'search str>,
}

impl<'search> SearchEngine<'search> {
    /// The index as a map from word to posting list.
    pub closed spec fn view(&self) -> Map<Seq<char>, Seq<usize>> {
        self.search@.map_values(|ids: Vec<usize>| ids@)
    }

    /// Internal consistency: no id twice in a posting list.
    pub closed spec fn wf(&self) -> bool {
        postings_distinct(self.view())
    }

    /// A well-formed index has repeat-free posting lists.
    pub proof fn lemma_wf(&self)
        requires
            self.wf(),
        ensures
            postings_distinct(self.view()),
    {
    }

    /// An empty index.
    pub fn new() -> (r: Self)
        ensures
            r.wf(),
            r.view() == Map::<Seq<char>, Seq<usize>>::empty(),
    {
        let r = SearchEngine { search: StringHashMap::new(), source: PhantomData };
        assert(r.view() =~= Map::<Seq<char>, Seq<usize>>::empty());
        r
    }

    /// The posting list of word `w`.
    pub fn lookup<'x>(&'x self, w: &str) -> (r: Option<&'x Vec<usize>>)
        requires
            self.wf(),
        ensures
            match r {
                Some(ids) => self.view().contains_key(w@) && ids@ == self.view()[w@],
                None => !self.view().contains_key(w@),
            },
    {
        self.search.get(w)
    }

    /// Records that word `k` occurs in document `v`: a new word gets the
    /// posting list `[v]`, a known word gets `v` appended unless already there.
    pub fn insert_hashmap(&mut self, k: &'search str, v: usize)
        requires
            old(self).wf(),
        ensures
            final(self).wf(),
            final(self).view() == add_posting(old(self).view(), k@, v),
    {
        let ghost before = self.view();
        let updated = match self.search.get(k) {
            Some(ids) => {
                if has_id(ids, v) {
                    None
                } else {
                    let mut grown = copy_ids(ids);
                    grown.push(v);
                    Some(grown)
                }
            },
            None => {
                let mut fresh: Vec<usize> = Vec::new();
                fresh.push(v);
                Some(fresh)
            },
        };
        match updated {
            Some(ids) => {
                let ghost new_ids = ids@;
                self.search.insert(k.to_string(), ids);
                proof {
                    assert(self.view() =~= before.insert(k@, new_ids));
                    if before.contains_key(k@) {
                        let old_ids = before[k@];
                        assert(new_ids == old_ids.push(v));
                        assert forall|i: int, j: int|
                            0 <= i < new_ids.len() && 0 <= j < new_ids.len() && i
                                != j implies new_ids[i] != new_ids[j] by {
                            if i < old_ids.len() && j < old_ids.len() {
                                assert(new_ids[i] == old_ids[i]);
                                assert(new_ids[j] == old_ids[j]);
                            } else if i == old_ids.len() {
                                assert(new_ids[j] == old_ids[j]);
                            } else {
                                assert(new_ids[i] == old_ids[i]);
                            }
                        }
                    } else {
                        assert(new_ids == seq![v]);
                    }
                    assert forall|w: Seq<char>| #[trigger]
                        self.view().contains_key(w) implies self.view()[w].no_duplicates() by {
                        if w != k@ {
                            assert(before.contains_key(w));
                        }
                    }
                }
            },
            None => {},
        }
    }

    /// Records every whitespace-separated word of `title`, then of `content`,
    /// as occurring in document `v`.
    pub fn insert_full_content(&mut self, title: &'search str, content: &'search str, v: usize)
        requires
            old(self).wf(),
        ensures
            final(self).wf(),
            final(self).view() == add_postings(
                add_postings(old(self).view(), words(title@), v),
                words(content@),
                v,
            ),
    {
        let title_words = split_words(title);
        self.insert_all(&title_words, v);
        let content_words = split_words(content);
        self.insert_all(&content_words, v);
    }

    fn insert_all(&mut self, ws: &Vec<&'search str>, v: usize)
        requires
            old(self).wf(),
        ensures
            final(self).wf(),
            final(self).view() == add_postings(old(self).view(), texts(ws@), v),
    {
        let mut i: usize = 0;
        while i < ws.len()
            invariant
                self.wf(),
                i <= ws@.len(),
                self.view() == add_postings(old(self).view(), texts(ws@).take(i as int), v),
            decreases ws@.len() - i,
        {
            let ghost pre = texts(ws@).take(i as int);
            let ghost next = texts(ws@).take(i + 1);
            assert(next.drop_last() =~= pre);
            self.insert_hashmap(ws[i], v);
            i = i + 1;
        }
        assert(texts(ws@).take(ws@.len() as int) =~= texts(ws@));
    }

    /// The posting list of the lower-cased form of `k`. Words are recorded as
    /// they were given, so only words recorded in lower case can be found.
    pub fn search_engine<'x>(&'x self, k: &str) -> (r: Option<&'x Vec<usize>>)
        requires
            self.wf(),
        ensures
            match r {
                Some(ids) => self.view().contains_key(lowercase_text(k@)) && ids@ == self.view()[
                    lowercase_text(k@)
                ],
                None => !self.view().contains_key(lowercase_text(k@)),
            },
            !has_ascii_capital(lowercase_text(k@)),
            forall|w: Seq<char>| has_ascii_capital(w) ==> w != lowercase_text(k@),
            is_ascii_text(k@) ==> match r {
                Some(ids) => self.view().contains_key(ascii_lower(k@)) && ids@ == self.view()[
                    ascii_lower(k@)
                ],
                None => !self.view().contains_key(ascii_lower(k@)),
            },
    {
        let lowered = to_lowercase(k);
        self.lookup(lowered.as_str())
    }
}

/// After recording the words `ws` for document `v`, every one of those words
/// is in the index and lists `v`.
pub proof fn lemma_recorded_words_find_document(
    m: Map<Seq<char>, Seq<usize>>,
    ws: Seq<Seq<char>>,
    v: usize,
    w: Seq<char>,
)
    requires
        ws.contains(w),
    ensures
        add_postings(m, ws, v).contains_key(w),
        add_postings(m, ws, v)[w].contains(v),
    decreases ws.len(),
{
    let prev = add_postings(m, ws.drop_last(), v);
    if ws.last() == w {
        if prev.contains_key(w) && !prev[w].contains(v) {
            assert(prev[w].push(v)[prev[w].len() as int] == v);
        }
        if !prev.contains_key(w) {
            assert(seq![v][0] == v);
        }
    } else {
        let i = choose|i: int| 0 <= i < ws.len() && ws[i] == w;
        assert(ws.drop_last()[i] == w);
        lemma_recorded_words_find_document(m, ws.drop_last(), v, w);
        let ids = prev[w];
        assert(add_postings(m, ws, v)[w] == ids);
    }
}

/// Recording words for a document leaves every other word's entry as it was.
pub proof fn lemma_other_words_unchanged(
    m: Map<Seq<char>, Seq<usize>>,
    ws: Seq<Seq<char>>,
    v: usize,
    w: Seq<char>,
)
    requires
        !ws.contains(w),
    ensures
        add_postings(m, ws, v).contains_key(w) == m.contains_key(w),
        m.contains_key(w) ==> add_postings(m, ws, v)[w] == m[w],
    decreases ws.len(),
{
    if ws.len() > 0 {
        assert(!ws.drop_last().contains(w)) by {
            if ws.drop_last().contains(w) {
                let i = choose|i: int| 0 <= i < ws.drop_last().len() && ws.drop_last()[i] == w;
                assert(ws[i] == w);
            }
        }
        assert(ws[ws.len() - 1] != w);
        lemma_other_words_unchanged(m, ws.drop_last(), v, w);
    }
}

/// Recording never forgets: every id a word had before is still listed, in
/// the same place, and posting lists stay free of repeats.
pub proof fn lemma_postings_only_grow(m: Map<Seq<char>, Seq<usize>>, ws: Seq<Seq<char>>, v: usize)
    requires
        postings_distinct(m),
    ensures
        postings_distinct(add_postings(m, ws, v)),
        forall|w: Seq<char>| #[trigger]
            m.contains_key(w) ==> add_postings(m, ws, v).contains_key(w) && m[w].is_prefix_of(
                add_postings(m, ws, v)[w],
            ),
    decreases ws.len(),
{
    if ws.len() > 0 {
        lemma_postings_only_grow(m, ws.drop_last(), v);
        let prev = add_postings(m, ws.drop_last(), v);
        let cur = add_postings(m, ws, v);
        let k = ws.last();
        assert forall|w: Seq<char>| #[trigger] cur.contains_key(w) implies cur[w].no_duplicates() by {
            if w == k && prev.contains_key(k) && !prev[k].contains(v) {
                let s = prev[k].push(v);
                assert forall|i: int, j: int|
                    0 <= i < s.len() && 0 <= j < s.len() && i != j implies s[i] != s[j] by {
                    if i < prev[k].len() && j < prev[k].len() {
                    } else if i == prev[k].len() {
                        assert(s[j] == prev[k][j]);
                    } else {
                        assert(s[i] == prev[k][i]);
                    }
                }
            }
        }
        assert forall|w: Seq<char>| #[trigger] m.contains_key(w) implies cur.contains_key(w)
            && m[w].is_prefix_of(cur[w]) by {
            assert(prev.contains_key(w));
            assert(m[w].is_prefix_of(prev[w]));
            assert(prev[w].is_prefix_of(cur[w])) by {
                if w == k && !prev[k].contains(v) {
                    assert(prev[k] =~= prev[k].push(v).subrange(0, prev[k].len() as int));
                } else {
                    assert(prev[w] =~= cur[w].subrange(0, prev[w].len() as int));
                }
            }
            assert(m[w] =~= cur[w].subrange(0, m[w].len() as int)) by {
                assert forall|i: int| 0 <= i < m[w].len() implies m[w][i] == cur[w][i] by {
                    assert(m[w][i] == prev[w].subrange(0, m[w].len() as int)[i]);
                    assert(prev[w][i] == cur[w].subrange(0, prev[w].len() as int)[i]);
                }
            }
        }
    }
}

/// Recording the same words for the same document a second time changes
/// nothing.
pub proof fn lemma_recording_twice_is_recording_once(
    m: Map<Seq<char>, Seq<usize>>,
    ws: Seq<Seq<char>>,
    v: usize,
)
    ensures
        add_postings(add_postings(m, ws, v), ws, v) == add_postings(m, ws, v),
{
    let once = add_postings(m, ws, v);
    assert forall|i: int| 0 <= i < ws.len() implies once.contains_key(#[trigger] ws[i])
        && once[ws[i]].contains(v) by {
        lemma_recorded_words_find_document(m, ws, v, ws[i]);
    }
    lemma_recording_known_words_is_noop(once, ws, v);
}

proof fn lemma_recording_known_words_is_noop(
    m: Map<Seq<char>, Seq<usize>>,
    ws: Seq<Seq<char>>,
    v: usize,
)
    requires
        forall|i: int| 0 <= i < ws.len() ==> m.contains_key(#[trigger] ws[i]) && m[ws[i]].contains(v),
    ensures
        add_postings(m, ws, v) == m,
    decreases ws.len(),
{
    if ws.len() > 0 {
        assert forall|i: int| 0 <= i < ws.drop_last().len() implies m.contains_key(
            #[trigger] ws.drop_last()[i],
        ) && m[ws.drop_last()[i]].contains(v) by {
            assert(ws.drop_last()[i] == ws[i]);
        }
        lemma_recording_known_words_is_noop(m, ws.drop_last(), v);
        let k = ws.last();
        assert(ws[ws.len() - 1] == k);
        assert(m.contains_key(k) && m[k].contains(v));
        assert(m.insert(k, m[k]) =~= m);
    }
}

/// A copy of `ids`.
fn copy_ids(ids: &Vec<usize>) -> (r: Vec<usize>)
    ensures
        r@ == ids@,
{
    let mut r: Vec<usize> = Vec::new();
    let mut i: usize = 0;
    while i < ids.len()
        invariant
            i <= ids@.len(),
            r@ == ids@.take(i as int),
        decreases ids@.len() - i,
    {
        r.push(ids[i]);
        i = i + 1;
        assert(r@ =~= ids@.take(i as int));
    }
    assert(ids@.take(ids@.len() as int) =~= ids@);
    r
}

/// Whether `v` occurs in `ids`.
fn has_id(ids: &Vec<usize>, v: usize) -> (r: bool)
    ensures
        r == ids@.contains(v),
{
    let mut i: usize = 0;
    while i < ids.len()
        invariant
            i <= ids@.len(),
            forall|j: int| 0 <= j < i ==> ids@[j] != v,
        decreases ids@.len() - i,
    {
        if ids[i] == v {
            return true;
        }
        i = i + 1;
    }
    false
}

} // verus!
