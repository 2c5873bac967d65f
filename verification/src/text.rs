//! Text primitives over Unicode scalar values: whitespace, word splitting,
//! trimming, exact comparison and lower-casing.
use vstd::prelude::*;
use vstd::string::StrSliceExecFns;

verus! {

/// The Unicode `White_Space` property.
pub open spec fn is_space(c: char) -> bool {
    let u = c as u32;
    ||| 0x09 <= u <= 0x0d
    ||| u == 0x20
    ||| u == 0x85
    ||| u == 0xa0
    ||| u == 0x1680
    ||| 0x2000 <= u <= 0x200a
    ||| u == 0x2028
    ||| u == 0x2029
    ||| u == 0x202f
    ||| u == 0x205f
    ||| u == 0x3000
}

/// The maximal runs of non-whitespace characters of `s`, in order.
///
/// Defined by the last character: whitespace closes nothing new, a
/// non-whitespace character after whitespace (or at the start) opens a new
/// word, and any other non-whitespace character extends the last word.
pub open spec fn words(s: Seq<char>) -> Seq<Seq<char>>
    decreases s.len(),
{
    if s.len() == 0 {
        Seq::empty()
    } else {
        let prev = words(s.drop_last());
        let c = s.last();
        if is_space(c) {
            prev
        } else if s.len() == 1 || is_space(s[s.len() - 2]) {
            prev.push(seq![c])
        } else {
            prev.update(prev.len() - 1, prev.last().push(c))
        }
    }
}

/// `s` with its leading whitespace removed.
pub open spec fn trim_start(s: Seq<char>) -> Seq<char>
    decreases s.len(),
{
    if s.len() > 0 && is_space(s[0]) {
        trim_start(s.drop_first())
    } else {
        s
    }
}

/// `s` with its trailing whitespace removed.
pub open spec fn trim_end(s: Seq<char>) -> Seq<char>
    decreases s.len(),
{
    if s.len() > 0 && is_space(s.last()) {
        trim_end(s.drop_last())
    } else {
        s
    }
}

/// `s` with leading and trailing whitespace removed.
pub open spec fn trimmed(s: Seq<char>) -> Seq<char> {
    trim_end(trim_start(s))
}

/// The character sequences of a sequence of string slices.
pub open spec fn texts(v: Seq<&str>) -> Seq<Seq<char>> {
    v.map_values(|w: &str| w@)
}

/// The lower-case form of `s` that `str::to_lowercase` produces.
pub uninterp spec fn lowercase_text(s: Seq<char>) -> Seq<char>;

/// Whether `c` is whitespace, as `char::is_whitespace` decides it.
fn char_is_whitespace(c: char) -> (r: bool)
    ensures
        r == is_space(c),
{
    let u = c as u32;
    (0x09 <= u && u <= 0x0d) || u == 0x20 || u == 0x85 || u == 0xa0 || u == 0x1680 || (0x2000 <= u
        && u <= 0x200a) || u == 0x2028 || u == 0x2029 || u == 0x202f || u == 0x205f || u == 0x3000
}

/// `s` holds an ASCII capital letter.
pub open spec fn has_ascii_capital(s: Seq<char>) -> bool {
    exists|i: int| 0 <= i < s.len() && 'A' <= #[trigger] s[i] && s[i] <= 'Z'
}

/// Every character of `s` is ASCII.
pub open spec fn is_ascii_text(s: Seq<char>) -> bool {
    forall|i: int| 0 <= i < s.len() ==> (#[trigger] s[i] as u32) < 128
}

/// `c` with an ASCII capital letter replaced by its small letter.
pub open spec fn ascii_lower_char(c: char) -> char {
    if 'A' <= c && c <= 'Z' {
        ((c as u32) + 32) as char
    } else {
        c
    }
}

/// `c` with an ASCII small letter replaced by its capital letter.
pub open spec fn ascii_upper_char(c: char) -> char {
    if 'a' <= c && c <= 'z' {
        ((c as u32) - 32) as char
    } else {
        c
    }
}

/// `s` with its ASCII capital letters made small.
pub open spec fn ascii_lower(s: Seq<char>) -> Seq<char> {
    s.map_values(|c: char| ascii_lower_char(c))
}

/// `s` with its ASCII small letters made capital.
pub open spec fn ascii_upper(s: Seq<char>) -> Seq<char> {
    s.map_values(|c: char| ascii_upper_char(c))
}

/// Lower-casing ignores ASCII case: an ASCII text, its upper-case form and
/// its lower-case form all lower-case to the same text.
pub proof fn lemma_ascii_case_ignored(s: Seq<char>)
    requires
        is_ascii_text(s),
    ensures
        is_ascii_text(ascii_upper(s)),
        is_ascii_text(ascii_lower(s)),
        ascii_lower(ascii_upper(s)) == ascii_lower(s),
        ascii_lower(ascii_lower(s)) == ascii_lower(s),
{
    assert forall|i: int| 0 <= i < s.len() implies ascii_lower_char(ascii_upper_char(s[i]))
        == ascii_lower_char(s[i]) && (ascii_upper_char(s[i]) as u32) < 128 && (ascii_lower_char(
        s[i],
    ) as u32) < 128 && ascii_lower_char(ascii_lower_char(s[i])) == ascii_lower_char(s[i]) by {
        let c = s[i];
        assert((c as u32) < 128);
    }
    assert(ascii_lower(ascii_upper(s)) =~= ascii_lower(s));
    assert(ascii_lower(ascii_lower(s)) =~= ascii_lower(s));
    assert forall|i: int| 0 <= i < ascii_upper(s).len() implies (#[trigger] ascii_upper(s)[i] as u32)
        < 128 by {
        assert(ascii_upper(s)[i] == ascii_upper_char(s[i]));
    }
    assert forall|i: int| 0 <= i < ascii_lower(s).len() implies (#[trigger] ascii_lower(s)[i] as u32)
        < 128 by {
        assert(ascii_lower(s)[i] == ascii_lower_char(s[i]));
    }
}

/// Calls `str::to_lowercase`; its result is named by `lowercase_text`, a
/// function of the input's characters alone (the Unicode lower-case mapping,
/// with the final-sigma rule), which is not written out here. On ASCII text
/// the documented Unicode mapping reduces to the ASCII one: capital letters
/// `A`-`Z` become `a`-`z` and every other ASCII character stays. No
/// character's Unicode lower-case mapping is or holds an ASCII capital, so
/// the result holds none.
#[verifier::external_body]
pub(crate) fn to_lowercase(s: &str) -> (r: String)
    ensures
        r@ == lowercase_text(s@),
        is_ascii_text(s@) ==> r@ == ascii_lower(s@),
        !has_ascii_capital(r@),
{
    s.to_lowercase()
}

/// Whether `a` and `b` hold the same characters.
pub fn same_text(a: &str, b: &str) -> (r: bool)
    ensures
        r == (a@ == b@),
{
    let n = a.unicode_len();
    let m = b.unicode_len();
    if n != m {
        return false;
    }
    let mut i: usize = 0;
    while i < n
        invariant
            n == a@.len(),
            n == b@.len(),
            i <= n,
            forall|j: int| 0 <= j < i ==> a@[j] == b@[j],
        decreases n - i,
    {
        if a.get_char(i) != b.get_char(i) {
            return false;
        }
        i = i + 1;
    }
    assert(a@ =~= b@);
    true
}

/// Every word is non-empty and holds no whitespace, so trimming leaves it
/// as it is.
pub proof fn lemma_words_are_bare(s: Seq<char>)
    ensures
        forall|i: int| 0 <= i < words(s).len() ==> is_bare(#[trigger] words(s)[i]),
        forall|i: int| 0 <= i < words(s).len() ==> trimmed(#[trigger] words(s)[i]) == words(s)[i],
    decreases s.len(),
{
    if s.len() > 0 {
        let prev = words(s.drop_last());
        let c = s.last();
        let ws = words(s);
        lemma_words_are_bare(s.drop_last());
        if !is_space(c) && !(s.len() == 1 || is_space(s[s.len() - 2])) {
            lemma_words_nonempty(s.drop_last());
        }
        assert forall|i: int| 0 <= i < ws.len() implies is_bare(#[trigger] ws[i]) by {
            if is_space(c) {
                assert(ws[i] == prev[i]);
            } else if s.len() == 1 || is_space(s[s.len() - 2]) {
                if i < prev.len() {
                    assert(ws[i] == prev[i]);
                } else {
                    assert(ws[i] == seq![c]);
                }
            } else {
                if i < prev.len() - 1 {
                    assert(ws[i] == prev[i]);
                } else {
                    let w = prev[i].push(c);
                    assert(ws[i] == w);
                    assert(is_bare(prev[i]));
                    assert forall|j: int| 0 <= j < w.len() implies !is_space(w[j]) by {
                        if j < prev[i].len() {
                            assert(w[j] == prev[i][j]);
                        }
                    }
                }
            }
        }
    }
    assert forall|i: int| 0 <= i < words(s).len() implies trimmed(#[trigger] words(s)[i])
        == words(s)[i] by {
        lemma_bare_is_trimmed(words(s)[i]);
    }
}

/// `w` is non-empty and holds no whitespace.
pub open spec fn is_bare(w: Seq<char>) -> bool {
    w.len() > 0 && forall|j: int| 0 <= j < w.len() ==> !is_space(#[trigger] w[j])
}

proof fn lemma_bare_is_trimmed(w: Seq<char>)
    requires
        is_bare(w),
    ensures
        trimmed(w) == w,
{
    assert(!is_space(w[0]));
    assert(trim_start(w) == w);
    assert(!is_space(w[w.len() - 1]));
    assert(trim_end(w) == w);
}

proof fn lemma_words_nonempty(s: Seq<char>)
    requires
        s.len() > 0,
        !is_space(s.last()),
    ensures
        words(s).len() > 0,
    decreases s.len(),
{
    if !(s.len() == 1 || is_space(s[s.len() - 2])) {
        lemma_words_nonempty(s.drop_last());
    }
}

/// Among ASCII characters exactly tab, line feed, vertical tab, form feed,
/// carriage return and space are whitespace; every visible ASCII character,
/// punctuation such as `-` included, is not.
pub proof fn lemma_ascii_whitespace(c: char)
    requires
        (c as u32) < 128,
    ensures
        is_space(c) <==> (0x09 <= (c as u32) <= 0x0d || (c as u32) == 0x20),
        0x21 <= (c as u32) <= 0x7e ==> !is_space(c),
{
}

/// A non-empty text without whitespace is one single word, so a word such
/// as `well-known` is kept whole.
pub proof fn lemma_bare_text_is_one_word(s: Seq<char>)
    requires
        is_bare(s),
    ensures
        words(s) == seq![s],
    decreases s.len(),
{
    assert(!is_space(s[s.len() - 1]));
    assert(s.last() == s[s.len() - 1]);
    if s.len() == 1 {
        assert(s.drop_last() =~= Seq::<char>::empty());
        assert(words(s.drop_last()) =~= Seq::<Seq<char>>::empty());
        assert(seq![s.last()] =~= s);
        assert(words(s) == Seq::<Seq<char>>::empty().push(seq![s.last()]));
        assert(Seq::<Seq<char>>::empty().push(seq![s.last()]) =~= seq![s]);
    } else {
        let t = s.drop_last();
        assert(is_bare(t)) by {
            assert forall|j: int| 0 <= j < t.len() implies !is_space(#[trigger] t[j]) by {
                assert(t[j] == s[j]);
            }
        }
        lemma_bare_text_is_one_word(t);
        assert(!is_space(s[s.len() - 1]));
        assert(!is_space(s[s.len() - 2]));
        assert(t.push(s.last()) =~= s);
        assert(words(t) == seq![t]);
        assert(seq![t].last() == t);
        assert(words(s) == seq![t].update(0, t.push(s.last())));
        assert(seq![t].update(0, t.push(s.last())) =~= seq![s]);
    }
}

/// Splits `s` into its maximal runs of non-whitespace characters, as
/// `str::split_whitespace` does.
pub fn split_words<'a>(s: &'a str) -> (r: Vec<&'a str>)
    ensures
        texts(r@) == words(s@),
{
    let n = s.unicode_len();
    let mut out: Vec<&'a str> = Vec::new();
    let mut start: usize = 0;
    let mut in_word = false;
    let mut i: usize = 0;
    while i < n
        invariant
            n == s@.len(),
            i <= n,
            in_word ==> start < i,
            in_word ==> !is_space(s@[i - 1]),
            in_word ==> (start == 0 || is_space(s@[start - 1])),
            in_word ==> words(s@.take(i as int)) == texts(out@).push(
                s@.subrange(start as int, i as int),
            ),
            !in_word ==> words(s@.take(i as int)) == texts(out@),
            !in_word ==> (i == 0 || is_space(s@[i - 1])),
        decreases n - i,
    {
        let c = s.get_char(i);
        let ghost pre = s@.take(i as int);
        let ghost next = s@.take(i + 1);
        assert(next.drop_last() =~= pre);
        assert(next.last() == c);
        if char_is_whitespace(c) {
            if in_word {
                let w = s.substring_char(start, i);
                let ghost before = texts(out@);
                out.push(w);
                assert(texts(out@) =~= before.push(w@));
                in_word = false;
            }
        } else {
            if !in_word {
                start = i;
                in_word = true;
                assert(s@.subrange(start as int, i + 1) =~= seq![c]);
            } else {
                assert(s@[i - 1] == next[next.len() - 2]);
                assert(s@.subrange(start as int, i + 1) =~= s@.subrange(start as int, i as int).push(c));
            }
        }
        i = i + 1;
    }
    if in_word {
        let w = s.substring_char(start, n);
        let ghost before = texts(out@);
        out.push(w);
        assert(texts(out@) =~= before.push(w@));
    }
    assert(s@.take(n as int) =~= s@);
    out
}

proof fn lemma_trim_start_skips(s: Seq<char>, lo: int)
    requires
        0 <= lo <= s.len(),
        forall|k: int| 0 <= k < lo ==> is_space(s[k]),
        lo == s.len() || !is_space(s[lo]),
    ensures
        trim_start(s) == s.subrange(lo, s.len() as int),
    decreases lo,
{
    if lo == 0 {
        assert(s.subrange(0, s.len() as int) =~= s);
    } else {
        let t = s.drop_first();
        assert forall|k: int| 0 <= k < lo - 1 implies is_space(t[k]) by {
            assert(t[k] == s[k + 1]);
        }
        lemma_trim_start_skips(t, lo - 1);
        assert(t.subrange(lo - 1, t.len() as int) =~= s.subrange(lo, s.len() as int));
    }
}

proof fn lemma_trim_end_skips(s: Seq<char>, hi: int)
    requires
        0 <= hi <= s.len(),
        forall|k: int| hi <= k < s.len() ==> is_space(s[k]),
        hi == 0 || !is_space(s[hi - 1]),
    ensures
        trim_end(s) == s.subrange(0, hi),
    decreases s.len() - hi,
{
    if hi == s.len() {
        assert(s.subrange(0, hi) =~= s);
    } else {
        let t = s.drop_last();
        lemma_trim_end_skips(t, hi);
        assert(t.subrange(0, hi) =~= s.subrange(0, hi));
    }
}

/// Removes leading and trailing whitespace, as `str::trim` does.
pub fn trim<'a>(s: &'a str) -> (r: &'a str)
    ensures
        r@ == trimmed(s@),
{
    let n = s.unicode_len();
    let mut lo: usize = 0;
    while lo < n && char_is_whitespace(s.get_char(lo))
        invariant
            n == s@.len(),
            lo <= n,
            forall|k: int| 0 <= k < lo ==> is_space(s@[k]),
        decreases n - lo,
    {
        lo = lo + 1;
    }
    proof {
        lemma_trim_start_skips(s@, lo as int);
    }
    let mut hi: usize = n;
    while hi > lo && char_is_whitespace(s.get_char(hi - 1))
        invariant
            n == s@.len(),
            lo <= hi <= n,
            forall|k: int| hi <= k < n ==> is_space(s@[k]),
        decreases hi,
    {
        hi = hi - 1;
    }
    proof {
        let t = s@.subrange(lo as int, n as int);
        assert forall|k: int| hi - lo <= k < t.len() implies is_space(t[k]) by {
            assert(t[k] == s@[lo + k]);
        }
        if hi > lo {
            assert(t[hi - lo - 1] == s@[hi - 1]);
        }
        lemma_trim_end_skips(t, hi - lo);
        assert(t.subrange(0, hi - lo) =~= s@.subrange(lo as int, hi as int));
    }
    s.substring_char(lo, hi)
}

} // verus!
