//! Forward maximum-match segmentation of a sentence against a phrase list.
use vstd::prelude::*;
use crate::chars::{chars_of, lemma_views_push, slice_chars, string_of, views};

verus! {

/// Whether `w` is among `words`.
pub open spec fn has_word(words: Seq<Seq<char>>, w: Seq<char>) -> bool {
    exists|i: int| 0 <= i < words.len() && #[trigger] words[i] == w
}

/// Whether `w` starts some word of `words`.
pub open spec fn is_prefix(words: Seq<Seq<char>>, w: Seq<char>) -> bool {
    exists|i: int|
        0 <= i < words.len() && w.len() <= (#[trigger] words[i]).len() && words[i].subrange(0, w.len() as int) == w
}

/// The views of a list of character vectors.
pub open spec fn char_views(v: Seq<Vec<char>>) -> Seq<Seq<char>> {
    v.map_values(|s: Vec<char>| s@)
}

/// How far from `j` on the leading parts of `rem` keep starting a phrase:
/// the first `k >= j` such that `rem[..k + 1]` starts none, or the length of `rem`.
pub open spec fn prefix_run_from(phrases: Seq<Seq<char>>, rem: Seq<char>, j: int) -> int
    decreases rem.len() - j,
{
    if 0 <= j < rem.len() && is_prefix(phrases, rem.subrange(0, j + 1)) {
        prefix_run_from(phrases, rem, j + 1)
    } else {
        j
    }
}

/// Each character of `s` as a word of its own.
pub open spec fn singles(s: Seq<char>) -> Seq<Seq<char>> {
    Seq::new(s.len(), |i: int| seq![s[i]])
}

/// The segmentation of `rem`: take the longest leading part that starts a
/// phrase; if that part is itself a word (or `no_non_phrases` is off) it is
/// a segment, else a single character is (with `no_non_phrases`) or the part
/// with one more character is (without). A rest that starts a phrase to its
/// end is one segment, or, with `no_non_phrases` and not a word, one
/// segment per character.
pub open spec fn segments(phrases: Seq<Seq<char>>, dict: Seq<Seq<char>>, no_non_phrases: bool, rem: Seq<char>) -> Seq<Seq<char>>
    decreases rem.len(),
{
    if rem.len() == 0 {
        seq![]
    } else {
        let k = prefix_run_from(phrases, rem, 0);
        if k >= rem.len() {
            if no_non_phrases && !has_word(dict, rem) { singles(rem) } else { seq![rem] }
        } else if k > 0 && (!no_non_phrases || has_word(dict, rem.subrange(0, k))) {
            seq![rem.subrange(0, k)] + segments(phrases, dict, no_non_phrases, rem.subrange(k, rem.len() as int))
        } else if no_non_phrases {
            seq![rem.subrange(0, 1)] + segments(phrases, dict, no_non_phrases, rem.subrange(1, rem.len() as int))
        } else if k >= 0 {
            seq![rem.subrange(0, k + 1)] + segments(phrases, dict, no_non_phrases, rem.subrange(k + 1, rem.len() as int))
        } else {
            seq![]
        }
    }
}

proof fn lemma_prefix_run(phrases: Seq<Seq<char>>, rem: Seq<char>, j: int)
    requires
        0 <= j <= rem.len(),
    ensures
        j <= prefix_run_from(phrases, rem, j) <= rem.len(),
    decreases rem.len() - j,
{
    if j < rem.len() && is_prefix(phrases, rem.subrange(0, j + 1)) {
        lemma_prefix_run(phrases, rem, j + 1);
    }
}

pub fn chars_equal(a: &Vec<char>, b: &Vec<char>) -> (r: bool)
    ensures
        r == (a@ == b@),
{
    if a.len() != b.len() {
        return false;
    }
    let mut i: usize = 0;
    while i < a.len()
        invariant
            a.len() == b.len(),
            i <= a.len(),
            forall|k: int| 0 <= k < i ==> a@[k] == b@[k],
        decreases a.len() - i,
    {
        if a[i] != b[i] {
            return false;
        }
        i += 1;
    }
    assert(a@ =~= b@);
    true
}

fn contains_word(words: &Vec<Vec<char>>, w: &Vec<char>) -> (r: bool)
    ensures
        r == has_word(char_views(words@), w@),
{
    let mut i: usize = 0;
    while i < words.len()
        invariant
            i <= words.len(),
            forall|k: int| 0 <= k < i ==> words@[k]@ != w@,
        decreases words.len() - i,
    {
        if chars_equal(&words[i], w) {
            assert(char_views(words@)[i as int] == w@);
            return true;
        }
        i += 1;
    }
    assert forall|k: int| 0 <= k < words.len() implies char_views(words@)[k] != w@ by {
        assert(char_views(words@)[k] == words@[k]@);
    }
    false
}

fn starts_with(p: &Vec<char>, w: &Vec<char>) -> (r: bool)
    ensures
        r == (w@.len() <= p@.len() && p@.subrange(0, w@.len() as int) == w@),
{
    if w.len() > p.len() {
        return false;
    }
    let mut i: usize = 0;
    while i < w.len()
        invariant
            w.len() <= p.len(),
            i <= w.len(),
            forall|k: int| 0 <= k < i ==> p@[k] == w@[k],
        decreases w.len() - i,
    {
        if p[i] != w[i] {
            assert(p@.subrange(0, w@.len() as int)[i as int] != w@[i as int]);
            return false;
        }
        i += 1;
    }
    assert(p@.subrange(0, w@.len() as int) =~= w@);
    true
}

fn starts_some(words: &Vec<Vec<char>>, w: &Vec<char>) -> (r: bool)
    ensures
        r == is_prefix(char_views(words@), w@),
{
    let mut i: usize = 0;
    while i < words.len()
        invariant
            i <= words.len(),
            forall|k: int| 0 <= k < i ==> !(w@.len() <= words@[k]@.len()
                && words@[k]@.subrange(0, w@.len() as int) == w@),
        decreases words.len() - i,
    {
        if starts_with(&words[i], w) {
            assert(char_views(words@)[i as int] == words@[i as int]@);
            return true;
        }
        i += 1;
    }
    assert forall|k: int| 0 <= k < words.len() implies !(w@.len() <= (#[trigger] char_views(words@)[k]).len()
        && char_views(words@)[k].subrange(0, w@.len() as int) == w@) by {
        assert(char_views(words@)[k] == words@[k]@);
    }
    false
}

fn char_vectors(words: &Vec<String>) -> (r: Vec<Vec<char>>)
    ensures
        char_views(r@) == views(words@),
{
    let mut r: Vec<Vec<char>> = Vec::new();
    let mut i: usize = 0;
    while i < words.len()
        invariant
            i <= words.len(),
            r.len() == i,
            forall|k: int| 0 <= k < i ==> (#[trigger] r@[k])@ == words@[k]@,
        decreases words.len() - i,
    {
        let v = chars_of(words[i].as_str());
        r.push(v);
        i += 1;
    }
    assert(char_views(r@) =~= views(words@));
    r
}

/// Maximum-match segmenter over a phrase list: every leading part of a
/// phrase is a prefix it can extend.
pub struct MMSeg {
    pub no_non_phrases: bool,
    pub phrases: Vec<Vec<char>>,
}

impl MMSeg {
    /// A segmenter for the phrases given.
    pub fn new(no_non_phrases: bool, phrases_dict: &Vec<String>) -> (r: Self)
        ensures
            r.no_non_phrases == no_non_phrases,
            char_views(r.phrases@) == views(phrases_dict@),
    {
        MMSeg { no_non_phrases, phrases: char_vectors(phrases_dict) }
    }

    /// The segmentation of `text` (see `segments`); `phrases_dict` holds
    /// the words that may stand as segments when `no_non_phrases` is set.
    pub fn seg(&self, text: &str, phrases_dict: &Vec<String>) -> (r: Vec<String>)
        ensures
            views(r@) == segments(char_views(self.phrases@), views(phrases_dict@), self.no_non_phrases, text@),
    {
        let dict = char_vectors(phrases_dict);
        let ghost phrases = char_views(self.phrases@);
        let ghost d = views(phrases_dict@);
        let mut out: Vec<String> = Vec::new();
        let mut rem = chars_of(text);
        while rem.len() > 0
            invariant
                phrases == char_views(self.phrases@),
                d == char_views(dict@),
                views(out@) + segments(phrases, d, self.no_non_phrases, rem@)
                    == segments(phrases, d, self.no_non_phrases, text@),
            decreases rem.len(),
        {
            let n = rem.len();
            let mut k: usize = 0;
            while k < n && starts_some(&self.phrases, &slice_chars(&rem, 0, k + 1))
                invariant
                    phrases == char_views(self.phrases@),
                    n == rem.len(),
                    k <= n,
                    prefix_run_from(phrases, rem@, k as int) == prefix_run_from(phrases, rem@, 0),
                decreases n - k,
            {
                k += 1;
            }
            proof {
                lemma_prefix_run(phrases, rem@, 0);
            }
            let ghost before = views(out@);
            if k >= n {
                if self.no_non_phrases && !contains_word(&dict, &rem) {
                    let mut i: usize = 0;
                    while i < n
                        invariant
                            n == rem.len(),
                            i <= n,
                            views(out@) == before + singles(rem@).subrange(0, i as int),
                        decreases n - i,
                    {
                        let mut single: Vec<char> = Vec::new();
                        single.push(rem[i]);
                        let one = string_of(&single);
                        assert(one@ == singles(rem@)[i as int]);
                        proof {
                            lemma_views_push(out@, one);
                        }
                        out.push(one);
                        i += 1;
                        assert(views(out@) =~= before + singles(rem@).subrange(0, i as int));
                    }
                    assert(singles(rem@).subrange(0, n as int) == singles(rem@));
                } else {
                    let whole = string_of(&rem);
                    proof {
                        lemma_views_push(out@, whole);
                    }
                    out.push(whole);
                    assert(views(out@) =~= before + seq![rem@]);
                }
                assert(segments(phrases, d, self.no_non_phrases, Seq::<char>::empty()) == Seq::<Seq<char>>::empty());
                rem = Vec::new();
                assert(views(out@) + Seq::<Seq<char>>::empty() == views(out@));
            } else {
                let cut: usize = if k > 0 && (!self.no_non_phrases || contains_word(&dict, &slice_chars(&rem, 0, k))) {
                    k
                } else if self.no_non_phrases {
                    1
                } else {
                    k + 1
                };
                let word = slice_chars(&rem, 0, cut);
                let piece = string_of(&word);
                proof {
                    lemma_views_push(out@, piece);
                }
                out.push(piece);
                let rest = slice_chars(&rem, cut, n);
                assert(views(out@) =~= before + seq![word@]);
                rem = rest;
            }
        }
        out
    }
}

} // verus!
