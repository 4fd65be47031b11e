//! Pinyin of a Chinese text: the text is cut by maximum match against a
//! phrase dictionary, each piece takes its readings from the phrase or the
//! character dictionary in the requested style, and a piece without any
//! takes the `pinyin` crate's reading of each character.
use vstd::prelude::*;
use crate::chars::{chars_of, lemma_views_push, string_of, views};
use crate::mmseg::{char_views, segments, MMSeg};
use crate::pinyin::{dedup_fold, initial_of, remove_dup_and_empty, convert_styles, styled, Style};
use crate::tone_sandhi::{char_final_chars, char_pinyin, final_lists, tone_num_pinyin, word_finals};

verus! {

/// Whether a character is a Chinese ideograph (the CJK blocks, their
/// extensions and compatibility forms, and 〇).
pub open spec fn is_hans(c: char) -> bool {
    c == '\u{3007}' || ('\u{e815}' <= c && c <= '\u{e864}') || c == '\u{fa18}' || ('\u{3400}' <= c && c <= '\u{4dbf}')
        || ('\u{4e00}' <= c && c <= '\u{9fff}') || ('\u{f900}' <= c && c <= '\u{faff}')
        || ('\u{20000}' <= c && c <= '\u{2a6df}') || ('\u{2a703}' <= c && c <= '\u{2b73f}')
        || ('\u{2b740}' <= c && c <= '\u{2b81d}') || ('\u{2b825}' <= c && c <= '\u{2bf6e}')
        || ('\u{2c029}' <= c && c <= '\u{2ce93}') || c == '\u{2d016}' || ('\u{2d11b}' <= c && c <= '\u{2ebd9}')
        || ('\u{2f80a}' <= c && c <= '\u{2fa1f}') || ('\u{300f7}' <= c && c <= '\u{31288}') || c == '\u{30edd}'
        || c == '\u{30ede}'
}

fn is_hans_char(c: char) -> (r: bool)
    ensures
        r == is_hans(c),
{
    c == '\u{3007}' || ('\u{e815}' <= c && c <= '\u{e864}') || c == '\u{fa18}' || ('\u{3400}' <= c && c <= '\u{4dbf}')
        || ('\u{4e00}' <= c && c <= '\u{9fff}') || ('\u{f900}' <= c && c <= '\u{faff}')
        || ('\u{20000}' <= c && c <= '\u{2a6df}') || ('\u{2a703}' <= c && c <= '\u{2b73f}')
        || ('\u{2b740}' <= c && c <= '\u{2b81d}') || ('\u{2b825}' <= c && c <= '\u{2bf6e}')
        || ('\u{2c029}' <= c && c <= '\u{2ce93}') || c == '\u{2d016}' || ('\u{2d11b}' <= c && c <= '\u{2ebd9}')
        || ('\u{2f80a}' <= c && c <= '\u{2fa1f}') || ('\u{300f7}' <= c && c <= '\u{31288}') || c == '\u{30edd}'
        || c == '\u{30ede}'
}

/// Whether a piece is made of Chinese ideographs only.
pub open spec fn all_hans(w: Seq<char>) -> bool {
    w.len() > 0 && forall|k: int| 0 <= k < w.len() ==> is_hans(#[trigger] w[k])
}

/// A phrase dictionary: each phrase with the reading options of each of its characters.
pub type PhraseView = Seq<(Seq<char>, Seq<Seq<Seq<char>>>)>;

/// A character dictionary: each character with its reading options.
pub type CharDictView = Seq<(char, Seq<Seq<char>>)>;

pub open spec fn phrase_views(p: Seq<(String, Vec<Vec<String>>)>) -> PhraseView {
    p.map_values(|e: (String, Vec<Vec<String>>)| (e.0@, final_lists(e.1@)))
}

pub open spec fn dict_views(d: Seq<(char, Vec<String>)>) -> CharDictView {
    d.map_values(|e: (char, Vec<String>)| (e.0, views(e.1@)))
}

/// The readings of phrase `w` by the first entry from `j` on, if any.
pub open spec fn find_phrase(p: PhraseView, w: Seq<char>, j: int) -> Option<Seq<Seq<Seq<char>>>>
    decreases p.len() - j,
{
    if j < 0 || j >= p.len() { None } else if p[j].0 == w { Some(p[j].1) } else { find_phrase(p, w, j + 1) }
}

/// The reading options of character `c` by the first entry from `j` on, if any.
pub open spec fn find_char(d: CharDictView, c: char, j: int) -> Option<Seq<Seq<char>>>
    decreases d.len() - j,
{
    if j < 0 || j >= d.len() { None } else if d[j].0 == c { Some(d[j].1) } else { find_char(d, c, j + 1) }
}

/// The reading options of the first `n` characters of `w` that the
/// character dictionary holds.
pub open spec fn char_lists(d: CharDictView, w: Seq<char>, n: int) -> Seq<Seq<Seq<char>>>
    decreases n,
{
    if n <= 0 {
        seq![]
    } else {
        match find_char(d, w[n - 1], 0) {
            Some(o) => char_lists(d, w, n - 1).push(o),
            None => char_lists(d, w, n - 1),
        }
    }
}

/// The reading options of a piece: its phrase entry, else those of its characters.
pub open spec fn phrase_pinyin(p: PhraseView, d: CharDictView, w: Seq<char>) -> Seq<Seq<Seq<char>>> {
    match find_phrase(p, w, 0) {
        Some(l) => l,
        None => char_lists(d, w, w.len() as int),
    }
}

/// The first option of each list in the given style.
pub open spec fn styled_lists(l: Seq<Seq<Seq<char>>>, style: Style, strict: bool) -> Seq<Seq<Seq<char>>> {
    Seq::new(l.len(), |i: int| seq![styled(l[i][0], style, strict)])
}

/// Each list without repeats or empty readings, an emptied list as one empty reading.
pub open spec fn cleaned_lists(l: Seq<Seq<Seq<char>>>) -> Seq<Seq<Seq<char>>> {
    Seq::new(l.len(), |i: int| {
        let d = dedup_fold(l[i], true, l[i].len() as int);
        if d.len() > 0 { d } else { seq![Seq::<char>::empty()] }
    })
}

/// The readings of a piece from the dictionaries; none for a piece that is
/// not all ideographs.
pub open spec fn converted(p: PhraseView, d: CharDictView, w: Seq<char>, style: Style, strict: bool) -> Seq<Seq<Seq<char>>> {
    cleaned_lists(styled_lists(if all_hans(w) { phrase_pinyin(p, d, w) } else { seq![] }, style, strict))
}

/// The strict initial of a character's reading, or the character itself.
pub open spec fn char_initial(c: char) -> Seq<char> {
    match char_pinyin(c) {
        Some(pn) => initial_of(pn, true),
        None => seq![c],
    }
}

/// The readings of a piece from the `pinyin` crate: one list of initials
/// or of toned finals, nothing in other styles.
pub open spec fn fallback_lists(w: Seq<char>, style: Style) -> Seq<Seq<Seq<char>>> {
    if style == Style::Initials {
        seq![Seq::new(w.len(), |i: int| char_initial(w[i]))]
    } else if style == Style::InitialsTone3 {
        seq![word_finals(w, true)]
    } else {
        seq![]
    }
}

/// The readings of one piece: from the dictionaries, else from the crate.
pub open spec fn piece_pinyin(p: PhraseView, d: CharDictView, w: Seq<char>, style: Style, strict: bool) -> Seq<Seq<Seq<char>>> {
    let c = converted(p, d, w, style, strict);
    if c.len() == 0 { fallback_lists(w, style) } else { c }
}

/// The readings of the first `n` pieces, laid end to end.
pub open spec fn pieces_pinyin(p: PhraseView, d: CharDictView, words: Seq<Seq<char>>, style: Style, strict: bool, n: int)
    -> Seq<Seq<Seq<char>>>
    decreases n,
{
    if n <= 0 {
        seq![]
    } else {
        pieces_pinyin(p, d, words, style, strict, n - 1) + piece_pinyin(p, d, words[n - 1], style, strict)
    }
}

/// Whether every reading list of the dictionaries has a first option.
pub open spec fn lists_non_empty(p: PhraseView, d: CharDictView) -> bool {
    &&& forall|i: int, j: int| 0 <= i < p.len() && 0 <= j < p[i].1.len() ==> (#[trigger] p[i].1[j]).len() > 0
    &&& forall|i: int| 0 <= i < d.len() ==> (#[trigger] d[i].1).len() > 0
}

proof fn lemma_find_phrase(p: PhraseView, w: Seq<char>, j: int)
    requires
        0 <= j,
        lists_non_empty(p, CharDictView::empty()),
    ensures
        match find_phrase(p, w, j) {
            Some(l) => forall|k: int| 0 <= k < l.len() ==> (#[trigger] l[k]).len() > 0,
            None => true,
        },
    decreases p.len() - j,
{
    if j < p.len() && p[j].0 != w {
        lemma_find_phrase(p, w, j + 1);
    } else if j < p.len() {
        assert forall|k: int| 0 <= k < p[j].1.len() implies (#[trigger] p[j].1[k]).len() > 0 by {
            assert(p[j].1[k].len() > 0);
        }
    }
}

proof fn lemma_find_char(d: CharDictView, c: char, j: int)
    requires
        0 <= j,
        forall|i: int| 0 <= i < d.len() ==> (#[trigger] d[i].1).len() > 0,
    ensures
        match find_char(d, c, j) {
            Some(o) => o.len() > 0,
            None => true,
        },
    decreases d.len() - j,
{
    if j < d.len() && d[j].0 != c {
        lemma_find_char(d, c, j + 1);
    }
}

proof fn lemma_char_lists(d: CharDictView, w: Seq<char>, n: int)
    requires
        forall|i: int| 0 <= i < d.len() ==> (#[trigger] d[i].1).len() > 0,
    ensures
        forall|k: int| 0 <= k < char_lists(d, w, n).len() ==> (#[trigger] char_lists(d, w, n)[k]).len() > 0,
    decreases n,
{
    if n > 0 {
        lemma_char_lists(d, w, n - 1);
        lemma_find_char(d, w[n - 1], 0);
        let a = char_lists(d, w, n - 1);
        match find_char(d, w[n - 1], 0) {
            Some(o) => {
                assert forall|k: int| 0 <= k < a.push(o).len() implies (#[trigger] a.push(o)[k]).len() > 0 by {
                    if k < a.len() {
                        assert(a.push(o)[k] == a[k]);
                    }
                }
            },
            None => {},
        }
    }
}

fn copy_strings(v: &Vec<String>) -> (r: Vec<String>)
    ensures
        views(r@) == views(v@),
{
    let mut out: Vec<String> = Vec::new();
    let mut i: usize = 0;
    while i < v.len()
        invariant
            i <= v.len(),
            views(out@) =~= views(v@).subrange(0, i as int),
        decreases v.len() - i,
    {
        let s = v[i].clone();
        proof {
            lemma_views_push(out@, s);
        }
        out.push(s);
        i += 1;
    }
    assert(views(v@).subrange(0, v.len() as int) == views(v@));
    out
}

proof fn lemma_lists_push(v: Seq<Vec<String>>, x: Vec<String>)
    ensures
        final_lists(v.push(x)) == final_lists(v).push(views(x@)),
{
    assert(final_lists(v.push(x)) =~= final_lists(v).push(views(x@)));
}

fn copy_lists(v: &Vec<Vec<String>>) -> (r: Vec<Vec<String>>)
    ensures
        final_lists(r@) == final_lists(v@),
{
    let mut out: Vec<Vec<String>> = Vec::new();
    let mut i: usize = 0;
    while i < v.len()
        invariant
            i <= v.len(),
            final_lists(out@) =~= final_lists(v@).subrange(0, i as int),
        decreases v.len() - i,
    {
        let s = copy_strings(&v[i]);
        proof {
            lemma_lists_push(out@, s);
        }
        out.push(s);
        i += 1;
    }
    assert(final_lists(v@).subrange(0, v.len() as int) == final_lists(v@));
    out
}

/// The readings of a text in a style by an engine (see `LazyPinyin::lazy_pinyin`).
pub open spec fn lazy_spec(lp: LazyPinyin, text: Seq<char>, style: Style, strict: bool) -> Seq<Seq<Seq<char>>> {
    let words = segments(char_views(lp.mmseg.phrases@), views(lp.phrase_words@), true, text);
    pieces_pinyin(phrase_views(lp.phrases@), dict_views(lp.pinyin_dict@), words, style, strict, words.len() as int)
}

/// The pinyin engine: a maximum-match segmenter over the phrase
/// dictionary, the phrase dictionary and the character dictionary.
pub struct LazyPinyin {
    pub mmseg: MMSeg,
    pub phrase_words: Vec<String>,
    pub phrases: Vec<(String, Vec<Vec<String>>)>,
    pub pinyin_dict: Vec<(char, Vec<String>)>,
}

impl LazyPinyin {
    /// The dictionaries are consistent: the segmenter and the word list
    /// hold the phrases, and every reading list has a first option.
    pub open spec fn wf(&self) -> bool {
        &&& self.mmseg.no_non_phrases
        &&& char_views(self.mmseg.phrases@) == views(self.phrase_words@)
        &&& lists_non_empty(phrase_views(self.phrases@), CharDictView::empty())
        &&& forall|i: int| 0 <= i < self.pinyin_dict.len() ==> (#[trigger] dict_views(self.pinyin_dict@)[i].1).len() > 0
    }

    /// An engine over a phrase dictionary and a character dictionary.
    pub fn new(phrases: Vec<(String, Vec<Vec<String>>)>, pinyin_dict: Vec<(char, Vec<String>)>) -> (r: Self)
        requires
            lists_non_empty(phrase_views(phrases@), CharDictView::empty()),
            forall|i: int| 0 <= i < pinyin_dict.len() ==> (#[trigger] dict_views(pinyin_dict@)[i].1).len() > 0,
        ensures
            r.wf(),
            phrase_views(r.phrases@) == phrase_views(phrases@),
            dict_views(r.pinyin_dict@) == dict_views(pinyin_dict@),
            views(r.phrase_words@) == phrase_views(phrases@).map_values(|e: (Seq<char>, Seq<Seq<Seq<char>>>)| e.0),
    {
        let mut words: Vec<String> = Vec::new();
        let mut i: usize = 0;
        while i < phrases.len()
            invariant
                i <= phrases.len(),
                views(words@) =~= phrase_views(phrases@).map_values(|e: (Seq<char>, Seq<Seq<Seq<char>>>)| e.0).subrange(0, i as int),
            decreases phrases.len() - i,
        {
            let w = phrases[i].0.clone();
            proof {
                lemma_views_push(words@, w);
            }
            words.push(w);
            i += 1;
        }
        let mmseg = MMSeg::new(true, &words);
        LazyPinyin { mmseg, phrase_words: words, phrases, pinyin_dict }
    }

    fn phrase_pinyin_lists(&self, w: &Vec<char>) -> (r: Vec<Vec<String>>)
        requires
            self.wf(),
        ensures
            final_lists(r@) == phrase_pinyin(phrase_views(self.phrases@), dict_views(self.pinyin_dict@), w@),
            forall|k: int| 0 <= k < r.len() ==> (#[trigger] r@[k]).len() > 0,
    {
        let ghost p = phrase_views(self.phrases@);
        let ghost d = dict_views(self.pinyin_dict@);
        let mut j: usize = 0;
        while j < self.phrases.len()
            invariant
                self.wf(),
                p == phrase_views(self.phrases@),
                j <= self.phrases.len(),
                find_phrase(p, w@, j as int) == find_phrase(p, w@, 0),
            decreases self.phrases.len() - j,
        {
            assert(p[j as int] == (self.phrases@[j as int].0@, final_lists(self.phrases@[j as int].1@)));
            if crate::mmseg::chars_equal(&chars_of(self.phrases[j].0.as_str()), w) {
                let r = copy_lists(&self.phrases[j].1);
                proof {
                    assert forall|k: int| 0 <= k < r.len() implies (#[trigger] r@[k]).len() > 0 by {
                        assert(final_lists(r@)[k] == views(r@[k]@));
                        assert(p[j as int].1[k].len() > 0);
                    }
                }
                return r;
            }
            j += 1;
        }
        let mut out: Vec<Vec<String>> = Vec::new();
        let mut i: usize = 0;
        while i < w.len()
            invariant
                d == dict_views(self.pinyin_dict@),
                forall|i: int| 0 <= i < self.pinyin_dict.len() ==> (#[trigger] dict_views(self.pinyin_dict@)[i].1).len() > 0,
                i <= w.len(),
                final_lists(out@) == char_lists(d, w@, i as int),
                forall|k: int| 0 <= k < out.len() ==> (#[trigger] out@[k]).len() > 0,
            decreases w.len() - i,
        {
            let c = w[i];
            let mut k: usize = 0;
            while k < self.pinyin_dict.len() && self.pinyin_dict[k].0 != c
                invariant
                    d == dict_views(self.pinyin_dict@),
                    k <= self.pinyin_dict.len(),
                    find_char(d, c, k as int) == find_char(d, c, 0),
                decreases self.pinyin_dict.len() - k,
            {
                assert(d[k as int].0 == self.pinyin_dict@[k as int].0);
                k += 1;
            }
            if k < self.pinyin_dict.len() {
                assert(d[k as int] == (self.pinyin_dict@[k as int].0, views(self.pinyin_dict@[k as int].1@)));
                let o = copy_strings(&self.pinyin_dict[k].1);
                proof {
                    lemma_lists_push(out@, o);
                }
                out.push(o);
            }
            i += 1;
        }
        out
    }

    /// The readings of a piece (see `piece_pinyin`).
    fn piece(&self, w: &String, style: Style, strict: bool) -> (r: Vec<Vec<String>>)
        requires
            self.wf(),
        ensures
            final_lists(r@) == piece_pinyin(phrase_views(self.phrases@), dict_views(self.pinyin_dict@), w@, style, strict),
    {
        let v = chars_of(w.as_str());
        let mut hans = v.len() > 0;
        let mut i: usize = 0;
        while i < v.len()
            invariant
                i <= v.len(),
                hans == (v@.len() > 0 && forall|k: int| 0 <= k < i ==> is_hans(#[trigger] v@[k])),
            decreases v.len() - i,
        {
            if !is_hans_char(v[i]) {
                hans = false;
            }
            i += 1;
        }
        let lists: Vec<Vec<String>> = if hans { self.phrase_pinyin_lists(&v) } else { Vec::new() };
        let styled_l = convert_styles(lists, w.as_str(), style, strict);
        let c = remove_dup_and_empty(styled_l);
        assert(final_lists(c@) =~= converted(phrase_views(self.phrases@), dict_views(self.pinyin_dict@), w@, style, strict)) by {
            assert forall|k: int| 0 <= k < c.len() implies #[trigger] final_lists(c@)[k]
                == converted(phrase_views(self.phrases@), dict_views(self.pinyin_dict@), w@, style, strict)[k] by {
                assert(final_lists(styled_l@)[k] =~= seq![styled(final_lists(lists@)[k][0], style, strict)]);
                assert(views(lists@[k]@)[0] == lists@[k]@[0]@);
            }
        }
        if c.len() > 0 {
            return c;
        }
        let mut out: Vec<Vec<String>> = Vec::new();
        match style {
            Style::Initials => {
                let mut l: Vec<String> = Vec::new();
                let mut j: usize = 0;
                while j < v.len()
                    invariant
                        v@ == w@,
                        j <= v.len(),
                        views(l@) =~= Seq::new(v@.len(), |i: int| char_initial(v@[i])).subrange(0, j as int),
                    decreases v.len() - j,
                {
                    let ini = match tone_num_pinyin(v[j]) {
                        Some(pn) => crate::pinyin::initial_of_chars(&chars_of(pn.as_str()), true),
                        None => {
                            let mut x: Vec<char> = Vec::new();
                            x.push(v[j]);
                            assert(x@ == seq![v@[j as int]]);
                            x
                        },
                    };
                    let s = string_of(&ini);
                    proof {
                        lemma_views_push(l@, s);
                    }
                    l.push(s);
                    j += 1;
                }
                assert(views(l@) =~= Seq::new(w@.len(), |i: int| char_initial(w@[i])));
                proof {
                    lemma_lists_push(out@, l);
                }
                out.push(l);
            },
            Style::InitialsTone3 => {
                let l = crate::tone_sandhi::get_pinyin(w.as_str(), true);
                proof {
                    lemma_lists_push(out@, l);
                }
                out.push(l);
            },
            Style::Tone3 => {},
        }
        assert(final_lists(out@) =~= fallback_lists(w@, style));
        out
    }

    /// The readings of a text in a style, piece by piece (see `pieces_pinyin`).
    pub fn lazy_pinyin(&self, hans: &str, style: Style, strict: bool) -> (r: Vec<Vec<String>>)
        requires
            self.wf(),
        ensures
            final_lists(r@) == lazy_spec(*self, hans@, style, strict),
    {
        let words = self.mmseg.seg(hans, &self.phrase_words);
        let ghost ws = views(words@);
        let mut out: Vec<Vec<String>> = Vec::new();
        let mut i: usize = 0;
        while i < words.len()
            invariant
                self.wf(),
                ws == views(words@),
                i <= words.len(),
                final_lists(out@) == pieces_pinyin(phrase_views(self.phrases@), dict_views(self.pinyin_dict@), ws, style,
                    strict, i as int),
            decreases words.len() - i,
        {
            assert(ws[i as int] == words@[i as int]@);
            let p = self.piece(&words[i], style, strict);
            let mut j: usize = 0;
            let ghost before = final_lists(out@);
            while j < p.len()
                invariant
                    j <= p.len(),
                    final_lists(out@) =~= before + final_lists(p@).subrange(0, j as int),
                decreases p.len() - j,
            {
                let x = copy_strings(&p[j]);
                proof {
                    lemma_lists_push(out@, x);
                }
                out.push(x);
                j += 1;
            }
            assert(final_lists(p@).subrange(0, p.len() as int) == final_lists(p@));
            i += 1;
        }
        out
    }
}

} // verus!
