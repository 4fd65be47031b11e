//! Mandarin tone sandhi on the toned finals of a word, and the merging of
//! segmented words that the sandhi rules need to see together.
use vstd::prelude::*;
use crate::chars::{chars_of, extend_chars, lemma_views_push, slice_chars, string_of, views};
use crate::neutral_words::{is_must_neutral, is_must_not_neutral, must_neutral, must_not_neutral};
use crate::pinyin::{is1, is2};

verus! {

/// Relies on `char::is_numeric`: whether a character belongs to one of
/// Unicode's number categories.
pub uninterp spec fn numeric(c: char) -> bool;

/// Relies on `char::is_numeric`: whether `c` is a number character.
#[verifier::external_body]
pub(crate) fn char_is_numeric(c: char) -> (r: bool)
    ensures
        r == numeric(c),
{
    c.is_numeric()
}

#[verifier::external_type_specification]
#[verifier::external_body]
pub struct ExJieba(jieba_rs::Jieba);

/// Relies on `jieba_rs::Jieba::new`: a segmenter with the dictionary that
/// the crate embeds.
pub assume_specification[ jieba_rs::Jieba::new ]() -> jieba_rs::Jieba;

/// The words of `w` in search mode by the segmenter with the embedded
/// dictionary (as `jieba_rs::Jieba::cut_for_search` with HMM gives them).
pub uninterp spec fn search_words(w: Seq<char>) -> Seq<Seq<char>>;

/// Relies on `jieba_rs::Jieba::cut_for_search` with HMM on the embedded
/// dictionary: the search-mode words of `word`, which depend on the word
/// alone for that dictionary.
#[verifier::external_body]
fn cut_for_search(jieba: &jieba_rs::Jieba, word: &str) -> (r: Vec<String>)
    ensures
        views(r@) == search_words(word@),
{
    jieba.cut_for_search(word, true).into_iter().map(|t| t.word.to_string()).collect()
}

/// Index of the first shortest of the first `n` pieces.
pub open spec fn shortest_index(p: Seq<Seq<char>>, n: int) -> int
    decreases n,
{
    if n <= 1 {
        0
    } else {
        let k = shortest_index(p, n - 1);
        if p[n - 1].len() < p[k].len() { n - 1 } else { k }
    }
}

/// The split of a word by its first shortest search-mode piece `f`: `f`
/// and the rest when the word starts with `f`, else the rest before `f`
/// and `f`; no split when there is no piece, or the piece is longer than
/// the word.
pub open spec fn split_parts(w: Seq<char>, p: Seq<Seq<char>>) -> Seq<Seq<char>> {
    if p.len() == 0 {
        seq![]
    } else {
        let f = p[shortest_index(p, p.len() as int)];
        if f.len() > w.len() {
            seq![]
        } else if w.subrange(0, f.len() as int) == f {
            seq![f, w.subrange(f.len() as int, w.len() as int)]
        } else {
            seq![w.subrange(0, w.len() - f.len()), f]
        }
    }
}

proof fn lemma_shortest_bound(p: Seq<Seq<char>>, n: int)
    requires
        1 <= n <= p.len(),
    ensures
        0 <= shortest_index(p, n) < n,
    decreases n,
{
    if n > 1 {
        lemma_shortest_bound(p, n - 1);
    }
}

/// The segmenter that splits words for the three-tone and neutral-tone rules.
pub struct WordSplitter {
    jieba: jieba_rs::Jieba,
}

impl WordSplitter {
    /// A splitter with the embedded dictionary.
    pub fn new() -> Self {
        WordSplitter { jieba: jieba_rs::Jieba::new() }
    }

    /// The words of a text with their part-of-speech tags (see `pos_tagged`).
    pub fn tag(&self, text: &str) -> (r: Vec<(String, String)>)
        ensures
            tagged(r@) == pos_tagged(text@),
    {
        tag_words(&self.jieba, text)
    }

    /// The split of a word in two parts (see `split_parts`).
    pub fn split_word(&self, word: &str) -> (r: Vec<String>)
        ensures
            views(r@) == split_parts(word@, search_words(word@)),
            r.len() == 2 ==> r@[0]@.len() + r@[1]@.len() == word@.len(),
    {
        let pieces = cut_for_search(&self.jieba, word);
        let ghost p = views(pieces@);
        if pieces.len() == 0 {
            return Vec::new();
        }
        let mut k: usize = 0;
        let mut i: usize = 1;
        let mut best = chars_of(pieces[0].as_str()).len();
        assert(p[0] == pieces@[0]@);
        while i < pieces.len()
            invariant
                p == views(pieces@),
                1 <= i <= pieces.len(),
                k == shortest_index(p, i as int),
                k < i,
                best == p[k as int].len(),
            decreases pieces.len() - i,
        {
            assert(p[i as int] == pieces@[i as int]@);
            let l = chars_of(pieces[i].as_str()).len();
            if l < best {
                k = i;
                best = l;
            }
            i += 1;
        }
        assert(p[k as int] == pieces@[k as int]@);
        let f = chars_of(pieces[k].as_str());
        let w = chars_of(word);
        if f.len() > w.len() {
            return Vec::new();
        }
        let head = slice_chars(&w, 0, f.len());
        let mut r: Vec<String> = Vec::new();
        if crate::mmseg::chars_equal(&head, &f) {
            let a = string_of(&f);
            let b = string_of(&slice_chars(&w, f.len(), w.len()));
            proof {
                lemma_views_push(r@, a);
            }
            r.push(a);
            proof {
                lemma_views_push(r@, b);
            }
            r.push(b);
        } else {
            let a = string_of(&slice_chars(&w, 0, w.len() - f.len()));
            let b = string_of(&f);
            proof {
                lemma_views_push(r@, a);
            }
            r.push(a);
            proof {
                lemma_views_push(r@, b);
            }
            r.push(b);
        }
        assert(views(r@) =~= split_parts(word@, search_words(word@)));
        r
    }
}

/// All tone sandhi of a word tagged `pos` with the segmenter's split: 不,
/// 一, neutral tone, then three tones; a word not split in two (only the
/// empty word) gets the 不 and 一 rules alone.
pub open spec fn modified_rule(w: Seq<char>, pos: Seq<char>, f: Seq<Seq<char>>) -> Seq<Seq<char>> {
    let parts = split_parts(w, search_words(w));
    if parts.len() == 2 {
        three_rule(w, neutral_rule(w, pos, yi_rule(w, bu_rule(w, f)), parts[0], parts[1]), parts[0].len() as int)
    } else {
        yi_rule(w, bu_rule(w, f))
    }
}

/// The part-of-speech tagging of a text by the segmenter with the embedded
/// dictionary, without HMM (as `jieba_rs::Jieba::tag` gives it).
pub uninterp spec fn pos_tagged(s: Seq<char>) -> Seq<(Seq<char>, Seq<char>)>;

/// Relies on `jieba_rs::Jieba::tag` without HMM on the embedded dictionary:
/// the words of `s` with their part-of-speech tags, which depend on the
/// text alone for that dictionary.
#[verifier::external_body]
fn tag_words(jieba: &jieba_rs::Jieba, s: &str) -> (r: Vec<(String, String)>)
    ensures
        tagged(r@) == pos_tagged(s@),
{
    jieba.tag(s, false).into_iter().map(|t| (t.word.to_string(), t.tag.to_string())).collect()
}

/// The first reading of a character as `pinyin` records it, with the tone
/// digit after the toned vowel (`zho1ng`), or none for a character without
/// a reading.
pub uninterp spec fn char_pinyin(c: char) -> Option<Seq<char>>;

/// Relies on `pinyin::ToPinyin` for `char` and `Pinyin::with_tone_num`: the
/// reading of `c` with its tone digit, or none.
#[verifier::external_body]
pub(crate) fn tone_num_pinyin(c: char) -> (r: Option<String>)
    ensures
        match r {
            Some(s) => char_pinyin(c) == Some(s@),
            None => char_pinyin(c) == None::<Seq<char>>,
        },
{
    pinyin::ToPinyin::to_pinyin(&c).map(|p| p.with_tone_num().to_string())
}

/// The ASCII digits of `s`, in order.
pub open spec fn digits_of(s: Seq<char>) -> Seq<char>
    decreases s.len(),
{
    if s.len() == 0 {
        s
    } else if crate::chars::is_digit(s.last()) {
        digits_of(s.drop_last()).push(s.last())
    } else {
        digits_of(s.drop_last())
    }
}

/// The toned final of a character: the strict final of its reading with
/// the tone digits moved to the end, `5` when there is none and `five`; a
/// character without a reading stands for itself.
pub open spec fn char_final(c: char, five: bool) -> Seq<char> {
    match char_pinyin(c) {
        Some(pn) => {
            let f = crate::pinyin::final_of(pn, true);
            crate::pinyin::without_digits(f) + (if digits_of(f).len() == 0 && five { seq!['5'] } else { digits_of(f) })
        },
        None => seq![c],
    }
}

/// The toned finals of the characters of a word.
pub open spec fn word_finals(w: Seq<char>, five: bool) -> Seq<Seq<char>> {
    Seq::new(w.len(), |i: int| char_final(w[i], five))
}

fn digits_of_chars(v: &Vec<char>) -> (r: Vec<char>)
    ensures
        r@ == digits_of(v@),
{
    let mut out: Vec<char> = Vec::new();
    let mut i: usize = 0;
    while i < v.len()
        invariant
            i <= v.len(),
            out@ == digits_of(v@.subrange(0, i as int)),
        decreases v.len() - i,
    {
        assert(v@.subrange(0, i + 1).drop_last() == v@.subrange(0, i as int));
        if '0' <= v[i] && v[i] <= '9' {
            out.push(v[i]);
        }
        i += 1;
    }
    assert(v@.subrange(0, v.len() as int) == v@);
    out
}

/// The toned final of a character (see `char_final`).
pub(crate) fn char_final_chars(c: char, five: bool) -> (r: Vec<char>)
    ensures
        r@ == char_final(c, five),
{
    match tone_num_pinyin(c) {
        Some(pn) => {
            let f = crate::pinyin::final_of_chars(&chars_of(pn.as_str()), true);
            let mut r = crate::pinyin::without_digits_chars(&f);
            let d = digits_of_chars(&f);
            if d.len() == 0 && five {
                r.push('5');
                assert(r@ == crate::pinyin::without_digits(f@) + seq!['5']);
            } else {
                extend_chars(&mut r, &d);
            }
            r
        },
        None => {
            let mut r: Vec<char> = Vec::new();
            r.push(c);
            assert(r@ == seq![c]);
            r
        },
    }
}

/// The toned finals of the characters of a word, `5` for a neutral tone
/// when `with_five` (see `word_finals`).
pub fn get_pinyin(word: &str, with_five: bool) -> (r: Vec<String>)
    ensures
        views(r@) == word_finals(word@, with_five),
{
    let w = chars_of(word);
    let mut out: Vec<String> = Vec::new();
    let mut i: usize = 0;
    while i < w.len()
        invariant
            w@ == word@,
            i <= w.len(),
            views(out@) =~= word_finals(word@, with_five).subrange(0, i as int),
        decreases w.len() - i,
    {
        let f = string_of(&char_final_chars(w[i], with_five));
        proof {
            lemma_views_push(out@, f);
        }
        out.push(f);
        i += 1;
    }
    out
}

/// The finals used to decide three-tone merges: the word's toned finals,
/// or the word itself when it has none.
pub open spec fn merge_finals(s: Seq<Tagged>) -> Seq<Seq<Seq<char>>> {
    Seq::new(s.len(), |i: int| if s[i].0.len() == 0 { seq![s[i].0] } else { word_finals(s[i].0, true) })
}

/// The merges before sandhi, in order: 不, 一, reduplication, the two
/// three-tone coalescings, and 儿.
pub open spec fn pre_merged(s: Seq<Tagged>) -> Seq<Tagged> {
    let s2 = yi_merged(bu_merged(s));
    let s3 = redup_fold(s2, s2.len() as int);
    let s4 = three_fold(s3, merge_finals(s3), true, s3.len() as int).0;
    let s5 = three_fold(s4, merge_finals(s4), false, s4.len() as int).0;
    er_fold(s5, s5.len() as int)
}

/// A toned final with its tone digit replaced by `d`.
pub open spec fn retone(f: Seq<char>, d: char) -> Seq<char> {
    f.drop_last().push(d)
}

/// Whether every final of a list is non-empty, as a toned final is.
pub open spec fn all_toned(f: Seq<Seq<char>>) -> bool {
    forall|i: int| 0 <= i < f.len() ==> (#[trigger] f[i]).len() > 0
}

proof fn lemma_toned(v: Seq<String>, k: int)
    requires
        all_toned(views(v)),
        0 <= k < v.len(),
    ensures
        v[k]@.len() > 0,
        views(v)[k] == v[k]@,
{
    assert(views(v)[k] == v[k]@);
}

fn retone_string(f: &String, d: char) -> (r: String)
    requires
        f@.len() > 0,
    ensures
        r@ == retone(f@, d),
{
    let v = chars_of(f.as_str());
    let mut w = slice_chars(&v, 0, v.len() - 1);
    w.push(d);
    assert(w@ == v@.drop_last().push(d));
    string_of(&w)
}

fn last_char(f: &String) -> (r: char)
    requires
        f@.len() > 0,
    ensures
        r == f@.last(),
{
    let v = chars_of(f.as_str());
    v[v.len() - 1]
}

/// Whether a final carries tone three.
pub open spec fn is_tone_three(f: Seq<char>) -> bool {
    f.len() > 0 && f.last() == '3'
}

/// Whether every final of a list carries tone three.
pub open spec fn all_three(f: Seq<Seq<char>>) -> bool {
    forall|i: int| 0 <= i < f.len() ==> is_tone_three(#[trigger] f[i])
}

/// Whether a word is one character said twice.
pub open spec fn reduplicated(w: Seq<char>) -> bool {
    w.len() == 2 && w[0] == w[1]
}

/// 不 sandhi: in a three-character word with 不 in the middle 不 is neutral;
/// elsewhere 不 before a tone-four syllable takes tone two.
pub open spec fn bu_rule(w: Seq<char>, f: Seq<Seq<char>>) -> Seq<Seq<char>> {
    if w.len() == 3 && w[1] == '不' {
        if f.len() > 1 { f.update(1, retone(f[1], '5')) } else { f }
    } else {
        Seq::new(f.len(), |i: int|
            if i + 1 < w.len() && w[i] == '不' && i + 1 < f.len() && f[i + 1].last() == '4' {
                retone(f[i], '2')
            } else {
                f[i]
            })
    }
}

/// Whether a character is a punctuation mark for 一 sandhi.
pub open spec fn is_sandhi_punct(c: char) -> bool {
    c == '：' || c == '，' || c == '；' || c == '。' || c == '？' || c == '！' || c == '“' || c == '”'
        || c == '‘' || c == '’' || c == '\'' || c == ':' || c == ',' || c == ';' || c == '.' || c == '?'
        || c == '!'
}

/// Whether a word is a number written with 一: it holds 一 and nothing
/// but 一 and number characters.
pub open spec fn is_yi_number(w: Seq<char>) -> bool {
    (exists|k: int| 0 <= k < w.len() && w[k] == '一')
        && (forall|k: int| 0 <= k < w.len() ==> w[k] == '一' || numeric(#[trigger] w[k]))
}

/// 一 sandhi: unchanged inside numbers; neutral between two equal
/// characters; tone one in 第一; elsewhere tone two before tone four and tone
/// four before anything but punctuation.
pub open spec fn yi_rule(w: Seq<char>, f: Seq<Seq<char>>) -> Seq<Seq<char>> {
    if w.len() == 0 || is_yi_number(w) {
        f
    } else if w.len() == 3 && w[1] == '一' && w[0] == w[2] {
        if f.len() > 2 { f.update(1, retone(f[1], '5')) } else { f }
    } else if w.len() >= 2 && w[0] == '第' && w[1] == '一' {
        if f.len() > 2 { f.update(1, retone(f[1], '1')) } else { f }
    } else {
        Seq::new(f.len(), |i: int|
            if i + 1 < w.len() && w[i] == '一' && i + 1 < f.len() {
                if f[i + 1].last() == '4' {
                    retone(f[i], '2')
                } else if !is_sandhi_punct(w[i + 1]) {
                    retone(f[i], '4')
                } else {
                    f[i]
                }
            } else {
                f[i]
            })
    }
}

fn is_sandhi_punct_char(c: char) -> (r: bool)
    ensures
        r == is_sandhi_punct(c),
{
    c == '：' || c == '，' || c == '；' || c == '。' || c == '？' || c == '！' || c == '“' || c == '”'
        || c == '‘' || c == '’' || c == '\'' || c == ':' || c == ',' || c == ';' || c == '.' || c == '?'
        || c == '!'
}

fn is_yi_number_chars(w: &Vec<char>) -> (r: bool)
    ensures
        r == is_yi_number(w@),
{
    let mut has = false;
    let mut i: usize = 0;
    while i < w.len()
        invariant
            i <= w.len(),
            has == (exists|k: int| 0 <= k < i && w@[k] == '一'),
            forall|k: int| 0 <= k < i ==> w@[k] == '一' || numeric(#[trigger] w@[k]),
        decreases w.len() - i,
    {
        if w[i] == '一' {
            has = true;
        } else if !char_is_numeric(w[i]) {
            assert(!(w@[i as int] == '一' || numeric(w@[i as int])));
            return false;
        }
        i += 1;
    }
    has
}

/// A segmented word and its part-of-speech tag, as character sequences.
pub type Tagged = (Seq<char>, Seq<char>);

/// The views of a list of tagged words.
pub open spec fn tagged(v: Seq<(String, String)>) -> Seq<Tagged> {
    v.map_values(|p: (String, String)| (p.0@, p.1@))
}

/// The views of a list of final lists.
pub open spec fn final_lists(v: Seq<Vec<String>>) -> Seq<Seq<Seq<char>>> {
    v.map_values(|l: Vec<String>| views(l@))
}

/// `acc` with `w` appended to the word of its last entry.
pub open spec fn extend_last(acc: Seq<Tagged>, w: Seq<char>) -> Seq<Tagged> {
    acc.update(acc.len() - 1, (acc.last().0 + w, acc.last().1))
}

proof fn lemma_tagged_push(v: Seq<(String, String)>, p: (String, String))
    ensures
        tagged(v.push(p)) == tagged(v).push((p.0@, p.1@)),
{
    assert(tagged(v.push(p)) =~= tagged(v).push((p.0@, p.1@)));
}

fn concat_string(a: &String, b: &Vec<char>) -> (r: String)
    ensures
        r@ == a@ + b@,
{
    let mut v = chars_of(a.as_str());
    extend_chars(&mut v, b);
    string_of(&v)
}

/// Appends `w` to the word of the last entry of `v`.
fn append_to_last(v: &mut Vec<(String, String)>, w: &Vec<char>)
    requires
        old(v).len() > 0,
    ensures
        tagged(final(v)@) == extend_last(tagged(old(v)@), w@),
{
    let last = v.len() - 1;
    let word = concat_string(&v[last].0, w);
    let pos = v[last].1.clone();
    v.set(last, (word, pos));
    assert(tagged(v@) =~= extend_last(tagged(old(v)@), w@));
}

fn push_tagged(v: &mut Vec<(String, String)>, p: &(String, String))
    ensures
        tagged(final(v)@) == tagged(old(v)@).push((p.0@, p.1@)),
{
    let q = (p.0.clone(), p.1.clone());
    proof {
        lemma_tagged_push(v@, q);
    }
    v.push(q);
}

fn eq_one(s: &String, c: char) -> (r: bool)
    ensures
        r == crate::pinyin::is1(s@, c),
{
    let v = chars_of(s.as_str());
    v.len() == 1 && v[0] == c
}

fn strings_equal(a: &String, b: &String) -> (r: bool)
    ensures
        r == (a@ == b@),
{
    let x = chars_of(a.as_str());
    let y = chars_of(b.as_str());
    if x.len() != y.len() {
        return false;
    }
    let mut i: usize = 0;
    while i < x.len()
        invariant
            x@ == a@,
            y@ == b@,
            x.len() == y.len(),
            i <= x.len(),
            forall|k: int| 0 <= k < i ==> x@[k] == y@[k],
        decreases x.len() - i,
    {
        if x[i] != y[i] {
            assert(x@[i as int] != y@[i as int]);
            return false;
        }
        i += 1;
    }
    assert(x@ =~= y@);
    true
}

/// Whether the `k`-th word is a 一 between two equal verbs.
pub open spec fn yi_between(s: Seq<Tagged>, k: int) -> bool {
    crate::pinyin::is1(s[k].0, '一') && k > 0 && k + 1 < s.len() && s[k - 1].0 == s[k + 1].0
        && crate::pinyin::is1(s[k - 1].1, 'v') && crate::pinyin::is1(s[k + 1].1, 'v')
}

/// Whether the `k`-th word is a verb repeated after a 一.
pub open spec fn yi_repeat(s: Seq<Tagged>, k: int) -> bool {
    k >= 2 && crate::pinyin::is1(s[k - 1].0, '一') && s[k - 2].0 == s[k].0 && crate::pinyin::is1(s[k].1, 'v')
}

/// The first pass of the 一 merge over the first `n` words: `V 一 V` becomes
/// one word.
pub open spec fn yi_fold(s: Seq<Tagged>, n: int) -> Seq<Tagged>
    decreases n,
{
    if n <= 0 {
        seq![]
    } else {
        let acc = yi_fold(s, n - 1);
        let k = n - 1;
        if yi_between(s, k) {
            if acc.len() > 0 { extend_last(acc, seq!['一'] + s[k + 1].0) } else { acc }
        } else if yi_repeat(s, k) {
            acc
        } else {
            acc.push(s[k])
        }
    }
}

/// The second pass of the 一 merge over the first `n` words: a lone 一 takes
/// the word after it.
pub open spec fn yi_attach(s: Seq<Tagged>, n: int) -> Seq<Tagged>
    decreases n,
{
    if n <= 0 {
        seq![]
    } else {
        let acc = yi_attach(s, n - 1);
        if acc.len() > 0 && crate::pinyin::is1(acc.last().0, '一') {
            extend_last(acc, s[n - 1].0)
        } else {
            acc.push(s[n - 1])
        }
    }
}

/// The 一 merge of a segmented sentence.
pub open spec fn yi_merged(s: Seq<Tagged>) -> Seq<Tagged> {
    let r = yi_fold(s, s.len() as int);
    yi_attach(r, r.len() as int)
}

/// The 儿 merge over the first `n` words: 儿 joins the word before it,
/// unless that word is `#`.
pub open spec fn er_fold(s: Seq<Tagged>, n: int) -> Seq<Tagged>
    decreases n,
{
    if n <= 0 {
        seq![]
    } else {
        let acc = er_fold(s, n - 1);
        let k = n - 1;
        if k > 0 && crate::pinyin::is1(s[k].0, '儿') && !crate::pinyin::is1(s[k - 1].0, '#') {
            if acc.len() > 0 { extend_last(acc, s[k].0) } else { acc }
        } else {
            acc.push(s[k])
        }
    }
}

/// The reduplication merge over the first `n` words: a word equal to the
/// (merged) word before it joins it.
pub open spec fn redup_fold(s: Seq<Tagged>, n: int) -> Seq<Tagged>
    decreases n,
{
    if n <= 0 {
        seq![]
    } else {
        let acc = redup_fold(s, n - 1);
        if acc.len() > 0 && acc.last().0 == s[n - 1].0 {
            extend_last(acc, s[n - 1].0)
        } else {
            acc.push(s[n - 1])
        }
    }
}

/// The 不 merge over the first `n` words, with the last word seen: 不
/// joins the word after it.
pub open spec fn bu_fold(s: Seq<Tagged>, n: int) -> (Seq<Tagged>, Seq<char>)
    decreases n,
{
    if n <= 0 {
        (seq![], seq![])
    } else {
        let (acc, last) = bu_fold(s, n - 1);
        let merged = if crate::pinyin::is1(last, '不') { last + s[n - 1].0 } else { s[n - 1].0 };
        (if crate::pinyin::is1(merged, '不') { acc } else { acc.push((merged, s[n - 1].1)) }, merged)
    }
}

/// The 不 merge of a segmented sentence; a 不 at the end stands alone as an adverb.
pub open spec fn bu_merged(s: Seq<Tagged>) -> Seq<Tagged> {
    let (acc, last) = bu_fold(s, s.len() as int);
    if crate::pinyin::is1(last, '不') { acc.push((last, seq!['d'])) } else { acc }
}

/// Whether words `k - 1` and `k` may coalesce as a three-tone run: both
/// tone-three throughout (`whole`) or meeting on tone three (otherwise),
/// the first not reduplicated and the two at most three characters long.
pub open spec fn three_joinable(s: Seq<Tagged>, f: Seq<Seq<Seq<char>>>, k: int, whole: bool) -> bool {
    &&& 0 < k < s.len()
    &&& if whole {
        all_three(f[k - 1]) && all_three(f[k])
    } else {
        f[k - 1].len() > 0 && is_tone_three(f[k - 1].last()) && f[k].len() > 0 && is_tone_three(f[k][0])
    }
    &&& !reduplicated(s[k - 1].0)
    &&& s[k - 1].0.len() + s[k].0.len() <= 3
}

/// The three-tone merge over the first `n` words, with whether word `n - 1`
/// was merged: a word joins the one before it when the two are joinable
/// and the one before was not itself merged.
pub open spec fn three_fold(s: Seq<Tagged>, f: Seq<Seq<Seq<char>>>, whole: bool, n: int) -> (Seq<Tagged>, bool)
    decreases n,
{
    if n <= 0 {
        (seq![], false)
    } else {
        let (acc, prev_merged) = three_fold(s, f, whole, n - 1);
        if three_joinable(s, f, n - 1, whole) && !prev_merged && acc.len() > 0 {
            (extend_last(acc, s[n - 1].0), true)
        } else {
            (acc.push(s[n - 1]), false)
        }
    }
}

/// A list of finals whose first final takes tone two when all carry tone three.
pub open spec fn first_rises(h: Seq<Seq<char>>) -> Seq<Seq<char>> {
    if all_three(h) && h.len() > 0 { h.update(0, retone(h[0], '2')) } else { h }
}

/// Three-tone sandhi inside a word, given the length `l` of the first part
/// of the word's split. Two tone-three syllables: the first takes tone two.
/// Three: all tone three, the first two rise after a two-character first
/// part, only the middle after a one-character one; otherwise a tone-three
/// pair inside a part rises, and the last syllable of the first part rises
/// before a tone-three syllable when the second part is not all tone three.
/// Four: each half as a pair.
pub open spec fn three_rule(w: Seq<char>, f: Seq<Seq<char>>, l: int) -> Seq<Seq<char>> {
    if f.len() == 0 {
        f
    } else if w.len() == 2 {
        if all_three(f) { f.update(0, retone(f[0], '2')) } else { f }
    } else if w.len() == 3 {
        if all_three(f) && f.len() >= 2 {
            if l == 2 {
                f.update(0, retone(f[0], '2')).update(1, retone(f[1], '2'))
            } else if l == 1 {
                f.update(1, retone(f[1], '2'))
            } else {
                f
            }
        } else {
            let a = f.subrange(0, l);
            let b = f.subrange(l, f.len() as int);
            let a1 = if all_three(a) && a.len() == 2 { a.update(0, retone(a[0], '2')) } else { a };
            if all_three(b) && b.len() == 2 {
                a1 + b.update(0, retone(b[0], '2'))
            } else if !all_three(b) && a1.len() > 0 && is_tone_three(a1.last()) && is_tone_three(b[0]) {
                a1.update(a1.len() - 1, retone(a1.last(), '2')) + b
            } else {
                a1 + b
            }
        }
    } else if w.len() == 4 {
        first_rises(f.subrange(0, 2)) + first_rises(f.subrange(2, f.len() as int))
    } else {
        f
    }
}

fn retone_at(v: &mut Vec<String>, k: usize, d: char)
    requires
        k < old(v).len(),
        old(v)@[k as int]@.len() > 0,
    ensures
        views(final(v)@) == views(old(v)@).update(k as int, retone(old(v)@[k as int]@, d)),
        final(v).len() == old(v).len(),
{
    let t = retone_string(&v[k], d);
    v.set(k, t);
    assert(views(v@) =~= views(old(v)@).update(k as int, retone(old(v)@[k as int]@, d)));
}

fn slice_strings(v: &Vec<String>, lo: usize, hi: usize) -> (r: Vec<String>)
    requires
        lo <= hi <= v.len(),
    ensures
        views(r@) == views(v@).subrange(lo as int, hi as int),
{
    let mut r: Vec<String> = Vec::new();
    let mut i: usize = lo;
    while i < hi
        invariant
            lo <= i <= hi <= v.len(),
            views(r@) =~= views(v@).subrange(lo as int, i as int),
        decreases hi - i,
    {
        let t = v[i].clone();
        assert(t@ == v@[i as int]@);
        proof {
            lemma_views_push(r@, t);
        }
        r.push(t);
        i += 1;
    }
    r
}

/// The strings of `v` from `lo` up to `hi`.
pub fn slice_strings_pub(v: &Vec<String>, lo: usize, hi: usize) -> (r: Vec<String>)
    requires
        lo <= hi <= v.len(),
    ensures
        views(r@) == views(v@).subrange(lo as int, hi as int),
{
    slice_strings(v, lo, hi)
}

fn concat_strings(a: Vec<String>, b: &Vec<String>) -> (r: Vec<String>)
    ensures
        views(r@) == views(a@) + views(b@),
{
    let mut r = a;
    let ghost a0 = views(r@);
    let mut i: usize = 0;
    while i < b.len()
        invariant
            i <= b.len(),
            views(r@) =~= a0 + views(b@).subrange(0, i as int),
        decreases b.len() - i,
    {
        let t = b[i].clone();
        assert(t@ == b@[i as int]@);
        proof {
            lemma_views_push(r@, t);
        }
        r.push(t);
        i += 1;
    }
    r
}

fn first_rises_strings(h: Vec<String>) -> (r: Vec<String>)
    requires
        all_toned(views(h@)),
    ensures
        views(r@) == first_rises(views(h@)),
{
    let mut h = h;
    if h.len() > 0 && ToneSandhi::all_tone_three(&h) {
        proof {
            lemma_toned(h@, 0);
        }
        retone_at(&mut h, 0, '2');
    }
    h
}

/// Whether words `k - 1` and `k` of `seg` may coalesce (see `three_joinable`).
fn three_joinable_at(seg: &Vec<(String, String)>, sub_finals: &Vec<Vec<String>>, k: usize, whole: bool) -> (r: bool)
    requires
        0 < k < seg.len(),
        sub_finals.len() == seg.len(),
    ensures
        r == three_joinable(tagged(seg@), final_lists(sub_finals@), k as int, whole),
{
    let ghost f = final_lists(sub_finals@);
    assert(f[k - 1] == views(sub_finals@[k - 1]@));
    assert(f[k as int] == views(sub_finals@[k as int]@));
    assert(tagged(seg@)[k - 1] == (seg@[k - 1].0@, seg@[k - 1].1@));
    assert(tagged(seg@)[k as int] == (seg@[k as int].0@, seg@[k as int].1@));
    let tones = if whole {
        ToneSandhi::all_tone_three(&sub_finals[k - 1]) && ToneSandhi::all_tone_three(&sub_finals[k])
    } else {
        let prev = &sub_finals[k - 1];
        let cur = &sub_finals[k];
        if prev.len() > 0 && cur.len() > 0 {
            let a = chars_of(prev[prev.len() - 1].as_str());
            let b = chars_of(cur[0].as_str());
            assert(views(prev@)[prev.len() - 1] == prev@[prev.len() - 1]@);
            assert(views(cur@)[0] == cur@[0]@);
            a.len() > 0 && a[a.len() - 1] == '3' && b.len() > 0 && b[b.len() - 1] == '3'
        } else {
            false
        }
    };
    let p = chars_of(seg[k - 1].0.as_str());
    let c = chars_of(seg[k].0.as_str());
    tones && !(p.len() == 2 && p[0] == p[1]) && p.len() <= 3 && c.len() <= 3 - p.len()
}

fn three_merge(seg_cut: &Vec<(String, String)>, sub_finals: &Vec<Vec<String>>, whole: bool) -> (r: Vec<(String, String)>)
    requires
        sub_finals.len() == seg_cut.len(),
    ensures
        tagged(r@) == three_fold(tagged(seg_cut@), final_lists(sub_finals@), whole, seg_cut@.len() as int).0,
{
    let ghost s = tagged(seg_cut@);
    let ghost f = final_lists(sub_finals@);
    let mut out: Vec<(String, String)> = Vec::new();
    let mut merged_last = false;
    let mut i: usize = 0;
    while i < seg_cut.len()
        invariant
            s == tagged(seg_cut@),
            f == final_lists(sub_finals@),
            sub_finals.len() == seg_cut.len(),
            i <= seg_cut.len(),
            (tagged(out@), merged_last) == three_fold(s, f, whole, i as int),
        decreases seg_cut.len() - i,
    {
        proof {
            assert(s[i as int] == (seg_cut@[i as int].0@, seg_cut@[i as int].1@));
        }
        if i > 0 && three_joinable_at(seg_cut, sub_finals, i, whole) && !merged_last && out.len() > 0 {
            let w = chars_of(seg_cut[i].0.as_str());
            append_to_last(&mut out, &w);
            merged_last = true;
        } else {
            push_tagged(&mut out, &seg_cut[i]);
            merged_last = false;
        }
        i += 1;
    }
    out
}

/// Whether `c` is a modal particle that is always neutral at the end of a word.
pub open spec fn is_modal_particle(c: char) -> bool {
    c == '吧' || c == '呢' || c == '哈' || c == '啊' || c == '呐' || c == '噻' || c == '嘛' || c == '吖' || c == '嗨' || c == '呐' || c == '哦' || c == '哒' || c == '额' || c == '滴' || c == '哩' || c == '哟' || c == '喽' || c == '啰' || c == '耶' || c == '喔' || c == '诶'
}

/// Whether `c` is an aspect particle.
pub open spec fn is_aspect_particle(c: char) -> bool {
    c == '了' || c == '着' || c == '过'
}

/// Whether `c` is a plural or noun suffix.
pub open spec fn is_plural_suffix(c: char) -> bool {
    c == '们' || c == '子'
}

/// Whether `c` is a directional complement.
pub open spec fn is_direction_suffix(c: char) -> bool {
    c == '来' || c == '去'
}

/// Whether `c` is a direction verb before 来 or 去.
pub open spec fn is_direction_verb(c: char) -> bool {
    c == '上' || c == '下' || c == '进' || c == '出' || c == '回' || c == '过' || c == '起' || c == '开'
}

/// Whether `c` is a locative suffix.
pub open spec fn is_locative_suffix(c: char) -> bool {
    c == '上' || c == '下' || c == '里'
}

/// Whether `c` is a structural particle 的, 地 or 得.
pub open spec fn is_de(c: char) -> bool {
    c == '的' || c == '地' || c == '得'
}

/// Whether `c` is a word that makes a following 个 neutral.
pub open spec fn is_measure_prefix(c: char) -> bool {
    c == '几' || c == '有' || c == '两' || c == '半' || c == '多' || c == '各' || c == '整' || c == '每' || c == '做' || c == '是'
}

fn is_modal_particle_char(c: char) -> (r: bool)
    ensures
        r == is_modal_particle(c),
{
    c == '吧' || c == '呢' || c == '哈' || c == '啊' || c == '呐' || c == '噻' || c == '嘛' || c == '吖' || c == '嗨' || c == '呐' || c == '哦' || c == '哒' || c == '额' || c == '滴' || c == '哩' || c == '哟' || c == '喽' || c == '啰' || c == '耶' || c == '喔' || c == '诶'
}

fn is_aspect_particle_char(c: char) -> (r: bool)
    ensures
        r == is_aspect_particle(c),
{
    c == '了' || c == '着' || c == '过'
}

fn is_plural_suffix_char(c: char) -> (r: bool)
    ensures
        r == is_plural_suffix(c),
{
    c == '们' || c == '子'
}

fn is_direction_suffix_char(c: char) -> (r: bool)
    ensures
        r == is_direction_suffix(c),
{
    c == '来' || c == '去'
}

fn is_direction_verb_char(c: char) -> (r: bool)
    ensures
        r == is_direction_verb(c),
{
    c == '上' || c == '下' || c == '进' || c == '出' || c == '回' || c == '过' || c == '起' || c == '开'
}

fn is_locative_suffix_char(c: char) -> (r: bool)
    ensures
        r == is_locative_suffix(c),
{
    c == '上' || c == '下' || c == '里'
}

fn is_de_char(c: char) -> (r: bool)
    ensures
        r == is_de(c),
{
    c == '的' || c == '地' || c == '得'
}

fn is_measure_prefix_char(c: char) -> (r: bool)
    ensures
        r == is_measure_prefix(c),
{
    c == '几' || c == '有' || c == '两' || c == '半' || c == '多' || c == '各' || c == '整' || c == '每' || c == '做' || c == '是'
}

/// A final made neutral, keeping a one-letter final whole: `ba1` is `ba5`,
/// `a` is `a5`.
pub open spec fn neutral_keep(f: Seq<char>) -> Seq<char> {
    if f.len() <= 1 { f.push('5') } else { retone(f, '5') }
}

/// The characters of `s` from `a` to `b`, both cut to the length of `s`.
pub open spec fn clamped(s: Seq<char>, a: int, b: int) -> Seq<char> {
    let lo = if a < s.len() { a } else { s.len() as int };
    let hi = if b < s.len() { b } else { s.len() as int };
    if lo <= hi { s.subrange(lo, hi) } else { seq![] }
}

/// Whether the neutral-tone rule makes the last syllable of a word neutral
/// because of its last character and part of speech.
pub open spec fn neutral_ending(w: Seq<char>, pos: Seq<char>) -> bool {
    let n = w.len();
    let c = w.last();
    is_modal_particle(c)
        || (n == 1 && is_aspect_particle(c) && (is2(pos, 'u', 'l') || is2(pos, 'u', 'z') || is2(pos, 'u', 'g')))
        || (n > 1 && ((is_plural_suffix(c) && (is1(pos, 'r') || is1(pos, 'n')) && !must_not_neutral(w))
            || (is_direction_suffix(c) && is_direction_verb(w[n - 2]))
            || (is_locative_suffix(c) && (is1(pos, 's') || is1(pos, 'l') || is1(pos, 'f')))))
}

/// Whether a part of a word's split makes the last syllable of that part neutral.
pub open spec fn neutral_part(sub: Seq<char>, n: int) -> bool {
    must_neutral(sub) || (n > 1 && must_neutral(clamped(sub, n - 2, n)))
}

/// `f` with its last final replaced by `g`.
pub open spec fn set_last(f: Seq<Seq<char>>, g: Seq<char>) -> Seq<Seq<char>> {
    f.update(f.len() - 1, g)
}

/// Repeated noun, verb or adjective syllables are neutral after the first.
pub open spec fn repeat_step(w: Seq<char>, pos: Seq<char>, f: Seq<Seq<char>>) -> Seq<Seq<char>> {
    Seq::new(f.len(), |j: int|
        if 1 <= j < w.len() && w[j] == w[j - 1] && pos.len() > 0 && (pos[0] == 'n' || pos[0] == 'v' || pos[0] == 'a')
            && !must_not_neutral(w) {
            neutral_keep(f[j])
        } else {
            f[j]
        })
}

/// A word-final particle or suffix is neutral.
pub open spec fn ending_step(w: Seq<char>, pos: Seq<char>, f: Seq<Seq<char>>) -> Seq<Seq<char>> {
    if neutral_ending(w, pos) {
        set_last(f, retone(f.last(), '5'))
    } else if is_de(w.last()) {
        set_last(f, neutral_keep(f.last()))
    } else {
        f
    }
}

/// 个 after a number or a quantity word is neutral; without 个, the last
/// syllable of a word that always ends neutral is.
pub open spec fn ge_step(w: Seq<char>, f: Seq<Seq<char>>) -> Seq<Seq<char>> {
    let n = w.len() as int;
    let ge = crate::num::index_of(w, '个');
    if ge < n {
        if ge >= 1 && (numeric(w[ge - 1]) || is_measure_prefix(w[ge - 1])) {
            f.update(ge, retone(f[ge], '5'))
        } else {
            f
        }
    } else if must_neutral(w) || (n > 1 && must_neutral(w.subrange(n - 2, n))) {
        set_last(f, retone(f.last(), '5'))
    } else {
        f
    }
}

/// The last syllable of a part of the split is neutral when the part
/// always ends neutral.
pub open spec fn part_step(part: Seq<Seq<char>>, sub: Seq<char>, n: int) -> Seq<Seq<char>> {
    if neutral_part(sub, n) && part.len() > 0 { set_last(part, retone(part.last(), '5')) } else { part }
}

/// Neutral-tone sandhi of a word tagged `pos`, whose split has the parts
/// `s0` and `s1`: the repeat, ending and 个 rules, then the rule on each
/// part of the split.
pub open spec fn neutral_rule(w: Seq<char>, pos: Seq<char>, f: Seq<Seq<char>>, s0: Seq<char>, s1: Seq<char>) -> Seq<Seq<char>> {
    let n = w.len() as int;
    if n == 0 || f.len() == 0 {
        f
    } else {
        let f3 = ge_step(w, ending_step(w, pos, repeat_step(w, pos, f)));
        part_step(f3.subrange(0, s0.len() as int), s0, n)
            + part_step(f3.subrange(s0.len() as int, f3.len() as int), s1, n)
    }
}

fn neutral_keep_string(f: &String) -> (r: String)
    ensures
        r@ == neutral_keep(f@),
{
    let v = chars_of(f.as_str());
    let mut w = if v.len() <= 1 { slice_chars(&v, 0, v.len()) } else { slice_chars(&v, 0, v.len() - 1) };
    w.push('5');
    assert(v@.subrange(0, v.len() as int) == v@);
    assert(v.len() > 1 ==> v@.subrange(0, v.len() - 1) == v@.drop_last());
    string_of(&w)
}

fn clamped_chars(s: &Vec<char>, a: usize, b: usize) -> (r: Vec<char>)
    ensures
        r@ == clamped(s@, a as int, b as int),
{
    let lo = if a < s.len() { a } else { s.len() };
    let hi = if b < s.len() { b } else { s.len() };
    if lo <= hi { slice_chars(s, lo, hi) } else { Vec::new() }
}

fn neutral_part_chars(sub: &Vec<char>, n: usize) -> (r: bool)
    ensures
        r == neutral_part(sub@, n as int),
{
    is_must_neutral(sub) || (n > 1 && is_must_neutral(&clamped_chars(sub, n - 2, n)))
}

proof fn lemma_toned_parts(f: Seq<Seq<char>>, l: int)
    requires
        all_toned(f),
        0 <= l <= f.len(),
    ensures
        all_toned(f.subrange(0, l)),
        all_toned(f.subrange(l, f.len() as int)),
{
    assert forall|i: int| 0 <= i < f.subrange(0, l).len() implies (#[trigger] f.subrange(0, l)[i]).len() > 0 by {
        assert(f.subrange(0, l)[i] == f[i]);
    }
    assert forall|i: int| 0 <= i < f.subrange(l, f.len() as int).len() implies (#[trigger] f.subrange(l, f.len() as int)[i]).len() > 0 by {
        assert(f.subrange(l, f.len() as int)[i] == f[l + i]);
    }
}

fn repeat_strings(w: &Vec<char>, p: &Vec<char>, finals: &Vec<String>) -> (r: Vec<String>)
    requires
        all_toned(views(finals@)),
    ensures
        views(r@) == repeat_step(w@, p@, views(finals@)),
        all_toned(views(r@)),
        r.len() == finals.len(),
{
    let ghost f = views(finals@);
    let not_neutral = is_must_not_neutral(w);
    let repeat_pos = p.len() > 0 && (p[0] == 'n' || p[0] == 'v' || p[0] == 'a');
    let mut out: Vec<String> = Vec::new();
    let mut j: usize = 0;
    while j < finals.len()
        invariant
            f == views(finals@),
            all_toned(f),
            not_neutral == must_not_neutral(w@),
            repeat_pos == (p@.len() > 0 && (p@[0] == 'n' || p@[0] == 'v' || p@[0] == 'a')),
            j <= finals.len(),
            views(out@) =~= repeat_step(w@, p@, f).subrange(0, j as int),
        decreases finals.len() - j,
    {
        proof {
            lemma_toned(finals@, j as int);
        }
        let item = if 1 <= j && j < w.len() && w[j] == w[j - 1] && repeat_pos && !not_neutral {
            neutral_keep_string(&finals[j])
        } else {
            finals[j].clone()
        };
        proof {
            lemma_views_push(out@, item);
        }
        out.push(item);
        j += 1;
    }
    out
}

fn ending_strings(w: &Vec<char>, p: &Vec<char>, f: Vec<String>) -> (r: Vec<String>)
    requires
        all_toned(views(f@)),
        w.len() > 0,
        f.len() > 0,
    ensures
        views(r@) == ending_step(w@, p@, views(f@)),
        all_toned(views(r@)),
        r.len() == f.len(),
{
    let n = w.len();
    let mut f = f;
    let ghost g = views(f@);
    let last = f.len() - 1;
    let c = w[n - 1];
    let pos_ul = p.len() == 2 && p[0] == 'u' && (p[1] == 'l' || p[1] == 'z' || p[1] == 'g');
    let pos_rn = p.len() == 1 && (p[0] == 'r' || p[0] == 'n');
    let pos_slf = p.len() == 1 && (p[0] == 's' || p[0] == 'l' || p[0] == 'f');
    let ending = is_modal_particle_char(c)
        || (n == 1 && is_aspect_particle_char(c) && pos_ul)
        || (n > 1 && ((is_plural_suffix_char(c) && pos_rn && !is_must_not_neutral(w))
            || (is_direction_suffix_char(c) && is_direction_verb_char(w[n - 2]))
            || (is_locative_suffix_char(c) && pos_slf)));
    proof {
        lemma_toned(f@, last as int);
    }
    if ending {
        retone_at(&mut f, last, '5');
    } else if is_de_char(c) {
        let t = neutral_keep_string(&f[last]);
        f.set(last, t);
        assert(views(f@) =~= set_last(g, neutral_keep(g.last())));
    }
    assert(all_toned(views(f@)));
    f
}

fn ge_strings(w: &Vec<char>, f: Vec<String>) -> (r: Vec<String>)
    requires
        all_toned(views(f@)),
        w.len() > 0,
        f.len() == w.len(),
    ensures
        views(r@) == ge_step(w@, views(f@)),
        all_toned(views(r@)),
        r.len() == f.len(),
{
    let n = w.len();
    let mut f = f;
    let last = f.len() - 1;
    let ge = crate::num::find_char(w, '个');
    if ge < n {
        if ge >= 1 && (char_is_numeric(w[ge - 1]) || is_measure_prefix_char(w[ge - 1])) {
            proof {
                lemma_toned(f@, ge as int);
            }
            retone_at(&mut f, ge, '5');
        }
    } else if is_must_neutral(w) || (n > 1 && is_must_neutral(&slice_chars(w, n - 2, n))) {
        proof {
            lemma_toned(f@, last as int);
        }
        retone_at(&mut f, last, '5');
    }
    assert(all_toned(views(f@)));
    f
}

fn part_strings(part: Vec<String>, sub: &Vec<char>, n: usize) -> (r: Vec<String>)
    requires
        all_toned(views(part@)),
    ensures
        views(r@) == part_step(views(part@), sub@, n as int),
        all_toned(views(r@)),
{
    let mut part = part;
    if neutral_part_chars(sub, n) && part.len() > 0 {
        let k = part.len() - 1;
        proof {
            lemma_toned(part@, k as int);
        }
        retone_at(&mut part, k, '5');
    }
    assert(all_toned(views(part@)));
    part
}

fn merge_finals_strings(seg: &Vec<(String, String)>) -> (r: Vec<Vec<String>>)
    ensures
        r.len() == seg.len(),
        final_lists(r@) == merge_finals(tagged(seg@)),
{
    let ghost s = tagged(seg@);
    let mut out: Vec<Vec<String>> = Vec::new();
    let mut i: usize = 0;
    while i < seg.len()
        invariant
            s == tagged(seg@),
            i <= seg.len(),
            out.len() == i,
            forall|k: int| 0 <= k < i ==> views((#[trigger] out@[k])@) == merge_finals(s)[k],
        decreases seg.len() - i,
    {
        assert(s[i as int] == (seg@[i as int].0@, seg@[i as int].1@));
        let w = chars_of(seg[i].0.as_str());
        let item = if w.len() == 0 {
            let mut v: Vec<String> = Vec::new();
            let e = seg[i].0.clone();
            proof {
                lemma_views_push(v@, e);
            }
            v.push(e);
            v
        } else {
            get_pinyin(seg[i].0.as_str(), true)
        };
        assert(views(item@) =~= merge_finals(s)[i as int]);
        out.push(item);
        i += 1;
    }
    assert(final_lists(out@) =~= merge_finals(s));
    out
}

/// Tone sandhi rules of Mandarin.
pub struct ToneSandhi;

impl ToneSandhi {
    pub fn new() -> Self {
        ToneSandhi
    }

    /// Whether every final of the list carries tone three.
    pub fn all_tone_three(finals: &Vec<String>) -> (r: bool)
        ensures
            r == all_three(views(finals@)),
    {
        let mut i: usize = 0;
        while i < finals.len()
            invariant
                i <= finals.len(),
                forall|k: int| 0 <= k < i ==> is_tone_three(#[trigger] views(finals@)[k]),
            decreases finals.len() - i,
        {
            let f = chars_of(finals[i].as_str());
            if f.len() == 0 || f[f.len() - 1] != '3' {
                assert(!is_tone_three(views(finals@)[i as int]));
                return false;
            }
            i += 1;
        }
        true
    }

    /// Whether a word is one character said twice.
    pub fn is_reduplication(word: &str) -> (r: bool)
        ensures
            r == reduplicated(word@),
    {
        let w = chars_of(word);
        w.len() == 2 && w[0] == w[1]
    }

    /// 不 sandhi (see `bu_rule`).
    pub fn bu_sandhi(word: &str, finals: Vec<String>) -> (r: Vec<String>)
        requires
            all_toned(views(finals@)),
        ensures
            views(r@) == bu_rule(word@, views(finals@)),
            r.len() == finals.len(),
            all_toned(views(r@)),
    {
        let w = chars_of(word);
        let ghost f = views(finals@);
        let mut finals = finals;
        if w.len() == 3 && w[1] == '不' {
            if finals.len() > 1 {
                proof {
                    lemma_toned(finals@, 1);
                }
                let t = retone_string(&finals[1], '5');
                finals.set(1, t);
                assert(views(finals@) =~= f.update(1, retone(f[1], '5')));
            }
            return finals;
        }
        let mut out: Vec<String> = Vec::new();
        let mut i: usize = 0;
        while i < finals.len()
            invariant
                f == views(finals@),
                all_toned(f),
                i <= finals.len(),
                w@ == word@,
                !(w@.len() == 3 && w@[1] == '不'),
                views(out@) =~= bu_rule(word@, f).subrange(0, i as int),
            decreases finals.len() - i,
        {
            proof {
                lemma_toned(finals@, i as int);
                if i + 1 < finals.len() {
                    lemma_toned(finals@, i + 1);
                }
            }
            let item = if i + 1 < w.len() && w[i] == '不' && i + 1 < finals.len()
                && last_char(&finals[i + 1]) == '4' {
                retone_string(&finals[i], '2')
            } else {
                finals[i].clone()
            };
            proof {
                lemma_views_push(out@, item);
            }
            out.push(item);
            i += 1;
        }
        out
    }

    /// Merges `V 一 V` into one word and a lone 一 with the word after it
    /// (see `yi_merged`).
    pub fn merge_yi(seg_cut: &Vec<(String, String)>) -> (r: Vec<(String, String)>)
        ensures
            tagged(r@) == yi_merged(tagged(seg_cut@)),
    {
        let ghost s = tagged(seg_cut@);
        let n = seg_cut.len();
        let mut result: Vec<(String, String)> = Vec::new();
        let mut i: usize = 0;
        while i < n
            invariant
                n == seg_cut.len(),
                s == tagged(seg_cut@),
                i <= n,
                tagged(result@) == yi_fold(s, i as int),
            decreases n - i,
        {
            proof {
                assert(s[i as int] == (seg_cut@[i as int].0@, seg_cut@[i as int].1@));
                if i > 0 {
                    assert(s[i - 1] == (seg_cut@[i - 1].0@, seg_cut@[i - 1].1@));
                }
                if i + 1 < n {
                    assert(s[i + 1] == (seg_cut@[i + 1].0@, seg_cut@[i + 1].1@));
                }
                if i >= 2 {
                    assert(s[i - 2] == (seg_cut@[i - 2].0@, seg_cut@[i - 2].1@));
                }
            }
            let between = eq_one(&seg_cut[i].0, '一') && i > 0 && i + 1 < n
                && strings_equal(&seg_cut[i - 1].0, &seg_cut[i + 1].0) && eq_one(&seg_cut[i - 1].1, 'v')
                && eq_one(&seg_cut[i + 1].1, 'v');
            if between {
                if result.len() > 0 {
                    let mut w: Vec<char> = Vec::new();
                    w.push('一');
                    let next = chars_of(seg_cut[i + 1].0.as_str());
                    extend_chars(&mut w, &next);
                    assert(w@ == seq!['一'] + s[i + 1].0);
                    append_to_last(&mut result, &w);
                }
            } else if i >= 2 && eq_one(&seg_cut[i - 1].0, '一') && strings_equal(&seg_cut[i - 2].0, &seg_cut[i].0)
                && eq_one(&seg_cut[i].1, 'v') {
            } else {
                push_tagged(&mut result, &seg_cut[i]);
            }
            i += 1;
        }
        let ghost r1 = tagged(result@);
        let m = result.len();
        let mut acc: Vec<(String, String)> = Vec::new();
        let mut j: usize = 0;
        while j < m
            invariant
                m == result.len(),
                r1 == tagged(result@),
                r1 == yi_fold(s, n as int),
                s == tagged(seg_cut@),
                n == seg_cut.len(),
                j <= m,
                tagged(acc@) == yi_attach(r1, j as int),
            decreases m - j,
        {
            proof {
                assert(r1[j as int] == (result@[j as int].0@, result@[j as int].1@));
            }
            if acc.len() > 0 && eq_one(&acc[acc.len() - 1].0, '一') {
                proof {
                    assert(tagged(acc@).last() == (acc@[acc.len() - 1].0@, acc@[acc.len() - 1].1@));
                }
                let w = chars_of(result[j].0.as_str());
                append_to_last(&mut acc, &w);
            } else {
                proof {
                    if acc.len() > 0 {
                        assert(tagged(acc@).last() == (acc@[acc.len() - 1].0@, acc@[acc.len() - 1].1@));
                    }
                }
                push_tagged(&mut acc, &result[j]);
            }
            j += 1;
        }
        acc
    }

    /// Attaches 儿 to the word before it (see `er_fold`).
    pub fn merge_er(seg_cut: &Vec<(String, String)>) -> (r: Vec<(String, String)>)
        ensures
            tagged(r@) == er_fold(tagged(seg_cut@), seg_cut@.len() as int),
    {
        let ghost s = tagged(seg_cut@);
        let mut out: Vec<(String, String)> = Vec::new();
        let mut i: usize = 0;
        while i < seg_cut.len()
            invariant
                s == tagged(seg_cut@),
                i <= seg_cut.len(),
                tagged(out@) == er_fold(s, i as int),
            decreases seg_cut.len() - i,
        {
            proof {
                assert(s[i as int] == (seg_cut@[i as int].0@, seg_cut@[i as int].1@));
                if i > 0 {
                    assert(s[i - 1] == (seg_cut@[i - 1].0@, seg_cut@[i - 1].1@));
                }
            }
            if i > 0 && eq_one(&seg_cut[i].0, '儿') && !eq_one(&seg_cut[i - 1].0, '#') {
                if out.len() > 0 {
                    let w = chars_of(seg_cut[i].0.as_str());
                    append_to_last(&mut out, &w);
                }
            } else {
                push_tagged(&mut out, &seg_cut[i]);
            }
            i += 1;
        }
        out
    }

    /// Joins a word to the word before it when the two are equal (see `redup_fold`).
    pub fn merge_reduplication(seg_cut: &Vec<(String, String)>) -> (r: Vec<(String, String)>)
        ensures
            tagged(r@) == redup_fold(tagged(seg_cut@), seg_cut@.len() as int),
    {
        let ghost s = tagged(seg_cut@);
        let mut out: Vec<(String, String)> = Vec::new();
        let mut i: usize = 0;
        while i < seg_cut.len()
            invariant
                s == tagged(seg_cut@),
                i <= seg_cut.len(),
                tagged(out@) == redup_fold(s, i as int),
            decreases seg_cut.len() - i,
        {
            proof {
                assert(s[i as int] == (seg_cut@[i as int].0@, seg_cut@[i as int].1@));
                if out.len() > 0 {
                    assert(tagged(out@).last() == (out@[out.len() - 1].0@, out@[out.len() - 1].1@));
                }
            }
            if out.len() > 0 && strings_equal(&out[out.len() - 1].0, &seg_cut[i].0) {
                let w = chars_of(seg_cut[i].0.as_str());
                append_to_last(&mut out, &w);
            } else {
                push_tagged(&mut out, &seg_cut[i]);
            }
            i += 1;
        }
        out
    }

    /// Attaches 不 to the word after it (see `bu_merged`).
    pub fn merge_bu(seg_cut: &Vec<(String, String)>) -> (r: Vec<(String, String)>)
        ensures
            tagged(r@) == bu_merged(tagged(seg_cut@)),
    {
        let ghost s = tagged(seg_cut@);
        let mut out: Vec<(String, String)> = Vec::new();
        let mut last: Vec<char> = Vec::new();
        let mut i: usize = 0;
        while i < seg_cut.len()
            invariant
                s == tagged(seg_cut@),
                i <= seg_cut.len(),
                (tagged(out@), last@) == bu_fold(s, i as int),
            decreases seg_cut.len() - i,
        {
            proof {
                assert(s[i as int] == (seg_cut@[i as int].0@, seg_cut@[i as int].1@));
            }
            let word = chars_of(seg_cut[i].0.as_str());
            let merged = if last.len() == 1 && last[0] == '不' {
                let mut m = slice_chars(&last, 0, last.len());
                extend_chars(&mut m, &word);
                assert(last@.subrange(0, last@.len() as int) == last@);
                m
            } else {
                word
            };
            if !(merged.len() == 1 && merged[0] == '不') {
                let p = (string_of(&merged), seg_cut[i].1.clone());
                push_tagged(&mut out, &p);
            }
            last = merged;
            i += 1;
        }
        if last.len() == 1 && last[0] == '不' {
            let mut d: Vec<char> = Vec::new();
            d.push('d');
            assert(d@ == seq!['d']);
            let p = (string_of(&last), string_of(&d));
            push_tagged(&mut out, &p);
        }
        out
    }

    /// The merges before sandhi (see `pre_merged`).
    pub fn pre_merge_for_modify(&self, seg_cut: &Vec<(String, String)>) -> (r: Vec<(String, String)>)
        ensures
            tagged(r@) == pre_merged(tagged(seg_cut@)),
    {
        let s1 = ToneSandhi::merge_bu(seg_cut);
        let s2 = ToneSandhi::merge_yi(&s1);
        let s3 = ToneSandhi::merge_reduplication(&s2);
        let f3 = merge_finals_strings(&s3);
        let s4 = ToneSandhi::merge_continuous_three_tones(&s3, &f3);
        let f4 = merge_finals_strings(&s4);
        let s5 = ToneSandhi::merge_continuous_three_tones_2(&s4, &f4);
        ToneSandhi::merge_er(&s5)
    }

    /// Coalesces neighbouring words that are tone three throughout (see
    /// `three_fold`); `sub_finals` holds the toned finals of each word.
    pub fn merge_continuous_three_tones(seg_cut: &Vec<(String, String)>, sub_finals: &Vec<Vec<String>>) -> (r: Vec<(String, String)>)
        requires
            sub_finals.len() == seg_cut.len(),
        ensures
            tagged(r@) == three_fold(tagged(seg_cut@), final_lists(sub_finals@), true, seg_cut@.len() as int).0,
    {
        three_merge(seg_cut, sub_finals, true)
    }

    /// Coalesces neighbouring words that meet on tone three (see
    /// `three_fold`); `sub_finals` holds the toned finals of each word.
    pub fn merge_continuous_three_tones_2(seg_cut: &Vec<(String, String)>, sub_finals: &Vec<Vec<String>>) -> (r: Vec<(String, String)>)
        requires
            sub_finals.len() == seg_cut.len(),
        ensures
            tagged(r@) == three_fold(tagged(seg_cut@), final_lists(sub_finals@), false, seg_cut@.len() as int).0,
    {
        three_merge(seg_cut, sub_finals, false)
    }

    /// Three-tone sandhi of a word (see `three_rule`); `word_list` is the
    /// word's split into two parts, with one toned final per character.
    pub fn three_sandhi(&self, word: &str, finals: Vec<String>, word_list: &Vec<String>) -> (r: Vec<String>)
        requires
            all_toned(views(finals@)),
            finals.len() == word@.len(),
            word@.len() == 3 ==> word_list.len() >= 1 && word_list@[0]@.len() <= 3,
        ensures
            views(r@) == three_rule(word@, views(finals@),
                if word_list.len() > 0 { word_list@[0]@.len() as int } else { 0 }),
    {
        let w = chars_of(word);
        let ghost f = views(finals@);
        let mut finals = finals;
        if finals.len() == 0 {
            return finals;
        }
        proof {
            lemma_toned(finals@, 0);
            if finals.len() > 1 {
                lemma_toned(finals@, 1);
            }
        }
        if w.len() == 2 {
            if ToneSandhi::all_tone_three(&finals) {
                retone_at(&mut finals, 0, '2');
            }
            finals
        } else if w.len() == 3 {
            let l = chars_of(word_list[0].as_str()).len();
            if ToneSandhi::all_tone_three(&finals) && finals.len() >= 2 {
                if l == 2 {
                    retone_at(&mut finals, 0, '2');
                    assert(finals@[1]@ == views(finals@)[1]);
                    retone_at(&mut finals, 1, '2');
                } else if l == 1 {
                    retone_at(&mut finals, 1, '2');
                }
                finals
            } else {
                let mut a = slice_strings(&finals, 0, l);
                let mut b = slice_strings(&finals, l, finals.len());
                proof {
                    assert(all_toned(views(a@)));
                    assert(all_toned(views(b@)));
                }
                if a.len() == 2 && ToneSandhi::all_tone_three(&a) {
                    proof {
                        lemma_toned(a@, 0);
                    }
                    retone_at(&mut a, 0, '2');
                }
                let ghost a1 = views(a@);
                proof {
                    assert(all_toned(views(a@)));
                }
                let b_three = ToneSandhi::all_tone_three(&b);
                if b_three && b.len() == 2 {
                    proof {
                        lemma_toned(b@, 0);
                    }
                    retone_at(&mut b, 0, '2');
                } else if !b_three && a.len() > 0 {
                    proof {
                        lemma_toned(a@, a.len() - 1);
                        lemma_toned(b@, 0);
                    }
                    let last = a.len() - 1;
                    if last_char(&a[last]) == '3' && last_char(&b[0]) == '3' {
                        retone_at(&mut a, last, '2');
                    }
                }
                concat_strings(a, &b)
            }
        } else if w.len() == 4 {
            let a = slice_strings(&finals, 0, 2);
            let b = slice_strings(&finals, 2, finals.len());
            proof {
                assert(all_toned(views(a@)));
                assert(all_toned(views(b@)));
            }
            let a = first_rises_strings(a);
            let b = first_rises_strings(b);
            concat_strings(a, &b)
        } else {
            finals
        }
    }

    /// Neutral-tone sandhi of a word (see `neutral_rule`); `word_list` is
    /// the word's split into two parts, with one toned final per character.
    pub fn neural_sandhi(&self, word: &str, pos: &str, finals: Vec<String>, word_list: &Vec<String>) -> (r: Vec<String>)
        requires
            all_toned(views(finals@)),
            finals.len() == word@.len(),
            word_list.len() == 2,
            word_list@[0]@.len() + word_list@[1]@.len() == word@.len(),
        ensures
            views(r@) == neutral_rule(word@, pos@, views(finals@), word_list@[0]@, word_list@[1]@),
            r.len() == finals.len(),
            all_toned(views(r@)),
    {
        let w = chars_of(word);
        let p = chars_of(pos);
        if w.len() == 0 || finals.len() == 0 {
            return finals;
        }
        let f1 = repeat_strings(&w, &p, &finals);
        let f2 = ending_strings(&w, &p, f1);
        let f3 = ge_strings(&w, f2);
        let s0 = chars_of(word_list[0].as_str());
        let s1 = chars_of(word_list[1].as_str());
        let l = s0.len();
        proof {
            lemma_toned_parts(views(f3@), l as int);
        }
        let a = part_strings(slice_strings(&f3, 0, l), &s0, w.len());
        let b = part_strings(slice_strings(&f3, l, f3.len()), &s1, w.len());
        let r = concat_strings(a, &b);
        proof {
            assert(all_toned(views(r@)));
        }
        r
    }

    /// All tone sandhi of a word tagged `pos`, split by the segmenter (see
    /// `WordSplitter::split_word`): 不, 一, neutral tone, then three tones.
    /// A word that the segmenter does not split in two (only the empty
    /// word) gets the 不 and 一 rules alone.
    pub fn modified_tone(&self, word: &str, pos: &str, finals: Vec<String>, splitter: &WordSplitter) -> (r: Vec<String>)
        requires
            all_toned(views(finals@)),
            finals.len() == word@.len(),
        ensures
            views(r@) == modified_rule(word@, pos@, views(finals@)),
    {
        let parts = splitter.split_word(word);
        if parts.len() == 2 {
            self.modified_tone_split(word, pos, finals, &parts)
        } else {
            let f = ToneSandhi::bu_sandhi(word, finals);
            self.yi_sandhi(word, f)
        }
    }

    /// All tone sandhi of a word tagged `pos`: 不, 一, neutral tone, then
    /// three tones; `word_list` is the word's split into two parts, with one
    /// toned final per character.
    pub fn modified_tone_split(&self, word: &str, pos: &str, finals: Vec<String>, word_list: &Vec<String>) -> (r: Vec<String>)
        requires
            all_toned(views(finals@)),
            finals.len() == word@.len(),
            word_list.len() == 2,
            word_list@[0]@.len() + word_list@[1]@.len() == word@.len(),
        ensures
            views(r@) == three_rule(word@, neutral_rule(word@, pos@, yi_rule(word@, bu_rule(word@, views(finals@))),
                word_list@[0]@, word_list@[1]@), word_list@[0]@.len() as int),
    {
        let f = ToneSandhi::bu_sandhi(word, finals);
        let f = self.yi_sandhi(word, f);
        let f = self.neural_sandhi(word, pos, f, word_list);
        self.three_sandhi(word, f, word_list)
    }

    /// 一 sandhi (see `yi_rule`).
    pub fn yi_sandhi(&self, word: &str, finals: Vec<String>) -> (r: Vec<String>)
        requires
            all_toned(views(finals@)),
        ensures
            views(r@) == yi_rule(word@, views(finals@)),
            r.len() == finals.len(),
            all_toned(views(r@)),
    {
        let w = chars_of(word);
        let ghost f = views(finals@);
        let mut finals = finals;
        if w.len() == 0 || is_yi_number_chars(&w) {
            return finals;
        }
        if w.len() == 3 && w[1] == '一' && w[0] == w[2] {
            if finals.len() > 2 {
                proof {
                    lemma_toned(finals@, 1);
                }
                let t = retone_string(&finals[1], '5');
                finals.set(1, t);
                assert(views(finals@) =~= f.update(1, retone(f[1], '5')));
            }
            return finals;
        }
        if w.len() >= 2 && w[0] == '第' && w[1] == '一' {
            if finals.len() > 2 {
                proof {
                    lemma_toned(finals@, 1);
                }
                let t = retone_string(&finals[1], '1');
                finals.set(1, t);
                assert(views(finals@) =~= f.update(1, retone(f[1], '1')));
            }
            return finals;
        }
        let mut out: Vec<String> = Vec::new();
        let mut i: usize = 0;
        while i < finals.len()
            invariant
                f == views(finals@),
                all_toned(f),
                i <= finals.len(),
                w@ == word@,
                !(w@.len() == 0 || is_yi_number(w@)),
                !(w@.len() == 3 && w@[1] == '一' && w@[0] == w@[2]),
                !(w@.len() >= 2 && w@[0] == '第' && w@[1] == '一'),
                views(out@) =~= yi_rule(word@, f).subrange(0, i as int),
            decreases finals.len() - i,
        {
            proof {
                lemma_toned(finals@, i as int);
                if i + 1 < finals.len() {
                    lemma_toned(finals@, i + 1);
                }
            }
            let item = if i + 1 < w.len() && w[i] == '一' && i + 1 < finals.len() {
                if last_char(&finals[i + 1]) == '4' {
                    retone_string(&finals[i], '2')
                } else if !is_sandhi_punct_char(w[i + 1]) {
                    retone_string(&finals[i], '4')
                } else {
                    finals[i].clone()
                }
            } else {
                finals[i].clone()
            };
            proof {
                lemma_views_push(out@, item);
            }
            out.push(item);
            i += 1;
        }
        out
    }
}

} // verus!
