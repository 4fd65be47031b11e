//! The Chinese text normaliser: sentence splitting, traditional to
//! simplified characters, full-width to half-width forms, the readings of
//! dates, quantities, telephone numbers and numbers, and the final removal
//! of symbols that the phoneme front-end cannot voice.
use vstd::prelude::*;
use crate::chars::{chars_of, extend_chars, lemma_views_push, slice_chars, string_of, views};
use crate::chronology::{chronology_read, Chronology};
use crate::num::{normalized_numbers, Num};
use crate::phonecode::{char_is_whitespace, phones_read, whitespace, Phonecode};
use crate::quantifier::{measure_units, quantities_read, unit_views, Quantifier};

verus! {

/// Whether a symbol is turned into a comma before sentences are split.
pub open spec fn is_pause_symbol(c: char) -> bool {
    c == '—' || c == '《' || c == '》' || c == '【' || c == '】' || c == '<' || c == '=' || c == '>'
        || c == '{' || c == '}' || c == '(' || c == ')' || c == '（' || c == '）' || c == '#' || c == '&'
        || c == '@' || c == '“' || c == '”' || c == '^' || c == '_' || c == '|' || c == '…' || c == '\\'
}

/// Whether a symbol is dropped from a normalised sentence:
/// `——《》【】<=>{}()（）#&@"^_|…\`.
pub open spec fn is_dropped_symbol(c: char) -> bool {
    c == '—' || c == '《' || c == '》' || c == '【' || c == '】' || c == '<' || c == '=' || c == '>'
        || c == '{' || c == '}' || c == '(' || c == ')' || c == '（' || c == '）' || c == '#' || c == '&'
        || c == '@' || c == '"' || c == '^' || c == '_' || c == '|' || c == '…' || c == '\\'
}

fn is_dropped_symbol_char(c: char) -> (r: bool)
    ensures
        r == is_dropped_symbol(c),
{
    c == '—' || c == '《' || c == '》' || c == '【' || c == '】' || c == '<' || c == '=' || c == '>'
        || c == '{' || c == '}' || c == '(' || c == ')' || c == '（' || c == '）' || c == '#' || c == '&'
        || c == '@' || c == '"' || c == '^' || c == '_' || c == '|' || c == '…' || c == '\\'
}

/// Whether a character ends a sentence.
pub open spec fn ends_sentence(c: char) -> bool {
    c == '：' || c == '、' || c == '，' || c == '；' || c == '。' || c == '？' || c == '！' || c == ','
        || c == ';' || c == '?' || c == '!'
}

fn is_pause_symbol_char(c: char) -> (r: bool)
    ensures
        r == is_pause_symbol(c),
{
    c == '—' || c == '《' || c == '》' || c == '【' || c == '】' || c == '<' || c == '=' || c == '>'
        || c == '{' || c == '}' || c == '(' || c == ')' || c == '（' || c == '）' || c == '#' || c == '&'
        || c == '@' || c == '“' || c == '”' || c == '^' || c == '_' || c == '|' || c == '…' || c == '\\'
}

fn ends_sentence_char(c: char) -> (r: bool)
    ensures
        r == ends_sentence(c),
{
    c == '：' || c == '、' || c == '，' || c == '；' || c == '。' || c == '？' || c == '！' || c == ','
        || c == ';' || c == '?' || c == '!'
}

/// The simplified form of `c` by the first `n` pairs of a
/// traditional-to-simplified table: the last pair for `c` wins.
pub open spec fn simplified_by(pairs: Seq<(char, char)>, c: char, n: int) -> char
    decreases n,
{
    if n <= 0 {
        c
    } else if pairs[n - 1].0 == c {
        pairs[n - 1].1
    } else {
        simplified_by(pairs, c, n - 1)
    }
}

/// A sentence written with simplified characters.
pub open spec fn simplified(pairs: Seq<(char, char)>, s: Seq<char>) -> Seq<char> {
    s.map_values(|c: char| simplified_by(pairs, c, pairs.len() as int))
}

/// The half-width form of a full-width letter or digit or of the
/// ideographic space; any other character is kept.
pub open spec fn halfwidth(c: char) -> char {
    if ('Ａ' <= c && c <= 'Ｚ') || ('ａ' <= c && c <= 'ｚ') || ('０' <= c && c <= '９') {
        ((c as u32 - 0xFEE0) as u8) as char
    } else if c == '\u{3000}' {
        ' '
    } else {
        c
    }
}

fn halfwidth_char(c: char) -> (r: char)
    ensures
        r == halfwidth(c),
{
    if ('Ａ' <= c && c <= 'Ｚ') || ('ａ' <= c && c <= 'ｚ') || ('０' <= c && c <= '９') {
        ((c as u32 - 0xFEE0) as u8) as char
    } else if c == '\u{3000}' {
        ' '
    } else {
        c
    }
}

/// `s` with `key` replaced by `value` from `i` on, left to right, where
/// `key` is not empty.
pub open spec fn replaced_from(s: Seq<char>, key: Seq<char>, value: Seq<char>, i: int) -> Seq<char>
    decreases s.len() - i,
{
    if i < 0 || i >= s.len() {
        seq![]
    } else if key.len() > 0 && crate::quantifier::has_at(s, i, key) {
        value + replaced_from(s, key, value, i + key.len())
    } else {
        seq![s[i]] + replaced_from(s, key, value, i + 1)
    }
}

/// `s` with the first `n` replacements of `map` made, one after the other.
pub open spec fn mapped(s: Seq<char>, map: Seq<(Seq<char>, Seq<char>)>, n: int) -> Seq<char>
    decreases n,
{
    if n <= 0 { s } else { replaced_from(mapped(s, map, n - 1), map[n - 1].0, map[n - 1].1, 0) }
}

/// `s` without the dropped symbols.
pub open spec fn without_dropped(s: Seq<char>) -> Seq<char>
    decreases s.len(),
{
    if s.len() == 0 {
        s
    } else if is_dropped_symbol(s.last()) {
        without_dropped(s.drop_last())
    } else {
        without_dropped(s.drop_last()).push(s.last())
    }
}

/// The views of a replacement table.
pub open spec fn map_views(m: Seq<(String, String)>) -> Seq<(Seq<char>, Seq<char>)> {
    m.map_values(|p: (String, String)| (p.0@, p.1@))
}

/// A sentence normalised: simplified, half-width, with dates, quantities,
/// telephone numbers and numbers read, the symbol replacements made and
/// the dropped symbols removed.
pub open spec fn normalized_sentence(pairs: Seq<(char, char)>, map: Seq<(Seq<char>, Seq<char>)>, s: Seq<char>) -> Seq<char> {
    let t = simplified(pairs, s).map_values(|c: char| halfwidth(c));
    let r = normalized_numbers(phones_read(quantities_read(chronology_read(t))));
    without_dropped(mapped(r, map, map.len() as int))
}

pub proof fn lemma_without_dropped(s: Seq<char>)
    ensures
        forall|k: int| 0 <= k < without_dropped(s).len() ==> !is_dropped_symbol(#[trigger] without_dropped(s)[k]),
    decreases s.len(),
{
    if s.len() > 0 {
        lemma_without_dropped(s.drop_last());
        let w = without_dropped(s.drop_last());
        if !is_dropped_symbol(s.last()) {
            assert forall|k: int| 0 <= k < w.push(s.last()).len() implies !is_dropped_symbol(#[trigger] w.push(s.last())[k]) by {
                if k < w.len() {
                    assert(w.push(s.last())[k] == w[k]);
                }
            }
        }
    }
}

/// A normalised sentence holds none of the dropped symbols
/// `——《》【】<=>{}()（）#&@"^_|…\`.
pub proof fn lemma_normalized_sentence_clean(pairs: Seq<(char, char)>, map: Seq<(Seq<char>, Seq<char>)>, s: Seq<char>)
    ensures
        forall|k: int| 0 <= k < normalized_sentence(pairs, map, s).len()
            ==> !is_dropped_symbol(#[trigger] normalized_sentence(pairs, map, s)[k]),
{
    let t = simplified(pairs, s).map_values(|c: char| halfwidth(c));
    let r = normalized_numbers(phones_read(quantities_read(chronology_read(t))));
    lemma_without_dropped(mapped(r, map, map.len() as int));
}

fn map_chars(v: &Vec<char>, pairs: &Vec<(char, char)>) -> (r: Vec<char>)
    ensures
        r@ == simplified(pairs@, v@).map_values(|c: char| halfwidth(c)),
{
    let mut out: Vec<char> = Vec::new();
    let mut i: usize = 0;
    while i < v.len()
        invariant
            i <= v.len(),
            out@ =~= simplified(pairs@, v@.subrange(0, i as int)).map_values(|c: char| halfwidth(c)),
        decreases v.len() - i,
    {
        let c = v[i];
        let mut n: usize = pairs.len();
        while n > 0 && pairs[n - 1].0 != c
            invariant
                n <= pairs.len(),
                simplified_by(pairs@, c, n as int) == simplified_by(pairs@, c, pairs.len() as int),
            decreases n,
        {
            n -= 1;
        }
        let t = if n > 0 { pairs[n - 1].1 } else { c };
        out.push(halfwidth_char(t));
        i += 1;
    }
    assert(v@.subrange(0, v.len() as int) == v@);
    out
}

/// `v` with every `key` replaced by `value`, left to right.
pub fn replace_all_chars(v: &Vec<char>, key: &Vec<char>, value: &Vec<char>) -> (r: Vec<char>)
    ensures
        r@ == replaced_from(v@, key@, value@, 0),
{
    replace_chars(v, key, value)
}

fn replace_chars(v: &Vec<char>, key: &Vec<char>, value: &Vec<char>) -> (r: Vec<char>)
    ensures
        r@ == replaced_from(v@, key@, value@, 0),
{
    let mut out: Vec<char> = Vec::new();
    let mut i: usize = 0;
    while i < v.len()
        invariant
            i <= v.len(),
            out@ + replaced_from(v@, key@, value@, i as int) == replaced_from(v@, key@, value@, 0),
        decreases v.len() - i,
    {
        if key.len() > 0 && crate::quantifier::has_at_chars(v, i, key) {
            assert(out@ + replaced_from(v@, key@, value@, i as int) == (out@ + value@) + replaced_from(v@, key@, value@, i + key.len()));
            extend_chars(&mut out, value);
            i = i + key.len();
        } else {
            assert(out@ + replaced_from(v@, key@, value@, i as int) == out@.push(v@[i as int]) + replaced_from(v@, key@, value@, i + 1));
            out.push(v[i]);
            i += 1;
        }
    }
    assert(out@ + Seq::<char>::empty() == out@);
    out
}

fn drop_chars(v: &Vec<char>) -> (r: Vec<char>)
    ensures
        r@ == without_dropped(v@),
{
    let mut out: Vec<char> = Vec::new();
    let mut i: usize = 0;
    while i < v.len()
        invariant
            i <= v.len(),
            out@ == without_dropped(v@.subrange(0, i as int)),
        decreases v.len() - i,
    {
        assert(v@.subrange(0, i + 1).drop_last() == v@.subrange(0, i as int));
        if !is_dropped_symbol_char(v[i]) {
            out.push(v[i]);
        }
        i += 1;
    }
    assert(v@.subrange(0, v.len() as int) == v@);
    out
}

/// `s` with each run of commas written as one comma.
pub open spec fn collapse_commas(s: Seq<char>) -> Seq<char>
    decreases s.len(),
{
    if s.len() == 0 {
        s
    } else {
        let t = collapse_commas(s.drop_last());
        if s.last() == ',' && t.len() > 0 && t.last() == ',' { t } else { t.push(s.last()) }
    }
}

/// A Chinese sentence prepared for splitting: no spaces, pause symbols
/// written as commas, runs of commas as one.
pub open spec fn pauses_as_commas(s: Seq<char>) -> Seq<char> {
    collapse_commas(crate::pinyin::without_char(s, ' ').map_values(|c: char| if is_pause_symbol(c) { ',' } else { c }))
}

/// `s` from `i` on with a line break after each sentence end and the
/// closing quote that may follow it.
pub open spec fn marked_from(s: Seq<char>, i: int) -> Seq<char>
    decreases s.len() - i,
{
    if i < 0 || i >= s.len() {
        seq![]
    } else if ends_sentence(s[i]) {
        if i + 1 < s.len() && (s[i + 1] == '”' || s[i + 1] == '’') {
            seq![s[i], s[i + 1], '\n'] + marked_from(s, i + 2)
        } else {
            seq![s[i], '\n'] + marked_from(s, i + 1)
        }
    } else {
        seq![s[i]] + marked_from(s, i + 1)
    }
}

/// `s` without white space at its start.
pub open spec fn trim_ws_start(s: Seq<char>) -> Seq<char>
    decreases s.len(),
{
    if s.len() > 0 && whitespace(s[0]) { trim_ws_start(s.drop_first()) } else { s }
}

/// `s` without white space at its end.
pub open spec fn trim_ws_end(s: Seq<char>) -> Seq<char>
    decreases s.len(),
{
    if s.len() > 0 && whitespace(s.last()) { trim_ws_end(s.drop_last()) } else { s }
}

/// `s` without white space at either end.
pub open spec fn trim_ws(s: Seq<char>) -> Seq<char> {
    trim_ws_end(trim_ws_start(s))
}

/// The sentences of the first `n` characters of `t`: each line up to and
/// with its line break, trimmed, kept when not empty; and the line being read.
pub open spec fn line_pieces(t: Seq<char>, n: int) -> (Seq<Seq<char>>, Seq<char>)
    decreases n,
{
    if n <= 0 {
        (seq![], seq![])
    } else {
        let (done, cur) = line_pieces(t, n - 1);
        if t[n - 1] == '\n' {
            let p = trim_ws(cur.push('\n'));
            (if p.len() > 0 { done.push(p) } else { done }, seq![])
        } else {
            (done, cur.push(t[n - 1]))
        }
    }
}

/// The sentences of a text; a Chinese one (`zh`) has its spaces removed
/// and its pause symbols written as commas first.
pub open spec fn split_sentences(s: Seq<char>, zh: bool) -> Seq<Seq<char>> {
    let t = trim_ws(marked_from(if zh { pauses_as_commas(s) } else { s }, 0));
    let (done, cur) = line_pieces(t, t.len() as int);
    let p = trim_ws(cur);
    if p.len() > 0 { done.push(p) } else { done }
}

fn collapse_chars(v: &Vec<char>) -> (r: Vec<char>)
    ensures
        r@ == collapse_commas(v@),
{
    let mut out: Vec<char> = Vec::new();
    let mut i: usize = 0;
    while i < v.len()
        invariant
            i <= v.len(),
            out@ == collapse_commas(v@.subrange(0, i as int)),
        decreases v.len() - i,
    {
        assert(v@.subrange(0, i + 1).drop_last() == v@.subrange(0, i as int));
        if !(v[i] == ',' && out.len() > 0 && out[out.len() - 1] == ',') {
            out.push(v[i]);
        }
        i += 1;
    }
    assert(v@.subrange(0, v.len() as int) == v@);
    out
}

fn pauses_chars(v: &Vec<char>) -> (r: Vec<char>)
    ensures
        r@ == pauses_as_commas(v@),
{
    let mut out: Vec<char> = Vec::new();
    let mut i: usize = 0;
    let ghost w = crate::pinyin::without_char(v@, ' ');
    while i < v.len()
        invariant
            i <= v.len(),
            out@ =~= crate::pinyin::without_char(v@.subrange(0, i as int), ' ').map_values(
                |c: char| if is_pause_symbol(c) { ',' } else { c }),
        decreases v.len() - i,
    {
        assert(v@.subrange(0, i + 1).drop_last() == v@.subrange(0, i as int));
        if v[i] != ' ' {
            out.push(if is_pause_symbol_char(v[i]) { ',' } else { v[i] });
        }
        i += 1;
    }
    assert(v@.subrange(0, v.len() as int) == v@);
    collapse_chars(&out)
}

fn marked_chars(v: &Vec<char>) -> (r: Vec<char>)
    ensures
        r@ == marked_from(v@, 0),
{
    let mut out: Vec<char> = Vec::new();
    let mut i: usize = 0;
    while i < v.len()
        invariant
            i <= v.len(),
            out@ + marked_from(v@, i as int) == marked_from(v@, 0),
        decreases v.len() - i,
    {
        let c = v[i];
        if ends_sentence_char(c) {
            if i + 1 < v.len() && (v[i + 1] == '”' || v[i + 1] == '’') {
                let piece = vec![c, v[i + 1], '\n'];
                assert(out@ + marked_from(v@, i as int) == (out@ + piece@) + marked_from(v@, i + 2));
                extend_chars(&mut out, &piece);
                i += 2;
            } else {
                let piece = vec![c, '\n'];
                assert(out@ + marked_from(v@, i as int) == (out@ + piece@) + marked_from(v@, i + 1));
                extend_chars(&mut out, &piece);
                i += 1;
            }
        } else {
            assert(out@ + marked_from(v@, i as int) == out@.push(c) + marked_from(v@, i + 1));
            out.push(c);
            i += 1;
        }
    }
    assert(out@ + Seq::<char>::empty() == out@);
    out
}

proof fn lemma_trim_ws_start_at(s: Seq<char>, k: int)
    requires
        0 <= k <= s.len(),
        forall|m: int| 0 <= m < k ==> whitespace(s[m]),
        k == s.len() || !whitespace(s[k]),
    ensures
        trim_ws_start(s) == s.subrange(k, s.len() as int),
    decreases k,
{
    if k > 0 {
        assert forall|m: int| 0 <= m < k - 1 implies whitespace(s.drop_first()[m]) by {
            assert(s.drop_first()[m] == s[m + 1]);
        }
        lemma_trim_ws_start_at(s.drop_first(), k - 1);
        assert(s.drop_first().subrange(k - 1, s.len() - 1) == s.subrange(k, s.len() as int));
    } else {
        assert(s.subrange(0, s.len() as int) == s);
    }
}

proof fn lemma_trim_ws_end_at(s: Seq<char>, n: int)
    requires
        0 <= n <= s.len(),
        forall|m: int| n <= m < s.len() ==> whitespace(s[m]),
        n == 0 || !whitespace(s[n - 1]),
    ensures
        trim_ws_end(s) == s.subrange(0, n),
    decreases s.len() - n,
{
    if s.len() > n {
        assert forall|m: int| n <= m < s.drop_last().len() implies whitespace(s.drop_last()[m]) by {
            assert(s.drop_last()[m] == s[m]);
        }
        lemma_trim_ws_end_at(s.drop_last(), n);
        assert(s.drop_last().subrange(0, n) == s.subrange(0, n));
    } else {
        assert(s.subrange(0, n) == s);
    }
}

fn trim_ws_chars(v: &Vec<char>) -> (r: Vec<char>)
    ensures
        r@ == trim_ws(v@),
{
    let mut k: usize = 0;
    while k < v.len() && char_is_whitespace(v[k])
        invariant
            k <= v.len(),
            forall|m: int| 0 <= m < k ==> whitespace(v@[m]),
        decreases v.len() - k,
    {
        k += 1;
    }
    proof {
        lemma_trim_ws_start_at(v@, k as int);
    }
    let t = slice_chars(v, k, v.len());
    let mut n: usize = t.len();
    while n > 0 && char_is_whitespace(t[n - 1])
        invariant
            n <= t.len(),
            forall|m: int| n <= m < t.len() ==> whitespace(t@[m]),
        decreases n,
    {
        n -= 1;
    }
    proof {
        lemma_trim_ws_end_at(t@, n as int);
    }
    slice_chars(&t, 0, n)
}

/// The Chinese text normaliser, with its traditional-to-simplified table
/// and its symbol replacements.
pub struct TextNormalizer {
    pub t2s: Vec<(char, char)>,
    pub special_symbol_mapping: Vec<(String, String)>,
    pub chronology: Chronology,
    pub quantifier: Quantifier,
    pub phonecode: Phonecode,
    pub num: Num,
}

impl TextNormalizer {
    /// A normaliser with the given traditional-to-simplified pairs and
    /// symbol replacements (applied in the order given).
    pub fn new(t2s: Vec<(char, char)>, special_symbol_mapping: Vec<(String, String)>) -> (r: Self)
        ensures
            r.t2s@ == t2s@,
            map_views(r.special_symbol_mapping@) == map_views(special_symbol_mapping@),
            r.wf(),
    {
        TextNormalizer {
            t2s,
            special_symbol_mapping,
            chronology: Chronology::new(),
            quantifier: Quantifier::new(),
            phonecode: Phonecode::new(),
            num: Num,
        }
    }

    /// The measure table is the standard one.
    pub open spec fn wf(&self) -> bool {
        unit_views(self.quantifier.units@) == measure_units()
    }

    /// The sentences of a text (see `split_sentences`); `lang` is `zh` for Chinese.
    pub fn split(&self, sentence: &str, lang: &str) -> (r: Vec<String>)
        ensures
            views(r@) == split_sentences(sentence@, crate::pinyin::is2(lang@, 'z', 'h')),
    {
        let l = chars_of(lang);
        let zh = l.len() == 2 && l[0] == 'z' && l[1] == 'h';
        let v = chars_of(sentence);
        let p = if zh { pauses_chars(&v) } else { slice_chars(&v, 0, v.len()) };
        assert(v@.subrange(0, v.len() as int) == v@);
        let t = trim_ws_chars(&marked_chars(&p));
        let mut done: Vec<String> = Vec::new();
        let mut cur: Vec<char> = Vec::new();
        let mut i: usize = 0;
        while i < t.len()
            invariant
                i <= t.len(),
                (views(done@), cur@) == line_pieces(t@, i as int),
            decreases t.len() - i,
        {
            if t[i] == '\n' {
                cur.push('\n');
                let piece = trim_ws_chars(&cur);
                if piece.len() > 0 {
                    let ps = string_of(&piece);
                    proof {
                        lemma_views_push(done@, ps);
                    }
                    done.push(ps);
                }
                cur = Vec::new();
            } else {
                cur.push(t[i]);
            }
            i += 1;
        }
        let piece = trim_ws_chars(&cur);
        if piece.len() > 0 {
            let ps = string_of(&piece);
            proof {
                lemma_views_push(done@, ps);
            }
            done.push(ps);
        }
        done
    }

    /// Makes the symbol replacements, then removes the dropped symbols.
    pub fn post_replace(&self, sentence: &str) -> (r: String)
        ensures
            r@ == without_dropped(mapped(sentence@, map_views(self.special_symbol_mapping@),
                self.special_symbol_mapping@.len() as int)),
    {
        let ghost m = map_views(self.special_symbol_mapping@);
        let mut t = chars_of(sentence);
        let mut n: usize = 0;
        while n < self.special_symbol_mapping.len()
            invariant
                m == map_views(self.special_symbol_mapping@),
                n <= self.special_symbol_mapping.len(),
                t@ == mapped(sentence@, m, n as int),
            decreases self.special_symbol_mapping.len() - n,
        {
            let key = chars_of(self.special_symbol_mapping[n].0.as_str());
            let value = chars_of(self.special_symbol_mapping[n].1.as_str());
            assert(m[n as int] == (key@, value@));
            t = replace_chars(&t, &key, &value);
            n += 1;
        }
        string_of(&drop_chars(&t))
    }

    /// Normalises one sentence (see `normalized_sentence`).
    pub fn normalize_sentence(&self, sentence: &str) -> (r: String)
        requires
            self.wf(),
        ensures
            r@ == normalized_sentence(self.t2s@, map_views(self.special_symbol_mapping@), sentence@),
    {
        let t = string_of(&map_chars(&chars_of(sentence), &self.t2s));
        let t = self.chronology.normalize(t.as_str());
        let t = self.quantifier.normalize(t.as_str());
        let t = self.phonecode.normalize(t.as_str());
        let t = self.num.normalize(t.as_str());
        self.post_replace(t.as_str())
    }

    /// Normalises a Chinese text sentence by sentence.
    pub fn normalize(&self, sentence: &str) -> (r: Vec<String>)
        requires
            self.wf(),
        ensures
            r.len() == split_sentences(sentence@, true).len(),
            forall|i: int| 0 <= i < r.len() ==> (#[trigger] r@[i])@ == normalized_sentence(self.t2s@,
                map_views(self.special_symbol_mapping@), split_sentences(sentence@, true)[i]),
    {
        let parts = self.split(sentence, "zh");
        proof {
            reveal_strlit("zh");
        }
        let mut r: Vec<String> = Vec::new();
        let mut i: usize = 0;
        while i < parts.len()
            invariant
                self.wf(),
                views(parts@) == split_sentences(sentence@, true),
                i <= parts.len(),
                r.len() == i,
                forall|k: int| 0 <= k < i ==> (#[trigger] r@[k])@ == normalized_sentence(self.t2s@,
                    map_views(self.special_symbol_mapping@), split_sentences(sentence@, true)[k]),
            decreases parts.len() - i,
        {
            assert(views(parts@)[i as int] == parts@[i as int]@);
            let s = self.normalize_sentence(parts[i].as_str());
            r.push(s);
            i += 1;
        }
        r
    }
}

} // verus!
