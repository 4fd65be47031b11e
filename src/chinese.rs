//! The Chinese text normaliser of the phoneme front-end: punctuation
//! replaced, the text normalised sentence by sentence, and everything but
//! Chinese characters and a few punctuation marks removed.
use vstd::prelude::*;
use crate::chars::{chars_of, extend_chars, string_of, views};
use crate::chunker::{flatten, is_han};
use crate::quantifier::{has_at, has_at_chars};
use crate::text_normalizer::{
    is_dropped_symbol, lemma_normalized_sentence_clean, map_views, normalized_sentence, split_sentences, TextNormalizer,
};

verus! {

/// Index of the first entry of `map` from `j` on whose non-empty key
/// stands in `s` at `i`, or the length of `map`.
pub open spec fn first_key_at(map: Seq<(Seq<char>, Seq<char>)>, s: Seq<char>, i: int, j: int) -> int
    decreases map.len() - j,
{
    if j < 0 || j >= map.len() {
        map.len() as int
    } else if map[j].0.len() > 0 && has_at(s, i, map[j].0) {
        j
    } else {
        first_key_at(map, s, i, j + 1)
    }
}

/// `s` from `i` on with each symbol of `map` replaced by its value, left
/// to right, the first entry that matches winning.
pub open spec fn symbols_replaced_from(s: Seq<char>, map: Seq<(Seq<char>, Seq<char>)>, i: int) -> Seq<char>
    decreases s.len() - i,
{
    if i < 0 || i >= s.len() {
        seq![]
    } else {
        let k = first_key_at(map, s, i, 0);
        if 0 <= k < map.len() && map[k].0.len() > 0 && i + map[k].0.len() <= s.len() {
            map[k].1 + symbols_replaced_from(s, map, i + map[k].0.len())
        } else {
            seq![s[i]] + symbols_replaced_from(s, map, i + 1)
        }
    }
}

/// Whether a character stays in a normalised Chinese text: a Chinese
/// character or one of `!?…,.-`.
pub open spec fn kept_in_chinese(c: char) -> bool {
    is_han(c) || c == '!' || c == '?' || c == '…' || c == ',' || c == '.' || c == '-'
}

/// 嗯 written 恩 and 呣 written 母.
pub open spec fn interjection(c: char) -> char {
    if c == '嗯' { '恩' } else if c == '呣' { '母' } else { c }
}

/// A sentence with 嗯 and 呣 rewritten and every other character that does
/// not stay removed.
pub open spec fn punctuation_cleaned(s: Seq<char>) -> Seq<char>
    decreases s.len(),
{
    if s.len() == 0 {
        s
    } else {
        let t = punctuation_cleaned(s.drop_last());
        let c = interjection(s.last());
        if kept_in_chinese(c) { t.push(c) } else { t }
    }
}

/// The normalised text: the sentences of the text with its symbols
/// replaced, each normalised and cleaned, laid end to end.
pub open spec fn chinese_normalized(pairs: Seq<(char, char)>, smap: Seq<(Seq<char>, Seq<char>)>,
    rep: Seq<(Seq<char>, Seq<char>)>, s: Seq<char>) -> Seq<char> {
    flatten(cleaned_parts(pairs, smap, split_sentences(symbols_replaced_from(s, rep, 0), true)))
}

/// Each sentence normalised and cleaned.
pub open spec fn cleaned_parts(pairs: Seq<(char, char)>, smap: Seq<(Seq<char>, Seq<char>)>, parts: Seq<Seq<char>>)
    -> Seq<Seq<char>> {
    Seq::new(parts.len(), |i: int| punctuation_cleaned(normalized_sentence(pairs, smap, parts[i])))
}

proof fn lemma_cleaned_chars(s: Seq<char>)
    ensures
        forall|k: int| 0 <= k < punctuation_cleaned(s).len() ==> kept_in_chinese(#[trigger] punctuation_cleaned(s)[k])
            && (punctuation_cleaned(s)[k] == '…' ==> s.contains('…')),
    decreases s.len(),
{
    if s.len() > 0 {
        lemma_cleaned_chars(s.drop_last());
        let t = punctuation_cleaned(s.drop_last());
        let c = interjection(s.last());
        let r = punctuation_cleaned(s);
        assert forall|k: int| 0 <= k < r.len() implies kept_in_chinese(#[trigger] r[k]) && (r[k] == '…' ==> s.contains('…')) by {
            if k < t.len() {
                assert(r[k] == t[k]);
                if t[k] == '…' {
                    let m = choose|m: int| 0 <= m < s.drop_last().len() && s.drop_last()[m] == '…';
                    assert(s[m] == '…');
                }
            } else {
                assert(r[k] == c);
                if c == '…' {
                    assert(s[s.len() - 1] == '…');
                }
            }
        }
    }
}

/// Whether `s` holds none of the dropped symbols.
pub open spec fn free_of_dropped(s: Seq<char>) -> bool {
    forall|k: int| 0 <= k < s.len() ==> !is_dropped_symbol(#[trigger] s[k])
}

proof fn lemma_flatten_clean(p: Seq<Seq<char>>)
    requires
        forall|i: int| 0 <= i < p.len() ==> free_of_dropped(#[trigger] p[i]),
    ensures
        free_of_dropped(flatten(p)),
    decreases p.len(),
{
    if p.len() > 0 {
        lemma_flatten_clean(p.drop_last());
        let a = flatten(p.drop_last());
        let b = p.last();
        assert forall|k: int| 0 <= k < (a + b).len() implies !is_dropped_symbol(#[trigger] (a + b)[k]) by {
            if k < a.len() {
                assert((a + b)[k] == a[k]);
            } else {
                assert((a + b)[k] == b[k - a.len()]);
                assert(p[p.len() - 1] == b);
            }
        }
    }
}

/// A normalised Chinese text holds none of the dropped symbols
/// `——《》【】<=>{}()（）#&@"^_|…\`.
pub proof fn lemma_chinese_normalized_clean(pairs: Seq<(char, char)>, smap: Seq<(Seq<char>, Seq<char>)>,
    rep: Seq<(Seq<char>, Seq<char>)>, s: Seq<char>)
    ensures
        forall|k: int| 0 <= k < chinese_normalized(pairs, smap, rep, s).len()
            ==> !is_dropped_symbol(#[trigger] chinese_normalized(pairs, smap, rep, s)[k]),
{
    let parts = split_sentences(symbols_replaced_from(s, rep, 0), true);
    let p = cleaned_parts(pairs, smap, parts);
    assert forall|i: int| 0 <= i < p.len() implies free_of_dropped(#[trigger] p[i]) by {
        let n = normalized_sentence(pairs, smap, parts[i]);
        lemma_normalized_sentence_clean(pairs, smap, parts[i]);
        lemma_cleaned_chars(n);
        assert forall|k: int| 0 <= k < p[i].len() implies !is_dropped_symbol(#[trigger] p[i][k]) by {
            let c = p[i][k];
            if c == '…' {
                let m = choose|m: int| 0 <= m < n.len() && n[m] == '…';
                assert(!is_dropped_symbol(n[m]));
            }
        }
    }
    lemma_flatten_clean(p);
}

fn interjection_char(c: char) -> (r: char)
    ensures
        r == interjection(c),
{
    if c == '嗯' { '恩' } else if c == '呣' { '母' } else { c }
}

/// The Chinese normaliser: punctuation replacements, then the text normaliser.
pub struct Chinese {
    /// Punctuation and its replacement, tried in order at each position.
    pub rep_map: Vec<(String, String)>,
    pub text_normalizer: TextNormalizer,
}

impl Chinese {
    pub fn new(rep_map: Vec<(String, String)>, text_normalizer: TextNormalizer) -> (r: Self)
        ensures
            map_views(r.rep_map@) == map_views(rep_map@),
            r.text_normalizer == text_normalizer,
    {
        Chinese { rep_map, text_normalizer }
    }

    fn first_key(&self, v: &Vec<char>, i: usize) -> (r: usize)
        requires
            i < v.len(),
        ensures
            r as int == first_key_at(map_views(self.rep_map@), v@, i as int, 0),
            r < self.rep_map.len() ==> map_views(self.rep_map@)[r as int].0.len() > 0
                && has_at(v@, i as int, map_views(self.rep_map@)[r as int].0),
            r <= self.rep_map.len(),
    {
        let ghost m = map_views(self.rep_map@);
        let mut j: usize = 0;
        while j < self.rep_map.len()
            invariant
                m == map_views(self.rep_map@),
                i < v.len(),
                j <= self.rep_map.len(),
                first_key_at(m, v@, i as int, j as int) == first_key_at(m, v@, i as int, 0),
            decreases self.rep_map.len() - j,
        {
            assert(m[j as int] == (self.rep_map@[j as int].0@, self.rep_map@[j as int].1@));
            let k = chars_of(self.rep_map[j].0.as_str());
            if k.len() > 0 && has_at_chars(v, i, &k) {
                return j;
            }
            j += 1;
        }
        j
    }

    /// Replaces the symbols of `rep_map` (see `symbols_replaced_from`).
    pub fn replace_symbol(&self, text: &str) -> (r: String)
        ensures
            r@ == symbols_replaced_from(text@, map_views(self.rep_map@), 0),
    {
        let ghost m = map_views(self.rep_map@);
        let v = chars_of(text);
        let mut out: Vec<char> = Vec::new();
        let mut i: usize = 0;
        while i < v.len()
            invariant
                m == map_views(self.rep_map@),
                v@ == text@,
                i <= v.len(),
                out@ + symbols_replaced_from(v@, m, i as int) == symbols_replaced_from(v@, m, 0),
            decreases v.len() - i,
        {
            let j = self.first_key(&v, i);
            let found = j < self.rep_map.len();
            let mut key: Vec<char> = Vec::new();
            let mut value: Vec<char> = Vec::new();
            if found {
                assert(m[j as int] == (self.rep_map@[j as int].0@, self.rep_map@[j as int].1@));
                key = chars_of(self.rep_map[j].0.as_str());
                value = chars_of(self.rep_map[j].1.as_str());
            }
            if found {
                assert(out@ + symbols_replaced_from(v@, m, i as int)
                    == (out@ + value@) + symbols_replaced_from(v@, m, i + key.len()));
                extend_chars(&mut out, &value);
                i = i + key.len();
            } else {
                assert(out@ + symbols_replaced_from(v@, m, i as int)
                    == out@.push(v@[i as int]) + symbols_replaced_from(v@, m, i + 1));
                out.push(v[i]);
                i += 1;
            }
        }
        assert(out@ + Seq::<char>::empty() == out@);
        string_of(&out)
    }

    /// Rewrites 嗯 and 呣 and removes what does not stay (see `punctuation_cleaned`).
    pub fn replace_punctuation(&self, text: &str) -> (r: String)
        ensures
            r@ == punctuation_cleaned(text@),
    {
        let v = chars_of(text);
        let mut out: Vec<char> = Vec::new();
        let mut i: usize = 0;
        while i < v.len()
            invariant
                i <= v.len(),
                out@ == punctuation_cleaned(v@.subrange(0, i as int)),
            decreases v.len() - i,
        {
            assert(v@.subrange(0, i + 1).drop_last() == v@.subrange(0, i as int));
            let c = interjection_char(v[i]);
            if ('\u{4e00}' <= c && c <= '\u{9fa5}') || c == '!' || c == '?' || c == '…' || c == ',' || c == '.' || c == '-' {
                out.push(c);
            }
            i += 1;
        }
        assert(v@.subrange(0, v.len() as int) == v@);
        string_of(&out)
    }

    /// Normalises a Chinese text (see `chinese_normalized`).
    pub fn text_normalize(&self, text: &str) -> (r: String)
        requires
            self.text_normalizer.wf(),
        ensures
            r@ == chinese_normalized(self.text_normalizer.t2s@, map_views(self.text_normalizer.special_symbol_mapping@),
                map_views(self.rep_map@), text@),
    {
        let replaced = self.replace_symbol(text);
        let sentences = self.text_normalizer.normalize(replaced.as_str());
        let ghost parts = split_sentences(replaced@, true);
        let ghost p = cleaned_parts(self.text_normalizer.t2s@, map_views(self.text_normalizer.special_symbol_mapping@), parts);
        let mut out: Vec<char> = Vec::new();
        let mut i: usize = 0;
        while i < sentences.len()
            invariant
                sentences.len() == parts.len(),
                p.len() == parts.len(),
                forall|k: int| 0 <= k < sentences.len() ==> (#[trigger] sentences@[k])@ == normalized_sentence(
                    self.text_normalizer.t2s@, map_views(self.text_normalizer.special_symbol_mapping@), parts[k]),
                p == cleaned_parts(self.text_normalizer.t2s@, map_views(self.text_normalizer.special_symbol_mapping@), parts),
                i <= sentences.len(),
                out@ == flatten(p.subrange(0, i as int)),
            decreases sentences.len() - i,
        {
            let c = chars_of(self.replace_punctuation(sentences[i].as_str()).as_str());
            assert(p.subrange(0, i + 1).drop_last() == p.subrange(0, i as int));
            assert(c@ == p[i as int]);
            extend_chars(&mut out, &c);
            i += 1;
        }
        assert(p.subrange(0, p.len() as int) == p);
        string_of(&out)
    }
}

} // verus!
