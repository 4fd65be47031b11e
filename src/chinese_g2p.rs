//! The last step of Chinese grapheme-to-phoneme conversion: each syllable,
//! given as an initial and a toned final, becomes a pair of phoneme atoms
//! with the tone digit on the second, looked up in a syllable table.
use vstd::prelude::*;
use crate::chars::{chars_of, extend_chars, lemma_views_push, slice_chars, string_of, views};
use crate::cleaned::{lemma_total_concat, total};
use crate::mmseg::chars_equal;
use crate::pinyin::{is1, is2, is3};
use crate::tone_sandhi::{all_toned, modified_rule, pos_tagged, pre_merged, tagged, ToneSandhi, WordSplitter};
use crate::lazy_pinyin::{lazy_spec, LazyPinyin};
use crate::tone_sandhi::final_lists;
use crate::pinyin::Style;

verus! {

/// The table key of a syllable with initial `c` and toned final `v`: the
/// final without its tone, with `uei`, `iou`, `uen` written `ui`, `iu`,
/// `un` after an initial, and without an initial `i`, `u`, `in`, `ing`
/// written `yi`, `wu`, `yin`, `ying` and a leading `v`, `i`, `u` written
/// `yu`, `y`, `w`.
pub open spec fn syllable_key(c: Seq<char>, v: Seq<char>) -> Seq<char> {
    let b = v.drop_last();
    if c.len() > 0 {
        if is3(b, 'u', 'e', 'i') {
            c + seq!['u', 'i']
        } else if is3(b, 'i', 'o', 'u') {
            c + seq!['i', 'u']
        } else if is3(b, 'u', 'e', 'n') {
            c + seq!['u', 'n']
        } else {
            c + b
        }
    } else if is3(b, 'i', 'n', 'g') {
        seq!['y', 'i', 'n', 'g']
    } else if is1(b, 'i') {
        seq!['y', 'i']
    } else if is2(b, 'i', 'n') {
        seq!['y', 'i', 'n']
    } else if is1(b, 'u') {
        seq!['w', 'u']
    } else if b.len() > 0 && b[0] == 'v' {
        seq!['y', 'u'] + b.drop_first()
    } else if b.len() > 0 && b[0] == 'i' {
        seq!['y'] + b.drop_first()
    } else if b.len() > 0 && b[0] == 'u' {
        seq!['w'] + b.drop_first()
    } else {
        b
    }
}

/// The atoms of `key` by the first `n` entries of a syllable table; the
/// last entry for a key wins.
pub open spec fn lookup(t: Seq<(Seq<char>, Seq<Seq<char>>)>, key: Seq<char>, n: int) -> Option<Seq<Seq<char>>>
    decreases n,
{
    if n <= 0 {
        None
    } else if t[n - 1].0 == key {
        Some(t[n - 1].1)
    } else {
        lookup(t, key, n - 1)
    }
}

/// The views of a syllable table.
pub open spec fn table_views(t: Seq<(String, Vec<String>)>) -> Seq<(Seq<char>, Seq<Seq<char>>)> {
    t.map_values(|e: (String, Vec<String>)| (e.0@, views(e.1@)))
}

/// Phonemes and per-syllable counts of the first `n` syllables: a
/// syllable whose initial equals its final is a punctuation mark, one
/// phoneme; another is its atoms with the tone digit on the last one,
/// counted by their number; a syllable missing from the table, or with an
/// empty final, is skipped.
pub open spec fn syllable_fold(ini: Seq<Seq<char>>, fin: Seq<Seq<char>>, t: Seq<(Seq<char>, Seq<Seq<char>>)>, n: int)
    -> (Seq<Seq<char>>, Seq<usize>)
    decreases n,
{
    if n <= 0 {
        (seq![], seq![])
    } else {
        let (phones, w2p) = syllable_fold(ini, fin, t, n - 1);
        let c = ini[n - 1];
        let v = fin[n - 1];
        if c == v {
            (phones.push(c), w2p.push(1))
        } else if v.len() == 0 {
            (phones, w2p)
        } else {
            match lookup(t, syllable_key(c, v), t.len() as int) {
                Some(parts) => {
                    let toned = if parts.len() > 0 { parts.update(parts.len() - 1, parts.last().push(v.last())) } else { parts };
                    (phones + toned, w2p.push(parts.len() as usize))
                },
                None => (phones, w2p),
            }
        }
    }
}

fn syllable_key_chars(c: &Vec<char>, v: &Vec<char>) -> (r: Vec<char>)
    requires
        v.len() > 0,
    ensures
        r@ == syllable_key(c@, v@),
{
    let b = slice_chars(v, 0, v.len() - 1);
    assert(b@ == v@.drop_last());
    if c.len() > 0 {
        let mut r = slice_chars(c, 0, c.len());
        assert(c@.subrange(0, c.len() as int) == c@);
        if b.len() == 3 && b[0] == 'u' && b[1] == 'e' && b[2] == 'i' {
            r.push('u');
            r.push('i');
        } else if b.len() == 3 && b[0] == 'i' && b[1] == 'o' && b[2] == 'u' {
            r.push('i');
            r.push('u');
        } else if b.len() == 3 && b[0] == 'u' && b[1] == 'e' && b[2] == 'n' {
            r.push('u');
            r.push('n');
        } else {
            extend_chars(&mut r, &b);
            return r;
        }
        assert(r@ =~= syllable_key(c@, v@));
        r
    } else if b.len() == 3 && b[0] == 'i' && b[1] == 'n' && b[2] == 'g' {
        let r = vec!['y', 'i', 'n', 'g'];
        r
    } else if b.len() == 1 && b[0] == 'i' {
        vec!['y', 'i']
    } else if b.len() == 2 && b[0] == 'i' && b[1] == 'n' {
        vec!['y', 'i', 'n']
    } else if b.len() == 1 && b[0] == 'u' {
        vec!['w', 'u']
    } else if b.len() > 0 && (b[0] == 'v' || b[0] == 'i' || b[0] == 'u') {
        let mut r: Vec<char> = if b[0] == 'v' { vec!['y', 'u'] } else if b[0] == 'i' { vec!['y'] } else { vec!['w'] };
        let rest = slice_chars(&b, 1, b.len());
        extend_chars(&mut r, &rest);
        assert(rest@ == b@.drop_first());
        r
    } else {
        b
    }
}

/// Converts syllables, given as initials and toned finals side by side,
/// into phonemes and the number of phonemes of each syllable (see
/// `syllable_fold`); `table` maps a syllable key to its atoms.
pub fn syllables_to_phones(initials: &Vec<String>, finals: &Vec<String>, table: &Vec<(String, Vec<String>)>)
    -> (r: (Vec<String>, Vec<usize>))
    requires
        initials.len() == finals.len(),
    ensures
        (views(r.0@), r.1@) == syllable_fold(views(initials@), views(finals@), table_views(table@), initials.len() as int),
        total(r.1@) == r.0.len(),
{
    let ghost ini = views(initials@);
    let ghost fin = views(finals@);
    let ghost t = table_views(table@);
    let mut phones: Vec<String> = Vec::new();
    let mut w2p: Vec<usize> = Vec::new();
    let mut i: usize = 0;
    while i < initials.len()
        invariant
            initials.len() == finals.len(),
            ini == views(initials@),
            fin == views(finals@),
            t == table_views(table@),
            i <= initials.len(),
            (views(phones@), w2p@) == syllable_fold(ini, fin, t, i as int),
            total(w2p@) == phones.len(),
        decreases initials.len() - i,
    {
        let c = chars_of(initials[i].as_str());
        let v = chars_of(finals[i].as_str());
        assert(ini[i as int] == c@);
        assert(fin[i as int] == v@);
        assert(w2p@.push(1).drop_last() == w2p@);
        if chars_equal(&c, &v) {
            let s = string_of(&c);
            proof {
                lemma_views_push(phones@, s);
            }
            phones.push(s);
            w2p.push(1);
        } else if v.len() > 0 {
            let key = syllable_key_chars(&c, &v);
            let mut n: usize = table.len();
            while n > 0 && !chars_equal(&chars_of(table[n - 1].0.as_str()), &key)
                invariant
                    t == table_views(table@),
                    n <= table.len(),
                    lookup(t, key@, n as int) == lookup(t, key@, table.len() as int),
                decreases n,
            {
                assert(t[n - 1].0 == table@[n - 1].0@);
                n -= 1;
            }
            if n > 0 {
                assert(t[n - 1] == (table@[n - 1].0@, views(table@[n - 1].1@)));
                let parts = &table[n - 1].1;
                let tone = v[v.len() - 1];
                let ghost before = views(phones@);
                let k = parts.len();
                let mut j: usize = 0;
                while j < k
                    invariant
                        k == parts.len(),
                        j <= k,
                        views(phones@) == before + (if k > 0 { views(parts@).update(k - 1, views(parts@).last().push(tone)) }
                            else { views(parts@) }).subrange(0, j as int),
                    decreases k - j,
                {
                    let mut atom = chars_of(parts[j].as_str());
                    if j == k - 1 {
                        atom.push(tone);
                    }
                    let s = string_of(&atom);
                    proof {
                        lemma_views_push(phones@, s);
                    }
                    phones.push(s);
                    j += 1;
                    assert(views(phones@) =~= before + (if k > 0 { views(parts@).update(k - 1, views(parts@).last().push(tone)) }
                        else { views(parts@) }).subrange(0, j as int));
                }
                let ghost toned = if k > 0 { views(parts@).update(k - 1, views(parts@).last().push(tone)) } else { views(parts@) };
                assert(toned.subrange(0, k as int) == toned);
                proof {
                    lemma_total_concat(w2p@, seq![k]);
                    assert(total(seq![k]) == k) by {
                        assert(seq![k].drop_last() =~= Seq::<usize>::empty());
                        assert(total(Seq::<usize>::empty()) == 0);
                    }
                    assert(w2p@ + seq![k] == w2p@.push(k));
                }
                w2p.push(k);
            }
        }
        i += 1;
    }
    (phones, w2p)
}

/// The reading lists laid end to end.
pub open spec fn flat(l: Seq<Seq<Seq<char>>>) -> Seq<Seq<char>>
    decreases l.len(),
{
    if l.len() == 0 { seq![] } else { flat(l.drop_last()) + l.last() }
}

/// `s` without ASCII letters.
pub open spec fn without_letters(s: Seq<char>) -> Seq<char>
    decreases s.len(),
{
    if s.len() == 0 {
        s
    } else if crate::chunker::is_ascii_letter(s.last()) {
        without_letters(s.drop_last())
    } else {
        without_letters(s.drop_last()).push(s.last())
    }
}

/// The initials and toned finals of one word: its strict pinyin in the two
/// styles; the finals go through tone sandhi when there is one toned final
/// per character.
pub open spec fn word_syllables(lp: LazyPinyin, w: Seq<char>, pos: Seq<char>) -> (Seq<Seq<char>>, Seq<Seq<char>>) {
    let ini = flat(lazy_spec(lp, w, Style::Initials, true));
    let fin = flat(lazy_spec(lp, w, Style::InitialsTone3, true));
    (ini, if all_toned(fin) && fin.len() == w.len() { modified_rule(w, pos, fin) } else { fin })
}

/// The initials and finals of the first `n` tagged words, English words
/// (tag `eng`) left out.
pub open spec fn words_syllables(lp: LazyPinyin, s: Seq<(Seq<char>, Seq<char>)>, n: int) -> (Seq<Seq<char>>, Seq<Seq<char>>)
    decreases n,
{
    if n <= 0 {
        (seq![], seq![])
    } else {
        let (ini, fin) = words_syllables(lp, s, n - 1);
        if is3(s[n - 1].1, 'e', 'n', 'g') {
            (ini, fin)
        } else {
            let (a, b) = word_syllables(lp, s[n - 1].0, s[n - 1].1);
            (ini + a, fin + b)
        }
    }
}

/// The phonemes and per-syllable counts of one sentence: its ASCII
/// letters removed, tagged, merged, each word's syllables taken, and the
/// initials and finals paired up to the shorter of the two.
pub open spec fn segment_phones(lp: LazyPinyin, t: Seq<(Seq<char>, Seq<Seq<char>>)>, seg: Seq<char>) -> (Seq<Seq<char>>, Seq<usize>) {
    let m = pre_merged(pos_tagged(without_letters(seg)));
    let (ini, fin) = words_syllables(lp, m, m.len() as int);
    let n = if ini.len() < fin.len() { ini.len() } else { fin.len() };
    syllable_fold(ini.subrange(0, n as int), fin.subrange(0, n as int), t, n as int)
}

/// The phonemes and counts of the first `n` sentences, laid end to end.
pub open spec fn segments_phones(lp: LazyPinyin, t: Seq<(Seq<char>, Seq<Seq<char>>)>, segs: Seq<Seq<char>>, n: int)
    -> (Seq<Seq<char>>, Seq<usize>)
    decreases n,
{
    if n <= 0 {
        (seq![], seq![])
    } else {
        let (p, w) = segments_phones(lp, t, segs, n - 1);
        let (p2, w2) = segment_phones(lp, t, segs[n - 1]);
        (p + p2, w + w2)
    }
}

/// Whether a character ends a piece for the converter: `!?…,.-`.
pub open spec fn ends_piece(c: char) -> bool {
    c == '!' || c == '?' || c == '…' || c == ',' || c == '.' || c == '-'
}

/// The pieces of the first `n` characters of `s`, each up to and with a
/// piece end, blank pieces dropped; and the piece being read.
pub open spec fn piece_fold(s: Seq<char>, n: int) -> (Seq<Seq<char>>, Seq<char>)
    decreases n,
{
    if n <= 0 {
        (seq![], seq![])
    } else {
        let (done, cur) = piece_fold(s, n - 1);
        let c = s[n - 1];
        if ends_piece(c) {
            let p = cur.push(c);
            (if crate::cleaned::visible(p) { done.push(p) } else { done }, seq![])
        } else {
            (done, cur.push(c))
        }
    }
}

/// The pieces of a normalised sentence: cut after each of `!?…,.-`, blank
/// pieces dropped.
pub open spec fn g2p_pieces(s: Seq<char>) -> Seq<Seq<char>> {
    let (done, cur) = piece_fold(s, s.len() as int);
    if crate::cleaned::visible(cur) { done.push(cur) } else { done }
}

fn flat_strings(l: &Vec<Vec<String>>) -> (r: Vec<String>)
    ensures
        views(r@) == flat(final_lists(l@)),
{
    let ghost f = final_lists(l@);
    let mut out: Vec<String> = Vec::new();
    let mut i: usize = 0;
    while i < l.len()
        invariant
            f == final_lists(l@),
            i <= l.len(),
            views(out@) == flat(f.subrange(0, i as int)),
        decreases l.len() - i,
    {
        let ghost before = views(out@);
        let mut j: usize = 0;
        while j < l[i].len()
            invariant
                i < l.len(),
                j <= l[i as int].len(),
                views(out@) =~= before + views(l@[i as int]@).subrange(0, j as int),
            decreases l[i as int].len() - j,
        {
            let x = l[i][j].clone();
            proof {
                lemma_views_push(out@, x);
            }
            out.push(x);
            j += 1;
        }
        assert(f.subrange(0, i + 1).drop_last() == f.subrange(0, i as int));
        assert(f[i as int] == views(l@[i as int]@));
        assert(views(l@[i as int]@).subrange(0, l@[i as int].len() as int) == views(l@[i as int]@));
        i += 1;
    }
    assert(f.subrange(0, l.len() as int) == f);
    out
}

proof fn lemma_total_push_all(a: Seq<usize>, b: Seq<usize>)
    ensures
        total(a + b) == total(a) + total(b),
{
    lemma_total_concat(a, b);
}

/// The Chinese grapheme-to-phoneme converter: pinyin engine, segmenter,
/// tone sandhi and the syllable table.
pub struct ChineseG2p {
    pub lazy: LazyPinyin,
    pub splitter: WordSplitter,
    pub tone: ToneSandhi,
    pub table: Vec<(String, Vec<String>)>,
}

impl ChineseG2p {
    pub fn new(lazy: LazyPinyin, table: Vec<(String, Vec<String>)>) -> (r: Self)
        ensures
            r.lazy == lazy,
            table_views(r.table@) == table_views(table@),
    {
        ChineseG2p { lazy, splitter: WordSplitter::new(), tone: ToneSandhi::new(), table }
    }

    fn word(&self, w: &String, pos: &String) -> (r: (Vec<String>, Vec<String>))
        requires
            self.lazy.wf(),
        ensures
            (views(r.0@), views(r.1@)) == word_syllables(self.lazy, w@, pos@),
    {
        let ini = flat_strings(&self.lazy.lazy_pinyin(w.as_str(), Style::Initials, true));
        let fin = flat_strings(&self.lazy.lazy_pinyin(w.as_str(), Style::InitialsTone3, true));
        let n = chars_of(w.as_str()).len();
        let mut toned = true;
        let mut i: usize = 0;
        while i < fin.len()
            invariant
                i <= fin.len(),
                toned == forall|k: int| 0 <= k < i ==> (#[trigger] views(fin@)[k]).len() > 0,
            decreases fin.len() - i,
        {
            assert(views(fin@)[i as int] == fin@[i as int]@);
            if chars_of(fin[i].as_str()).len() == 0 {
                toned = false;
            }
            i += 1;
        }
        if toned && fin.len() == n {
            let f = self.tone.modified_tone(w.as_str(), pos.as_str(), fin, &self.splitter);
            (ini, f)
        } else {
            (ini, fin)
        }
    }

    fn segment(&self, seg: &String) -> (r: (Vec<String>, Vec<usize>))
        requires
            self.lazy.wf(),
        ensures
            (views(r.0@), r.1@) == segment_phones(self.lazy, table_views(self.table@), seg@),
            total(r.1@) == r.0.len(),
    {
        let v = chars_of(seg.as_str());
        let mut kept: Vec<char> = Vec::new();
        let mut i: usize = 0;
        while i < v.len()
            invariant
                i <= v.len(),
                kept@ == without_letters(v@.subrange(0, i as int)),
            decreases v.len() - i,
        {
            assert(v@.subrange(0, i + 1).drop_last() == v@.subrange(0, i as int));
            if !(('a' <= v[i] && v[i] <= 'z') || ('A' <= v[i] && v[i] <= 'Z')) {
                kept.push(v[i]);
            }
            i += 1;
        }
        assert(v@.subrange(0, v.len() as int) == v@);
        let tags = self.splitter.tag(string_of(&kept).as_str());
        let merged = self.tone.pre_merge_for_modify(&tags);
        let ghost m = tagged(merged@);
        let mut ini: Vec<String> = Vec::new();
        let mut fin: Vec<String> = Vec::new();
        let mut k: usize = 0;
        while k < merged.len()
            invariant
                self.lazy.wf(),
                m == tagged(merged@),
                k <= merged.len(),
                (views(ini@), views(fin@)) == words_syllables(self.lazy, m, k as int),
            decreases merged.len() - k,
        {
            assert(m[k as int] == (merged@[k as int].0@, merged@[k as int].1@));
            let p = chars_of(merged[k].1.as_str());
            if !(p.len() == 3 && p[0] == 'e' && p[1] == 'n' && p[2] == 'g') {
                let (a, b) = self.word(&merged[k].0, &merged[k].1);
                let ghost i0 = views(ini@);
                let ghost f0 = views(fin@);
                let mut a = a;
                let mut b = b;
                proof {
                    crate::cleaned::lemma_views_concat_pub(ini@, a@);
                    crate::cleaned::lemma_views_concat_pub(fin@, b@);
                }
                ini.append(&mut a);
                fin.append(&mut b);
            }
            k += 1;
        }
        let n = if ini.len() < fin.len() { ini.len() } else { fin.len() };
        let ini_n = crate::tone_sandhi::slice_strings_pub(&ini, 0, n);
        let fin_n = crate::tone_sandhi::slice_strings_pub(&fin, 0, n);
        assert(views(ini@).len() == ini.len());
        assert(views(fin@).len() == fin.len());
        assert(views(ini_n@).len() == ini_n.len());
        assert(views(fin_n@).len() == fin_n.len());
        let ghost kv = kept@;
        assert(kv == without_letters(seg@));
        syllables_to_phones(&ini_n, &fin_n, &self.table)
    }

    /// The phonemes of a normalised Chinese text and the number of phonemes
    /// of each syllable: the text is cut into pieces (see `g2p_pieces`),
    /// then converted (see `segments_phones`).
    pub fn g2p(&self, text: &str) -> (r: (Vec<String>, Vec<usize>))
        requires
            self.lazy.wf(),
        ensures
            (views(r.0@), r.1@) == segments_phones(self.lazy, table_views(self.table@), g2p_pieces(text@),
                g2p_pieces(text@).len() as int),
            total(r.1@) == r.0.len(),
    {
        let v = chars_of(text);
        let mut done: Vec<String> = Vec::new();
        let mut cur: Vec<char> = Vec::new();
        let mut i: usize = 0;
        while i < v.len()
            invariant
                v@ == text@,
                i <= v.len(),
                (views(done@), cur@) == piece_fold(v@, i as int),
            decreases v.len() - i,
        {
            let c = v[i];
            if c == '!' || c == '?' || c == '…' || c == ',' || c == '.' || c == '-' {
                cur.push(c);
                let p = string_of(&cur);
                if crate::cleaned::has_visible_pub(&p) {
                    proof {
                        lemma_views_push(done@, p);
                    }
                    done.push(p);
                }
                cur = Vec::new();
            } else {
                cur.push(c);
            }
            i += 1;
        }
        let p = string_of(&cur);
        if crate::cleaned::has_visible_pub(&p) {
            proof {
                lemma_views_push(done@, p);
            }
            done.push(p);
        }
        self.g2p_segments(&done)
    }

    /// The phonemes of the sentences of a Chinese text and the number of
    /// phonemes of each syllable (see `segments_phones`).
    pub fn g2p_segments(&self, segments: &Vec<String>) -> (r: (Vec<String>, Vec<usize>))
        requires
            self.lazy.wf(),
        ensures
            (views(r.0@), r.1@) == segments_phones(self.lazy, table_views(self.table@), views(segments@), segments.len() as int),
            total(r.1@) == r.0.len(),
    {
        let ghost sv = views(segments@);
        let mut phones: Vec<String> = Vec::new();
        let mut w2p: Vec<usize> = Vec::new();
        let mut i: usize = 0;
        while i < segments.len()
            invariant
                self.lazy.wf(),
                sv == views(segments@),
                i <= segments.len(),
                (views(phones@), w2p@) == segments_phones(self.lazy, table_views(self.table@), sv, i as int),
                total(w2p@) == phones.len(),
            decreases segments.len() - i,
        {
            assert(sv[i as int] == segments@[i as int]@);
            let (p, w) = self.segment(&segments[i]);
            let mut p = p;
            let mut w = w;
            proof {
                crate::cleaned::lemma_views_concat_pub(phones@, p@);
                lemma_total_push_all(w2p@, w@);
            }
            phones.append(&mut p);
            w2p.append(&mut w);
            i += 1;
        }
        (phones, w2p)
    }
}

} // verus!
