//! Cutting of a text into chunks short enough for one synthesis step:
//! sentences are cut at 。 (and at ， when too long), packed greedily up
//! to a character budget, and chunks shorter than five characters are
//! merged into their neighbours.
use vstd::prelude::*;
use crate::chars::{chars_of, extend_chars, lemma_views_push, slice_chars, string_of, views};
use crate::mmseg::char_views;
use crate::cleaned::Lang;

verus! {

/// `s` without the `c` at its start.
pub open spec fn trim_start(s: Seq<char>, c: char) -> Seq<char>
    decreases s.len(),
{
    if s.len() > 0 && s[0] == c { trim_start(s.drop_first(), c) } else { s }
}

/// `s` without the `c` at its end.
pub open spec fn trim_end(s: Seq<char>, c: char) -> Seq<char>
    decreases s.len(),
{
    if s.len() > 0 && s.last() == c { trim_end(s.drop_last(), c) } else { s }
}

/// `s` without the `c` at either end.
pub open spec fn trim(s: Seq<char>, c: char) -> Seq<char> {
    trim_end(trim_start(s, c), c)
}

/// `s` with every `a` written `b`.
pub open spec fn swap(s: Seq<char>, a: char, b: char) -> Seq<char> {
    s.map_values(|x: char| if x == a { b } else { x })
}

/// A sentence of the first cut: one longer than `max` is cut again at each ，.
pub open spec fn sentence_lines(p: Seq<char>, max: int) -> Seq<char> {
    if p.len() > max { swap(p, '，', '\n') } else { p }
}

/// The first cut over the first `n` characters of `t`: the lines so far and
/// the sentence being read.
pub open spec fn period_fold(t: Seq<char>, max: int, n: int) -> (Seq<char>, Seq<char>)
    decreases n,
{
    if n <= 0 {
        (seq![], seq![])
    } else {
        let (done, cur) = period_fold(t, max, n - 1);
        if t[n - 1] == '。' {
            (done + sentence_lines(cur, max) + seq!['\n'], seq![])
        } else {
            (done, cur.push(t[n - 1]))
        }
    }
}

/// The first cut: the text, trimmed of line breaks and then of 。, with
/// one line per sentence.
pub open spec fn period_cut(s: Seq<char>, max: int) -> Seq<char> {
    let t = trim(trim(s, '\n'), '。');
    let (done, cur) = period_fold(t, max, t.len() as int);
    done + sentence_lines(cur, max)
}

/// `s` from `i` on with each pair `c c` written `r`, left to right.
pub open spec fn pairs_from(s: Seq<char>, c: char, r: char, i: int) -> Seq<char>
    decreases s.len() - i,
{
    if i < 0 || i >= s.len() {
        seq![]
    } else if i + 1 < s.len() && s[i] == c && s[i + 1] == c {
        seq![r] + pairs_from(s, c, r, i + 2)
    } else {
        seq![s[i]] + pairs_from(s, c, r, i + 1)
    }
}

/// `s` with each pair `c c` written `r`.
pub open spec fn replace_pairs(s: Seq<char>, c: char, r: char) -> Seq<char> {
    pairs_from(s, c, r, 0)
}

/// The text the sentence splitter cuts: …… written 。, —— written ，, and a
/// 。 added when it does not end with a delimiter of `splits`.
pub open spec fn prepared(s: Seq<char>, splits: Seq<char>) -> Seq<char> {
    let t = replace_pairs(replace_pairs(s, '…', '。'), '—', '，');
    if t.len() > 0 && splits.contains(t.last()) { t } else { t.push('。') }
}

/// The sentences of the first `n` characters of `t` that end in a delimiter
/// of `splits`, and the sentence being read.
pub open spec fn sentence_fold(t: Seq<char>, splits: Seq<char>, n: int) -> (Seq<Seq<char>>, Seq<char>)
    decreases n,
{
    if n <= 0 {
        (seq![], seq![])
    } else {
        let (done, cur) = sentence_fold(t, splits, n - 1);
        if splits.contains(t[n - 1]) {
            (done.push(cur.push(t[n - 1])), seq![])
        } else {
            (done, cur.push(t[n - 1]))
        }
    }
}

/// The sentences of a text, each ending in its delimiter.
pub open spec fn sentences(s: Seq<char>, splits: Seq<char>) -> Seq<Seq<char>> {
    let t = prepared(s, splits);
    sentence_fold(t, splits, t.len() as int).0
}

/// The pieces of `p` laid end to end.
pub open spec fn flatten(p: Seq<Seq<char>>) -> Seq<char>
    decreases p.len(),
{
    if p.len() == 0 { seq![] } else { flatten(p.drop_last()) + p.last() }
}

/// Greedy packing of the first `n` sentences: the chunks so far, the
/// characters counted since the last chunk, and the chunk being filled; a
/// chunk is closed as soon as its count passes `max`.
pub open spec fn pack_fold(p: Seq<Seq<char>>, max: int, n: int) -> (Seq<Seq<char>>, int, Seq<char>)
    decreases n,
{
    if n <= 0 {
        (seq![], 0, seq![])
    } else {
        let (opts, summ, tmp) = pack_fold(p, max, n - 1);
        let summ2 = summ + p[n - 1].len();
        let tmp2 = tmp + p[n - 1];
        if summ2 > max { (opts.push(tmp2), 0, seq![]) } else { (opts, summ2, tmp2) }
    }
}

/// The chunks of the packing, with a last chunk shorter than `max` folded
/// into the one before it.
pub open spec fn packed(p: Seq<Seq<char>>, max: int) -> Seq<Seq<char>> {
    let (opts0, summ, tmp) = pack_fold(p, max, p.len() as int);
    let opts = if tmp.len() > 0 { opts0.push(tmp) } else { opts0 };
    let n = opts.len();
    if n > 1 && opts[n - 1].len() < max {
        opts.subrange(0, n - 2).push(opts[n - 2] + opts[n - 1])
    } else {
        opts
    }
}

/// The lines laid end to end with a line break between two.
pub open spec fn join_lines(p: Seq<Seq<char>>) -> Seq<char>
    decreases p.len(),
{
    if p.len() == 0 {
        seq![]
    } else if p.len() == 1 {
        p[0]
    } else {
        join_lines(p.drop_last()) + seq!['\n'] + p.last()
    }
}

/// The second cut: the text trimmed of line breaks; with two sentences or
/// more, their greedy packing, one chunk per line.
pub open spec fn packed_cut(s: Seq<char>, max: int, splits: Seq<char>) -> Seq<char> {
    let t = trim(s, '\n');
    let p = sentences(t, splits);
    if p.len() < 2 { t } else { join_lines(packed(p, max)) }
}

/// The lines of the first `n` characters of `t` and the line being read.
pub open spec fn line_fold(t: Seq<char>, n: int) -> (Seq<Seq<char>>, Seq<char>)
    decreases n,
{
    if n <= 0 {
        (seq![], seq![])
    } else {
        let (done, cur) = line_fold(t, n - 1);
        if t[n - 1] == '\n' { (done.push(cur), seq![]) } else { (done, cur.push(t[n - 1])) }
    }
}

/// The lines of a text.
pub open spec fn lines(t: Seq<char>) -> Seq<Seq<char>> {
    let (done, cur) = line_fold(t, t.len() as int);
    done.push(cur)
}

/// Merging of the first `n` texts: texts are joined until the joined text
/// has `threshold` characters or more.
pub open spec fn merge_fold(p: Seq<Seq<char>>, threshold: int, n: int) -> (Seq<Seq<char>>, Seq<char>)
    decreases n,
{
    if n <= 0 {
        (seq![], seq![])
    } else {
        let (done, text) = merge_fold(p, threshold, n - 1);
        let t2 = text + p[n - 1];
        if t2.len() >= threshold { (done.push(t2), seq![]) } else { (done, t2) }
    }
}

/// Short texts merged with their neighbours so that each text but possibly
/// a lone one has `threshold` characters or more.
pub open spec fn merged_short(p: Seq<Seq<char>>, threshold: int) -> Seq<Seq<char>> {
    if p.len() < 2 {
        p
    } else {
        let (done, text) = merge_fold(p, threshold, p.len() as int);
        if text.len() == 0 {
            done
        } else if done.len() == 0 {
            seq![text]
        } else {
            done.update(done.len() - 1, done.last() + text)
        }
    }
}

/// The chunks of a text: the first and second cuts, then the lines of the
/// result with lines under five characters merged; a text that leaves
/// nothing after the cuts has no chunk.
pub open spec fn chunks(s: Seq<char>, max: int, splits: Seq<char>) -> Seq<Seq<char>> {
    let t = packed_cut(period_cut(s, max), max, splits);
    if t.len() == 0 { seq![] } else { merged_short(lines(t), 5) }
}

/// Whether `c` is an ASCII letter.
pub open spec fn is_ascii_letter(c: char) -> bool {
    ('a' <= c && c <= 'z') || ('A' <= c && c <= 'Z')
}

/// Length of the run of ASCII letters of `s` from `i`.
pub open spec fn letter_run(s: Seq<char>, i: int) -> nat
    decreases s.len() - i,
{
    if 0 <= i < s.len() && is_ascii_letter(s[i]) { 1 + letter_run(s, i + 1) } else { 0 }
}

/// Whether `c` joins the two ends of a range: `—`, `-`, `>`, `～` or `~`.
pub open spec fn is_range_mark(c: char) -> bool {
    c == '—' || c == '-' || c == '>' || c == '～' || c == '~'
}

/// End of the range `letters mark letters` (or `letters mark digits` when
/// `digits`) at `i`, or `i`.
pub open spec fn az_end(s: Seq<char>, i: int, digits: bool) -> int {
    let k = i + letter_run(s, i);
    let r2 = if digits { crate::num::run(s, k + 1) } else { letter_run(s, k + 1) };
    if letter_run(s, i) > 0 && 0 <= k < s.len() && is_range_mark(s[k]) && r2 > 0 { k + 1 + r2 } else { i }
}

/// `s` from `i` on with the mark of every such range written `word`.
pub open spec fn az_from(s: Seq<char>, i: int, digits: bool, word: Seq<char>) -> Seq<char>
    decreases s.len() - i,
{
    if i < 0 || i >= s.len() {
        seq![]
    } else {
        let e = az_end(s, i, digits);
        let k = i + letter_run(s, i);
        if i < e <= s.len() {
            s.subrange(i, k) + word + s.subrange(k + 1, e) + az_from(s, e, digits, word)
        } else {
            seq![s[i]] + az_from(s, i + 1, digits, word)
        }
    }
}

/// Letter ranges read in a language: `a-z` is `a至z` in Chinese and
/// `a to z` otherwise; `a-1` is `a杠1` in Chinese and `a 1` otherwise.
pub open spec fn az_ranges(s: Seq<char>, chinese: bool) -> Seq<char> {
    let zhi = if chinese { seq!['至'] } else { seq![' ', 't', 'o', ' '] };
    let gan = if chinese { seq!['杠'] } else { seq![' '] };
    az_from(az_from(s, 0, false, zhi), 0, true, gan)
}

/// Whether `c` belongs to a Latin piece of a mixed sentence: an ASCII
/// letter or digit, `|`, `.` or `%`.
pub open spec fn is_latin_char(c: char) -> bool {
    is_ascii_letter(c) || crate::chars::is_digit(c) || c == '|' || c == '.' || c == '%'
}

/// Whether `c` is a CJK ideograph of the basic block.
pub open spec fn is_han(c: char) -> bool {
    '\u{4e00}' <= c && c <= '\u{9fa5}'
}

/// The pieces of the first `n` characters of `s`: maximal runs of Latin
/// characters and of other characters, cut at line breaks, which are
/// dropped; and the piece being read.
pub open spec fn piece_fold(s: Seq<char>, n: int) -> (Seq<Seq<char>>, Seq<char>)
    decreases n,
{
    if n <= 0 {
        (seq![], seq![])
    } else {
        let (done, cur) = piece_fold(s, n - 1);
        let c = s[n - 1];
        if c == '\n' {
            (if cur.len() > 0 { done.push(cur) } else { done }, seq![])
        } else if cur.len() > 0 && is_latin_char(cur.last()) != is_latin_char(c) {
            (done.push(cur), seq![c])
        } else {
            (done, cur.push(c))
        }
    }
}

/// The pieces of a sentence for a second language detection: the sentence
/// itself when it has no ASCII letter or no Chinese character, else its
/// Latin and other runs.
pub open spec fn latin_pieces(s: Seq<char>) -> Seq<Seq<char>> {
    if !(exists|k: int| 0 <= k < s.len() && is_ascii_letter(s[k])) || !(exists|k: int| 0 <= k < s.len() && is_han(s[k])) {
        seq![s]
    } else {
        let (done, cur) = piece_fold(s, s.len() as int);
        if cur.len() > 0 { done.push(cur) } else { done }
    }
}

proof fn lemma_sentence_fold(t: Seq<char>, splits: Seq<char>, n: int)
    requires
        0 <= n <= t.len(),
    ensures
        flatten(sentence_fold(t, splits, n).0) + sentence_fold(t, splits, n).1 == t.subrange(0, n),
        n > 0 && splits.contains(t[n - 1]) ==> sentence_fold(t, splits, n).1 == Seq::<char>::empty(),
    decreases n,
{
    if n > 0 {
        lemma_sentence_fold(t, splits, n - 1);
        let (done, cur) = sentence_fold(t, splits, n - 1);
        assert(t.subrange(0, n) == t.subrange(0, n - 1).push(t[n - 1]));
        if splits.contains(t[n - 1]) {
            assert(done.push(cur.push(t[n - 1])).drop_last() == done);
            assert(flatten(done.push(cur.push(t[n - 1]))) == flatten(done) + cur.push(t[n - 1]));
        }
    } else {
        assert(t.subrange(0, 0) == Seq::<char>::empty());
    }
}

/// Splitting a text into sentences loses nothing: the sentences laid end to
/// end give back the text, with …… and —— written 。 and ， and a 。 added
/// when it did not end with a delimiter.
pub proof fn lemma_sentences_join(s: Seq<char>, splits: Seq<char>)
    requires
        splits.contains('。'),
    ensures
        flatten(sentences(s, splits)) == prepared(s, splits),
{
    let t = prepared(s, splits);
    lemma_sentence_fold(t, splits, t.len() as int);
    assert(t.len() > 0 && splits.contains(t.last()));
    assert(t[t.len() - 1] == t.last());
    assert(t.subrange(0, t.len() as int) == t);
}

/// Whether a sentence is not empty, ends with a delimiter, and has no
/// delimiter before its end.
pub open spec fn sentence_shaped(p: Seq<char>, splits: Seq<char>) -> bool {
    &&& p.len() > 0
    &&& splits.contains(p.last())
    &&& forall|m: int| 0 <= m < p.len() - 1 ==> !splits.contains(#[trigger] p[m])
}

proof fn lemma_sentence_shapes(t: Seq<char>, splits: Seq<char>, n: int)
    requires
        0 <= n <= t.len(),
    ensures
        forall|j: int| 0 <= j < sentence_fold(t, splits, n).0.len()
            ==> sentence_shaped(#[trigger] sentence_fold(t, splits, n).0[j], splits),
        forall|m: int| 0 <= m < sentence_fold(t, splits, n).1.len() ==> !splits.contains(#[trigger] sentence_fold(t, splits, n).1[m]),
    decreases n,
{
    if n > 0 {
        lemma_sentence_shapes(t, splits, n - 1);
        let (done, cur) = sentence_fold(t, splits, n - 1);
        let c = t[n - 1];
        if splits.contains(c) {
            let piece = cur.push(c);
            assert forall|m: int| 0 <= m < piece.len() - 1 implies !splits.contains(#[trigger] piece[m]) by {
                assert(piece[m] == cur[m]);
            }
            assert(sentence_shaped(piece, splits));
            let d2 = done.push(piece);
            assert forall|j: int| 0 <= j < d2.len() implies sentence_shaped(#[trigger] d2[j], splits) by {
                if j < done.len() {
                    assert(d2[j] == done[j]);
                }
            }
        } else {
            let c2 = cur.push(c);
            assert forall|m: int| 0 <= m < c2.len() implies !splits.contains(#[trigger] c2[m]) by {
                if m < cur.len() {
                    assert(c2[m] == cur[m]);
                }
            }
        }
    }
}

/// A text that ends with a delimiter and holds no …… or —— is given back
/// as it is by joining its sentences, and each sentence is not empty, ends
/// with a delimiter and has no delimiter before its end.
///
/// Both laws assume that 。 is a delimiter, as it is for `LangSegment::new`.
pub proof fn lemma_sentences_join_plain(s: Seq<char>, splits: Seq<char>)
    requires
        splits.contains('。'),
        s.len() > 0,
        splits.contains(s.last()),
        forall|k: int| 0 <= k < s.len() - 1 ==> !(#[trigger] s[k] == '…' && s[k + 1] == '…'),
        forall|k: int| 0 <= k < s.len() - 1 ==> !(#[trigger] s[k] == '—' && s[k + 1] == '—'),
    ensures
        flatten(sentences(s, splits)) == s,
        forall|j: int| 0 <= j < sentences(s, splits).len() ==> sentence_shaped(#[trigger] sentences(s, splits)[j], splits),
{
    lemma_sentence_shapes(prepared(s, splits), splits, prepared(s, splits).len() as int);
    lemma_sentences_join(s, splits);
    lemma_pairs_identity(s, '…', '。', 0);
    assert(s.subrange(0, s.len() as int) == s);
    assert(replace_pairs(s, '…', '。') == s);
    lemma_pairs_identity(s, '—', '，', 0);
    assert(replace_pairs(s, '—', '，') == s);
}

proof fn lemma_pairs_identity(s: Seq<char>, c: char, r: char, i: int)
    requires
        0 <= i <= s.len(),
        forall|k: int| 0 <= k < s.len() - 1 ==> !(#[trigger] s[k] == c && s[k + 1] == c),
    ensures
        pairs_from(s, c, r, i) == s.subrange(i, s.len() as int),
    decreases s.len() - i,
{
    if i < s.len() {
        lemma_pairs_identity(s, c, r, i + 1);
        assert(seq![s[i]] + s.subrange(i + 1, s.len() as int) == s.subrange(i, s.len() as int));
    } else {
        assert(s.subrange(i, s.len() as int) == Seq::<char>::empty());
    }
}

/// An empty text has no chunk.
pub proof fn lemma_no_chunks_of_empty(max: int, splits: Seq<char>)
    ensures
        chunks(seq![], max, splits) == Seq::<Seq<char>>::empty(),
{
    let e = Seq::<char>::empty();
    assert(trim_start(e, '\n') == e);
    assert(trim_end(e, '\n') == e);
    assert(trim_start(e, '。') == e);
    assert(trim_end(e, '。') == e);
    assert(period_fold(e, max, 0) == (e, e));
    assert(sentence_lines(e, max) == e);
    assert(period_cut(e, max) == e);
    assert(pairs_from(e, '…', '。', 0) == e);
    assert(pairs_from(e, '—', '，', 0) == e);
    let t = prepared(e, splits);
    assert(t == seq!['。']);
    let f1 = sentence_fold(t, splits, 0);
    assert(f1 == (Seq::<Seq<char>>::empty(), e));
    let f = sentence_fold(t, splits, 1);
    assert(f.0.len() <= 1);
    assert(packed_cut(e, max, splits) == e);
}

proof fn lemma_trim_start_at(s: Seq<char>, c: char, k: int)
    requires
        0 <= k <= s.len(),
        forall|m: int| 0 <= m < k ==> s[m] == c,
        k == s.len() || s[k] != c,
    ensures
        trim_start(s, c) == s.subrange(k, s.len() as int),
    decreases k,
{
    if k > 0 {
        assert forall|m: int| 0 <= m < k - 1 implies s.drop_first()[m] == c by {
            assert(s.drop_first()[m] == s[m + 1]);
        }
        lemma_trim_start_at(s.drop_first(), c, k - 1);
        assert(s.drop_first().subrange(k - 1, s.len() - 1) == s.subrange(k, s.len() as int));
    } else {
        assert(s.subrange(0, s.len() as int) == s);
    }
}

proof fn lemma_trim_end_at(s: Seq<char>, c: char, n: int)
    requires
        0 <= n <= s.len(),
        forall|m: int| n <= m < s.len() ==> s[m] == c,
        n == 0 || s[n - 1] != c,
    ensures
        trim_end(s, c) == s.subrange(0, n),
    decreases s.len() - n,
{
    if s.len() > n {
        assert forall|m: int| n <= m < s.drop_last().len() implies s.drop_last()[m] == c by {
            assert(s.drop_last()[m] == s[m]);
        }
        lemma_trim_end_at(s.drop_last(), c, n);
        assert(s.drop_last().subrange(0, n) == s.subrange(0, n));
    } else {
        assert(s.subrange(0, n) == s);
    }
}

fn trim_chars(v: &Vec<char>, c: char) -> (r: Vec<char>)
    ensures
        r@ == trim(v@, c),
{
    let mut k: usize = 0;
    while k < v.len() && v[k] == c
        invariant
            k <= v.len(),
            forall|m: int| 0 <= m < k ==> v@[m] == c,
        decreases v.len() - k,
    {
        k += 1;
    }
    proof {
        lemma_trim_start_at(v@, c, k as int);
    }
    let t = slice_chars(v, k, v.len());
    let mut n: usize = t.len();
    while n > 0 && t[n - 1] == c
        invariant
            n <= t.len(),
            forall|m: int| n <= m < t.len() ==> t@[m] == c,
        decreases n,
    {
        n -= 1;
    }
    proof {
        lemma_trim_end_at(t@, c, n as int);
    }
    slice_chars(&t, 0, n)
}

fn swap_chars(v: &Vec<char>, a: char, b: char) -> (r: Vec<char>)
    ensures
        r@ == swap(v@, a, b),
{
    let mut out: Vec<char> = Vec::new();
    let mut i: usize = 0;
    while i < v.len()
        invariant
            i <= v.len(),
            out@ =~= swap(v@.subrange(0, i as int), a, b),
        decreases v.len() - i,
    {
        out.push(if v[i] == a { b } else { v[i] });
        i += 1;
    }
    assert(v@.subrange(0, v.len() as int) == v@);
    out
}

fn sentence_lines_chars(p: &Vec<char>, max: usize) -> (r: Vec<char>)
    ensures
        r@ == sentence_lines(p@, max as int),
{
    if p.len() > max { swap_chars(p, '，', '\n') } else { slice_chars(p, 0, p.len()) }
}

fn period_cut_chars(v: &Vec<char>, max: usize) -> (r: Vec<char>)
    ensures
        r@ == period_cut(v@, max as int),
{
    let t = trim_chars(&trim_chars(v, '\n'), '。');
    let mut done: Vec<char> = Vec::new();
    let mut cur: Vec<char> = Vec::new();
    let mut i: usize = 0;
    while i < t.len()
        invariant
            i <= t.len(),
            (done@, cur@) == period_fold(t@, max as int, i as int),
        decreases t.len() - i,
    {
        if t[i] == '。' {
            let piece = sentence_lines_chars(&cur, max);
            extend_chars(&mut done, &piece);
            done.push('\n');
            cur = Vec::new();
        } else {
            cur.push(t[i]);
        }
        i += 1;
    }
    let piece = sentence_lines_chars(&cur, max);
    extend_chars(&mut done, &piece);
    done
}

fn replace_pairs_chars(v: &Vec<char>, c: char, r: char) -> (out: Vec<char>)
    ensures
        out@ == replace_pairs(v@, c, r),
{
    let mut out: Vec<char> = Vec::new();
    let mut i: usize = 0;
    while i < v.len()
        invariant
            i <= v.len(),
            out@ + pairs_from(v@, c, r, i as int) == replace_pairs(v@, c, r),
        decreases v.len() - i,
    {
        if i + 1 < v.len() && v[i] == c && v[i + 1] == c {
            assert(out@ + pairs_from(v@, c, r, i as int) == out@.push(r) + pairs_from(v@, c, r, i + 2));
            out.push(r);
            i += 2;
        } else {
            assert(out@ + pairs_from(v@, c, r, i as int) == out@.push(v@[i as int]) + pairs_from(v@, c, r, i + 1));
            out.push(v[i]);
            i += 1;
        }
    }
    assert(out@ + Seq::<char>::empty() == out@);
    out
}

fn contains_char(v: &Vec<char>, c: char) -> (r: bool)
    ensures
        r == v@.contains(c),
{
    let mut i: usize = 0;
    while i < v.len()
        invariant
            i <= v.len(),
            forall|k: int| 0 <= k < i ==> v@[k] != c,
        decreases v.len() - i,
    {
        if v[i] == c {
            return true;
        }
        i += 1;
    }
    false
}

proof fn lemma_char_views_push(v: Seq<Vec<char>>, w: Vec<char>)
    ensures
        char_views(v.push(w)) == char_views(v).push(w@),
{
    assert(char_views(v.push(w)) =~= char_views(v).push(w@));
}

fn join_lines_chars(p: &Vec<Vec<char>>) -> (r: Vec<char>)
    ensures
        r@ == join_lines(char_views(p@)),
{
    let ghost q = char_views(p@);
    let mut out: Vec<char> = Vec::new();
    let mut i: usize = 0;
    while i < p.len()
        invariant
            q == char_views(p@),
            i <= p.len(),
            out@ == join_lines(q.subrange(0, i as int)),
        decreases p.len() - i,
    {
        if i > 0 {
            out.push('\n');
        }
        extend_chars(&mut out, &p[i]);
        i += 1;
        assert(q.subrange(0, i as int).drop_last() == q.subrange(0, i - 1));
        assert(q[i - 1] == p@[i - 1]@);
    }
    assert(q.subrange(0, p.len() as int) == q);
    out
}

fn letter_run_at(v: &Vec<char>, i: usize) -> (r: usize)
    requires
        i <= v.len(),
    ensures
        r == letter_run(v@, i as int),
        i + r <= v.len(),
    decreases v.len() - i,
{
    if i < v.len() && (('a' <= v[i] && v[i] <= 'z') || ('A' <= v[i] && v[i] <= 'Z')) {
        letter_run_at(v, i + 1) + 1
    } else {
        0
    }
}

fn az_chars(v: &Vec<char>, digits: bool, word: &Vec<char>) -> (r: Vec<char>)
    ensures
        r@ == az_from(v@, 0, digits, word@),
{
    let mut out: Vec<char> = Vec::new();
    let mut i: usize = 0;
    while i < v.len()
        invariant
            i <= v.len(),
            out@ + az_from(v@, i as int, digits, word@) == az_from(v@, 0, digits, word@),
        decreases v.len() - i,
    {
        let r = letter_run_at(v, i);
        let k = i + r;
        let mut e = i;
        if r > 0 && k < v.len() && (v[k] == '—' || v[k] == '-' || v[k] == '>' || v[k] == '～' || v[k] == '~') {
            let r2 = if digits { crate::num::digit_run(v, k + 1) } else { letter_run_at(v, k + 1) };
            if r2 > 0 {
                e = k + 1 + r2;
            }
        }
        assert(e as int == az_end(v@, i as int, digits));
        if e > i {
            let mut piece = slice_chars(v, i, k);
            extend_chars(&mut piece, word);
            extend_chars(&mut piece, &slice_chars(v, k + 1, e));
            assert(out@ + az_from(v@, i as int, digits, word@) == (out@ + piece@) + az_from(v@, e as int, digits, word@));
            extend_chars(&mut out, &piece);
            i = e;
        } else {
            assert(out@ + az_from(v@, i as int, digits, word@) == out@.push(v@[i as int]) + az_from(v@, i + 1, digits, word@));
            out.push(v[i]);
            i += 1;
        }
    }
    assert(out@ + Seq::<char>::empty() == out@);
    out
}

fn is_latin_char_exec(c: char) -> (r: bool)
    ensures
        r == is_latin_char(c),
{
    ('a' <= c && c <= 'z') || ('A' <= c && c <= 'Z') || ('0' <= c && c <= '9') || c == '|' || c == '.' || c == '%'
}

/// Cutter of a text into chunks.
pub struct LangSegment {
    /// The characters that end a sentence.
    pub splits: Vec<char>,
}

impl LangSegment {
    /// A cutter with the sentence delimiters `，。？！,.?!~:：—…`.
    pub fn new() -> (r: Self)
        ensures
            r.splits@ == seq!['，', '。', '？', '！', ',', '.', '?', '!', '~', ':', '：', '—', '…'],
    {
        LangSegment { splits: vec!['，', '。', '？', '！', ',', '.', '?', '!', '~', ':', '：', '—', '…'] }
    }

    /// The first cut at 。 (see `period_cut`).
    pub fn cut3(&self, inp: &str, max_num: usize) -> (r: String)
        ensures
            r@ == period_cut(inp@, max_num as int),
    {
        string_of(&period_cut_chars(&chars_of(inp), max_num))
    }

    fn sentences_chars(&self, t: &Vec<char>) -> (r: Vec<Vec<char>>)
        ensures
            char_views(r@) == sentences(t@, self.splits@),
    {
        let a = replace_pairs_chars(t, '…', '。');
        let mut b = replace_pairs_chars(&a, '—', '，');
        if !(b.len() > 0 && contains_char(&self.splits, b[b.len() - 1])) {
            b.push('。');
        }
        assert(b@ == prepared(t@, self.splits@));
        let mut done: Vec<Vec<char>> = Vec::new();
        let mut cur: Vec<char> = Vec::new();
        let mut i: usize = 0;
        while i < b.len()
            invariant
                i <= b.len(),
                (char_views(done@), cur@) == sentence_fold(b@, self.splits@, i as int),
            decreases b.len() - i,
        {
            let c = b[i];
            cur.push(c);
            if contains_char(&self.splits, c) {
                proof {
                    lemma_char_views_push(done@, cur);
                }
                done.push(cur);
                cur = Vec::new();
            }
            i += 1;
        }
        done
    }

    /// The sentences of a text, each with its delimiter (see `sentences`).
    pub fn split(&self, todo_text: &str) -> (r: Vec<String>)
        ensures
            views(r@) == sentences(todo_text@, self.splits@),
    {
        let p = self.sentences_chars(&chars_of(todo_text));
        let mut out: Vec<String> = Vec::new();
        let mut i: usize = 0;
        while i < p.len()
            invariant
                i <= p.len(),
                views(out@) == char_views(p@).subrange(0, i as int),
            decreases p.len() - i,
        {
            let s = string_of(&p[i]);
            proof {
                lemma_views_push(out@, s);
            }
            out.push(s);
            i += 1;
            assert(views(out@) =~= char_views(p@).subrange(0, i as int));
        }
        assert(char_views(p@).subrange(0, p.len() as int) == char_views(p@));
        out
    }

    fn packed_chars(p: &Vec<Vec<char>>, max: usize) -> (r: Vec<Vec<char>>)
        ensures
            char_views(r@) == packed(char_views(p@), max as int),
    {
        let ghost q = char_views(p@);
        let mut opts: Vec<Vec<char>> = Vec::new();
        let mut summ: usize = 0;
        let mut tmp: Vec<char> = Vec::new();
        let mut i: usize = 0;
        while i < p.len()
            invariant
                q == char_views(p@),
                i <= p.len(),
                summ <= max,
                (char_views(opts@), summ as int, tmp@) == pack_fold(q, max as int, i as int),
            decreases p.len() - i,
        {
            assert(q[i as int] == p@[i as int]@);
            extend_chars(&mut tmp, &p[i]);
            if p[i].len() > max - summ {
                proof {
                    lemma_char_views_push(opts@, tmp);
                }
                opts.push(tmp);
                tmp = Vec::new();
                summ = 0;
            } else {
                summ = summ + p[i].len();
            }
            i += 1;
        }
        if tmp.len() > 0 {
            proof {
                lemma_char_views_push(opts@, tmp);
            }
            opts.push(tmp);
        }
        let n = opts.len();
        if n > 1 && opts[n - 1].len() < max {
            let last = opts.pop().unwrap();
            let mut prev = opts.pop().unwrap();
            extend_chars(&mut prev, &last);
            proof {
                lemma_char_views_push(opts@, prev);
            }
            opts.push(prev);
        }
        proof {
            let o = char_views(opts@);
            assert(o =~= packed(q, max as int));
        }
        opts
    }

    fn packed_cut_chars(&self, v: &Vec<char>, max: usize) -> (r: Vec<char>)
        ensures
            r@ == packed_cut(v@, max as int, self.splits@),
    {
        let t = trim_chars(v, '\n');
        let p = self.sentences_chars(&t);
        if p.len() < 2 {
            t
        } else {
            join_lines_chars(&LangSegment::packed_chars(&p, max))
        }
    }

    fn lines_chars(t: &Vec<char>) -> (r: Vec<Vec<char>>)
        ensures
            char_views(r@) == lines(t@),
    {
        let mut done: Vec<Vec<char>> = Vec::new();
        let mut cur: Vec<char> = Vec::new();
        let mut i: usize = 0;
        while i < t.len()
            invariant
                i <= t.len(),
                (char_views(done@), cur@) == line_fold(t@, i as int),
            decreases t.len() - i,
        {
            if t[i] == '\n' {
                proof {
                    lemma_char_views_push(done@, cur);
                }
                done.push(cur);
                cur = Vec::new();
            } else {
                cur.push(t[i]);
            }
            i += 1;
        }
        proof {
            lemma_char_views_push(done@, cur);
        }
        done.push(cur);
        done
    }

    /// Merges short texts with their neighbours (see `merged_short`).
    pub fn merge_short_text_in_array(texts: Vec<String>, threshold: usize) -> (r: Vec<String>)
        ensures
            views(r@) == merged_short(views(texts@), threshold as int),
    {
        if texts.len() < 2 {
            return texts;
        }
        let ghost q = views(texts@);
        let mut done: Vec<String> = Vec::new();
        let mut text: Vec<char> = Vec::new();
        let mut i: usize = 0;
        while i < texts.len()
            invariant
                q == views(texts@),
                i <= texts.len(),
                (views(done@), text@) == merge_fold(q, threshold as int, i as int),
            decreases texts.len() - i,
        {
            assert(q[i as int] == texts@[i as int]@);
            let piece = chars_of(texts[i].as_str());
            extend_chars(&mut text, &piece);
            if text.len() >= threshold {
                let t = string_of(&text);
                proof {
                    lemma_views_push(done@, t);
                }
                done.push(t);
                text = Vec::new();
            }
            i += 1;
        }
        if text.len() > 0 {
            if done.len() == 0 {
                let t = string_of(&text);
                proof {
                    lemma_views_push(done@, t);
                }
                done.push(t);
                assert(views(done@) =~= seq![text@]);
            } else {
                let k = done.len() - 1;
                let mut last = chars_of(done[k].as_str());
                extend_chars(&mut last, &text);
                let t = string_of(&last);
                let ghost before = views(done@);
                done.set(k, t);
                assert(views(done@) =~= before.update(k as int, before.last() + text@));
            }
        }
        done
    }

    /// The chunks of a text for a budget of `max_num` characters (see `chunks`).
    pub fn cut_texts(&self, text: &str, max_num: usize) -> (r: Vec<String>)
        ensures
            views(r@) == chunks(text@, max_num as int, self.splits@),
    {
        let t3 = period_cut_chars(&chars_of(text), max_num);
        let t2 = self.packed_cut_chars(&t3, max_num);
        if t2.len() == 0 {
            return Vec::new();
        }
        let ls = LangSegment::lines_chars(&t2);
        let mut texts: Vec<String> = Vec::new();
        let mut i: usize = 0;
        while i < ls.len()
            invariant
                i <= ls.len(),
                views(texts@) == char_views(ls@).subrange(0, i as int),
            decreases ls.len() - i,
        {
            let s = string_of(&ls[i]);
            proof {
                lemma_views_push(texts@, s);
            }
            texts.push(s);
            i += 1;
            assert(views(texts@) =~= char_views(ls@).subrange(0, i as int));
        }
        assert(char_views(ls@).subrange(0, ls.len() as int) == char_views(ls@));
        LangSegment::merge_short_text_in_array(texts, 5)
    }

    /// Reads the letter ranges of a sentence (see `az_ranges`).
    pub fn replace_az_range(&self, sentence: &str, lang: Lang) -> (r: String)
        ensures
            r@ == az_ranges(sentence@, lang == Lang::Chinese),
    {
        let chinese = lang == Lang::Chinese;
        let zhi: Vec<char> = if chinese { vec!['至'] } else { vec![' ', 't', 'o', ' '] };
        let gan: Vec<char> = if chinese { vec!['杠'] } else { vec![' '] };
        assert(zhi@ =~= (if chinese { seq!['至'] } else { seq![' ', 't', 'o', ' '] }));
        assert(gan@ =~= (if chinese { seq!['杠'] } else { seq![' '] }));
        let a = az_chars(&chars_of(sentence), false, &zhi);
        string_of(&az_chars(&a, true, &gan))
    }

    /// The pieces of a mixed sentence for a second language detection (see
    /// `latin_pieces`).
    pub fn latin_pieces(&self, sentence: &str) -> (r: Vec<String>)
        ensures
            views(r@) == latin_pieces(sentence@),
    {
        let v = chars_of(sentence);
        let mut letter = false;
        let mut han = false;
        let mut i: usize = 0;
        while i < v.len()
            invariant
                i <= v.len(),
                letter == (exists|k: int| 0 <= k < i && is_ascii_letter(v@[k])),
                han == (exists|k: int| 0 <= k < i && is_han(v@[k])),
            decreases v.len() - i,
        {
            let c = v[i];
            if ('a' <= c && c <= 'z') || ('A' <= c && c <= 'Z') {
                letter = true;
            }
            if '\u{4e00}' <= c && c <= '\u{9fa5}' {
                han = true;
            }
            i += 1;
        }
        if !letter || !han {
            let one = string_of(&v);
            let mut r: Vec<String> = Vec::new();
            proof {
                lemma_views_push(r@, one);
            }
            r.push(one);
            return r;
        }
        let mut done: Vec<String> = Vec::new();
        let mut cur: Vec<char> = Vec::new();
        let mut j: usize = 0;
        while j < v.len()
            invariant
                j <= v.len(),
                (views(done@), cur@) == piece_fold(v@, j as int),
            decreases v.len() - j,
        {
            let c = v[j];
            if c == '\n' {
                if cur.len() > 0 {
                    let s = string_of(&cur);
                    proof {
                        lemma_views_push(done@, s);
                    }
                    done.push(s);
                }
                cur = Vec::new();
            } else if cur.len() > 0 && is_latin_char_exec(cur[cur.len() - 1]) != is_latin_char_exec(c) {
                let s = string_of(&cur);
                proof {
                    lemma_views_push(done@, s);
                }
                done.push(s);
                cur = Vec::new();
                cur.push(c);
                assert(cur@ =~= seq![c]);
            } else {
                cur.push(c);
            }
            j += 1;
        }
        if cur.len() > 0 {
            let s = string_of(&cur);
            proof {
                lemma_views_push(done@, s);
            }
            done.push(s);
        }
        done
    }

    /// The second cut: greedy packing of sentences (see `packed_cut`).
    pub fn cut2(&self, inp: &str, max_num: usize) -> (r: String)
        ensures
            r@ == packed_cut(inp@, max_num as int, self.splits@),
    {
        string_of(&self.packed_cut_chars(&chars_of(inp), max_num))
    }
}

} // verus!
