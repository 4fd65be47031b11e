//! Pinyin syllable analysis: restoring the original finals of written
//! syllables, tone marks to tone digits, and the initial and final of a
//! syllable in the styles used by the phoneme front-end.
use vstd::prelude::*;
use crate::chars::{chars_of, extend_chars, is_digit, lemma_views_push, slice_chars, string_of, views};

verus! {

pub open spec fn is1(s: Seq<char>, a: char) -> bool {
    s.len() == 1 && s[0] == a
}

pub open spec fn is2(s: Seq<char>, a: char, b: char) -> bool {
    s.len() == 2 && s[0] == a && s[1] == b
}

pub open spec fn is3(s: Seq<char>, a: char, b: char, c: char) -> bool {
    s.len() == 3 && s[0] == a && s[1] == b && s[2] == c
}

pub open spec fn is4(s: Seq<char>, a: char, b: char, c: char, d: char) -> bool {
    s.len() == 4 && s[0] == a && s[1] == b && s[2] == c && s[3] == d
}

fn eq1(v: &Vec<char>, a: char) -> (r: bool)
    ensures
        r == is1(v@, a),
{
    v.len() == 1 && v[0] == a
}

fn eq2(v: &Vec<char>, a: char, b: char) -> (r: bool)
    ensures
        r == is2(v@, a, b),
{
    v.len() == 2 && v[0] == a && v[1] == b
}

fn eq3(v: &Vec<char>, a: char, b: char, c: char) -> (r: bool)
    ensures
        r == is3(v@, a, b, c),
{
    v.len() == 3 && v[0] == a && v[1] == b && v[2] == c
}

fn eq4(v: &Vec<char>, a: char, b: char, c: char, d: char) -> (r: bool)
    ensures
        r == is4(v@, a, b, c, d),
{
    v.len() == 4 && v[0] == a && v[1] == b && v[2] == c && v[3] == d
}

/// Whether `s` is one of the finals of the Hanyu Pinyin scheme.
pub open spec fn is_final(s: Seq<char>) -> bool {
    is1(s, 'i') || is1(s, 'u') || is1(s, 'ü') || is1(s, 'a') || is2(s, 'i', 'a')
        || is2(s, 'u', 'a') || is1(s, 'o') || is2(s, 'u', 'o') || is1(s, 'e') || is2(s, 'i', 'e')
        || is2(s, 'ü', 'e') || is2(s, 'a', 'i') || is3(s, 'u', 'a', 'i') || is2(s, 'e', 'i')
        || is3(s, 'u', 'e', 'i') || is2(s, 'a', 'o') || is3(s, 'i', 'a', 'o') || is2(s, 'o', 'u')
        || is3(s, 'i', 'o', 'u') || is2(s, 'a', 'n') || is3(s, 'i', 'a', 'n') || is3(s, 'u', 'a', 'n')
        || is3(s, 'ü', 'a', 'n') || is2(s, 'e', 'n') || is2(s, 'i', 'n') || is3(s, 'u', 'e', 'n')
        || is2(s, 'ü', 'n') || is3(s, 'a', 'n', 'g') || is4(s, 'i', 'a', 'n', 'g')
        || is4(s, 'u', 'a', 'n', 'g') || is3(s, 'e', 'n', 'g') || is3(s, 'i', 'n', 'g')
        || is4(s, 'u', 'e', 'n', 'g') || is3(s, 'o', 'n', 'g') || is4(s, 'i', 'o', 'n', 'g')
        || is2(s, 'e', 'r') || is1(s, 'ê')
}

fn is_final_chars(v: &Vec<char>) -> (r: bool)
    ensures
        r == is_final(v@),
{
    eq1(v, 'i') || eq1(v, 'u') || eq1(v, 'ü') || eq1(v, 'a') || eq2(v, 'i', 'a')
        || eq2(v, 'u', 'a') || eq1(v, 'o') || eq2(v, 'u', 'o') || eq1(v, 'e') || eq2(v, 'i', 'e')
        || eq2(v, 'ü', 'e') || eq2(v, 'a', 'i') || eq3(v, 'u', 'a', 'i') || eq2(v, 'e', 'i')
        || eq3(v, 'u', 'e', 'i') || eq2(v, 'a', 'o') || eq3(v, 'i', 'a', 'o') || eq2(v, 'o', 'u')
        || eq3(v, 'i', 'o', 'u') || eq2(v, 'a', 'n') || eq3(v, 'i', 'a', 'n') || eq3(v, 'u', 'a', 'n')
        || eq3(v, 'ü', 'a', 'n') || eq2(v, 'e', 'n') || eq2(v, 'i', 'n') || eq3(v, 'u', 'e', 'n')
        || eq2(v, 'ü', 'n') || eq3(v, 'a', 'n', 'g') || eq4(v, 'i', 'a', 'n', 'g')
        || eq4(v, 'u', 'a', 'n', 'g') || eq3(v, 'e', 'n', 'g') || eq3(v, 'i', 'n', 'g')
        || eq4(v, 'u', 'e', 'n', 'g') || eq3(v, 'o', 'n', 'g') || eq4(v, 'i', 'o', 'n', 'g')
        || eq2(v, 'e', 'r') || eq1(v, 'ê')
}

/// `u` with or without a tone mark.
pub open spec fn is_u_tone(c: char) -> bool {
    c == 'ū' || c == 'u' || c == 'ǔ' || c == 'ú' || c == 'ù'
}

/// `i` with or without a tone mark.
pub open spec fn is_i_tone(c: char) -> bool {
    c == 'i' || c == 'ǐ' || c == 'í' || c == 'ī' || c == 'ì'
}

/// `ü` with the tone mark of the `u` given.
pub open spec fn u_to_v(c: char) -> char {
    if c == 'ū' { 'ǖ' } else if c == 'ú' { 'ǘ' } else if c == 'ǔ' { 'ǚ' } else if c == 'ù' { 'ǜ' } else { 'ü' }
}

fn u_to_v_char(c: char) -> (r: char)
    ensures
        r == u_to_v(c),
{
    if c == 'ū' { 'ǖ' } else if c == 'ú' { 'ǘ' } else if c == 'ǔ' { 'ǚ' } else if c == 'ù' { 'ǜ' } else { 'ü' }
}

fn is_u_tone_char(c: char) -> (r: bool)
    ensures
        r == is_u_tone(c),
{
    c == 'ū' || c == 'u' || c == 'ǔ' || c == 'ú' || c == 'ù'
}

/// The syllable with the zero-initial spelling undone: `y` and `w` before
/// an `i` or `u` row final are dropped or turned back into `i`, `u` or `ü`.
/// The result is kept only when it is a final; otherwise the syllable is
/// returned as it was.
pub open spec fn zero_consonant(s: Seq<char>) -> Seq<char> {
    let rest = s.drop_first();
    let t = if s.len() > 0 && s[0] == 'y' {
        if rest.len() > 0 && is_u_tone(rest[0]) {
            seq![u_to_v(rest[0])] + rest.drop_first()
        } else if rest.len() > 0 && is_i_tone(rest[0]) {
            rest
        } else {
            seq!['i'] + rest
        }
    } else if s.len() > 0 && s[0] == 'w' {
        if rest.len() > 0 && is_u_tone(rest[0]) { rest } else { seq!['u'] + rest }
    } else {
        s
    };
    if is_final(t) { t } else { s }
}

fn prepend(c: char, v: &Vec<char>, from: usize) -> (r: Vec<char>)
    requires
        from <= v.len(),
    ensures
        r@ == seq![c] + v@.subrange(from as int, v.len() as int),
{
    let mut r = vec![c];
    let rest = slice_chars(v, from, v.len());
    extend_chars(&mut r, &rest);
    r
}

/// Restores the final of a syllable written with a zero initial (see `zero_consonant`).
pub fn convert_zero_consonant(pinyin: &str) -> (r: String)
    ensures
        r@ == zero_consonant(pinyin@),
{
    let s = chars_of(pinyin);
    let n = s.len();
    let t: Vec<char> = if n > 0 && s[0] == 'y' {
        if n > 1 && is_u_tone_char(s[1]) {
            prepend(u_to_v_char(s[1]), &s, 2)
        } else if n > 1 && (s[1] == 'i' || s[1] == 'ǐ' || s[1] == 'í' || s[1] == 'ī' || s[1] == 'ì') {
            slice_chars(&s, 1, n)
        } else {
            prepend('i', &s, 1)
        }
    } else if n > 0 && s[0] == 'w' {
        if n > 1 && is_u_tone_char(s[1]) {
            slice_chars(&s, 1, n)
        } else {
            prepend('u', &s, 1)
        }
    } else {
        slice_chars(&s, 0, n)
    };
    proof {
        let rest = s@.drop_first();
        if n > 0 {
            assert(rest == s@.subrange(1, n as int));
            if n > 1 {
                assert(rest.drop_first() == s@.subrange(2, n as int));
            }
        }
        assert(s@.subrange(0, n as int) == s@);
    }
    if is_final_chars(&t) { string_of(&t) } else { string_of(&s) }
}

pub open spec fn is_lower(c: char) -> bool {
    'a' <= c && c <= 'z'
}

/// `j`, `q` and `x` followed by a `u`: the `u` is really `ü`.
pub open spec fn restore_v(s: Seq<char>) -> Seq<char> {
    if s.len() >= 2 && (s[0] == 'j' || s[0] == 'q' || s[0] == 'x') && is_u_tone(s[1])
        && (forall|k: int| 2 <= k < s.len() ==> s[k] != '\n') {
        s.update(1, u_to_v(s[1]))
    } else {
        s
    }
}

/// A syllable of lower-case letters ending in `iu`: the final is `iou`.
pub open spec fn restore_iou(s: Seq<char>) -> Seq<char> {
    let n = s.len() as int;
    if n >= 3 && (forall|k: int| 0 <= k < n - 2 ==> is_lower(#[trigger] s[k])) && s[n - 2] == 'i'
        && is_u_tone(s[n - 1]) {
        s.subrange(0, n - 1) + seq!['o', s[n - 1]]
    } else {
        s
    }
}

/// A letter followed by a final `ui`: the final is `uei`.
pub open spec fn restore_uei(s: Seq<char>) -> Seq<char> {
    let n = s.len() as int;
    if n >= 3 && is_lower(s[n - 3]) && s[n - 2] == 'u' && is_i_tone(s[n - 1]) {
        s.subrange(0, n - 1) + seq!['e', s[n - 1]]
    } else {
        s
    }
}

/// A letter followed by a final `un`: the final is `uen`.
pub open spec fn restore_uen(s: Seq<char>) -> Seq<char> {
    let n = s.len() as int;
    if n >= 3 && is_lower(s[n - 3]) && is_u_tone(s[n - 2]) && s[n - 1] == 'n' {
        s.subrange(0, n - 1) + seq!['e', 'n']
    } else {
        s
    }
}

/// The syllable with its original final restored.
pub open spec fn finals_restored(s: Seq<char>) -> Seq<char> {
    restore_uen(restore_uei(restore_iou(restore_v(zero_consonant(s)))))
}

fn no_newline_from(v: &Vec<char>, from: usize) -> (r: bool)
    ensures
        r == (forall|k: int| from <= k < v.len() ==> v@[k] != '\n'),
{
    let mut k: usize = from;
    while k < v.len()
        invariant
            from <= k,
            forall|m: int| from <= m < k ==> v@[m] != '\n',
        decreases v.len() - k,
    {
        if v[k] == '\n' {
            return false;
        }
        k += 1;
    }
    true
}

fn restore_v_chars(v: Vec<char>) -> (r: Vec<char>)
    ensures
        r@ == restore_v(v@),
{
    if v.len() >= 2 && (v[0] == 'j' || v[0] == 'q' || v[0] == 'x') && is_u_tone_char(v[1])
        && no_newline_from(&v, 2) {
        let c = u_to_v_char(v[1]);
        let mut w = v;
        w.set(1, c);
        w
    } else {
        v
    }
}

fn restore_iou_chars(v: Vec<char>) -> (r: Vec<char>)
    ensures
        r@ == restore_iou(v@),
{
    let n = v.len();
    if n >= 3 && v[n - 2] == 'i' && is_u_tone_char(v[n - 1]) {
        let mut k: usize = 0;
        while k < n - 2
            invariant
                n == v.len(),
                n >= 3,
                k <= n - 2,
                forall|m: int| 0 <= m < k ==> is_lower(#[trigger] v@[m]),
            decreases n - 2 - k,
        {
            if !('a' <= v[k] && v[k] <= 'z') {
                return v;
            }
            k += 1;
        }
        let last = v[n - 1];
        let mut r = slice_chars(&v, 0, n - 1);
        r.push('o');
        r.push(last);
        assert(r@ =~= v@.subrange(0, n - 1) + seq!['o', last]);
        r
    } else {
        v
    }
}

fn restore_uei_chars(v: Vec<char>) -> (r: Vec<char>)
    ensures
        r@ == restore_uei(v@),
{
    let n = v.len();
    if n >= 3 && 'a' <= v[n - 3] && v[n - 3] <= 'z' && v[n - 2] == 'u'
        && (v[n - 1] == 'i' || v[n - 1] == 'ǐ' || v[n - 1] == 'í' || v[n - 1] == 'ī' || v[n - 1] == 'ì') {
        let last = v[n - 1];
        let mut r = slice_chars(&v, 0, n - 1);
        r.push('e');
        r.push(last);
        assert(r@ =~= v@.subrange(0, n - 1) + seq!['e', last]);
        r
    } else {
        v
    }
}

fn restore_uen_chars(v: Vec<char>) -> (r: Vec<char>)
    ensures
        r@ == restore_uen(v@),
{
    let n = v.len();
    if n >= 3 && 'a' <= v[n - 3] && v[n - 3] <= 'z' && is_u_tone_char(v[n - 2]) && v[n - 1] == 'n' {
        let mut r = slice_chars(&v, 0, n - 1);
        r.push('e');
        r.push('n');
        assert(r@ =~= v@.subrange(0, n - 1) + seq!['e', 'n']);
        r
    } else {
        v
    }
}

/// Restores the original final of a written syllable (see `finals_restored`).
pub fn convert_finals(pinyin: &str) -> (r: String)
    ensures
        r@ == finals_restored(pinyin@),
{
    let z = chars_of(&convert_zero_consonant(pinyin));
    let v = restore_v_chars(z);
    let v = restore_iou_chars(v);
    let v = restore_uei_chars(v);
    let v = restore_uen_chars(v);
    string_of(&v)
}

/// The tone-digit spelling of a character with a tone mark (`ā` is `a1`,
/// `ü` is `v`); any other character is kept.
pub open spec fn mark_reading(c: char) -> Seq<char> {
    if c == 'ā' {
        seq!['a', '1']
    } else if c == 'á' {
        seq!['a', '2']
    } else if c == 'ǎ' {
        seq!['a', '3']
    } else if c == 'à' {
        seq!['a', '4']
    } else if c == 'ē' {
        seq!['e', '1']
    } else if c == 'é' {
        seq!['e', '2']
    } else if c == 'ě' {
        seq!['e', '3']
    } else if c == 'è' {
        seq!['e', '4']
    } else if c == 'ō' {
        seq!['o', '1']
    } else if c == 'ó' {
        seq!['o', '2']
    } else if c == 'ǒ' {
        seq!['o', '3']
    } else if c == 'ò' {
        seq!['o', '4']
    } else if c == 'ī' {
        seq!['i', '1']
    } else if c == 'í' {
        seq!['i', '2']
    } else if c == 'ǐ' {
        seq!['i', '3']
    } else if c == 'ì' {
        seq!['i', '4']
    } else if c == 'ū' {
        seq!['u', '1']
    } else if c == 'ú' {
        seq!['u', '2']
    } else if c == 'ǔ' {
        seq!['u', '3']
    } else if c == 'ù' {
        seq!['u', '4']
    } else if c == 'ü' {
        seq!['v']
    } else if c == 'ǖ' {
        seq!['v', '1']
    } else if c == 'ǘ' {
        seq!['v', '2']
    } else if c == 'ǚ' {
        seq!['v', '3']
    } else if c == 'ǜ' {
        seq!['v', '4']
    } else if c == 'ń' {
        seq!['n', '2']
    } else if c == 'ň' {
        seq!['n', '3']
    } else if c == 'ǹ' {
        seq!['n', '4']
    } else if c == 'ḿ' {
        seq!['m', '2']
    } else if c == 'ế' {
        seq!['ê', '2']
    } else if c == 'ề' {
        seq!['ê', '4']
    } else {
        seq![c]
    }
}

fn mark_reading_chars(c: char) -> (r: Vec<char>)
    ensures
        r@ == mark_reading(c),
{
    if c == 'ā' {
        vec!['a', '1']
    } else if c == 'á' {
        vec!['a', '2']
    } else if c == 'ǎ' {
        vec!['a', '3']
    } else if c == 'à' {
        vec!['a', '4']
    } else if c == 'ē' {
        vec!['e', '1']
    } else if c == 'é' {
        vec!['e', '2']
    } else if c == 'ě' {
        vec!['e', '3']
    } else if c == 'è' {
        vec!['e', '4']
    } else if c == 'ō' {
        vec!['o', '1']
    } else if c == 'ó' {
        vec!['o', '2']
    } else if c == 'ǒ' {
        vec!['o', '3']
    } else if c == 'ò' {
        vec!['o', '4']
    } else if c == 'ī' {
        vec!['i', '1']
    } else if c == 'í' {
        vec!['i', '2']
    } else if c == 'ǐ' {
        vec!['i', '3']
    } else if c == 'ì' {
        vec!['i', '4']
    } else if c == 'ū' {
        vec!['u', '1']
    } else if c == 'ú' {
        vec!['u', '2']
    } else if c == 'ǔ' {
        vec!['u', '3']
    } else if c == 'ù' {
        vec!['u', '4']
    } else if c == 'ü' {
        vec!['v']
    } else if c == 'ǖ' {
        vec!['v', '1']
    } else if c == 'ǘ' {
        vec!['v', '2']
    } else if c == 'ǚ' {
        vec!['v', '3']
    } else if c == 'ǜ' {
        vec!['v', '4']
    } else if c == 'ń' {
        vec!['n', '2']
    } else if c == 'ň' {
        vec!['n', '3']
    } else if c == 'ǹ' {
        vec!['n', '4']
    } else if c == 'ḿ' {
        vec!['m', '2']
    } else if c == 'ế' {
        vec!['ê', '2']
    } else if c == 'ề' {
        vec!['ê', '4']
    } else {
        vec![c]
    }
}

/// The tone digit of a letter followed by a combining tone mark (`m` or `ê`
/// with a macron, grave or caron), or a space when the pair is no such letter.
pub open spec fn combined_tone(a: char, b: char) -> char {
    if a == 'm' && b == '\u{304}' {
        '1'
    } else if a == 'm' && b == '\u{300}' {
        '4'
    } else if a == 'ê' && b == '\u{304}' {
        '1'
    } else if a == 'ê' && b == '\u{30c}' {
        '3'
    } else {
        ' '
    }
}

fn combined_tone_char(a: char, b: char) -> (r: char)
    ensures
        r == combined_tone(a, b),
{
    if a == 'm' && b == '\u{304}' {
        '1'
    } else if a == 'm' && b == '\u{300}' {
        '4'
    } else if a == 'ê' && b == '\u{304}' {
        '1'
    } else if a == 'ê' && b == '\u{30c}' {
        '3'
    } else {
        ' '
    }
}

/// `s` from `i` on with every tone mark spelled as a tone digit after its letter.
pub open spec fn tone_numbers_from(s: Seq<char>, i: int) -> Seq<char>
    decreases s.len() - i,
{
    if i < 0 || i >= s.len() {
        seq![]
    } else if i + 1 < s.len() && combined_tone(s[i], s[i + 1]) != ' ' {
        seq![s[i], combined_tone(s[i], s[i + 1])] + tone_numbers_from(s, i + 2)
    } else {
        mark_reading(s[i]) + tone_numbers_from(s, i + 1)
    }
}

/// `s` with every tone mark spelled as a tone digit after its letter.
pub open spec fn tone_numbers(s: Seq<char>) -> Seq<char> {
    tone_numbers_from(s, 0)
}

fn tone_numbers_chars(v: &Vec<char>) -> (r: Vec<char>)
    ensures
        r@ == tone_numbers(v@),
{
    let mut out: Vec<char> = Vec::new();
    let mut i: usize = 0;
    while i < v.len()
        invariant
            i <= v.len(),
            out@ + tone_numbers_from(v@, i as int) == tone_numbers(v@),
        decreases v.len() - i,
    {
        if i + 1 < v.len() && combined_tone_char(v[i], v[i + 1]) != ' ' {
            let d = combined_tone_char(v[i], v[i + 1]);
            let piece = vec![v[i], d];
            assert(out@ + tone_numbers_from(v@, i as int) == (out@ + piece@) + tone_numbers_from(v@, i + 2));
            extend_chars(&mut out, &piece);
            i += 2;
        } else {
            let piece = mark_reading_chars(v[i]);
            assert(out@ + tone_numbers_from(v@, i as int) == (out@ + piece@) + tone_numbers_from(v@, i + 1));
            extend_chars(&mut out, &piece);
            i += 1;
        }
    }
    assert(out@ + Seq::<char>::empty() == out@);
    out
}

/// Spells the tone marks of a syllable as tone digits: `zhōng` becomes `zho1ng`.
pub fn replace_symbol_to_number(pinyin: &str) -> (r: String)
    ensures
        r@ == tone_numbers(pinyin@),
{
    string_of(&tone_numbers_chars(&chars_of(pinyin)))
}

/// `s` without its ASCII digits.
pub open spec fn without_digits(s: Seq<char>) -> Seq<char>
    decreases s.len(),
{
    if s.len() == 0 {
        s
    } else if is_digit(s.last()) {
        without_digits(s.drop_last())
    } else {
        without_digits(s.drop_last()).push(s.last())
    }
}

pub(crate) fn without_digits_chars(v: &Vec<char>) -> (r: Vec<char>)
    ensures
        r@ == without_digits(v@),
{
    let mut out: Vec<char> = Vec::new();
    let mut i: usize = 0;
    while i < v.len()
        invariant
            i <= v.len(),
            out@ == without_digits(v@.subrange(0, i as int)),
        decreases v.len() - i,
    {
        assert(v@.subrange(0, i + 1).drop_last() == v@.subrange(0, i as int));
        if !('0' <= v[i] && v[i] <= '9') {
            out.push(v[i]);
        }
        i += 1;
    }
    assert(v@.subrange(0, v.len() as int) == v@);
    out
}

/// `s` without any `c`.
pub open spec fn without_char(s: Seq<char>, c: char) -> Seq<char>
    decreases s.len(),
{
    if s.len() == 0 {
        s
    } else if s.last() == c {
        without_char(s.drop_last(), c)
    } else {
        without_char(s.drop_last(), c).push(s.last())
    }
}

fn without_char_chars(v: &Vec<char>, c: char) -> (r: Vec<char>)
    ensures
        r@ == without_char(v@, c),
{
    let mut out: Vec<char> = Vec::new();
    let mut i: usize = 0;
    while i < v.len()
        invariant
            i <= v.len(),
            out@ == without_char(v@.subrange(0, i as int), c),
        decreases v.len() - i,
    {
        assert(v@.subrange(0, i + 1).drop_last() == v@.subrange(0, i as int));
        if v[i] != c {
            out.push(v[i]);
        }
        i += 1;
    }
    assert(v@.subrange(0, v.len() as int) == v@);
    out
}

/// The syllable without tone marks or tone digits.
pub open spec fn toneless(s: Seq<char>) -> Seq<char> {
    without_digits(tone_numbers(s))
}

/// Removes the tone marks and tone digits of a syllable: `zhōng5` becomes `zhong`.
pub fn replace_symbol_to_no_symbol(pinyin: &str) -> (r: String)
    ensures
        r@ == toneless(pinyin@),
{
    let t = tone_numbers_chars(&chars_of(pinyin));
    string_of(&without_digits_chars(&t))
}

/// `s` with every `a` replaced by `b`.
pub open spec fn swap_char(s: Seq<char>, a: char, b: char) -> Seq<char> {
    s.map_values(|c: char| if c == a { b } else { c })
}

fn swap_char_chars(v: &Vec<char>, a: char, b: char) -> (r: Vec<char>)
    ensures
        r@ == swap_char(v@, a, b),
{
    let mut out: Vec<char> = Vec::new();
    let mut i: usize = 0;
    while i < v.len()
        invariant
            i <= v.len(),
            out@ =~= swap_char(v@.subrange(0, i as int), a, b),
        decreases v.len() - i,
    {
        out.push(if v[i] == a { b } else { v[i] });
        i += 1;
    }
    assert(v@.subrange(0, v.len() as int) == v@);
    out
}

/// A letter that can start a syllable as its initial.
pub open spec fn is_initial_letter(c: char) -> bool {
    c == 'b' || c == 'p' || c == 'm' || c == 'f' || c == 'd' || c == 't' || c == 'n' || c == 'l'
        || c == 'g' || c == 'k' || c == 'h' || c == 'j' || c == 'q' || c == 'x' || c == 'r'
        || c == 'z' || c == 'c' || c == 's'
}

/// The initial of a syllable: `zh`, `ch` or `sh`, else a single initial
/// letter; when not `strict`, `y` and `w` count as initials too.
pub open spec fn initial_of(s: Seq<char>, strict: bool) -> Seq<char> {
    if s.len() >= 2 && s[1] == 'h' && (s[0] == 'z' || s[0] == 'c' || s[0] == 's') {
        s.subrange(0, 2)
    } else if s.len() >= 1 && (is_initial_letter(s[0]) || (!strict && (s[0] == 'y' || s[0] == 'w'))) {
        seq![s[0]]
    } else {
        seq![]
    }
}

pub(crate) fn initial_of_chars(v: &Vec<char>, strict: bool) -> (r: Vec<char>)
    ensures
        r@ == initial_of(v@, strict),
{
    let n = v.len();
    if n >= 2 && v[1] == 'h' && (v[0] == 'z' || v[0] == 'c' || v[0] == 's') {
        slice_chars(v, 0, 2)
    } else if n >= 1 {
        let c = v[0];
        if c == 'b' || c == 'p' || c == 'm' || c == 'f' || c == 'd' || c == 't' || c == 'n' || c == 'l'
            || c == 'g' || c == 'k' || c == 'h' || c == 'j' || c == 'q' || c == 'x' || c == 'r'
            || c == 'z' || c == 'c' || c == 's' || (!strict && (c == 'y' || c == 'w')) {
            vec![c]
        } else {
            Vec::new()
        }
    } else {
        Vec::new()
    }
}

/// The initial of a syllable (see `initial_of`).
pub fn get_initials(pinyin: &str, strict: bool) -> (r: String)
    ensures
        r@ == initial_of(pinyin@, strict),
{
    string_of(&initial_of_chars(&chars_of(pinyin), strict))
}

/// The final of a syllable. With `strict` the original final is restored
/// first, and a result that is not a final of the scheme is retried with
/// `y` and `w` as initials, and is empty if that fails too. Without `strict`
/// a syllable that is all initial is its own final.
pub open spec fn final_of(s: Seq<char>, strict: bool) -> Seq<char> {
    let p = if strict { finals_restored(s) } else { s };
    let f = p.subrange(initial_of(p, strict).len() as int, p.len() as int);
    if strict && !is_final(f) {
        let f2 = p.subrange(initial_of(p, false).len() as int, p.len() as int);
        if is_final(f2) { f2 } else { seq![] }
    } else if f.len() == 0 && !strict {
        p
    } else {
        f
    }
}

proof fn lemma_initial_len(s: Seq<char>, strict: bool)
    ensures
        initial_of(s, strict).len() <= s.len(),
{
}

pub(crate) fn final_of_chars(v: &Vec<char>, strict: bool) -> (r: Vec<char>)
    ensures
        r@ == final_of(v@, strict),
{
    let p: Vec<char> = if strict {
        chars_of(&convert_finals(&string_of(v)))
    } else {
        slice_chars(v, 0, v.len())
    };
    assert(v@.subrange(0, v.len() as int) == v@);
    let ini = initial_of_chars(&p, strict);
    proof {
        lemma_initial_len(p@, strict);
        lemma_initial_len(p@, false);
    }
    let f = slice_chars(&p, ini.len(), p.len());
    if strict && !is_final_chars(&f) {
        let ini2 = initial_of_chars(&p, false);
        let f2 = slice_chars(&p, ini2.len(), p.len());
        if is_final_chars(&f2) { f2 } else { Vec::new() }
    } else if f.len() == 0 && !strict {
        p
    } else {
        f
    }
}

/// The final of a syllable (see `final_of`).
pub fn get_finals(pinyin: &str, strict: bool) -> (r: String)
    ensures
        r@ == final_of(pinyin@, strict),
{
    string_of(&final_of_chars(&chars_of(pinyin), strict))
}

/// The toneless final of a syllable written with tone marks or digits;
/// `ü` is written `ü` with `v_to_u`, else `v`.
pub open spec fn toneless_final(s: Seq<char>, strict: bool, v_to_u: bool) -> Seq<char> {
    let f = final_of(swap_char(toneless(s), 'v', 'ü'), strict);
    if v_to_u { swap_char(f, 'v', 'ü') } else { swap_char(f, 'ü', 'v') }
}

fn toneless_final_chars(v: &Vec<char>, strict: bool, v_to_u: bool) -> (r: Vec<char>)
    ensures
        r@ == toneless_final(v@, strict, v_to_u),
{
    let t = without_digits_chars(&tone_numbers_chars(v));
    let t = swap_char_chars(&t, 'v', 'ü');
    let f = final_of_chars(&t, strict);
    if v_to_u { swap_char_chars(&f, 'v', 'ü') } else { swap_char_chars(&f, 'ü', 'v') }
}

/// The toneless final of a syllable (see `toneless_final`).
pub fn to_finals(pinyin: &str, strict: bool, v_to_u: bool) -> (r: String)
    ensures
        r@ == toneless_final(pinyin@, strict, v_to_u),
{
    string_of(&toneless_final_chars(&chars_of(pinyin), strict, v_to_u))
}

/// The first ASCII digit of `s`, if any.
pub open spec fn first_digit(s: Seq<char>) -> Option<char>
    decreases s.len(),
{
    if s.len() == 0 {
        None
    } else if is_digit(s[0]) {
        Some(s[0])
    } else {
        first_digit(s.drop_first())
    }
}

proof fn lemma_first_digit_at(s: Seq<char>, i: int)
    requires
        0 <= i <= s.len(),
        forall|k: int| 0 <= k < i ==> !is_digit(#[trigger] s[k]),
        i < s.len() ==> is_digit(s[i]),
    ensures
        first_digit(s) == (if i < s.len() { Some(s[i]) } else { None::<char> }),
    decreases i,
{
    if i > 0 {
        assert forall|k: int| 0 <= k < i - 1 implies !is_digit(#[trigger] s.drop_first()[k]) by {
            assert(s.drop_first()[k] == s[k + 1]);
        }
        lemma_first_digit_at(s.drop_first(), i - 1);
    }
}

fn first_digit_chars(v: &Vec<char>) -> (r: Option<char>)
    ensures
        r == first_digit(v@),
{
    let mut i: usize = 0;
    while i < v.len() && !('0' <= v[i] && v[i] <= '9')
        invariant
            i <= v.len(),
            forall|k: int| 0 <= k < i ==> !is_digit(#[trigger] v@[k]),
        decreases v.len() - i,
    {
        i += 1;
    }
    proof {
        lemma_first_digit_at(v@, i as int);
    }
    if i < v.len() { Some(v[i]) } else { None }
}

/// The final with its tone digit: the toneless final, then the first tone
/// digit of the syllable, or `5` for a toneless syllable when
/// `neutral_tone_with_five`. A `5` in the input is ignored; a syllable
/// without a final gives the empty string.
pub open spec fn final_with_tone(s: Seq<char>, strict: bool, v_to_u: bool, five: bool) -> Seq<char> {
    let p = without_char(s, '5');
    let f = toneless_final(p, strict, v_to_u);
    if f.len() == 0 {
        f
    } else {
        match first_digit(tone_numbers(p)) {
            Some(d) => f.push(d),
            None => if five { f.push('5') } else { f },
        }
    }
}

fn final_with_tone_chars(v: &Vec<char>, strict: bool, v_to_u: bool, five: bool) -> (r: Vec<char>)
    ensures
        r@ == final_with_tone(v@, strict, v_to_u, five),
{
    let p = without_char_chars(v, '5');
    let mut f = toneless_final_chars(&p, strict, v_to_u);
    if f.len() == 0 {
        return f;
    }
    match first_digit_chars(&tone_numbers_chars(&p)) {
        Some(d) => {
            f.push(d);
        },
        None => {
            if five {
                f.push('5');
            }
        },
    }
    f
}

/// The final of a syllable with its tone digit (see `final_with_tone`).
pub fn to_initials_tone3(pinyin: &str, strict: bool, v_to_u: bool, neutral_tone_with_five: bool) -> (r: String)
    ensures
        r@ == final_with_tone(pinyin@, strict, v_to_u, neutral_tone_with_five),
{
    string_of(&final_with_tone_chars(&chars_of(pinyin), strict, v_to_u, neutral_tone_with_five))
}

/// The pinyin styles that the front-end converts syllables to.
#[derive(Clone, Copy, PartialEq, Eq, Debug)]
pub enum Style {
    /// The syllable with a tone digit after it: `zhong1`.
    Tone3,
    /// The initial alone: `zh`.
    Initials,
    /// The final with a tone digit after it: `ong1`.
    InitialsTone3,
}

/// A converted syllable in a tone style, with `5` added when it holds no
/// tone digit and `neutral_tone_with_five` is set.
pub open spec fn with_neutral_tone(s: Seq<char>, style: Style, five: bool) -> Seq<char> {
    if (style == Style::Tone3 || style == Style::InitialsTone3) && five && first_digit(s) is None {
        s.push('5')
    } else {
        s
    }
}

fn with_neutral_tone_chars(v: Vec<char>, style: Style, five: bool) -> (r: Vec<char>)
    ensures
        r@ == with_neutral_tone(v@, style, five),
{
    let toned = match style {
        Style::Tone3 => true,
        Style::InitialsTone3 => true,
        Style::Initials => false,
    };
    if toned && five && first_digit_chars(&v).is_none() {
        let mut w = v;
        w.push('5');
        w
    } else {
        v
    }
}

/// Adds the neutral tone digit to a converted syllable (see `with_neutral_tone`).
pub fn post_convert_style(converted_pinyin: &str, style: Style, neutral_tone_with_five: bool) -> (r: String)
    ensures
        r@ == with_neutral_tone(converted_pinyin@, style, neutral_tone_with_five),
{
    string_of(&with_neutral_tone_chars(chars_of(converted_pinyin), style, neutral_tone_with_five))
}

/// A syllable in the given style: the toned final for `InitialsTone3`, the
/// initial for `Initials`, nothing for `Tone3`; then a missing tone is
/// written `5`.
pub open spec fn styled(s: Seq<char>, style: Style, strict: bool) -> Seq<char> {
    let c = match style {
        Style::InitialsTone3 => final_with_tone(s, strict, false, false),
        Style::Initials => initial_of(s, strict),
        Style::Tone3 => seq![],
    };
    with_neutral_tone(c, style, true)
}

fn styled_chars(v: &Vec<char>, style: Style, strict: bool) -> (r: Vec<char>)
    ensures
        r@ == styled(v@, style, strict),
{
    let c = match style {
        Style::InitialsTone3 => final_with_tone_chars(v, strict, false, false),
        Style::Initials => initial_of_chars(v, strict),
        Style::Tone3 => Vec::new(),
    };
    with_neutral_tone_chars(c, style, true)
}

/// A syllable in the given style (see `styled`).
pub fn convert_style(orig_pinyin: &str, style: Style, strict: bool) -> (r: String)
    ensures
        r@ == styled(orig_pinyin@, style, strict),
{
    string_of(&styled_chars(&chars_of(orig_pinyin), style, strict))
}

/// The first reading of each character of a phrase in the given style, one
/// single-item list per character.
pub fn convert_styles(pinyin_list: Vec<Vec<String>>, _phrase: &str, style: Style, strict: bool) -> (r: Vec<Vec<String>>)
    requires
        forall|i: int| 0 <= i < pinyin_list.len() ==> #[trigger] pinyin_list[i].len() > 0,
    ensures
        r.len() == pinyin_list.len(),
        forall|i: int| 0 <= i < r.len() ==> (#[trigger] r[i]).len() == 1
            && r[i][0]@ == styled(pinyin_list[i][0]@, style, strict),
{
    let mut r: Vec<Vec<String>> = Vec::new();
    let mut i: usize = 0;
    while i < pinyin_list.len()
        invariant
            i <= pinyin_list.len(),
            r.len() == i,
            forall|i: int| 0 <= i < pinyin_list.len() ==> #[trigger] pinyin_list[i].len() > 0,
            forall|k: int| 0 <= k < i ==> (#[trigger] r[k]).len() == 1
                && r[k][0]@ == styled(pinyin_list[k][0]@, style, strict),
        decreases pinyin_list.len() - i,
    {
        let item = &pinyin_list[i];
        assert(pinyin_list[i as int].len() > 0);
        let converted = convert_style(item[0].as_str(), style, strict);
        r.push(vec![converted]);
        i += 1;
    }
    r
}

/// The first `n` readings of `l` without repeats (and without empty
/// readings when `remove_empty`), first occurrences kept in order.
pub open spec fn dedup_fold(l: Seq<Seq<char>>, remove_empty: bool, n: int) -> Seq<Seq<char>>
    decreases n,
{
    if n <= 0 {
        seq![]
    } else {
        let acc = dedup_fold(l, remove_empty, n - 1);
        let item = l[n - 1];
        if (remove_empty && item.len() == 0) || acc.contains(item) { acc } else { acc.push(item) }
    }
}

fn contains_string(v: &Vec<String>, s: &String) -> (r: bool)
    ensures
        r == views(v@).contains(s@),
{
    let sv = chars_of(s.as_str());
    let mut i: usize = 0;
    while i < v.len()
        invariant
            sv@ == s@,
            i <= v.len(),
            forall|k: int| 0 <= k < i ==> views(v@)[k] != s@,
        decreases v.len() - i,
    {
        assert(views(v@)[i as int] == v@[i as int]@);
        if crate::mmseg::chars_equal(&chars_of(v[i].as_str()), &sv) {
            return true;
        }
        i += 1;
    }
    false
}

/// Whether `s` is among the strings of `v`.
pub fn contains_in(v: &Vec<String>, s: &String) -> (r: bool)
    ensures
        r == views(v@).contains(s@),
{
    contains_string(v, s)
}

/// The readings of a list without repeats, and without empty readings
/// when `remove_empty` (see `dedup_fold`).
pub fn remove_dup_items(lst: &Vec<String>, remove_empty: bool) -> (r: Vec<String>)
    ensures
        views(r@) == dedup_fold(views(lst@), remove_empty, lst.len() as int),
{
    let ghost l = views(lst@);
    let mut out: Vec<String> = Vec::new();
    let mut i: usize = 0;
    while i < lst.len()
        invariant
            l == views(lst@),
            i <= lst.len(),
            views(out@) == dedup_fold(l, remove_empty, i as int),
        decreases lst.len() - i,
    {
        assert(l[i as int] == lst@[i as int]@);
        let item = &lst[i];
        let empty = chars_of(item.as_str()).len() == 0;
        if !((remove_empty && empty) || contains_string(&out, item)) {
            let c = item.clone();
            proof {
                lemma_views_push(out@, c);
            }
            out.push(c);
        }
        i += 1;
    }
    out
}

/// Each list of readings without repeats and empty readings; a list left
/// empty becomes one empty reading.
pub fn remove_dup_and_empty(lst_list: Vec<Vec<String>>) -> (r: Vec<Vec<String>>)
    ensures
        r.len() == lst_list.len(),
        forall|i: int| 0 <= i < r.len() ==> views((#[trigger] r[i])@) == ({
            let d = dedup_fold(views(lst_list[i]@), true, lst_list[i].len() as int);
            if d.len() > 0 { d } else { seq![Seq::<char>::empty()] }
        }),
{
    let mut out: Vec<Vec<String>> = Vec::new();
    let mut i: usize = 0;
    while i < lst_list.len()
        invariant
            i <= lst_list.len(),
            out.len() == i,
            forall|k: int| 0 <= k < i ==> views((#[trigger] out[k])@) == ({
                let d = dedup_fold(views(lst_list[k]@), true, lst_list[k].len() as int);
                if d.len() > 0 { d } else { seq![Seq::<char>::empty()] }
            }),
        decreases lst_list.len() - i,
    {
        let d = remove_dup_items(&lst_list[i], true);
        if d.len() > 0 {
            out.push(d);
        } else {
            let e = String::new();
            let mut one: Vec<String> = Vec::new();
            proof {
                lemma_views_push(one@, e);
            }
            one.push(e);
            assert(views(one@) =~= seq![Seq::<char>::empty()]);
            out.push(one);
        }
        i += 1;
    }
    out
}

} // verus!
