//! Reading of telephone numbers in Chinese: mobile numbers (with an
//! optional +86 prefix), landline numbers with an area code, and 400
//! service numbers, each read digit by digit with 一 as 幺.
use vstd::prelude::*;
use crate::chars::{chars_of, extend_chars, is_digit, off, string_of};
use crate::num::{digit_reading, digit_run, digit_word_char, run};

verus! {

/// Relies on `char::is_whitespace`: whether a character has Unicode's
/// White_Space property.
pub uninterp spec fn whitespace(c: char) -> bool;

/// Relies on `char::is_whitespace`: whether `c` is white space.
#[verifier::external_body]
pub(crate) fn char_is_whitespace(c: char) -> (r: bool)
    ensures
        r == whitespace(c),
{
    c.is_whitespace()
}

/// Whether no digit stands right before `i`.
pub open spec fn digit_free_before(s: Seq<char>, i: int) -> bool {
    i == 0 || !is_digit(s[i - 1])
}

/// Whether no digit stands at `e`.
pub open spec fn digit_free_at(s: Seq<char>, e: int) -> bool {
    e >= s.len() || !is_digit(s[e])
}

/// Whether `s[k]` is `c`.
pub open spec fn at(s: Seq<char>, k: int, c: char) -> bool {
    0 <= k < s.len() && s[k] == c
}

/// Whether the two characters after a leading 1 open a mobile number:
/// 13x, 18x, 15x but 154, 17[678], 19[89].
pub open spec fn mobile_operator(a: char, b: char) -> bool {
    ((a == '3' || a == '8') && is_digit(b)) || (a == '5' && is_digit(b) && b != '4')
        || (a == '7' && (b == '6' || b == '7' || b == '8')) || (a == '9' && (b == '8' || b == '9'))
}

/// End of the mobile number body `1 op ?dddd ?dddd` at `k`, not followed by
/// a digit, or -1.
pub open spec fn mobile_body_end(s: Seq<char>, k: int) -> int {
    let q = k + 3;
    let q1 = if at(s, q, ' ') { q + 1 } else { q };
    let q2 = q1 + 4;
    let q3 = if at(s, q2, ' ') { q2 + 1 } else { q2 };
    if 0 <= k && k + 3 <= s.len() && s[k] == '1' && mobile_operator(s[k + 1], s[k + 2])
        && run(s, q1) >= 4 && run(s, q3) >= 4 && digit_free_at(s, q3 + 4) {
        q3 + 4
    } else {
        -1
    }
}

/// End of the mobile number at `i`, with an optional `+86 ` prefix, or `i`.
pub open spec fn mobile_end(s: Seq<char>, i: int) -> int {
    let p = if at(s, i, '+') { i + 1 } else { i };
    let k = if at(s, p + 2, ' ') { p + 3 } else { p + 2 };
    if !digit_free_before(s, i) {
        i
    } else if at(s, p, '8') && at(s, p + 1, '6') && mobile_body_end(s, k) > 0 {
        mobile_body_end(s, k)
    } else if mobile_body_end(s, i) > 0 {
        mobile_body_end(s, i)
    } else {
        i
    }
}

/// Length of an area code after the leading 0 at `z`: 10, 2[1-3], or
/// [3-9] and two digits; 0 when none.
pub open spec fn area_len(s: Seq<char>, z: int) -> int {
    if at(s, z + 1, '1') && at(s, z + 2, '0') {
        2
    } else if at(s, z + 1, '2') && 0 <= z + 2 < s.len() && '1' <= s[z + 2] && s[z + 2] <= '3' {
        2
    } else if 0 <= z + 1 < s.len() && '3' <= s[z + 1] && s[z + 1] <= '9' && run(s, z + 2) >= 2 {
        3
    } else {
        0
    }
}

/// End of the local number `[1-9]` and six or seven digits at `k`, not
/// followed by a digit, or -1.
pub open spec fn local_end(s: Seq<char>, k: int) -> int {
    if 0 <= k < s.len() && '1' <= s[k] && s[k] <= '9' && (run(s, k + 1) == 6 || run(s, k + 1) == 7) {
        k + 1 + run(s, k + 1)
    } else {
        -1
    }
}

/// End of the landline number at `i`, with an optional area code and
/// hyphen, or `i`.
pub open spec fn landline_end(s: Seq<char>, i: int) -> int {
    let a = area_len(s, i);
    let k = if at(s, i + 1 + a, '-') { i + 2 + a } else { i + 1 + a };
    if !digit_free_before(s, i) {
        i
    } else if at(s, i, '0') && a > 0 && local_end(s, k) > 0 {
        local_end(s, k)
    } else if local_end(s, i) > 0 {
        local_end(s, i)
    } else {
        i
    }
}

/// End of the service number `400-?ddd-?dddd` at `i`, or `i`.
pub open spec fn service_end(s: Seq<char>, i: int) -> int {
    let k = if at(s, i + 3, '-') { i + 4 } else { i + 3 };
    let m = if at(s, k + 3, '-') { k + 4 } else { k + 3 };
    if at(s, i, '4') && at(s, i + 1, '0') && at(s, i + 2, '0') && run(s, k) >= 3 && run(s, m) >= 4 {
        m + 4
    } else {
        i
    }
}

/// The kinds of telephone numbers, in the order `Phonecode::normalize` reads them.
#[derive(Clone, Copy, PartialEq, Eq, Debug)]
pub enum PhoneKind {
    Mobile,
    Landline,
    Service,
}

pub open spec fn phone_end(p: PhoneKind, s: Seq<char>, i: int) -> int {
    match p {
        PhoneKind::Mobile => mobile_end(s, i),
        PhoneKind::Landline => landline_end(s, i),
        PhoneKind::Service => service_end(s, i),
    }
}

/// The groups of a hyphenated number read digit by digit and joined by `，`.
pub open spec fn dashed_reading(s: Seq<char>) -> Seq<char> {
    s.map_values(|c: char| if c == '-' { '，' } else { digit_reading(c, true) })
}

/// Reading of the white-space separated words of the first `n` characters
/// of `s`: the reading so far, whether a word has started, and whether a
/// separator is due before the next word.
pub open spec fn spaced_fold(s: Seq<char>, n: int) -> (Seq<char>, bool, bool)
    decreases n,
{
    if n <= 0 {
        (seq![], false, false)
    } else {
        let (out, started, due) = spaced_fold(s, n - 1);
        let c = s[n - 1];
        if whitespace(c) {
            (out, started, started)
        } else if due {
            (out.push('，').push(digit_reading(c, true)), true, false)
        } else {
            (out.push(digit_reading(c, true)), true, false)
        }
    }
}

/// The words of `s` between white space, read digit by digit and joined by `，`.
pub open spec fn spaced_reading(s: Seq<char>) -> Seq<char> {
    spaced_fold(s, s.len() as int).0
}

/// `s` without its leading `+` signs.
pub open spec fn trim_plus(s: Seq<char>) -> Seq<char>
    decreases s.len(),
{
    if s.len() > 0 && s[0] == '+' { trim_plus(s.drop_first()) } else { s }
}

/// The reading of a telephone number: a mobile number written with `+` is
/// split at white space, any other at hyphens.
pub open spec fn phone_reading(s: Seq<char>, mobile: bool) -> Seq<char> {
    if mobile && s.len() > 0 && s[0] == '+' {
        spaced_reading(trim_plus(s))
    } else {
        dashed_reading(s)
    }
}

/// `s` from `i` on with every number of kind `p` replaced by its reading.
pub open spec fn phones_from(p: PhoneKind, s: Seq<char>, i: int) -> Seq<char>
    decreases s.len() - i,
{
    if i < 0 || i >= s.len() {
        seq![]
    } else {
        let e = phone_end(p, s, i);
        if i < e <= s.len() {
            phone_reading(s.subrange(i, e), p == PhoneKind::Mobile) + phones_from(p, s, e)
        } else {
            seq![s[i]] + phones_from(p, s, i + 1)
        }
    }
}

/// The reading of every telephone number of a sentence: mobile numbers,
/// then landline numbers, then service numbers.
pub open spec fn phones_read(s: Seq<char>) -> Seq<char> {
    phones_from(PhoneKind::Service, phones_from(PhoneKind::Landline, phones_from(PhoneKind::Mobile, s, 0), 0), 0)
}

fn at_char(v: &Vec<char>, k: usize, c: char) -> (r: bool)
    ensures
        r == at(v@, k as int, c),
{
    k < v.len() && v[k] == c
}

fn run_from(v: &Vec<char>, k: usize) -> (r: usize)
    ensures
        r == run(v@, k as int),
{
    if k <= v.len() {
        digit_run(v, k)
    } else {
        0
    }
}

fn digit_reading_char(c: char, alt_one: bool) -> (r: char)
    ensures
        r == digit_reading(c, alt_one),
{
    let w = digit_word_char(c);
    if alt_one && w == '一' { '幺' } else { w }
}

fn mobile_body_end_at(v: &Vec<char>, k: usize) -> (e: usize)
    ensures
        mobile_body_end(v@, k as int) > 0 ==> e as int == mobile_body_end(v@, k as int),
        mobile_body_end(v@, k as int) <= 0 ==> e == 0,
        e > 0 ==> k < e <= v.len(),
{
    let n = v.len();
    assert(v@.len() == n);
    if !(k < n && n - k >= 3) || v[k] != '1' {
        return 0;
    }
    let q = k + 3;
    let q1 = if at_char(v, q, ' ') { q + 1 } else { q };
    let q2 = off(q1, 4);
    let q3 = if at_char(v, q2, ' ') { q2 + 1 } else { q2 };
    let a = v[k + 1];
    let b = v[k + 2];
    let op = ((a == '3' || a == '8') && '0' <= b && b <= '9') || (a == '5' && '0' <= b && b <= '9' && b != '4')
        || (a == '7' && (b == '6' || b == '7' || b == '8')) || (a == '9' && (b == '8' || b == '9'));
    if op && run_from(v, q1) >= 4 && run_from(v, q3) >= 4 {
        proof {
            crate::num::lemma_run(v@, q3 as int);
        }
        let e = q3 + 4;
        if e >= v.len() || !('0' <= v[e] && v[e] <= '9') {
            return e;
        }
    }
    0
}

fn mobile_end_at(v: &Vec<char>, i: usize) -> (e: usize)
    requires
        i < v.len(),
    ensures
        e as int == mobile_end(v@, i as int),
        i <= e <= v.len(),
{
    let n = v.len();
    assert(v@.len() == n);
    if !(i == 0 || !('0' <= v[i - 1] && v[i - 1] <= '9')) {
        return i;
    }
    let p = if at_char(v, i, '+') { i + 1 } else { i };
    let k = if at_char(v, off(p, 2), ' ') { p + 3 } else { off(p, 2) };
    if at_char(v, p, '8') && at_char(v, off(p, 1), '6') {
        let e = mobile_body_end_at(v, k);
        if e > 0 {
            return e;
        }
    }
    let e = mobile_body_end_at(v, i);
    if e > 0 { e } else { i }
}

fn area_len_at(v: &Vec<char>, z: usize) -> (r: usize)
    requires
        z < v.len(),
    ensures
        r as int == area_len(v@, z as int),
        r <= 3,
{
    let n = v.len();
    assert(v@.len() == n);
    if at_char(v, z + 1, '1') && at_char(v, off(z, 2), '0') {
        2
    } else if at_char(v, z + 1, '2') && n - z > 2 && '1' <= v[z + 2] && v[z + 2] <= '3' {
        2
    } else if z + 1 < n && '3' <= v[z + 1] && v[z + 1] <= '9' && run_from(v, z + 2) >= 2 {
        3
    } else {
        0
    }
}

fn local_end_at(v: &Vec<char>, k: usize) -> (e: usize)
    ensures
        local_end(v@, k as int) > 0 ==> e as int == local_end(v@, k as int),
        local_end(v@, k as int) <= 0 ==> e == 0,
        e > 0 ==> k < e <= v.len(),
{
    if k < v.len() && '1' <= v[k] && v[k] <= '9' {
        let r = run_from(v, k + 1);
        if r == 6 || r == 7 {
            proof {
                crate::num::lemma_run(v@, k + 1);
            }
            return k + 1 + r;
        }
    }
    0
}

fn landline_end_at(v: &Vec<char>, i: usize) -> (e: usize)
    requires
        i < v.len(),
    ensures
        e as int == landline_end(v@, i as int),
        i <= e <= v.len(),
{
    let n = v.len();
    assert(v@.len() == n);
    if !(i == 0 || !('0' <= v[i - 1] && v[i - 1] <= '9')) {
        return i;
    }
    let a = area_len_at(v, i);
    let k = if at_char(v, off(i, 1 + a), '-') { i + 2 + a } else { off(i, 1 + a) };
    if at_char(v, i, '0') && a > 0 {
        let e = local_end_at(v, k);
        if e > 0 {
            return e;
        }
    }
    let e = local_end_at(v, i);
    if e > 0 { e } else { i }
}

fn service_end_at(v: &Vec<char>, i: usize) -> (e: usize)
    requires
        i < v.len(),
    ensures
        e as int == service_end(v@, i as int),
        i <= e <= v.len(),
{
    let n = v.len();
    assert(v@.len() == n);
    let k = if at_char(v, off(i, 3), '-') { i + 4 } else { off(i, 3) };
    let m = if at_char(v, off(k, 3), '-') { k + 4 } else { off(k, 3) };
    if at_char(v, i, '4') && at_char(v, off(i, 1), '0') && at_char(v, off(i, 2), '0') && run_from(v, k) >= 3
        && run_from(v, m) >= 4 {
        proof {
            crate::num::lemma_run(v@, m as int);
        }
        m + 4
    } else {
        i
    }
}

fn phone_end_at(p: PhoneKind, v: &Vec<char>, i: usize) -> (e: usize)
    requires
        i < v.len(),
    ensures
        e as int == phone_end(p, v@, i as int),
        i <= e <= v.len(),
{
    match p {
        PhoneKind::Mobile => mobile_end_at(v, i),
        PhoneKind::Landline => landline_end_at(v, i),
        PhoneKind::Service => service_end_at(v, i),
    }
}

fn dashed_reading_chars(v: &Vec<char>) -> (r: Vec<char>)
    ensures
        r@ == dashed_reading(v@),
{
    let mut out: Vec<char> = Vec::new();
    let mut i: usize = 0;
    while i < v.len()
        invariant
            i <= v.len(),
            out@ =~= dashed_reading(v@.subrange(0, i as int)),
        decreases v.len() - i,
    {
        let c = v[i];
        out.push(if c == '-' { '，' } else { digit_reading_char(c, true) });
        i += 1;
    }
    assert(v@.subrange(0, v.len() as int) == v@);
    out
}

fn spaced_reading_chars(v: &Vec<char>) -> (r: Vec<char>)
    ensures
        r@ == spaced_reading(v@),
{
    let mut out: Vec<char> = Vec::new();
    let mut started = false;
    let mut due = false;
    let mut i: usize = 0;
    while i < v.len()
        invariant
            i <= v.len(),
            (out@, started, due) == spaced_fold(v@, i as int),
        decreases v.len() - i,
    {
        let c = v[i];
        if char_is_whitespace(c) {
            due = started;
        } else {
            if due {
                out.push('，');
            }
            out.push(digit_reading_char(c, true));
            started = true;
            due = false;
        }
        i += 1;
    }
    out
}

proof fn lemma_trim_plus(s: Seq<char>, k: int)
    requires
        0 <= k <= s.len(),
        forall|m: int| 0 <= m < k ==> s[m] == '+',
        k == s.len() || s[k] != '+',
    ensures
        trim_plus(s) == s.subrange(k, s.len() as int),
    decreases k,
{
    if k > 0 {
        assert forall|m: int| 0 <= m < k - 1 implies s.drop_first()[m] == '+' by {
            assert(s.drop_first()[m] == s[m + 1]);
        }
        lemma_trim_plus(s.drop_first(), k - 1);
        assert(s.drop_first().subrange(k - 1, s.len() - 1) == s.subrange(k, s.len() as int));
    } else {
        assert(s.subrange(0, s.len() as int) == s);
    }
}

fn phone_reading_chars(v: &Vec<char>, mobile: bool) -> (r: Vec<char>)
    ensures
        r@ == phone_reading(v@, mobile),
{
    if mobile && v.len() > 0 && v[0] == '+' {
        let mut k: usize = 0;
        while k < v.len() && v[k] == '+'
            invariant
                k <= v.len(),
                forall|m: int| 0 <= m < k ==> v@[m] == '+',
            decreases v.len() - k,
        {
            k += 1;
        }
        proof {
            lemma_trim_plus(v@, k as int);
        }
        let rest = crate::chars::slice_chars(v, k, v.len());
        spaced_reading_chars(&rest)
    } else {
        dashed_reading_chars(v)
    }
}

proof fn lemma_spaced_len(s: Seq<char>, n: int)
    requires
        0 <= n <= s.len(),
    ensures
        spaced_fold(s, n).0.len() + (if spaced_fold(s, n).2 { 1int } else { 0 }) <= n,
        spaced_fold(s, n).2 ==> spaced_fold(s, n).1,
    decreases n,
{
    if n > 0 {
        lemma_spaced_len(s, n - 1);
    }
}

proof fn lemma_trim_plus_len(s: Seq<char>)
    ensures
        trim_plus(s).len() <= s.len(),
    decreases s.len(),
{
    if s.len() > 0 && s[0] == '+' {
        lemma_trim_plus_len(s.drop_first());
    }
}

proof fn lemma_reading_len(s: Seq<char>, mobile: bool)
    ensures
        phone_reading(s, mobile).len() <= s.len(),
{
    if mobile && s.len() > 0 && s[0] == '+' {
        let t = trim_plus(s);
        lemma_trim_plus_len(s);
        lemma_spaced_len(t, t.len() as int);
    }
}

proof fn lemma_phones_len(p: PhoneKind, s: Seq<char>, i: int)
    requires
        0 <= i <= s.len(),
    ensures
        phones_from(p, s, i).len() <= s.len() - i,
    decreases s.len() - i,
{
    if i < s.len() {
        let e = phone_end(p, s, i);
        if i < e <= s.len() {
            lemma_reading_len(s.subrange(i, e), p == PhoneKind::Mobile);
            lemma_phones_len(p, s, e);
        } else {
            lemma_phones_len(p, s, i + 1);
        }
    }
}

fn phones_chars(p: PhoneKind, v: &Vec<char>) -> (r: Vec<char>)
    ensures
        r@ == phones_from(p, v@, 0),
        r@.len() <= v@.len(),
{
    proof {
        lemma_phones_len(p, v@, 0);
    }
    let mut out: Vec<char> = Vec::new();
    let mut i: usize = 0;
    while i < v.len()
        invariant
            i <= v.len(),
            out@ + phones_from(p, v@, i as int) == phones_from(p, v@, 0),
        decreases v.len() - i,
    {
        let e = phone_end_at(p, v, i);
        if e > i {
            let piece = crate::chars::slice_chars(v, i, e);
            let reading = phone_reading_chars(&piece, matches!(p, PhoneKind::Mobile));
            assert(out@ + phones_from(p, v@, i as int) == (out@ + reading@) + phones_from(p, v@, e as int));
            extend_chars(&mut out, &reading);
            i = e;
        } else {
            assert(out@ + phones_from(p, v@, i as int) == out@.push(v@[i as int]) + phones_from(p, v@, i + 1));
            out.push(v[i]);
            i += 1;
        }
    }
    assert(out@ + Seq::<char>::empty() == out@);
    out
}

/// Reader of telephone numbers.
pub struct Phonecode;

impl Phonecode {
    pub fn new() -> Self {
        Phonecode
    }

    /// Reads a telephone number (see `phone_reading`).
    pub fn phone2str(&self, phone_str: &str, mobile: bool) -> (r: String)
        ensures
            r@ == phone_reading(phone_str@, mobile),
    {
        string_of(&phone_reading_chars(&chars_of(phone_str), mobile))
    }

    /// Reads every telephone number of a sentence (see `phones_read`).
    pub fn normalize(&self, phone_str: &str) -> (r: String)
        ensures
            r@ == phones_read(phone_str@),
            r@.len() <= phone_str@.len(),
    {
        let v = chars_of(phone_str);
        let v = phones_chars(PhoneKind::Mobile, &v);
        let v = phones_chars(PhoneKind::Landline, &v);
        let v = phones_chars(PhoneKind::Service, &v);
        string_of(&v)
    }
}

} // verus!
