//! Verbalisation of numbers in spoken Chinese: digit-by-digit reading,
//! cardinal reading with the units 十 百 千 万 亿, decimals, and the rewriting
//! of number expressions (scientific notation, fractions, percentages,
//! ranges and plain numbers) inside a sentence.
use vstd::prelude::*;
use crate::chars::{all_digits, chars_of, extend_chars, is_digit, slice_chars, string_of};

verus! {

/// Integers longer than this are read digit by digit.
pub const MAX_NUMERIC_LENGTH: usize = 13;

/// The Chinese numeral for an ASCII digit; any other character is kept.
pub open spec fn digit_word(c: char) -> char {
    if c == '0' { '零' }
    else if c == '1' { '一' }
    else if c == '2' { '二' }
    else if c == '3' { '三' }
    else if c == '4' { '四' }
    else if c == '5' { '五' }
    else if c == '6' { '六' }
    else if c == '7' { '七' }
    else if c == '8' { '八' }
    else if c == '9' { '九' }
    else { c }
}

/// The digit-by-digit reading of one character; with `alt_one` every 一 is
/// read 幺, as in telephone numbers.
pub open spec fn digit_reading(c: char, alt_one: bool) -> char {
    if alt_one && digit_word(c) == '一' { '幺' } else { digit_word(c) }
}

/// The digit-by-digit reading of a string.
pub open spec fn digits_reading(s: Seq<char>, alt_one: bool) -> Seq<char> {
    s.map_values(|c: char| digit_reading(c, alt_one))
}

/// `s` without its leading zeros.
pub open spec fn strip_zeros(s: Seq<char>) -> Seq<char>
    decreases s.len(),
{
    if s.len() > 0 && s[0] == '0' { strip_zeros(s.drop_first()) } else { s }
}

/// The power of ten of the largest unit used for a number of `n` significant digits.
pub open spec fn largest_unit(n: int) -> int {
    if n > 8 { 8 } else if n > 4 { 4 } else if n > 3 { 3 } else if n > 2 { 2 } else { 1 }
}

/// The unit character for a power of ten among 1, 2, 3, 4, 8.
pub open spec fn unit_word(p: int) -> char {
    if p == 8 { '亿' } else if p == 4 { '万' } else if p == 3 { '千' } else if p == 2 { '百' } else { '十' }
}

/// The cardinal reading of a digit string, before the elision of a leading 一十:
/// the part above the largest unit, the unit, and the part below it; a group
/// that starts with zeros is read with one 零.
pub open spec fn cardinal_symbols(s: Seq<char>) -> Seq<char>
    decreases s.len()
    via cardinal_symbols_decreases

{
    let t = strip_zeros(s);
    if t.len() == 0 {
        seq![]
    } else if t.len() == 1 {
        if t.len() < s.len() { seq!['零', digit_word(t[0])] } else { seq![digit_word(t[0])] }
    } else {
        let u = largest_unit(t.len() as int);
        let split = s.len() - u;
        cardinal_symbols(s.subrange(0, split)) + seq![unit_word(u)]
            + cardinal_symbols(s.subrange(split, s.len() as int))
    }
}

/// The cardinal reading of a digit string; `with_limit` reads strings that
/// start with 0 or are longer than thirteen digits digit by digit.
pub open spec fn cardinal_reading(s: Seq<char>, with_limit: bool) -> Seq<char> {
    if s.len() == 0 {
        s
    } else if with_limit && (s[0] == '0' || s.len() > MAX_NUMERIC_LENGTH) {
        digits_reading(s, true)
    } else {
        let t = strip_zeros(s);
        if t.len() == 0 {
            seq!['零']
        } else {
            let r = cardinal_symbols(t);
            if r.len() >= 2 && r[0] == '一' && r[1] == '十' { r.drop_first() } else { r }
        }
    }
}

/// Index of the first `c` in `s`, or the length of `s` if there is none.
pub open spec fn index_of(s: Seq<char>, c: char) -> int
    decreases s.len(),
{
    if s.len() == 0 {
        0
    } else if s[0] == c {
        0
    } else {
        1 + index_of(s.drop_first(), c)
    }
}

/// `s` without its trailing zeros.
pub open spec fn trim_trailing_zeros(s: Seq<char>) -> Seq<char>
    decreases s.len(),
{
    if s.len() > 0 && s.last() == '0' { trim_trailing_zeros(s.drop_last()) } else { s }
}

/// Whether `s` is a number string that `num2str` accepts: digits up to its first dot.
pub open spec fn is_number_text(s: Seq<char>) -> bool {
    all_digits(s.subrange(0, index_of(s, '.')))
}

/// The reading of a number with an optional decimal part: the integer part as
/// a cardinal, then 点 and the decimals digit by digit, trailing zeros dropped.
pub open spec fn number_reading(s: Seq<char>, with_limit: bool) -> Seq<char> {
    let d = index_of(s, '.');
    if d < s.len() {
        let int_part = cardinal_reading(s.subrange(0, d), false);
        let dec = trim_trailing_zeros(s.subrange(d + 1, s.len() as int));
        if dec.len() == 0 {
            int_part
        } else {
            (if int_part.len() == 0 { seq!['零'] } else { int_part }) + seq!['点']
                + digits_reading(dec, false)
        }
    } else {
        cardinal_reading(s, with_limit)
    }
}

#[via_fn]
proof fn cardinal_symbols_decreases(s: Seq<char>) {
    lemma_strip_zeros(s);
}

proof fn lemma_index_of_bound(s: Seq<char>, c: char)
    ensures
        0 <= index_of(s, c) <= s.len(),
        index_of(s, c) < s.len() ==> s[index_of(s, c)] == c,
        forall|k: int| 0 <= k < index_of(s, c) ==> s[k] != c,
    decreases s.len(),
{
    if s.len() > 0 && s[0] != c {
        lemma_index_of_bound(s.drop_first(), c);
        assert forall|k: int| 0 <= k < index_of(s, c) implies s[k] != c by {
            if k > 0 {
                assert(s[k] == s.drop_first()[k - 1]);
            }
        }
    }
}

proof fn lemma_strip_zeros(s: Seq<char>)
    ensures
        strip_zeros(s).len() <= s.len(),
        strip_zeros(s) == s.subrange(s.len() - strip_zeros(s).len(), s.len() as int),
        strip_zeros(s).len() > 0 ==> strip_zeros(s)[0] != '0',
    decreases s.len(),
{
    if s.len() > 0 && s[0] == '0' {
        lemma_strip_zeros(s.drop_first());
        assert(s.drop_first().subrange(s.len() - 1 - strip_zeros(s).len(), s.len() - 1)
            == s.subrange(s.len() - strip_zeros(s).len(), s.len() as int));
    } else {
        assert(s.subrange(0, s.len() as int) == s);
    }
}

/// Index of the first character of `v` that is not `0`.
fn leading_zeros(v: &Vec<char>) -> (r: usize)
    ensures
        r <= v.len(),
        strip_zeros(v@) == v@.subrange(r as int, v.len() as int),
{
    let mut i: usize = 0;
    assert(v@.subrange(0, v.len() as int) == v@);
    while i < v.len() && v[i] == '0'
        invariant
            i <= v.len(),
            strip_zeros(v@) == strip_zeros(v@.subrange(i as int, v.len() as int)),
        decreases v.len() - i,
    {
        assert(v@.subrange(i as int, v.len() as int).drop_first()
            == v@.subrange(i + 1, v.len() as int));
        i += 1;
    }
    proof {
        r_strip_done(v@, i as int);
    }
    i
}

proof fn r_strip_done(s: Seq<char>, i: int)
    requires
        0 <= i <= s.len(),
        i == s.len() || s[i] != '0',
    ensures
        strip_zeros(s.subrange(i, s.len() as int)) == s.subrange(i, s.len() as int),
{
}

/// The digit-by-digit reading of `v`.
pub fn digits_reading_chars(v: &Vec<char>, alt_one: bool) -> (r: Vec<char>)
    ensures
        r@ == digits_reading(v@, alt_one),
{
    let mut r: Vec<char> = Vec::new();
    let mut i: usize = 0;
    while i < v.len()
        invariant
            i <= v.len(),
            r@ == digits_reading(v@.subrange(0, i as int), alt_one),
        decreases v.len() - i,
    {
        let w = digit_word_char(v[i]);
        let w = if alt_one && w == '一' { '幺' } else { w };
        r.push(w);
        i += 1;
        assert(digits_reading(v@.subrange(0, i as int), alt_one)
            =~= digits_reading(v@.subrange(0, i - 1), alt_one).push(w));
    }
    assert(v@.subrange(0, v.len() as int) == v@);
    r
}

pub fn digit_word_char(c: char) -> (r: char)
    ensures
        r == digit_word(c),
{
    if c == '0' { '零' }
    else if c == '1' { '一' }
    else if c == '2' { '二' }
    else if c == '3' { '三' }
    else if c == '4' { '四' }
    else if c == '5' { '五' }
    else if c == '6' { '六' }
    else if c == '7' { '七' }
    else if c == '8' { '八' }
    else if c == '9' { '九' }
    else { c }
}

/// The cardinal reading of a digit string before the elision of a leading 一十.
fn get_value(v: &Vec<char>) -> (r: Vec<char>)
    ensures
        r@ == cardinal_symbols(v@),
    decreases v.len(),
{
    let z = leading_zeros(v);
    let t_len = v.len() - z;
    proof {
        lemma_strip_zeros(v@);
    }
    if t_len == 0 {
        Vec::new()
    } else if t_len == 1 {
        let d = digit_word_char(v[z]);
        if z > 0 {
            vec!['零', d]
        } else {
            vec![d]
        }
    } else {
        let u: usize = if t_len > 8 { 8 } else if t_len > 4 { 4 } else if t_len > 3 { 3 } else if t_len > 2 { 2 } else { 1 };
        let unit = if u == 8 { '亿' } else if u == 4 { '万' } else if u == 3 { '千' } else if u == 2 { '百' } else { '十' };
        let split = v.len() - u;
        let first = slice_chars(v, 0, split);
        let second = slice_chars(v, split, v.len());
        let mut r = get_value(&first);
        r.push(unit);
        let rest = get_value(&second);
        extend_chars(&mut r, &rest);
        r
    }
}

/// The cardinal reading of the digit string `v` (see `cardinal_reading`).
pub fn cardinal_reading_chars(v: &Vec<char>, with_limit: bool) -> (r: Vec<char>)
    requires
        all_digits(v@),
    ensures
        r@ == cardinal_reading(v@, with_limit),
{
    if v.len() == 0 {
        Vec::new()
    } else if with_limit && (v[0] == '0' || v.len() > MAX_NUMERIC_LENGTH) {
        digits_reading_chars(v, true)
    } else {
        let z = leading_zeros(v);
        if z == v.len() {
            vec!['零']
        } else {
            let t = slice_chars(v, z, v.len());
            let r = get_value(&t);
            if r.len() >= 2 && r[0] == '一' && r[1] == '十' {
                let n = r.len();
                slice_chars(&r, 1, n)
            } else {
                r
            }
        }
    }
}

proof fn lemma_index_of_at(s: Seq<char>, c: char, i: int)
    requires
        0 <= i <= s.len(),
        i == s.len() || s[i] == c,
        forall|k: int| 0 <= k < i ==> s[k] != c,
    ensures
        index_of(s, c) == i,
    decreases s.len(),
{
    if s.len() > 0 && i > 0 {
        assert forall|k: int| 0 <= k < i - 1 implies s.drop_first()[k] != c by {
            assert(s.drop_first()[k] == s[k + 1]);
        }
        lemma_index_of_at(s.drop_first(), c, i - 1);
    }
}

/// Index of the first `c` in `v`, or its length.
pub fn find_char(v: &Vec<char>, c: char) -> (r: usize)
    ensures
        r as int == index_of(v@, c),
        r <= v.len(),
{
    let mut i: usize = 0;
    while i < v.len() && v[i] != c
        invariant
            i <= v.len(),
            forall|k: int| 0 <= k < i ==> v@[k] != c,
        decreases v.len() - i,
    {
        i += 1;
    }
    proof {
        lemma_index_of_at(v@, c, i as int);
    }
    i
}

proof fn lemma_trim_trailing_zeros_at(s: Seq<char>, n: int)
    requires
        0 <= n <= s.len(),
        n == 0 || s[n - 1] != '0',
        forall|k: int| n <= k < s.len() ==> s[k] == '0',
    ensures
        trim_trailing_zeros(s) == s.subrange(0, n),
    decreases s.len(),
{
    if s.len() > n {
        assert forall|k: int| n <= k < s.drop_last().len() implies s.drop_last()[k] == '0' by {
            assert(s.drop_last()[k] == s[k]);
        }
        lemma_trim_trailing_zeros_at(s.drop_last(), n);
        assert(s.drop_last().subrange(0, n) == s.subrange(0, n));
    } else {
        assert(s.subrange(0, n) == s);
    }
}

/// `v` without its trailing zeros.
pub fn trim_zeros_at_end(v: &Vec<char>) -> (r: Vec<char>)
    ensures
        r@ == trim_trailing_zeros(v@),
{
    trim_trailing_zeros_chars(v)
}

fn trim_trailing_zeros_chars(v: &Vec<char>) -> (r: Vec<char>)
    ensures
        r@ == trim_trailing_zeros(v@),
{
    let mut n: usize = v.len();
    while n > 0 && v[n - 1] == '0'
        invariant
            n <= v.len(),
            forall|k: int| n <= k < v.len() ==> v@[k] == '0',
        decreases n,
    {
        n -= 1;
    }
    proof {
        lemma_trim_trailing_zeros_at(v@, n as int);
    }
    slice_chars(v, 0, n)
}

/// The reading of the number string `v` (see `number_reading`).
pub fn number_reading_chars(v: &Vec<char>, with_limit: bool) -> (r: Vec<char>)
    requires
        is_number_text(v@),
    ensures
        r@ == number_reading(v@, with_limit),
{
    let d = find_char(v, '.');
    if d < v.len() {
        let ip = slice_chars(v, 0, d);
        let int_part = cardinal_reading_chars(&ip, false);
        let dec_full = slice_chars(v, d + 1, v.len());
        let dec = trim_trailing_zeros_chars(&dec_full);
        if dec.len() == 0 {
            int_part
        } else {
            let mut r = if int_part.len() == 0 { vec!['零'] } else { int_part };
            r.push('点');
            let digits = digits_reading_chars(&dec, false);
            extend_chars(&mut r, &digits);
            r
        }
    } else {
        assert(v@.subrange(0, v.len() as int) == v@);
        cardinal_reading_chars(v, with_limit)
    }
}

/// Length of the run of ASCII digits of `s` that starts at `i`.
pub open spec fn run(s: Seq<char>, i: int) -> nat
    decreases s.len() - i,
{
    if 0 <= i < s.len() && is_digit(s[i]) { 1 + run(s, i + 1) } else { 0 }
}

/// 1 when a minus sign stands at `i`, else 0.
pub open spec fn minus_len(s: Seq<char>, i: int) -> int {
    if 0 <= i < s.len() && s[i] == '-' { 1 } else { 0 }
}

/// End of an optional `.digits` part that starts at `k`.
pub open spec fn frac_end(s: Seq<char>, k: int) -> int {
    if 0 <= k < s.len() && s[k] == '.' && run(s, k + 1) > 0 { k + 1 + run(s, k + 1) } else { k }
}

/// Whether every character of `s` is `0`.
pub open spec fn all_zero(s: Seq<char>) -> bool {
    forall|k: int| 0 <= k < s.len() ==> s[k] == '0'
}

/// End of the number `-?digits(.digits)?` or `.digits` that starts at `i`,
/// or `i` when none starts there.
pub open spec fn number_end(s: Seq<char>, i: int) -> int {
    let j = i + minus_len(s, i);
    if run(s, j) > 0 {
        frac_end(s, j + run(s, j))
    } else if 0 <= i < s.len() && s[i] == '.' && run(s, i + 1) > 0 {
        i + 1 + run(s, i + 1)
    } else {
        i
    }
}

/// The reading of the number that starts at `i`: a minus sign before a
/// non-zero value is read 负, and an integer without such a sign is read with
/// the length limit.
pub open spec fn number_render(s: Seq<char>, i: int) -> Seq<char> {
    let j = i + minus_len(s, i);
    let e = number_end(s, i);
    if run(s, j) > 0 {
        let num = s.subrange(j, e);
        let neg = j > i && !all_zero(num);
        (if neg { seq!['负'] } else { seq![] }) + number_reading(num, !neg)
    } else {
        number_reading(s.subrange(i, e), false)
    }
}

/// End of the fraction `-?digits/digits` that starts at `i`, or `i`.
pub open spec fn fraction_end(s: Seq<char>, i: int) -> int {
    let j = i + minus_len(s, i);
    let r1 = run(s, j);
    if r1 > 0 && j + r1 < s.len() && s[j + r1] == '/' && run(s, j + r1 + 1) > 0 {
        j + r1 + 1 + run(s, j + r1 + 1)
    } else {
        i
    }
}

/// A fraction read as denominator 分之 numerator.
pub open spec fn fraction_render(s: Seq<char>, i: int) -> Seq<char> {
    let j = i + minus_len(s, i);
    let r1 = run(s, j);
    let nom = s.subrange(j, j + r1);
    let den = s.subrange(j + r1 + 1, fraction_end(s, i));
    (if j > i && !all_zero(nom) { seq!['负'] } else { seq![] }) + number_reading(den, false)
        + seq!['分', '之'] + number_reading(nom, false)
}

/// End of the percentage `-?digits(.digits)?%` that starts at `i`, or `i`.
pub open spec fn percentage_end(s: Seq<char>, i: int) -> int {
    let j = i + minus_len(s, i);
    let k = frac_end(s, j + run(s, j));
    if run(s, j) > 0 && k < s.len() && s[k] == '%' { k + 1 } else { i }
}

/// A percentage read as 百分之 and the number.
pub open spec fn percentage_render(s: Seq<char>, i: int) -> Seq<char> {
    let j = i + minus_len(s, i);
    let k = frac_end(s, j + run(s, j));
    (if j > i { seq!['负'] } else { seq![] }) + seq!['百', '分', '之']
        + number_reading(s.subrange(j, k), false)
}

/// Whether a range connector stands at `k`.
pub open spec fn is_range_sep(s: Seq<char>, k: int) -> bool {
    0 <= k < s.len() && (s[k] == '-' || s[k] == '~')
}

/// End of the range `number[-~]number` that starts at `i`, or `i`.
pub open spec fn range_end(s: Seq<char>, i: int) -> int {
    let e1 = number_end(s, i);
    if e1 > i && is_range_sep(s, e1) && number_end(s, e1 + 1) > e1 + 1 {
        number_end(s, e1 + 1)
    } else {
        i
    }
}

/// A range read as the two numbers joined by 到.
pub open spec fn range_render(s: Seq<char>, i: int) -> Seq<char> {
    number_render(s, i) + seq!['到'] + number_render(s, number_end(s, i) + 1)
}

/// Numeric value of a digit string.
pub open spec fn digits_value(s: Seq<char>) -> nat
    decreases s.len(),
{
    if s.len() == 0 {
        0
    } else {
        digits_value(s.drop_last()) * 10 + (s.last() as u32 - '0' as u32) as nat
    }
}

/// 1 when an exponent sign stands at `x`, else 0.
pub open spec fn exp_sign_len(s: Seq<char>, x: int) -> int {
    if 0 <= x < s.len() && (s[x] == '+' || s[x] == '-') { 1 } else { 0 }
}

/// End of the mantissa `-?digits(.digits)?` that starts at `i`.
pub open spec fn mantissa_end(s: Seq<char>, i: int) -> int {
    let j = i + minus_len(s, i);
    frac_end(s, j + run(s, j))
}

/// End of the scientific number `-?digits(.digits)?[eE][+-]?digits` that
/// starts at `i`, or `i`.
pub open spec fn scientific_end(s: Seq<char>, i: int) -> int {
    let j = i + minus_len(s, i);
    let k = mantissa_end(s, i);
    let y = k + 1 + exp_sign_len(s, k + 1);
    if run(s, j) > 0 && k < s.len() && (s[k] == 'e' || s[k] == 'E') && run(s, y) > 0 {
        y + run(s, y)
    } else {
        i
    }
}

/// Whether an exponent of magnitude `v` fits a 32-bit signed integer.
pub open spec fn exponent_fits(neg: bool, v: nat) -> bool {
    if neg { v <= 2147483648 } else { v <= 2147483647 }
}

/// `n` zeros.
pub open spec fn zeros(n: nat) -> Seq<char> {
    Seq::new(n, |k: int| '0')
}

/// The plain decimal form of `base` times ten to the power `v` (negated when
/// `neg`): the digits of `base` shifted, with zeros padded; an exponent that
/// does not fit 32 bits leaves `base` as it is.
pub open spec fn scientific_digits(base: Seq<char>, neg: bool, v: nat) -> Seq<char> {
    let d = index_of(base, '.');
    let dec = if d < base.len() { base.subrange(d + 1, base.len() as int) } else { seq![] };
    let all = base.subrange(0, d) + dec;
    if !exponent_fits(neg, v) {
        base
    } else if !neg || v == 0 {
        all + zeros(if v > dec.len() { (v - dec.len()) as nat } else { 0 })
    } else {
        seq!['0', '.'] + zeros((v - 1) as nat) + all
    }
}

/// A scientific number read as its plain decimal form.
pub open spec fn scientific_render(s: Seq<char>, i: int) -> Seq<char> {
    let j = i + minus_len(s, i);
    let k = mantissa_end(s, i);
    let y = k + 1 + exp_sign_len(s, k + 1);
    let neg = exp_sign_len(s, k + 1) == 1 && s[k + 1] == '-';
    let v = digits_value(s.subrange(y, scientific_end(s, i)));
    (if j > i { seq!['负'] } else { seq![] })
        + number_reading(scientific_digits(s.subrange(j, k), neg, v), false)
}

/// The number patterns rewritten by `Num::normalize`, in the order in which
/// they are applied.
#[derive(Clone, Copy, PartialEq, Eq, Debug)]
pub enum NumPattern {
    Scientific,
    Fraction,
    Percentage,
    Range,
    Number,
}

/// End of the match of `p` at `i`, or `i` when there is none.
pub open spec fn pattern_end(p: NumPattern, s: Seq<char>, i: int) -> int {
    match p {
        NumPattern::Scientific => scientific_end(s, i),
        NumPattern::Fraction => fraction_end(s, i),
        NumPattern::Percentage => percentage_end(s, i),
        NumPattern::Range => range_end(s, i),
        NumPattern::Number => number_end(s, i),
    }
}

/// The reading that replaces the match of `p` at `i`.
pub open spec fn pattern_render(p: NumPattern, s: Seq<char>, i: int) -> Seq<char> {
    match p {
        NumPattern::Scientific => scientific_render(s, i),
        NumPattern::Fraction => fraction_render(s, i),
        NumPattern::Percentage => percentage_render(s, i),
        NumPattern::Range => range_render(s, i),
        NumPattern::Number => number_render(s, i),
    }
}

/// `s` from `i` on with every leftmost match of `p` replaced by its reading,
/// scanning left to right.
pub open spec fn rewrite_from(p: NumPattern, s: Seq<char>, i: int) -> Seq<char>
    decreases s.len() - i,
{
    if i < 0 || i >= s.len() {
        seq![]
    } else {
        let e = pattern_end(p, s, i);
        if i < e <= s.len() {
            pattern_render(p, s, i) + rewrite_from(p, s, e)
        } else {
            seq![s[i]] + rewrite_from(p, s, i + 1)
        }
    }
}

/// `s` with every match of `p` replaced by its reading.
pub open spec fn rewrite(p: NumPattern, s: Seq<char>) -> Seq<char> {
    rewrite_from(p, s, 0)
}

pub proof fn lemma_run(s: Seq<char>, i: int)
    requires
        0 <= i <= s.len(),
    ensures
        i + run(s, i) <= s.len(),
        forall|k: int| i <= k < i + run(s, i) ==> is_digit(#[trigger] s[k]),
        i + run(s, i) < s.len() ==> !is_digit(s[i + run(s, i)]),
    decreases s.len() - i,
{
    if i < s.len() && is_digit(s[i]) {
        lemma_run(s, i + 1);
    }
}

proof fn lemma_run_at(s: Seq<char>, i: int, k: int)
    requires
        0 <= i,
        0 <= k,
        i + k <= s.len(),
        forall|m: int| i <= m < i + k ==> is_digit(#[trigger] s[m]),
        i + k == s.len() || !is_digit(s[i + k]),
    ensures
        run(s, i) == k,
    decreases k,
{
    if k > 0 {
        lemma_run_at(s, i + 1, k - 1);
    }
}

/// Length of the run of digits of `v` from `i`.
pub fn digit_run(v: &Vec<char>, i: usize) -> (r: usize)
    requires
        i <= v.len(),
    ensures
        r == run(v@, i as int),
        i + r <= v.len(),
{
    let mut j: usize = i;
    while j < v.len() && '0' <= v[j] && v[j] <= '9'
        invariant
            i <= j <= v.len(),
            forall|m: int| i <= m < j ==> is_digit(#[trigger] v@[m]),
        decreases v.len() - j,
    {
        j += 1;
    }
    proof {
        lemma_run_at(v@, i as int, j - i);
    }
    j - i
}

/// An all-digit string is a number text, and so is it without its leading zeros.
pub proof fn lemma_strip_zeros_digits(s: Seq<char>)
    requires
        all_digits(s),
    ensures
        all_digits(strip_zeros(s)),
        is_number_text(strip_zeros(s)),
{
    lemma_strip_zeros(s);
    let t = strip_zeros(s);
    assert forall|k: int| 0 <= k < t.len() implies is_digit(#[trigger] t[k]) by {
        assert(t[k] == s[s.len() - t.len() + k]);
    }
    lemma_all_digits_number_text(t);
}

pub proof fn lemma_digits_number_text(s: Seq<char>)
    requires
        all_digits(s),
    ensures
        is_number_text(s),
{
    lemma_all_digits_number_text(s);
}

proof fn lemma_all_digits_number_text(s: Seq<char>)
    requires
        all_digits(s),
    ensures
        index_of(s, '.') == s.len(),
        is_number_text(s),
{
    lemma_index_of_at(s, '.', s.len() as int);
    assert(s.subrange(0, s.len() as int) == s);
}

pub proof fn lemma_number_text(s: Seq<char>, j: int, e: int)
    requires
        0 <= j <= s.len(),
        e == frac_end(s, j + run(s, j)),
    ensures
        j <= e <= s.len(),
        is_number_text(s.subrange(j, e)),
        index_of(s.subrange(j, e), '.') == run(s, j),
{
    lemma_run(s, j);
    let r = run(s, j) as int;
    if j + r < s.len() && s[j + r] == '.' {
        lemma_run(s, j + r + 1);
    }
    let p = s.subrange(j, e);
    assert forall|k: int| 0 <= k < r implies p[k] != '.' by {
        assert(p[k] == s[j + k]);
        assert(is_digit(s[j + k]));
    }
    lemma_index_of_at(p, '.', r);
    assert forall|k: int| 0 <= k < r implies is_digit(#[trigger] p.subrange(0, r)[k]) by {
        assert(p.subrange(0, r)[k] == s[j + k]);
    }
}

/// End of the number of `v` at `i` (see `number_end`).
fn number_end_at(v: &Vec<char>, i: usize) -> (e: usize)
    requires
        i <= v.len(),
    ensures
        e as int == number_end(v@, i as int),
        i <= e <= v.len(),
        e > i ==> i < v.len(),
{
    if i == v.len() {
        return i;
    }
    let j: usize = if v[i] == '-' { i + 1 } else { i };
    let r = digit_run(v, j);
    if r > 0 {
        frac_end_at(v, j + r)
    } else if v[i] == '.' {
        let r2 = digit_run(v, i + 1);
        if r2 > 0 { i + 1 + r2 } else { i }
    } else {
        i
    }
}

pub fn frac_end_at(v: &Vec<char>, k: usize) -> (e: usize)
    requires
        k <= v.len(),
    ensures
        e as int == frac_end(v@, k as int),
        k <= e <= v.len(),
{
    if k < v.len() && v[k] == '.' {
        let r = digit_run(v, k + 1);
        if r > 0 { k + 1 + r } else { k }
    } else {
        k
    }
}

fn all_zero_chars(v: &Vec<char>) -> (r: bool)
    ensures
        r == all_zero(v@),
{
    let mut i: usize = 0;
    while i < v.len()
        invariant
            i <= v.len(),
            forall|k: int| 0 <= k < i ==> v@[k] == '0',
        decreases v.len() - i,
    {
        if v[i] != '0' {
            return false;
        }
        i += 1;
    }
    true
}

fn with_minus(neg: bool, body: Vec<char>) -> (r: Vec<char>)
    ensures
        r@ == (if neg { seq!['负'] } else { seq![] }) + body@,
{
    if neg {
        let mut r = vec!['负'];
        extend_chars(&mut r, &body);
        r
    } else {
        assert(seq![] + body@ == body@);
        body
    }
}

fn number_render_at(v: &Vec<char>, i: usize) -> (r: Vec<char>)
    requires
        i < v.len(),
    ensures
        r@ == number_render(v@, i as int),
{
    let j: usize = if v[i] == '-' { i + 1 } else { i };
    let r1 = digit_run(v, j);
    let e = number_end_at(v, i);
    if r1 > 0 {
        proof {
            lemma_number_text(v@, j as int, e as int);
        }
        let num = slice_chars(v, j, e);
        let neg = j > i && !all_zero_chars(&num);
        let body = number_reading_chars(&num, !neg);
        with_minus(neg, body)
    } else {
        proof {
            if e > i {
                lemma_number_text(v@, i as int, e as int);
            } else {
                lemma_all_digits_number_text(v@.subrange(i as int, e as int));
            }
        }
        let piece = slice_chars(v, i, e);
        number_reading_chars(&piece, false)
    }
}

fn fraction_end_at(v: &Vec<char>, i: usize) -> (e: usize)
    requires
        i < v.len(),
    ensures
        e as int == fraction_end(v@, i as int),
        i <= e <= v.len(),
{
    let j: usize = if v[i] == '-' { i + 1 } else { i };
    let r1 = digit_run(v, j);
    if r1 > 0 && j + r1 < v.len() && v[j + r1] == '/' {
        let r2 = digit_run(v, j + r1 + 1);
        if r2 > 0 { j + r1 + 1 + r2 } else { i }
    } else {
        i
    }
}

proof fn lemma_digits_piece(s: Seq<char>, a: int, b: int)
    requires
        0 <= a <= b <= s.len(),
        b <= a + run(s, a),
    ensures
        all_digits(s.subrange(a, b)),
        is_number_text(s.subrange(a, b)),
{
    lemma_run(s, a);
    assert forall|k: int| 0 <= k < b - a implies is_digit(#[trigger] s.subrange(a, b)[k]) by {
        assert(s.subrange(a, b)[k] == s[a + k]);
    }
    lemma_all_digits_number_text(s.subrange(a, b));
}

fn fraction_render_at(v: &Vec<char>, i: usize) -> (r: Vec<char>)
    requires
        i < v.len(),
        fraction_end(v@, i as int) > i,
    ensures
        r@ == fraction_render(v@, i as int),
{
    let j: usize = if v[i] == '-' { i + 1 } else { i };
    let r1 = digit_run(v, j);
    let e = fraction_end_at(v, i);
    proof {
        lemma_digits_piece(v@, j as int, j + r1);
        lemma_run(v@, j + r1 + 1);
        lemma_digits_piece(v@, j + r1 + 1, e as int);
    }
    let nom = slice_chars(v, j, j + r1);
    let den = slice_chars(v, j + r1 + 1, e);
    let neg = j > i && !all_zero_chars(&nom);
    let mut body = number_reading_chars(&den, false);
    body.push('分');
    body.push('之');
    let nr = number_reading_chars(&nom, false);
    extend_chars(&mut body, &nr);
    with_minus(neg, body)
}

fn percentage_end_at(v: &Vec<char>, i: usize) -> (e: usize)
    requires
        i < v.len(),
    ensures
        e as int == percentage_end(v@, i as int),
        i <= e <= v.len(),
{
    let j: usize = if v[i] == '-' { i + 1 } else { i };
    let r1 = digit_run(v, j);
    let k = frac_end_at(v, j + r1);
    if r1 > 0 && k < v.len() && v[k] == '%' { k + 1 } else { i }
}

fn percentage_render_at(v: &Vec<char>, i: usize) -> (r: Vec<char>)
    requires
        i < v.len(),
        percentage_end(v@, i as int) > i,
    ensures
        r@ == percentage_render(v@, i as int),
{
    let j: usize = if v[i] == '-' { i + 1 } else { i };
    let r1 = digit_run(v, j);
    let k = frac_end_at(v, j + r1);
    proof {
        lemma_number_text(v@, j as int, k as int);
    }
    let num = slice_chars(v, j, k);
    let mut body = vec!['百', '分', '之'];
    let nr = number_reading_chars(&num, false);
    extend_chars(&mut body, &nr);
    with_minus(j > i, body)
}

fn range_end_at(v: &Vec<char>, i: usize) -> (e: usize)
    requires
        i < v.len(),
    ensures
        e as int == range_end(v@, i as int),
        i <= e <= v.len(),
{
    let e1 = number_end_at(v, i);
    if e1 > i && e1 < v.len() && (v[e1] == '-' || v[e1] == '~') {
        let e2 = number_end_at(v, e1 + 1);
        if e2 > e1 + 1 { e2 } else { i }
    } else {
        i
    }
}

fn range_render_at(v: &Vec<char>, i: usize) -> (r: Vec<char>)
    requires
        i < v.len(),
        range_end(v@, i as int) > i,
    ensures
        r@ == range_render(v@, i as int),
{
    let e1 = number_end_at(v, i);
    let mut r = number_render_at(v, i);
    r.push('到');
    let second = number_render_at(v, e1 + 1);
    extend_chars(&mut r, &second);
    r
}

fn scientific_end_at(v: &Vec<char>, i: usize) -> (e: usize)
    requires
        i < v.len(),
    ensures
        e as int == scientific_end(v@, i as int),
        i <= e <= v.len(),
{
    let j: usize = if v[i] == '-' { i + 1 } else { i };
    let r1 = digit_run(v, j);
    let k = frac_end_at(v, j + r1);
    if r1 > 0 && k < v.len() && (v[k] == 'e' || v[k] == 'E') {
        let x = k + 1;
        let y = if x < v.len() && (v[x] == '+' || v[x] == '-') { x + 1 } else { x };
        let r3 = digit_run(v, y);
        if r3 > 0 { y + r3 } else { i }
    } else {
        i
    }
}

pub proof fn lemma_digits_value_step(s: Seq<char>, k: int)
    requires
        0 <= k < s.len(),
    ensures
        digits_value(s.subrange(0, k + 1)) == digits_value(s.subrange(0, k)) * 10
            + (s[k] as u32 - '0' as u32) as nat,
{
    assert(s.subrange(0, k + 1).drop_last() == s.subrange(0, k));
}

/// The value of the digits `v[y..e]`, when it is at most 2^31.
fn exponent_magnitude(v: &Vec<char>, y: usize, e: usize) -> (r: (bool, usize))
    requires
        y <= e <= v.len(),
        forall|m: int| y <= m < e ==> is_digit(#[trigger] v@[m]),
    ensures
        r.0 == (digits_value(v@.subrange(y as int, e as int)) <= 2147483648),
        r.0 ==> r.1 as nat == digits_value(v@.subrange(y as int, e as int)),
{
    let ghost s = v@.subrange(y as int, e as int);
    let mut acc: u64 = 0;
    let mut over = false;
    let mut i: usize = y;
    assert(s.subrange(0, 0) =~= Seq::<char>::empty());
    while i < e
        invariant
            y <= i <= e <= v.len(),
            s == v@.subrange(y as int, e as int),
            forall|m: int| y <= m < e ==> is_digit(#[trigger] v@[m]),
            !over ==> acc as nat == digits_value(s.subrange(0, i - y)) && acc <= 2147483648,
            over ==> digits_value(s.subrange(0, i - y)) > 2147483648,
        decreases e - i,
    {
        proof {
            lemma_digits_value_step(s, i - y);
            assert(s[i - y] == v@[i as int]);
            assert(is_digit(v@[i as int]));
        }
        let d = (v[i] as u32 - '0' as u32) as u64;
        if !over {
            let next = acc * 10 + d;
            if next > 2147483648 {
                over = true;
            } else {
                acc = next;
            }
        } else {
            let ghost prev = digits_value(s.subrange(0, i - y));
            assert(prev * 10 >= prev) by (nonlinear_arith);
        }
        i += 1;
    }
    assert(s.subrange(0, e - y) == s);
    (!over, acc as usize)
}

/// Appends `n` zeros.
fn push_zeros(r: &mut Vec<char>, n: usize)
    ensures
        final(r)@ == old(r)@ + zeros(n as nat),
{
    let mut i: usize = 0;
    while i < n
        invariant
            i <= n,
            r@ == old(r)@ + zeros(i as nat),
        decreases n - i,
    {
        r.push('0');
        i += 1;
        assert(zeros(i as nat) == zeros((i - 1) as nat).push('0'));
    }
}

fn scientific_digits_chars(base: &Vec<char>, neg: bool, fits: bool, v: usize) -> (r: Vec<char>)
    requires
        fits == exponent_fits(neg, v as nat),
    ensures
        r@ == scientific_digits(base@, neg, v as nat),
{
    let d = find_char(base, '.');
    if !fits {
        return slice_chars(base, 0, base.len());
    }
    let dec = if d < base.len() { slice_chars(base, d + 1, base.len()) } else { Vec::new() };
    let mut all = slice_chars(base, 0, d);
    extend_chars(&mut all, &dec);
    if !neg || v == 0 {
        let pad: usize = if v > dec.len() { v - dec.len() } else { 0 };
        push_zeros(&mut all, pad);
        all
    } else {
        let mut r = vec!['0', '.'];
        push_zeros(&mut r, v - 1);
        extend_chars(&mut r, &all);
        r
    }
}

proof fn lemma_scientific_text(s: Seq<char>, j: int, k: int, neg: bool, v: nat)
    requires
        0 <= j <= s.len(),
        run(s, j) > 0,
        k == frac_end(s, j + run(s, j)),
    ensures
        is_number_text(scientific_digits(s.subrange(j, k), neg, v)),
{
    lemma_number_text(s, j, k);
    lemma_run(s, j);
    let base = s.subrange(j, k);
    let d = index_of(base, '.');
    let r = run(s, j) as int;
    if d < base.len() {
        lemma_run(s, j + r + 1);
    }
    let dec = if d < base.len() { base.subrange(d + 1, base.len() as int) } else { seq![] };
    let all = base.subrange(0, d) + dec;
    assert forall|m: int| 0 <= m < all.len() implies is_digit(#[trigger] all[m]) by {
        if m < d {
            assert(all[m] == s[j + m]);
        } else {
            assert(all[m] == s[j + m + 1]);
        }
    }
    if !exponent_fits(neg, v) {
    } else if !neg || v == 0 {
        let t = all + zeros(if v > dec.len() { (v - dec.len()) as nat } else { 0 });
        assert forall|m: int| 0 <= m < t.len() implies is_digit(#[trigger] t[m]) by {
            if m < all.len() {
                assert(t[m] == all[m]);
            }
        }
        lemma_all_digits_number_text(t);
    } else {
        let t = seq!['0', '.'] + zeros((v - 1) as nat) + all;
        assert(t[0] == '0');
        assert(t[1] == '.');
        lemma_index_of_at(t, '.', 1);
        assert(t.subrange(0, 1) == seq!['0']);
    }
}

fn scientific_render_at(v: &Vec<char>, i: usize) -> (r: Vec<char>)
    requires
        i < v.len(),
        scientific_end(v@, i as int) > i,
    ensures
        r@ == scientific_render(v@, i as int),
{
    let j: usize = if v[i] == '-' { i + 1 } else { i };
    let r1 = digit_run(v, j);
    let k = frac_end_at(v, j + r1);
    let x = k + 1;
    let signed = x < v.len() && (v[x] == '+' || v[x] == '-');
    let neg = signed && v[x] == '-';
    let y = if signed { x + 1 } else { x };
    let e = scientific_end_at(v, i);
    proof {
        lemma_run(v@, y as int);
        lemma_scientific_text(v@, j as int, k as int, neg,
            digits_value(v@.subrange(y as int, e as int)));
    }
    let (small, mag) = exponent_magnitude(v, y, e);
    let fits = small && (neg || mag <= 2147483647);
    let base = slice_chars(v, j, k);
    let mag = if small { mag } else { 0 };
    let digits = if fits {
        scientific_digits_chars(&base, neg, fits, mag)
    } else {
        base
    };
    proof {
        if !fits {
            assert(!exponent_fits(neg, digits_value(v@.subrange(y as int, e as int))));
        }
    }
    let body = number_reading_chars(&digits, false);
    with_minus(j > i, body)
}

/// End of the match of `p` at `i` (see `pattern_end`).
fn pattern_end_at(p: NumPattern, v: &Vec<char>, i: usize) -> (e: usize)
    requires
        i < v.len(),
    ensures
        e as int == pattern_end(p, v@, i as int),
        i <= e <= v.len(),
{
    match p {
        NumPattern::Scientific => scientific_end_at(v, i),
        NumPattern::Fraction => fraction_end_at(v, i),
        NumPattern::Percentage => percentage_end_at(v, i),
        NumPattern::Range => range_end_at(v, i),
        NumPattern::Number => number_end_at(v, i),
    }
}

fn pattern_render_at(p: NumPattern, v: &Vec<char>, i: usize) -> (r: Vec<char>)
    requires
        i < v.len(),
        pattern_end(p, v@, i as int) > i,
    ensures
        r@ == pattern_render(p, v@, i as int),
{
    match p {
        NumPattern::Scientific => scientific_render_at(v, i),
        NumPattern::Fraction => fraction_render_at(v, i),
        NumPattern::Percentage => percentage_render_at(v, i),
        NumPattern::Range => range_render_at(v, i),
        NumPattern::Number => number_render_at(v, i),
    }
}

/// Replaces every match of `p` in `v` by its reading (see `rewrite`).
pub fn rewrite_chars(p: NumPattern, v: &Vec<char>) -> (r: Vec<char>)
    ensures
        r@ == rewrite(p, v@),
{
    let mut out: Vec<char> = Vec::new();
    let mut i: usize = 0;
    while i < v.len()
        invariant
            i <= v.len(),
            out@ + rewrite_from(p, v@, i as int) == rewrite(p, v@),
        decreases v.len() - i,
    {
        let e = pattern_end_at(p, v, i);
        if e > i {
            let piece = pattern_render_at(p, v, i);
            assert(out@ + rewrite_from(p, v@, i as int) == (out@ + piece@) + rewrite_from(p, v@, e as int));
            extend_chars(&mut out, &piece);
            i = e;
        } else {
            assert(out@ + rewrite_from(p, v@, i as int) == out@.push(v@[i as int]) + rewrite_from(p, v@, i + 1));
            out.push(v[i]);
            i += 1;
        }
    }
    assert(rewrite_from(p, v@, i as int) == Seq::<char>::empty());
    assert(out@ + Seq::<char>::empty() == out@);
    out
}

/// The number patterns of a sentence replaced by their readings, one pattern
/// after the other.
pub open spec fn normalized_numbers(s: Seq<char>) -> Seq<char> {
    rewrite(NumPattern::Number, rewrite(NumPattern::Range, rewrite(NumPattern::Percentage,
        rewrite(NumPattern::Fraction, rewrite(NumPattern::Scientific, s)))))
}

/// Whether `s` holds no ASCII digit.
pub open spec fn digit_free(s: Seq<char>) -> bool {
    forall|k: int| 0 <= k < s.len() ==> !is_digit(#[trigger] s[k])
}

/// Whether `s` is digits, optionally followed by a dot and more digits.
pub open spec fn plain_number(s: Seq<char>) -> bool {
    let d = index_of(s, '.');
    all_digits(s.subrange(0, d)) && (d < s.len() ==> all_digits(s.subrange(d + 1, s.len() as int)))
}

proof fn lemma_digits_reading_free(s: Seq<char>, alt: bool)
    requires
        all_digits(s),
    ensures
        digit_free(digits_reading(s, alt)),
{
    assert forall|k: int| 0 <= k < digits_reading(s, alt).len() implies !is_digit(#[trigger] digits_reading(s, alt)[k]) by {
        assert(is_digit(s[k]));
    }
}

proof fn lemma_cardinal_symbols_free(s: Seq<char>)
    requires
        all_digits(s),
    ensures
        digit_free(cardinal_symbols(s)),
    decreases s.len(),
{
    lemma_strip_zeros(s);
    let t = strip_zeros(s);
    if t.len() == 1 {
        assert(t[0] == s[s.len() - 1]);
        assert(is_digit(s[s.len() - 1]));
    } else if t.len() > 1 {
        let u = largest_unit(t.len() as int);
        let split = s.len() - u;
        let a = s.subrange(0, split);
        let b = s.subrange(split, s.len() as int);
        assert forall|k: int| 0 <= k < a.len() implies is_digit(#[trigger] a[k]) by {
            assert(a[k] == s[k]);
        }
        assert forall|k: int| 0 <= k < b.len() implies is_digit(#[trigger] b[k]) by {
            assert(b[k] == s[split + k]);
        }
        lemma_cardinal_symbols_free(a);
        lemma_cardinal_symbols_free(b);
        let r = cardinal_symbols(a) + seq![unit_word(u)] + cardinal_symbols(b);
        assert forall|k: int| 0 <= k < r.len() implies !is_digit(#[trigger] r[k]) by {
            if k < cardinal_symbols(a).len() {
                assert(r[k] == cardinal_symbols(a)[k]);
            } else if k > cardinal_symbols(a).len() {
                assert(r[k] == cardinal_symbols(b)[k - cardinal_symbols(a).len() - 1]);
            }
        }
    }
}

proof fn lemma_cardinal_reading_free(s: Seq<char>, wl: bool)
    requires
        all_digits(s),
    ensures
        digit_free(cardinal_reading(s, wl)),
{
    if s.len() > 0 && !(wl && (s[0] == '0' || s.len() > MAX_NUMERIC_LENGTH)) {
        lemma_strip_zeros_digits(s);
        let t = strip_zeros(s);
        if t.len() > 0 {
            lemma_cardinal_symbols_free(t);
        }
    } else if s.len() > 0 {
        lemma_digits_reading_free(s, true);
    }
}

proof fn lemma_trim_trailing_zeros_prefix(s: Seq<char>)
    ensures
        trim_trailing_zeros(s).len() <= s.len(),
        trim_trailing_zeros(s) == s.subrange(0, trim_trailing_zeros(s).len() as int),
    decreases s.len(),
{
    if s.len() > 0 && s.last() == '0' {
        lemma_trim_trailing_zeros_prefix(s.drop_last());
        assert(s.drop_last().subrange(0, trim_trailing_zeros(s).len() as int)
            == s.subrange(0, trim_trailing_zeros(s).len() as int));
    } else {
        assert(s.subrange(0, s.len() as int) == s);
    }
}

proof fn lemma_number_reading_free(s: Seq<char>, wl: bool)
    requires
        plain_number(s),
    ensures
        digit_free(number_reading(s, wl)),
{
    lemma_index_of_bound(s, '.');
    let d = index_of(s, '.');
    if d < s.len() {
        let ip = s.subrange(0, d);
        lemma_cardinal_reading_free(ip, false);
        let full = s.subrange(d + 1, s.len() as int);
        let dec = trim_trailing_zeros(full);
        lemma_trim_trailing_zeros_prefix(full);
        assert forall|k: int| 0 <= k < dec.len() implies is_digit(#[trigger] dec[k]) by {
            assert(dec[k] == full[k]);
        }
        lemma_digits_reading_free(dec, false);
        let c = cardinal_reading(ip, false);
        let head = if c.len() == 0 { seq!['零'] } else { c };
        let r = head + seq!['点'] + digits_reading(dec, false);
        assert forall|k: int| 0 <= k < r.len() implies !is_digit(#[trigger] r[k]) by {
            if k < head.len() {
                assert(r[k] == head[k]);
            } else if k > head.len() {
                assert(r[k] == digits_reading(dec, false)[k - head.len() - 1]);
            }
        }
    } else {
        assert(s.subrange(0, s.len() as int) == s);
        lemma_cardinal_reading_free(s, wl);
    }
}

proof fn lemma_plain_piece(s: Seq<char>, j: int, e: int)
    requires
        0 <= j <= s.len(),
        e == frac_end(s, j + run(s, j)),
    ensures
        plain_number(s.subrange(j, e)),
{
    lemma_number_text(s, j, e);
    lemma_run(s, j);
    let r = run(s, j) as int;
    let p = s.subrange(j, e);
    if e > j + r {
        lemma_run(s, j + r + 1);
        assert forall|k: int| 0 <= k < p.subrange(r + 1, p.len() as int).len()
            implies is_digit(#[trigger] p.subrange(r + 1, p.len() as int)[k]) by {
            assert(p.subrange(r + 1, p.len() as int)[k] == s[j + r + 1 + k]);
        }
    }
}

proof fn lemma_number_render_free(s: Seq<char>, i: int)
    requires
        0 <= i < s.len(),
        number_end(s, i) > i,
    ensures
        digit_free(number_render(s, i)),
{
    let j = i + minus_len(s, i);
    let e = number_end(s, i);
    if run(s, j) > 0 {
        lemma_plain_piece(s, j, e);
        let num = s.subrange(j, e);
        let neg = j > i && !all_zero(num);
        lemma_number_reading_free(num, !neg);
        let body = number_reading(num, !neg);
        let r = (if neg { seq!['负'] } else { seq![] }) + body;
        assert forall|k: int| 0 <= k < r.len() implies !is_digit(#[trigger] r[k]) by {
            if neg && k > 0 {
                assert(r[k] == body[k - 1]);
            } else if !neg {
                assert(r[k] == body[k]);
            }
        }
    } else {
        lemma_plain_piece(s, i, e);
        lemma_number_reading_free(s.subrange(i, e), false);
    }
}

proof fn lemma_number_rewrite_free(s: Seq<char>, i: int)
    requires
        0 <= i <= s.len(),
    ensures
        digit_free(rewrite_from(NumPattern::Number, s, i)),
    decreases s.len() - i,
{
    if i < s.len() {
        let e = number_end(s, i);
        lemma_run(s, i);
        if i < e <= s.len() {
            lemma_number_render_free(s, i);
            lemma_number_rewrite_free(s, e);
            let a = number_render(s, i);
            let b = rewrite_from(NumPattern::Number, s, e);
            assert forall|k: int| 0 <= k < (a + b).len() implies !is_digit(#[trigger] (a + b)[k]) by {
                if k < a.len() {
                    assert((a + b)[k] == a[k]);
                } else {
                    assert((a + b)[k] == b[k - a.len()]);
                }
            }
        } else {
            assert(!is_digit(s[i])) by {
                if is_digit(s[i]) {
                    assert(minus_len(s, i) == 0);
                    assert(run(s, i) > 0);
                    let k = i + run(s, i);
                    if k < s.len() && s[k] == '.' && run(s, k + 1) > 0 {
                        lemma_run(s, k + 1);
                    }
                }
            }
            lemma_number_rewrite_free(s, i + 1);
            let b = rewrite_from(NumPattern::Number, s, i + 1);
            assert forall|k: int| 0 <= k < (seq![s[i]] + b).len() implies !is_digit(#[trigger] (seq![s[i]] + b)[k]) by {
                if k > 0 {
                    assert((seq![s[i]] + b)[k] == b[k - 1]);
                }
            }
        }
    }
}

proof fn lemma_rewrite_identity(p: NumPattern, s: Seq<char>, i: int)
    requires
        0 <= i <= s.len(),
        digit_free(s),
    ensures
        rewrite_from(p, s, i) == s.subrange(i, s.len() as int),
    decreases s.len() - i,
{
    if i < s.len() {
        let j = i + minus_len(s, i);
        assert(run(s, j) == 0) by {
            if 0 <= j < s.len() {
                assert(!is_digit(s[j]));
            }
        }
        assert(run(s, i + 1) == 0) by {
            if i + 1 < s.len() {
                assert(!is_digit(s[i + 1]));
            }
        }
        assert(number_end(s, i) == i);
        lemma_rewrite_identity(p, s, i + 1);
        assert(seq![s[i]] + s.subrange(i + 1, s.len() as int) == s.subrange(i, s.len() as int));
    } else {
        assert(s.subrange(i, s.len() as int) == Seq::<char>::empty());
    }
}

/// No ASCII digit is left once the numbers of a sentence are read.
pub proof fn lemma_normalized_digit_free(s: Seq<char>)
    ensures
        digit_free(normalized_numbers(s)),
{
    let t = rewrite(NumPattern::Range, rewrite(NumPattern::Percentage,
        rewrite(NumPattern::Fraction, rewrite(NumPattern::Scientific, s))));
    lemma_number_rewrite_free(t, 0);
}

/// Reading the numbers of a sentence is idempotent: reading them again in
/// the result changes nothing.
pub proof fn lemma_normalize_idempotent(s: Seq<char>)
    ensures
        normalized_numbers(normalized_numbers(s)) == normalized_numbers(s),
{
    let t = normalized_numbers(s);
    lemma_normalized_digit_free(s);
    assert(t.subrange(0, t.len() as int) == t);
    lemma_rewrite_identity(NumPattern::Scientific, t, 0);
    lemma_rewrite_identity(NumPattern::Fraction, t, 0);
    lemma_rewrite_identity(NumPattern::Percentage, t, 0);
    lemma_rewrite_identity(NumPattern::Range, t, 0);
    lemma_rewrite_identity(NumPattern::Number, t, 0);
}

/// Verbaliser of numbers in spoken Chinese.
pub struct Num;

impl Num {
    /// Reads every ASCII digit of `value` as its Chinese numeral, keeping the
    /// other characters; with `alt_one` 一 becomes 幺.
    pub fn verbalize_digits(&self, value: &str, alt_one: bool) -> (r: String)
        ensures
            r@ == digits_reading(value@, alt_one),
    {
        let v = chars_of(value);
        string_of(&digits_reading_chars(&v, alt_one))
    }

    /// Reads a digit string as a cardinal number (see `cardinal_reading`).
    pub fn verbalize_cardinal(&self, sentence: &str, with_limit: bool) -> (r: String)
        requires
            all_digits(sentence@),
        ensures
            r@ == cardinal_reading(sentence@, with_limit),
    {
        let v = chars_of(sentence);
        string_of(&cardinal_reading_chars(&v, with_limit))
    }

    /// Reads a number with an optional decimal part (see `number_reading`).
    pub fn num2str(&self, value: &str, with_limit: bool) -> (r: String)
        requires
            is_number_text(value@),
        ensures
            r@ == number_reading(value@, with_limit),
    {
        let v = chars_of(value);
        string_of(&number_reading_chars(&v, with_limit))
    }

    /// Whether every character of `value` is `0`.
    pub fn is_all_zero(&self, value: &str) -> (r: bool)
        ensures
            r == all_zero(value@),
    {
        all_zero_chars(&chars_of(value))
    }

    fn rewrite_str(&self, p: NumPattern, value: &str) -> (r: String)
        ensures
            r@ == rewrite(p, value@),
    {
        string_of(&rewrite_chars(p, &chars_of(value)))
    }

    /// Reads every number `-?digits(.digits)?` or `.digits` of `value`.
    pub fn replace_number(&self, value: &str) -> (r: String)
        ensures
            r@ == rewrite(NumPattern::Number, value@),
    {
        self.rewrite_str(NumPattern::Number, value)
    }

    /// Reads every fraction `-?digits/digits` of `value`.
    pub fn replace_frac(&self, value: &str) -> (r: String)
        ensures
            r@ == rewrite(NumPattern::Fraction, value@),
    {
        self.rewrite_str(NumPattern::Fraction, value)
    }

    /// Reads every percentage `-?digits(.digits)?%` of `value`.
    pub fn replace_percentage(&self, value: &str) -> (r: String)
        ensures
            r@ == rewrite(NumPattern::Percentage, value@),
    {
        self.rewrite_str(NumPattern::Percentage, value)
    }

    /// Reads every range of two numbers joined by `-` or `~` in `value`.
    pub fn replace_range(&self, value: &str) -> (r: String)
        ensures
            r@ == rewrite(NumPattern::Range, value@),
    {
        self.rewrite_str(NumPattern::Range, value)
    }

    /// Reads every number in scientific notation of `value`.
    pub fn replace_scientific(&self, value: &str) -> (r: String)
        ensures
            r@ == rewrite(NumPattern::Scientific, value@),
    {
        self.rewrite_str(NumPattern::Scientific, value)
    }

    /// Reads every number expression of `value`: scientific notation, then
    /// fractions, percentages, ranges and plain numbers. No ASCII digit is
    /// left in the result, so no pattern that starts with a digit can match
    /// it any more.
    pub fn normalize(&self, num_str: &str) -> (r: String)
        ensures
            r@ == normalized_numbers(num_str@),
    {
        let v = chars_of(num_str);
        let v = rewrite_chars(NumPattern::Scientific, &v);
        let v = rewrite_chars(NumPattern::Fraction, &v);
        let v = rewrite_chars(NumPattern::Percentage, &v);
        let v = rewrite_chars(NumPattern::Range, &v);
        let v = rewrite_chars(NumPattern::Number, &v);
        string_of(&v)
    }
}

} // verus!
