//! Number normalisation of English text: digit groups, pounds, dollars and
//! cents, decimals, ordinals and plain numbers spelt out in words.
use vstd::prelude::*;
use crate::chars::{all_digits, chars_of, extend_chars, is_digit, slice_chars, string_of};
use crate::num::{digits_value, lemma_digits_value_step};
use crate::text_normalizer::replaced_from;

verus! {

/// The English words for an integer, in the short scale, with spaces and
/// with "and" (as `english_numbers::convert` writes them).
pub uninterp spec fn english_words(n: int) -> Seq<char>;

/// Relies on `english_numbers::convert` with spaces and conjunctions on:
/// the short-scale English words for `n`. `i64::MIN` is left out, as the
/// crate takes its absolute value.
#[verifier::external_body]
fn number_words(n: i64) -> (r: String)
    requires
        n != i64::MIN,
    ensures
        r@ == english_words(n as int),
{
    english_numbers::convert(n, english_numbers::Formatting { spaces: true, conjunctions: true, ..Default::default() })
}

/// The decimal digit for `d < 10`.
pub open spec fn digit_of(d: int) -> char {
    if d == 0 { '0' } else if d == 1 { '1' } else if d == 2 { '2' } else if d == 3 { '3' } else if d == 4 { '4' }
    else if d == 5 { '5' } else if d == 6 { '6' } else if d == 7 { '7' } else if d == 8 { '8' } else { '9' }
}

/// The decimal form of a natural number.
pub open spec fn decimal(n: nat) -> Seq<char>
    decreases n,
{
    if n < 10 { seq![digit_of(n as int)] } else { decimal(n / 10).push(digit_of((n % 10) as int)) }
}

/// Whether `c` is a digit, a dot or a comma.
pub open spec fn is_number_char(c: char) -> bool {
    is_digit(c) || c == '.' || c == ','
}

/// Length of the run of digits, dots and commas of `s` from `i`.
pub open spec fn number_char_run(s: Seq<char>, i: int) -> nat
    decreases s.len() - i,
{
    if 0 <= i < s.len() && is_number_char(s[i]) { 1 + number_char_run(s, i + 1) } else { 0 }
}

/// Length of the run of digits and commas of `s` from `i`.
pub open spec fn digit_comma_run(s: Seq<char>, i: int) -> nat
    decreases s.len() - i,
{
    if 0 <= i < s.len() && (is_digit(s[i]) || s[i] == ',') { 1 + digit_comma_run(s, i + 1) } else { 0 }
}

/// `hi` moved back over non-digits down to `lo`: the end of the last digit of `s[lo..hi]`.
pub open spec fn back_to_digit(s: Seq<char>, lo: int, hi: int) -> int
    decreases hi - lo,
{
    if hi > lo && !is_digit(s[hi - 1]) { back_to_digit(s, lo, hi - 1) } else { hi }
}

/// `s` without its commas.
pub open spec fn without_commas(s: Seq<char>) -> Seq<char>
    decreases s.len(),
{
    if s.len() == 0 {
        s
    } else if s.last() == ',' {
        without_commas(s.drop_last())
    } else {
        without_commas(s.drop_last()).push(s.last())
    }
}

/// Ways numbers are written out, in the order `English::text_normalize` reads them.
#[derive(Clone, Copy, PartialEq, Eq, Debug)]
pub enum EnglishPattern {
    /// Digits grouped with commas: the commas go.
    Grouped,
    /// `£` and an amount: the amount and `pounds`.
    Pounds,
    /// `$` and an amount: dollars and cents.
    Dollars,
    /// `digits.digits`: read with `point`.
    Decimal,
    /// A number with `st`, `nd`, `rd` or `th`: its words.
    Ordinal,
    /// A plain number: its words.
    Number,
}

/// End of the amount after a currency sign at `i`: the run of digits, dots
/// and commas, back to its last digit; `i + 1` when there is no digit.
pub open spec fn amount_end(s: Seq<char>, i: int) -> int {
    back_to_digit(s, i + 1, i + 1 + number_char_run(s, i + 1))
}

/// The parsed value of a digit string that fits `bound`, or none.
pub open spec fn parsed(s: Seq<char>, bound: int) -> Option<nat> {
    if s.len() > 0 && all_digits(s) && digits_value(s) <= bound { Some(digits_value(s)) } else { None }
}

/// The whole dollars of an amount: its part before the first dot when that
/// parses as a 32-bit integer, else 0.
pub open spec fn dollars_of(a: Seq<char>) -> nat {
    match parsed(a.subrange(0, crate::num::index_of(a, '.')), 0x7fff_ffff) {
        Some(v) => v,
        None => 0,
    }
}

/// The cents of an amount: the first two digits after the first dot (up to
/// the next dot), trailing zeros dropped, as hundredths; 0 when there are none.
pub open spec fn cents_of(a: Seq<char>) -> nat {
    let d = crate::num::index_of(a, '.');
    if d >= a.len() {
        0
    } else {
        let rest = a.subrange(d + 1, a.len() as int);
        let part = crate::num::trim_trailing_zeros(rest.subrange(0, crate::num::index_of(rest, '.')));
        if part.len() == 0 {
            0
        } else {
            let k = if part.len() < 2 { part.len() as int } else { 2 };
            match parsed(part.subrange(0, k), 0x7fff_ffff) {
                Some(v) => if k == 1 { v * 10 } else { v },
                None => 0,
            }
        }
    }
}

/// `word` with an `s` unless `n` is 1.
pub open spec fn plural(n: nat, word: Seq<char>) -> Seq<char> {
    if n == 1 { word } else { word.push('s') }
}

/// An amount in dollars written out: dollars and cents, or `zero dollars`.
pub open spec fn dollars_text(a: Seq<char>) -> Seq<char> {
    let d = dollars_of(a);
    let c = cents_of(a);
    let dol = seq!['d', 'o', 'l', 'l', 'a', 'r'];
    let cen = seq!['c', 'e', 'n', 't'];
    if d == 0 && c == 0 {
        seq!['z', 'e', 'r', 'o', ' ', 'd', 'o', 'l', 'l', 'a', 'r', 's']
    } else if c == 0 {
        decimal(d) + seq![' '] + plural(d, dol)
    } else if d == 0 {
        decimal(c) + seq![' '] + plural(c, cen)
    } else {
        decimal(d) + seq![' '] + plural(d, dol) + seq![',', ' '] + decimal(c) + seq![' '] + plural(c, cen)
    }
}

/// Whether an ordinal suffix stands at `k`.
pub open spec fn ordinal_suffix(s: Seq<char>, k: int) -> bool {
    0 <= k && k + 1 < s.len() && ((s[k] == 's' && s[k + 1] == 't') || (s[k] == 'n' && s[k + 1] == 'd')
        || (s[k] == 'r' && s[k + 1] == 'd') || (s[k] == 't' && s[k + 1] == 'h'))
}

/// The words for a plain number: years 2000 to 2009 as `two thousand ...`,
/// whole hundreds from 1000 to 2999 as `... hundred` (1500 is `fifteen
/// hundred`), other numbers as their words.
pub open spec fn number_text(n: nat) -> Seq<char> {
    let tt = seq!['t', 'w', 'o', ' ', 't', 'h', 'o', 'u', 's', 'a', 'n', 'd'];
    if n == 2000 {
        tt
    } else if 2001 <= n <= 2009 {
        tt + seq![' '] + english_words((n % 100) as int)
    } else if 1000 <= n <= 2999 && n % 100 == 0 {
        english_words((n / 100) as int) + seq![' ', 'h', 'u', 'n', 'd', 'r', 'e', 'd']
    } else if 1000 <= n <= 2999 {
        replaced_from(english_words(n as int), seq![',', ' '], seq![' '], 0)
    } else {
        english_words(n as int)
    }
}

/// The value of a digit string as a 64-bit integer, or 0 when it does not fit.
pub open spec fn value_or_zero(s: Seq<char>) -> nat {
    match parsed(s, 0x7fff_ffff_ffff_ffff) {
        Some(v) => v,
        None => 0,
    }
}

/// End of the match of `p` at `i`, or `i`.
pub open spec fn english_end(p: EnglishPattern, s: Seq<char>, i: int) -> int {
    let r = crate::num::run(s, i);
    match p {
        EnglishPattern::Grouped => {
            let e = back_to_digit(s, i, i + digit_comma_run(s, i));
            if r > 0 && e - i >= 3 { e } else { i }
        },
        EnglishPattern::Pounds => if 0 <= i < s.len() && s[i] == '£' && amount_end(s, i) > i + 1 { amount_end(s, i) } else { i },
        EnglishPattern::Dollars => if 0 <= i < s.len() && s[i] == '$' && amount_end(s, i) > i + 1 { amount_end(s, i) } else { i },
        EnglishPattern::Decimal => {
            let k = i + r;
            if r > 0 && 0 <= k < s.len() && s[k] == '.' && crate::num::run(s, k + 1) > 0 { k + 1 + crate::num::run(s, k + 1) } else { i }
        },
        EnglishPattern::Ordinal => if r > 0 && ordinal_suffix(s, i + r) { i + r + 2 } else { i },
        EnglishPattern::Number => i + r,
    }
}

/// The text that replaces the match of `p` at `i`.
pub open spec fn english_render(p: EnglishPattern, s: Seq<char>, i: int) -> Seq<char> {
    let e = english_end(p, s, i);
    let r = crate::num::run(s, i);
    match p {
        EnglishPattern::Grouped => without_commas(s.subrange(i, e)),
        EnglishPattern::Pounds => s.subrange(i + 1, e) + seq![' ', 'p', 'o', 'u', 'n', 'd', 's'],
        EnglishPattern::Dollars => dollars_text(s.subrange(i + 1, e)),
        EnglishPattern::Decimal => s.subrange(i, i + r) + seq![' ', 'p', 'o', 'i', 'n', 't', ' '] + s.subrange(i + r + 1, e),
        EnglishPattern::Ordinal => english_words(value_or_zero(s.subrange(i, i + r)) as int),
        EnglishPattern::Number => number_text(value_or_zero(s.subrange(i, e))),
    }
}

/// `s` from `i` on with every match of `p` replaced.
pub open spec fn english_from(p: EnglishPattern, s: Seq<char>, i: int) -> Seq<char>
    decreases s.len() - i,
{
    if i < 0 || i >= s.len() {
        seq![]
    } else {
        let e = english_end(p, s, i);
        if i < e <= s.len() {
            english_render(p, s, i) + english_from(p, s, e)
        } else {
            seq![s[i]] + english_from(p, s, i + 1)
        }
    }
}

/// The numbers of an English text written out: digit groups, pounds,
/// dollars, decimals, ordinals, then plain numbers.
pub open spec fn english_numbers_read(s: Seq<char>) -> Seq<char> {
    english_from(EnglishPattern::Number, english_from(EnglishPattern::Ordinal,
        english_from(EnglishPattern::Decimal, english_from(EnglishPattern::Dollars,
        english_from(EnglishPattern::Pounds, english_from(EnglishPattern::Grouped, s, 0), 0), 0), 0), 0), 0)
}

fn digit_of_char(d: u64) -> (r: char)
    requires
        d < 10,
    ensures
        r == digit_of(d as int),
{
    if d == 0 { '0' } else if d == 1 { '1' } else if d == 2 { '2' } else if d == 3 { '3' } else if d == 4 { '4' }
    else if d == 5 { '5' } else if d == 6 { '6' } else if d == 7 { '7' } else if d == 8 { '8' } else { '9' }
}

/// The decimal form of `n`.
fn decimal_chars(n: u64) -> (r: Vec<char>)
    ensures
        r@ == decimal(n as nat),
    decreases n,
{
    if n < 10 {
        let mut r: Vec<char> = Vec::new();
        r.push(digit_of_char(n));
        r
    } else {
        let mut r = decimal_chars(n / 10);
        r.push(digit_of_char(n % 10));
        r
    }
}

/// The value of the digits `v[lo..hi]` when they are all digits, not
/// none, and at most `bound`.
fn parse_digits(v: &Vec<char>, lo: usize, hi: usize, bound: u64) -> (r: Option<u64>)
    requires
        lo <= hi <= v.len(),
        9 <= bound <= 0x7fff_ffff_ffff_ffff,
    ensures
        r is Some <==> parsed(v@.subrange(lo as int, hi as int), bound as int) is Some,
        r is Some ==> r->0 as nat == parsed(v@.subrange(lo as int, hi as int), bound as int)->0,
{
    let ghost s = v@.subrange(lo as int, hi as int);
    if lo == hi {
        return None;
    }
    let mut acc: u64 = 0;
    let mut over = false;
    let mut i: usize = lo;
    assert(s.subrange(0, 0) =~= Seq::<char>::empty());
    while i < hi
        invariant
            lo <= i <= hi <= v.len(),
            9 <= bound <= 0x7fff_ffff_ffff_ffff,
            s == v@.subrange(lo as int, hi as int),
            forall|m: int| lo <= m < i ==> is_digit(#[trigger] v@[m]),
            !over ==> acc as nat == digits_value(s.subrange(0, i - lo)) && acc <= bound,
            over ==> digits_value(s.subrange(0, i - lo)) > bound,
        decreases hi - i,
    {
        if !('0' <= v[i] && v[i] <= '9') {
            assert(!is_digit(s[i - lo]));
            return None;
        }
        proof {
            lemma_digits_value_step(s, i - lo);
            assert(s[i - lo] == v@[i as int]);
        }
        let d = (v[i] as u32 - '0' as u32) as u64;
        if !over {
            if acc > (bound - d) / 10 {
                assert(acc * 10 + d > bound) by (nonlinear_arith)
                    requires acc > (bound - d) / 10, d <= 9, d <= bound;
                over = true;
            } else {
                assert(acc * 10 + d <= bound) by (nonlinear_arith)
                    requires acc <= (bound - d) / 10, d <= 9, d <= bound;
                acc = acc * 10 + d;
            }
        } else {
            let ghost prev = digits_value(s.subrange(0, i - lo));
            assert(prev * 10 >= prev) by (nonlinear_arith);
        }
        i += 1;
    }
    assert(s.subrange(0, hi - lo) == s);
    assert(all_digits(s)) by {
        assert forall|k: int| 0 <= k < s.len() implies is_digit(#[trigger] s[k]) by {
            assert(s[k] == v@[lo + k]);
        }
    }
    if over { None } else { Some(acc) }
}

fn run_of(v: &Vec<char>, i: usize) -> (r: usize)
    requires
        i <= v.len(),
    ensures
        r == crate::num::run(v@, i as int),
        i + r <= v.len(),
{
    crate::num::digit_run(v, i)
}

fn number_char_run_at(v: &Vec<char>, i: usize) -> (r: usize)
    requires
        i <= v.len(),
    ensures
        r == number_char_run(v@, i as int),
        i + r <= v.len(),
    decreases v.len() - i,
{
    if i < v.len() && (('0' <= v[i] && v[i] <= '9') || v[i] == '.' || v[i] == ',') {
        number_char_run_at(v, i + 1) + 1
    } else {
        0
    }
}

fn digit_comma_run_at(v: &Vec<char>, i: usize) -> (r: usize)
    requires
        i <= v.len(),
    ensures
        r == digit_comma_run(v@, i as int),
        i + r <= v.len(),
    decreases v.len() - i,
{
    if i < v.len() && (('0' <= v[i] && v[i] <= '9') || v[i] == ',') {
        digit_comma_run_at(v, i + 1) + 1
    } else {
        0
    }
}

fn back_to_digit_at(v: &Vec<char>, lo: usize, hi: usize) -> (r: usize)
    requires
        lo <= hi <= v.len(),
    ensures
        r as int == back_to_digit(v@, lo as int, hi as int),
        lo <= r <= hi,
    decreases hi - lo,
{
    if hi > lo && !('0' <= v[hi - 1] && v[hi - 1] <= '9') {
        back_to_digit_at(v, lo, hi - 1)
    } else {
        hi
    }
}

fn without_commas_chars(v: &Vec<char>) -> (r: Vec<char>)
    ensures
        r@ == without_commas(v@),
{
    let mut out: Vec<char> = Vec::new();
    let mut i: usize = 0;
    while i < v.len()
        invariant
            i <= v.len(),
            out@ == without_commas(v@.subrange(0, i as int)),
        decreases v.len() - i,
    {
        assert(v@.subrange(0, i + 1).drop_last() == v@.subrange(0, i as int));
        if v[i] != ',' {
            out.push(v[i]);
        }
        i += 1;
    }
    assert(v@.subrange(0, v.len() as int) == v@);
    out
}

fn english_end_at(p: EnglishPattern, v: &Vec<char>, i: usize) -> (e: usize)
    requires
        i < v.len(),
    ensures
        e as int == english_end(p, v@, i as int),
        i <= e <= v.len(),
{
    let r = run_of(v, i);
    match p {
        EnglishPattern::Grouped => {
            let e = back_to_digit_at(v, i, i + digit_comma_run_at(v, i));
            if r > 0 && e - i >= 3 { e } else { i }
        },
        EnglishPattern::Pounds => {
            if v[i] == '£' {
                let e = back_to_digit_at(v, i + 1, i + 1 + number_char_run_at(v, i + 1));
                if e > i + 1 { e } else { i }
            } else {
                i
            }
        },
        EnglishPattern::Dollars => {
            if v[i] == '$' {
                let e = back_to_digit_at(v, i + 1, i + 1 + number_char_run_at(v, i + 1));
                if e > i + 1 { e } else { i }
            } else {
                i
            }
        },
        EnglishPattern::Decimal => {
            let k = i + r;
            if r > 0 && k < v.len() && v[k] == '.' {
                let r2 = run_of(v, k + 1);
                if r2 > 0 { k + 1 + r2 } else { i }
            } else {
                i
            }
        },
        EnglishPattern::Ordinal => {
            let k = i + r;
            if r > 0 && v.len() - k >= 2 && ((v[k] == 's' && v[k + 1] == 't') || (v[k] == 'n' && v[k + 1] == 'd')
                || (v[k] == 'r' && v[k + 1] == 'd') || (v[k] == 't' && v[k + 1] == 'h')) {
                k + 2
            } else {
                i
            }
        },
        EnglishPattern::Number => i + r,
    }
}

fn lit(s: &str) -> (r: Vec<char>)
    ensures
        r@ == s@,
{
    chars_of(s)
}

fn plural_chars(n: u64, word: &str) -> (r: Vec<char>)
    ensures
        r@ == plural(n as nat, word@),
{
    let mut w = chars_of(word);
    if n != 1 {
        w.push('s');
    }
    w
}

fn dollars_text_chars(a: &Vec<char>) -> (r: Vec<char>)
    ensures
        r@ == dollars_text(a@),
{
    let d_idx = crate::num::find_char(a, '.');
    let d: u64 = match parse_digits(a, 0, d_idx, 0x7fff_ffff) {
        Some(v) => v,
        None => 0,
    };
    let c: u64 = if d_idx >= a.len() {
        0
    } else {
        let rest = slice_chars(a, d_idx + 1, a.len());
        let e = crate::num::find_char(&rest, '.');
        let part = crate::num::trim_zeros_at_end(&slice_chars(&rest, 0, e));
        if part.len() == 0 {
            0
        } else {
            let k: usize = if part.len() < 2 { part.len() } else { 2 };
            match parse_digits(&part, 0, k, 0x7fff_ffff) {
                Some(v) => if k == 1 { v * 10 } else { v },
                None => 0,
            }
        }
    };
    assert(d as nat == dollars_of(a@));
    assert(c as nat == cents_of(a@));
    proof {
        reveal_strlit("dollar");
        reveal_strlit("cent");
        reveal_strlit("zero dollars");
    }
    if d == 0 && c == 0 {
        let r = lit("zero dollars");
        assert(r@ =~= seq!['z', 'e', 'r', 'o', ' ', 'd', 'o', 'l', 'l', 'a', 'r', 's']);
        r
    } else if c == 0 {
        let mut r = decimal_chars(d);
        r.push(' ');
        extend_chars(&mut r, &plural_chars(d, "dollar"));
        assert("dollar"@ =~= seq!['d', 'o', 'l', 'l', 'a', 'r']);
        r
    } else if d == 0 {
        let mut r = decimal_chars(c);
        r.push(' ');
        extend_chars(&mut r, &plural_chars(c, "cent"));
        assert("cent"@ =~= seq!['c', 'e', 'n', 't']);
        r
    } else {
        let mut r = decimal_chars(d);
        r.push(' ');
        extend_chars(&mut r, &plural_chars(d, "dollar"));
        r.push(',');
        r.push(' ');
        extend_chars(&mut r, &decimal_chars(c));
        r.push(' ');
        extend_chars(&mut r, &plural_chars(c, "cent"));
        assert("dollar"@ =~= seq!['d', 'o', 'l', 'l', 'a', 'r']);
        assert("cent"@ =~= seq!['c', 'e', 'n', 't']);
        r
    }
}

fn number_text_chars(n: u64) -> (r: Vec<char>)
    requires
        n <= 0x7fff_ffff_ffff_ffff,
    ensures
        r@ == number_text(n as nat),
{
    proof {
        reveal_strlit("two thousand");
        reveal_strlit(" hundred");
    }
    let tt = lit("two thousand");
    assert(tt@ =~= seq!['t', 'w', 'o', ' ', 't', 'h', 'o', 'u', 's', 'a', 'n', 'd']);
    if n == 2000 {
        tt
    } else if 2001 <= n && n <= 2009 {
        let mut r = tt;
        r.push(' ');
        let w = chars_of(&number_words((n % 100) as i64));
        extend_chars(&mut r, &w);
        r
    } else if 1000 <= n && n <= 2999 && n % 100 == 0 {
        let mut r = chars_of(&number_words((n / 100) as i64));
        let h = lit(" hundred");
        assert(h@ =~= seq![' ', 'h', 'u', 'n', 'd', 'r', 'e', 'd']);
        extend_chars(&mut r, &h);
        r
    } else if 1000 <= n && n <= 2999 {
        let w = chars_of(&number_words(n as i64));
        let mut key: Vec<char> = Vec::new();
        key.push(',');
        key.push(' ');
        let mut value: Vec<char> = Vec::new();
        value.push(' ');
        assert(key@ =~= seq![',', ' ']);
        assert(value@ =~= seq![' ']);
        crate::text_normalizer::replace_all_chars(&w, &key, &value)
    } else {
        chars_of(&number_words(n as i64))
    }
}

fn english_render_at(p: EnglishPattern, v: &Vec<char>, i: usize) -> (r: Vec<char>)
    requires
        i < v.len(),
        english_end(p, v@, i as int) > i,
    ensures
        r@ == english_render(p, v@, i as int),
{
    let e = english_end_at(p, v, i);
    let r = run_of(v, i);
    match p {
        EnglishPattern::Grouped => without_commas_chars(&slice_chars(v, i, e)),
        EnglishPattern::Pounds => {
            let mut out = slice_chars(v, i + 1, e);
            proof {
                reveal_strlit(" pounds");
            }
            let w = lit(" pounds");
            assert(w@ =~= seq![' ', 'p', 'o', 'u', 'n', 'd', 's']);
            extend_chars(&mut out, &w);
            out
        },
        EnglishPattern::Dollars => dollars_text_chars(&slice_chars(v, i + 1, e)),
        EnglishPattern::Decimal => {
            let mut out = slice_chars(v, i, i + r);
            proof {
                reveal_strlit(" point ");
            }
            let w = lit(" point ");
            assert(w@ =~= seq![' ', 'p', 'o', 'i', 'n', 't', ' ']);
            extend_chars(&mut out, &w);
            extend_chars(&mut out, &slice_chars(v, i + r + 1, e));
            out
        },
        EnglishPattern::Ordinal => {
            let n: u64 = match parse_digits(v, i, i + r, 0x7fff_ffff_ffff_ffff) {
                Some(x) => x,
                None => 0,
            };
            chars_of(&number_words(n as i64))
        },
        EnglishPattern::Number => {
            let n: u64 = match parse_digits(v, i, e, 0x7fff_ffff_ffff_ffff) {
                Some(x) => x,
                None => 0,
            };
            number_text_chars(n)
        },
    }
}

fn english_chars(p: EnglishPattern, v: &Vec<char>) -> (r: Vec<char>)
    ensures
        r@ == english_from(p, v@, 0),
{
    let mut out: Vec<char> = Vec::new();
    let mut i: usize = 0;
    while i < v.len()
        invariant
            i <= v.len(),
            out@ + english_from(p, v@, i as int) == english_from(p, v@, 0),
        decreases v.len() - i,
    {
        let e = english_end_at(p, v, i);
        if e > i {
            let piece = english_render_at(p, v, i);
            assert(out@ + english_from(p, v@, i as int) == (out@ + piece@) + english_from(p, v@, e as int));
            extend_chars(&mut out, &piece);
            i = e;
        } else {
            assert(out@ + english_from(p, v@, i as int) == out@.push(v@[i as int]) + english_from(p, v@, i + 1));
            out.push(v[i]);
            i += 1;
        }
    }
    assert(out@ + Seq::<char>::empty() == out@);
    out
}

/// Whether `c` separates the words of an English sentence: punctuation,
/// `-`, `+` or white space.
pub open spec fn is_word_delimiter(c: char) -> bool {
    c == ',' || c == '，' || c == '；' || c == ';' || c == '.' || c == '。' || c == '？' || c == '！'
        || c == '-' || c == '?' || c == '!' || c == '+' || crate::phonecode::whitespace(c)
}

/// The tokens of the first `n` characters of `s`: runs of word characters,
/// and each delimiter as a token of its own; and the run being read.
pub open spec fn token_fold(s: Seq<char>, n: int) -> (Seq<Seq<char>>, Seq<char>)
    decreases n,
{
    if n <= 0 {
        (seq![], seq![])
    } else {
        let (done, cur) = token_fold(s, n - 1);
        let c = s[n - 1];
        if is_word_delimiter(c) {
            ((if cur.len() > 0 { done.push(cur) } else { done }).push(seq![c]), seq![])
        } else {
            (done, cur.push(c))
        }
    }
}

/// The tokens of an English sentence.
pub open spec fn tokens(s: Seq<char>) -> Seq<Seq<char>> {
    let (done, cur) = token_fold(s, s.len() as int);
    if cur.len() > 0 { done.push(cur) } else { done }
}

/// The phonemes kept from the first `n` of `p`: those of the alphabet
/// `table`, `;` and `:` as `,`, `'` and `"` as `-`; others are dropped.
pub open spec fn kept_phonemes(p: Seq<Seq<char>>, table: Seq<Seq<char>>, n: int) -> Seq<Seq<char>>
    decreases n,
{
    if n <= 0 {
        seq![]
    } else {
        let acc = kept_phonemes(p, table, n - 1);
        let ph = p[n - 1];
        if table.contains(ph) {
            acc.push(ph)
        } else if crate::pinyin::is1(ph, ';') || crate::pinyin::is1(ph, ':') {
            acc.push(seq![','])
        } else if crate::pinyin::is1(ph, '\'') || crate::pinyin::is1(ph, '"') {
            acc.push(seq!['-'])
        } else {
            acc
        }
    }
}

proof fn lemma_kept_phonemes(p: Seq<Seq<char>>, table: Seq<Seq<char>>, n: int)
    requires
        0 <= n <= p.len(),
    ensures
        forall|k: int| 0 <= k < kept_phonemes(p, table, n).len() ==> {
            let x = #[trigger] kept_phonemes(p, table, n)[k];
            table.contains(x) || x == seq![','] || x == seq!['-']
        },
    decreases n,
{
    if n > 0 {
        lemma_kept_phonemes(p, table, n - 1);
        let acc = kept_phonemes(p, table, n - 1);
        let r = kept_phonemes(p, table, n);
        assert forall|k: int| 0 <= k < r.len() implies {
            let x = #[trigger] r[k];
            table.contains(x) || x == seq![','] || x == seq!['-']
        } by {
            if k < acc.len() {
                assert(r[k] == acc[k]);
            }
        }
    }
}

/// Every phoneme that `replace_phonemes` keeps against the phoneme
/// alphabet lies in the alphabet: `,` and `-` are symbols of it.
pub proof fn lemma_kept_in_alphabet(p: Seq<Seq<char>>)
    ensures
        forall|k: int| 0 <= k < kept_phonemes(p, crate::cleaned::phoneme_alphabet(), p.len() as int).len()
            ==> crate::cleaned::phoneme_alphabet().contains(
                #[trigger] kept_phonemes(p, crate::cleaned::phoneme_alphabet(), p.len() as int)[k]),
{
    let a = crate::cleaned::phoneme_alphabet();
    lemma_kept_phonemes(p, a, p.len() as int);
    crate::cleaned::lemma_alphabet_punctuation();
}

/// Normaliser of English text.
pub struct English;

impl English {
    pub fn new() -> Self {
        English
    }

    /// The tokens of a sentence, delimiters kept as tokens of their own (see `tokens`).
    pub fn split_with_delimiter(&self, input: &str) -> (r: Vec<String>)
        ensures
            crate::chars::views(r@) == tokens(input@),
    {
        let v = chars_of(input);
        let mut done: Vec<String> = Vec::new();
        let mut cur: Vec<char> = Vec::new();
        let mut i: usize = 0;
        while i < v.len()
            invariant
                i <= v.len(),
                (crate::chars::views(done@), cur@) == token_fold(v@, i as int),
            decreases v.len() - i,
        {
            let c = v[i];
            if c == ',' || c == '，' || c == '；' || c == ';' || c == '.' || c == '。' || c == '？' || c == '！'
                || c == '-' || c == '?' || c == '!' || c == '+' || crate::phonecode::char_is_whitespace(c) {
                if cur.len() > 0 {
                    let w = string_of(&cur);
                    proof {
                        crate::chars::lemma_views_push(done@, w);
                    }
                    done.push(w);
                }
                let mut one: Vec<char> = Vec::new();
                one.push(c);
                let d = string_of(&one);
                proof {
                    crate::chars::lemma_views_push(done@, d);
                }
                done.push(d);
                assert(one@ =~= seq![c]);
                cur = Vec::new();
            } else {
                cur.push(c);
            }
            i += 1;
        }
        if cur.len() > 0 {
            let w = string_of(&cur);
            proof {
                crate::chars::lemma_views_push(done@, w);
            }
            done.push(w);
        }
        done
    }

    /// The phonemes that the alphabet can voice (see `kept_phonemes`).
    pub fn replace_phonemes(&self, phones: Vec<String>, table: &crate::cleaned::SymbolTable) -> (r: Vec<String>)
        ensures
            crate::chars::views(r@) == kept_phonemes(crate::chars::views(phones@),
                crate::chars::views(table.symbols@), phones.len() as int),
            crate::chars::views(table.symbols@) == crate::cleaned::phoneme_alphabet() ==> forall|k: int|
                0 <= k < r.len() ==> crate::cleaned::phoneme_alphabet().contains(#[trigger] r@[k]@),
    {
        let ghost p = crate::chars::views(phones@);
        let ghost t = crate::chars::views(table.symbols@);
        let mut out: Vec<String> = Vec::new();
        let mut i: usize = 0;
        while i < phones.len()
            invariant
                p == crate::chars::views(phones@),
                t == crate::chars::views(table.symbols@),
                i <= phones.len(),
                crate::chars::views(out@) == kept_phonemes(p, t, i as int),
            decreases phones.len() - i,
        {
            assert(p[i as int] == phones@[i as int]@);
            let ph = chars_of(phones[i].as_str());
            let known = crate::pinyin::contains_in(&table.symbols, &phones[i]);
            let rep: Option<char> = if known {
                None
            } else if ph.len() == 1 && (ph[0] == ';' || ph[0] == ':') {
                Some(',')
            } else if ph.len() == 1 && (ph[0] == '\'' || ph[0] == '"') {
                Some('-')
            } else {
                None
            };
            if known {
                let c = phones[i].clone();
                proof {
                    crate::chars::lemma_views_push(out@, c);
                }
                out.push(c);
            } else if let Some(x) = rep {
                let mut one: Vec<char> = Vec::new();
                one.push(x);
                let c = string_of(&one);
                proof {
                    crate::chars::lemma_views_push(out@, c);
                }
                out.push(c);
                assert(one@ =~= seq![x]);
            }
            i += 1;
        }
        proof {
            if t == crate::cleaned::phoneme_alphabet() {
                lemma_kept_in_alphabet(p);
                assert(p.len() == phones.len());
                let kp = kept_phonemes(p, crate::cleaned::phoneme_alphabet(), p.len() as int);
                assert(crate::chars::views(out@) == kp);
                assert forall|k: int| 0 <= k < out.len() implies crate::cleaned::phoneme_alphabet().contains(
                    #[trigger] out@[k]@) by {
                    assert(crate::chars::views(out@)[k] == out@[k]@);
                    assert(kp[k] == out@[k]@);
                }
            }
        }
        out
    }

    /// Writes out the numbers of an English text (see `english_numbers_read`).
    pub fn text_normalize(&self, text: &str) -> (r: String)
        ensures
            r@ == english_numbers_read(text@),
    {
        let v = chars_of(text);
        let v = english_chars(EnglishPattern::Grouped, &v);
        let v = english_chars(EnglishPattern::Pounds, &v);
        let v = english_chars(EnglishPattern::Dollars, &v);
        let v = english_chars(EnglishPattern::Decimal, &v);
        let v = english_chars(EnglishPattern::Ordinal, &v);
        let v = english_chars(EnglishPattern::Number, &v);
        string_of(&v)
    }
}

} // verus!
