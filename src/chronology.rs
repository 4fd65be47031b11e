//! Reading of dates and clock times in Chinese: `2023年10月25日`,
//! `2023-10-25`, `8:30` and `8:30-12:00`.
use vstd::prelude::*;
use crate::chars::{all_digits, chars_of, extend_chars, is_digit, off, slice_chars, string_of};
use crate::num::{cardinal_reading, cardinal_reading_chars, digit_run, digits_reading, digits_reading_chars,
    lemma_run, number_reading, number_reading_chars, run, strip_zeros};
use crate::phonecode::at;

verus! {

/// Whether a digit stands at `k`.
pub open spec fn dig(s: Seq<char>, k: int) -> bool {
    0 <= k < s.len() && is_digit(s[k])
}

/// Whether a character between `lo` and `hi` stands at `k`.
pub open spec fn within(s: Seq<char>, k: int, lo: char, hi: char) -> bool {
    0 <= k < s.len() && lo <= s[k] && s[k] <= hi
}

/// The reading of a minute or second field: as a cardinal, with a leading
/// zero read 零.
pub open spec fn time_reading(s: Seq<char>) -> Seq<char> {
    let r = number_reading(strip_zeros(s), false);
    if s.len() > 0 && s[0] == '0' && r != seq!['零'] { seq!['零'] + r } else { r }
}

/// Length of the hour at `i` that a colon follows: `[01]\d`, `\d` or `2[0-3]`, or 0.
pub open spec fn hour_len(s: Seq<char>, i: int) -> int {
    if (at(s, i, '0') || at(s, i, '1')) && dig(s, i + 1) && at(s, i + 2, ':') {
        2
    } else if dig(s, i) && at(s, i + 1, ':') {
        1
    } else if at(s, i, '2') && within(s, i + 1, '0', '3') && at(s, i + 2, ':') {
        2
    } else {
        0
    }
}

/// Whether a minute or second field `[0-5]\d` stands at `k`.
pub open spec fn sixty_at(s: Seq<char>, k: int) -> bool {
    within(s, k, '0', '5') && dig(s, k + 1)
}

/// End of the clock time `H:MM(:SS)?` at `i`, or -1.
pub open spec fn clock_end(s: Seq<char>, i: int) -> int {
    let h = hour_len(s, i);
    let m = i + h + 3;
    if h > 0 && sixty_at(s, i + h + 1) {
        if at(s, m, ':') && sixty_at(s, m + 1) { m + 3 } else { m }
    } else {
        -1
    }
}

/// The words for the minutes: 半 for thirty, nothing for zero, else the
/// number and 分.
pub open spec fn minute_words(t: Seq<char>) -> Seq<char> {
    if t == seq!['三', '十'] { seq!['半'] } else if t == seq!['零'] { seq![] } else { t + seq!['分'] }
}

/// The reading of the clock time at `i`: hours and 点, the minutes, and the
/// seconds with 秒.
pub open spec fn clock_reading(s: Seq<char>, i: int) -> Seq<char> {
    let h = hour_len(s, i);
    let m = i + h + 3;
    number_reading(s.subrange(i, i + h), false) + seq!['点']
        + minute_words(time_reading(s.subrange(i + h + 1, m)))
        + (if clock_end(s, i) > m { time_reading(s.subrange(m + 1, m + 3)) + seq!['秒'] } else { seq![] })
}

/// Whether a date separator `-`, ` `, `/` or `.` stands at `k`.
pub open spec fn date_sep(s: Seq<char>, k: int) -> bool {
    at(s, k, '-') || at(s, k, ' ') || at(s, k, '/') || at(s, k, '.')
}

/// Whether 日 or 号 stands at `k`.
pub open spec fn day_mark(s: Seq<char>, k: int) -> bool {
    at(s, k, '日') || at(s, k, '号')
}

/// Length of the year at `i` (four or two digits) followed by 年, or by a
/// date separator when `numeric`; 0 when none.
pub open spec fn year_len(s: Seq<char>, i: int, numeric: bool) -> int {
    let after = |k: int| if numeric { date_sep(s, k) } else { at(s, k, '年') };
    if run(s, i) >= 4 && after(i + 4) {
        4
    } else if run(s, i) >= 2 && after(i + 2) {
        2
    } else {
        0
    }
}

/// Length of the month `1[0-2]` or `0?[1-9]` at `k` followed by 月, or by
/// a date separator when `numeric`; 0 when none.
pub open spec fn month_len(s: Seq<char>, k: int, numeric: bool) -> int {
    let after = |q: int| if numeric { date_sep(s, q) } else { at(s, q, '月') };
    if at(s, k, '1') && within(s, k + 1, '0', '2') && after(k + 2) {
        2
    } else if at(s, k, '0') && within(s, k + 1, '1', '9') && after(k + 2) {
        2
    } else if within(s, k, '1', '9') && after(k + 1) {
        1
    } else {
        0
    }
}

/// Length of the day `[12]\d`, `30`, `31` or `0?[1-9]` at `d`, followed by
/// 日 or 号 when `marked`; 0 when none.
pub open spec fn day_len(s: Seq<char>, d: int, marked: bool) -> int {
    let after = |q: int| !marked || day_mark(s, q);
    if (at(s, d, '1') || at(s, d, '2')) && dig(s, d + 1) && after(d + 2) {
        2
    } else if at(s, d, '3') && at(s, d + 1, '0') && after(d + 2) {
        2
    } else if at(s, d, '3') && at(s, d + 1, '1') && after(d + 2) {
        2
    } else if at(s, d, '0') && within(s, d + 1, '1', '9') && after(d + 2) {
        2
    } else if within(s, d, '1', '9') && after(d + 1) {
        1
    } else {
        0
    }
}

/// End of the date `YYYY年(M月)?(D[日号])?` at `i`, or `i`.
pub open spec fn date_end(s: Seq<char>, i: int) -> int {
    let y = year_len(s, i, false);
    let k = i + y + 1;
    let m = month_len(s, k, false);
    let d = if m > 0 { k + m + 1 } else { k };
    let dl = day_len(s, d, true);
    if y > 0 { if dl > 0 { d + dl + 1 } else { d } } else { i }
}

/// A date read as the year digit by digit with 年, the month with 月 and
/// the day with 日.
pub open spec fn date_reading(s: Seq<char>, i: int) -> Seq<char> {
    let y = year_len(s, i, false);
    let k = i + y + 1;
    let m = month_len(s, k, false);
    let d = if m > 0 { k + m + 1 } else { k };
    let dl = day_len(s, d, true);
    digits_reading(s.subrange(i, i + y), false) + seq!['年']
        + (if m > 0 { cardinal_reading(s.subrange(k, k + m), false) + seq!['月'] } else { seq![] })
        + (if dl > 0 { cardinal_reading(s.subrange(d, d + dl), false) + seq!['日'] } else { seq![] })
}

/// End of the date `YYYY-M-D([日号])?` at `i`, or `i`.
pub open spec fn numeric_date_end(s: Seq<char>, i: int) -> int {
    let y = year_len(s, i, true);
    let k = i + y + 1;
    let m = month_len(s, k, true);
    let d = k + m + 1;
    let dl = day_len(s, d, false);
    if y > 0 && m > 0 && dl > 0 { if day_mark(s, d + dl) { d + dl + 1 } else { d + dl } } else { i }
}

/// A numeric date read as year, month and day, keeping a 号 mark.
pub open spec fn numeric_date_reading(s: Seq<char>, i: int) -> Seq<char> {
    let y = year_len(s, i, true);
    let k = i + y + 1;
    let m = month_len(s, k, true);
    let d = k + m + 1;
    let dl = day_len(s, d, false);
    digits_reading(s.subrange(i, i + y), false) + seq!['年'] + cardinal_reading(s.subrange(k, k + m), false)
        + seq!['月'] + cardinal_reading(s.subrange(d, d + dl), false)
        + seq![if at(s, d + dl, '号') { '号' } else { '日' }]
}

/// End of the time range `H:MM(:SS)?[~-]H:MM(:SS)?` at `i`, or `i`.
pub open spec fn time_range_end(s: Seq<char>, i: int) -> int {
    let e1 = clock_end(s, i);
    if e1 > 0 && (at(s, e1, '~') || at(s, e1, '-')) && clock_end(s, e1 + 1) > 0 { clock_end(s, e1 + 1) } else { i }
}

/// End of the clock time at `i`, or `i`.
pub open spec fn time_end(s: Seq<char>, i: int) -> int {
    if clock_end(s, i) > 0 { clock_end(s, i) } else { i }
}

/// The kinds of date and time expressions, in the order `Chronology::normalize` reads them.
#[derive(Clone, Copy, PartialEq, Eq, Debug)]
pub enum ChronoKind {
    Date,
    NumericDate,
    TimeRange,
    Time,
}

pub open spec fn chrono_end(p: ChronoKind, s: Seq<char>, i: int) -> int {
    match p {
        ChronoKind::Date => date_end(s, i),
        ChronoKind::NumericDate => numeric_date_end(s, i),
        ChronoKind::TimeRange => time_range_end(s, i),
        ChronoKind::Time => time_end(s, i),
    }
}

pub open spec fn chrono_reading(p: ChronoKind, s: Seq<char>, i: int) -> Seq<char> {
    match p {
        ChronoKind::Date => date_reading(s, i),
        ChronoKind::NumericDate => numeric_date_reading(s, i),
        ChronoKind::TimeRange => clock_reading(s, i) + seq!['至'] + clock_reading(s, clock_end(s, i) + 1),
        ChronoKind::Time => clock_reading(s, i),
    }
}

/// `s` from `i` on with every expression of kind `p` replaced by its reading.
pub open spec fn chrono_from(p: ChronoKind, s: Seq<char>, i: int) -> Seq<char>
    decreases s.len() - i,
{
    if i < 0 || i >= s.len() {
        seq![]
    } else {
        let e = chrono_end(p, s, i);
        if i < e <= s.len() {
            chrono_reading(p, s, i) + chrono_from(p, s, e)
        } else {
            seq![s[i]] + chrono_from(p, s, i + 1)
        }
    }
}

/// The reading of every date and time of a sentence: dates with 年, numeric
/// dates, time ranges, then clock times.
pub open spec fn chronology_read(s: Seq<char>) -> Seq<char> {
    chrono_from(ChronoKind::Time, chrono_from(ChronoKind::TimeRange,
        chrono_from(ChronoKind::NumericDate, chrono_from(ChronoKind::Date, s, 0), 0), 0), 0)
}

fn at_c(v: &Vec<char>, k: usize, c: char) -> (r: bool)
    ensures
        r == at(v@, k as int, c),
{
    k < v.len() && v[k] == c
}

fn dig_at(v: &Vec<char>, k: usize) -> (r: bool)
    ensures
        r == dig(v@, k as int),
{
    k < v.len() && '0' <= v[k] && v[k] <= '9'
}

fn within_at(v: &Vec<char>, k: usize, lo: char, hi: char) -> (r: bool)
    ensures
        r == within(v@, k as int, lo, hi),
{
    k < v.len() && lo <= v[k] && v[k] <= hi
}

fn run_at(v: &Vec<char>, k: usize) -> (r: usize)
    ensures
        r == run(v@, k as int),
{
    if k <= v.len() { digit_run(v, k) } else { 0 }
}

proof fn lemma_time_text(s: Seq<char>)
    requires
        all_digits(s),
    ensures
        crate::num::is_number_text(strip_zeros(s)),
{
    crate::num::lemma_strip_zeros_digits(s);
}

/// The reading of a minute or second field (see `time_reading`).
fn time_reading_chars(v: &Vec<char>) -> (r: Vec<char>)
    requires
        all_digits(v@),
    ensures
        r@ == time_reading(v@),
{
    let mut z: usize = 0;
    assert(v@.subrange(0, v.len() as int) == v@);
    while z < v.len() && v[z] == '0'
        invariant
            z <= v.len(),
            strip_zeros(v@) == strip_zeros(v@.subrange(z as int, v.len() as int)),
        decreases v.len() - z,
    {
        assert(v@.subrange(z as int, v.len() as int).drop_first() == v@.subrange(z + 1, v.len() as int));
        z += 1;
    }
    let t = slice_chars(v, z, v.len());
    assert(strip_zeros(t@) == t@);
    proof {
        lemma_time_text(v@);
    }
    let r = number_reading_chars(&t, false);
    if v.len() > 0 && v[0] == '0' && !(r.len() == 1 && r[0] == '零') {
        let mut out = vec!['零'];
        extend_chars(&mut out, &r);
        assert(r@ != seq!['零']);
        out
    } else {
        proof {
            if r.len() == 1 && r[0] == '零' {
                assert(r@ =~= seq!['零']);
            }
        }
        r
    }
}

fn hour_len_at(v: &Vec<char>, i: usize) -> (r: usize)
    requires
        i < v.len(),
    ensures
        r as int == hour_len(v@, i as int),
        r <= 2,
{
    if (at_c(v, i, '0') || at_c(v, i, '1')) && dig_at(v, off(i, 1)) && at_c(v, off(i, 2), ':') {
        2
    } else if dig_at(v, i) && at_c(v, off(i, 1), ':') {
        1
    } else if at_c(v, i, '2') && within_at(v, off(i, 1), '0', '3') && at_c(v, off(i, 2), ':') {
        2
    } else {
        0
    }
}

fn sixty(v: &Vec<char>, k: usize) -> (r: bool)
    ensures
        r == sixty_at(v@, k as int),
{
    let n = v.len();
    assert(v@.len() == n);
    within_at(v, k, '0', '5') && dig_at(v, off(k, 1))
}

/// End of the clock time at `i`, or 0 when there is none.
fn clock_end_at(v: &Vec<char>, i: usize) -> (e: usize)
    requires
        i <= v.len(),
    ensures
        clock_end(v@, i as int) > 0 ==> e as int == clock_end(v@, i as int),
        clock_end(v@, i as int) <= 0 ==> e == 0,
        e > 0 ==> i < e <= v.len(),
{
    if i == v.len() {
        return 0;
    }
    let h = hour_len_at(v, i);
    let n = v.len();
    assert(v@.len() == n);
    if h > 0 && sixty(v, off(i, h + 1)) {
        let m = i + h + 3;
        if at_c(v, m, ':') && sixty(v, off(m, 1)) { m + 3 } else { m }
    } else {
        0
    }
}

fn minute_words_chars(t: Vec<char>) -> (r: Vec<char>)
    ensures
        r@ == minute_words(t@),
{
    if t.len() == 2 && t[0] == '三' && t[1] == '十' {
        assert(t@ =~= seq!['三', '十']);
        vec!['半']
    } else if t.len() == 1 && t[0] == '零' {
        assert(t@ =~= seq!['零']);
        assert(t@ != seq!['三', '十']);
        Vec::new()
    } else {
        assert(t@ != seq!['三', '十']);
        assert(t@ != seq!['零']);
        let mut w = t;
        w.push('分');
        w
    }
}

proof fn lemma_digits_sub(s: Seq<char>, a: int, b: int)
    requires
        0 <= a <= b <= s.len(),
        forall|k: int| a <= k < b ==> is_digit(#[trigger] s[k]),
    ensures
        all_digits(s.subrange(a, b)),
        crate::num::is_number_text(s.subrange(a, b)),
{
    assert forall|k: int| 0 <= k < b - a implies is_digit(#[trigger] s.subrange(a, b)[k]) by {
        assert(s.subrange(a, b)[k] == s[a + k]);
    }
    crate::num::lemma_digits_number_text(s.subrange(a, b));
}

fn clock_reading_chars(v: &Vec<char>, i: usize) -> (r: Vec<char>)
    requires
        i < v.len(),
        clock_end(v@, i as int) > 0,
    ensures
        r@ == clock_reading(v@, i as int),
{
    let h = hour_len_at(v, i);
    let m = i + h + 3;
    let e = clock_end_at(v, i);
    proof {
        lemma_digits_sub(v@, i as int, i + h);
        lemma_digits_sub(v@, i + h + 1, m as int);
        if e > m {
            lemma_digits_sub(v@, m + 1, m + 3);
        }
    }
    let mut r = number_reading_chars(&slice_chars(v, i, i + h), false);
    r.push('点');
    let mw = minute_words_chars(time_reading_chars(&slice_chars(v, i + h + 1, m)));
    extend_chars(&mut r, &mw);
    if e > m {
        let mut sec = time_reading_chars(&slice_chars(v, m + 1, m + 3));
        sec.push('秒');
        extend_chars(&mut r, &sec);
    } else {
        assert(r@ + Seq::<char>::empty() == r@);
    }
    r
}

fn date_sep_at(v: &Vec<char>, k: usize) -> (r: bool)
    ensures
        r == date_sep(v@, k as int),
{
    at_c(v, k, '-') || at_c(v, k, ' ') || at_c(v, k, '/') || at_c(v, k, '.')
}

fn day_mark_at(v: &Vec<char>, k: usize) -> (r: bool)
    ensures
        r == day_mark(v@, k as int),
{
    at_c(v, k, '日') || at_c(v, k, '号')
}

fn after_at(v: &Vec<char>, k: usize, numeric: bool, unit: char) -> (r: bool)
    ensures
        r == (if numeric { date_sep(v@, k as int) } else { at(v@, k as int, unit) }),
{
    if numeric { date_sep_at(v, k) } else { at_c(v, k, unit) }
}

fn year_len_at(v: &Vec<char>, i: usize, numeric: bool) -> (r: usize)
    requires
        i <= v.len(),
    ensures
        r as int == year_len(v@, i as int, numeric),
        r == 0 || r == 2 || r == 4,
        r > 0 ==> i + r < v.len(),
        forall|k: int| i <= k < i + r ==> is_digit(#[trigger] v@[k]),
{
    let n = run_at(v, i);
    proof {
        lemma_run(v@, i as int);
    }
    if n >= 4 && after_at(v, off(i, 4), numeric, '年') {
        4
    } else if n >= 2 && after_at(v, off(i, 2), numeric, '年') {
        2
    } else {
        0
    }
}

fn month_len_at(v: &Vec<char>, k: usize, numeric: bool) -> (r: usize)
    requires
        k <= v.len(),
    ensures
        r as int == month_len(v@, k as int, numeric),
        r <= 2,
        r > 0 ==> k + r < v.len(),
        forall|q: int| k <= q < k + r ==> is_digit(#[trigger] v@[q]),
{
    if at_c(v, k, '1') && within_at(v, off(k, 1), '0', '2') && after_at(v, off(k, 2), numeric, '月') {
        2
    } else if at_c(v, k, '0') && within_at(v, off(k, 1), '1', '9') && after_at(v, off(k, 2), numeric, '月') {
        2
    } else if within_at(v, k, '1', '9') && after_at(v, off(k, 1), numeric, '月') {
        1
    } else {
        0
    }
}

fn day_len_at(v: &Vec<char>, d: usize, marked: bool) -> (r: usize)
    requires
        d <= v.len(),
    ensures
        r as int == day_len(v@, d as int, marked),
        r <= 2,
        r > 0 ==> d + r <= v.len(),
        r > 0 && marked ==> d + r < v.len(),
        forall|q: int| d <= q < d + r ==> is_digit(#[trigger] v@[q]),
{
    if (at_c(v, d, '1') || at_c(v, d, '2')) && dig_at(v, off(d, 1)) && (!marked || day_mark_at(v, off(d, 2))) {
        2
    } else if at_c(v, d, '3') && at_c(v, off(d, 1), '0') && (!marked || day_mark_at(v, off(d, 2))) {
        2
    } else if at_c(v, d, '3') && at_c(v, off(d, 1), '1') && (!marked || day_mark_at(v, off(d, 2))) {
        2
    } else if at_c(v, d, '0') && within_at(v, off(d, 1), '1', '9') && (!marked || day_mark_at(v, off(d, 2))) {
        2
    } else if within_at(v, d, '1', '9') && (!marked || day_mark_at(v, off(d, 1))) {
        1
    } else {
        0
    }
}

fn chrono_end_at(p: ChronoKind, v: &Vec<char>, i: usize) -> (e: usize)
    requires
        i < v.len(),
    ensures
        e as int == chrono_end(p, v@, i as int),
        i <= e <= v.len(),
{
    match p {
        ChronoKind::Date => {
            let y = year_len_at(v, i, false);
            if y == 0 {
                return i;
            }
            let k = i + y + 1;
            let m = month_len_at(v, k, false);
            let d = if m > 0 { k + m + 1 } else { k };
            let dl = day_len_at(v, d, true);
            if dl > 0 { d + dl + 1 } else { d }
        },
        ChronoKind::NumericDate => {
            let y = year_len_at(v, i, true);
            if y == 0 {
                return i;
            }
            let k = i + y + 1;
            let m = month_len_at(v, k, true);
            if m == 0 {
                return i;
            }
            let d = k + m + 1;
            let dl = day_len_at(v, d, false);
            if dl == 0 {
                return i;
            }
            if day_mark_at(v, off(d, dl)) { d + dl + 1 } else { d + dl }
        },
        ChronoKind::TimeRange => {
            let e1 = clock_end_at(v, i);
            if e1 > 0 && (at_c(v, e1, '~') || at_c(v, e1, '-')) {
                let e2 = clock_end_at(v, e1 + 1);
                if e2 > 0 { e2 } else { i }
            } else {
                i
            }
        },
        ChronoKind::Time => {
            let e = clock_end_at(v, i);
            if e > 0 { e } else { i }
        },
    }
}

fn chrono_reading_at(p: ChronoKind, v: &Vec<char>, i: usize) -> (r: Vec<char>)
    requires
        i < v.len(),
        chrono_end(p, v@, i as int) > i,
    ensures
        r@ == chrono_reading(p, v@, i as int),
{
    match p {
        ChronoKind::Date => {
            let y = year_len_at(v, i, false);
            let k = i + y + 1;
            let m = month_len_at(v, k, false);
            let d = if m > 0 { k + m + 1 } else { k };
            let dl = day_len_at(v, d, true);
            proof {
                lemma_digits_sub(v@, k as int, k + m);
                lemma_digits_sub(v@, d as int, d + dl);
            }
            let mut r = digits_reading_chars(&slice_chars(v, i, i + y), false);
            r.push('年');
            if m > 0 {
                let mut mr = cardinal_reading_chars(&slice_chars(v, k, k + m), false);
                mr.push('月');
                extend_chars(&mut r, &mr);
            }
            if dl > 0 {
                let mut dr = cardinal_reading_chars(&slice_chars(v, d, d + dl), false);
                dr.push('日');
                extend_chars(&mut r, &dr);
            }
            assert(r@ =~= date_reading(v@, i as int));
            r
        },
        ChronoKind::NumericDate => {
            let y = year_len_at(v, i, true);
            let k = i + y + 1;
            let m = month_len_at(v, k, true);
            let d = k + m + 1;
            let dl = day_len_at(v, d, false);
            proof {
                lemma_digits_sub(v@, k as int, k + m);
                lemma_digits_sub(v@, d as int, d + dl);
            }
            let mut r = digits_reading_chars(&slice_chars(v, i, i + y), false);
            r.push('年');
            let mr = cardinal_reading_chars(&slice_chars(v, k, k + m), false);
            extend_chars(&mut r, &mr);
            r.push('月');
            let dr = cardinal_reading_chars(&slice_chars(v, d, d + dl), false);
            extend_chars(&mut r, &dr);
            r.push(if at_c(v, off(d, dl), '号') { '号' } else { '日' });
            assert(r@ =~= numeric_date_reading(v@, i as int));
            r
        },
        ChronoKind::TimeRange => {
            let e1 = clock_end_at(v, i);
            let mut r = clock_reading_chars(v, i);
            r.push('至');
            let second = clock_reading_chars(v, e1 + 1);
            extend_chars(&mut r, &second);
            r
        },
        ChronoKind::Time => clock_reading_chars(v, i),
    }
}

fn chrono_chars(p: ChronoKind, v: &Vec<char>) -> (r: Vec<char>)
    ensures
        r@ == chrono_from(p, v@, 0),
{
    let mut out: Vec<char> = Vec::new();
    let mut i: usize = 0;
    while i < v.len()
        invariant
                i <= v.len(),
            out@ + chrono_from(p, v@, i as int) == chrono_from(p, v@, 0),
        decreases v.len() - i,
    {
        let e = chrono_end_at(p, v, i);
        if e > i {
            let piece = chrono_reading_at(p, v, i);
            assert(out@ + chrono_from(p, v@, i as int) == (out@ + piece@) + chrono_from(p, v@, e as int));
            extend_chars(&mut out, &piece);
            i = e;
        } else {
            assert(out@ + chrono_from(p, v@, i as int) == out@.push(v@[i as int]) + chrono_from(p, v@, i + 1));
            out.push(v[i]);
            i += 1;
        }
    }
    assert(out@ + Seq::<char>::empty() == out@);
    out
}

/// Reader of dates and clock times.
pub struct Chronology;

impl Chronology {
    pub fn new() -> Self {
        Chronology
    }

    /// Reads a minute or second field (see `time_reading`).
    pub fn time_num2str(&self, num_str: &str) -> (r: String)
        requires
            all_digits(num_str@),
        ensures
            r@ == time_reading(num_str@),
    {
        string_of(&time_reading_chars(&chars_of(num_str)))
    }

    fn rewrite(&self, p: ChronoKind, s: &str) -> (r: String)
        ensures
            r@ == chrono_from(p, s@, 0),
    {
        string_of(&chrono_chars(p, &chars_of(s)))
    }

    /// Reads every date `YYYY年(M月)?(D[日号])?` (see `date_reading`).
    pub fn replace_date(&self, date_str: &str) -> (r: String)
        ensures
            r@ == chrono_from(ChronoKind::Date, date_str@, 0),
    {
        self.rewrite(ChronoKind::Date, date_str)
    }

    /// Reads every numeric date `YYYY-M-D` (see `numeric_date_reading`).
    pub fn replace_date2(&self, date_str: &str) -> (r: String)
        ensures
            r@ == chrono_from(ChronoKind::NumericDate, date_str@, 0),
    {
        self.rewrite(ChronoKind::NumericDate, date_str)
    }

    /// Reads every time range, the two times joined by 至.
    pub fn replace_time_range(&self, time_str: &str) -> (r: String)
        ensures
            r@ == chrono_from(ChronoKind::TimeRange, time_str@, 0),
    {
        self.rewrite(ChronoKind::TimeRange, time_str)
    }

    /// Reads every date and time of a sentence (see `chronology_read`).
    pub fn normalize(&self, chronology_str: &str) -> (r: String)
        ensures
            r@ == chronology_read(chronology_str@),
    {
        let v = chars_of(chronology_str);
        let v = chrono_chars(ChronoKind::Date, &v);
        let v = chrono_chars(ChronoKind::NumericDate, &v);
        let v = chrono_chars(ChronoKind::TimeRange, &v);
        let v = chrono_chars(ChronoKind::Time, &v);
        string_of(&v)
    }

    /// Reads every clock time (see `clock_reading`).
    pub fn replace_time(&self, time_str: &str) -> (r: String)
        ensures
            r@ == chrono_from(ChronoKind::Time, time_str@, 0),
    {
        self.rewrite(ChronoKind::Time, time_str)
    }
}

} // verus!
