//! Reading of quantities in Chinese: a number with a measure unit
//! (`5cm` is 五厘米) and temperatures (`-3°C` is 零下三度).
use vstd::prelude::*;
use crate::chars::{chars_of, extend_chars, is_digit, slice_chars, string_of};
use crate::num::{digit_run, frac_end, frac_end_at, lemma_number_text, lemma_run, minus_len, number_reading, number_reading_chars, run};
use crate::phonecode::{at, char_is_whitespace, whitespace};

verus! {

/// The measure units and their Chinese names, longest unit (in UTF-8
/// bytes) first, in the order in which they are read.
pub open spec fn measure_units() -> Seq<(Seq<char>, Seq<char>)> {
    seq![
        (seq!['c', 'm', '²'], seq!['平', '方', '厘', '米']),
        (seq!['c', 'm', '³'], seq!['立', '方', '厘', '米']),
        (seq!['k', 'm', '/', 's'], seq!['千', '米', '每', '秒']),
        (seq!['k', 'm', '/', 'h'], seq!['千', '米', '每', '小', '时']),
        (seq!['m', 'm', '/', 's'], seq!['毫', '米', '每', '秒']),
        (seq!['c', 'm', '2'], seq!['平', '方', '厘', '米']),
        (seq!['c', 'm', '3'], seq!['立', '方', '厘', '米']),
        (seq!['m', '²'], seq!['平', '方', '米']),
        (seq!['m', '³'], seq!['立', '方', '米']),
        (seq!['m', '/', 's'], seq!['米', '每', '秒']),
        (seq!['c', 'm'], seq!['厘', '米']),
        (seq!['m', '2'], seq!['平', '方', '米']),
        (seq!['m', '3'], seq!['立', '方', '米']),
        (seq!['m', 'l'], seq!['毫', '升']),
        (seq!['m', 'm'], seq!['毫', '米']),
        (seq!['k', 'g'], seq!['千', '克']),
        (seq!['d', 's'], seq!['毫', '秒']),
        (seq!['d', 'b'], seq!['分', '贝']),
        (seq!['k', 'm'], seq!['千', '米']),
        (seq!['m'], seq!['米']),
        (seq!['g'], seq!['克']),
        (seq!['s'], seq!['秒'])
    ]
}

/// Length of the run of white space of `s` from `i`.
pub open spec fn space_run(s: Seq<char>, i: int) -> nat
    decreases s.len() - i,
{
    if 0 <= i < s.len() && whitespace(s[i]) { 1 + space_run(s, i + 1) } else { 0 }
}

/// Whether `key` stands in `s` at `k`.
pub open spec fn has_at(s: Seq<char>, k: int, key: Seq<char>) -> bool {
    0 <= k && k + key.len() <= s.len() && s.subrange(k, k + key.len()) == key
}

/// End of a number, optional white space and the unit `key` at `i`, or `i`.
pub open spec fn measure_end(s: Seq<char>, i: int, key: Seq<char>) -> int {
    let k = frac_end(s, i + run(s, i));
    let w = k + space_run(s, k);
    if run(s, i) > 0 && key.len() > 0 && has_at(s, w, key) { w + key.len() } else { i }
}

/// `s` from `i` on with every number followed by the unit `key` read as the
/// number and the unit's name `word`.
pub open spec fn measures_from(s: Seq<char>, key: Seq<char>, word: Seq<char>, i: int) -> Seq<char>
    decreases s.len() - i,
{
    if i < 0 || i >= s.len() {
        seq![]
    } else {
        let e = measure_end(s, i, key);
        if i < e <= s.len() {
            number_reading(s.subrange(i, frac_end(s, i + run(s, i))), false) + word + measures_from(s, key, word, e)
        } else {
            seq![s[i]] + measures_from(s, key, word, i + 1)
        }
    }
}

/// `s` with the first `n` units of `units` read, one unit after the other.
pub open spec fn measures_read(s: Seq<char>, units: Seq<(Seq<char>, Seq<char>)>, n: int) -> Seq<char>
    decreases n,
{
    if n <= 0 {
        s
    } else {
        let t = measures_read(s, units, n - 1);
        measures_from(t, units[n - 1].0, units[n - 1].1, 0)
    }
}

/// Length of the temperature unit at `k` (°C, ℃, 度 or 摄氏度), or 0.
pub open spec fn degree_len(s: Seq<char>, k: int) -> int {
    if at(s, k, '°') && at(s, k + 1, 'C') {
        2
    } else if at(s, k, '℃') || at(s, k, '度') {
        1
    } else if at(s, k, '摄') && at(s, k + 1, '氏') && at(s, k + 2, '度') {
        3
    } else {
        0
    }
}

/// End of the temperature `-?number unit` at `i`, or `i`.
pub open spec fn temperature_end(s: Seq<char>, i: int) -> int {
    let j = i + minus_len(s, i);
    let k = frac_end(s, j + run(s, j));
    if run(s, j) > 0 && degree_len(s, k) > 0 { k + degree_len(s, k) } else { i }
}

/// A temperature read as 零下 for a minus sign, the number, and 摄氏度 or 度.
pub open spec fn temperature_reading(s: Seq<char>, i: int) -> Seq<char> {
    let j = i + minus_len(s, i);
    let k = frac_end(s, j + run(s, j));
    (if j > i { seq!['零', '下'] } else { seq![] }) + number_reading(s.subrange(j, k), false)
        + (if degree_len(s, k) == 3 { seq!['摄', '氏', '度'] } else { seq!['度'] })
}

/// `s` from `i` on with every temperature read.
pub open spec fn temperatures_from(s: Seq<char>, i: int) -> Seq<char>
    decreases s.len() - i,
{
    if i < 0 || i >= s.len() {
        seq![]
    } else {
        let e = temperature_end(s, i);
        if i < e <= s.len() {
            temperature_reading(s, i) + temperatures_from(s, e)
        } else {
            seq![s[i]] + temperatures_from(s, i + 1)
        }
    }
}

/// The quantities of a sentence read: the measures, then the temperatures.
pub open spec fn quantities_read(s: Seq<char>) -> Seq<char> {
    temperatures_from(measures_read(s, measure_units(), measure_units().len() as int), 0)
}

/// The views of a unit table.
pub open spec fn unit_views(u: Seq<(Vec<char>, Vec<char>)>) -> Seq<(Seq<char>, Seq<char>)> {
    u.map_values(|p: (Vec<char>, Vec<char>)| (p.0@, p.1@))
}

proof fn lemma_space_run(s: Seq<char>, i: int)
    requires
        0 <= i <= s.len(),
    ensures
        i + space_run(s, i) <= s.len(),
    decreases s.len() - i,
{
    if i < s.len() && whitespace(s[i]) {
        lemma_space_run(s, i + 1);
    }
}

fn space_run_at(v: &Vec<char>, k: usize) -> (r: usize)
    requires
        k <= v.len(),
    ensures
        r == space_run(v@, k as int),
        k + r <= v.len(),
    decreases v.len() - k,
{
    if k < v.len() && char_is_whitespace(v[k]) {
        let r = space_run_at(v, k + 1);
        r + 1
    } else {
        0
    }
}

pub fn has_at_chars(v: &Vec<char>, k: usize, key: &Vec<char>) -> (r: bool)
    requires
        k <= v.len(),
    ensures
        r == has_at(v@, k as int, key@),
{
    if key.len() > v.len() - k {
        return false;
    }
    let mut i: usize = 0;
    while i < key.len()
        invariant
            k + key.len() <= v.len(),
            i <= key.len(),
            forall|m: int| 0 <= m < i ==> v@[k + m] == key@[m],
        decreases key.len() - i,
    {
        if v[k + i] != key[i] {
            assert(v@.subrange(k as int, k + key.len())[i as int] != key@[i as int]);
            return false;
        }
        i += 1;
    }
    assert(v@.subrange(k as int, k + key.len()) =~= key@);
    true
}

fn measure_end_at(v: &Vec<char>, i: usize, key: &Vec<char>) -> (e: usize)
    requires
        i < v.len(),
    ensures
        e as int == measure_end(v@, i as int, key@),
        i <= e <= v.len(),
{
    let r = digit_run(v, i);
    let k = frac_end_at(v, i + r);
    let w = k + space_run_at(v, k);
    if r > 0 && key.len() > 0 && has_at_chars(v, w, key) { w + key.len() } else { i }
}

fn measures_chars(v: &Vec<char>, key: &Vec<char>, word: &Vec<char>) -> (r: Vec<char>)
    ensures
        r@ == measures_from(v@, key@, word@, 0),
{
    let mut out: Vec<char> = Vec::new();
    let mut i: usize = 0;
    while i < v.len()
        invariant
            i <= v.len(),
            out@ + measures_from(v@, key@, word@, i as int) == measures_from(v@, key@, word@, 0),
        decreases v.len() - i,
    {
        let e = measure_end_at(v, i, key);
        if e > i {
            let r = digit_run(v, i);
            let k = frac_end_at(v, i + r);
            proof {
                lemma_number_text(v@, i as int, k as int);
            }
            let mut piece = number_reading_chars(&slice_chars(v, i, k), false);
            extend_chars(&mut piece, word);
            assert(out@ + measures_from(v@, key@, word@, i as int) == (out@ + piece@) + measures_from(v@, key@, word@, e as int));
            extend_chars(&mut out, &piece);
            i = e;
        } else {
            assert(out@ + measures_from(v@, key@, word@, i as int) == out@.push(v@[i as int]) + measures_from(v@, key@, word@, i + 1));
            out.push(v[i]);
            i += 1;
        }
    }
    assert(out@ + Seq::<char>::empty() == out@);
    out
}

fn at_q(v: &Vec<char>, k: usize, c: char) -> (r: bool)
    ensures
        r == at(v@, k as int, c),
{
    k < v.len() && v[k] == c
}

fn degree_len_at(v: &Vec<char>, k: usize) -> (r: usize)
    requires
        k <= v.len(),
    ensures
        r as int == degree_len(v@, k as int),
        k + r <= v.len(),
{
    if at_q(v, k, '°') && k + 1 < v.len() && v[k + 1] == 'C' {
        2
    } else if at_q(v, k, '℃') || at_q(v, k, '度') {
        1
    } else if at_q(v, k, '摄') && v.len() - k > 2 && v[k + 1] == '氏' && v[k + 2] == '度' {
        3
    } else {
        0
    }
}

fn temperatures_chars(v: &Vec<char>) -> (r: Vec<char>)
    ensures
        r@ == temperatures_from(v@, 0),
{
    let mut out: Vec<char> = Vec::new();
    let mut i: usize = 0;
    while i < v.len()
        invariant
            i <= v.len(),
            out@ + temperatures_from(v@, i as int) == temperatures_from(v@, 0),
        decreases v.len() - i,
    {
        let j: usize = if v[i] == '-' { i + 1 } else { i };
        let r = digit_run(v, j);
        let k = frac_end_at(v, j + r);
        let dl = degree_len_at(v, k);
        if r > 0 && dl > 0 {
            proof {
                lemma_number_text(v@, j as int, k as int);
            }
            let mut piece: Vec<char> = if j > i { vec!['零', '下'] } else { Vec::new() };
            let num = number_reading_chars(&slice_chars(v, j, k), false);
            extend_chars(&mut piece, &num);
            if dl == 3 {
                extend_chars(&mut piece, &vec!['摄', '氏', '度']);
            } else {
                piece.push('度');
            }
            let e = k + dl;
            assert(piece@ =~= temperature_reading(v@, i as int));
            assert(out@ + temperatures_from(v@, i as int) == (out@ + piece@) + temperatures_from(v@, e as int));
            extend_chars(&mut out, &piece);
            i = e;
        } else {
            assert(out@ + temperatures_from(v@, i as int) == out@.push(v@[i as int]) + temperatures_from(v@, i + 1));
            out.push(v[i]);
            i += 1;
        }
    }
    assert(out@ + Seq::<char>::empty() == out@);
    out
}

/// Reader of quantities.
pub struct Quantifier {
    /// The measure units and their names (see `measure_units`).
    pub units: Vec<(Vec<char>, Vec<char>)>,
}

impl Quantifier {
    pub fn new() -> (r: Self)
        ensures
            unit_views(r.units@) == measure_units(),
    {
        let units = vec![
            (vec!['c', 'm', '²'], vec!['平', '方', '厘', '米']),
            (vec!['c', 'm', '³'], vec!['立', '方', '厘', '米']),
            (vec!['k', 'm', '/', 's'], vec!['千', '米', '每', '秒']),
            (vec!['k', 'm', '/', 'h'], vec!['千', '米', '每', '小', '时']),
            (vec!['m', 'm', '/', 's'], vec!['毫', '米', '每', '秒']),
            (vec!['c', 'm', '2'], vec!['平', '方', '厘', '米']),
            (vec!['c', 'm', '3'], vec!['立', '方', '厘', '米']),
            (vec!['m', '²'], vec!['平', '方', '米']),
            (vec!['m', '³'], vec!['立', '方', '米']),
            (vec!['m', '/', 's'], vec!['米', '每', '秒']),
            (vec!['c', 'm'], vec!['厘', '米']),
            (vec!['m', '2'], vec!['平', '方', '米']),
            (vec!['m', '3'], vec!['立', '方', '米']),
            (vec!['m', 'l'], vec!['毫', '升']),
            (vec!['m', 'm'], vec!['毫', '米']),
            (vec!['k', 'g'], vec!['千', '克']),
            (vec!['d', 's'], vec!['毫', '秒']),
            (vec!['d', 'b'], vec!['分', '贝']),
            (vec!['k', 'm'], vec!['千', '米']),
            (vec!['m'], vec!['米']),
            (vec!['g'], vec!['克']),
            (vec!['s'], vec!['秒'])
        ];
        assert(unit_views(units@)[0] == measure_units()[0]);
        assert(unit_views(units@)[1] == measure_units()[1]);
        assert(unit_views(units@)[2] == measure_units()[2]);
        assert(unit_views(units@)[3] == measure_units()[3]);
        assert(unit_views(units@)[4] == measure_units()[4]);
        assert(unit_views(units@)[5] == measure_units()[5]);
        assert(unit_views(units@)[6] == measure_units()[6]);
        assert(unit_views(units@)[7] == measure_units()[7]);
        assert(unit_views(units@)[8] == measure_units()[8]);
        assert(unit_views(units@)[9] == measure_units()[9]);
        assert(unit_views(units@)[10] == measure_units()[10]);
        assert(unit_views(units@)[11] == measure_units()[11]);
        assert(unit_views(units@)[12] == measure_units()[12]);
        assert(unit_views(units@)[13] == measure_units()[13]);
        assert(unit_views(units@)[14] == measure_units()[14]);
        assert(unit_views(units@)[15] == measure_units()[15]);
        assert(unit_views(units@)[16] == measure_units()[16]);
        assert(unit_views(units@)[17] == measure_units()[17]);
        assert(unit_views(units@)[18] == measure_units()[18]);
        assert(unit_views(units@)[19] == measure_units()[19]);
        assert(unit_views(units@)[20] == measure_units()[20]);
        assert(unit_views(units@)[21] == measure_units()[21]);
        assert(unit_views(units@) =~= measure_units());
        Quantifier { units }
    }

    fn measures(&self, v: &Vec<char>) -> (r: Vec<char>)
        requires
            unit_views(self.units@) == measure_units(),
        ensures
            r@ == measures_read(v@, measure_units(), measure_units().len() as int),
    {
        let mut t = slice_chars(v, 0, v.len());
        assert(v@.subrange(0, v.len() as int) == v@);
        let mut n: usize = 0;
        while n < self.units.len()
            invariant
                unit_views(self.units@) == measure_units(),
                n <= self.units.len(),
                t@ == measures_read(v@, measure_units(), n as int),
            decreases self.units.len() - n,
        {
            assert(measure_units()[n as int] == (self.units@[n as int].0@, self.units@[n as int].1@));
            t = measures_chars(&t, &self.units[n].0, &self.units[n].1);
            n += 1;
        }
        t
    }

    /// Reads every number followed by a measure unit (see `measures_read`).
    pub fn replace_measure(&self, measure_str: &str) -> (r: String)
        requires
            unit_views(self.units@) == measure_units(),
        ensures
            r@ == measures_read(measure_str@, measure_units(), measure_units().len() as int),
    {
        string_of(&self.measures(&chars_of(measure_str)))
    }

    /// Reads every temperature (see `temperature_reading`).
    pub fn replace_temperature(&self, temperature_str: &str) -> (r: String)
        ensures
            r@ == temperatures_from(temperature_str@, 0),
    {
        string_of(&temperatures_chars(&chars_of(temperature_str)))
    }

    /// Reads the quantities of a sentence (see `quantities_read`).
    pub fn normalize(&self, sentence: &str) -> (r: String)
        requires
            unit_views(self.units@) == measure_units(),
        ensures
            r@ == quantities_read(sentence@),
    {
        let m = self.measures(&chars_of(sentence));
        string_of(&temperatures_chars(&m))
    }
}

} // verus!
