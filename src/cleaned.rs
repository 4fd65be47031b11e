//! The phoneme alphabet and the per-text record of phonemes, word
//! alignments, languages and normalised strings that the synthesiser
//! consumes, with the rule that merges neighbouring spans of one language.
use vstd::prelude::*;
use crate::chars::{chars_of, string_of, views};
use crate::phonecode::whitespace;

verus! {

/// Size of the phoneme alphabet.
pub const N_SYMBOLS: usize = 322;

/// Index of the first entry of `table` from `k` on that equals `s`, or 0
/// when there is none.
pub open spec fn first_index_from(table: Seq<Seq<char>>, s: Seq<char>, k: int) -> int
    decreases table.len() - k,
{
    if k < 0 || k >= table.len() {
        0
    } else if table[k] == s {
        k
    } else {
        first_index_from(table, s, k + 1)
    }
}

/// The phoneme id of a symbol: its index in the alphabet, or 0 for a
/// symbol outside it.
pub open spec fn symbol_id(table: Seq<Seq<char>>, s: Seq<char>) -> int {
    first_index_from(table, s, 0)
}

proof fn lemma_first_index_bound(table: Seq<Seq<char>>, s: Seq<char>, k: int)
    requires
        0 <= k,
    ensures
        0 <= first_index_from(table, s, k),
        table.len() > 0 ==> first_index_from(table, s, k) < table.len(),
    decreases table.len() - k,
{
    if k < table.len() && table[k] != s {
        lemma_first_index_bound(table, s, k + 1);
    }
}

/// Symbols 0 to 39 of the phoneme alphabet.
pub open spec fn alphabet_part_0() -> Seq<Seq<char>> {
    seq![
        seq!['!'], seq![','], seq!['-'], seq!['.'], seq!['?'], seq!['A', 'A'], seq!['A', 'A', '0'],
        seq!['A', 'A', '1'], seq!['A', 'A', '2'], seq!['A', 'E', '0'], seq!['A', 'E', '1'],
        seq!['A', 'E', '2'], seq!['A', 'H', '0'], seq!['A', 'H', '1'], seq!['A', 'H', '2'],
        seq!['A', 'O', '0'], seq!['A', 'O', '1'], seq!['A', 'O', '2'], seq!['A', 'W', '0'],
        seq!['A', 'W', '1'], seq!['A', 'W', '2'], seq!['A', 'Y', '0'], seq!['A', 'Y', '1'],
        seq!['A', 'Y', '2'], seq!['B'], seq!['C', 'H'], seq!['D'], seq!['D', 'H'], seq!['E', '1'],
        seq!['E', '2'], seq!['E', '3'], seq!['E', '4'], seq!['E', '5'], seq!['E', 'E'],
        seq!['E', 'H', '0'], seq!['E', 'H', '1'], seq!['E', 'H', '2'], seq!['E', 'R'],
        seq!['E', 'R', '0'], seq!['E', 'R', '1'],
    ]
}

/// Symbols 40 to 79 of the phoneme alphabet.
pub open spec fn alphabet_part_1() -> Seq<Seq<char>> {
    seq![
        seq!['E', 'R', '2'], seq!['E', 'Y', '0'], seq!['E', 'Y', '1'], seq!['E', 'Y', '2'],
        seq!['E', 'n', '1'], seq!['E', 'n', '2'], seq!['E', 'n', '3'], seq!['E', 'n', '4'],
        seq!['E', 'n', '5'], seq!['F'], seq!['G'], seq!['H', 'H'], seq!['I'], seq!['I', 'H'],
        seq!['I', 'H', '0'], seq!['I', 'H', '1'], seq!['I', 'H', '2'], seq!['I', 'Y', '0'],
        seq!['I', 'Y', '1'], seq!['I', 'Y', '2'], seq!['J', 'H'], seq!['K'], seq!['L'], seq!['M'],
        seq!['N'], seq!['N', 'G'], seq!['O', 'O'], seq!['O', 'W', '0'], seq!['O', 'W', '1'],
        seq!['O', 'W', '2'], seq!['O', 'Y', '0'], seq!['O', 'Y', '1'], seq!['O', 'Y', '2'],
        seq!['P'], seq!['R'], seq!['S'], seq!['S', 'H'], seq!['S', 'P'], seq!['S', 'P', '2'],
        seq!['S', 'P', '3'],
    ]
}

/// Symbols 80 to 119 of the phoneme alphabet.
pub open spec fn alphabet_part_2() -> Seq<Seq<char>> {
    seq![
        seq!['T'], seq!['T', 'H'], seq!['U'], seq!['U', 'H', '0'], seq!['U', 'H', '1'],
        seq!['U', 'H', '2'], seq!['U', 'N', 'K'], seq!['U', 'W', '0'], seq!['U', 'W', '1'],
        seq!['U', 'W', '2'], seq!['V'], seq!['W'], seq!['Y'], seq!['Z'], seq!['Z', 'H'], seq!['_'],
        seq!['a'], seq!['a', '1'], seq!['a', '2'], seq!['a', '3'], seq!['a', '4'], seq!['a', '5'],
        seq!['a', 'i', '1'], seq!['a', 'i', '2'], seq!['a', 'i', '3'], seq!['a', 'i', '4'],
        seq!['a', 'i', '5'], seq!['a', 'n', '1'], seq!['a', 'n', '2'], seq!['a', 'n', '3'],
        seq!['a', 'n', '4'], seq!['a', 'n', '5'], seq!['a', 'n', 'g', '1'],
        seq!['a', 'n', 'g', '2'], seq!['a', 'n', 'g', '3'], seq!['a', 'n', 'g', '4'],
        seq!['a', 'n', 'g', '5'], seq!['a', 'o', '1'], seq!['a', 'o', '2'], seq!['a', 'o', '3'],
    ]
}

/// Symbols 120 to 159 of the phoneme alphabet.
pub open spec fn alphabet_part_3() -> Seq<Seq<char>> {
    seq![
        seq!['a', 'o', '4'], seq!['a', 'o', '5'], seq!['b'], seq!['b', 'y'], seq!['c'],
        seq!['c', 'h'], seq!['c', 'l'], seq!['d'], seq!['d', 'y'], seq!['e'], seq!['e', '1'],
        seq!['e', '2'], seq!['e', '3'], seq!['e', '4'], seq!['e', '5'], seq!['e', 'i', '1'],
        seq!['e', 'i', '2'], seq!['e', 'i', '3'], seq!['e', 'i', '4'], seq!['e', 'i', '5'],
        seq!['e', 'n', '1'], seq!['e', 'n', '2'], seq!['e', 'n', '3'], seq!['e', 'n', '4'],
        seq!['e', 'n', '5'], seq!['e', 'n', 'g', '1'], seq!['e', 'n', 'g', '2'],
        seq!['e', 'n', 'g', '3'], seq!['e', 'n', 'g', '4'], seq!['e', 'n', 'g', '5'],
        seq!['e', 'r', '1'], seq!['e', 'r', '2'], seq!['e', 'r', '3'], seq!['e', 'r', '4'],
        seq!['e', 'r', '5'], seq!['f'], seq!['g'], seq!['g', 'y'], seq!['h'], seq!['h', 'y'],
    ]
}

/// Symbols 160 to 199 of the phoneme alphabet.
pub open spec fn alphabet_part_4() -> Seq<Seq<char>> {
    seq![
        seq!['i'], seq!['i', '0', '1'], seq!['i', '0', '2'], seq!['i', '0', '3'],
        seq!['i', '0', '4'], seq!['i', '0', '5'], seq!['i', '1'], seq!['i', '2'], seq!['i', '3'],
        seq!['i', '4'], seq!['i', '5'], seq!['i', 'a', '1'], seq!['i', 'a', '2'],
        seq!['i', 'a', '3'], seq!['i', 'a', '4'], seq!['i', 'a', '5'], seq!['i', 'a', 'n', '1'],
        seq!['i', 'a', 'n', '2'], seq!['i', 'a', 'n', '3'], seq!['i', 'a', 'n', '4'],
        seq!['i', 'a', 'n', '5'], seq!['i', 'a', 'n', 'g', '1'], seq!['i', 'a', 'n', 'g', '2'],
        seq!['i', 'a', 'n', 'g', '3'], seq!['i', 'a', 'n', 'g', '4'],
        seq!['i', 'a', 'n', 'g', '5'], seq!['i', 'a', 'o', '1'], seq!['i', 'a', 'o', '2'],
        seq!['i', 'a', 'o', '3'], seq!['i', 'a', 'o', '4'], seq!['i', 'a', 'o', '5'],
        seq!['i', 'e', '1'], seq!['i', 'e', '2'], seq!['i', 'e', '3'], seq!['i', 'e', '4'],
        seq!['i', 'e', '5'], seq!['i', 'n', '1'], seq!['i', 'n', '2'], seq!['i', 'n', '3'],
        seq!['i', 'n', '4'],
    ]
}

/// Symbols 200 to 239 of the phoneme alphabet.
pub open spec fn alphabet_part_5() -> Seq<Seq<char>> {
    seq![
        seq!['i', 'n', '5'], seq!['i', 'n', 'g', '1'], seq!['i', 'n', 'g', '2'],
        seq!['i', 'n', 'g', '3'], seq!['i', 'n', 'g', '4'], seq!['i', 'n', 'g', '5'],
        seq!['i', 'o', 'n', 'g', '1'], seq!['i', 'o', 'n', 'g', '2'],
        seq!['i', 'o', 'n', 'g', '3'], seq!['i', 'o', 'n', 'g', '4'],
        seq!['i', 'o', 'n', 'g', '5'], seq!['i', 'r', '1'], seq!['i', 'r', '2'],
        seq!['i', 'r', '3'], seq!['i', 'r', '4'], seq!['i', 'r', '5'], seq!['i', 'u', '1'],
        seq!['i', 'u', '2'], seq!['i', 'u', '3'], seq!['i', 'u', '4'], seq!['i', 'u', '5'],
        seq!['j'], seq!['k'], seq!['k', 'y'], seq!['l'], seq!['m'], seq!['m', 'y'], seq!['n'],
        seq!['n', 'y'], seq!['o'], seq!['o', '1'], seq!['o', '2'], seq!['o', '3'], seq!['o', '4'],
        seq!['o', '5'], seq!['o', 'n', 'g', '1'], seq!['o', 'n', 'g', '2'],
        seq!['o', 'n', 'g', '3'], seq!['o', 'n', 'g', '4'], seq!['o', 'n', 'g', '5'],
    ]
}

/// Symbols 240 to 279 of the phoneme alphabet.
pub open spec fn alphabet_part_6() -> Seq<Seq<char>> {
    seq![
        seq!['o', 'u', '1'], seq!['o', 'u', '2'], seq!['o', 'u', '3'], seq!['o', 'u', '4'],
        seq!['o', 'u', '5'], seq!['p'], seq!['p', 'y'], seq!['q'], seq!['r'], seq!['r', 'y'],
        seq!['s'], seq!['s', 'h'], seq!['t'], seq!['t', 's'], seq!['u'], seq!['u', '1'],
        seq!['u', '2'], seq!['u', '3'], seq!['u', '4'], seq!['u', '5'], seq!['u', 'a', '1'],
        seq!['u', 'a', '2'], seq!['u', 'a', '3'], seq!['u', 'a', '4'], seq!['u', 'a', '5'],
        seq!['u', 'a', 'i', '1'], seq!['u', 'a', 'i', '2'], seq!['u', 'a', 'i', '3'],
        seq!['u', 'a', 'i', '4'], seq!['u', 'a', 'i', '5'], seq!['u', 'a', 'n', '1'],
        seq!['u', 'a', 'n', '2'], seq!['u', 'a', 'n', '3'], seq!['u', 'a', 'n', '4'],
        seq!['u', 'a', 'n', '5'], seq!['u', 'a', 'n', 'g', '1'], seq!['u', 'a', 'n', 'g', '2'],
        seq!['u', 'a', 'n', 'g', '3'], seq!['u', 'a', 'n', 'g', '4'],
        seq!['u', 'a', 'n', 'g', '5'],
    ]
}

/// Symbols 280 to 319 of the phoneme alphabet.
pub open spec fn alphabet_part_7() -> Seq<Seq<char>> {
    seq![
        seq!['u', 'i', '1'], seq!['u', 'i', '2'], seq!['u', 'i', '3'], seq!['u', 'i', '4'],
        seq!['u', 'i', '5'], seq!['u', 'n', '1'], seq!['u', 'n', '2'], seq!['u', 'n', '3'],
        seq!['u', 'n', '4'], seq!['u', 'n', '5'], seq!['u', 'o', '1'], seq!['u', 'o', '2'],
        seq!['u', 'o', '3'], seq!['u', 'o', '4'], seq!['u', 'o', '5'], seq!['v'], seq!['v', '1'],
        seq!['v', '2'], seq!['v', '3'], seq!['v', '4'], seq!['v', '5'], seq!['v', 'a', 'n', '1'],
        seq!['v', 'a', 'n', '2'], seq!['v', 'a', 'n', '3'], seq!['v', 'a', 'n', '4'],
        seq!['v', 'a', 'n', '5'], seq!['v', 'e', '1'], seq!['v', 'e', '2'], seq!['v', 'e', '3'],
        seq!['v', 'e', '4'], seq!['v', 'e', '5'], seq!['v', 'n', '1'], seq!['v', 'n', '2'],
        seq!['v', 'n', '3'], seq!['v', 'n', '4'], seq!['v', 'n', '5'], seq!['w'], seq!['x'],
        seq!['y'], seq!['z'],
    ]
}

/// Symbols 320 to 321 of the phoneme alphabet.
pub open spec fn alphabet_part_8() -> Seq<Seq<char>> {
    seq![
        seq!['z', 'h'], seq!['…'],
    ]
}

/// The phoneme alphabet in order: punctuation, ARPA phonemes, pinyin
/// initials and toned finals; a symbol's index is its phoneme id.
#[verifier::opaque]
pub open spec fn phoneme_alphabet() -> Seq<Seq<char>> {
    alphabet_part_0() + alphabet_part_1() + alphabet_part_2() + alphabet_part_3() + alphabet_part_4() + alphabet_part_5() + alphabet_part_6() + alphabet_part_7() + alphabet_part_8()
}

fn alphabet_strings_0() -> (r: Vec<String>)
    ensures
        views(r@) == alphabet_part_0(),
{
    let r = vec![
        string_of(&vec!['!']), string_of(&vec![',']), string_of(&vec!['-']), string_of(&vec!['.']),
        string_of(&vec!['?']), string_of(&vec!['A', 'A']), string_of(&vec!['A', 'A', '0']),
        string_of(&vec!['A', 'A', '1']), string_of(&vec!['A', 'A', '2']),
        string_of(&vec!['A', 'E', '0']), string_of(&vec!['A', 'E', '1']),
        string_of(&vec!['A', 'E', '2']), string_of(&vec!['A', 'H', '0']),
        string_of(&vec!['A', 'H', '1']), string_of(&vec!['A', 'H', '2']),
        string_of(&vec!['A', 'O', '0']), string_of(&vec!['A', 'O', '1']),
        string_of(&vec!['A', 'O', '2']), string_of(&vec!['A', 'W', '0']),
        string_of(&vec!['A', 'W', '1']), string_of(&vec!['A', 'W', '2']),
        string_of(&vec!['A', 'Y', '0']), string_of(&vec!['A', 'Y', '1']),
        string_of(&vec!['A', 'Y', '2']), string_of(&vec!['B']), string_of(&vec!['C', 'H']),
        string_of(&vec!['D']), string_of(&vec!['D', 'H']), string_of(&vec!['E', '1']),
        string_of(&vec!['E', '2']), string_of(&vec!['E', '3']), string_of(&vec!['E', '4']),
        string_of(&vec!['E', '5']), string_of(&vec!['E', 'E']), string_of(&vec!['E', 'H', '0']),
        string_of(&vec!['E', 'H', '1']), string_of(&vec!['E', 'H', '2']),
        string_of(&vec!['E', 'R']), string_of(&vec!['E', 'R', '0']),
        string_of(&vec!['E', 'R', '1']),
    ];
    assert(views(r@)[0] == alphabet_part_0()[0]);
    assert(views(r@)[1] == alphabet_part_0()[1]);
    assert(views(r@)[2] == alphabet_part_0()[2]);
    assert(views(r@)[3] == alphabet_part_0()[3]);
    assert(views(r@)[4] == alphabet_part_0()[4]);
    assert(views(r@)[5] == alphabet_part_0()[5]);
    assert(views(r@)[6] == alphabet_part_0()[6]);
    assert(views(r@)[7] == alphabet_part_0()[7]);
    assert(views(r@)[8] == alphabet_part_0()[8]);
    assert(views(r@)[9] == alphabet_part_0()[9]);
    assert(views(r@)[10] == alphabet_part_0()[10]);
    assert(views(r@)[11] == alphabet_part_0()[11]);
    assert(views(r@)[12] == alphabet_part_0()[12]);
    assert(views(r@)[13] == alphabet_part_0()[13]);
    assert(views(r@)[14] == alphabet_part_0()[14]);
    assert(views(r@)[15] == alphabet_part_0()[15]);
    assert(views(r@)[16] == alphabet_part_0()[16]);
    assert(views(r@)[17] == alphabet_part_0()[17]);
    assert(views(r@)[18] == alphabet_part_0()[18]);
    assert(views(r@)[19] == alphabet_part_0()[19]);
    assert(views(r@)[20] == alphabet_part_0()[20]);
    assert(views(r@)[21] == alphabet_part_0()[21]);
    assert(views(r@)[22] == alphabet_part_0()[22]);
    assert(views(r@)[23] == alphabet_part_0()[23]);
    assert(views(r@)[24] == alphabet_part_0()[24]);
    assert(views(r@)[25] == alphabet_part_0()[25]);
    assert(views(r@)[26] == alphabet_part_0()[26]);
    assert(views(r@)[27] == alphabet_part_0()[27]);
    assert(views(r@)[28] == alphabet_part_0()[28]);
    assert(views(r@)[29] == alphabet_part_0()[29]);
    assert(views(r@)[30] == alphabet_part_0()[30]);
    assert(views(r@)[31] == alphabet_part_0()[31]);
    assert(views(r@)[32] == alphabet_part_0()[32]);
    assert(views(r@)[33] == alphabet_part_0()[33]);
    assert(views(r@)[34] == alphabet_part_0()[34]);
    assert(views(r@)[35] == alphabet_part_0()[35]);
    assert(views(r@)[36] == alphabet_part_0()[36]);
    assert(views(r@)[37] == alphabet_part_0()[37]);
    assert(views(r@)[38] == alphabet_part_0()[38]);
    assert(views(r@)[39] == alphabet_part_0()[39]);
    assert(views(r@) =~= alphabet_part_0());
    r
}

fn alphabet_strings_1() -> (r: Vec<String>)
    ensures
        views(r@) == alphabet_part_1(),
{
    let r = vec![
        string_of(&vec!['E', 'R', '2']), string_of(&vec!['E', 'Y', '0']),
        string_of(&vec!['E', 'Y', '1']), string_of(&vec!['E', 'Y', '2']),
        string_of(&vec!['E', 'n', '1']), string_of(&vec!['E', 'n', '2']),
        string_of(&vec!['E', 'n', '3']), string_of(&vec!['E', 'n', '4']),
        string_of(&vec!['E', 'n', '5']), string_of(&vec!['F']), string_of(&vec!['G']),
        string_of(&vec!['H', 'H']), string_of(&vec!['I']), string_of(&vec!['I', 'H']),
        string_of(&vec!['I', 'H', '0']), string_of(&vec!['I', 'H', '1']),
        string_of(&vec!['I', 'H', '2']), string_of(&vec!['I', 'Y', '0']),
        string_of(&vec!['I', 'Y', '1']), string_of(&vec!['I', 'Y', '2']),
        string_of(&vec!['J', 'H']), string_of(&vec!['K']), string_of(&vec!['L']),
        string_of(&vec!['M']), string_of(&vec!['N']), string_of(&vec!['N', 'G']),
        string_of(&vec!['O', 'O']), string_of(&vec!['O', 'W', '0']),
        string_of(&vec!['O', 'W', '1']), string_of(&vec!['O', 'W', '2']),
        string_of(&vec!['O', 'Y', '0']), string_of(&vec!['O', 'Y', '1']),
        string_of(&vec!['O', 'Y', '2']), string_of(&vec!['P']), string_of(&vec!['R']),
        string_of(&vec!['S']), string_of(&vec!['S', 'H']), string_of(&vec!['S', 'P']),
        string_of(&vec!['S', 'P', '2']), string_of(&vec!['S', 'P', '3']),
    ];
    assert(views(r@)[0] == alphabet_part_1()[0]);
    assert(views(r@)[1] == alphabet_part_1()[1]);
    assert(views(r@)[2] == alphabet_part_1()[2]);
    assert(views(r@)[3] == alphabet_part_1()[3]);
    assert(views(r@)[4] == alphabet_part_1()[4]);
    assert(views(r@)[5] == alphabet_part_1()[5]);
    assert(views(r@)[6] == alphabet_part_1()[6]);
    assert(views(r@)[7] == alphabet_part_1()[7]);
    assert(views(r@)[8] == alphabet_part_1()[8]);
    assert(views(r@)[9] == alphabet_part_1()[9]);
    assert(views(r@)[10] == alphabet_part_1()[10]);
    assert(views(r@)[11] == alphabet_part_1()[11]);
    assert(views(r@)[12] == alphabet_part_1()[12]);
    assert(views(r@)[13] == alphabet_part_1()[13]);
    assert(views(r@)[14] == alphabet_part_1()[14]);
    assert(views(r@)[15] == alphabet_part_1()[15]);
    assert(views(r@)[16] == alphabet_part_1()[16]);
    assert(views(r@)[17] == alphabet_part_1()[17]);
    assert(views(r@)[18] == alphabet_part_1()[18]);
    assert(views(r@)[19] == alphabet_part_1()[19]);
    assert(views(r@)[20] == alphabet_part_1()[20]);
    assert(views(r@)[21] == alphabet_part_1()[21]);
    assert(views(r@)[22] == alphabet_part_1()[22]);
    assert(views(r@)[23] == alphabet_part_1()[23]);
    assert(views(r@)[24] == alphabet_part_1()[24]);
    assert(views(r@)[25] == alphabet_part_1()[25]);
    assert(views(r@)[26] == alphabet_part_1()[26]);
    assert(views(r@)[27] == alphabet_part_1()[27]);
    assert(views(r@)[28] == alphabet_part_1()[28]);
    assert(views(r@)[29] == alphabet_part_1()[29]);
    assert(views(r@)[30] == alphabet_part_1()[30]);
    assert(views(r@)[31] == alphabet_part_1()[31]);
    assert(views(r@)[32] == alphabet_part_1()[32]);
    assert(views(r@)[33] == alphabet_part_1()[33]);
    assert(views(r@)[34] == alphabet_part_1()[34]);
    assert(views(r@)[35] == alphabet_part_1()[35]);
    assert(views(r@)[36] == alphabet_part_1()[36]);
    assert(views(r@)[37] == alphabet_part_1()[37]);
    assert(views(r@)[38] == alphabet_part_1()[38]);
    assert(views(r@)[39] == alphabet_part_1()[39]);
    assert(views(r@) =~= alphabet_part_1());
    r
}

fn alphabet_strings_2() -> (r: Vec<String>)
    ensures
        views(r@) == alphabet_part_2(),
{
    let r = vec![
        string_of(&vec!['T']), string_of(&vec!['T', 'H']), string_of(&vec!['U']),
        string_of(&vec!['U', 'H', '0']), string_of(&vec!['U', 'H', '1']),
        string_of(&vec!['U', 'H', '2']), string_of(&vec!['U', 'N', 'K']),
        string_of(&vec!['U', 'W', '0']), string_of(&vec!['U', 'W', '1']),
        string_of(&vec!['U', 'W', '2']), string_of(&vec!['V']), string_of(&vec!['W']),
        string_of(&vec!['Y']), string_of(&vec!['Z']), string_of(&vec!['Z', 'H']),
        string_of(&vec!['_']), string_of(&vec!['a']), string_of(&vec!['a', '1']),
        string_of(&vec!['a', '2']), string_of(&vec!['a', '3']), string_of(&vec!['a', '4']),
        string_of(&vec!['a', '5']), string_of(&vec!['a', 'i', '1']),
        string_of(&vec!['a', 'i', '2']), string_of(&vec!['a', 'i', '3']),
        string_of(&vec!['a', 'i', '4']), string_of(&vec!['a', 'i', '5']),
        string_of(&vec!['a', 'n', '1']), string_of(&vec!['a', 'n', '2']),
        string_of(&vec!['a', 'n', '3']), string_of(&vec!['a', 'n', '4']),
        string_of(&vec!['a', 'n', '5']), string_of(&vec!['a', 'n', 'g', '1']),
        string_of(&vec!['a', 'n', 'g', '2']), string_of(&vec!['a', 'n', 'g', '3']),
        string_of(&vec!['a', 'n', 'g', '4']), string_of(&vec!['a', 'n', 'g', '5']),
        string_of(&vec!['a', 'o', '1']), string_of(&vec!['a', 'o', '2']),
        string_of(&vec!['a', 'o', '3']),
    ];
    assert(views(r@)[0] == alphabet_part_2()[0]);
    assert(views(r@)[1] == alphabet_part_2()[1]);
    assert(views(r@)[2] == alphabet_part_2()[2]);
    assert(views(r@)[3] == alphabet_part_2()[3]);
    assert(views(r@)[4] == alphabet_part_2()[4]);
    assert(views(r@)[5] == alphabet_part_2()[5]);
    assert(views(r@)[6] == alphabet_part_2()[6]);
    assert(views(r@)[7] == alphabet_part_2()[7]);
    assert(views(r@)[8] == alphabet_part_2()[8]);
    assert(views(r@)[9] == alphabet_part_2()[9]);
    assert(views(r@)[10] == alphabet_part_2()[10]);
    assert(views(r@)[11] == alphabet_part_2()[11]);
    assert(views(r@)[12] == alphabet_part_2()[12]);
    assert(views(r@)[13] == alphabet_part_2()[13]);
    assert(views(r@)[14] == alphabet_part_2()[14]);
    assert(views(r@)[15] == alphabet_part_2()[15]);
    assert(views(r@)[16] == alphabet_part_2()[16]);
    assert(views(r@)[17] == alphabet_part_2()[17]);
    assert(views(r@)[18] == alphabet_part_2()[18]);
    assert(views(r@)[19] == alphabet_part_2()[19]);
    assert(views(r@)[20] == alphabet_part_2()[20]);
    assert(views(r@)[21] == alphabet_part_2()[21]);
    assert(views(r@)[22] == alphabet_part_2()[22]);
    assert(views(r@)[23] == alphabet_part_2()[23]);
    assert(views(r@)[24] == alphabet_part_2()[24]);
    assert(views(r@)[25] == alphabet_part_2()[25]);
    assert(views(r@)[26] == alphabet_part_2()[26]);
    assert(views(r@)[27] == alphabet_part_2()[27]);
    assert(views(r@)[28] == alphabet_part_2()[28]);
    assert(views(r@)[29] == alphabet_part_2()[29]);
    assert(views(r@)[30] == alphabet_part_2()[30]);
    assert(views(r@)[31] == alphabet_part_2()[31]);
    assert(views(r@)[32] == alphabet_part_2()[32]);
    assert(views(r@)[33] == alphabet_part_2()[33]);
    assert(views(r@)[34] == alphabet_part_2()[34]);
    assert(views(r@)[35] == alphabet_part_2()[35]);
    assert(views(r@)[36] == alphabet_part_2()[36]);
    assert(views(r@)[37] == alphabet_part_2()[37]);
    assert(views(r@)[38] == alphabet_part_2()[38]);
    assert(views(r@)[39] == alphabet_part_2()[39]);
    assert(views(r@) =~= alphabet_part_2());
    r
}

fn alphabet_strings_3() -> (r: Vec<String>)
    ensures
        views(r@) == alphabet_part_3(),
{
    let r = vec![
        string_of(&vec!['a', 'o', '4']), string_of(&vec!['a', 'o', '5']), string_of(&vec!['b']),
        string_of(&vec!['b', 'y']), string_of(&vec!['c']), string_of(&vec!['c', 'h']),
        string_of(&vec!['c', 'l']), string_of(&vec!['d']), string_of(&vec!['d', 'y']),
        string_of(&vec!['e']), string_of(&vec!['e', '1']), string_of(&vec!['e', '2']),
        string_of(&vec!['e', '3']), string_of(&vec!['e', '4']), string_of(&vec!['e', '5']),
        string_of(&vec!['e', 'i', '1']), string_of(&vec!['e', 'i', '2']),
        string_of(&vec!['e', 'i', '3']), string_of(&vec!['e', 'i', '4']),
        string_of(&vec!['e', 'i', '5']), string_of(&vec!['e', 'n', '1']),
        string_of(&vec!['e', 'n', '2']), string_of(&vec!['e', 'n', '3']),
        string_of(&vec!['e', 'n', '4']), string_of(&vec!['e', 'n', '5']),
        string_of(&vec!['e', 'n', 'g', '1']), string_of(&vec!['e', 'n', 'g', '2']),
        string_of(&vec!['e', 'n', 'g', '3']), string_of(&vec!['e', 'n', 'g', '4']),
        string_of(&vec!['e', 'n', 'g', '5']), string_of(&vec!['e', 'r', '1']),
        string_of(&vec!['e', 'r', '2']), string_of(&vec!['e', 'r', '3']),
        string_of(&vec!['e', 'r', '4']), string_of(&vec!['e', 'r', '5']), string_of(&vec!['f']),
        string_of(&vec!['g']), string_of(&vec!['g', 'y']), string_of(&vec!['h']),
        string_of(&vec!['h', 'y']),
    ];
    assert(views(r@)[0] == alphabet_part_3()[0]);
    assert(views(r@)[1] == alphabet_part_3()[1]);
    assert(views(r@)[2] == alphabet_part_3()[2]);
    assert(views(r@)[3] == alphabet_part_3()[3]);
    assert(views(r@)[4] == alphabet_part_3()[4]);
    assert(views(r@)[5] == alphabet_part_3()[5]);
    assert(views(r@)[6] == alphabet_part_3()[6]);
    assert(views(r@)[7] == alphabet_part_3()[7]);
    assert(views(r@)[8] == alphabet_part_3()[8]);
    assert(views(r@)[9] == alphabet_part_3()[9]);
    assert(views(r@)[10] == alphabet_part_3()[10]);
    assert(views(r@)[11] == alphabet_part_3()[11]);
    assert(views(r@)[12] == alphabet_part_3()[12]);
    assert(views(r@)[13] == alphabet_part_3()[13]);
    assert(views(r@)[14] == alphabet_part_3()[14]);
    assert(views(r@)[15] == alphabet_part_3()[15]);
    assert(views(r@)[16] == alphabet_part_3()[16]);
    assert(views(r@)[17] == alphabet_part_3()[17]);
    assert(views(r@)[18] == alphabet_part_3()[18]);
    assert(views(r@)[19] == alphabet_part_3()[19]);
    assert(views(r@)[20] == alphabet_part_3()[20]);
    assert(views(r@)[21] == alphabet_part_3()[21]);
    assert(views(r@)[22] == alphabet_part_3()[22]);
    assert(views(r@)[23] == alphabet_part_3()[23]);
    assert(views(r@)[24] == alphabet_part_3()[24]);
    assert(views(r@)[25] == alphabet_part_3()[25]);
    assert(views(r@)[26] == alphabet_part_3()[26]);
    assert(views(r@)[27] == alphabet_part_3()[27]);
    assert(views(r@)[28] == alphabet_part_3()[28]);
    assert(views(r@)[29] == alphabet_part_3()[29]);
    assert(views(r@)[30] == alphabet_part_3()[30]);
    assert(views(r@)[31] == alphabet_part_3()[31]);
    assert(views(r@)[32] == alphabet_part_3()[32]);
    assert(views(r@)[33] == alphabet_part_3()[33]);
    assert(views(r@)[34] == alphabet_part_3()[34]);
    assert(views(r@)[35] == alphabet_part_3()[35]);
    assert(views(r@)[36] == alphabet_part_3()[36]);
    assert(views(r@)[37] == alphabet_part_3()[37]);
    assert(views(r@)[38] == alphabet_part_3()[38]);
    assert(views(r@)[39] == alphabet_part_3()[39]);
    assert(views(r@) =~= alphabet_part_3());
    r
}

fn alphabet_strings_4() -> (r: Vec<String>)
    ensures
        views(r@) == alphabet_part_4(),
{
    let r = vec![
        string_of(&vec!['i']), string_of(&vec!['i', '0', '1']), string_of(&vec!['i', '0', '2']),
        string_of(&vec!['i', '0', '3']), string_of(&vec!['i', '0', '4']),
        string_of(&vec!['i', '0', '5']), string_of(&vec!['i', '1']), string_of(&vec!['i', '2']),
        string_of(&vec!['i', '3']), string_of(&vec!['i', '4']), string_of(&vec!['i', '5']),
        string_of(&vec!['i', 'a', '1']), string_of(&vec!['i', 'a', '2']),
        string_of(&vec!['i', 'a', '3']), string_of(&vec!['i', 'a', '4']),
        string_of(&vec!['i', 'a', '5']), string_of(&vec!['i', 'a', 'n', '1']),
        string_of(&vec!['i', 'a', 'n', '2']), string_of(&vec!['i', 'a', 'n', '3']),
        string_of(&vec!['i', 'a', 'n', '4']), string_of(&vec!['i', 'a', 'n', '5']),
        string_of(&vec!['i', 'a', 'n', 'g', '1']), string_of(&vec!['i', 'a', 'n', 'g', '2']),
        string_of(&vec!['i', 'a', 'n', 'g', '3']), string_of(&vec!['i', 'a', 'n', 'g', '4']),
        string_of(&vec!['i', 'a', 'n', 'g', '5']), string_of(&vec!['i', 'a', 'o', '1']),
        string_of(&vec!['i', 'a', 'o', '2']), string_of(&vec!['i', 'a', 'o', '3']),
        string_of(&vec!['i', 'a', 'o', '4']), string_of(&vec!['i', 'a', 'o', '5']),
        string_of(&vec!['i', 'e', '1']), string_of(&vec!['i', 'e', '2']),
        string_of(&vec!['i', 'e', '3']), string_of(&vec!['i', 'e', '4']),
        string_of(&vec!['i', 'e', '5']), string_of(&vec!['i', 'n', '1']),
        string_of(&vec!['i', 'n', '2']), string_of(&vec!['i', 'n', '3']),
        string_of(&vec!['i', 'n', '4']),
    ];
    assert(views(r@)[0] == alphabet_part_4()[0]);
    assert(views(r@)[1] == alphabet_part_4()[1]);
    assert(views(r@)[2] == alphabet_part_4()[2]);
    assert(views(r@)[3] == alphabet_part_4()[3]);
    assert(views(r@)[4] == alphabet_part_4()[4]);
    assert(views(r@)[5] == alphabet_part_4()[5]);
    assert(views(r@)[6] == alphabet_part_4()[6]);
    assert(views(r@)[7] == alphabet_part_4()[7]);
    assert(views(r@)[8] == alphabet_part_4()[8]);
    assert(views(r@)[9] == alphabet_part_4()[9]);
    assert(views(r@)[10] == alphabet_part_4()[10]);
    assert(views(r@)[11] == alphabet_part_4()[11]);
    assert(views(r@)[12] == alphabet_part_4()[12]);
    assert(views(r@)[13] == alphabet_part_4()[13]);
    assert(views(r@)[14] == alphabet_part_4()[14]);
    assert(views(r@)[15] == alphabet_part_4()[15]);
    assert(views(r@)[16] == alphabet_part_4()[16]);
    assert(views(r@)[17] == alphabet_part_4()[17]);
    assert(views(r@)[18] == alphabet_part_4()[18]);
    assert(views(r@)[19] == alphabet_part_4()[19]);
    assert(views(r@)[20] == alphabet_part_4()[20]);
    assert(views(r@)[21] == alphabet_part_4()[21]);
    assert(views(r@)[22] == alphabet_part_4()[22]);
    assert(views(r@)[23] == alphabet_part_4()[23]);
    assert(views(r@)[24] == alphabet_part_4()[24]);
    assert(views(r@)[25] == alphabet_part_4()[25]);
    assert(views(r@)[26] == alphabet_part_4()[26]);
    assert(views(r@)[27] == alphabet_part_4()[27]);
    assert(views(r@)[28] == alphabet_part_4()[28]);
    assert(views(r@)[29] == alphabet_part_4()[29]);
    assert(views(r@)[30] == alphabet_part_4()[30]);
    assert(views(r@)[31] == alphabet_part_4()[31]);
    assert(views(r@)[32] == alphabet_part_4()[32]);
    assert(views(r@)[33] == alphabet_part_4()[33]);
    assert(views(r@)[34] == alphabet_part_4()[34]);
    assert(views(r@)[35] == alphabet_part_4()[35]);
    assert(views(r@)[36] == alphabet_part_4()[36]);
    assert(views(r@)[37] == alphabet_part_4()[37]);
    assert(views(r@)[38] == alphabet_part_4()[38]);
    assert(views(r@)[39] == alphabet_part_4()[39]);
    assert(views(r@) =~= alphabet_part_4());
    r
}

fn alphabet_strings_5() -> (r: Vec<String>)
    ensures
        views(r@) == alphabet_part_5(),
{
    let r = vec![
        string_of(&vec!['i', 'n', '5']), string_of(&vec!['i', 'n', 'g', '1']),
        string_of(&vec!['i', 'n', 'g', '2']), string_of(&vec!['i', 'n', 'g', '3']),
        string_of(&vec!['i', 'n', 'g', '4']), string_of(&vec!['i', 'n', 'g', '5']),
        string_of(&vec!['i', 'o', 'n', 'g', '1']), string_of(&vec!['i', 'o', 'n', 'g', '2']),
        string_of(&vec!['i', 'o', 'n', 'g', '3']), string_of(&vec!['i', 'o', 'n', 'g', '4']),
        string_of(&vec!['i', 'o', 'n', 'g', '5']), string_of(&vec!['i', 'r', '1']),
        string_of(&vec!['i', 'r', '2']), string_of(&vec!['i', 'r', '3']),
        string_of(&vec!['i', 'r', '4']), string_of(&vec!['i', 'r', '5']),
        string_of(&vec!['i', 'u', '1']), string_of(&vec!['i', 'u', '2']),
        string_of(&vec!['i', 'u', '3']), string_of(&vec!['i', 'u', '4']),
        string_of(&vec!['i', 'u', '5']), string_of(&vec!['j']), string_of(&vec!['k']),
        string_of(&vec!['k', 'y']), string_of(&vec!['l']), string_of(&vec!['m']),
        string_of(&vec!['m', 'y']), string_of(&vec!['n']), string_of(&vec!['n', 'y']),
        string_of(&vec!['o']), string_of(&vec!['o', '1']), string_of(&vec!['o', '2']),
        string_of(&vec!['o', '3']), string_of(&vec!['o', '4']), string_of(&vec!['o', '5']),
        string_of(&vec!['o', 'n', 'g', '1']), string_of(&vec!['o', 'n', 'g', '2']),
        string_of(&vec!['o', 'n', 'g', '3']), string_of(&vec!['o', 'n', 'g', '4']),
        string_of(&vec!['o', 'n', 'g', '5']),
    ];
    assert(views(r@)[0] == alphabet_part_5()[0]);
    assert(views(r@)[1] == alphabet_part_5()[1]);
    assert(views(r@)[2] == alphabet_part_5()[2]);
    assert(views(r@)[3] == alphabet_part_5()[3]);
    assert(views(r@)[4] == alphabet_part_5()[4]);
    assert(views(r@)[5] == alphabet_part_5()[5]);
    assert(views(r@)[6] == alphabet_part_5()[6]);
    assert(views(r@)[7] == alphabet_part_5()[7]);
    assert(views(r@)[8] == alphabet_part_5()[8]);
    assert(views(r@)[9] == alphabet_part_5()[9]);
    assert(views(r@)[10] == alphabet_part_5()[10]);
    assert(views(r@)[11] == alphabet_part_5()[11]);
    assert(views(r@)[12] == alphabet_part_5()[12]);
    assert(views(r@)[13] == alphabet_part_5()[13]);
    assert(views(r@)[14] == alphabet_part_5()[14]);
    assert(views(r@)[15] == alphabet_part_5()[15]);
    assert(views(r@)[16] == alphabet_part_5()[16]);
    assert(views(r@)[17] == alphabet_part_5()[17]);
    assert(views(r@)[18] == alphabet_part_5()[18]);
    assert(views(r@)[19] == alphabet_part_5()[19]);
    assert(views(r@)[20] == alphabet_part_5()[20]);
    assert(views(r@)[21] == alphabet_part_5()[21]);
    assert(views(r@)[22] == alphabet_part_5()[22]);
    assert(views(r@)[23] == alphabet_part_5()[23]);
    assert(views(r@)[24] == alphabet_part_5()[24]);
    assert(views(r@)[25] == alphabet_part_5()[25]);
    assert(views(r@)[26] == alphabet_part_5()[26]);
    assert(views(r@)[27] == alphabet_part_5()[27]);
    assert(views(r@)[28] == alphabet_part_5()[28]);
    assert(views(r@)[29] == alphabet_part_5()[29]);
    assert(views(r@)[30] == alphabet_part_5()[30]);
    assert(views(r@)[31] == alphabet_part_5()[31]);
    assert(views(r@)[32] == alphabet_part_5()[32]);
    assert(views(r@)[33] == alphabet_part_5()[33]);
    assert(views(r@)[34] == alphabet_part_5()[34]);
    assert(views(r@)[35] == alphabet_part_5()[35]);
    assert(views(r@)[36] == alphabet_part_5()[36]);
    assert(views(r@)[37] == alphabet_part_5()[37]);
    assert(views(r@)[38] == alphabet_part_5()[38]);
    assert(views(r@)[39] == alphabet_part_5()[39]);
    assert(views(r@) =~= alphabet_part_5());
    r
}

fn alphabet_strings_6() -> (r: Vec<String>)
    ensures
        views(r@) == alphabet_part_6(),
{
    let r = vec![
        string_of(&vec!['o', 'u', '1']), string_of(&vec!['o', 'u', '2']),
        string_of(&vec!['o', 'u', '3']), string_of(&vec!['o', 'u', '4']),
        string_of(&vec!['o', 'u', '5']), string_of(&vec!['p']), string_of(&vec!['p', 'y']),
        string_of(&vec!['q']), string_of(&vec!['r']), string_of(&vec!['r', 'y']),
        string_of(&vec!['s']), string_of(&vec!['s', 'h']), string_of(&vec!['t']),
        string_of(&vec!['t', 's']), string_of(&vec!['u']), string_of(&vec!['u', '1']),
        string_of(&vec!['u', '2']), string_of(&vec!['u', '3']), string_of(&vec!['u', '4']),
        string_of(&vec!['u', '5']), string_of(&vec!['u', 'a', '1']),
        string_of(&vec!['u', 'a', '2']), string_of(&vec!['u', 'a', '3']),
        string_of(&vec!['u', 'a', '4']), string_of(&vec!['u', 'a', '5']),
        string_of(&vec!['u', 'a', 'i', '1']), string_of(&vec!['u', 'a', 'i', '2']),
        string_of(&vec!['u', 'a', 'i', '3']), string_of(&vec!['u', 'a', 'i', '4']),
        string_of(&vec!['u', 'a', 'i', '5']), string_of(&vec!['u', 'a', 'n', '1']),
        string_of(&vec!['u', 'a', 'n', '2']), string_of(&vec!['u', 'a', 'n', '3']),
        string_of(&vec!['u', 'a', 'n', '4']), string_of(&vec!['u', 'a', 'n', '5']),
        string_of(&vec!['u', 'a', 'n', 'g', '1']), string_of(&vec!['u', 'a', 'n', 'g', '2']),
        string_of(&vec!['u', 'a', 'n', 'g', '3']), string_of(&vec!['u', 'a', 'n', 'g', '4']),
        string_of(&vec!['u', 'a', 'n', 'g', '5']),
    ];
    assert(views(r@)[0] == alphabet_part_6()[0]);
    assert(views(r@)[1] == alphabet_part_6()[1]);
    assert(views(r@)[2] == alphabet_part_6()[2]);
    assert(views(r@)[3] == alphabet_part_6()[3]);
    assert(views(r@)[4] == alphabet_part_6()[4]);
    assert(views(r@)[5] == alphabet_part_6()[5]);
    assert(views(r@)[6] == alphabet_part_6()[6]);
    assert(views(r@)[7] == alphabet_part_6()[7]);
    assert(views(r@)[8] == alphabet_part_6()[8]);
    assert(views(r@)[9] == alphabet_part_6()[9]);
    assert(views(r@)[10] == alphabet_part_6()[10]);
    assert(views(r@)[11] == alphabet_part_6()[11]);
    assert(views(r@)[12] == alphabet_part_6()[12]);
    assert(views(r@)[13] == alphabet_part_6()[13]);
    assert(views(r@)[14] == alphabet_part_6()[14]);
    assert(views(r@)[15] == alphabet_part_6()[15]);
    assert(views(r@)[16] == alphabet_part_6()[16]);
    assert(views(r@)[17] == alphabet_part_6()[17]);
    assert(views(r@)[18] == alphabet_part_6()[18]);
    assert(views(r@)[19] == alphabet_part_6()[19]);
    assert(views(r@)[20] == alphabet_part_6()[20]);
    assert(views(r@)[21] == alphabet_part_6()[21]);
    assert(views(r@)[22] == alphabet_part_6()[22]);
    assert(views(r@)[23] == alphabet_part_6()[23]);
    assert(views(r@)[24] == alphabet_part_6()[24]);
    assert(views(r@)[25] == alphabet_part_6()[25]);
    assert(views(r@)[26] == alphabet_part_6()[26]);
    assert(views(r@)[27] == alphabet_part_6()[27]);
    assert(views(r@)[28] == alphabet_part_6()[28]);
    assert(views(r@)[29] == alphabet_part_6()[29]);
    assert(views(r@)[30] == alphabet_part_6()[30]);
    assert(views(r@)[31] == alphabet_part_6()[31]);
    assert(views(r@)[32] == alphabet_part_6()[32]);
    assert(views(r@)[33] == alphabet_part_6()[33]);
    assert(views(r@)[34] == alphabet_part_6()[34]);
    assert(views(r@)[35] == alphabet_part_6()[35]);
    assert(views(r@)[36] == alphabet_part_6()[36]);
    assert(views(r@)[37] == alphabet_part_6()[37]);
    assert(views(r@)[38] == alphabet_part_6()[38]);
    assert(views(r@)[39] == alphabet_part_6()[39]);
    assert(views(r@) =~= alphabet_part_6());
    r
}

fn alphabet_strings_7() -> (r: Vec<String>)
    ensures
        views(r@) == alphabet_part_7(),
{
    let r = vec![
        string_of(&vec!['u', 'i', '1']), string_of(&vec!['u', 'i', '2']),
        string_of(&vec!['u', 'i', '3']), string_of(&vec!['u', 'i', '4']),
        string_of(&vec!['u', 'i', '5']), string_of(&vec!['u', 'n', '1']),
        string_of(&vec!['u', 'n', '2']), string_of(&vec!['u', 'n', '3']),
        string_of(&vec!['u', 'n', '4']), string_of(&vec!['u', 'n', '5']),
        string_of(&vec!['u', 'o', '1']), string_of(&vec!['u', 'o', '2']),
        string_of(&vec!['u', 'o', '3']), string_of(&vec!['u', 'o', '4']),
        string_of(&vec!['u', 'o', '5']), string_of(&vec!['v']), string_of(&vec!['v', '1']),
        string_of(&vec!['v', '2']), string_of(&vec!['v', '3']), string_of(&vec!['v', '4']),
        string_of(&vec!['v', '5']), string_of(&vec!['v', 'a', 'n', '1']),
        string_of(&vec!['v', 'a', 'n', '2']), string_of(&vec!['v', 'a', 'n', '3']),
        string_of(&vec!['v', 'a', 'n', '4']), string_of(&vec!['v', 'a', 'n', '5']),
        string_of(&vec!['v', 'e', '1']), string_of(&vec!['v', 'e', '2']),
        string_of(&vec!['v', 'e', '3']), string_of(&vec!['v', 'e', '4']),
        string_of(&vec!['v', 'e', '5']), string_of(&vec!['v', 'n', '1']),
        string_of(&vec!['v', 'n', '2']), string_of(&vec!['v', 'n', '3']),
        string_of(&vec!['v', 'n', '4']), string_of(&vec!['v', 'n', '5']), string_of(&vec!['w']),
        string_of(&vec!['x']), string_of(&vec!['y']), string_of(&vec!['z']),
    ];
    assert(views(r@)[0] == alphabet_part_7()[0]);
    assert(views(r@)[1] == alphabet_part_7()[1]);
    assert(views(r@)[2] == alphabet_part_7()[2]);
    assert(views(r@)[3] == alphabet_part_7()[3]);
    assert(views(r@)[4] == alphabet_part_7()[4]);
    assert(views(r@)[5] == alphabet_part_7()[5]);
    assert(views(r@)[6] == alphabet_part_7()[6]);
    assert(views(r@)[7] == alphabet_part_7()[7]);
    assert(views(r@)[8] == alphabet_part_7()[8]);
    assert(views(r@)[9] == alphabet_part_7()[9]);
    assert(views(r@)[10] == alphabet_part_7()[10]);
    assert(views(r@)[11] == alphabet_part_7()[11]);
    assert(views(r@)[12] == alphabet_part_7()[12]);
    assert(views(r@)[13] == alphabet_part_7()[13]);
    assert(views(r@)[14] == alphabet_part_7()[14]);
    assert(views(r@)[15] == alphabet_part_7()[15]);
    assert(views(r@)[16] == alphabet_part_7()[16]);
    assert(views(r@)[17] == alphabet_part_7()[17]);
    assert(views(r@)[18] == alphabet_part_7()[18]);
    assert(views(r@)[19] == alphabet_part_7()[19]);
    assert(views(r@)[20] == alphabet_part_7()[20]);
    assert(views(r@)[21] == alphabet_part_7()[21]);
    assert(views(r@)[22] == alphabet_part_7()[22]);
    assert(views(r@)[23] == alphabet_part_7()[23]);
    assert(views(r@)[24] == alphabet_part_7()[24]);
    assert(views(r@)[25] == alphabet_part_7()[25]);
    assert(views(r@)[26] == alphabet_part_7()[26]);
    assert(views(r@)[27] == alphabet_part_7()[27]);
    assert(views(r@)[28] == alphabet_part_7()[28]);
    assert(views(r@)[29] == alphabet_part_7()[29]);
    assert(views(r@)[30] == alphabet_part_7()[30]);
    assert(views(r@)[31] == alphabet_part_7()[31]);
    assert(views(r@)[32] == alphabet_part_7()[32]);
    assert(views(r@)[33] == alphabet_part_7()[33]);
    assert(views(r@)[34] == alphabet_part_7()[34]);
    assert(views(r@)[35] == alphabet_part_7()[35]);
    assert(views(r@)[36] == alphabet_part_7()[36]);
    assert(views(r@)[37] == alphabet_part_7()[37]);
    assert(views(r@)[38] == alphabet_part_7()[38]);
    assert(views(r@)[39] == alphabet_part_7()[39]);
    assert(views(r@) =~= alphabet_part_7());
    r
}

fn alphabet_strings_8() -> (r: Vec<String>)
    ensures
        views(r@) == alphabet_part_8(),
{
    let r = vec![
        string_of(&vec!['z', 'h']), string_of(&vec!['…']),
    ];
    assert(views(r@)[0] == alphabet_part_8()[0]);
    assert(views(r@)[1] == alphabet_part_8()[1]);
    assert(views(r@) =~= alphabet_part_8());
    r
}

/// The comma and the hyphen are symbols 1 and 2 of the alphabet.
pub proof fn lemma_alphabet_punctuation()
    ensures
        phoneme_alphabet()[1] == seq![','],
        phoneme_alphabet()[2] == seq!['-'],
        phoneme_alphabet().contains(seq![',']),
        phoneme_alphabet().contains(seq!['-']),
{
    reveal(phoneme_alphabet);
    assert(alphabet_part_0()[1] == seq![',']);
    assert(alphabet_part_0()[2] == seq!['-']);
    assert((alphabet_part_0() + alphabet_part_1())[1] == alphabet_part_0()[1] && (alphabet_part_0() + alphabet_part_1())[2] == alphabet_part_0()[2]);
    assert((alphabet_part_0() + alphabet_part_1() + alphabet_part_2())[1] == alphabet_part_0()[1] && (alphabet_part_0() + alphabet_part_1() + alphabet_part_2())[2] == alphabet_part_0()[2]);
    assert((alphabet_part_0() + alphabet_part_1() + alphabet_part_2() + alphabet_part_3())[1] == alphabet_part_0()[1] && (alphabet_part_0() + alphabet_part_1() + alphabet_part_2() + alphabet_part_3())[2] == alphabet_part_0()[2]);
    assert((alphabet_part_0() + alphabet_part_1() + alphabet_part_2() + alphabet_part_3() + alphabet_part_4())[1] == alphabet_part_0()[1] && (alphabet_part_0() + alphabet_part_1() + alphabet_part_2() + alphabet_part_3() + alphabet_part_4())[2] == alphabet_part_0()[2]);
    assert((alphabet_part_0() + alphabet_part_1() + alphabet_part_2() + alphabet_part_3() + alphabet_part_4() + alphabet_part_5())[1] == alphabet_part_0()[1] && (alphabet_part_0() + alphabet_part_1() + alphabet_part_2() + alphabet_part_3() + alphabet_part_4() + alphabet_part_5())[2] == alphabet_part_0()[2]);
    assert((alphabet_part_0() + alphabet_part_1() + alphabet_part_2() + alphabet_part_3() + alphabet_part_4() + alphabet_part_5() + alphabet_part_6())[1] == alphabet_part_0()[1] && (alphabet_part_0() + alphabet_part_1() + alphabet_part_2() + alphabet_part_3() + alphabet_part_4() + alphabet_part_5() + alphabet_part_6())[2] == alphabet_part_0()[2]);
    assert((alphabet_part_0() + alphabet_part_1() + alphabet_part_2() + alphabet_part_3() + alphabet_part_4() + alphabet_part_5() + alphabet_part_6() + alphabet_part_7())[1] == alphabet_part_0()[1] && (alphabet_part_0() + alphabet_part_1() + alphabet_part_2() + alphabet_part_3() + alphabet_part_4() + alphabet_part_5() + alphabet_part_6() + alphabet_part_7())[2] == alphabet_part_0()[2]);
    assert((alphabet_part_0() + alphabet_part_1() + alphabet_part_2() + alphabet_part_3() + alphabet_part_4() + alphabet_part_5() + alphabet_part_6() + alphabet_part_7() + alphabet_part_8())[1] == alphabet_part_0()[1] && (alphabet_part_0() + alphabet_part_1() + alphabet_part_2() + alphabet_part_3() + alphabet_part_4() + alphabet_part_5() + alphabet_part_6() + alphabet_part_7() + alphabet_part_8())[2] == alphabet_part_0()[2]);
}

proof fn lemma_views_concat(a: Seq<String>, b: Seq<String>)
    ensures
        views(a + b) == views(a) + views(b),
{
    assert(views(a + b) =~= views(a) + views(b));
}

pub proof fn lemma_views_concat_pub(a: Seq<String>, b: Seq<String>)
    ensures
        views(a + b) == views(a) + views(b),
{
    lemma_views_concat(a, b);
}

fn append_strings(v: &mut Vec<String>, w: Vec<String>)
    ensures
        final(v)@ == old(v)@ + w@,
{
    let mut w = w;
    v.append(&mut w);
}

/// The ordered phoneme alphabet; a symbol's index is its phoneme id.
pub struct SymbolTable {
    pub symbols: Vec<String>,
}

impl SymbolTable {
    /// The alphabet of 322 symbols (see `phoneme_alphabet`).
    #[verifier::rlimit(50)]
    pub fn new() -> (r: Self)
        ensures
            views(r.symbols@) == phoneme_alphabet(),
            r.symbols.len() == N_SYMBOLS,
    {
        reveal(phoneme_alphabet);
        let mut symbols: Vec<String> = Vec::new();
        assert(views(symbols@) =~= Seq::<Seq<char>>::empty());
        let part = alphabet_strings_0();
        proof {
            lemma_views_concat(symbols@, part@);
        }
        append_strings(&mut symbols, part);
        assert(views(symbols@) == alphabet_part_0());
        let part = alphabet_strings_1();
        proof {
            lemma_views_concat(symbols@, part@);
        }
        append_strings(&mut symbols, part);
        assert(views(symbols@) == alphabet_part_0() + alphabet_part_1());
        let part = alphabet_strings_2();
        proof {
            lemma_views_concat(symbols@, part@);
        }
        append_strings(&mut symbols, part);
        assert(views(symbols@) == alphabet_part_0() + alphabet_part_1() + alphabet_part_2());
        let part = alphabet_strings_3();
        proof {
            lemma_views_concat(symbols@, part@);
        }
        append_strings(&mut symbols, part);
        assert(views(symbols@) == alphabet_part_0() + alphabet_part_1() + alphabet_part_2() + alphabet_part_3());
        let part = alphabet_strings_4();
        proof {
            lemma_views_concat(symbols@, part@);
        }
        append_strings(&mut symbols, part);
        assert(views(symbols@) == alphabet_part_0() + alphabet_part_1() + alphabet_part_2() + alphabet_part_3() + alphabet_part_4());
        let part = alphabet_strings_5();
        proof {
            lemma_views_concat(symbols@, part@);
        }
        append_strings(&mut symbols, part);
        assert(views(symbols@) == alphabet_part_0() + alphabet_part_1() + alphabet_part_2() + alphabet_part_3() + alphabet_part_4() + alphabet_part_5());
        let part = alphabet_strings_6();
        proof {
            lemma_views_concat(symbols@, part@);
        }
        append_strings(&mut symbols, part);
        assert(views(symbols@) == alphabet_part_0() + alphabet_part_1() + alphabet_part_2() + alphabet_part_3() + alphabet_part_4() + alphabet_part_5() + alphabet_part_6());
        let part = alphabet_strings_7();
        proof {
            lemma_views_concat(symbols@, part@);
        }
        append_strings(&mut symbols, part);
        assert(views(symbols@) == alphabet_part_0() + alphabet_part_1() + alphabet_part_2() + alphabet_part_3() + alphabet_part_4() + alphabet_part_5() + alphabet_part_6() + alphabet_part_7());
        let part = alphabet_strings_8();
        proof {
            lemma_views_concat(symbols@, part@);
        }
        append_strings(&mut symbols, part);
        assert(views(symbols@) == alphabet_part_0() + alphabet_part_1() + alphabet_part_2() + alphabet_part_3() + alphabet_part_4() + alphabet_part_5() + alphabet_part_6() + alphabet_part_7() + alphabet_part_8());
        SymbolTable { symbols }
    }

    /// The phoneme id of a symbol (see `symbol_id`).
    pub fn id_of(&self, symbol: &str) -> (r: usize)
        requires
            self.symbols.len() > 0,
        ensures
            r as int == symbol_id(views(self.symbols@), symbol@),
            r < self.symbols.len(),
    {
        let ghost t = views(self.symbols@);
        let mut k: usize = 0;
        let s = chars_of(symbol);
        while k < self.symbols.len()
            invariant
                t == views(self.symbols@),
                s@ == symbol@,
                k <= self.symbols.len(),
                symbol_id(t, s@) == first_index_from(t, s@, k as int),
            decreases self.symbols.len() - k,
        {
            assert(t[k as int] == self.symbols@[k as int]@);
            if crate::mmseg::chars_equal(&chars_of(self.symbols[k].as_str()), &s) {
                proof {
                    lemma_first_index_bound(t, s@, 0);
                }
                return k;
            }
            k += 1;
        }
        proof {
            lemma_first_index_bound(t, s@, 0);
        }
        0
    }

    /// The phoneme ids of a sequence of symbols.
    pub fn cleaned_text_to_sequence(&self, cleaned_texts: &Vec<String>) -> (r: Vec<usize>)
        requires
            self.symbols.len() == N_SYMBOLS,
        ensures
            r.len() == cleaned_texts.len(),
            forall|i: int| 0 <= i < r.len() ==> (#[trigger] r[i]) as int == symbol_id(views(self.symbols@), cleaned_texts@[i]@),
            forall|i: int| 0 <= i < r.len() ==> #[trigger] r[i] < N_SYMBOLS,
    {
        let mut r: Vec<usize> = Vec::new();
        let mut i: usize = 0;
        while i < cleaned_texts.len()
            invariant
                self.symbols.len() == N_SYMBOLS,
                i <= cleaned_texts.len(),
                r.len() == i,
                forall|k: int| 0 <= k < i ==> (#[trigger] r[k]) as int == symbol_id(views(self.symbols@), cleaned_texts@[k]@),
                forall|k: int| 0 <= k < i ==> #[trigger] r[k] < N_SYMBOLS,
            decreases cleaned_texts.len() - i,
        {
            let id = self.id_of(cleaned_texts[i].as_str());
            r.push(id);
            i += 1;
        }
        r
    }
}

/// The language of a span of text.
#[derive(Clone, Copy, PartialEq, Eq, Debug, Structural)]
pub enum Lang {
    Chinese,
    English,
    Japanese,
}

/// The text of the first piece of a span with its heading mark: `。`
/// before Chinese and `. ` before English, unless the text starts with a
/// number character; other pieces are unchanged.
pub open spec fn titled(text: Seq<char>, lang: Lang, first: bool) -> Seq<char> {
    if first && text.len() > 0 && !crate::tone_sandhi::numeric(text[0]) {
        if lang == Lang::Chinese {
            seq!['。'] + text
        } else if lang == Lang::English {
            seq!['.', ' '] + text
        } else {
            text
        }
    } else {
        text
    }
}

/// Adds the heading mark to the first piece of a span (see `titled`).
pub fn with_title(text: &str, lang: Lang, first: bool) -> (r: String)
    ensures
        r@ == titled(text@, lang, first),
{
    let v = chars_of(text);
    if first && v.len() > 0 && !crate::tone_sandhi::char_is_numeric(v[0]) {
        let mut out: Vec<char> = Vec::new();
        if lang == Lang::Chinese {
            out.push('。');
        } else if lang == Lang::English {
            out.push('.');
            out.push(' ');
        }
        crate::chars::extend_chars(&mut out, &v);
        assert(lang == Lang::Japanese ==> out@ =~= v@);
        crate::chars::string_of(&out)
    } else {
        crate::chars::string_of(&v)
    }
}

/// Sum of a sequence of counts.
pub open spec fn total(s: Seq<usize>) -> int
    decreases s.len(),
{
    if s.len() == 0 { 0 } else { total(s.drop_last()) + s.last() }
}

pub proof fn lemma_total_concat(a: Seq<usize>, b: Seq<usize>)
    ensures
        total(a + b) == total(a) + total(b),
    decreases b.len(),
{
    if b.len() > 0 {
        lemma_total_concat(a, b.drop_last());
        assert((a + b).drop_last() == a + b.drop_last());
    } else {
        assert(a + b == a);
    }
}

/// Whether a span's phonemes and word counts agree with its language: for
/// Chinese the counts add up to the number of phonemes, for other
/// languages there are no counts; every phoneme id is in the alphabet.
pub open spec fn span_ok(phones: Seq<usize>, word2ph: Seq<usize>, lang: Lang) -> bool {
    &&& lang == Lang::Chinese ==> total(word2ph) == phones.len()
    &&& lang != Lang::Chinese ==> word2ph.len() == 0
    &&& forall|k: int| 0 <= k < phones.len() ==> #[trigger] phones[k] < N_SYMBOLS
}

/// Whether a string holds a character other than white space.
pub open spec fn visible(s: Seq<char>) -> bool {
    exists|k: int| 0 <= k < s.len() && !whitespace(s[k])
}

/// Whether a string holds a character other than white space (see `visible`).
pub fn has_visible_pub(s: &String) -> (r: bool)
    ensures
        r == visible(s@),
{
    has_visible(s)
}

fn has_visible(s: &String) -> (r: bool)
    ensures
        r == visible(s@),
{
    let v = chars_of(s.as_str());
    let mut i: usize = 0;
    while i < v.len()
        invariant
            v@ == s@,
            i <= v.len(),
            forall|k: int| 0 <= k < i ==> whitespace(v@[k]),
        decreases v.len() - i,
    {
        if !crate::phonecode::char_is_whitespace(v[i]) {
            return true;
        }
        i += 1;
    }
    false
}

/// The phonemes of a text, span by span: phoneme ids, the number of
/// phonemes of each token the text encoder sees, the language and the
/// normalised string of each span.
pub struct CleanedText {
    pub phones_list: Vec<Vec<usize>>,
    pub word2ph_list: Vec<Vec<usize>>,
    pub lang_list: Vec<Lang>,
    pub norm_text_list: Vec<String>,
}

impl CleanedText {
    /// The four lists have one entry per span, every span agrees with its
    /// language, no two neighbouring spans have the same language, and no
    /// span has a blank normalised text.
    pub open spec fn wf(&self) -> bool {
        &&& self.word2ph_list.len() == self.phones_list.len()
        &&& self.lang_list.len() == self.phones_list.len()
        &&& self.norm_text_list.len() == self.phones_list.len()
        &&& forall|i: int| 0 <= i < self.phones_list.len() ==> span_ok(
            (#[trigger] self.phones_list[i])@, self.word2ph_list[i]@, self.lang_list[i])
        &&& forall|i: int| 0 < i < self.lang_list.len() ==> #[trigger] self.lang_list[i] != self.lang_list[i - 1]
        &&& forall|i: int| 0 <= i < self.norm_text_list.len() ==> visible((#[trigger] self.norm_text_list[i])@)
    }

    /// Every span has at least one phoneme.
    pub open spec fn voiced(&self) -> bool {
        forall|i: int| 0 <= i < self.phones_list.len() ==> (#[trigger] self.phones_list[i]).len() >= 1
    }

    /// A record of no span.
    pub fn new() -> (r: Self)
        ensures
            r.wf(),
            r.voiced(),
            r.phones_list.len() == 0,
    {
        CleanedText { phones_list: Vec::new(), word2ph_list: Vec::new(), lang_list: Vec::new(), norm_text_list: Vec::new() }
    }

    /// Adds a span: one of the same language as the last span is appended
    /// to it; another is added as a new span when its normalised string is
    /// not blank, and dropped otherwise.
    pub fn push_span(&mut self, phones: Vec<usize>, word2ph: Vec<usize>, lang: Lang, norm: String)
        requires
            old(self).wf(),
            span_ok(phones@, word2ph@, lang),
        ensures
            final(self).wf(),
            old(self).voiced() && phones.len() >= 1 ==> final(self).voiced(),
            ({
                let n = old(self).phones_list.len();
                if n > 0 && old(self).lang_list@[n - 1] == lang {
                    &&& final(self).phones_list.len() == n
                    &&& final(self).lang_list@ == old(self).lang_list@
                    &&& final(self).phones_list@[n - 1]@ == old(self).phones_list@[n - 1]@ + phones@
                    &&& final(self).word2ph_list@[n - 1]@ == old(self).word2ph_list@[n - 1]@ + word2ph@
                    &&& final(self).norm_text_list@[n - 1]@ == old(self).norm_text_list@[n - 1]@ + norm@
                    &&& forall|i: int| 0 <= i < n - 1 ==> #[trigger] final(self).phones_list@[i] == old(self).phones_list@[i]
                    &&& forall|i: int| 0 <= i < n - 1 ==> #[trigger] final(self).word2ph_list@[i] == old(self).word2ph_list@[i]
                    &&& forall|i: int| 0 <= i < n - 1 ==> #[trigger] final(self).norm_text_list@[i] == old(self).norm_text_list@[i]
                } else if visible(norm@) {
                    &&& final(self).phones_list@ == old(self).phones_list@.push(phones)
                    &&& final(self).word2ph_list@ == old(self).word2ph_list@.push(word2ph)
                    &&& final(self).lang_list@ == old(self).lang_list@.push(lang)
                    &&& final(self).norm_text_list@ == old(self).norm_text_list@.push(norm)
                } else {
                    &&& final(self).phones_list@ == old(self).phones_list@
                    &&& final(self).word2ph_list@ == old(self).word2ph_list@
                    &&& final(self).lang_list@ == old(self).lang_list@
                    &&& final(self).norm_text_list@ == old(self).norm_text_list@
                }
            }),
    {
        let n = self.phones_list.len();
        if n > 0 && self.lang_list[n - 1] == lang {
            let ghost old_w = self.word2ph_list@[n - 1]@;
            let ghost old_p = self.phones_list@[n - 1]@;
            let mut p = self.phones_list.pop().unwrap();
            let mut w = self.word2ph_list.pop().unwrap();
            let t = self.norm_text_list.pop().unwrap();
            assert(visible(t@)) by {
                assert(t == old(self).norm_text_list@[n - 1]);
            }
            let mut i: usize = 0;
            while i < phones.len()
                invariant
                    i <= phones.len(),
                    p@ == old_p + phones@.subrange(0, i as int),
                decreases phones.len() - i,
            {
                p.push(phones[i]);
                i += 1;
                assert(phones@.subrange(0, i as int) == phones@.subrange(0, i - 1).push(phones@[i - 1]));
            }
            assert(phones@.subrange(0, phones.len() as int) == phones@);
            let mut j: usize = 0;
            while j < word2ph.len()
                invariant
                    j <= word2ph.len(),
                    w@ == old_w + word2ph@.subrange(0, j as int),
                decreases word2ph.len() - j,
            {
                w.push(word2ph[j]);
                j += 1;
                assert(word2ph@.subrange(0, j as int) == word2ph@.subrange(0, j - 1).push(word2ph@[j - 1]));
            }
            assert(word2ph@.subrange(0, word2ph.len() as int) == word2ph@);
            let mut tv = chars_of(t.as_str());
            let nv = chars_of(norm.as_str());
            crate::chars::extend_chars(&mut tv, &nv);
            let t2 = crate::chars::string_of(&tv);
            proof {
                lemma_total_concat(old_w, word2ph@);
                assert forall|k: int| 0 <= k < p@.len() implies #[trigger] p@[k] < N_SYMBOLS by {
                    if k >= old_p.len() {
                        assert(p@[k] == phones@[k - old_p.len()]);
                    }
                }
            }
            self.phones_list.push(p);
            self.word2ph_list.push(w);
            self.norm_text_list.push(t2);
            proof {
                assert(visible(t2@)) by {
                    let k = choose|k: int| 0 <= k < t@.len() && !whitespace(t@[k]);
                    assert(t2@[k] == t@[k]);
                }
                assert forall|i: int| 0 <= i < self.norm_text_list.len() implies visible((#[trigger] self.norm_text_list[i])@) by {
                    if i < n - 1 {
                        assert(self.norm_text_list[i] == old(self).norm_text_list[i]);
                    }
                }
                assert(span_ok(self.phones_list@[n - 1]@, self.word2ph_list@[n - 1]@, self.lang_list@[n - 1]));
                assert forall|i: int| 0 <= i < self.phones_list.len() implies span_ok(
                    (#[trigger] self.phones_list[i])@, self.word2ph_list[i]@, self.lang_list[i]) by {
                    if i < n - 1 {
                        assert(self.phones_list[i] == old(self).phones_list[i]);
                        assert(self.word2ph_list[i] == old(self).word2ph_list[i]);
                    }
                }
            }
        } else if has_visible(&norm) {
            self.phones_list.push(phones);
            self.word2ph_list.push(word2ph);
            self.lang_list.push(lang);
            self.norm_text_list.push(norm);
            proof {
                assert forall|i: int| 0 <= i < self.norm_text_list.len() implies visible((#[trigger] self.norm_text_list[i])@) by {
                    if i < n {
                        assert(self.norm_text_list[i] == old(self).norm_text_list[i]);
                    }
                }
                assert forall|i: int| 0 <= i < self.phones_list.len() implies span_ok(
                    (#[trigger] self.phones_list[i])@, self.word2ph_list[i]@, self.lang_list[i]) by {
                    if i < n {
                        assert(self.phones_list[i] == old(self).phones_list[i]);
                        assert(self.word2ph_list[i] == old(self).word2ph_list[i]);
                        assert(self.lang_list[i] == old(self).lang_list[i]);
                    }
                }
                assert forall|i: int| 0 < i < self.lang_list.len() implies #[trigger] self.lang_list[i] != self.lang_list[i - 1] by {
                    if i < n {
                        assert(self.lang_list[i] == old(self).lang_list[i]);
                        assert(self.lang_list[i - 1] == old(self).lang_list[i - 1]);
                    }
                }
            }
        }
    }
}

} // verus!
