use sovits::chinese_g2p::syllables_to_phones;

fn strings(items: &[&str]) -> Vec<String> {
    items.iter().map(|s| s.to_string()).collect()
}

fn table() -> Vec<(String, Vec<String>)> {
    vec![
        ("shui".to_string(), strings(&["sh", "uei"])),
        ("guo".to_string(), strings(&["g", "uo"])),
        ("yi".to_string(), strings(&["y", "i"])),
        ("yu".to_string(), strings(&["y", "v"])),
        ("bu".to_string(), strings(&["b", "u"])),
    ]
}

#[test]
fn syllables_become_atom_pairs() {
    let (phones, word2ph) = syllables_to_phones(
        &strings(&["sh", "g", ",", "", "", "b"]),
        &strings(&["uei2", "uo3", ",", "i1", "v4", "u4"]),
        &table(),
    );
    assert_eq!(phones, strings(&["sh", "uei2", "g", "uo3", ",", "y", "i1", "y", "v4", "b", "u4"]));
    assert_eq!(word2ph, vec![2, 2, 1, 2, 2, 2]);
    assert_eq!(word2ph.iter().sum::<usize>(), phones.len());
}

#[test]
fn unknown_syllables_are_skipped() {
    let (phones, word2ph) = syllables_to_phones(&strings(&["zh", "b"]), &strings(&["ong1", "u4"]), &table());
    assert_eq!(phones, strings(&["b", "u4"]));
    assert_eq!(word2ph, vec![2]);
}
