use sovits::chinese_g2p::ChineseG2p;
use sovits::lazy_pinyin::LazyPinyin;
use sovits::pinyin::Style;

fn strings(items: &[&str]) -> Vec<String> {
    items.iter().map(|s| s.to_string()).collect()
}

fn engine() -> LazyPinyin {
    LazyPinyin::new(
        vec![("你好".to_string(), vec![strings(&["nǐ"]), strings(&["hǎo"])])],
        vec![('我', strings(&["wǒ"])), ('们', strings(&["men", "mén"]))],
    )
}

#[test]
fn pinyin_of_phrases_and_characters() {
    let lp = engine();
    assert_eq!(lp.lazy_pinyin("你好", Style::InitialsTone3, true), vec![strings(&["i3"]), strings(&["ao3"])]);
    assert_eq!(lp.lazy_pinyin("你好", Style::Initials, true), vec![strings(&["n"]), strings(&["h"])]);
    assert_eq!(lp.lazy_pinyin("我们", Style::InitialsTone3, true), vec![strings(&["uo3"]), strings(&["en5"])]);
    // The crate's reading carries the tone after the vowel (zho1ng), which is
    // no final of the scheme, so the fallback leaves only the neutral tone.
    assert_eq!(lp.lazy_pinyin("中", Style::InitialsTone3, true), vec![strings(&["5"])]);
    assert_eq!(lp.lazy_pinyin("中", Style::Initials, true), vec![strings(&["zh"])]);
    assert_eq!(lp.lazy_pinyin("!", Style::Initials, true), vec![strings(&["!"])]);
}

#[test]
fn chinese_sentences_to_phonemes() {
    let table = vec![
        ("ni".to_string(), strings(&["n", "i"])),
        ("hao".to_string(), strings(&["h", "ao"])),
    ];
    let g2p = ChineseG2p::new(engine(), table);
    let (phones, word2ph) = g2p.g2p_segments(&strings(&["你好!"]));
    assert_eq!(phones, strings(&["n", "i2", "h", "ao3", "!"]));
    assert_eq!(word2ph, vec![2, 2, 1]);
    assert_eq!(word2ph.iter().sum::<usize>(), phones.len());
}

#[test]
fn normalised_text_is_cut_into_pieces() {
    let table = vec![
        ("ni".to_string(), strings(&["n", "i"])),
        ("hao".to_string(), strings(&["h", "ao"])),
    ];
    let g2p = ChineseG2p::new(engine(), table);
    let (phones, word2ph) = g2p.g2p("你好,你好.");
    assert_eq!(phones, strings(&["n", "i2", "h", "ao3", ",", "n", "i2", "h", "ao3", "."]));
    assert_eq!(word2ph, vec![2, 2, 1, 2, 2, 1]);
}
