use sovits::pinyin::{
    convert_finals, convert_style, convert_styles, get_finals, get_initials, post_convert_style,
    replace_symbol_to_no_symbol, replace_symbol_to_number, to_finals, to_initials_tone3, Style,
};

#[test]
fn test_common_pinyin() {
    assert_eq!(convert_finals("niu"), "niou");
    assert_eq!(convert_finals("gui"), "guei");
    assert_eq!(convert_finals("lun"), "luen");
    assert_eq!(convert_finals("ju"), "jü");
    assert_eq!(convert_finals("qu"), "qü");
    assert_eq!(convert_finals("xu"), "xü");
}

#[test]
fn test_zero_consonant() {
    assert_eq!(convert_finals("you"), "iou");
    assert_eq!(convert_finals("wu"), "u");
    assert_eq!(convert_finals("yi"), "i");
    assert_eq!(convert_finals("ya"), "ia");
    assert_eq!(convert_finals("we"), "we");
}

#[test]
fn test_special_cases() {
    assert_eq!(convert_finals("yue"), "üe");
    assert_eq!(convert_finals("yuan"), "üan");
    assert_eq!(convert_finals("lü"), "lü");
    assert_eq!(convert_finals("nü"), "nü");
}

#[test]
fn convert_test_edge_cases() {
    assert_eq!(convert_finals(""), "");
    assert_eq!(convert_finals("a"), "a");
    assert_eq!(convert_finals("i"), "i");
    assert_eq!(convert_finals("u"), "u");
    assert_eq!(convert_finals("zzz"), "zzz");
}

#[test]
fn test_mixed_cases() {
    assert_eq!(convert_finals("jia"), "jia");
    assert_eq!(convert_finals("yan"), "ian");
    assert_eq!(convert_finals("wun"), "wuen");
    assert_eq!(convert_finals("jui"), "jüi");
    assert_eq!(convert_finals("xun"), "xün");
}

#[test]
fn test_replace_symbol_to_number() {
    assert_eq!(replace_symbol_to_number("zhōng"), "zho1ng");
    assert_eq!(replace_symbol_to_number("guó"), "guo2");
    assert_eq!(replace_symbol_to_number("wǒ"), "wo3");
    assert_eq!(replace_symbol_to_number("m̀"), "m4");
    assert_eq!(replace_symbol_to_number("ê̄"), "ê1");
    assert_eq!(replace_symbol_to_number(""), "");
    assert_eq!(replace_symbol_to_number("zhōng guó"), "zho1ng guo2");
}

#[test]
fn test_replace_symbol_to_no_symbol() {
    assert_eq!(replace_symbol_to_no_symbol("zhōng"), "zhong");
    assert_eq!(replace_symbol_to_no_symbol("guó"), "guo");
    assert_eq!(replace_symbol_to_no_symbol("zhōng5"), "zhong");
    assert_eq!(replace_symbol_to_no_symbol("m̀"), "m");
}

#[test]
fn test_get_initials() {
    assert_eq!(get_initials("zhong", true), "zh");
    assert_eq!(get_initials("guo", true), "g");
    assert_eq!(get_initials("ying", false), "y");
    assert_eq!(get_initials("ying", true), "");
    assert_eq!(get_initials("wu", false), "w");
    assert_eq!(get_initials("wu", true), "");
    assert_eq!(get_initials("a", true), "");
}

#[test]
fn test_get_finals() {
    assert_eq!(get_finals("zhong", true), "ong");
    assert_eq!(get_finals("guo", true), "uo");
    assert_eq!(get_finals("ying", false), "ing");
    assert_eq!(get_finals("wu", true), "u");
    assert_eq!(get_finals("a", true), "a");
}

#[test]
fn test_to_finals() {
    assert_eq!(to_finals("zhōng", true, true), "ong");
    assert_eq!(to_finals("guó", true, true), "uo");
    assert_eq!(to_finals("ying", false, true), "ing");
    assert_eq!(to_finals("wu", true, true), "u");
    assert_eq!(to_finals("a", true, true), "a");
    assert_eq!(to_finals("xǘe", true, true), "üe");
    assert_eq!(to_finals("xǘe", true, false), "ve");
}

#[test]
fn test_to_initials_tone3() {
    assert_eq!(to_initials_tone3("zhōng", true, true, true), "ong1");
    assert_eq!(to_initials_tone3("guó", true, true, false), "uo2");
    assert_eq!(to_initials_tone3("wǒ", false, false, true), "o3");
    assert_eq!(to_initials_tone3("m̀", true, false, true), "");
}

#[test]
fn test_convert_style() {
    assert_eq!(convert_style("zhōng", Style::InitialsTone3, true), "ong1");
    assert_eq!(convert_style("guó", Style::InitialsTone3, false), "uo2");
    assert_eq!(convert_style("wǒ", Style::Initials, true), "");
}

#[test]
fn test_convert_styles() {
    let pinyin_list = vec![vec!["zhōng".to_string()], vec!["guó".to_string()]];
    let result = convert_styles(pinyin_list.clone(), "中国", Style::InitialsTone3, true);
    assert_eq!(result, vec![["ong1"], ["uo2"]]);

    let result = convert_styles(pinyin_list.clone(), "中国", Style::Initials, true);
    assert_eq!(result, vec![["zh"], ["g"]]);
}

#[test]
fn test_post_convert_style() {
    assert_eq!(post_convert_style("zhong", Style::Tone3, true), "zhong5");
    assert_eq!(post_convert_style("guo", Style::InitialsTone3, true), "guo5");
    assert_eq!(post_convert_style("zhong1", Style::InitialsTone3, true), "zhong1");
}

#[test]
fn duplicate_and_empty_readings_are_removed() {
    let l = vec!["a".to_string(), "".to_string(), "b".to_string(), "a".to_string()];
    assert_eq!(sovits::pinyin::remove_dup_items(&l, true), vec!["a", "b"]);
    assert_eq!(sovits::pinyin::remove_dup_items(&l, false), vec!["a", "", "b"]);
    let lists = vec![l.clone(), vec!["".to_string()], vec![]];
    assert_eq!(
        sovits::pinyin::remove_dup_and_empty(lists),
        vec![vec!["a".to_string(), "b".to_string()], vec!["".to_string()], vec!["".to_string()]]
    );
}
