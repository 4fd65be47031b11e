use sovits::english::English;

#[test]
fn test_text_normalize() {
    let eng = English::new();

    // 边界情况：空字符串
    assert_eq!(eng.text_normalize(""), "");

    // 单个数字
    assert_eq!(eng.text_normalize("123"), "one hundred and twenty three");

    // 数字带逗号
    assert_eq!(eng.text_normalize("2,500"), "twenty five hundred");

    // 数字带小数点
    assert_eq!(eng.text_normalize("25.3"), "twenty five point three");

    // 金额
    assert_eq!(eng.text_normalize("$0.001"), "zero dollars");
    assert_eq!(eng.text_normalize("$0.01"), "one cent");
    assert_eq!(eng.text_normalize("$0.15"), "fifteen cents");
    assert_eq!(eng.text_normalize("$2.15"), "two dollars, fifteen cents");
    assert_eq!(eng.text_normalize("$0.1"), "ten cents");
    assert_eq!(eng.text_normalize("$0.5"), "fifty cents");
    assert_eq!(eng.text_normalize("$1"), "one dollar");
    assert_eq!(eng.text_normalize("$1.01"), "one dollar, one cent");
    assert_eq!(eng.text_normalize("$1.5"), "one dollar, fifty cents");
    assert_eq!(eng.text_normalize("$2500"), "twenty five hundred dollars");
    assert_eq!(eng.text_normalize("£23"), "twenty three pounds");
    assert_eq!(eng.text_normalize("£9.99"), "nine point ninety nine pounds");

    // 序数词
    assert_eq!(eng.text_normalize("23rd"), "twenty three");

    // 温度数
    assert_eq!(eng.text_normalize("22.5°C"), "twenty two point five°C");
}

#[test]
fn words_and_delimiters_are_tokens() {
    let eng = English::new();
    assert_eq!(
        eng.split_with_delimiter("hello, world!"),
        vec!["hello", ",", " ", "world", "!"]
    );
    assert_eq!(eng.split_with_delimiter("a-b"), vec!["a", "-", "b"]);
    assert!(eng.split_with_delimiter("").is_empty());
}

#[test]
fn phonemes_outside_the_alphabet_are_replaced_or_dropped() {
    let eng = English::new();
    let table = sovits::cleaned::SymbolTable::new();
    let phones: Vec<String> = ["HH", "AH0", ";", "'", "xx", ":", "\""].iter().map(|s| s.to_string()).collect();
    assert_eq!(eng.replace_phonemes(phones, &table), vec!["HH", "AH0", ",", "-", ",", "-"]);
}

#[test]
fn whole_hundreds_from_one_to_three_thousand() {
    let eng = English::new();
    assert_eq!(eng.text_normalize("1500"), "fifteen hundred");
    assert_eq!(eng.text_normalize("1100"), "eleven hundred");
    assert_eq!(eng.text_normalize("2000"), "two thousand");
    assert_eq!(eng.text_normalize("2005"), "two thousand five");
    assert_eq!(eng.text_normalize("2900"), "twenty nine hundred");
    assert_eq!(eng.text_normalize("3000"), "three thousand");
}
