use sovits::num::Num;

#[test]
fn test_num() {
    let num = Num;

    // 测试 replace_number
    assert_eq!(num.replace_number("2004"), "二千零四");
    assert_eq!(num.replace_number("2014"), "二千零一十四");
    assert_eq!(num.replace_number("-2014"), "负二千零一十四");
    assert_eq!(num.replace_number("0"), "零");
    assert_eq!(num.replace_number("000123"), "零零零幺二三");
    assert_eq!(
        num.replace_number("1234567890"),
        "十二亿三千四百五十六万七千八百九十"
    );
    assert_eq!(num.replace_number("-000"), "零零零");

    // 测试 replace_frac
    assert_eq!(num.replace_frac("-1/3"), "负三分之一");
    assert_eq!(num.replace_frac("3/2"), "二分之三");
    assert_eq!(num.replace_frac("0/1"), "一分之零");
    assert_eq!(num.replace_frac("-0/1"), "一分之零");
    assert_eq!(
        num.replace_frac("123456789/987654321"),
        "九亿八千七百六十五万四千三百二十一分之一亿二千三百四十五万六千七百八十九"
    );

    // 测试 replace_percentage
    assert_eq!(num.replace_percentage("50%"), "百分之五十");
    assert_eq!(num.replace_percentage("0%"), "百分之零");
    assert_eq!(num.replace_percentage("-100%"), "负百分之一百");
    assert_eq!(
        num.replace_percentage("123456%"),
        "百分之十二万三千四百五十六"
    );
    assert_eq!(num.replace_percentage("-0%"), "负百分之零");

    // 测试 replace_range
    assert_eq!(num.replace_range("1.2~3.4"), "一点二到三点四");
    assert_eq!(num.replace_range("0~100"), "零到一百");
    assert_eq!(num.replace_range("-50~50"), "负五十到五十");
    assert_eq!(num.replace_range("123~456"), "一百二十三到四百五十六");
    assert_eq!(num.replace_range("-1.23~4.56"), "负一点二三到四点五六");

    // 测试 verbalize_cardinal
    assert_eq!(num.verbalize_cardinal("0123", true), "零幺二三");
    assert_eq!(num.verbalize_cardinal("0000", true), "零零零零");
    assert_eq!(num.verbalize_cardinal("001001", true), "零零幺零零幺");
    assert_eq!(
        num.verbalize_cardinal("123456789", true),
        "一亿二千三百四十五万六千七百八十九"
    );
    assert_eq!(num.verbalize_cardinal("10001", true), "一万零一");
}

#[test]
fn test_seq() {
    let num = Num;
    assert_eq!(num.normalize("0123"), "零幺二三");
    assert_eq!(
        num.normalize("12345678901234"),
        "幺二三四五六七八九零幺二三四"
    );

    assert_eq!(
        num.normalize("1234567890123"),
        "一万二千三百四十五亿六千七百八十九万零一百二十三"
    );

    assert_eq!(
        num.normalize("-12345678901234"),
        "负十二万三千四百五十六亿七千八百九十万一千二百三十四"
    );
}

#[test]
fn test_num_normalize() {
    let num = Num;

    let cases = vec![
        // 整数
        ("123", "一百二十三"),
        ("0123", "零幺二三"),
        ("0", "零"),
        ("-123", "负一百二十三"),
        ("1234567890", "十二亿三千四百五十六万七千八百九十"),
        ("0000", "零零零零"),
        ("001001", "零零幺零零幺"),
        (
            "1234567890123",
            "一万二千三百四十五亿六千七百八十九万零一百二十三",
        ),
        ("12345678901234", "幺二三四五六七八九零幺二三四"),
        // 小数
        ("123.45", "一百二十三点四五"),
        ("0.001", "零点零零一"),
        ("-0.123", "负零点一二三"),
        ("123.00", "一百二十三"),
        // 分数
        ("1/2", "二分之一"),
        ("-3/4", "负四分之三"),
        ("0/1", "一分之零"),
        ("123/456", "四百五十六分之一百二十三"),
        ("-123/456", "负四百五十六分之一百二十三"),
        // 百分数
        ("50%", "百分之五十"),
        ("0%", "百分之零"),
        ("-100%", "负百分之一百"),
        ("123.45%", "百分之一百二十三点四五"),
        ("-0.1%", "负百分之零点一"),
        // 区间
        ("1~10", "一到十"),
        ("0~100", "零到一百"),
        ("-50~50", "负五十到五十"),
        ("123.45~678.90", "一百二十三点四五到六百七十八点九"),
        ("-1.2~3.4", "负一点二到三点四"),
        // 科学计数法
        ("1e3", "一千"),
        ("1.23e4", "一万二千三百"),
        ("-1.23e-2", "负零点零一二三"),
        ("0e0", "零"),
        // 特殊情况
        ("123~", "一百二十三~"),
        ("~456", "~四百五十六"),
        ("~", "~"),
        ("-", "-"),
    ];

    for (input, expected) in cases {
        let result = num.normalize(input);
        assert_eq!(
            result, expected,
            "Test failed for input: {}.\nExpected: {}, Got: {}",
            input, expected, result
        );
    }
}

#[test]
fn digit_readings_and_zero_test() {
    let num = Num;
    assert_eq!(num.verbalize_digits("0123", true), "零幺二三");
    assert_eq!(num.verbalize_digits("1a1", false), "一a一");
    assert!(num.is_all_zero("000"));
    assert!(num.is_all_zero(""));
    assert!(!num.is_all_zero("010"));
    assert_eq!(num.replace_scientific("1.23e4"), "一万二千三百");
    assert_eq!(num.replace_scientific("x-5e-1y"), "x负零点五y");
    assert_eq!(num.num2str("00.500", true), "零点五");
}

#[test]
fn reading_twice_changes_nothing() {
    let num = Num;
    for input in ["123", "-1.23e-2", "1/2", "50%", "1~10", "abc", "0123", "12345678901234"] {
        let once = num.normalize(input);
        assert_eq!(num.normalize(&once), once);
        assert!(!once.chars().any(|c| c.is_ascii_digit()));
    }
}
