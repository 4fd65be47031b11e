use sovits::text_normalizer::TextNormalizer;

fn plain_normalizer() -> TextNormalizer {
    TextNormalizer::new(vec![], vec![])
}

#[test]
fn test_normalize() {
    let normalizer = plain_normalizer();
    let cases = vec![
        (
            "固话：0595-23865596或23880880。",
            vec!["固话：", "零五九五，二三八六五五九六或二三八八零八八零。"],
        ),
        (
            "手机：+86 19859213959或15659451527或者 +86 18612345678。",
            vec!["手机：", "八六幺九八五九二幺三九五九或幺五六五九四五幺五二七或者八六幺八六幺二三四五六七八。"],
        ),
    ];

    for (input, expected) in cases {
        let result = normalizer.normalize(input);
        assert_eq!(result, expected, "Test failed for input: {}", input);
    }
}

#[test]
fn text_normalizer_cases_without_symbol_table() {
    let normalizer = plain_normalizer();
    let cases = vec![
        ("中文句子测试。", vec!["中文句子测试。"]),
        ("Test中文English测试。", vec!["Test中文English测试。"]),
        ("   中文    测试    。", vec!["中文测试。"]),
        ("ＡＢＣＤ１２３４。", vec!["ABCD一千二百三十四。"]),
        ("", vec![]),
        ("汉", vec!["汉"]),
        ("    ", vec![]),
        (
            "这是一个非常非常非常非常非常非常非常非常非常非常长的句子，用来测试系统是否能处理超长句子的情况。",
            vec!["这是一个非常非常非常非常非常非常非常非常非常非常长的句子，", "用来测试系统是否能处理超长句子的情况。"],
        ),
        ("这是第一句。这是第二句！这是第三句？", vec!["这是第一句。", "这是第二句！", "这是第三句？"]),
        ("中文，Test。Hello！测试，Done。", vec!["中文，", "Test。", "Hello！", "测试，", "Done。"]),
        (
            "电话：1234567890，金额：￥100.00。",
            vec!["电话：", "十二亿三千四百五十六万七千八百九十，", "金额：", "￥一百。"],
        ),
        ("时间：10:30:45。", vec!["时间：", "十点半四十五秒。"]),
        ("未知字符：@#￥%……&*。", vec!["未知字符：", ",", "￥%,", "*。"]),
        ("测试测试测试测试测试测试。", vec!["测试测试测试测试测试测试。"]),
        ("嵌套（符号（测试））！", vec!["嵌套,", "符号,", "测试,", "！"]),
        ("这是一句话没有任何标点符号", vec!["这是一句话没有任何标点符号"]),
    ];

    for (input, expected) in cases {
        let result = normalizer.normalize(input);
        assert_eq!(result, expected, "Test failed for input: {}", input);
    }
}

#[test]
fn normalized_chinese_scenario() {
    let normalizer = plain_normalizer();
    let result = normalizer.normalize("2023年10月25日，会议时间为8:30-12:00");
    assert_eq!(result.concat(), "二零二三年十月二十五日，会议时间为八点半至十二点");
    let result = normalizer.normalize("1234567890");
    assert_eq!(result, vec!["十二亿三千四百五十六万七千八百九十"]);
}

#[test]
fn traditional_and_symbol_tables() {
    let normalizer = TextNormalizer::new(
        vec![('漢', '汉'), ('語', '语')],
        vec![("~".to_string(), "至".to_string()), ("①".to_string(), "一".to_string())],
    );
    assert_eq!(normalizer.normalize("漢語①~！"), vec!["汉语一至！"]);
    assert_eq!(normalizer.post_replace("a-b《c》\"d\""), "a-bcd");
    assert_eq!(normalizer.split("a b，c", "en"), vec!["a b，", "c"]);
}
