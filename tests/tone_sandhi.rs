use sovits::tone_sandhi::{ToneSandhi, WordSplitter};

fn strings(items: &[&str]) -> Vec<String> {
    items.iter().map(|s| s.to_string()).collect()
}

fn pairs(items: &[(&str, &str)]) -> Vec<(String, String)> {
    items.iter().map(|(w, p)| (w.to_string(), p.to_string())).collect()
}

#[test]
fn test_neural_sandhi() {
    let tone_sandhi = ToneSandhi::new();
    let splitter = WordSplitter::new();

    let result = tone_sandhi.neural_sandhi("了", "ul", strings(&["le4"]), &splitter.split_word("了"));
    assert_eq!(result, vec!["le5".to_string()]);

    let result = tone_sandhi.neural_sandhi("来来", "v", strings(&["lai2", "lai2"]), &splitter.split_word("来来"));
    assert_eq!(result, vec!["lai2".to_string(), "lai5".to_string()]);

    let result = tone_sandhi.neural_sandhi("几个", "m", strings(&["ji3", "ge4"]), &splitter.split_word("几个"));
    assert_eq!(result, vec!["ji3".to_string(), "ge5".to_string()]);

    let result = tone_sandhi.neural_sandhi("麻烦", "n", strings(&["ma2", "fan2"]), &splitter.split_word("麻烦"));
    assert_eq!(result, vec!["ma2".to_string(), "fan5".to_string()]);

    let result = tone_sandhi.neural_sandhi("男子", "n", strings(&["nan2", "zi3"]), &splitter.split_word("男子"));
    assert_eq!(result, vec!["nan2".to_string(), "zi3".to_string()]);

    let result = tone_sandhi.neural_sandhi(
        "漂亮的",
        "a",
        strings(&["piao4", "liang4", "de5"]),
        &splitter.split_word("漂亮的"),
    );
    assert_eq!(
        result,
        vec!["piao4".to_string(), "liang5".to_string(), "de5".to_string()]
    );

    let result = tone_sandhi.neural_sandhi("吃吧", "v", strings(&["chi1", "ba5"]), &splitter.split_word("吃吧"));
    assert_eq!(result, vec!["chi1".to_string(), "ba5".to_string()]);

    let result = tone_sandhi.neural_sandhi("进来", "v", strings(&["jin4", "lai2"]), &splitter.split_word("进来"));
    assert_eq!(result, vec!["jin4".to_string(), "lai5".to_string()]);

    let result = tone_sandhi.neural_sandhi("人们", "n", strings(&["ren2", "men5"]), &splitter.split_word("人们"));
    assert_eq!(result, vec!["ren2".to_string(), "men5".to_string()]);

    let result = tone_sandhi.neural_sandhi("家里", "s", strings(&["jia1", "li5"]), &splitter.split_word("家里"));
    assert_eq!(result, vec!["jia1".to_string(), "li5".to_string()]);

    let result = tone_sandhi.neural_sandhi(
        "地面上",
        "s",
        strings(&["di4", "mian4", "shang4"]),
        &splitter.split_word("地面上"),
    );
    assert_eq!(
        result,
        vec!["di4".to_string(), "mian4".to_string(), "shang5".to_string()]
    );

    let result = tone_sandhi.neural_sandhi("", "", vec![], &strings(&["", ""]));
    assert!(result.is_empty());
}

#[test]
fn test_bu_sandhi() {
    let word = "不是".to_string();
    let finals = vec!["bu4".to_string(), "shi4".to_string()];
    let result = ToneSandhi::bu_sandhi(&word, finals.clone());
    assert_eq!(result, vec!["bu2".to_string(), "shi4".to_string()]);

    let word = "好不好".to_string();
    let finals = vec!["hao3".to_string(), "bu4".to_string(), "hao3".to_string()];
    let result = ToneSandhi::bu_sandhi(&word, finals.clone());
    assert_eq!(
        result,
        vec!["hao3".to_string(), "bu5".to_string(), "hao3".to_string()]
    );

    let word = "不明白".to_string();
    let finals = vec!["bu4".to_string(), "ming2".to_string(), "bai2".to_string()];
    let result = ToneSandhi::bu_sandhi(&word, finals.clone());
    assert_eq!(
        result,
        vec!["bu4".to_string(), "ming2".to_string(), "bai2".to_string()]
    );

    let word = "行不行".to_string();
    let finals = vec!["xing2".to_string(), "bu4".to_string(), "xing2".to_string()];
    let result = ToneSandhi::bu_sandhi(&word, finals.clone());
    assert_eq!(
        result,
        vec!["xing2".to_string(), "bu5".to_string(), "xing2".to_string()]
    );

    let word = "".to_string();
    let finals = vec![];
    let result = ToneSandhi::bu_sandhi(&word, finals.clone());
    assert!(result.is_empty());
}

#[test]
fn test_yi_sandhi() {
    let tone_sandhi = ToneSandhi::new();

    let word = "一个".to_string();
    let finals = vec!["yi2".to_string(), "ge4".to_string()];
    let result = tone_sandhi.yi_sandhi(&word, finals.clone());
    assert_eq!(result, vec!["yi2".to_string(), "ge4".to_string()]);

    let word = "第一".to_string();
    let finals = vec!["di4".to_string(), "yi1".to_string()];
    let result = tone_sandhi.yi_sandhi(&word, finals.clone());
    assert_eq!(result, vec!["di4".to_string(), "yi1".to_string()]);

    let word = "一二三".to_string();
    let finals = vec!["yi1".to_string(), "er4".to_string(), "san1".to_string()];
    let result = tone_sandhi.yi_sandhi(&word, finals.clone());
    assert_eq!(
        result,
        vec!["yi2".to_string(), "er4".to_string(), "san1".to_string()]
    );

    let word = "看一看".to_string();
    let finals = vec!["kan4".to_string(), "yi2".to_string(), "kan4".to_string()];
    let result = tone_sandhi.yi_sandhi(&word, finals.clone());
    assert_eq!(
        result,
        vec!["kan4".to_string(), "yi5".to_string(), "kan4".to_string()]
    );

    let word = "一次".to_string();
    let finals = vec!["yi2".to_string(), "ci4".to_string()];
    let result = tone_sandhi.yi_sandhi(&word, finals.clone());
    assert_eq!(result, vec!["yi2".to_string(), "ci4".to_string()]);

    let word = "".to_string();
    let finals = vec![];
    let result = tone_sandhi.yi_sandhi(&word, finals.clone());
    assert!(result.is_empty());
}

#[test]
fn test_three_sandhi() {
    let tone_sandhi = ToneSandhi::new();
    let splitter = WordSplitter::new();

    let result = tone_sandhi.three_sandhi("水果", strings(&["shui3", "guo3"]), &splitter.split_word("水果"));
    assert_eq!(result, vec!["shui2".to_string(), "guo3".to_string()]);

    // The segmenter splits 管理者 as 管理 + 者: all three syllables are tone
    // three and the first part has two, so the first two rise.
    assert_eq!(splitter.split_word("管理者"), vec!["管理".to_string(), "者".to_string()]);
    let result = tone_sandhi.three_sandhi("管理者", strings(&["guan3", "li3", "zhe3"]), &splitter.split_word("管理者"));
    assert_eq!(
        result,
        vec!["guan2".to_string(), "li2".to_string(), "zhe3".to_string()]
    );

    let result = tone_sandhi.three_sandhi("管理者们", strings(&["guan3", "li3", "zhe3", "men5"]), &splitter.split_word("管理者们"));
    assert_eq!(
        result,
        vec![
            "guan2".to_string(),
            "li3".to_string(),
            "zhe3".to_string(),
            "men5".to_string()
        ]
    );

    let result = tone_sandhi.three_sandhi("", vec![], &splitter.split_word(""));
    assert!(result.is_empty());
}

#[test]
fn test_merge_bu() {
    let result = ToneSandhi::merge_bu(&pairs(&[("不", "d"), ("是", "v")]));
    assert_eq!(result, vec![("不是".to_string(), "v".to_string())]);

    let result = ToneSandhi::merge_bu(&pairs(&[("不", "d"), ("不", "d"), ("行", "v")]));
    assert_eq!(
        result,
        vec![
            ("不不".to_string(), "d".to_string()),
            ("行".to_string(), "v".to_string())
        ]
    );

    let result = ToneSandhi::merge_bu(&pairs(&[("行", "v"), ("不", "d")]));
    assert_eq!(
        result,
        vec![
            ("行".to_string(), "v".to_string()),
            ("不".to_string(), "d".to_string())
        ]
    );
}

#[test]
fn test_merge_yi() {
    let tags = vec![
        ("一".to_string(), "v".to_string()),
        ("看".to_string(), "v".to_string()),
        ("一".to_string(), "v".to_string()),
        ("看".to_string(), "v".to_string()),
    ];
    let result = ToneSandhi::merge_yi(&tags);
    assert_eq!(result, vec![("一看一看".to_string(), "v".to_string())]);

    let tags = vec![
        ("看".to_string(), "v".to_string()),
        ("一".to_string(), "v".to_string()),
        ("看".to_string(), "v".to_string()),
    ];
    let result = ToneSandhi::merge_yi(&tags);
    assert_eq!(result, vec![("看一看".to_string(), "v".to_string())]);

    let tags = vec![
        ("一".to_string(), "v".to_string()),
        ("看".to_string(), "v".to_string()),
    ];
    let result = ToneSandhi::merge_yi(&tags);
    assert_eq!(result, vec![("一看".to_string(), "v".to_string())]);
}

#[test]
fn sandhi_scenarios_from_finals() {
    let tone_sandhi = ToneSandhi::new();
    let result = tone_sandhi.modified_tone_split("水果", "n", strings(&["shui3", "guo3"]), &strings(&["水果", ""]));
    assert_eq!(result, strings(&["shui2", "guo3"]));
    let result = tone_sandhi.modified_tone_split("不是", "v", strings(&["bu4", "shi4"]), &strings(&["不是", ""]));
    assert_eq!(result, strings(&["bu2", "shi4"]));
    let result = tone_sandhi.modified_tone_split("一个", "m", strings(&["yi1", "ge4"]), &strings(&["一个", ""]));
    assert_eq!(result, strings(&["yi2", "ge4"]));
}

#[test]
fn merges_of_er_reduplication_and_three_tones() {
    let result = ToneSandhi::merge_er(&pairs(&[("花", "n"), ("儿", "n"), ("#", "x"), ("儿", "n")]));
    assert_eq!(result, pairs(&[("花儿", "n"), ("#", "x"), ("儿", "n")]));
    let result = ToneSandhi::merge_reduplication(&pairs(&[("看", "v"), ("看", "v"), ("书", "n")]));
    assert_eq!(result, pairs(&[("看看", "v"), ("书", "n")]));
    let seg = pairs(&[("我", "r"), ("也", "d"), ("很", "d"), ("好", "a")]);
    let finals = vec![strings(&["uo3"]), strings(&["ie3"]), strings(&["en3"]), strings(&["ao3"])];
    let result = ToneSandhi::merge_continuous_three_tones(&seg, &finals);
    assert_eq!(result, pairs(&[("我也", "r"), ("很好", "d")]));
    let result = ToneSandhi::merge_continuous_three_tones_2(&seg, &finals);
    assert_eq!(result, pairs(&[("我也", "r"), ("很好", "d")]));
    assert!(ToneSandhi::all_tone_three(&strings(&["uo3", "ie3"])));
    assert!(!ToneSandhi::all_tone_three(&strings(&["uo3", "ie4"])));
    assert!(ToneSandhi::is_reduplication("看看"));
}

#[test]
fn test_split_word() {
    let splitter = WordSplitter::new();

    let result = splitter.split_word("中国人");
    assert_eq!(result, vec!["中国".to_string(), "人".to_string()]);

    let result = splitter.split_word("我");
    assert_eq!(result, vec!["我".to_string(), "".to_string()]);

    let result = splitter.split_word("你好");
    assert_eq!(result, vec!["你好".to_string(), "".to_string()]);

    let result = splitter.split_word("好好");
    assert_eq!(result, vec!["好好".to_string(), "".to_string()]);

    let result = splitter.split_word("测试-中");
    assert_eq!(result, vec!["测试-".to_string(), "-".to_string()]);

    let result = splitter.split_word("");
    assert!(result.is_empty());
}

#[test]
fn sandhi_with_the_segmenter() {
    let tone_sandhi = ToneSandhi::new();
    let splitter = WordSplitter::new();
    let result = tone_sandhi.modified_tone("水果", "n", strings(&["shui3", "guo3"]), &splitter);
    assert_eq!(result, strings(&["shui2", "guo3"]));
    let result = tone_sandhi.modified_tone("不是", "v", strings(&["bu4", "shi4"]), &splitter);
    assert_eq!(result, strings(&["bu2", "shi4"]));
    let result = tone_sandhi.modified_tone("一个", "m", strings(&["yi1", "ge4"]), &splitter);
    assert_eq!(result, strings(&["yi2", "ge4"]));
    let result = tone_sandhi.modified_tone("", "", vec![], &splitter);
    assert!(result.is_empty());
}
