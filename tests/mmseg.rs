use sovits::mmseg::MMSeg;
use std::collections::HashMap;

fn phrase_list(phrases_dict: &HashMap<String, Vec<Vec<String>>>) -> Vec<String> {
    phrases_dict.keys().cloned().collect()
}

#[test]
fn test_normal_segmentation() {
    let mut phrases_dict: HashMap<String, Vec<Vec<String>>> = HashMap::new();
    phrases_dict.insert("中国".to_string(), vec![vec!["中国".to_string()]]);
    phrases_dict.insert("人民".to_string(), vec![vec!["人民".to_string()]]);
    phrases_dict.insert("共和国".to_string(), vec![vec!["共和国".to_string()]]);

    let mmseg = MMSeg::new(false, &phrase_list(&phrases_dict));
    let result = mmseg.seg("中华人民共和国", &phrase_list(&phrases_dict));
    assert_eq!(result, vec!["中", "华", "人民", "共和国"]);
}

#[test]
fn test_overlapping_phrases_false() {
    let mut phrases_dict: HashMap<String, Vec<Vec<String>>> = HashMap::new();
    phrases_dict.insert("中华人民".to_string(), vec![vec!["中华人民".to_string()]]);
    phrases_dict.insert("共和国".to_string(), vec![vec!["共和国".to_string()]]);

    let mmseg = MMSeg::new(false, &phrase_list(&phrases_dict));
    let result = mmseg.seg("中华人生共和国", &phrase_list(&phrases_dict));
    assert_eq!(result, vec!["中华人", "生", "共和国"]);
}

#[test]
fn test_overlapping_phrases_true() {
    let mut phrases_dict: HashMap<String, Vec<Vec<String>>> = HashMap::new();
    phrases_dict.insert("中华人民".to_string(), vec![vec!["中华人民".to_string()]]);
    phrases_dict.insert("共和国".to_string(), vec![vec!["共和国".to_string()]]);

    let mmseg = MMSeg::new(true, &phrase_list(&phrases_dict));
    let result = mmseg.seg("中华人生共和国", &phrase_list(&phrases_dict));
    assert_eq!(result, vec!["中", "华", "人", "生", "共和国"]);
}

#[test]
fn test_empty_text() {
    let phrases_dict: HashMap<String, Vec<Vec<String>>> = HashMap::new();
    let mmseg = MMSeg::new(false, &phrase_list(&phrases_dict));
    let result = mmseg.seg("", &phrase_list(&phrases_dict));
    assert!(result.is_empty());
}

#[test]
fn test_single_word() {
    let mut phrases_dict: HashMap<String, Vec<Vec<String>>> = HashMap::new();
    phrases_dict.insert("测试".to_string(), vec![vec!["测试".to_string()]]);

    let mmseg = MMSeg::new(false, &phrase_list(&phrases_dict));
    let result = mmseg.seg("测试", &phrase_list(&phrases_dict));
    assert_eq!(result, vec!["测试".to_string()]);
}

#[test]
fn test_mixed_text() {
    let mut phrases_dict: HashMap<String, Vec<Vec<String>>> = HashMap::new();
    phrases_dict.insert("测试".to_string(), vec![vec!["测试".to_string()]]);
    phrases_dict.insert("开发".to_string(), vec![vec!["开发".to_string()]]);

    let mmseg = MMSeg::new(false, &phrase_list(&phrases_dict));
    let result = mmseg.seg("测试开发中", &phrase_list(&phrases_dict));
    assert_eq!(
        result,
        vec!["测试".to_string(), "开发".to_string(), "中".to_string()]
    );
}

#[test]
fn test_no_phrase_in_dict() {
    let phrases_dict: HashMap<String, Vec<Vec<String>>> = HashMap::new();
    let mmseg = MMSeg::new(false, &phrase_list(&phrases_dict));
    let result = mmseg.seg("测试开发中", &phrase_list(&phrases_dict));
    assert_eq!(result, vec!["测", "试", "开", "发", "中"]);
}

#[test]
fn test_repeated_phrases() {
    let mut phrases_dict: HashMap<String, Vec<Vec<String>>> = HashMap::new();
    phrases_dict.insert("好好".to_string(), vec![vec!["好好".to_string()]]);
    phrases_dict.insert("学习".to_string(), vec![vec!["学习".to_string()]]);

    let mmseg = MMSeg::new(false, &phrase_list(&phrases_dict));
    let result = mmseg.seg("好好学习好好学习", &phrase_list(&phrases_dict));
    assert_eq!(
        result,
        vec![
            "好好".to_string(),
            "学习".to_string(),
            "好好".to_string(),
            "学习".to_string()
        ]
    );
}

#[test]
fn test_special_characters() {
    let mut phrases_dict: HashMap<String, Vec<Vec<String>>> = HashMap::new();
    phrases_dict.insert(
        "hello world".to_string(),
        vec![vec!["hello".to_string(), "world".to_string()]],
    );
    phrases_dict.insert("hello".to_string(), vec![vec!["hello".to_string()]]);
    phrases_dict.insert("world".to_string(), vec![vec!["world".to_string()]]);

    let mmseg = MMSeg::new(false, &phrase_list(&phrases_dict));
    let result = mmseg.seg("hello world", &phrase_list(&phrases_dict));
    assert_eq!(result, vec!["hello world"]);
}

#[test]
fn test_numbers_and_symbols() {
    let mut phrases_dict: HashMap<String, Vec<Vec<String>>> = HashMap::new();
    phrases_dict.insert("2025年".to_string(), vec![vec!["2025年".to_string()]]);
    phrases_dict.insert("2025".to_string(), vec![vec!["2025".to_string()]]);
    phrases_dict.insert("年".to_string(), vec![vec!["年".to_string()]]);

    let mmseg = MMSeg::new(false, &phrase_list(&phrases_dict));
    let result = mmseg.seg("2025年", &phrase_list(&phrases_dict));
    assert_eq!(result, vec!["2025年".to_string()]);
}

#[test]
fn test_text_with_spaces() {
    let mut phrases_dict: HashMap<String, Vec<Vec<String>>> = HashMap::new();
    phrases_dict.insert(
        "你好 世界".to_string(),
        vec![vec!["你好".to_string(), "世界".to_string()]],
    );
    phrases_dict.insert("你好".to_string(), vec![vec!["你好".to_string()]]);
    phrases_dict.insert("世界".to_string(), vec![vec!["世界".to_string()]]);

    let mmseg = MMSeg::new(false, &phrase_list(&phrases_dict));
    let result = mmseg.seg("你好 世界", &phrase_list(&phrases_dict));
    assert_eq!(result, vec!["你好 世界".to_string()]);
}
