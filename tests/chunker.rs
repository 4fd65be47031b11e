use sovits::chunker::LangSegment;
use sovits::cleaned::Lang;

#[test]
fn empty_text_has_no_chunks() {
    let seg = LangSegment::new();
    assert!(seg.cut_texts("", 10).is_empty());
    assert!(seg.cut_texts("\n。\n", 10).is_empty());
}

#[test]
fn long_text_is_cut_into_several_chunks() {
    let seg = LangSegment::new();
    let text = "今天天气很好，我们去公园散步吧。明天可能会下雨，记得带伞。";
    let chunks = seg.cut_texts(text, 10);
    assert_eq!(
        chunks,
        vec!["今天天气很好", "我们去公园散步吧", "明天可能会下雨记得带伞"]
    );
    assert!(chunks.len() > 1);
    let text = "第一句话在这里。第二句话在这里。第三句话在这里。";
    assert_eq!(
        seg.cut_texts(text, 8),
        vec!["第一句话在这里", "第二句话在这里", "第三句话在这里"]
    );
}

#[test]
fn short_text_is_one_chunk() {
    let seg = LangSegment::new();
    assert_eq!(seg.cut_texts("你好。", 10), vec!["你好"]);
    assert_eq!(seg.cut_texts("ab。cd", 3), vec!["abcd"]);
}

#[test]
fn sentences_keep_their_delimiters() {
    let seg = LangSegment::new();
    let text = "你好，世界！今天……不错——真的";
    let parts = seg.split(text);
    assert_eq!(parts, vec!["你好，", "世界！", "今天。", "不错，", "真的。"]);
    assert_eq!(parts.concat(), "你好，世界！今天。不错，真的。");
    let plain = "一句。两句？三句!";
    assert_eq!(seg.split(plain).concat(), plain);
}

#[test]
fn packing_and_merging() {
    let seg = LangSegment::new();
    assert_eq!(seg.cut3("\n。甲乙丙丁戊，己庚。辛。\n", 4), "甲乙丙丁戊\n己庚\n辛");
    assert_eq!(seg.cut2("一二三，四五六。七八。", 3), "一二三，\n四五六。\n七八。");
    assert_eq!(seg.cut2("一二三，四五六。七八九十。", 3), "一二三，\n四五六。\n七八九十。");
    let merged = LangSegment::merge_short_text_in_array(
        vec!["ab".to_string(), "cde".to_string(), "f".to_string()],
        5,
    );
    assert_eq!(merged, vec!["abcdef"]);
}

#[test]
fn letter_ranges_are_read() {
    let seg = LangSegment::new();
    assert_eq!(seg.replace_az_range("包含a-b", Lang::Chinese), "包含a至b");
    assert_eq!(seg.replace_az_range("from A~Z", Lang::English), "from A to Z");
    assert_eq!(seg.replace_az_range("型号a-1", Lang::Chinese), "型号a杠1");
    assert_eq!(seg.replace_az_range("x-1", Lang::English), "x 1");
    assert_eq!(seg.replace_az_range("无范围", Lang::Chinese), "无范围");
}

#[test]
fn mixed_sentences_are_cut_into_latin_pieces() {
    let seg = LangSegment::new();
    assert_eq!(seg.latin_pieces("包含AC到BZ"), vec!["包含", "AC", "到", "BZ"]);
    assert_eq!(seg.latin_pieces("IT的我们是搞Google的"), vec!["IT", "的我们是搞", "Google", "的"]);
    assert_eq!(seg.latin_pieces("hello world"), vec!["hello world"]);
    assert_eq!(seg.latin_pieces("中文"), vec!["中文"]);
    assert_eq!(seg.latin_pieces("版本v1.2%更新"), vec!["版本", "v1.2%", "更新"]);
}
