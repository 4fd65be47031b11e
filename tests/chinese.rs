use sovits::chinese::Chinese;
use sovits::text_normalizer::TextNormalizer;

fn chinese() -> Chinese {
    Chinese::new(
        vec![("：".to_string(), ",".to_string()), ("。".to_string(), ".".to_string()), ("“".to_string(), "'".to_string())],
        TextNormalizer::new(vec![], vec![]),
    )
}

#[test]
fn chinese_text_is_normalised_and_cleaned() {
    let zh = chinese();
    assert_eq!(zh.text_normalize("会议时间为8:30。"), "会议时间为八点半.");
    assert_eq!(zh.text_normalize("嗯，好的ABC\"《书》\"！"), "恩好的,书,");
    assert_eq!(zh.replace_symbol("a：b。"), "a,b.");
    assert_eq!(zh.replace_punctuation("嗯呣abc…-"), "恩母…-");
}
