use sovits::chronology::Chronology;

#[test]
fn test_replace_date() {
    let chronology = Chronology::new();

    // 普通日期
    assert_eq!(
        chronology.replace_date("2023年10月25日"),
        "二零二三年十月二十五日"
    );

    // 缺少月、日
    assert_eq!(chronology.replace_date("2023年"), "二零二三年");
    assert_eq!(chronology.replace_date("2023年10月"), "二零二三年十月");

    // 非法日期
    assert_eq!(chronology.replace_date("abc年"), "abc年");
}

#[test]
fn test_replace_date2() {
    let chronology = Chronology::new();

    // 普通日期
    assert_eq!(
        chronology.replace_date2("2023-10-25"),
        "二零二三年十月二十五日"
    );

    assert_eq!(
        chronology.replace_date2("2023/10/25"),
        "二零二三年十月二十五日"
    );

    // 日期后带“日”或“号”
    assert_eq!(
        chronology.replace_date2("2023-10-25号"),
        "二零二三年十月二十五号"
    );

    // 非法日期
    assert_eq!(chronology.replace_date2("2023-13-40"), "2023-13-40");
}

#[test]
fn test_replace_time() {
    let chronology = Chronology::new();

    // 普通时间
    assert_eq!(chronology.replace_time("8:30"), "八点半");
    assert_eq!(chronology.replace_time("8:05"), "八点零五分");

    // 带秒的时间
    assert_eq!(chronology.replace_time("8:05:30"), "八点零五分三十秒");

    // 时间范围
    assert_eq!(
        chronology.replace_time_range("8:05-9:30"),
        "八点零五分至九点半"
    );

    // 时间范围
    assert_eq!(
        chronology.replace_time_range("8:30-12:00"),
        "八点半至十二点"
    );

    // 非法时间
    assert_eq!(chronology.replace_time("25:60"), "25:60");
}
#[test]
fn test_time_num2str() {
    let chronology = Chronology::new();

    // 普通数字
    assert_eq!(chronology.time_num2str("5"), "五");
    assert_eq!(chronology.time_num2str("15"), "十五");

    // 以零开头的数字
    assert_eq!(chronology.time_num2str("05"), "零五");
    assert_eq!(chronology.time_num2str("0015"), "零十五");

    // 边界情况
    assert_eq!(chronology.time_num2str("0"), "零");
    assert_eq!(chronology.time_num2str(""), "");
}
#[test]
fn test_comprehensive() {
    let chronology = Chronology::new();

    let input = "2023年10月25日，会议时间为8:30-12:00";
    let expected = "二零二三年十月二十五日，会议时间为八点半至十二点";
    let replaced_date = chronology.replace_date(input);
    let replaced_time = chronology.replace_time_range(&replaced_date);
    assert_eq!(replaced_time, expected);
    assert_eq!(chronology.normalize(input), expected);

    let input = "2023-10-25 8:30";
    let expected = "二零二三年十月二十五日 八点半";
    let replaced_date = chronology.replace_date2(input);
    let replaced_time = chronology.replace_time(&replaced_date);
    assert_eq!(replaced_time, expected);
    assert_eq!(chronology.normalize(input), expected);

    let input = "日期：2025/01/14~2025/12/31。";
    let expected = "日期：二零二五年一月十四日~二零二五年十二月三十一日。";
    assert_eq!(chronology.normalize(input), expected);
}
