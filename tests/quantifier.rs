use sovits::quantifier::Quantifier;

#[test]
fn test_replace_temperature() {
    let quantifier = Quantifier::new();

    let cases = vec![
        ("-10°C", "零下十度"),
        ("20℃", "二十度"),
        ("35度", "三十五度"),
        ("40.5摄氏度", "四十点五摄氏度"),
        ("-5摄氏度", "零下五摄氏度"),
        ("50K", "50K"), // 无效温度
    ];

    for (input, expected) in cases {
        assert_eq!(quantifier.replace_temperature(input), expected);
    }
}

#[test]
fn test_replace_measure() {
    let quantifier = Quantifier::new();

    let cases = vec![
        ("面积是10cm2", "面积是十平方厘米"),
        ("体积是5cm³", "体积是五立方厘米"),
        ("长度为20m", "长度为二十米"),
        ("质量为70kg", "质量为七十千克"),
        ("速度单位为20km/h", "速度单位为二十千米每小时"),
        ("时间是10s", "时间是十秒"),
        ("没有任何单位", "没有任何单位"),
        (
            "2983.07g或12345.60m",
            "二千九百八十三点零七克或一万二千三百四十五点六米",
        ),
    ];

    for (input, expected) in cases {
        assert_eq!(quantifier.replace_measure(input), expected);
    }
}

#[test]
fn test_combined_replace() {
    let quantifier = Quantifier::new();

    let input = "温度是-10°C，面积是5m2，时间是10s";
    let expected = "温度是零下十度，面积是五平方米，时间是十秒";
    let result = quantifier.replace_measure(&quantifier.replace_temperature(input));
    assert_eq!(result, expected);
}

#[test]
fn test_replace_measure_with_speed() {
    let quantifier = Quantifier::new();

    let cases = vec![
        ("速度是10m/s", "速度是十米每秒"),
        ("光速大约为300000km/s", "光速大约为三十万千米每秒"),
        ("普通车速是60km/h", "普通车速是六十千米每小时"),
        ("蜗牛移动速度为5mm/s", "蜗牛移动速度为五毫米每秒"),
    ];

    for (input, expected) in cases {
        assert_eq!(quantifier.replace_measure(input), expected);
    }
}

#[test]
fn test_combined_replace_with_speed() {
    let quantifier = Quantifier::new();

    let input = "速度是10m/s，温度是-20°C，长度是50cm";
    let expected = "速度是十米每秒，温度是零下二十度，长度是五十厘米";
    let result = quantifier.replace_measure(&quantifier.replace_temperature(input));
    assert_eq!(result, expected);
}
