use mqtt_ac::number::{is_float_literal, parse_u16_text};

fn chars(s: &str) -> Vec<char> {
    s.chars().collect()
}

#[test]
fn float_texts_agree_with_f32_parse() {
    let samples = [
        "0", "19.0", "23.5", "-4", "+4", "1.", ".5", ".", "", "+", "-", "e", "1e", "1e5", "1E5",
        "1e+5", "1e-5", "1e+", "1.5e3", ".5e1", "5.e1", ".e1", "inf", "INF", "-inf", "+Inf",
        "infinity", "Infinity", "infinit", "infinityy", "nan", "NaN", "-nan", "+NAN", "na", "1_0",
        " 1", "1 ", "1.2.3", "--1", "+-1", "1e5.5", "0x10", "١", "1e99999", "00012.000",
        "9999999999999999999999999999", "é", "1e٣",
    ];
    for s in samples {
        assert_eq!(is_float_literal(&chars(s)), s.parse::<f32>().is_ok(), "{s:?}");
    }
}

#[test]
fn u16_texts_agree_with_u16_parse() {
    let samples = [
        "0", "1", "65535", "65536", "99999999999", "+7", "-7", "-0", "+", "", "007", "1a", " 1",
        "1 ", "٣", "+65535", "00000000000065535",
    ];
    for s in samples {
        assert_eq!(parse_u16_text(&chars(s)), s.parse::<u16>().ok(), "{s:?}");
    }
}
