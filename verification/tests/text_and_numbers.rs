use lly::number::{decimal_string, parse_i32, parse_i64, parse_u16, parse_usize};
use lly::text::{split_whitespace, take_chars};

fn chars(s: &str) -> Vec<char> {
    s.chars().collect()
}

#[test]
fn integers_read_as_std_reads_them() {
    let samples = [
        "0", "+0", "-0", "42", "+42", "-42", "", "+", "-", "++1", "+-1", "1 ", " 1", "1a", "٣",
        "65535", "65536", "-1", "2147483647", "2147483648", "-2147483648", "-2147483649",
        "9223372036854775807", "9223372036854775808", "-9223372036854775808", "18446744073709551615",
        "18446744073709551616", "340282366920938463463374607431768211456", "000000000000000000000000001",
    ];
    for s in samples {
        let c = chars(s);
        assert_eq!(parse_i32(&c), s.parse::<i32>().ok(), "i32 {s}");
        assert_eq!(parse_i64(&c), s.parse::<i64>().ok(), "i64 {s}");
        assert_eq!(parse_u16(&c), s.parse::<u16>().ok(), "u16 {s}");
        assert_eq!(parse_usize(&c), s.parse::<usize>().ok(), "usize {s}");
    }
}

#[test]
fn decimal_strings() {
    for n in [0u64, 7, 10, 99, 100, 1700000000, u64::MAX] {
        assert_eq!(decimal_string(n), n.to_string());
        let back = parse_usize(&chars(&decimal_string(n)));
        assert_eq!(back.map(|v| v as u64), Some(n));
    }
}

#[test]
fn words_split_as_std_splits() {
    let samples = ["", "   ", "a", " a b  c ", "\tx\ny\u{3000}z\u{85}w", "GET /tts HTTP/1.1\r\n", "中 文"];
    for s in samples {
        let ours = split_whitespace(s);
        let theirs: Vec<String> = s.split_whitespace().map(|w| w.to_string()).collect();
        assert_eq!(ours, theirs, "{s:?}");
    }
}

#[test]
fn first_characters() {
    assert_eq!(take_chars("héllo", 2), "hé");
    assert_eq!(take_chars("ab", 5), "ab");
    assert_eq!(take_chars("", 0), "");
}
