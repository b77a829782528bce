use second_opinion::decimal::{
    format_i32, format_u16, parse_i32, parse_pid_text, parse_port_text, parse_u16,
    trim_white_space,
};

#[test]
fn parse_u16_accepts_plain_digits() {
    assert_eq!(parse_u16("7878"), Some(7878));
    assert_eq!(parse_u16("0"), Some(0));
    assert_eq!(parse_u16("65535"), Some(65535));
    assert_eq!(parse_u16("007"), Some(7));
}

#[test]
fn parse_u16_accepts_a_plus_sign() {
    assert_eq!(parse_u16("+80"), Some(80));
}

#[test]
fn parse_u16_refuses_what_std_refuses() {
    for s in ["", "+", "-1", "-0", "65536", "99999999999", "12a", " 80", "80 ", "1_000", "٣"] {
        assert_eq!(parse_u16(s), s.parse::<u16>().ok(), "input {:?}", s);
        assert_eq!(parse_u16(s), None, "input {:?}", s);
    }
}

#[test]
fn parse_i32_follows_std() {
    for s in [
        "0", "-0", "+0", "123", "-123", "2147483647", "2147483648", "-2147483648",
        "-2147483649", "-", "+", "", "--1", "+-1", "4x", "00042",
    ] {
        assert_eq!(parse_i32(s), s.parse::<i32>().ok(), "input {:?}", s);
    }
    assert_eq!(parse_i32("-2147483648"), Some(i32::MIN));
}

#[test]
fn trim_removes_unicode_white_space() {
    assert_eq!(trim_white_space("  42\n"), "42");
    assert_eq!(trim_white_space("\t\u{a0}x y\u{3000}\r"), "x y");
    assert_eq!(trim_white_space("   "), "");
    assert_eq!(trim_white_space(""), "");
    let samples = ["\u{85}a\u{2028}", "\u{1680}\u{200a}b\u{205f}", "\u{200b}c", " d \u{feff}"];
    for s in samples {
        assert_eq!(trim_white_space(s), s.trim(), "input {:?}", s);
    }
}

#[test]
fn state_file_text_is_read_after_trimming() {
    assert_eq!(parse_pid_text("12345\n"), Some(12345));
    assert_eq!(parse_pid_text(" -7 "), Some(-7));
    assert_eq!(parse_pid_text("abc"), None);
    assert_eq!(parse_port_text("8080\n"), Some(8080));
    assert_eq!(parse_port_text("\n"), None);
}

#[test]
fn numbers_are_written_as_to_string_writes_them() {
    for n in [0u16, 7, 10, 99, 100, 7878, 65535] {
        assert_eq!(format_u16(n), n.to_string());
    }
    for n in [0i32, 1, -1, 42, -42, 1000000, i32::MAX, i32::MIN] {
        assert_eq!(format_i32(n), n.to_string());
    }
}

#[test]
fn written_state_files_read_back() {
    for p in [0u16, 1, 9, 10, 7878, 65535] {
        assert_eq!(parse_port_text(&format_u16(p)), Some(p));
    }
    for p in [0i32, 1, 31337, -5, i32::MAX, i32::MIN] {
        assert_eq!(parse_pid_text(&format_i32(p)), Some(p));
    }
}
