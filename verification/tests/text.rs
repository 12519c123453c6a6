use smolofis_panel::text::{
    leading_line, number, parse_u16, parse_u64, same, starts_with, trim, trim_slashes, white_space,
};

#[test]
fn white_space_is_that_of_unicode() {
    for code in 0..=0x10ffffu32 {
        if let Some(c) = char::from_u32(code) {
            assert_eq!(white_space(c), c.is_whitespace(), "{code:x}");
        }
    }
}

#[test]
fn trim_drops_white_space_at_both_ends() {
    for s in [
        "",
        " ",
        " \t\r\n ",
        "a",
        " a",
        "a ",
        "  a b  ",
        "\u{a0}\u{3000}grüße\u{2003}\u{85}",
        "\u{200b}x",
    ] {
        assert_eq!(trim(s), s.trim());
    }
}

#[test]
fn trim_slashes_drops_all_at_the_end() {
    assert_eq!(trim_slashes("http://host"), "http://host");
    assert_eq!(trim_slashes("http://host/"), "http://host");
    assert_eq!(trim_slashes("http://hôst///"), "http://hôst");
    assert_eq!(trim_slashes("///"), "");
    assert_eq!(trim_slashes(""), "");
}

#[test]
fn leading_line_is_the_first_of_lines() {
    for s in [
        "",
        "\n",
        "\r\n",
        "\r",
        "one",
        "one\r",
        "one\ntwo",
        "one\r\ntwo",
        "one\r\r\ntwo",
        "é\r\n",
    ] {
        assert_eq!(leading_line(s), s.lines().next(), "{s:?}");
    }
}

#[test]
fn number_is_decimal() {
    for n in [0, 7, 9, 10, 99, 100, 1_000_000, 1234567890, u64::MAX - 1, u64::MAX] {
        assert_eq!(number(n), n.to_string());
    }
}

#[test]
fn parsing_accepts_what_numbers_look_like() {
    for s in [
        "", "+", "-", "0", "+0", "-0", "00042", "+42", "++42", "4 2", " 42", "4_2", "0x10",
        "65535", "65536", "99999", "18446744073709551615", "18446744073709551616",
        "000000000000000000000000000000000000001", "99999999999999999999999", "1e3", "٣", "12x",
    ] {
        assert_eq!(parse_u64(s), s.parse::<u64>().ok(), "{s}");
        assert_eq!(parse_u16(s), s.parse::<u16>().ok(), "{s}");
    }
}

#[test]
fn starts_with_compares_from_the_start() {
    assert!(starts_with("HTTP/1.1 200 OK", "HTTP/1.1 200"));
    assert!(starts_with("HTTP/1.1 200", "HTTP/1.1 200"));
    assert!(!starts_with("HTTP/1.1 20", "HTTP/1.1 200"));
    assert!(!starts_with("HTTP/1.1 500", "HTTP/1.1 200"));
    assert!(starts_with("anything", ""));
}

#[test]
fn same_compares_texts() {
    assert!(same("gitea", "gitea"));
    assert!(!same("gitea", "gite"));
    assert!(!same("gitea", "Gitea"));
}
