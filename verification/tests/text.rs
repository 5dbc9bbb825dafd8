use zq::text::{
    begins_with, chars_of, decimal_string, find_text, is_white_space, parse_unsigned, split_lines,
    string_of, tail_after, text_contains, trim,
};

#[test]
fn white_space_is_what_the_standard_library_takes_for_it() {
    for u in 0..=0x10ffffu32 {
        if let Some(c) = char::from_u32(u) {
            assert_eq!(is_white_space(c), c.is_whitespace(), "{:x}", u);
        }
    }
}

fn samples() -> Vec<&'static str> {
    vec![
        "",
        "\n",
        "\r\n",
        "a",
        "a\n",
        "a\r\n",
        "a\r",
        "a\n\nb",
        "a\r\r\nb\r",
        " x \t",
        "\u{3000}y\u{a0}",
        "no/slash/here",
        "/",
        "a\u{e9}\u{1f600}b",
    ]
}

#[test]
fn texts_are_cut_as_by_the_standard_library() {
    for s in samples() {
        let cs = chars_of(s);
        assert_eq!(string_of(&cs), s);
        assert_eq!(string_of(trim(&cs)), s.trim());
        let lines: Vec<String> = split_lines(&cs).iter().map(|l| string_of(l)).collect();
        assert_eq!(lines, s.lines().collect::<Vec<_>>());
        assert_eq!(string_of(tail_after(&cs, '/')), s.rsplit('/').next().unwrap());
    }
}

#[test]
fn texts_are_searched_as_by_the_standard_library() {
    for s in samples() {
        for p in ["", "a", "/", "\r\n", "here", "b", "slash/"] {
            let found = find_text(&chars_of(s), &chars_of(p));
            assert_eq!(found, s.find(p).map(|i| s[..i].chars().count()));
            assert_eq!(text_contains(s, p), s.contains(p));
            assert_eq!(begins_with(&chars_of(s), p), s.starts_with(p));
        }
    }
}

#[test]
fn numbers_are_written_and_read_as_by_the_standard_library() {
    for n in [0u64, 9, 10, 99, 100, 65535, 4294967295, 4294967296, u64::MAX] {
        assert_eq!(decimal_string(n), n.to_string());
    }
    for s in ["", "0", "+7", "-7", "+", "007", "4294967295", "4294967296", "1x", " 1", "\u{661}"] {
        assert_eq!(parse_unsigned(&chars_of(s), u32::MAX), s.parse::<u32>().ok(), "{s}");
        assert_eq!(
            parse_unsigned(&chars_of(s), 65535),
            s.parse::<u16>().ok().map(|n| n as u32),
            "{s}"
        );
    }
}
