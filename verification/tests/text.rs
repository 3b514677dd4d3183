use pyo3build::text::{
    comes_before, decimal_text, parse_u8, same_text, split_lines, to_chars, trim_end_text,
};

#[test]
fn numerals_are_written() {
    assert_eq!(decimal_text(0), "0");
    assert_eq!(decimal_text(9), "9");
    assert_eq!(decimal_text(10), "10");
    assert_eq!(decimal_text(255), "255");
    assert_eq!(decimal_text(1234567890), "1234567890");
    assert_eq!(decimal_text(usize::MAX), usize::MAX.to_string());
}

#[test]
fn numerals_are_read_like_std() {
    for s in [
        "0", "7", "007", "255", "256", "000255", "1000", "99999999999999999999", "", "+", "+5", "++5",
        "-0", "5a", "a", " 5", "\u{0663}", "+256",
    ] {
        assert_eq!(parse_u8(s), s.parse::<u8>().ok(), "{:?}", s);
    }
}

#[test]
fn every_u8_is_read_back() {
    for n in 0..=255u8 {
        assert_eq!(parse_u8(&decimal_text(n as usize)), Some(n));
    }
}

#[test]
fn lines_split_like_std() {
    for s in [
        "", "\n", "a", "a\n", "a\nb", "a\r\nb\r\n", "a\r\r\nb", "a\r", "\r\n", "\n\n", "a\n\nb\n",
        "\u{e9}\n\u{65e5}\u{672c}\r\nx",
    ] {
        let expected: Vec<String> = s.lines().map(|l| l.to_string()).collect();
        assert_eq!(split_lines(s), expected, "{:?}", s);
    }
}

#[test]
fn lines_are_read_back() {
    assert_eq!(split_lines("one\ntwo\n\nfour\n"), ["one", "two", "", "four"]);
}

#[test]
fn trimming_is_like_std() {
    for s in ["", " ", "a", "a \t\r\n", " a", "a\u{3000}\n", "a\u{a0}", "a\u{200b}", "a\u{b}\u{c}", "a\u{1c}"] {
        assert_eq!(trim_end_text(s), s.trim_end(), "{:?}", s);
    }
    assert_eq!(trim_end_text("cp36m\n"), "cp36m");
}

#[test]
fn order_is_like_std() {
    let texts = ["", "A", "AB", "B", "a", "\u{e9}", "\u{ffff}", "\u{10000}", "A_", "A0"];
    for a in texts {
        for b in texts {
            assert_eq!(comes_before(a, b), a < b, "{:?} {:?}", a, b);
            assert_eq!(same_text(a, b), a == b);
        }
    }
}

#[test]
fn characters_are_listed() {
    assert_eq!(to_chars("a\u{e9}b"), vec!['a', '\u{e9}', 'b']);
}
