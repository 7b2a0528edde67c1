use ldos_tables::git_info::{git_info, on_one_line};

#[test]
fn description_is_put_on_one_line() {
    assert_eq!(git_info(b"v1.0-3-gabc1234-dirty\n"), "v1.0-3-gabc1234-dirty");
    assert_eq!(git_info(b"a\nb\n\nc \t\r\n\n"), "a; b; ; c");
    assert_eq!(git_info(b""), "");
    assert_eq!(git_info(b" \n "), "");
    assert_eq!(git_info(b"  a"), "  a");
}

#[test]
fn invalid_bytes_are_replaced() {
    assert_eq!(git_info(b"a\xffb\n"), "a\u{fffd}b");
    assert_eq!(git_info("\u{e9}\n\u{4e2d}\u{2003}".as_bytes()), "\u{e9}; \u{4e2d}");
}

#[test]
fn one_line_is_kept() {
    assert_eq!(on_one_line("abc1234"), "abc1234");
    assert_eq!(on_one_line("x\r\ny"), "x\r; y");
}

#[test]
fn white_space_is_that_of_unicode() {
    let white = [
        '\u{9}', '\u{a}', '\u{b}', '\u{c}', '\u{d}', ' ', '\u{85}', '\u{a0}', '\u{1680}', '\u{2000}',
        '\u{2001}', '\u{2002}', '\u{2003}', '\u{2004}', '\u{2005}', '\u{2006}', '\u{2007}', '\u{2008}',
        '\u{2009}', '\u{200a}', '\u{2028}', '\u{2029}', '\u{202f}', '\u{205f}', '\u{3000}',
    ];
    for c in '\u{0}'..=char::MAX {
        let text = format!("a{}", c);
        let expected = if white.contains(&c) { "a" } else { text.as_str() };
        assert_eq!(on_one_line(text.as_str()), expected);
    }
}
