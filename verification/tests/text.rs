use gitscribe_core::text::{indent, split_lines, strip_cr, trim, trim_end_matches, white_space};

fn samples() -> Vec<&'static str> {
    vec![
        "",
        " ",
        "a",
        "  a b  ",
        "\n\t x \r\n",
        "\u{00A0}x\u{3000}",
        "\u{2003}\u{2028}\u{2029}",
        "\u{200B}x\u{200B}",
        "x\u{0085}",
        "\u{1680}\u{202F}\u{205F}y z\u{2000}\u{200A}",
        "é ü ",
        "- one\n- two",
    ]
}

#[test]
fn white_space_agrees_with_std_on_every_char() {
    let mut code: u32 = 0;
    while code <= 0x10FFFF {
        if let Some(c) = char::from_u32(code) {
            assert_eq!(white_space(c), c.is_whitespace(), "U+{:04X}", code);
        }
        code += 1;
    }
}

#[test]
fn trim_agrees_with_std() {
    for s in samples() {
        assert_eq!(trim(s), s.trim(), "{:?}", s);
    }
}

#[test]
fn trim_exact_values() {
    assert_eq!(trim("  a b  "), "a b");
    assert_eq!(trim(" \n\t"), "");
    assert_eq!(trim(""), "");
    assert_eq!(trim("x"), "x");
    assert_eq!(trim("\u{200B} x"), "\u{200B} x");
}

#[test]
fn trim_end_matches_removes_the_whole_run() {
    assert_eq!(trim_end_matches("http://h/", '/'), "http://h");
    assert_eq!(trim_end_matches("http://h///", '/'), "http://h");
    assert_eq!(trim_end_matches("http://h", '/'), "http://h");
    assert_eq!(trim_end_matches("///", '/'), "");
    assert_eq!(trim_end_matches("", '/'), "");
    assert_eq!(trim_end_matches("/a/b", '/'), "/a/b");
    for s in ["a/", "/", "a//b//", "é/"] {
        assert_eq!(trim_end_matches(s, '/'), s.trim_end_matches('/'));
    }
}

#[test]
fn strip_cr_removes_one_carriage_return() {
    assert_eq!(strip_cr("a\r"), "a");
    assert_eq!(strip_cr("a\r\r"), "a\r");
    assert_eq!(strip_cr("a"), "a");
    assert_eq!(strip_cr(""), "");
    assert_eq!(strip_cr("\ra"), "\ra");
}

#[test]
fn split_lines_agrees_with_std() {
    let cases = [
        "",
        "\n",
        "a",
        "a\n",
        "a\nb",
        "a\r\nb\r\n",
        "a\n\nb",
        "a\r",
        "a\r\n\r",
        "\r\n",
        "main\ndev\nv1.0",
        "x\r\r\ny",
        "\n\n",
    ];
    for s in cases {
        let expected: Vec<String> = s.lines().map(|l| l.to_string()).collect();
        assert_eq!(split_lines(s), expected, "{:?}", s);
    }
}

#[test]
fn split_lines_exact_values() {
    assert_eq!(split_lines("main\ndev\r\nv1.0\n"), vec!["main", "dev", "v1.0"]);
    assert_eq!(split_lines(""), Vec::<String>::new());
    assert_eq!(split_lines("\n"), vec![""]);
}

#[test]
fn indent_puts_two_blanks_after_each_line_feed() {
    assert_eq!(indent("one\ntwo\nthree"), "one\n  two\n  three");
    assert_eq!(indent("plain"), "plain");
    assert_eq!(indent(""), "");
    assert_eq!(indent("\n"), "\n  ");
    for s in ["a\n\nb", "é\nü", "\n\n"] {
        assert_eq!(indent(s), s.replace('\n', "\n  "));
    }
}
