use judgeman::text::{
    from_chars_range, is_ascii_digit, is_white_space, push_decimal, to_chars, trim,
};
use judgeman::{html_escape, sanitise_paragraph, section_number_check};

#[test]
fn escape_replaces_each_special_character() {
    assert_eq!(html_escape("&"), "&amp;");
    assert_eq!(html_escape("<"), "&lt;");
    assert_eq!(html_escape(">"), "&gt;");
    assert_eq!(html_escape("\""), "&quot;");
    assert_eq!(html_escape("'"), "&#39;");
}

#[test]
fn escape_keeps_other_text() {
    assert_eq!(html_escape(""), "");
    assert_eq!(html_escape("ABC v DEF"), "ABC v DEF");
    assert_eq!(html_escape("日本語 é"), "日本語 é");
}

#[test]
fn escape_of_script_tag() {
    assert_eq!(
        html_escape("<script>alert('x' & \"y\")</script>"),
        "&lt;script&gt;alert(&#39;x&#39; &amp; &quot;y&quot;)&lt;/script&gt;"
    );
}

#[test]
fn escape_does_not_escape_twice_in_one_pass() {
    assert_eq!(html_escape("&lt;"), "&amp;lt;");
    assert_eq!(html_escape("&&"), "&amp;&amp;");
}

#[test]
fn escape_agrees_with_chained_replace() {
    let samples = ["a<b>c", "x & y", "\"q\" 'r'", "<<>>&&''\"\"", "plain", "&amp;<&lt;"];
    for s in samples {
        let expected = s
            .replace('&', "&amp;")
            .replace('<', "&lt;")
            .replace('>', "&gt;")
            .replace('"', "&quot;")
            .replace('\'', "&#39;");
        assert_eq!(html_escape(s), expected);
    }
}

#[test]
fn escaped_text_has_no_markup_character() {
    let out = html_escape("<a href=\"x\" title='y'>&</a>");
    assert!(!out.contains('<'));
    assert!(!out.contains('>'));
    assert!(!out.contains('"'));
    assert!(!out.contains('\''));
}

#[test]
fn number_check_accepts_leading_digit_only() {
    assert!(section_number_check("1 The facts"));
    assert!(section_number_check("0"));
    assert!(section_number_check("9."));
    assert!(!section_number_check(""));
    assert!(!section_number_check(" 1"));
    assert!(!section_number_check("a1"));
    assert!(!section_number_check("１２"));
}

#[test]
fn sanitise_strips_number_and_space() {
    assert_eq!(sanitise_paragraph("12 Hello world"), "Hello world");
    assert_eq!(sanitise_paragraph("  3\tX y "), "X y ");
    assert_eq!(sanitise_paragraph("007"), "");
    assert_eq!(sanitise_paragraph("45abc"), "abc");
    assert_eq!(sanitise_paragraph("1\u{3000}\u{a0}text"), "text");
}

#[test]
fn sanitise_keeps_text_without_number() {
    assert_eq!(sanitise_paragraph("abc 12"), "abc 12");
    assert_eq!(sanitise_paragraph(""), "");
    assert_eq!(sanitise_paragraph("   "), "");
    assert_eq!(sanitise_paragraph("  abc"), "abc");
    assert_eq!(sanitise_paragraph("１２ abc"), "１２ abc");
}

#[test]
fn sanitise_strips_one_run_of_digits_only() {
    assert_eq!(sanitise_paragraph("1 2 three"), "2 three");
    assert_eq!(sanitise_paragraph("1.2 three"), ".2 three");
}

#[test]
fn trim_removes_space_at_both_ends() {
    assert_eq!(trim(" ABC v DEF "), "ABC v DEF");
    assert_eq!(trim("\n\t x \r\n"), "x");
    assert_eq!(trim(""), "");
    assert_eq!(trim(" \u{2003} "), "");
    assert_eq!(trim("\u{a0}a b\u{3000}"), "a b");
    assert_eq!(trim("no space"), "no space");
}

#[test]
fn trim_agrees_with_std() {
    let samples = ["  a  ", "\u{85}x\u{1680}", "\u{200b}y ", "\u{2028}\u{2029}z\u{202f}\u{205f}", "\u{feff}w"];
    for s in samples {
        assert_eq!(trim(s), s.trim());
    }
}

#[test]
fn white_space_agrees_with_std_on_every_character() {
    let mut n: u32 = 0;
    while n <= 0x10FFFF {
        if let Some(c) = char::from_u32(n) {
            assert_eq!(is_white_space(c), c.is_whitespace(), "at {:x}", n);
            assert_eq!(is_ascii_digit(c), c.is_ascii_digit(), "at {:x}", n);
        }
        n += 1;
    }
}

#[test]
fn chars_round_trip() {
    let s = "a<é日 \u{1F600}";
    let v = to_chars(s);
    assert_eq!(v, s.chars().collect::<Vec<char>>());
    assert_eq!(from_chars_range(&v, 0, v.len()), s);
    assert_eq!(from_chars_range(&v, 1, 3), "<é");
    assert_eq!(from_chars_range(&v, 2, 2), "");
}

#[test]
fn decimal_numerals() {
    let cases: [(u128, &str); 7] = [
        (0, "0"),
        (7, "7"),
        (9, "9"),
        (10, "10"),
        (109, "109"),
        (1234567890, "1234567890"),
        (u128::MAX, "340282366920938463463374607431768211455"),
    ];
    for (n, expected) in cases {
        let mut out = String::from("n=");
        push_decimal(&mut out, n);
        assert_eq!(out, format!("n={}", expected));
    }
}
