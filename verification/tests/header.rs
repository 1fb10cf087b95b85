use for_lowering::ir::{JsExpr, VStr};
use for_lowering::text::{
    char_is_whitespace, find, matches_at, str_chars, str_eq, str_is_blank, trim_range,
};
use for_lowering::v_for::{parse_for_expr, simple_var, split_v_for_iter};

fn to_str<'a>(e: JsExpr<'a>) -> &'a str {
    if let JsExpr::Simple(v) = e {
        v.raw
    } else {
        panic!("invalid js expression");
    }
}

fn check_equal(src: &str, expect: (&str, &str, Option<&str>, Option<&str>)) {
    let (src, ret) = parse_for_expr(VStr::raw(src)).expect("should parse");
    assert_eq!(to_str(src), expect.0);
    assert_eq!(to_str(ret.value), expect.1);
    assert_eq!(ret.key.map(to_str), expect.2);
    assert_eq!(ret.index.map(to_str), expect.3);
}

#[test]
fn test_parse_for_expr() {
    for (src, expect) in vec![
        ("a in [123]", ("[123]", "a", None, None)),
        ("   in [123]", ("[123]", "", None, None)),
        ("   a      in     [123]    ", ("[123]", "a", None, None)),
        ("a, b, c   in p ", ("p", "a", "b".into(), "c".into())),
        ("{a, b, c} in p ", ("p", "{a, b, c}", None, None)),
        ("{a, b}, c in p ", ("p", "{a, b}", "c".into(), None)),
        ("[a,] , b in p ", ("p", "[a,]", "b".into(), None)),
    ] {
        check_equal(src, expect);
    }
}

#[test]
fn test_parse_invalid_for() {
    for src in vec![""] {
        assert!(parse_for_expr(VStr::raw(src)).is_none());
    }
}

#[test]
fn parse_without_separator_fails() {
    for src in vec!["a", "items", "a in", "in b", "a of", "ain b", "a inb", "a  in", "a\tin\tb", "   "] {
        assert!(parse_for_expr(VStr::raw(src)).is_none(), "{:?}", src);
    }
}

#[test]
fn parse_of_header() {
    check_equal("item of items", ("items", "item", None, None));
    check_equal("  [v, k] of  map ", ("map", "[v, k]", None, None));
    check_equal("(v, k) of map", ("map", "(v", Some("k)"), None));
    check_equal("v, k, i of obj", ("obj", "v", Some("k"), Some("i")));
}

#[test]
fn parse_recovers_trimmed_source() {
    for (pattern, src) in vec![
        ("a", "b"),
        ("", ""),
        ("x, y", "  list  "),
        ("{a, b}", "\tfoo.bar(1, 2)\n"),
        ("a", "\u{3000}wide\u{a0}"),
        ("a", "   "),
    ] {
        for sep in vec![" in ", " of "] {
            let header = format!("{}{}{}", pattern, sep, src);
            let (source, _) = parse_for_expr(VStr::raw(&header)).expect("should parse");
            assert_eq!(to_str(source), src.trim());
        }
    }
}

#[test]
fn parse_cuts_at_first_in() {
    check_equal("a in b in c", ("b in c", "a", None, None));
    check_equal("x in in y", ("in y", "x", None, None));
    check_equal("a of b in c", ("c", "a of b", None, None));
    check_equal("a in b of c", ("b of c", "a", None, None));
    check_equal("a of b of c", ("b of c", "a", None, None));
}

#[test]
fn parse_unbalanced_brackets_fall_back_to_one_value() {
    check_equal("a, b] in list", ("list", "a, b]", None, None));
    check_equal("a}, b, c} of list", ("list", "a}, b, c}", None, None));
    check_equal("}a, i in list", ("list", "}a", Some("i"), None));
}

#[test]
fn parse_empty_sides() {
    check_equal(" in ", ("", "", None, None));
    check_equal(" of ", ("", "", None, None));
    check_equal("a in ", ("", "a", None, None));
    check_equal(" , in x", ("x", "", Some(""), None));
}

#[test]
fn parse_trims_unicode_white_space() {
    check_equal(
        "\u{2003}a\u{a0},\u{2028}b\u{85} in \u{3000}p\u{1680}",
        ("p", "a", Some("b"), None),
    );
    check_equal("\u{200b}a in b", ("b", "\u{200b}a", None, None));
}

#[test]
fn split_names_from_the_end() {
    assert_eq!(split_v_for_iter("a"), ("a", None, None));
    assert_eq!(split_v_for_iter(""), ("", None, None));
    assert_eq!(split_v_for_iter("a,b"), ("a", Some("b"), None));
    assert_eq!(split_v_for_iter("a , b , c"), ("a", Some("b"), Some("c")));
    assert_eq!(split_v_for_iter("a,b,c,d"), ("a,b", Some("c"), Some("d")));
    assert_eq!(split_v_for_iter(","), ("", Some(""), None));
    assert_eq!(split_v_for_iter(",,"), ("", Some(""), Some("")));
    assert_eq!(split_v_for_iter(" x "), (" x ", None, None));
}

#[test]
fn split_keeps_destructuring_in_one_piece() {
    assert_eq!(split_v_for_iter("{a, b, c}"), ("{a, b, c}", None, None));
    assert_eq!(split_v_for_iter("[a, b]"), ("[a, b]", None, None));
    assert_eq!(split_v_for_iter("{a, b}, c"), ("{a, b}", Some("c"), None));
    assert_eq!(split_v_for_iter("{a, b}, k, i"), ("{a, b}", Some("k"), Some("i")));
    assert_eq!(split_v_for_iter("[a,] , b"), ("[a,]", Some("b"), None));
    assert_eq!(split_v_for_iter("a, b}, c"), ("a, b}", Some("c"), None));
    assert_eq!(split_v_for_iter("a, b, c}"), ("a, b, c}", None, None));
    assert_eq!(split_v_for_iter("a, b, c]"), ("a, b, c]", None, None));
    assert_eq!(split_v_for_iter("a, {b, c"), ("a", Some("{b"), Some("c")));
    assert_eq!(split_v_for_iter(" {a}, b} "), (" {a}, b} ", None, None));
}

#[test]
fn simple_var_wraps_the_text() {
    assert_eq!(simple_var("items"), JsExpr::Simple(VStr { raw: "items" }));
    assert_eq!(VStr::raw("x").raw, "x");
}

#[test]
fn white_space_is_that_of_std() {
    let mut c: u32 = 0;
    while c <= 0x10FFFF {
        if let Some(ch) = char::from_u32(c) {
            assert_eq!(char_is_whitespace(ch), ch.is_whitespace(), "U+{:04X}", c);
        }
        c += 1;
    }
}

#[test]
fn chars_of_a_string() {
    assert_eq!(str_chars(""), Vec::<char>::new());
    assert_eq!(str_chars("a\u{e9}\u{3000}\u{1F600}"), vec!['a', '\u{e9}', '\u{3000}', '\u{1F600}']);
}

#[test]
fn trim_range_matches_std_trim() {
    for s in vec!["", " ", "a", "  a b  ", "\t\n x \r\n", "\u{a0}\u{e9}\u{2009}", "   ", "a  "] {
        let v = str_chars(s);
        let (a, b) = trim_range(&v, 0, v.len());
        let got: String = v[a..b].iter().collect();
        assert_eq!(got, s.trim());
    }
    let v = str_chars("ab  cd  ef");
    assert_eq!(trim_range(&v, 2, 8), (4, 6));
    assert_eq!(trim_range(&v, 2, 4), (4, 4));
    assert_eq!(trim_range(&v, 3, 3), (3, 3));
}

#[test]
fn find_gives_the_leftmost_occurrence() {
    for (hay, pat) in vec![
        ("a in b in c", " in "),
        ("in in", " in "),
        ("", ""),
        ("abc", ""),
        ("", "a"),
        ("aaa", "aa"),
        ("abcabc", "bc"),
        ("abc", "abcd"),
        ("abc", "abc"),
        ("\u{e9}\u{e9}x", "x"),
    ] {
        let got = find(&str_chars(hay), &str_chars(pat));
        let expect = hay.find(pat).map(|b| hay[..b].chars().count());
        assert_eq!(got, expect, "{:?} in {:?}", pat, hay);
    }
}

#[test]
fn matches_at_compares_in_place() {
    let hay = str_chars("a in b");
    let pat = str_chars(" in ");
    assert!(matches_at(&hay, &pat, 1));
    assert!(!matches_at(&hay, &pat, 0));
    assert!(!matches_at(&hay, &pat, 2));
    assert!(matches_at(&hay, &str_chars(""), 6));
}

#[test]
fn blank_and_equal_strings() {
    assert!(str_is_blank(""));
    assert!(str_is_blank(" \t\n\u{3000}"));
    assert!(!str_is_blank(" a "));
    assert!(str_eq("for", "for"));
    assert!(str_eq("", ""));
    assert!(!str_eq("for", "fo"));
    assert!(!str_eq("for", "fob"));
    assert!(!str_eq("for", "form"));
}
