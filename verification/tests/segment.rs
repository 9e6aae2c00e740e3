use oxc_tailwindcss::segment::{decode_arbitrary, is_valid_arbitrary, segment};

#[test]
fn splits_only_at_top_level() {
    assert_eq!(segment("hover:[&:focus]:block", b':'), ["hover", "[&:focus]", "block"]);
    assert_eq!(segment("bg-[url('a/b')]/50", b'/'), ["bg-[url('a/b')]", "50"]);
}

#[test]
fn validates_arbitrary_values() {
    assert!(is_valid_arbitrary("color-mix(in_oklab,red_50%,blue)"));
    assert!(!is_valid_arbitrary("red;display:block"));
    assert!(!is_valid_arbitrary("calc(1+2"));
}

#[test]
fn decodes_underscores() {
    assert_eq!(decode_arbitrary("hello_world"), "hello world");
    assert_eq!(decode_arbitrary(r"hello\_world"), "hello_world");
    assert_eq!(decode_arbitrary("var(--my_value,_fallback)"), "var(--my_value, fallback)");
}

#[test]
fn segment_keeps_escaped_and_quoted_separators() {
    assert_eq!(segment(r"a\:b:c", b':'), [r"a\:b", "c"]);
    assert_eq!(segment("content-['a:b']:x", b':'), ["content-['a:b']", "x"]);
    assert_eq!(segment("", b':'), [""]);
    assert_eq!(segment("a::b", b':'), ["a", "", "b"]);
    assert_eq!(segment("x{a:b}:y", b':'), ["x{a:b}", "y"]);
}

#[test]
fn segment_rejoins_with_the_separator() {
    for input in ["hover:[&:focus]:block", "a::b:", "(a:b):[c:d]:e", ""] {
        assert_eq!(segment(input, b':').join(":"), input);
    }
}

#[test]
fn arbitrary_values_reject_unbalanced_and_mismatched_brackets() {
    assert!(is_valid_arbitrary("a[b(c)]"));
    assert!(!is_valid_arbitrary("a[b)"));
    assert!(!is_valid_arbitrary("}"));
    assert!(is_valid_arbitrary("'a;b'"));
    assert!(is_valid_arbitrary("(a;b)"));
    assert!(is_valid_arbitrary(""));
}

#[test]
fn decoding_nested_variables() {
    assert_eq!(decode_arbitrary("var(--a_b,var(--c_d))_x"), "var(--a_b,var(--c_d)) x");
    assert_eq!(decode_arbitrary("a_b"), "a b");
    assert_eq!(decode_arbitrary("é_ü"), "é ü");
}

#[test]
fn valid_arbitrary_values_compose() {
    let parts = ["1px", "calc(1px+2px)", "a[b(c)]", ""];
    for a in parts {
        assert!(is_valid_arbitrary(a));
        assert!(is_valid_arbitrary(&format!("({a})")));
        assert!(is_valid_arbitrary(&format!("[{a}]")));
        for b in parts {
            assert!(is_valid_arbitrary(&format!("{a}{b}")));
        }
    }
}
