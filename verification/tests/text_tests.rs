use rocm_attr::text::{as_optional_text, compare_text, same_text, trim, white_space, TextOrder};

fn expected_order(a: &str, b: &str) -> TextOrder {
    if a < b {
        TextOrder::Before
    } else if a == b {
        TextOrder::Same
    } else {
        TextOrder::After
    }
}

#[test]
fn white_space_is_the_unicode_property_for_every_character() {
    let mut code: u32 = 0;
    while code <= 0x10FFFF {
        if let Some(c) = char::from_u32(code) {
            assert_eq!(white_space(c), c.is_whitespace(), "U+{:04X}", code);
        }
        code += 1;
    }
}

#[test]
fn white_space_named_cases() {
    assert!(white_space(' '));
    assert!(white_space('\t'));
    assert!(white_space('\n'));
    assert!(white_space('\u{b}'));
    assert!(white_space('\u{c}'));
    assert!(white_space('\r'));
    assert!(white_space('\u{85}'));
    assert!(white_space('\u{a0}'));
    assert!(white_space('\u{1680}'));
    assert!(white_space('\u{2000}'));
    assert!(white_space('\u{200a}'));
    assert!(white_space('\u{2028}'));
    assert!(white_space('\u{2029}'));
    assert!(white_space('\u{202f}'));
    assert!(white_space('\u{205f}'));
    assert!(white_space('\u{3000}'));
    assert!(!white_space('a'));
    assert!(!white_space('\u{8}'));
    assert!(!white_space('\u{e}'));
    assert!(!white_space('\u{1c}'));
    assert!(!white_space('\u{200b}'));
    assert!(!white_space('\u{feff}'));
}

#[test]
fn trim_drops_white_space_at_both_ends() {
    assert_eq!(trim(""), "");
    assert_eq!(trim("   "), "");
    assert_eq!(trim("a"), "a");
    assert_eq!(trim("  a"), "a");
    assert_eq!(trim("a  "), "a");
    assert_eq!(trim(" a b "), "a b");
    assert_eq!(trim("\n\t a \u{3000}b\u{2003}\r\n"), "a \u{3000}b");
}

#[test]
fn trim_counts_characters_not_bytes() {
    assert_eq!(trim("\u{a0}\u{e9}t\u{e9}\u{a0}"), "\u{e9}t\u{e9}");
    assert_eq!(trim(" \u{1f600} "), "\u{1f600}");
    assert_eq!(trim("\u{2028}\u{4e2d}\u{6587}\u{2029}"), "\u{4e2d}\u{6587}");
}

#[test]
fn trim_agrees_with_str_trim() {
    let samples = [
        "", " ", "x", " x", "x ", "  x  y  ", "\t\t", "\u{85}x\u{85}", "\u{1680}\u{2000}a\u{200a}",
        "a\u{205f}", "\u{202f}b", "\u{200b}c\u{200b}", "\u{1f}d\u{1c}", " \u{10ffff} ", "\u{d7ff} \u{e000}",
    ];
    for s in samples {
        assert_eq!(trim(s), s.trim(), "{:?}", s);
    }
}

#[test]
fn compare_text_orders_by_the_first_difference() {
    assert_eq!(compare_text("fn add", "fn sub"), TextOrder::Before);
    assert_eq!(compare_text("fn sub", "fn add"), TextOrder::After);
    assert_eq!(compare_text("fn add", "fn add"), TextOrder::Same);
    assert_eq!(compare_text("enum Qux", "fn foo"), TextOrder::Before);
    assert_eq!(compare_text("struct Bar", "impl Baz"), TextOrder::After);
}

#[test]
fn compare_text_puts_a_prefix_first() {
    assert_eq!(compare_text("", ""), TextOrder::Same);
    assert_eq!(compare_text("", "a"), TextOrder::Before);
    assert_eq!(compare_text("a", ""), TextOrder::After);
    assert_eq!(compare_text("fn a", "fn ab"), TextOrder::Before);
    assert_eq!(compare_text("fn ab", "fn a"), TextOrder::After);
}

#[test]
fn compare_text_goes_by_code_points() {
    assert_eq!(compare_text("Z", "a"), TextOrder::Before);
    assert_eq!(compare_text("z", "\u{e9}"), TextOrder::Before);
    assert_eq!(compare_text("\u{ffff}", "\u{10000}"), TextOrder::Before);
    assert_eq!(compare_text("\u{e000}", "\u{d7ff}"), TextOrder::After);
    assert_eq!(compare_text("a\u{1f600}", "a\u{1f600}"), TextOrder::Same);
}

#[test]
fn compare_text_agrees_with_the_order_of_str() {
    let samples = [
        "", "a", "A", "ab", "abc", "b", "fn add", "fn sub", "impl Foo", "unknown", "\u{e9}", "e\u{301}",
        "\u{7f}", "\u{80}", "\u{7ff}", "\u{800}", "\u{ffff}", "\u{10000}", "\u{10ffff}", "z\u{10ffff}", " ",
    ];
    for a in samples {
        for b in samples {
            assert_eq!(compare_text(a, b), expected_order(a, b), "{:?} {:?}", a, b);
        }
    }
}

#[test]
fn same_text_is_equality() {
    assert!(same_text("", ""));
    assert!(same_text("path", "path"));
    assert!(!same_text("path", "paths"));
    assert!(!same_text("gfx", "Gfx"));
    assert!(!same_text(",", ""));
}

#[test]
fn as_optional_text_borrows_what_is_there() {
    assert_eq!(as_optional_text(&None), None);
    assert_eq!(as_optional_text(&Some("gfx900".to_string())), Some("gfx900"));
}
