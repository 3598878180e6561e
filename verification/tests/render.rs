use xkcd::render::{escape_str, fmt_usize, render_json, render_text};

#[test]
fn decimal_formatting_exact_values() {
    assert_eq!(fmt_usize(0), "0");
    assert_eq!(fmt_usize(7), "7");
    assert_eq!(fmt_usize(10), "10");
    assert_eq!(fmt_usize(500), "500");
    assert_eq!(fmt_usize(usize::MAX), format!("{}", usize::MAX));
}

#[test]
fn escaping_quotes_backslashes_and_controls() {
    assert_eq!(escape_str("plain"), "plain");
    assert_eq!(escape_str("a\"b"), "a\\\"b");
    assert_eq!(escape_str("a\\b"), "a\\\\b");
    assert_eq!(escape_str("a\nb"), "a\\u000ab");
    assert_eq!(escape_str("\u{1f}"), "\\u001f");
    assert_eq!(escape_str("caf\u{e9}"), "caf\u{e9}");
}

#[test]
fn text_rendering_exact_block() {
    let out = render_text("T", 12, "3-4-2010", "D", "https://example.com/i.png");
    assert_eq!(
        out,
        "Title: T\nComic No: 12\nDate: 3-4-2010\nDescription: D\nImage: https://example.com/i.png\n"
    );
}

#[test]
fn json_rendering_exact_object() {
    let out = render_json("T", 12, "3-4-2010", "D", "https://example.com/i.png");
    assert_eq!(
        out,
        "{\"title\":\"T\",\"num\":12,\"date\":\"3-4-2010\",\"desc\":\"D\",\
         \"img_url\":\"https://example.com/i.png\"}"
    );
}
