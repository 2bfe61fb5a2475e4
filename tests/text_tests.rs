use voxweave::text::{clean_text, collapse_whitespace};

#[test]
fn trims_and_collapses_whitespace_per_line() {
    let original = "  Hello   world  \nThis   is   a  test ";
    let result = clean_text(original, false);
    assert_eq!(result, "Hello world\nThis is a test");
}

#[test]
fn reduces_multiple_blank_lines() {
    let original = "Line1\n\n\n\nLine2";
    let result = clean_text(original, false);
    assert_eq!(result, "Line1\n\nLine2");
}

#[test]
fn replaces_single_newlines_when_enabled() {
    let original = "Line1\nLine2\n\nLine3";
    let result = clean_text(original, true);
    assert_eq!(result, "Line1 Line2\n\nLine3");
}

#[test]
fn empty_input_cleans_to_empty() {
    assert_eq!(clean_text("", false), "");
    assert_eq!(clean_text(" \n\t\n ", true), "");
}

#[test]
fn cleaning_twice_changes_nothing() {
    let samples = [
        "  a \t b \r\n\n\n c  \n d ",
        "x\n\ny\nz",
        "\u{a0}lead and trail\u{3000}",
        "one\n \n \ntwo",
    ];
    for s in samples {
        for fold in [false, true] {
            let once = clean_text(s, fold);
            assert_eq!(clean_text(&once, fold), once);
        }
    }
}

#[test]
fn blank_lines_with_spaces_count_as_paragraph_breaks() {
    assert_eq!(clean_text("a\n   \n\t\nb", false), "a\n\nb");
    assert_eq!(clean_text("a\n   \nb", true), "a\n\nb");
}

#[test]
fn collapse_keeps_newlines_and_trims() {
    assert_eq!(collapse_whitespace("  a \t b  "), "a b");
    assert_eq!(collapse_whitespace("a \n  b"), "a \n b");
    assert_eq!(collapse_whitespace("   "), "");
}
