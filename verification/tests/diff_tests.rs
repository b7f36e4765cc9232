use ava_apartment_finder::diff::diff;
use ava_apartment_finder::diff::diff_header;
use ava_apartment_finder::diff::diff_with_markers;

#[test]
fn test_diff_of_identical_texts_is_empty() {
    assert_eq!(&diff("a\nb\nc\n", "a\nb\nc\n"), "");
    assert_eq!(&diff("", ""), "");
    assert_eq!(&diff("single line", "single line"), "");
}

#[test]
fn test_diff_marks_changed_line_numbers_and_signs() {
    let rendered = diff("a\nb\n", "a\nc\n");
    assert_eq!(&rendered, "1   1    │ a\n2        │-b\n    2    │+c\n");
}

#[test]
fn test_diff_highlights_only_the_changed_tokens() {
    let rendered = diff_with_markers("price: 4260", "price: 4300", "«", "»");
    assert!(rendered.contains("«4260»"), "old value not emphasized: {rendered}");
    assert!(rendered.contains("«4300»"), "new value not emphasized: {rendered}");
    assert_eq!(rendered.matches('«').count(), 2, "unexpected emphasized spans: {rendered}");
    assert!(rendered.contains(" │-price: "), "old line not shown as deletion: {rendered}");
    assert!(rendered.contains(" │+price: "), "new line not shown as insertion: {rendered}");
}

#[test]
fn test_diff_keeps_three_context_lines_and_divides_hunks() {
    let old = "1\n2\n3\n4\n5\n6\n7\n8\n9\n10\n11\n12\n13\n14\n15\n";
    let new = "one\n2\n3\n4\n5\n6\n7\n8\n9\n10\n11\n12\n13\n14\nfifteen\n";
    let rendered = diff(old, new);
    // Three context lines after the first change.
    assert!(rendered.contains(" │-1\n"));
    assert!(rendered.contains(" │+one\n"));
    assert!(rendered.contains(" │ 4\n"));
    assert!(!rendered.contains(" │ 5\n"));
    // A divider separates the two hunks.
    assert!(rendered.contains('─'));
    assert!(rendered.contains(" │-15\n"));
    assert!(rendered.contains(" │+fifteen\n"));
}

#[test]
fn test_diff_header_labels_both_sides() {
    let rendered = diff_header("x\n", "y\n", "old label", "new label");
    assert!(rendered.starts_with("--- old label\n+++ new label\n"));
    assert!(rendered.contains(" │-x\n"));
    assert!(rendered.contains(" │+y\n"));
}

#[test]
fn test_diff_header_on_identical_texts_is_header_only() {
    let rendered = diff_header("same\n", "same\n", "before", "after");
    assert_eq!(&rendered, "--- before\n+++ after\n");
}
