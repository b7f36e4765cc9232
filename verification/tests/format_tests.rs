use ava_apartment_finder::format::EventFormatter;
use ava_apartment_finder::format::EventStyle;
use ava_apartment_finder::format::EventVisitor;
use ava_apartment_finder::format::Level;
use ava_apartment_finder::wrap::TextWrapOptionsExt;
use ava_apartment_finder::wrap::options;

#[test]
fn test_wrap_splits_at_spaces() {
    let opts = options(8);
    let lines = opts.wrap("  foo bar");
    assert_eq!(lines, vec!["  foo".to_string(), "bar".to_string()]);
    assert_eq!(&opts.fill("  foo bar"), "  foo\nbar");
}

#[test]
fn test_wrap_applies_indents() {
    let mut opts = options(15);
    opts.initial_indent = "- ".to_string();
    opts.subsequent_indent = "  ".to_string();
    assert_eq!(
        &opts.fill("Memory safety without garbage collection."),
        "- Memory safety\n  without\n  garbage\n  collection."
    );
}

#[test]
fn test_decrease_width() {
    let opts = options(10).decrease_width(4);
    assert_eq!(opts.width, 6);
    let opts = options(3).decrease_width(10);
    assert_eq!(opts.width, 0);
}

#[test]
fn test_event_style_indents() {
    assert_eq!(&EventStyle::new(Level::Trace).indent_text, "TRACE ");
    assert_eq!(&EventStyle::new(Level::Debug).indent_text, "DEBUG ");
    assert_eq!(&EventStyle::new(Level::Info).indent_text, "• ");
    assert_eq!(&EventStyle::new(Level::Warn).indent_text, "⚠ ");
    assert_eq!(&EventStyle::new(Level::Error).indent_text, "⚠ ");
    assert_eq!(&EventStyle::new(Level::Info).subsequent_indent, "  ");
}

#[test]
fn test_style_field() {
    let style = EventStyle::new(Level::Info);
    assert_eq!(&style.style_field("total", "17"), "total=17");
}

#[test]
fn test_short_message_renders_on_one_line() {
    let mut visitor = EventVisitor::new(Level::Info);
    visitor.record("message", "hello");
    let mut formatter = EventFormatter::default();
    let out = formatter.format_event(&visitor, "12:00", 80);
    assert_eq!(&out, "• 12:00 hello\n");
    assert!(!formatter.last_event_was_long);
}

#[test]
fn test_single_small_field_joins_the_message_line() {
    let mut visitor = EventVisitor::new(Level::Info);
    visitor.record("message", "tick done");
    visitor.record("total", "3");
    let mut formatter = EventFormatter::default();
    let out = formatter.format_event(&visitor, "12:00", 80);
    assert_eq!(&out, "• 12:00 tick done total=3\n");
}

#[test]
fn test_many_fields_get_their_own_lines() {
    let mut visitor = EventVisitor::new(Level::Warn);
    visitor.record("message", "odd data");
    visitor.record("added", "2");
    visitor.record("removed", "1");
    let mut formatter = EventFormatter::default();
    let out = formatter.format_event(&visitor, "12:00", 80);
    assert_eq!(&out, "⚠ 12:00 odd data\n  added=2\n  removed=1\n");
}

#[test]
fn test_long_message_gets_blank_lines_once() {
    let mut visitor = EventVisitor::new(Level::Info);
    visitor.record("message", "a rather long message that will not fit one line");
    let mut formatter = EventFormatter::default();
    let first = formatter.format_event(&visitor, "12:00", 24);
    assert!(first.starts_with('\n'), "missing leading blank line: {first:?}");
    assert!(first.ends_with("\n\n"), "missing trailing blank line: {first:?}");
    assert!(formatter.last_event_was_long);
    // The next long message gets no second leading blank line.
    let second = formatter.format_event(&visitor, "12:01", 24);
    assert!(!second.starts_with('\n'), "unexpected leading blank line: {second:?}");
    assert!(second.ends_with("\n\n"));
}
