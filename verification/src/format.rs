//! Rendering of log events for the console: a level-dependent indent,
//! one short or long layout for the event's fields, wrapping to the
//! terminal width, and blank lines around long messages.
//!
//! The state the layout depends on is explicit: the caller hands in the
//! formatted timestamp, the terminal width, and whether the previous
//! message was long, so rendering is a function of its arguments.

use vstd::prelude::*;

use crate::strutil::push_char;
use crate::wrap::TextWrapOptionsExt;
use crate::wrap::WrapOptions;
use crate::wrap::wrapped_lines;

verus! {

/// A log level.
#[derive(Clone, Copy, PartialEq, Eq, Structural, Debug)]
pub enum Level {
    Trace,
    Debug,
    Info,
    Warn,
    Error,
}

/// The first-line indent for each level.
pub open spec fn event_indent_text(level: Level) -> Seq<char> {
    match level {
        Level::Trace => "TRACE "@,
        Level::Debug => "DEBUG "@,
        Level::Info => "• "@,
        Level::Warn => "⚠ "@,
        Level::Error => "⚠ "@,
    }
}

/// Layout text for one event: the first-line indent and the indent of
/// every following line.
#[derive(Debug)]
pub struct EventStyle {
    pub indent_text: String,
    pub subsequent_indent: String,
}

impl EventStyle {
    /// The layout for the given level.
    pub fn new(level: Level) -> (r: EventStyle)
        ensures
            r.indent_text@ == event_indent_text(level),
            r.subsequent_indent@ == "  "@,
    {
        let indent_text = match level {
            Level::Trace => "TRACE ",
            Level::Debug => "DEBUG ",
            Level::Info => "• ",
            Level::Warn => "⚠ ",
            Level::Error => "⚠ ",
        };
        EventStyle { indent_text: String::from_str(indent_text), subsequent_indent: String::from_str("  ") }
    }

    /// One field rendered as `name=value`.
    pub fn style_field(&self, name: &str, value: &str) -> (r: String)
        ensures
            r@ == name@ + "="@ + value@,
    {
        let mut r = String::from_str(name);
        r.append("=");
        r.append(value);
        r
    }
}

/// The recorded content of one event: its level, its message, and its
/// named fields in recording order.
#[derive(Debug)]
pub struct EventVisitor {
    pub level: Level,
    pub message: String,
    pub fields: Vec<(String, String)>,
}

#[verifier::ext_equal]
pub struct EventVisitorV {
    pub level: Level,
    pub message: Seq<char>,
    pub fields: Seq<(Seq<char>, Seq<char>)>,
}

pub open spec fn fields_view(s: Seq<(String, String)>) -> Seq<(Seq<char>, Seq<char>)> {
    s.map_values(|e: (String, String)| (e.0@, e.1@))
}

impl EventVisitor {
    pub open spec fn v(self) -> EventVisitorV {
        EventVisitorV { level: self.level, message: self.message@, fields: fields_view(self.fields@) }
    }

    /// An empty event at the given level.
    pub fn new(level: Level) -> (r: EventVisitor)
        ensures
            r.level == level,
            r.message@ == Seq::<char>::empty(),
            r.fields@.len() == 0,
    {
        EventVisitor { level, message: String::new(), fields: Vec::new() }
    }

    /// Records one field: the field named `message` becomes the event's
    /// message, every other one is appended to the field list.
    pub fn record(&mut self, name: &str, value: &str)
        ensures
            final(self).level == old(self).level,
            name@ == "message"@ ==> final(self).message@ == value@ && final(self).fields@
                == old(self).fields@,
            name@ != "message"@ ==> final(self).message@ == old(self).message@
                && final(self).fields@.len() == old(self).fields@.len() + 1
                && final(self).fields@.last().0@ == name@
                && final(self).fields@.last().1@ == value@ && forall|i: int|
                0 <= i < old(self).fields@.len() ==> final(self).fields@[i] == old(self).fields@[i],
    {
        let is_message = {
            let n = String::from_str(name);
            let m = String::from_str("message");
            n == m
        };
        if is_message {
            self.message = String::from_str(value);
        } else {
            self.fields.push((String::from_str(name), String::from_str(value)));
        }
    }

    /// Whether the short, single-line layout applies: there is exactly
    /// one field and, counted in characters, `name=value` plus a space
    /// and the message still fit the width.
    pub fn use_short_format(&self, term_width: usize) -> (r: bool)
        ensures
            r == spec_use_short_format(self.v(), term_width as int),
    {
        if self.fields.len() != 1 {
            return false;
        }
        let name_len = self.fields[0].0.as_str().unicode_len();
        let value_len = self.fields[0].1.as_str().unicode_len();
        let message_len = self.message.as_str().unicode_len();
        let lhs = name_len as u128 + value_len as u128 + 2 + message_len as u128;
        lhs < term_width as u128
    }
}

/// The short layout applies when there is exactly one field and the
/// field, two extra characters, and the message together stay under the
/// width.
pub open spec fn spec_use_short_format(v: EventVisitorV, width: int) -> bool {
    v.fields.len() == 1 && v.fields[0].0.len() + v.fields[0].1.len() + 2 + v.message.len() < width
}

/// The fields appended to the message line in the short layout, each as
/// ` name=value`.
pub open spec fn short_fields_suffix(fields: Seq<(Seq<char>, Seq<char>)>) -> Seq<char>
    decreases fields.len(),
{
    if fields.len() == 0 {
        Seq::empty()
    } else {
        short_fields_suffix(fields.drop_last()) + seq![' '] + fields.last().0 + "="@
            + fields.last().1
    }
}

/// The fields as trailing lines in the long layout, each as
/// `  name=value` on its own line.
pub open spec fn long_fields_lines(fields: Seq<(Seq<char>, Seq<char>)>) -> Seq<char>
    decreases fields.len(),
{
    if fields.len() == 0 {
        Seq::empty()
    } else {
        long_fields_lines(fields.drop_last()) + "  "@ + fields.last().0 + "="@ + fields.last().1
            + seq!['\n']
    }
}

/// The wrapped lines, each terminated by a newline.
pub open spec fn lines_block(lines: Seq<Seq<char>>) -> Seq<char>
    decreases lines.len(),
{
    if lines.len() == 0 {
        Seq::empty()
    } else {
        lines_block(lines.drop_last()) + lines.last() + seq!['\n']
    }
}

/// The full text the event wraps to: the timestamp, the message, and in
/// the short layout the fields on the same line.
pub open spec fn event_full_message(v: EventVisitorV, timestamp: Seq<char>, width: int) -> Seq<
    char,
> {
    let base = timestamp + seq![' '] + v.message;
    if spec_use_short_format(v, width) {
        base + short_fields_suffix(v.fields)
    } else {
        base
    }
}

pub open spec fn event_wrapped(v: EventVisitorV, timestamp: Seq<char>, width: int) -> Seq<
    Seq<char>,
> {
    wrapped_lines(event_full_message(v, timestamp, width), width, event_indent_text(v.level), "  "@)
}

/// Whether the event renders long: to more than one wrapped line. A
/// long message gets a blank line before it (unless the previous one
/// was long) and after it.
pub open spec fn rendered_event_was_long(v: EventVisitorV, timestamp: Seq<char>, width: int) -> bool {
    event_wrapped(v, timestamp, width).len() > 1
}

/// The rendered event: an optional leading blank line, the wrapped
/// message lines, in the long layout the fields one per line, and an
/// optional trailing blank line.
pub open spec fn rendered_event(
    v: EventVisitorV,
    timestamp: Seq<char>,
    width: int,
    last_event_was_long: bool,
) -> Seq<char> {
    let lines = event_wrapped(v, timestamp, width);
    let add_blank = lines.len() > 1;
    (if add_blank && !last_event_was_long {
        seq!['\n']
    } else {
        Seq::empty()
    }) + lines_block(lines) + (if !spec_use_short_format(v, width) {
        long_fields_lines(v.fields)
    } else {
        Seq::empty()
    }) + (if add_blank {
        seq!['\n']
    } else {
        Seq::empty()
    })
}

proof fn lemma_short_fields_step(fields: Seq<(Seq<char>, Seq<char>)>, i: int)
    requires
        0 <= i < fields.len(),
    ensures
        short_fields_suffix(fields.take(i + 1)) == short_fields_suffix(fields.take(i)) + seq![' ']
            + fields[i].0 + "="@ + fields[i].1,
{
    assert(fields.take(i + 1).drop_last() =~= fields.take(i));
    assert(fields.take(i + 1).last() == fields[i]);
}

proof fn lemma_long_fields_step(fields: Seq<(Seq<char>, Seq<char>)>, i: int)
    requires
        0 <= i < fields.len(),
    ensures
        long_fields_lines(fields.take(i + 1)) == long_fields_lines(fields.take(i)) + "  "@
            + fields[i].0 + "="@ + fields[i].1 + seq!['\n'],
{
    assert(fields.take(i + 1).drop_last() =~= fields.take(i));
    assert(fields.take(i + 1).last() == fields[i]);
}

proof fn lemma_lines_block_step(lines: Seq<Seq<char>>, i: int)
    requires
        0 <= i < lines.len(),
    ensures
        lines_block(lines.take(i + 1)) == lines_block(lines.take(i)) + lines[i] + seq!['\n'],
{
    assert(lines.take(i + 1).drop_last() =~= lines.take(i));
    assert(lines.take(i + 1).last() == lines[i]);
}

impl EventVisitor {
    /// Renders the event. `timestamp` is the already formatted time
    /// prefix, `width` the terminal width, `last_event_was_long`
    /// whether the previous rendered event was long. Returns the text
    /// and whether this event was long.
    pub fn render(&self, timestamp: &str, width: usize, last_event_was_long: bool) -> (r: (
        String,
        bool,
    ))
        ensures
            r.0@ == rendered_event(self.v(), timestamp@, width as int, last_event_was_long),
            r.1 == rendered_event_was_long(self.v(), timestamp@, width as int),
    {
        let ghost v = self.v();
        let style = EventStyle::new(self.level);
        let mut message = String::from_str(timestamp);
        message.append(" ");
        proof {
            reveal_strlit(" ");
            assert(" "@ =~= seq![' ']);
        }
        message.append(self.message.as_str());
        let ghost base = timestamp@ + seq![' '] + v.message;
        assert(message@ == base);
        let short_format = self.use_short_format(width);
        if short_format {
            let mut i: usize = 0;
            while i < self.fields.len()
                invariant
                    i <= self.fields.len(),
                    message@ == base + short_fields_suffix(fields_view(self.fields@).take(i as int)),
                decreases self.fields.len() - i,
            {
                message.append(" ");
                message.append(self.fields[i].0.as_str());
                message.append("=");
                message.append(self.fields[i].1.as_str());
                proof {
                    reveal_strlit(" ");
                    assert(" "@ =~= seq![' ']);
                    lemma_short_fields_step(fields_view(self.fields@), i as int);
                    assert(fields_view(self.fields@)[i as int] == (
                        self.fields@[i as int].0@,
                        self.fields@[i as int].1@,
                    ));
                    assert(message@ =~= base + short_fields_suffix(
                        fields_view(self.fields@).take(i + 1),
                    ));
                }
                i = i + 1;
            }
            assert(fields_view(self.fields@).take(self.fields.len() as int) =~= fields_view(
                self.fields@,
            ));
        }
        assert(message@ == event_full_message(v, timestamp@, width as int));
        let opts = WrapOptions {
            width,
            initial_indent: style.indent_text,
            subsequent_indent: style.subsequent_indent,
        };
        let lines = opts.wrap(message.as_str());
        assert(lines.deep_view() == event_wrapped(v, timestamp@, width as int));
        let add_blank_lines = lines.len() > 1;
        let mut out = String::new();
        if add_blank_lines && !last_event_was_long {
            push_char(&mut out, '\n');
        }
        let ghost lead = if add_blank_lines && !last_event_was_long {
            seq!['\n']
        } else {
            Seq::<char>::empty()
        };
        assert(out@ =~= lead);
        let mut k: usize = 0;
        while k < lines.len()
            invariant
                k <= lines.len(),
                lines.deep_view() == event_wrapped(v, timestamp@, width as int),
                lines.deep_view().len() == lines@.len(),
                out@ == lead + lines_block(lines.deep_view().take(k as int)),
            decreases lines.len() - k,
        {
            out.append(lines[k].as_str());
            push_char(&mut out, '\n');
            proof {
                lemma_lines_block_step(lines.deep_view(), k as int);
                assert(lines.deep_view()[k as int] == lines@[k as int]@);
                assert(out@ =~= lead + lines_block(lines.deep_view().take(k + 1)));
            }
            k = k + 1;
        }
        assert(lines.deep_view().take(lines.len() as int) =~= lines.deep_view());
        let ghost mid = lead + lines_block(lines.deep_view());
        if !short_format {
            let mut i: usize = 0;
            while i < self.fields.len()
                invariant
                    i <= self.fields.len(),
                    out@ == mid + long_fields_lines(fields_view(self.fields@).take(i as int)),
                decreases self.fields.len() - i,
            {
                out.append("  ");
                out.append(self.fields[i].0.as_str());
                out.append("=");
                out.append(self.fields[i].1.as_str());
                push_char(&mut out, '\n');
                proof {
                    lemma_long_fields_step(fields_view(self.fields@), i as int);
                    assert(fields_view(self.fields@)[i as int] == (
                        self.fields@[i as int].0@,
                        self.fields@[i as int].1@,
                    ));
                    assert(out@ =~= mid + long_fields_lines(
                        fields_view(self.fields@).take(i + 1),
                    ));
                }
                i = i + 1;
            }
            assert(fields_view(self.fields@).take(self.fields.len() as int) =~= fields_view(
                self.fields@,
            ));
        }
        if add_blank_lines {
            push_char(&mut out, '\n');
        }
        assert(out@ =~= rendered_event(v, timestamp@, width as int, last_event_was_long));
        (out, add_blank_lines)
    }
}

/// The console event formatter. Long log messages get blank lines
/// around them; `last_event_was_long` stops two such blank lines from
/// stacking when long messages follow one another, and is updated by
/// every [`Self::format_event`] call.
#[derive(Debug)]
pub struct EventFormatter {
    pub last_event_was_long: bool,
}

impl Default for EventFormatter {
    /// A formatter that has rendered nothing yet.
    fn default() -> (r: EventFormatter)
        ensures
            !r.last_event_was_long,
    {
        EventFormatter { last_event_was_long: false }
    }
}

impl EventFormatter {
    /// Renders one event and carries the long-message state over to the
    /// next call.
    pub fn format_event(&mut self, visitor: &EventVisitor, timestamp: &str, width: usize) -> (r:
        String)
        ensures
            r@ == rendered_event(
                visitor.v(),
                timestamp@,
                width as int,
                old(self).last_event_was_long,
            ),
            final(self).last_event_was_long == rendered_event_was_long(
                visitor.v(),
                timestamp@,
                width as int,
            ),
    {
        let (out, was_long) = visitor.render(timestamp, width, self.last_event_was_long);
        self.last_event_was_long = was_long;
        out
    }
}

} // verus!
