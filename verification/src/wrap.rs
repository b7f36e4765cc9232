//! Text wrapping for log output, with this crate's fixed settings: no
//! word breaking, ASCII-space word separation, no hyphenation. The
//! wrapping itself is `textwrap`'s, behind one trusted wrapper; the
//! settings object and line joining are verified here.

use vstd::prelude::*;

use crate::strutil::join_with;
use crate::strutil::join_strings;

verus! {

/// What `textwrap::wrap` yields for the given text, width and indents
/// under this crate's fixed settings: a function of those alone.
pub uninterp spec fn wrapped_lines(
    text: Seq<char>,
    width: int,
    initial_indent: Seq<char>,
    subsequent_indent: Seq<char>,
) -> Seq<Seq<char>>;

/// Relies on `textwrap::wrap` with fixed settings: no word breaking,
/// ASCII-space word separation, no hyphenation, LF line endings. With
/// those settings the result depends on the text, width and indents
/// alone.
#[verifier::external_body]
fn wrap_text(text: &str, width: usize, initial_indent: &str, subsequent_indent: &str) -> (r: Vec<
    String,
>)
    ensures
        r.deep_view() == wrapped_lines(text@, width as int, initial_indent@, subsequent_indent@),
{
    let options = textwrap::Options::new(width)
        .break_words(false)
        .word_separator(textwrap::WordSeparator::AsciiSpace)
        .word_splitter(textwrap::WordSplitter::NoHyphenation)
        .initial_indent(initial_indent)
        .subsequent_indent(subsequent_indent);
    textwrap::wrap(text, &options).into_iter().map(|line| line.into_owned()).collect()
}

/// Wrapping settings: the target width, the indent of the first line,
/// and the indent of every later line.
#[derive(Debug)]
pub struct WrapOptions {
    pub width: usize,
    pub initial_indent: String,
    pub subsequent_indent: String,
}

/// The standard settings at the given width; the caller samples the
/// terminal width. No indents.
pub fn options(width: usize) -> (r: WrapOptions)
    ensures
        r.width == width,
        r.initial_indent@ == Seq::<char>::empty(),
        r.subsequent_indent@ == Seq::<char>::empty(),
{
    WrapOptions { width, initial_indent: String::new(), subsequent_indent: String::new() }
}

/// Extension methods on wrapping settings.
pub trait TextWrapOptionsExt: Sized {
    spec fn spec_width(&self) -> int;

    spec fn spec_initial_indent(&self) -> Seq<char>;

    spec fn spec_subsequent_indent(&self) -> Seq<char>;

    /// Subtract from the `width`, stopping at zero.
    fn decrease_width(self, decrease: usize) -> (r: Self)
        ensures
            r.spec_width() == if decrease <= self.spec_width() {
                self.spec_width() - decrease
            } else {
                0
            },
            r.spec_initial_indent() == self.spec_initial_indent(),
            r.spec_subsequent_indent() == self.spec_subsequent_indent(),
    ;

    /// Wrap the given text into lines.
    fn wrap(&self, text: &str) -> (r: Vec<String>)
        ensures
            r.deep_view() == wrapped_lines(
                text@,
                self.spec_width(),
                self.spec_initial_indent(),
                self.spec_subsequent_indent(),
            ),
    ;

    /// Wrap the given text into lines and return a `String`.
    ///
    /// Like [`Self::wrap`] but with the lines joined by newlines.
    fn fill(&self, text: &str) -> (r: String)
        ensures
            r@ == join_with(
                wrapped_lines(
                    text@,
                    self.spec_width(),
                    self.spec_initial_indent(),
                    self.spec_subsequent_indent(),
                ),
                seq!['\n'],
            ),
    ;
}

impl TextWrapOptionsExt for WrapOptions {
    open spec fn spec_width(&self) -> int {
        self.width as int
    }

    open spec fn spec_initial_indent(&self) -> Seq<char> {
        self.initial_indent@
    }

    open spec fn spec_subsequent_indent(&self) -> Seq<char> {
        self.subsequent_indent@
    }

    fn decrease_width(self, decrease: usize) -> (r: Self) {
        let width = if decrease <= self.width {
            self.width - decrease
        } else {
            0
        };
        WrapOptions {
            width,
            initial_indent: self.initial_indent,
            subsequent_indent: self.subsequent_indent,
        }
    }

    fn wrap(&self, text: &str) -> (r: Vec<String>) {
        wrap_text(text, self.width, self.initial_indent.as_str(), self.subsequent_indent.as_str())
    }

    fn fill(&self, text: &str) -> (r: String) {
        let lines = self.wrap(text);
        proof {
            reveal_strlit("\n");
            assert("\n"@ =~= seq!['\n']);
        }
        join_strings(&lines, "\n")
    }
}

} // verus!
