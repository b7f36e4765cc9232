//! The textual diff renderer: a line-level diff grouped into hunks with
//! three context lines, a word-level diff inside each changed line, and
//! a plain-text rendering with line-number columns and sign characters.
//!
//! The diff itself comes from the `similar` crate through one trusted
//! wrapper; everything from the structured hunks to the rendered text is
//! verified here.

use vstd::prelude::*;

use crate::strutil::dec_str;
use crate::strutil::pad_right;
use crate::strutil::repeat_char;
use crate::strutil::append_repeated;
use crate::strutil::push_char;
use crate::strutil::u64_to_string_pad4;

verus! {

/// How one line of the diff relates the two texts.
#[derive(Clone, Copy, PartialEq, Eq, Structural, Debug)]
pub enum ChangeKind {
    Delete,
    Insert,
    Equal,
}

/// One run of characters within a diff line; `emphasized` marks the
/// word-level spans that actually differ.
#[derive(Debug)]
pub struct InlineSpan {
    pub emphasized: bool,
    pub text: String,
}

/// One rendered line of the diff, with its 0-based line number on each
/// side where the line exists.
#[derive(Debug)]
pub struct DiffLine {
    pub kind: ChangeKind,
    pub old_index: Option<usize>,
    pub new_index: Option<usize>,
    pub spans: Vec<InlineSpan>,
    pub missing_newline: bool,
}

/// A contiguous group of diff lines around one change cluster.
#[derive(Debug)]
pub struct DiffHunk {
    pub lines: Vec<DiffLine>,
}

#[verifier::ext_equal]
pub struct SpanV {
    pub emphasized: bool,
    pub text: Seq<char>,
}

#[verifier::ext_equal]
pub struct LineV {
    pub kind: ChangeKind,
    pub old_index: Option<usize>,
    pub new_index: Option<usize>,
    pub spans: Seq<SpanV>,
    pub missing_newline: bool,
}

impl InlineSpan {
    pub open spec fn v(self) -> SpanV {
        SpanV { emphasized: self.emphasized, text: self.text@ }
    }
}

pub open spec fn spans_view(s: Seq<InlineSpan>) -> Seq<SpanV> {
    s.map_values(|x: InlineSpan| x.v())
}

impl DiffLine {
    pub open spec fn v(self) -> LineV {
        LineV {
            kind: self.kind,
            old_index: self.old_index,
            new_index: self.new_index,
            spans: spans_view(self.spans@),
            missing_newline: self.missing_newline,
        }
    }
}

pub open spec fn lines_view(s: Seq<DiffLine>) -> Seq<LineV> {
    s.map_values(|l: DiffLine| l.v())
}

pub open spec fn hunk_view(h: DiffHunk) -> Seq<LineV> {
    lines_view(h.lines@)
}

pub open spec fn hunks_view(hs: Seq<DiffHunk>) -> Seq<Seq<LineV>> {
    hs.map_values(|h: DiffHunk| hunk_view(h))
}

/// A line index small enough that its 1-based form still fits a usize.
pub open spec fn line_wf(l: LineV) -> bool {
    &&& match l.old_index {
        Option::Some(i) => i < usize::MAX,
        Option::None => true,
    }
    &&& match l.new_index {
        Option::Some(i) => i < usize::MAX,
        Option::None => true,
    }
}

pub open spec fn hunks_wf(hs: Seq<Seq<LineV>>) -> bool {
    forall|i: int, j: int|
        0 <= i < hs.len() && 0 <= j < hs[i].len() ==> line_wf(#[trigger] hs[i][j])
}

/// The grouped line-level diff of two texts with word-level emphasis:
/// what `similar` computes from the two texts alone.
pub uninterp spec fn line_diff_hunks(old: Seq<char>, new: Seq<char>) -> Seq<Seq<LineV>>;

/// Relies on similar's `TextDiff`: `from_lines` for the line-level
/// diff, `grouped_ops(3)` to cluster changes with three context lines,
/// and `iter_inline_changes_deadline` with no deadline for the
/// word-level emphasis; with no deadline the result depends on the two
/// texts alone. On equal texts `grouped_ops` keeps no group, and every
/// index it reports is a line number within one of the texts.
#[verifier::external_body]
fn compute_hunks(old: &str, new: &str) -> (r: Vec<DiffHunk>)
    ensures
        hunks_view(r@) == line_diff_hunks(old@, new@),
        hunks_wf(hunks_view(r@)),
        old@ == new@ ==> r@.len() == 0,
{
    let diff = similar::TextDiff::from_lines(old, new);
    diff.grouped_ops(3).iter().map(|group| DiffHunk {
        lines: group.iter().flat_map(|op| diff.iter_inline_changes_deadline(op, None)).map(|c| DiffLine {
            kind: match c.tag() {
                similar::ChangeTag::Delete => ChangeKind::Delete,
                similar::ChangeTag::Insert => ChangeKind::Insert,
                similar::ChangeTag::Equal => ChangeKind::Equal,
            },
            old_index: c.old_index(),
            new_index: c.new_index(),
            spans: c.iter_strings_lossy().map(|(e, t)| InlineSpan { emphasized: e, text: t.into_owned() }).collect(),
            missing_newline: c.missing_newline(),
        }).collect(),
    }).collect()
}

// ---------------------------------------------------------------------
// Rendering.
// ---------------------------------------------------------------------

/// The sign column: `-` deletion, `+` insertion, space for context.
pub open spec fn sign_str(k: ChangeKind) -> Seq<char> {
    match k {
        ChangeKind::Delete => "-"@,
        ChangeKind::Insert => "+"@,
        ChangeKind::Equal => " "@,
    }
}

/// A line-number column: the 1-based number left-aligned in four
/// columns, or four spaces for the side that has no line.
pub open spec fn line_col(idx: Option<usize>) -> Seq<char> {
    match idx {
        Option::None => repeat_char(' ', 4),
        Option::Some(i) => pad_right(dec_str((i + 1) as nat), 4),
    }
}

/// The spans of one line, the emphasized ones wrapped in the given
/// markers.
pub open spec fn render_spans(spans: Seq<SpanV>, es: Seq<char>, ee: Seq<char>) -> Seq<char>
    decreases spans.len(),
{
    if spans.len() == 0 {
        Seq::empty()
    } else {
        render_spans(spans.drop_last(), es, ee) + if spans.last().emphasized {
            es + spans.last().text + ee
        } else {
            spans.last().text
        }
    }
}

/// One rendered diff line: both line-number columns, a bar, the sign,
/// the spans, and a newline where the underlying text lacked one.
pub open spec fn render_line(l: LineV, es: Seq<char>, ee: Seq<char>) -> Seq<char> {
    line_col(l.old_index) + line_col(l.new_index) + " │"@ + sign_str(l.kind) + render_spans(
        l.spans,
        es,
        ee,
    ) + if l.missing_newline {
        seq!['\n']
    } else {
        Seq::empty()
    }
}

pub open spec fn render_lines(ls: Seq<LineV>, es: Seq<char>, ee: Seq<char>) -> Seq<char>
    decreases ls.len(),
{
    if ls.len() == 0 {
        Seq::empty()
    } else {
        render_lines(ls.drop_last(), es, ee) + render_line(ls.last(), es, ee)
    }
}

/// The divider between non-adjacent hunks: eighty horizontal-line
/// characters.
pub open spec fn divider() -> Seq<char> {
    repeat_char('─', 80) + seq!['\n']
}

/// All hunks rendered in order, a divider before every hunk but the
/// first.
pub open spec fn render_hunks_str(hs: Seq<Seq<LineV>>, es: Seq<char>, ee: Seq<char>) -> Seq<char>
    decreases hs.len(),
{
    if hs.len() == 0 {
        Seq::empty()
    } else if hs.len() == 1 {
        render_lines(hs[0], es, ee)
    } else {
        render_hunks_str(hs.drop_last(), es, ee) + divider() + render_lines(hs.last(), es, ee)
    }
}

/// The whole diff of two texts, as rendered with the given emphasis
/// markers.
pub open spec fn diff_str(old: Seq<char>, new: Seq<char>, es: Seq<char>, ee: Seq<char>) -> Seq<
    char,
> {
    render_hunks_str(line_diff_hunks(old, new), es, ee)
}

/// The diff with a two-line `--- old` / `+++ new` header above it.
pub open spec fn diff_header_str(
    old: Seq<char>,
    new: Seq<char>,
    old_label: Seq<char>,
    new_label: Seq<char>,
    es: Seq<char>,
    ee: Seq<char>,
) -> Seq<char> {
    "--- "@ + old_label + seq!['\n'] + "+++ "@ + new_label + seq!['\n'] + diff_str(old, new, es, ee)
}

proof fn lemma_render_spans_step(s: Seq<SpanV>, es: Seq<char>, ee: Seq<char>, i: int)
    requires
        0 <= i < s.len(),
    ensures
        render_spans(s.take(i + 1), es, ee) == render_spans(s.take(i), es, ee) + (
        if s[i].emphasized {
            es + s[i].text + ee
        } else {
            s[i].text
        }),
{
    assert(s.take(i + 1).drop_last() =~= s.take(i));
    assert(s.take(i + 1).last() == s[i]);
}

fn render_spans_exec(spans: &Vec<InlineSpan>, emphasize_start: &str, emphasize_end: &str) -> (r:
    String)
    ensures
        r@ == render_spans(spans_view(spans@), emphasize_start@, emphasize_end@),
{
    let mut r = String::new();
    let mut i: usize = 0;
    while i < spans.len()
        invariant
            i <= spans.len(),
            r@ == render_spans(
                spans_view(spans@).take(i as int),
                emphasize_start@,
                emphasize_end@,
            ),
        decreases spans.len() - i,
    {
        let sp = &spans[i];
        if sp.emphasized {
            r.append(emphasize_start);
            r.append(sp.text.as_str());
            r.append(emphasize_end);
        } else {
            r.append(sp.text.as_str());
        }
        proof {
            lemma_render_spans_step(spans_view(spans@), emphasize_start@, emphasize_end@, i as int);
            assert(spans_view(spans@)[i as int] == spans@[i as int].v());
        }
        i = i + 1;
    }
    assert(spans_view(spans@).take(spans.len() as int) =~= spans_view(spans@));
    r
}

fn line_col_exec(idx: Option<usize>) -> (r: String)
    requires
        match idx {
            Option::Some(i) => i < usize::MAX,
            Option::None => true,
        },
    ensures
        r@ == line_col(idx),
{
    match idx {
        Option::None => {
            let r = String::from_str("    ");
            proof {
                reveal_strlit("    ");
                assert("    "@ =~= repeat_char(' ', 4));
            }
            r
        },
        Option::Some(i) => u64_to_string_pad4(i as u64 + 1),
    }
}

fn render_line_exec(l: &DiffLine, emphasize_start: &str, emphasize_end: &str) -> (r: String)
    requires
        line_wf(l.v()),
    ensures
        r@ == render_line(l.v(), emphasize_start@, emphasize_end@),
{
    let mut r = line_col_exec(l.old_index);
    let nc = line_col_exec(l.new_index);
    r.append(nc.as_str());
    r.append(" │");
    match l.kind {
        ChangeKind::Delete => r.append("-"),
        ChangeKind::Insert => r.append("+"),
        ChangeKind::Equal => r.append(" "),
    }
    let spans = render_spans_exec(&l.spans, emphasize_start, emphasize_end);
    r.append(spans.as_str());
    if l.missing_newline {
        push_char(&mut r, '\n');
    }
    assert(r@ =~= render_line(l.v(), emphasize_start@, emphasize_end@));
    r
}

proof fn lemma_render_lines_step(s: Seq<LineV>, es: Seq<char>, ee: Seq<char>, i: int)
    requires
        0 <= i < s.len(),
    ensures
        render_lines(s.take(i + 1), es, ee) == render_lines(s.take(i), es, ee) + render_line(
            s[i],
            es,
            ee,
        ),
{
    assert(s.take(i + 1).drop_last() =~= s.take(i));
    assert(s.take(i + 1).last() == s[i]);
}

fn render_lines_exec(lines: &Vec<DiffLine>, emphasize_start: &str, emphasize_end: &str) -> (r:
    String)
    requires
        forall|j: int| 0 <= j < lines@.len() ==> line_wf((#[trigger] lines@[j]).v()),
    ensures
        r@ == render_lines(lines_view(lines@), emphasize_start@, emphasize_end@),
{
    let mut r = String::new();
    let mut i: usize = 0;
    while i < lines.len()
        invariant
            i <= lines.len(),
            forall|j: int| 0 <= j < lines@.len() ==> line_wf((#[trigger] lines@[j]).v()),
            r@ == render_lines(lines_view(lines@).take(i as int), emphasize_start@, emphasize_end@),
        decreases lines.len() - i,
    {
        let line = render_line_exec(&lines[i], emphasize_start, emphasize_end);
        r.append(line.as_str());
        proof {
            lemma_render_lines_step(lines_view(lines@), emphasize_start@, emphasize_end@, i as int);
            assert(lines_view(lines@)[i as int] == lines@[i as int].v());
        }
        i = i + 1;
    }
    assert(lines_view(lines@).take(lines.len() as int) =~= lines_view(lines@));
    r
}

proof fn lemma_render_hunks_step(hs: Seq<Seq<LineV>>, es: Seq<char>, ee: Seq<char>, i: int)
    requires
        1 <= i < hs.len(),
    ensures
        render_hunks_str(hs.take(i + 1), es, ee) == render_hunks_str(hs.take(i), es, ee)
            + divider() + render_lines(hs[i], es, ee),
{
    assert(hs.take(i + 1).drop_last() =~= hs.take(i));
    assert(hs.take(i + 1).last() == hs[i]);
}

/// Renders structured hunks, separating non-adjacent hunks with a
/// divider and wrapping emphasized spans in the given markers.
pub fn render_hunks(hunks: &Vec<DiffHunk>, emphasize_start: &str, emphasize_end: &str) -> (r:
    String)
    requires
        hunks_wf(hunks_view(hunks@)),
    ensures
        r@ == render_hunks_str(hunks_view(hunks@), emphasize_start@, emphasize_end@),
{
    let ghost hv = hunks_view(hunks@);
    let mut r = String::new();
    let mut i: usize = 0;
    while i < hunks.len()
        invariant
            i <= hunks.len(),
            hv == hunks_view(hunks@),
            hv.len() == hunks@.len(),
            hunks_wf(hv),
            r@ == render_hunks_str(hv.take(i as int), emphasize_start@, emphasize_end@),
        decreases hunks.len() - i,
    {
        if i > 0 {
            append_repeated(&mut r, '─', 80);
            push_char(&mut r, '\n');
        }
        proof {
            assert(hv[i as int] == hunk_view(hunks@[i as int]));
            assert forall|j: int|
                0 <= j < hunks@[i as int].lines@.len() implies line_wf(
                (#[trigger] hunks@[i as int].lines@[j]).v(),
            ) by {
                assert(hv[i as int][j] == hunks@[i as int].lines@[j].v());
            };
        }
        let lines = render_lines_exec(&hunks[i].lines, emphasize_start, emphasize_end);
        r.append(lines.as_str());
        proof {
            if i == 0 {
                assert(hv.take(1) =~= seq![hv[0]]);
                assert(render_hunks_str(hv.take(1), emphasize_start@, emphasize_end@)
                    == render_lines(hv[0], emphasize_start@, emphasize_end@));
                assert(r@ =~= render_hunks_str(hv.take(1), emphasize_start@, emphasize_end@));
            } else {
                lemma_render_hunks_step(hv, emphasize_start@, emphasize_end@, i as int);
                assert(r@ =~= render_hunks_str(hv.take(i + 1), emphasize_start@, emphasize_end@));
            }
        }
        i = i + 1;
    }
    assert(hv.take(hunks.len() as int) =~= hv);
    r
}

/// Computes and renders the diff of two texts, marking the word-level
/// spans that differ with the given start and end markers.
///
/// Rendering the diff of two identical texts yields nothing at all: no
/// deletion, insertion or context line.
pub fn diff_with_markers(old: &str, new: &str, emphasize_start: &str, emphasize_end: &str) -> (r:
    String)
    ensures
        r@ == diff_str(old@, new@, emphasize_start@, emphasize_end@),
        old@ == new@ ==> r@ == Seq::<char>::empty(),
{
    let hunks = compute_hunks(old, new);
    proof {
        if old@ == new@ {
            assert(hunks_view(hunks@).len() == 0);
            assert(hunks_view(hunks@) =~= Seq::<Seq<LineV>>::empty());
        }
    }
    render_hunks(&hunks, emphasize_start, emphasize_end)
}

/// Renders the plain diff of two strings, word-level differences left
/// unmarked, as when no color is available.
pub fn diff(old: &str, new: &str) -> (r: String)
    ensures
        r@ == diff_str(old@, new@, Seq::<char>::empty(), Seq::<char>::empty()),
        old@ == new@ ==> r@ == Seq::<char>::empty(),
{
    proof {
        reveal_strlit("");
        assert(""@ =~= Seq::<char>::empty());
    }
    diff_with_markers(old, new, "", "")
}

/// Like [`diff`] but with a two-line header naming the two sides.
pub fn diff_header(old: &str, new: &str, old_label: &str, new_label: &str) -> (r: String)
    ensures
        r@ == diff_header_str(
            old@,
            new@,
            old_label@,
            new_label@,
            Seq::<char>::empty(),
            Seq::<char>::empty(),
        ),
{
    let mut r = String::from_str("--- ");
    r.append(old_label);
    push_char(&mut r, '\n');
    r.append("+++ ");
    r.append(new_label);
    push_char(&mut r, '\n');
    let body = diff(old, new);
    r.append(body.as_str());
    assert(r@ =~= diff_header_str(
        old@,
        new@,
        old_label@,
        new_label@,
        Seq::<char>::empty(),
        Seq::<char>::empty(),
    ));
    r
}

} // verus!
