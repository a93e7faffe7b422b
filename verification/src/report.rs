//! What a command prints and how it exits.

use vstd::prelude::*;

verus! {

/// Everything went well, or there is nothing to do.
pub const EXIT_OK: u8 = 0;

/// Updates are available, or something could not be carried out.
pub const EXIT_PENDING: u8 = 1;

/// A fatal error, bad usage, or a check that failed.
pub const EXIT_ERROR: u8 = 2;

/// One line of output.
#[derive(Debug)]
pub enum Line {
    /// For standard output.
    Say(String),
    /// For standard error.
    Note(String),
}

/// A `Line` as values.
pub enum LineView {
    Say(Seq<char>),
    Note(Seq<char>),
}

impl DeepView for Line {
    type V = LineView;

    open spec fn deep_view(&self) -> LineView {
        match self {
            Line::Say(s) => LineView::Say(s@),
            Line::Note(s) => LineView::Note(s@),
        }
    }
}

/// The lines that a command prints, in order, and its exit code.
#[derive(Debug)]
pub struct Report {
    pub lines: Vec<Line>,
    pub exit: u8,
}

/// A `Report` as values.
pub struct ReportView {
    pub lines: Seq<LineView>,
    pub exit: u8,
}

impl DeepView for Report {
    type V = ReportView;

    open spec fn deep_view(&self) -> ReportView {
        ReportView { lines: self.lines.deep_view(), exit: self.exit }
    }
}

/// Appends a line for standard output.
pub fn say(lines: &mut Vec<Line>, s: String)
    ensures
        final(lines).deep_view() == old(lines).deep_view().push(LineView::Say(s@)),
{
    lines.push(Line::Say(s));
    assert(lines.deep_view() =~= old(lines).deep_view().push(LineView::Say(s@)));
}

/// Appends a line for standard error.
pub fn warn(lines: &mut Vec<Line>, s: String)
    ensures
        final(lines).deep_view() == old(lines).deep_view().push(LineView::Note(s@)),
{
    lines.push(Line::Note(s));
    assert(lines.deep_view() =~= old(lines).deep_view().push(LineView::Note(s@)));
}

/// No lines.
pub fn no_lines() -> (r: Vec<Line>)
    ensures
        r.deep_view() == Seq::<LineView>::empty(),
{
    let r: Vec<Line> = Vec::new();
    assert(r.deep_view() =~= Seq::<LineView>::empty());
    r
}

/// One line for standard error.
pub fn one_warning(s: String) -> (r: Vec<Line>)
    ensures
        r.deep_view() == seq![LineView::Note(s@)],
{
    let mut r = no_lines();
    warn(&mut r, s);
    assert(r.deep_view() =~= seq![LineView::Note(s@)]);
    r
}

/// One line for standard output.
pub fn one_line(s: String) -> (r: Vec<Line>)
    ensures
        r.deep_view() == seq![LineView::Say(s@)],
{
    let mut r = no_lines();
    say(&mut r, s);
    assert(r.deep_view() =~= seq![LineView::Say(s@)]);
    r
}

/// The values of a report are what it holds: its exit code and its lines, each
/// for the output that it is meant for.
pub proof fn reports_are_seen_whole(r: Report, i: int)
    requires
        0 <= i < r.lines@.len(),
    ensures
        r.deep_view().exit == r.exit,
        r.deep_view().lines.len() == r.lines@.len(),
        r.lines@[i] matches Line::Say(s) ==> r.deep_view().lines[i] == LineView::Say(s@),
        r.lines@[i] matches Line::Note(s) ==> r.deep_view().lines[i] == LineView::Note(s@),
{
}

} // verus!
