//! The live panel that shows a check at work on a terminal: one row per plugin
//! and a bar. Every operation returns what is to be written; a panel that is not
//! enabled writes nothing.

use crate::text;
use vstd::prelude::*;

verus! {

/// Width of the bar in characters.
pub const BAR_WIDTH: usize = 20;

/// How long a paint loop animates one activity at most, in seconds.
pub const ACTIVITY_LIMIT_SECS: u64 = 60;

/// A row of the panel.
struct Row {
    plugin_id: String,
    state: RowState,
}

enum RowState {
    Checking,
    Done { ok: bool, label: String },
}

/// The panel.
pub struct Progress {
    enabled: bool,
    rows: Vec<Option<Row>>,
    done: usize,
    visible: usize,
    frame: usize,
    rendered: bool,
    painted: usize,
}

/// How far the plugin of a row is.
pub enum RowStateView {
    Checking,
    /// Checked, whether that went well, and the line that the report prints.
    Done { ok: bool, label: Seq<char> },
}

/// A row of the panel as values.
pub struct RowView {
    pub plugin_id: Seq<char>,
    pub state: RowStateView,
}

/// A panel as values.
#[verifier::ext_equal]
pub struct ProgressView {
    pub enabled: bool,
    /// One slot per plugin in the order of the registry; `None` for no row.
    pub rows: Seq<Option<RowView>>,
    /// How many rows are done.
    pub done: nat,
    /// How many rows were opened.
    pub visible: nat,
    pub frame: usize,
    /// Whether the panel is on the screen.
    pub rendered: bool,
    /// How many rows the panel on the screen has; 0 where there is none.
    pub painted: nat,
}

impl DeepView for RowState {
    type V = RowStateView;

    closed spec fn deep_view(&self) -> RowStateView {
        match self {
            RowState::Checking => RowStateView::Checking,
            RowState::Done { ok, label } => RowStateView::Done { ok: *ok, label: label@ },
        }
    }
}

impl DeepView for Row {
    type V = RowView;

    closed spec fn deep_view(&self) -> RowView {
        RowView { plugin_id: self.plugin_id@, state: self.state.deep_view() }
    }
}

impl DeepView for Progress {
    type V = ProgressView;

    closed spec fn deep_view(&self) -> ProgressView {
        ProgressView {
            enabled: self.enabled,
            rows: self.rows.deep_view(),
            done: self.done as nat,
            visible: self.visible as nat,
            frame: self.frame,
            rendered: self.rendered,
            painted: self.painted as nat,
        }
    }
}

/// Whether a slot holds a row that is not done.
pub open spec fn is_checking(row: Option<RowView>) -> bool {
    row is Some && row->0.state is Checking
}

/// How many rows are not done.
pub open spec fn checking(rows: Seq<Option<RowView>>) -> nat
    decreases rows.len(),
{
    if rows.len() == 0 {
        0
    } else {
        checking(rows.drop_last()) + if is_checking(rows.last()) {
            1nat
        } else {
            0nat
        }
    }
}

/// How many rows there are.
pub open spec fn row_count(rows: Seq<Option<RowView>>) -> nat
    decreases rows.len(),
{
    if rows.len() == 0 {
        0
    } else {
        row_count(rows.drop_last()) + if rows.last() is Some {
            1nat
        } else {
            0nat
        }
    }
}

impl ProgressView {
    /// What every panel keeps: each row that is done or at work was opened, and
    /// what is not on the screen has no rows there.
    pub open spec fn valid(self) -> bool {
        &&& self.done + checking(self.rows) <= self.visible
        &&& !self.rendered ==> self.painted == 0
    }
}

proof fn lemma_checking_update(rows: Seq<Option<RowView>>, i: int, row: Option<RowView>)
    requires
        0 <= i < rows.len(),
    ensures
        checking(rows.update(i, row)) == checking(rows) - (if is_checking(rows[i]) {
            1int
        } else {
            0int
        }) + (if is_checking(row) {
            1int
        } else {
            0int
        }),
    decreases rows.len(),
{
    let changed = rows.update(i, row);
    if i == rows.len() - 1 {
        assert(changed.drop_last() =~= rows.drop_last());
    } else {
        assert(changed.drop_last() =~= rows.drop_last().update(i, row));
        assert(changed.last() == rows.last());
        lemma_checking_update(rows.drop_last(), i, row);
    }
}

proof fn lemma_none_checking(rows: Seq<Option<RowView>>)
    requires
        forall|i: int| 0 <= i < rows.len() ==> #[trigger] rows[i] is None,
    ensures
        checking(rows) == 0,
    decreases rows.len(),
{
    if rows.len() > 0 {
        lemma_none_checking(rows.drop_last());
    }
}

/// The spinner at a frame.
pub open spec fn spinner(frame: usize) -> Seq<char> {
    match frame % 10 {
        0 => "⠋"@,
        1 => "⠙"@,
        2 => "⠹"@,
        3 => "⠸"@,
        4 => "⠼"@,
        5 => "⠴"@,
        6 => "⠦"@,
        7 => "⠧"@,
        8 => "⠇"@,
        _ => "⠏"@,
    }
}

fn spinner_at(frame: usize) -> (r: &'static str)
    ensures
        r@ == spinner(frame),
{
    match frame % 10 {
        0 => "⠋",
        1 => "⠙",
        2 => "⠹",
        3 => "⠸",
        4 => "⠼",
        5 => "⠴",
        6 => "⠦",
        7 => "⠧",
        8 => "⠇",
        _ => "⠏",
    }
}

/// A text `n` times.
pub open spec fn repeated(s: Seq<char>, n: nat) -> Seq<char>
    decreases n,
{
    if n == 0 {
        Seq::empty()
    } else {
        repeated(s, (n - 1) as nat) + s
    }
}

/// How much of the bar is filled: the share of rows that are done.
pub open spec fn filled(done: nat, total: nat) -> nat {
    if total == 0 {
        0
    } else {
        done * BAR_WIDTH as nat / total
    }
}

/// The bar.
pub open spec fn bar(done: nat, total: nat) -> Seq<char> {
    repeated("█"@, filled(done, total)) + repeated(
        "░"@,
        (BAR_WIDTH as nat - filled(done, total)) as nat,
    )
}

/// The line of a row.
pub open spec fn row_text(row: RowView, frame: usize) -> Seq<char> {
    match row.state {
        RowStateView::Checking => "  \x1b[2m"@ + spinner(frame) + " "@ + row.plugin_id
            + "\x1b[0m\x1b[K\n"@,
        RowStateView::Done { ok, label } => (if ok {
            "  \x1b[32m✓\x1b[0m "@
        } else {
            "  \x1b[31m✗\x1b[0m "@
        }) + label + "\x1b[K\n"@,
    }
}

/// The lines of the rows.
pub open spec fn rows_text(rows: Seq<Option<RowView>>, frame: usize) -> Seq<char>
    decreases rows.len(),
{
    if rows.len() == 0 {
        Seq::empty()
    } else {
        rows_text(rows.drop_last(), frame) + match rows.last() {
            Some(row) => row_text(row, frame),
            None => Seq::empty(),
        }
    }
}

/// What moves the cursor up from the bar of a panel to its first row. Without
/// rows the bar is the top, and nothing is written: terminals take a count of 0
/// for 1.
pub open spec fn rewind(rows: nat) -> Seq<char> {
    if rows == 0 {
        Seq::empty()
    } else {
        "\x1b["@ + text::decimal(rows) + "A"@
    }
}

/// The panel as it is written over what is on the screen.
pub open spec fn panel(p: ProgressView) -> Seq<char> {
    rewind(p.painted) + "\r"@ + rows_text(p.rows, p.frame) + "  "@ + bar(p.done, p.visible) + " "@
        + text::decimal(p.done) + "/"@ + text::decimal(p.visible) + " checked\x1b[K"@
}

/// A panel without rows yet.
pub open spec fn fresh(count: nat, json: bool, terminal: bool) -> ProgressView {
    ProgressView {
        enabled: !json && terminal,
        rows: Seq::new(count, |i: int| None),
        done: 0,
        visible: 0,
        frame: 0,
        rendered: false,
        painted: 0,
    }
}

/// The panel with a row opened.
pub open spec fn with_row(p: ProgressView, index: int, plugin_id: Seq<char>) -> ProgressView {
    if p.enabled {
        ProgressView {
            rows: p.rows.update(
                index,
                Some(RowView { plugin_id, state: RowStateView::Checking }),
            ),
            visible: p.visible + 1,
            ..p
        }
    } else {
        p
    }
}

/// The panel with a row marked done, where it is open and not done yet.
pub open spec fn marked(p: ProgressView, index: int, ok: bool, label: Seq<char>) -> ProgressView {
    if 0 <= index < p.rows.len() && is_checking(p.rows[index]) {
        ProgressView {
            rows: p.rows.update(
                index,
                Some(
                    RowView {
                        plugin_id: p.rows[index]->0.plugin_id,
                        state: RowStateView::Done { ok, label },
                    },
                ),
            ),
            done: p.done + 1,
            ..p
        }
    } else {
        p
    }
}

/// Whether a row is done already.
pub open spec fn is_done(p: ProgressView, index: int) -> bool {
    0 <= index < p.rows.len() && p.rows[index] is Some && p.rows[index]->0.state is Done
}

/// A panel and what is written when it is painted.
pub open spec fn painted(p: ProgressView) -> (ProgressView, Seq<char>) {
    (ProgressView { rendered: true, painted: row_count(p.rows), ..p }, panel(p))
}

/// A panel and what is written when a row is done.
pub open spec fn with_done(p: ProgressView, index: int, ok: bool, label: Seq<char>) -> (
    ProgressView,
    Seq<char>,
) {
    if !p.enabled || is_done(p, index) {
        (p, Seq::empty())
    } else {
        painted(marked(p, index, ok, label))
    }
}

/// A panel and what is written when its spinner moves on.
pub open spec fn ticked(p: ProgressView) -> (ProgressView, Seq<char>) {
    if p.enabled {
        painted(
            ProgressView {
                frame: if p.frame == usize::MAX {
                    0
                } else {
                    (p.frame + 1) as usize
                },
                ..p
            },
        )
    } else {
        (p, Seq::empty())
    }
}

/// A panel and what is written when it is taken off the screen.
pub open spec fn finished(p: ProgressView) -> (ProgressView, Seq<char>) {
    if p.enabled && p.rendered {
        (
            ProgressView { rendered: false, painted: 0, ..p },
            "\r"@ + rewind(p.painted) + "\x1b[J"@,
        )
    } else {
        (p, Seq::empty())
    }
}

fn push_repeated(out: &mut String, s: &str, n: usize)
    ensures
        final(out)@ == old(out)@ + repeated(s@, n as nat),
{
    let ghost before = out@;
    let mut i: usize = 0;
    assert(before + repeated(s@, 0) =~= before);
    while i < n
        invariant
            i <= n,
            out@ == before + repeated(s@, i as nat),
        decreases n - i,
    {
        out.append(s);
        assert(out@ =~= before + repeated(s@, (i + 1) as nat));
        i = i + 1;
    }
}

fn push_row(out: &mut String, row: &Row, frame: usize)
    ensures
        final(out)@ == old(out)@ + row_text(row.deep_view(), frame),
{
    let ghost before = out@;
    match &row.state {
        RowState::Checking => {
            out.append("  \x1b[2m");
            out.append(spinner_at(frame));
            out.append(" ");
            out.append(row.plugin_id.as_str());
            out.append("\x1b[0m\x1b[K\n");
        },
        RowState::Done { ok, label } => {
            if *ok {
                out.append("  \x1b[32m✓\x1b[0m ");
            } else {
                out.append("  \x1b[31m✗\x1b[0m ");
            }
            out.append(label.as_str());
            out.append("\x1b[K\n");
        },
    }
    assert(out@ =~= before + row_text(row.deep_view(), frame));
}

proof fn lemma_filled(done: nat, total: nat)
    requires
        done <= total,
    ensures
        filled(done, total) <= BAR_WIDTH,
{
    if total > 0 {
        assert(done * 20 / total <= 20) by (nonlinear_arith)
            requires
                0 <= done <= total,
                total > 0,
        ;
    }
}

impl Progress {
    /// A panel for `count` plugins. It is enabled on a terminal and without
    /// `--json` only.
    pub fn new(count: usize, json: bool, terminal: bool) -> (r: Progress)
        ensures
            r.deep_view() == fresh(count as nat, json, terminal),
            r.deep_view().valid(),
    {
        let mut rows: Vec<Option<Row>> = Vec::new();
        let mut i: usize = 0;
        while i < count
            invariant
                i <= count,
                rows.len() == i,
                forall|j: int| 0 <= j < i ==> #[trigger] rows@[j] is None,
            decreases count - i,
        {
            rows.push(None);
            i = i + 1;
        }
        let r = Progress {
            enabled: !json && terminal,
            rows,
            done: 0,
            visible: 0,
            frame: 0,
            rendered: false,
            painted: 0,
        };
        proof {
            assert(r.deep_view().rows =~= fresh(count as nat, json, terminal).rows);
            lemma_none_checking(r.deep_view().rows);
        }
        r
    }

    /// Opens the row of a plugin.
    pub fn row(&mut self, index: usize, plugin_id: &str)
        requires
            old(self).deep_view().valid(),
            old(self).deep_view().enabled ==> index < old(self).deep_view().rows.len(),
            old(self).deep_view().enabled ==> old(self).deep_view().visible < usize::MAX,
        ensures
            final(self).deep_view() == with_row(old(self).deep_view(), index as int, plugin_id@),
            final(self).deep_view().valid(),
    {
        if !self.enabled {
            return;
        }
        let ghost before = self.deep_view();
        let row = Row { plugin_id: plugin_id.to_owned(), state: RowState::Checking };
        let ghost shown = row.deep_view();
        self.rows.set(index, Some(row));
        self.visible = self.visible + 1;
        proof {
            assert(self.deep_view().rows =~= before.rows.update(index as int, Some(shown)));
            lemma_checking_update(before.rows, index as int, Some(shown));
        }
    }

    /// Marks the row of a plugin done and paints the panel; a row that is done
    /// already changes nothing. `label` is the line that the report prints.
    pub fn done(&mut self, index: usize, ok: bool, label: String) -> (r: String)
        requires
            old(self).deep_view().valid(),
        ensures
            (final(self).deep_view(), r@) == with_done(
                old(self).deep_view(),
                index as int,
                ok,
                label@,
            ),
            final(self).deep_view().valid(),
    {
        if !self.enabled {
            return String::new();
        }
        let ghost before = self.deep_view();
        if index < self.rows.len() {
            let mut open: Option<String> = None;
            if let Some(row) = &self.rows[index] {
                assert(before.rows[index as int] == Some(row.deep_view()));
                match &row.state {
                    RowState::Checking => {
                        open = Some(row.plugin_id.clone());
                    },
                    RowState::Done { ok: _, label: _ } => {
                        return String::new();
                    },
                }
            } else {
                assert(before.rows[index as int] is None);
            }
            if let Some(plugin_id) = open {
                let row = Row { plugin_id, state: RowState::Done { ok, label } };
                let ghost shown = row.deep_view();
                proof {
                    lemma_checking_update(before.rows, index as int, Some(shown));
                    lemma_checking_some(before.rows, index as int);
                }
                self.rows.set(index, Some(row));
                self.done = self.done + 1;
                assert(self.deep_view().rows =~= before.rows.update(index as int, Some(shown)));
            }
        }
        assert(self.deep_view() =~= marked(before, index as int, ok, label@));
        self.render()
    }

    /// Moves the spinner on and paints the panel.
    pub fn tick(&mut self) -> (r: String)
        requires
            old(self).deep_view().valid(),
        ensures
            (final(self).deep_view(), r@) == ticked(old(self).deep_view()),
            final(self).deep_view().valid(),
    {
        if !self.enabled {
            return String::new();
        }
        self.frame = self.frame.wrapping_add(1);
        self.render()
    }

    /// Takes the panel off the screen: the cursor goes up to its first row and
    /// everything from there on is erased. What is printed next starts where the
    /// panel began.
    pub fn finish(&mut self) -> (r: String)
        requires
            old(self).deep_view().valid(),
        ensures
            (final(self).deep_view(), r@) == finished(old(self).deep_view()),
            final(self).deep_view().valid(),
    {
        if !self.enabled || !self.rendered {
            return String::new();
        }
        let mut out = "\r".to_owned();
        out.append(rewind_text(self.painted).as_str());
        out.append("\x1b[J");
        self.rendered = false;
        self.painted = 0;
        out
    }

    fn render(&mut self) -> (r: String)
        requires
            old(self).deep_view().valid(),
        ensures
            (final(self).deep_view(), r@) == painted(old(self).deep_view()),
            final(self).deep_view().valid(),
    {
        let ghost p = self.deep_view();
        let mut out = rewind_text(self.painted);
        out.append("\r");
        let ghost head = out@;
        let mut count: usize = 0;
        let mut i: usize = 0;
        assert(head + rows_text(p.rows.take(0), p.frame) =~= head);
        while i < self.rows.len()
            invariant
                p == self.deep_view(),
                i <= self.rows.len(),
                count <= i,
                count == row_count(p.rows.take(i as int)),
                out@ == head + rows_text(p.rows.take(i as int), p.frame),
            decreases self.rows.len() - i,
        {
            assert(p.rows.take(i + 1).drop_last() =~= p.rows.take(i as int));
            assert(p.rows.take(i + 1).last() == p.rows[i as int]);
            if let Some(row) = &self.rows[i] {
                assert(p.rows[i as int] == Some(row.deep_view()));
                push_row(&mut out, row, self.frame);
                count = count + 1;
            } else {
                assert(p.rows[i as int] is None);
            }
            assert(out@ =~= head + rows_text(p.rows.take(i + 1), p.frame));
            i = i + 1;
        }
        assert(p.rows.take(self.rows.len() as int) =~= p.rows);
        let total: usize = self.visible;
        let full: usize = if total == 0 {
            0
        } else {
            proof {
                lemma_filled(p.done, p.visible);
                assert(self.done as u128 * 20 <= u128::MAX);
            }
            (self.done as u128 * 20 / total as u128) as usize
        };
        proof {
            lemma_filled(p.done, p.visible);
            assert(full == filled(p.done, p.visible));
        }
        out.append("  ");
        let ghost with_rows = out@;
        push_repeated(&mut out, "█", full);
        push_repeated(&mut out, "░", BAR_WIDTH - full);
        assert(out@ =~= with_rows + bar(p.done, p.visible));
        out.append(" ");
        text::push_decimal(&mut out, self.done as u64);
        out.append("/");
        text::push_decimal(&mut out, total as u64);
        out.append(" checked\x1b[K");
        self.rendered = true;
        self.painted = count;
        assert(self.deep_view().rows =~= p.rows);
        out
    }
}

fn rewind_text(rows: usize) -> (r: String)
    ensures
        r@ == rewind(rows as nat),
{
    if rows == 0 {
        return String::new();
    }
    let mut out = "\x1b[".to_owned();
    text::push_decimal(&mut out, rows as u64);
    out.append("A");
    out
}

proof fn lemma_checking_some(rows: Seq<Option<RowView>>, i: int)
    requires
        0 <= i < rows.len(),
        is_checking(rows[i]),
    ensures
        checking(rows) >= 1,
    decreases rows.len(),
{
    if i < rows.len() - 1 {
        lemma_checking_some(rows.drop_last(), i);
    }
}

/// What is written over the line of an activity: the spinner and what goes on.
pub fn activity_line(label: &str, frame: usize) -> (r: String)
    ensures
        r@ == "\r  \x1b[2m"@ + spinner(frame) + " "@ + label@ + "\x1b[0m\x1b[K"@,
{
    let mut out = "\r  \x1b[2m".to_owned();
    out.append(spinner_at(frame));
    out.append(" ");
    out.append(label);
    out.append("\x1b[0m\x1b[K");
    out
}

/// What clears the line of an activity.
pub fn activity_end() -> (r: String)
    ensures
        r@ == "\r\x1b[K"@,
{
    "\r\x1b[K".to_owned()
}

/// A panel that is not enabled writes nothing and stays as it is.
pub proof fn disabled_writes_nothing(p: ProgressView, index: int, ok: bool, label: Seq<char>)
    requires
        !p.enabled,
    ensures
        with_row(p, index, label) == p,
        with_done(p, index, ok, label) == (p, Seq::<char>::empty()),
        ticked(p) == (p, Seq::<char>::empty()),
        finished(p) == (p, Seq::<char>::empty()),
{
}

/// Marking a row done a second time, however it went then, changes nothing: a
/// plugin counts once.
pub proof fn done_counts_once(
    p: ProgressView,
    index: int,
    ok: bool,
    label: Seq<char>,
    again_ok: bool,
    again_label: Seq<char>,
)
    requires
        p.enabled,
        0 <= index < p.rows.len(),
        is_checking(p.rows[index]),
    ensures
        ({
            let after = with_done(p, index, ok, label).0;
            after.done == p.done + 1 && with_done(after, index, again_ok, again_label) == (
                after,
                Seq::<char>::empty(),
            )
        }),
{
}

/// How many line feeds a text holds.
pub open spec fn line_feeds(s: Seq<char>) -> nat
    decreases s.len(),
{
    if s.len() == 0 {
        0
    } else {
        line_feeds(s.drop_last()) + if s.last() == '\n' {
            1nat
        } else {
            0nat
        }
    }
}

/// Whether a row is written on one line: what it shows holds no line feed.
pub open spec fn on_one_line(row: RowView) -> bool {
    match row.state {
        RowStateView::Checking => line_feeds(row.plugin_id) == 0,
        RowStateView::Done { label, .. } => line_feeds(label) == 0,
    }
}

proof fn lemma_feeds_add(a: Seq<char>, b: Seq<char>)
    ensures
        line_feeds(a + b) == line_feeds(a) + line_feeds(b),
    decreases b.len(),
{
    if b.len() == 0 {
        assert(a + b =~= a);
    } else {
        assert((a + b).drop_last() =~= a + b.drop_last());
        assert((a + b).last() == b.last());
        lemma_feeds_add(a, b.drop_last());
    }
}

proof fn lemma_no_feeds(s: Seq<char>)
    requires
        forall|i: int| 0 <= i < s.len() ==> s[i] != '\n',
    ensures
        line_feeds(s) == 0,
    decreases s.len(),
{
    if s.len() > 0 {
        lemma_no_feeds(s.drop_last());
    }
}

proof fn lemma_spinner_feeds(frame: usize)
    ensures
        line_feeds(spinner(frame)) == 0,
{
    reveal_strlit("⠋");
    reveal_strlit("⠙");
    reveal_strlit("⠹");
    reveal_strlit("⠸");
    reveal_strlit("⠼");
    reveal_strlit("⠴");
    reveal_strlit("⠦");
    reveal_strlit("⠧");
    reveal_strlit("⠇");
    reveal_strlit("⠏");
    lemma_no_feeds(spinner(frame));
}

proof fn lemma_row_feeds(row: RowView, frame: usize)
    requires
        on_one_line(row),
    ensures
        line_feeds(row_text(row, frame)) == 1,
        row_text(row, frame).last() == '\n',
{
    match row.state {
        RowStateView::Checking => {
            reveal_strlit("  \x1b[2m");
            reveal_strlit(" ");
            reveal_strlit("\x1b[0m\x1b[K\n");
            lemma_no_feeds("  \x1b[2m"@);
            lemma_no_feeds(" "@);
            lemma_no_feeds("\x1b[0m\x1b[K\n"@.drop_last());
            lemma_spinner_feeds(frame);
            let a = "  \x1b[2m"@ + spinner(frame);
            let b = a + " "@;
            let c = b + row.plugin_id;
            lemma_feeds_add("  \x1b[2m"@, spinner(frame));
            lemma_feeds_add(a, " "@);
            lemma_feeds_add(b, row.plugin_id);
            lemma_feeds_add(c, "\x1b[0m\x1b[K\n"@);
        },
        RowStateView::Done { ok, label } => {
            reveal_strlit("  \x1b[32m✓\x1b[0m ");
            reveal_strlit("  \x1b[31m✗\x1b[0m ");
            reveal_strlit("\x1b[K\n");
            let a = if ok {
                "  \x1b[32m✓\x1b[0m "@
            } else {
                "  \x1b[31m✗\x1b[0m "@
            };
            lemma_no_feeds(a);
            lemma_no_feeds("\x1b[K\n"@.drop_last());
            lemma_feeds_add(a, label);
            lemma_feeds_add(a + label, "\x1b[K\n"@);
        },
    }
}

proof fn lemma_rows_feeds(rows: Seq<Option<RowView>>, frame: usize)
    requires
        forall|i: int|
            0 <= i < rows.len() && (#[trigger] rows[i]) is Some ==> on_one_line(rows[i]->0),
    ensures
        line_feeds(rows_text(rows, frame)) == row_count(rows),
    decreases rows.len(),
{
    if rows.len() > 0 {
        let front = rows.drop_last();
        lemma_rows_feeds(front, frame);
        let more = match rows.last() {
            Some(row) => row_text(row, frame),
            None => Seq::empty(),
        };
        lemma_feeds_add(rows_text(front, frame), more);
        if let Some(row) = rows.last() {
            assert(rows[rows.len() - 1] is Some);
            lemma_row_feeds(row, frame);
        }
    }
}

/// A panel goes back exactly to its own top: what is painted holds as many row
/// lines, each ended by a line feed, as the cursor goes up from the bar behind
/// them, both when the panel is painted again and when it is taken off the
/// screen. A row is one line where the text that it shows is.
pub proof fn rewinds_to_its_top(p: ProgressView)
    requires
        p.enabled,
        p.valid(),
        forall|i: int|
            0 <= i < p.rows.len() && (#[trigger] p.rows[i]) is Some ==> on_one_line(p.rows[i]->0),
    ensures
        ({
            let on_screen = painted(p).0;
            let lines = line_feeds(rows_text(p.rows, p.frame));
            &&& on_screen.valid()
            &&& on_screen.painted == lines
            &&& finished(on_screen).1 == "\r"@ + rewind(lines) + "\x1b[J"@
            &&& finished(finished(on_screen).0).1 == Seq::<char>::empty()
            &&& rewind(lines).is_prefix_of(panel(on_screen))
        }),
{
    lemma_rows_feeds(p.rows, p.frame);
    let on_screen = painted(p).0;
    let up = rewind(on_screen.painted);
    assert(panel(on_screen).subrange(0, up.len() as int) =~= up);
}

/// Opening rows leaves alone what is known of the panel on the screen: rows that
/// were not painted yet are not counted when it is painted over.
pub proof fn new_rows_are_not_on_the_screen(p: ProgressView, index: int, plugin_id: Seq<char>)
    ensures
        with_row(p, index, plugin_id).painted == p.painted,
        with_row(p, index, plugin_id).rendered == p.rendered,
{
}

proof fn lemma_repeated_len(s: Seq<char>, n: nat)
    requires
        s.len() == 1,
    ensures
        repeated(s, n).len() == n,
    decreases n,
{
    if n > 0 {
        lemma_repeated_len(s, (n - 1) as nat);
    }
}

/// The bar of every panel is `BAR_WIDTH` characters wide, and it is full exactly
/// where all of the rows that were opened are done.
pub proof fn bar_is_whole(p: ProgressView)
    requires
        p.valid(),
    ensures
        bar(p.done, p.visible).len() == BAR_WIDTH,
        filled(p.done, p.visible) == BAR_WIDTH <==> p.visible > 0 && p.done == p.visible,
{
    lemma_filled(p.done, p.visible);
    reveal_strlit("█");
    reveal_strlit("░");
    lemma_repeated_len("█"@, filled(p.done, p.visible));
    lemma_repeated_len("░"@, (BAR_WIDTH as nat - filled(p.done, p.visible)) as nat);
    let done = p.done;
    let total = p.visible;
    if total > 0 {
        if done == total {
            assert(done * 20 / total == 20) by (nonlinear_arith)
                requires
                    done == total,
                    total > 0,
            ;
        } else {
            assert(done * 20 / total < 20) by (nonlinear_arith)
                requires
                    done < total,
                    total > 0,
            ;
        }
    }
}

/// Opening a row shows its plugin as being checked and counts it, on a panel that
/// is enabled; every other row, and what is done, stays as it is.
pub proof fn a_row_is_opened_for_its_plugin(
    p: ProgressView,
    index: int,
    plugin_id: Seq<char>,
    i: int,
)
    requires
        p.enabled,
        0 <= index < p.rows.len(),
        0 <= i < p.rows.len(),
    ensures
        ({
            let after = with_row(p, index, plugin_id);
            &&& after.rows.len() == p.rows.len()
            &&& after.rows[index] is Some && after.rows[index]->0.plugin_id == plugin_id
                && after.rows[index]->0.state is Checking
            &&& i != index ==> after.rows[i] == p.rows[i]
            &&& after.visible == p.visible + 1
            &&& after.done == p.done
            &&& after.enabled && after.frame == p.frame
        }),
{
}

/// Marking a row done keeps its plugin, shows how it went and what the report
/// prints, counts it once and paints the panel. Every other row stays as it is,
/// and so does everything where no row is open there.
pub proof fn a_row_is_done_as_reported(
    p: ProgressView,
    index: int,
    ok: bool,
    label: Seq<char>,
    i: int,
)
    requires
        p.enabled,
        0 <= i < p.rows.len(),
    ensures
        ({
            let (after, written) = with_done(p, index, ok, label);
            let open = 0 <= index < p.rows.len() && is_checking(p.rows[index]);
            let closed = 0 <= index < p.rows.len() && p.rows[index] is Some
                && p.rows[index]->0.state is Done;
            &&& after.rows.len() == p.rows.len()
            &&& i != index || !open ==> after.rows[i] == p.rows[i]
            &&& open ==> after.rows[index] == Some(
                RowView {
                    plugin_id: p.rows[index]->0.plugin_id,
                    state: RowStateView::Done { ok, label },
                },
            )
            &&& after.done == p.done + (if open {
                1nat
            } else {
                0nat
            })
            &&& after.visible == p.visible && after.frame == p.frame && after.enabled
            &&& closed ==> after == p && written.len() == 0
            &&& !closed ==> after.rendered && after.painted == row_count(after.rows) && written
                == panel(ProgressView { painted: p.painted, rendered: p.rendered, ..after })
        }),
{
    if !is_done(p, index) {
        let m = marked(p, index, ok, label);
        let (after, _) = with_done(p, index, ok, label);
        assert((ProgressView { painted: p.painted, rendered: p.rendered, ..after }) =~= m);
    }
}

/// The spinner moves on by one, and the panel is painted as it is otherwise.
pub proof fn the_spinner_moves_on(p: ProgressView)
    requires
        p.enabled,
    ensures
        ({
            let (after, written) = ticked(p);
            &&& p.frame < usize::MAX ==> after.frame == p.frame + 1
            &&& p.frame == usize::MAX ==> after.frame == 0
            &&& after.rows == p.rows && after.done == p.done && after.visible == p.visible
            &&& after.enabled && after.rendered && after.painted == row_count(p.rows)
            &&& written == panel(ProgressView { frame: after.frame, ..p })
        }),
{
}

/// The spinner has ten pictures that differ, and shows them in turn.
pub proof fn the_spinner_has_ten_pictures(a: usize, b: usize)
    ensures
        spinner(a) == spinner(b) <==> a % 10 == b % 10,
        spinner(a).len() == 1,
{
    reveal_strlit("⠋");
    reveal_strlit("⠙");
    reveal_strlit("⠹");
    reveal_strlit("⠸");
    reveal_strlit("⠼");
    reveal_strlit("⠴");
    reveal_strlit("⠦");
    reveal_strlit("⠧");
    reveal_strlit("⠇");
    reveal_strlit("⠏");
    assert("⠋"@[0] == '⠋' && "⠙"@[0] == '⠙' && "⠹"@[0] == '⠹' && "⠸"@[0] == '⠸');
    assert("⠼"@[0] == '⠼' && "⠴"@[0] == '⠴' && "⠦"@[0] == '⠦' && "⠧"@[0] == '⠧');
    assert("⠇"@[0] == '⠇' && "⠏"@[0] == '⠏');
}

/// A panel that is painted shows its rows, the bar and how many of the rows are
/// done, in this order.
pub proof fn panels_show_rows_bar_and_count(p: ProgressView)
    ensures
        (rows_text(p.rows, p.frame) + "  "@ + bar(p.done, p.visible) + " "@ + text::decimal(p.done)
            + "/"@ + text::decimal(p.visible) + " checked\x1b[K"@).is_suffix_of(panel(p)),
        p.painted == 0 ==> panel(p).len() > 0 && panel(p)[0] == '\r',
{
    let shown = rows_text(p.rows, p.frame) + "  "@ + bar(p.done, p.visible) + " "@ + text::decimal(
        p.done,
    ) + "/"@ + text::decimal(p.visible) + " checked\x1b[K"@;
    let all = panel(p);
    assert(shown =~= all.subrange(all.len() - shown.len(), all.len() as int));
    if p.painted == 0 {
        reveal_strlit("\r");
        assert(rewind(p.painted) =~= Seq::<char>::empty());
        assert(all[0] == "\r"@[0]);
    }
}

/// The rows are shown one behind the other, each with its plugin while it is
/// checked, and with what the report prints of it, marked by how it went, once it
/// is done. A place without a row shows nothing.
pub proof fn rows_are_shown_in_order(
    a: Seq<Option<RowView>>,
    b: Seq<Option<RowView>>,
    row: RowView,
    frame: usize,
)
    ensures
        rows_text(a + b, frame) == rows_text(a, frame) + rows_text(b, frame),
        rows_text(seq![None::<RowView>], frame).len() == 0,
        rows_text(Seq::empty(), frame).len() == 0,
        row.state is Checking ==> rows_text(seq![Some(row)], frame) == "  \x1b[2m"@ + spinner(frame)
            + " "@ + row.plugin_id + "\x1b[0m\x1b[K\n"@,
        row.state matches RowStateView::Done { ok, label } ==> rows_text(seq![Some(row)], frame)
            == (if ok {
            "  \x1b[32m✓\x1b[0m "@
        } else {
            "  \x1b[31m✗\x1b[0m "@
        }) + label + "\x1b[K\n"@,
        row_count(a + b) == row_count(a) + row_count(b),
        row_count(seq![Some(row)]) == 1,
        row_count(seq![None::<RowView>]) == 0,
    decreases b.len(),
{
    let nothing = Seq::<char>::empty();
    let one = seq![Some(row)];
    let gap = seq![None::<RowView>];
    reveal_with_fuel(rows_text, 2);
    reveal_with_fuel(row_count, 2);
    assert(one.drop_last() =~= Seq::<Option<RowView>>::empty());
    assert(gap.drop_last() =~= Seq::<Option<RowView>>::empty());
    assert(nothing + row_text(row, frame) =~= row_text(row, frame));
    assert(rows_text(one, frame) == row_text(row, frame));
    assert(rows_text(gap, frame) =~= nothing);
    if b.len() == 0 {
        assert(a + b =~= a);
        assert(rows_text(a, frame) + rows_text(b, frame) =~= rows_text(a, frame));
    } else {
        assert((a + b).drop_last() =~= a + b.drop_last());
        rows_are_shown_in_order(a, b.drop_last(), row, frame);
        let more = match b.last() {
            Some(last) => row_text(last, frame),
            None => Seq::empty(),
        };
        assert(rows_text(a, frame) + rows_text(b.drop_last(), frame) + more =~= rows_text(a, frame)
            + (rows_text(b.drop_last(), frame) + more));
    }
}

/// The bar is filled by the share of rows that are done, rounded down.
pub proof fn the_bar_shows_the_share(done: nat, total: nat)
    requires
        total > 0,
        done <= total,
    ensures
        filled(done, total) * total <= done * 20,
        done * 20 < (filled(done, total) + 1) * total,
        filled(done, 0) == 0,
        bar(done, total) == repeated("█"@, filled(done, total)) + repeated(
            "░"@,
            (20 - filled(done, total)) as nat,
        ),
        forall|i: int| 0 <= i < filled(done, total) ==> #[trigger] bar(done, total)[i] == '█',
        forall|i: int| filled(done, total) <= i < 20 ==> #[trigger] bar(done, total)[i] == '░',
{
    let f = done * 20 / total;
    assert(f * total <= done * 20 && done * 20 < (f + 1) * total) by (nonlinear_arith)
        requires
            f == done * 20 / total,
            total > 0,
    ;
    lemma_filled(done, total);
    reveal_strlit("█");
    reveal_strlit("░");
    lemma_repeated_chars("█"@, f);
    lemma_repeated_chars("░"@, (20 - f) as nat);
}

proof fn lemma_repeated_chars(s: Seq<char>, n: nat)
    requires
        s.len() == 1,
    ensures
        repeated(s, n).len() == n,
        forall|i: int| 0 <= i < n ==> #[trigger] repeated(s, n)[i] == s[0],
    decreases n,
{
    if n > 0 {
        lemma_repeated_chars(s, (n - 1) as nat);
    }
}

/// What moves the cursor up names the count of rows, and nothing is written for
/// none.
pub proof fn the_cursor_goes_up_by_rows(rows: nat)
    ensures
        rows == 0 ==> rewind(rows).len() == 0,
        rows > 0 ==> rewind(rows) == "\x1b["@ + text::decimal(rows) + "A"@,
{
}

} // verus!
