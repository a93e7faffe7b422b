//! Applying a plan to one plugin after the other.
//!
//! `begin` says what is printed of a plugin and what happens first with it;
//! `follow` takes what came of that and says what happens next, until the plugin
//! is settled.

use crate::collect;
use crate::config::Config;
use crate::config::ConfigView;
use crate::config::Policy;
use crate::install;
use crate::install::InstallRun;
use crate::plan;
use crate::registry;
use crate::registry::Plugin;
use crate::registry::PluginView;
use crate::remote::JobResultView;
use crate::report;
use crate::report::Line;
use crate::report::LineView;
use crate::state::StateEntry;
use crate::state::StateEntryView;
use crate::text;
use crate::updater;
use crate::updater::Action;
use crate::updater::PlanEntry;
use crate::updater::PlanEntryView;
use crate::updater::PluginStatusView;
use crate::updater::RefKind;
use crate::updater::Status;
use vstd::prelude::*;

verus! {

/// Who is at the other end of a run.
#[derive(Debug, Clone, Copy, PartialEq, Eq, Structural)]
pub struct Mode {
    /// Machine-readable output.
    pub json: bool,
    /// Standard input is a terminal.
    pub stdin_terminal: bool,
    /// Standard output is a terminal.
    pub stdout_terminal: bool,
}

impl Mode {
    /// Whether the user may be asked.
    pub open spec fn interactive(self) -> bool {
        !self.json && self.stdin_terminal
    }

    /// Whether an install is shown by an animated line.
    pub open spec fn animated(self) -> bool {
        !self.json && self.stdout_terminal
    }
}

/// What became of a plugin.
#[derive(Debug, Clone, Copy, PartialEq, Eq, Structural)]
pub enum Outcome {
    /// Reinstalled.
    Updated,
    /// The reinstall failed.
    Failed,
    /// It has an update but is on the exclude list.
    Excluded,
    /// It has an update but is held back.
    Held,
    /// It is pinned to a commit and stays there.
    Pinned,
    /// It could not be checked.
    Error,
    /// It is where its upstream is.
    UpToDate,
}

/// What happens next with a plugin.
#[derive(Debug)]
pub enum Work {
    /// Nothing more.
    Settle(Outcome),
    /// Ask the user this and read a line.
    Ask(String),
    /// Install the update with these arguments behind the herdr program; the
    /// label says what goes on.
    Update { args: Vec<String>, label: String },
    /// Install from the default branch with these arguments behind the herdr
    /// program.
    Repin { args: Vec<String> },
    /// Append the update to the trail.
    RecordUpdate,
    /// List the installed plugins to see that the update took hold.
    Verify,
    /// List the installed plugins to learn the commit that was installed.
    Locate,
    /// Append to the trail that the plugin moved from its pin to this commit.
    RecordPin(String),
}

/// A `Work` as values.
#[verifier::ext_equal]
pub enum WorkView {
    Settle(Outcome),
    Ask(Seq<char>),
    Update { args: Seq<Seq<char>>, label: Seq<char> },
    Repin { args: Seq<Seq<char>> },
    RecordUpdate,
    Verify,
    Locate,
    RecordPin(Seq<char>),
}

impl DeepView for Work {
    type V = WorkView;

    open spec fn deep_view(&self) -> WorkView {
        match self {
            Work::Settle(o) => WorkView::Settle(*o),
            Work::Ask(s) => WorkView::Ask(s@),
            Work::Update { args, label } => WorkView::Update {
                args: args.deep_view(),
                label: label@,
            },
            Work::Repin { args } => WorkView::Repin { args: args.deep_view() },
            Work::RecordUpdate => WorkView::RecordUpdate,
            Work::Verify => WorkView::Verify,
            Work::Locate => WorkView::Locate,
            Work::RecordPin(s) => WorkView::RecordPin(s@),
        }
    }
}

/// What is printed now and what happens next with a plugin.
#[derive(Debug)]
pub struct Step {
    pub lines: Vec<Line>,
    pub work: Work,
}

/// A `Step` as values.
#[verifier::ext_equal]
pub struct StepView {
    pub lines: Seq<LineView>,
    pub work: WorkView,
}

impl DeepView for Step {
    type V = StepView;

    open spec fn deep_view(&self) -> StepView {
        StepView { lines: self.lines.deep_view(), work: self.work.deep_view() }
    }
}

/// How writing the trail ended.
#[derive(Debug)]
pub enum Saved {
    /// No place for the trail is known.
    Nowhere,
    /// It was written.
    Written,
    /// It could not be written, and why.
    Failed(String),
}

/// One line for standard output, unless the output is machine-readable.
pub open spec fn told(mode: Mode, s: Seq<char>) -> Seq<LineView> {
    if mode.json {
        Seq::empty()
    } else {
        seq![LineView::Say(s)]
    }
}

/// One line for standard error, unless the output is machine-readable.
pub open spec fn warned(mode: Mode, s: Seq<char>) -> Seq<LineView> {
    if mode.json {
        Seq::empty()
    } else {
        seq![LineView::Note(s)]
    }
}

fn tell(mode: Mode, s: String) -> (r: Vec<Line>)
    ensures
        r.deep_view() == told(mode, s@),
{
    if mode.json {
        report::no_lines()
    } else {
        report::one_line(s)
    }
}

/// The installed version of a plugin in words.
pub open spec fn from_of(e: PlanEntryView) -> Seq<char> {
    updater::version_text(e.version, e.installed_sha)
}

/// The upstream version of a plugin in words.
pub open spec fn to_of(e: PlanEntryView) -> Seq<char> {
    updater::remote_text(e.remote_version, e.remote_sha)
}

fn from_text(e: &PlanEntry) -> (r: String)
    ensures
        r@ == from_of(e.deep_view()),
{
    updater::version_str(&e.version, e.installed_sha.as_str())
}

fn to_text(e: &PlanEntry) -> (r: String)
    ensures
        r@ == to_of(e.deep_view()),
{
    updater::remote_str(&e.remote_version, &e.remote_sha)
}

/// Whether a rollback pinned a plugin, as the reason of its entry says.
pub open spec fn by_rollback(e: PlanEntryView) -> bool {
    "pinned by rollback"@.is_prefix_of(text::or_empty(e.reason))
}

fn is_by_rollback(e: &PlanEntry) -> (r: bool)
    ensures
        r == by_rollback(e.deep_view()),
{
    let note = text::text_or_empty(&e.reason);
    text::has_prefix(note.as_str(), "pinned by rollback")
}

/// The line of a plugin that is where its upstream is.
pub open spec fn up_to_date_line(e: PlanEntryView) -> Seq<char> {
    "  ["@ + e.plugin_id + "] up to date (installed "@ + from_of(e) + ", latest "@ + from_of(e)
        + ")"@
}

fn up_to_date_text(e: &PlanEntry) -> (r: String)
    ensures
        r@ == up_to_date_line(e.deep_view()),
{
    let from = from_text(e);
    let mut s = "  [".to_owned();
    s.append(e.plugin_id.as_str());
    s.append("] up to date (installed ");
    s.append(from.as_str());
    s.append(", latest ");
    s.append(from.as_str());
    s.append(")");
    s
}

/// The line of a plugin that stays at its commit.
pub open spec fn pinned_line(e: PlanEntryView) -> Seq<char> {
    up_to_date_line(e) + if by_rollback(e) {
        " (pinned by rollback; run `resume`)"@
    } else {
        " (commit-pinned; not auto-updated; run `update` from a terminal to update it interactively)"@
    }
}

fn pinned_text(e: &PlanEntry) -> (r: String)
    ensures
        r@ == pinned_line(e.deep_view()),
{
    let mut s = up_to_date_text(e);
    if is_by_rollback(e) {
        s.append(" (pinned by rollback; run `resume`)");
    } else {
        s.append(" (commit-pinned; not auto-updated; run `update` from a terminal to update it interactively)");
    }
    s
}

/// The line of a plugin that has an update which is not installed.
pub open spec fn passed_over_line(e: PlanEntryView, excluded: bool) -> Seq<char> {
    let head = "  ["@ + e.plugin_id + "] update available (installed "@ + from_of(e)
        + " -> latest "@ + to_of(e);
    if excluded {
        head + ") but excluded"@
    } else {
        head + ") but held ("@ + (match e.reason {
            Some(why) => why,
            None => "held"@,
        }) + ")"@
    }
}

fn passed_over_text(e: &PlanEntry, excluded: bool) -> (r: String)
    ensures
        r@ == passed_over_line(e.deep_view(), excluded),
{
    let mut s = "  [".to_owned();
    s.append(e.plugin_id.as_str());
    s.append("] update available (installed ");
    s.append(from_text(e).as_str());
    s.append(" -> latest ");
    s.append(to_text(e).as_str());
    if excluded {
        s.append(") but excluded");
    } else {
        s.append(") but held (");
        match &e.reason {
            Some(why) => s.append(why.as_str()),
            None => s.append("held"),
        }
        s.append(")");
    }
    s
}

/// From which to which version an update goes, and at which ref.
pub open spec fn span_of(e: PlanEntryView) -> Seq<char> {
    let head = from_of(e) + " -> latest "@ + to_of(e);
    match e.requested_ref {
        Some(r) => head + " (pinned "@ + r + ")"@,
        None => head,
    }
}

fn span_text(e: &PlanEntry) -> (r: String)
    ensures
        r@ == span_of(e.deep_view()),
{
    let mut s = from_text(e);
    s.append(" -> latest ");
    s.append(to_text(e).as_str());
    if let Some(r) = &e.requested_ref {
        s.append(" (pinned ");
        s.append(r.as_str());
        s.append(")");
    }
    s
}

/// What is asked about a plugin that is pinned to a commit.
pub open spec fn question(e: PlanEntryView) -> Seq<char> {
    "  ["@ + e.plugin_id + "] pinned to a commit (installed "@ + from_of(e)
        + "); reinstall from the default branch to update? [y/N] "@
}

/// What is done first with a plugin: a planned update is installed; a pin to a
/// commit that no rollback made is asked about where someone can answer; all
/// else is only reported.
pub open spec fn beginning(cfg: ConfigView, e: PlanEntryView, mode: Mode) -> StepView {
    match e.action {
        Action::Error => StepView {
            lines: match e.reason {
                Some(err) => warned(mode, "  ["@ + e.plugin_id + "] error: "@ + err),
                None => Seq::empty(),
            },
            work: WorkView::Settle(Outcome::Error),
        },
        Action::Hold => if e.status == Status::Same && e.ref_kind == RefKind::Commit {
            if mode.interactive() && !by_rollback(e) {
                StepView { lines: Seq::empty(), work: WorkView::Ask(question(e)) }
            } else {
                StepView {
                    lines: told(mode, pinned_line(e)),
                    work: WorkView::Settle(Outcome::Pinned),
                }
            }
        } else if e.status == Status::Same {
            StepView {
                lines: told(mode, up_to_date_line(e)),
                work: WorkView::Settle(Outcome::UpToDate),
            }
        } else {
            let excluded = cfg.exclude.contains(e.plugin_id);
            StepView {
                lines: told(mode, passed_over_line(e, excluded)),
                work: WorkView::Settle(
                    if excluded {
                        Outcome::Excluded
                    } else {
                        Outcome::Held
                    },
                ),
            }
        },
        Action::Update => StepView {
            lines: if mode.animated() {
                Seq::empty()
            } else {
                told(mode, "  ["@ + e.plugin_id + "] updating installed "@ + span_of(e))
            },
            work: WorkView::Update {
                args: install::args_for(e.owner, e.repo, e.requested_ref),
                label: "updating "@ + e.plugin_id + " installed "@ + span_of(e),
            },
        },
    }
}

fn begin_held(cfg: &Config, e: &PlanEntry, mode: Mode) -> (r: Step)
    requires
        e.action == Action::Hold,
    ensures
        r.deep_view() == beginning(cfg.deep_view(), e.deep_view(), mode),
{
    if e.status == Status::Same {
        if e.ref_kind == RefKind::Commit {
            if !mode.json && mode.stdin_terminal && !is_by_rollback(e) {
                let mut s = "  [".to_owned();
                s.append(e.plugin_id.as_str());
                s.append("] pinned to a commit (installed ");
                s.append(from_text(e).as_str());
                s.append("); reinstall from the default branch to update? [y/N] ");
                return Step { lines: report::no_lines(), work: Work::Ask(s) };
            }
            return Step {
                lines: tell(mode, pinned_text(e)),
                work: Work::Settle(Outcome::Pinned),
            };
        }
        return Step {
            lines: tell(mode, up_to_date_text(e)),
            work: Work::Settle(Outcome::UpToDate),
        };
    }
    let excluded = cfg.is_excluded(e.plugin_id.as_str());
    let outcome = if excluded {
        Outcome::Excluded
    } else {
        Outcome::Held
    };
    Step { lines: tell(mode, passed_over_text(e, excluded)), work: Work::Settle(outcome) }
}

/// Begins with a plugin of a plan.
pub fn begin(cfg: &Config, e: &PlanEntry, mode: Mode) -> (r: Step)
    ensures
        r.deep_view() == beginning(cfg.deep_view(), e.deep_view(), mode),
{
    match e.action {
        Action::Error => {
            let mut lines = report::no_lines();
            if let Some(err) = &e.reason {
                if !mode.json {
                    let mut s = "  [".to_owned();
                    s.append(e.plugin_id.as_str());
                    s.append("] error: ");
                    s.append(err.as_str());
                    lines = report::one_warning(s);
                }
            }
            Step { lines, work: Work::Settle(Outcome::Error) }
        },
        Action::Hold => begin_held(cfg, e, mode),
        Action::Update => {
            let span = span_text(e);
            let mut lines = report::no_lines();
            if !mode.json && !mode.stdout_terminal {
                let mut s = "  [".to_owned();
                s.append(e.plugin_id.as_str());
                s.append("] updating installed ");
                s.append(span.as_str());
                lines = report::one_line(s);
            }
            let mut label = "updating ".to_owned();
            label.append(e.plugin_id.as_str());
            label.append(" installed ");
            label.append(span.as_str());
            let args = install::install_args(
                e.owner.as_str(),
                e.repo.as_str(),
                text::borrowed(&e.requested_ref),
            );
            Step { lines, work: Work::Update { args, label } }
        },
    }
}

/// Whether a character is a letter in either case.
pub open spec fn letter(c: char, lower: char, upper: char) -> bool {
    c == lower || c == upper
}

/// Whether an answer is `y` or `yes`, in any case and with white space around.
pub open spec fn is_yes(ans: Seq<char>) -> bool {
    let t = text::trimmed(ans);
    ||| t.len() == 1 && letter(t[0], 'y', 'Y')
    ||| t.len() == 3 && letter(t[0], 'y', 'Y') && letter(t[1], 'e', 'E') && letter(t[2], 's', 'S')
}

/// Whether an answer is `y` or `yes`, in any case.
pub fn yes_answer(ans: &str) -> (r: bool)
    ensures
        r == is_yes(ans@),
{
    let t = text::chars_of(text::trim(ans));
    if t.len() == 0 || (t[0] != 'y' && t[0] != 'Y') {
        return false;
    }
    t.len() == 1 || (t.len() == 3 && (t[1] == 'e' || t[1] == 'E') && (t[2] == 's' || t[2]
        == 'S'))
}

/// What happens next once the user was asked about a pin.
pub open spec fn after_answer(e: PlanEntryView, mode: Mode, ans: Seq<char>) -> StepView {
    if is_yes(ans) {
        StepView {
            lines: Seq::empty(),
            work: WorkView::Repin { args: install::args_for(e.owner, e.repo, None) },
        }
    } else {
        StepView {
            lines: told(mode, "  ["@ + e.plugin_id + "] keeping commit pin"@) + told(
                mode,
                pinned_line(e),
            ),
            work: WorkView::Settle(Outcome::Pinned),
        }
    }
}

/// Goes on once the user was asked about a pin.
fn answered(e: &PlanEntry, mode: Mode, ans: &str) -> (r: Step)
    ensures
        r.deep_view() == after_answer(e.deep_view(), mode, ans@),
{
    if yes_answer(ans) {
        let args = install::install_args(e.owner.as_str(), e.repo.as_str(), None);
        return Step { lines: report::no_lines(), work: Work::Repin { args } };
    }
    let mut lines = report::no_lines();
    if !mode.json {
        let mut s = "  [".to_owned();
        s.append(e.plugin_id.as_str());
        s.append("] keeping commit pin");
        report::say(&mut lines, s);
        report::say(&mut lines, pinned_text(e));
    }
    let r = Step { lines, work: Work::Settle(Outcome::Pinned) };
    assert(r.deep_view() =~= after_answer(e.deep_view(), mode, ans@));
    r
}

/// What happens next once an update was installed, or failed to be.
pub open spec fn after_update(
    e: PlanEntryView,
    mode: Mode,
    bin: Seq<char>,
    run: InstallRun,
) -> StepView {
    let ok = install::installed(run);
    StepView {
        lines: install::complaint(bin, e.owner, e.repo, run) + if !mode.animated() {
            Seq::empty()
        } else if ok {
            seq![LineView::Say("  ["@ + e.plugin_id + "] updated installed "@ + span_of(e))]
        } else {
            seq![LineView::Note("  ["@ + e.plugin_id + "] update failed ("@ + to_of(e) + ")"@)]
        },
        work: if ok {
            WorkView::RecordUpdate
        } else {
            WorkView::Settle(Outcome::Failed)
        },
    }
}

/// Goes on once the installer was run for an update.
fn update_installed(e: &PlanEntry, mode: Mode, bin: &str, run: &InstallRun) -> (r: Step)
    ensures
        r.deep_view() == after_update(e.deep_view(), mode, bin@, *run),
{
    let (ok, mut lines) = install::install_result(bin, e.owner.as_str(), e.repo.as_str(), run);
    if !mode.json && mode.stdout_terminal {
        let mut s = "  [".to_owned();
        s.append(e.plugin_id.as_str());
        if ok {
            s.append("] updated installed ");
            s.append(span_text(e).as_str());
            report::say(&mut lines, s);
        } else {
            s.append("] update failed (");
            s.append(to_text(e).as_str());
            s.append(")");
            report::warn(&mut lines, s);
        }
    }
    let work = if ok {
        Work::RecordUpdate
    } else {
        Work::Settle(Outcome::Failed)
    };
    let r = Step { lines, work };
    assert(r.deep_view() =~= after_update(e.deep_view(), mode, bin@, *run));
    r
}

/// The entry of the trail for an update.
pub open spec fn update_record(e: PlanEntryView, now: Seq<char>) -> StateEntryView {
    StateEntryView {
        plugin_id: e.plugin_id,
        previous_sha: e.installed_sha,
        current_sha: text::or_empty(e.remote_sha),
        requested_ref: e.requested_ref,
        updated_at: now,
        result: "updated"@,
    }
}

/// The entry of the trail for an update.
pub fn update_entry(e: &PlanEntry, now: &str) -> (r: StateEntry)
    ensures
        r.deep_view() == update_record(e.deep_view(), now@),
{
    StateEntry {
        plugin_id: e.plugin_id.clone(),
        previous_sha: e.installed_sha.clone(),
        current_sha: text::text_or_empty(&e.remote_sha),
        requested_ref: text::copy_of(&e.requested_ref),
        updated_at: now.to_owned(),
        result: "updated".to_owned(),
    }
}

/// The warning where the trail could not be written.
pub open spec fn save_warning(saved: Saved) -> Seq<LineView> {
    match saved {
        Saved::Failed(err) => seq![LineView::Note("  warning: "@ + err@)],
        _ => Seq::empty(),
    }
}

/// The warning where the trail could not be written.
pub fn save_lines(saved: &Saved) -> (r: Vec<Line>)
    ensures
        r.deep_view() == save_warning(*saved),
{
    match saved {
        Saved::Failed(err) => {
            let mut s = "  warning: ".to_owned();
            s.append(err.as_str());
            report::one_warning(s)
        },
        _ => report::no_lines(),
    }
}

/// What happens next once an update was recorded, or failed to be. The plugin is
/// updated either way.
pub open spec fn after_record(e: PlanEntryView, saved: Saved) -> StepView {
    StepView {
        lines: save_warning(saved),
        work: if saved is Written && e.remote_sha is Some {
            WorkView::Verify
        } else {
            WorkView::Settle(Outcome::Updated)
        },
    }
}

/// Goes on once an update was recorded, or failed to be.
fn update_recorded(e: &PlanEntry, saved: &Saved) -> (r: Step)
    ensures
        r.deep_view() == after_record(e.deep_view(), *saved),
{
    let lines = save_lines(saved);
    let written = match saved {
        Saved::Written => true,
        _ => false,
    };
    if written && e.remote_sha.is_some() {
        Step { lines, work: Work::Verify }
    } else {
        Step { lines, work: Work::Settle(Outcome::Updated) }
    }
}

/// A list of plugins, or why there is none, as values.
pub open spec fn list_of(listed: Result<Vec<Plugin>, String>) -> Result<
    Seq<PluginView>,
    Seq<char>,
> {
    match listed {
        Ok(plugins) => Ok(plugins.deep_view()),
        Err(e) => Err(e@),
    }
}

/// What happens next once the plugins were listed behind an update: a registry
/// that does not show the new commit is worth a warning.
pub open spec fn after_verify(
    e: PlanEntryView,
    listed: Result<Seq<PluginView>, Seq<char>>,
) -> StepView {
    StepView {
        lines: match listed {
            Ok(plugins) => if registry::commit_of(plugins, e.plugin_id) == Some(
                text::or_empty(e.remote_sha),
            ) {
                Seq::empty()
            } else {
                seq![
                    LineView::Note(
                        "  ["@ + e.plugin_id
                            + "] warning: verify failed - registry still reports the old commit"@,
                    ),
                ]
            },
            Err(err) => seq![
                LineView::Note("  ["@ + e.plugin_id + "] warning: verify error: "@ + err),
            ],
        },
        work: WorkView::Settle(Outcome::Updated),
    }
}

/// Goes on once the plugins were listed behind an update.
fn update_verified(e: &PlanEntry, listed: &Result<Vec<Plugin>, String>) -> (r: Step)
    ensures
        r.deep_view() == after_verify(e.deep_view(), list_of(*listed)),
{
    let mut lines = report::no_lines();
    let mut s = "  [".to_owned();
    s.append(e.plugin_id.as_str());
    match listed {
        Ok(plugins) => {
            let expected = text::text_or_empty(&e.remote_sha);
            if !registry::verify_installed(plugins, e.plugin_id.as_str(), expected.as_str()) {
                s.append("] warning: verify failed - registry still reports the old commit");
                lines = report::one_warning(s);
            }
        },
        Err(err) => {
            s.append("] warning: verify error: ");
            s.append(err.as_str());
            lines = report::one_warning(s);
        },
    }
    Step { lines, work: Work::Settle(Outcome::Updated) }
}

/// What happens next once a pinned plugin was reinstalled, or failed to be.
pub open spec fn after_repin(
    e: PlanEntryView,
    mode: Mode,
    bin: Seq<char>,
    run: InstallRun,
) -> StepView {
    if install::installed(run) {
        StepView {
            lines: Seq::empty(),
            work: WorkView::Locate,
        }
    } else {
        StepView {
            lines: install::complaint(bin, e.owner, e.repo, run) + warned(
                mode,
                "  ["@ + e.plugin_id + "] reinstall failed"@,
            ),
            work: WorkView::Settle(Outcome::Failed),
        }
    }
}

/// Goes on once the installer was run for a pinned plugin.
fn repin_installed(e: &PlanEntry, mode: Mode, bin: &str, run: &InstallRun) -> (r: Step)
    ensures
        r.deep_view() == after_repin(e.deep_view(), mode, bin@, *run),
{
    let (ok, mut lines) = install::install_result(bin, e.owner.as_str(), e.repo.as_str(), run);
    if ok {
        let r = Step { lines, work: Work::Locate };
        assert(r.deep_view() =~= after_repin(e.deep_view(), mode, bin@, *run));
        return r;
    }
    if !mode.json {
        let mut s = "  [".to_owned();
        s.append(e.plugin_id.as_str());
        s.append("] reinstall failed");
        report::warn(&mut lines, s);
    }
    let r = Step { lines, work: Work::Settle(Outcome::Failed) };
    assert(r.deep_view() =~= after_repin(e.deep_view(), mode, bin@, *run));
    r
}

/// The commit that a plugin is at after a reinstall, as far as the registry
/// shows it, else the one it was at before.
pub open spec fn located(
    listed: Result<Seq<PluginView>, Seq<char>>,
    plugin_id: Seq<char>,
    before: Seq<char>,
) -> Seq<char> {
    match listed {
        Ok(plugins) => match registry::commit_of(plugins, plugin_id) {
            Some(sha) => sha,
            None => before,
        },
        Err(_) => before,
    }
}

/// The commit that a plugin is at after a reinstall, as far as the registry
/// shows it, else the one it was at before.
pub fn locate(listed: &Result<Vec<Plugin>, String>, plugin_id: &str, before: &str) -> (r: String)
    ensures
        r@ == located(list_of(*listed), plugin_id@, before@),
{
    if let Ok(plugins) = listed {
        if let Some(sha) = registry::resolved_commit_of(plugins, plugin_id) {
            return sha;
        }
    }
    before.to_owned()
}

/// What happens next once the plugins were listed behind the reinstall of a
/// pinned plugin: the move is recorded.
pub open spec fn after_locate(
    e: PlanEntryView,
    listed: Result<Seq<PluginView>, Seq<char>>,
) -> StepView {
    StepView {
        lines: Seq::empty(),
        work: WorkView::RecordPin(located(listed, e.plugin_id, e.installed_sha)),
    }
}

/// Goes on once the plugins were listed behind the reinstall of a pinned plugin.
fn repin_located(e: &PlanEntry, listed: &Result<Vec<Plugin>, String>) -> (r: Step)
    ensures
        r.deep_view() == after_locate(e.deep_view(), list_of(*listed)),
{
    let sha = locate(listed, e.plugin_id.as_str(), e.installed_sha.as_str());
    Step { lines: report::no_lines(), work: Work::RecordPin(sha) }
}

/// The entry of the trail for a plugin that moved from its pin to the default
/// branch.
pub open spec fn pin_record(e: PlanEntryView, new_sha: Seq<char>, now: Seq<char>) -> StateEntryView {
    StateEntryView {
        plugin_id: e.plugin_id,
        previous_sha: e.installed_sha,
        current_sha: new_sha,
        requested_ref: None,
        updated_at: now,
        result: "updated"@,
    }
}

/// The entry of the trail for a plugin that moved from its pin to the default
/// branch.
pub fn pin_entry(e: &PlanEntry, new_sha: &str, now: &str) -> (r: StateEntry)
    ensures
        r.deep_view() == pin_record(e.deep_view(), new_sha@, now@),
{
    StateEntry {
        plugin_id: e.plugin_id.clone(),
        previous_sha: e.installed_sha.clone(),
        current_sha: new_sha.to_owned(),
        requested_ref: None,
        updated_at: now.to_owned(),
        result: "updated".to_owned(),
    }
}

/// What happens next once the move of a pinned plugin was recorded, or failed to
/// be.
pub open spec fn after_pin_record(
    e: PlanEntryView,
    mode: Mode,
    new_sha: Seq<char>,
    saved: Saved,
) -> StepView {
    StepView {
        lines: save_warning(saved) + told(
            mode,
            "  ["@ + e.plugin_id + "] updated: reinstalled from the default branch (installed "@
                + from_of(e) + " -> latest "@ + updater::shortened(new_sha) + ")"@,
        ),
        work: WorkView::Settle(Outcome::Updated),
    }
}

/// Goes on once the move of a pinned plugin was recorded, or failed to be.
fn pin_recorded(e: &PlanEntry, mode: Mode, new_sha: &str, saved: &Saved) -> (r: Step)
    ensures
        r.deep_view() == after_pin_record(e.deep_view(), mode, new_sha@, *saved),
{
    let mut lines = save_lines(saved);
    if !mode.json {
        let mut s = "  [".to_owned();
        s.append(e.plugin_id.as_str());
        s.append("] updated: reinstalled from the default branch (installed ");
        s.append(from_text(e).as_str());
        s.append(" -> latest ");
        s.append(updater::short(new_sha));
        s.append(")");
        report::say(&mut lines, s);
    }
    let r = Step { lines, work: Work::Settle(Outcome::Updated) };
    assert(r.deep_view() =~= after_pin_record(e.deep_view(), mode, new_sha@, *saved));
    r
}

/// What came of the work with a plugin.
#[derive(Debug)]
pub enum Event {
    /// The line that the user typed.
    Answered(String),
    /// How the installer ended.
    Installed(InstallRun),
    /// How writing the trail ended.
    Recorded(Saved),
    /// The installed plugins, or why they cannot be listed.
    Listed(Result<Vec<Plugin>, String>),
}

/// Whether an event is what a work comes to.
pub open spec fn fits(work: WorkView, event: Event) -> bool {
    match work {
        WorkView::Settle(_) => false,
        WorkView::Ask(_) => event is Answered,
        WorkView::Update { .. } | WorkView::Repin { .. } => event is Installed,
        WorkView::RecordUpdate | WorkView::RecordPin(_) => event is Recorded,
        WorkView::Verify | WorkView::Locate => event is Listed,
    }
}

/// What happens next with a plugin once a work came to an event. An event that
/// the work does not come to changes nothing.
pub open spec fn following(
    e: PlanEntryView,
    mode: Mode,
    bin: Seq<char>,
    work: WorkView,
    event: Event,
) -> StepView {
    match (work, event) {
        (WorkView::Ask(_), Event::Answered(ans)) => after_answer(e, mode, ans@),
        (WorkView::Update { .. }, Event::Installed(run)) => after_update(e, mode, bin, run),
        (WorkView::RecordUpdate, Event::Recorded(saved)) => after_record(e, saved),
        (WorkView::Verify, Event::Listed(listed)) => after_verify(e, list_of(listed)),
        (WorkView::Repin { .. }, Event::Installed(run)) => after_repin(e, mode, bin, run),
        (WorkView::Locate, Event::Listed(listed)) => after_locate(e, list_of(listed)),
        (WorkView::RecordPin(sha), Event::Recorded(saved)) => after_pin_record(
            e,
            mode,
            sha,
            saved,
        ),
        _ => StepView { lines: Seq::empty(), work },
    }
}

/// Goes on with a plugin once a work came to an event. `bin` is the herdr
/// program.
pub fn follow(e: &PlanEntry, mode: Mode, bin: &str, work: Work, event: &Event) -> (r: Step)
    ensures
        r.deep_view() == following(e.deep_view(), mode, bin@, work.deep_view(), *event),
{
    match (work, event) {
        (Work::Ask(_), Event::Answered(ans)) => answered(e, mode, ans.as_str()),
        (Work::Update { args: _, label: _ }, Event::Installed(run)) => update_installed(
            e,
            mode,
            bin,
            run,
        ),
        (Work::RecordUpdate, Event::Recorded(saved)) => update_recorded(e, saved),
        (Work::Verify, Event::Listed(listed)) => update_verified(e, listed),
        (Work::Repin { args: _ }, Event::Installed(run)) => repin_installed(e, mode, bin, run),
        (Work::Locate, Event::Listed(listed)) => repin_located(e, listed),
        (Work::RecordPin(sha), Event::Recorded(saved)) => pin_recorded(
            e,
            mode,
            sha.as_str(),
            saved,
        ),
        (work, _) => Step { lines: report::no_lines(), work },
    }
}

/// How many steps a work is away from the end at most.
pub open spec fn distance(work: WorkView) -> nat {
    match work {
        WorkView::Settle(_) => 0,
        WorkView::Verify => 1,
        WorkView::RecordPin(_) => 1,
        WorkView::RecordUpdate => 2,
        WorkView::Locate => 2,
        WorkView::Update { .. } => 3,
        WorkView::Repin { .. } => 3,
        WorkView::Ask(_) => 4,
    }
}

/// Every plugin is settled after four steps at most: each event brings it closer
/// to the end.
pub proof fn every_plugin_settles(
    e: PlanEntryView,
    mode: Mode,
    bin: Seq<char>,
    work: WorkView,
    event: Event,
)
    requires
        fits(work, event),
    ensures
        distance(following(e, mode, bin, work, event).work) < distance(work),
        distance(work) <= 4,
{
}

/// What became of a plugin tells what was done: it failed only where an
/// installer failed, and counts as updated only behind an installer that
/// succeeded, whatever became of the trail and the registry then.
pub proof fn outcomes_tell_the_truth(
    e: PlanEntryView,
    mode: Mode,
    bin: Seq<char>,
    work: WorkView,
    event: Event,
)
    requires
        fits(work, event),
    ensures
        following(e, mode, bin, work, event).work == WorkView::Settle(Outcome::Failed) <==> (event
            matches Event::Installed(run) && !install::installed(run)),
        following(e, mode, bin, work, event).work == WorkView::Settle(Outcome::Updated) ==> work
            is RecordUpdate || work is Verify || work is RecordPin,
        following(e, mode, bin, work, event).work is RecordUpdate || following(
            e,
            mode,
            bin,
            work,
            event,
        ).work is Locate ==> (event matches Event::Installed(run) && install::installed(run)),
{
}

/// The state that a plugin of the registry is found in: as the registry shows it
/// where that is enough, else with what asking upstream came to.
pub open spec fn found(
    p: PluginView,
    trail: Option<Seq<StateEntryView>>,
    result: JobResultView,
) -> Option<PluginStatusView> {
    match collect::slot_for(p, trail) {
        collect::SlotView::Skipped => None,
        collect::SlotView::Settled(s) => Some(s),
        collect::SlotView::Pending(job) => Some(collect::status_of(job, result)),
    }
}

/// An install follows from a planned update, at the ref that the plugin was
/// installed at; nothing else of a plan starts one. A question is asked only
/// where someone can answer, and only about a pin to a commit that no rollback
/// made.
pub proof fn installs_are_planned(cfg: ConfigView, e: PlanEntryView, mode: Mode)
    ensures
        beginning(cfg, e, mode).work is Update <==> e.action == Action::Update,
        beginning(cfg, e, mode).work matches WorkView::Update { args, .. } ==> args
            == install::args_for(e.owner, e.repo, e.requested_ref),
        beginning(cfg, e, mode).work is Ask <==> {
            &&& e.action == Action::Hold
            &&& e.status == Status::Same
            &&& e.ref_kind == RefKind::Commit
            &&& mode.interactive()
            &&& !by_rollback(e)
        },
        beginning(cfg, e, mode).work is Update || beginning(cfg, e, mode).work is Ask || beginning(
            cfg,
            e,
            mode,
        ).work is Settle,
{
}

/// A plugin of the registry is installed, or asked about, only where its names
/// are valid. It is updated without being asked about only where it is not
/// pinned to a commit and upstream is ahead of it, or diverged from it with
/// force pushes allowed; and never under the notify policy.
pub proof fn updates_are_safe(
    cfg: ConfigView,
    p: PluginView,
    trail: Option<Seq<StateEntryView>>,
    result: JobResultView,
    mode: Mode,
)
    requires
        found(p, trail, result) is Some,
    ensures
        ({
            let s = found(p, trail, result)->0;
            let work = beginning(cfg, plan::entry_for(cfg, s), mode).work;
            &&& work is Update || work is Ask ==> registry::valid_repo(s.owner, s.repo)
            &&& work is Update ==> {
                &&& s.ref_kind != RefKind::Commit
                &&& s.status == Status::Behind || (s.status == Status::Diverged
                    && cfg.allow_force_push)
                &&& cfg.policy != Policy::Notify
            }
        }),
{
    collect::names_are_valid(p, trail);
}

/// A plan exits with pending updates exactly where applying it would install
/// something and no check failed.
pub proof fn plan_foretells_installs(
    cfg: ConfigView,
    statuses: Seq<PluginStatusView>,
    mode: Mode,
)
    ensures
        ({
            let entries = plan::planned(cfg, statuses);
            plan::plan_exit(entries, statuses) == report::EXIT_PENDING <==> {
                &&& forall|i: int| 0 <= i < statuses.len() ==> (#[trigger] statuses[i]).error is None
                &&& exists|i: int|
                    0 <= i < entries.len() && beginning(
                        cfg,
                        #[trigger] entries[i],
                        mode,
                    ).work is Update
            }
        }),
{
    let entries = plan::planned(cfg, statuses);
    if exists|i: int| 0 <= i < entries.len() && (#[trigger] entries[i]).action == Action::Update {
        let i = choose|i: int|
            0 <= i < entries.len() && (#[trigger] entries[i]).action == Action::Update;
        assert(beginning(cfg, entries[i], mode).work is Update);
    }
    if exists|i: int|
        0 <= i < entries.len() && beginning(cfg, #[trigger] entries[i], mode).work is Update {
        let i = choose|i: int|
            0 <= i < entries.len() && beginning(cfg, #[trigger] entries[i], mode).work is Update;
        assert(entries[i].action == Action::Update);
    }
}

/// A plugin that is pinned to a commit is left alone where no one can be asked.
pub proof fn commit_pins_are_left_alone(
    cfg: ConfigView,
    p: PluginView,
    trail: Option<Seq<StateEntryView>>,
    result: JobResultView,
    mode: Mode,
)
    requires
        collect::is_github(p),
        updater::kind_of(p.source->0.requested_ref) == RefKind::Commit,
        !mode.interactive(),
    ensures
        found(p, trail, result) matches Some(s) && beginning(
            cfg,
            plan::entry_for(cfg, s),
            mode,
        ).work == WorkView::Settle(
            if s.error is None {
                Outcome::Pinned
            } else {
                Outcome::Error
            },
        ),
{
    collect::commit_pins_stay(p, trail);
}

/// A plugin that a rollback pinned is never offered a reinstall from the default
/// branch: `resume` is its way back to the ref that it tracked.
pub proof fn rollbacks_wait_for_resume(
    cfg: ConfigView,
    p: PluginView,
    trail: Option<Seq<StateEntryView>>,
    result: JobResultView,
    mode: Mode,
)
    requires
        collect::is_github(p),
        updater::kind_of(p.source->0.requested_ref) == RefKind::Commit,
        collect::rolled_back(trail, p.plugin_id),
    ensures
        found(p, trail, result) matches Some(s) && beginning(
            cfg,
            plan::entry_for(cfg, s),
            mode,
        ).work is Settle,
{
    let note = collect::pin_note(trail, p.plugin_id);
    reveal_strlit("pinned by rollback");
    reveal_strlit("pinned by rollback; run `resume` to rejoin the tracking ref");
    assert("pinned by rollback"@ =~= note.subrange(0, "pinned by rollback"@.len() as int));
    assert("pinned by rollback"@.is_prefix_of(note));
}

/// The record of an update keeps what the update was: the plugin, the commit that
/// it was at, the upstream commit, the ref that it tracks and the time.
pub proof fn update_entry_keeps_the_update(e: &PlanEntry, now: &str, r: StateEntry)
    requires
        call_ensures(update_entry, (e, now), r),
    ensures
        r.plugin_id@ == e.plugin_id@,
        r.previous_sha@ == e.installed_sha@,
        e.remote_sha matches Some(sha) ==> r.current_sha@ == sha@,
        e.remote_sha is None ==> r.current_sha@.len() == 0,
        r.requested_ref is Some <==> e.requested_ref is Some,
        e.requested_ref matches Some(at) ==> r.requested_ref->0@ == at@,
        r.updated_at@ == now@,
        r.result@ == "updated"@,
{
    assert(r.requested_ref.deep_view() == e.requested_ref.deep_view());
}

/// The record of a move from a pin to the default branch keeps both commits: the
/// one that the plugin was pinned to and the one that was found behind the move.
/// What it tracks from then on is no ref.
pub proof fn pin_entry_keeps_both_commits(e: &PlanEntry, new_sha: &str, now: &str, r: StateEntry)
    requires
        call_ensures(pin_entry, (e, new_sha, now), r),
    ensures
        r.plugin_id@ == e.plugin_id@,
        r.previous_sha@ == e.installed_sha@,
        r.current_sha@ == new_sha@,
        r.requested_ref is None,
        r.updated_at@ == now@,
        r.result@ == "updated"@,
{
}

/// What is done first with a plugin follows from the plan: an error is reported,
/// an update is installed at the ref that the plugin tracks, and what is held is
/// left alone, by what it is: pinned, up to date, excluded or held. Only a pin to
/// a commit that no rollback made, where someone can answer, is asked about.
pub proof fn the_plan_is_followed(
    cfg: &Config,
    e: &PlanEntry,
    mode: Mode,
    excluded: bool,
    id: &str,
    r: Step,
)
    requires
        call_ensures(begin, (cfg, e, mode), r),
        id@ == e.plugin_id@,
        call_ensures(Config::is_excluded, (cfg, id), excluded),
    ensures
        ({
            let held = e.action == Action::Hold;
            let same = e.status == Status::Same;
            let commit = e.ref_kind == RefKind::Commit;
            let by_rollback = e.reason matches Some(why) && "pinned by rollback"@.is_prefix_of(
                why@,
            );
            let asked = !mode.json && mode.stdin_terminal && !by_rollback;
            let work = r.work.deep_view();
            &&& e.action == Action::Error ==> work == WorkView::Settle(Outcome::Error)
            &&& e.action == Action::Update ==> work is Update && work->Update_args
                == install::args_for(e.owner@, e.repo@, e.requested_ref.deep_view())
            &&& held && same && commit && asked ==> work is Ask
            &&& held && same && commit && !asked ==> work == WorkView::Settle(Outcome::Pinned)
            &&& held && same && !commit ==> work == WorkView::Settle(Outcome::UpToDate)
            &&& held && !same && excluded ==> work == WorkView::Settle(Outcome::Excluded)
            &&& held && !same && !excluded ==> work == WorkView::Settle(Outcome::Held)
        }),
{
    reveal_strlit("pinned by rollback");
}

/// What is printed of a plugin at first: nothing with machine-readable output;
/// an error as a warning; else one line with the id and the versions, which says
/// why a plugin that has an update is passed over. A question, and an install
/// that is animated, print nothing.
pub proof fn every_plugin_is_reported(
    cfg: &Config,
    e: &PlanEntry,
    mode: Mode,
    excluded: bool,
    id: &str,
    r: Step,
)
    requires
        call_ensures(begin, (cfg, e, mode), r),
        id@ == e.plugin_id@,
        call_ensures(Config::is_excluded, (cfg, id), excluded),
    ensures
        ({
            let lines = r.lines.deep_view();
            let head = "  ["@ + e.plugin_id@;
            let from = updater::version_text(e.version.deep_view(), e.installed_sha@);
            let to = updater::remote_text(e.remote_version.deep_view(), e.remote_sha.deep_view());
            let held = e.action == Action::Hold;
            let same = e.status == Status::Same;
            &&& mode.json || r.work is Ask ==> lines.len() == 0
            &&& !mode.json && e.action == Action::Error ==> (e.reason matches Some(why) ==> lines
                == seq![LineView::Note(head + "] error: "@ + why@)])
            &&& e.action == Action::Error && e.reason is None ==> lines.len() == 0
            &&& !mode.json && held && !(r.work is Ask) ==> lines.len() == 1 && lines[0] is Say
                && head.is_prefix_of(lines[0]->Say_0)
            &&& !mode.json && held && same && e.ref_kind != RefKind::Commit ==> lines[0]
                == LineView::Say(
                head + "] up to date (installed "@ + from + ", latest "@ + from + ")"@,
            )
            &&& !mode.json && held && !same && excluded ==> lines[0] == LineView::Say(
                head + "] update available (installed "@ + from + " -> latest "@ + to
                    + ") but excluded"@,
            )
            &&& !mode.json && held && !same && !excluded ==> (e.reason matches Some(why)
                ==> lines[0] == LineView::Say(
                head + "] update available (installed "@ + from + " -> latest "@ + to
                    + ") but held ("@ + why@ + ")"@,
            ))
            &&& e.action == Action::Update && mode.stdout_terminal ==> lines.len() == 0
            &&& !mode.json && e.action == Action::Update && !mode.stdout_terminal ==> lines.len()
                == 1 && lines[0] is Say && (head + "] updating installed "@ + from + " -> latest "@
                + to).is_prefix_of(lines[0]->Say_0)
        }),
{
    let lines = r.lines.deep_view();
    let head = "  ["@ + e.plugin_id@;
    let from = updater::version_text(e.version.deep_view(), e.installed_sha@);
    let to = updater::remote_text(e.remote_version.deep_view(), e.remote_sha.deep_view());
    assert(lines == r.deep_view().lines);
    if !mode.json && e.action == Action::Hold && !(r.work is Ask) {
        let said = lines[0]->Say_0;
        assert(head =~= said.subrange(0, head.len() as int));
    }
    if !mode.json && e.action == Action::Update && !mode.stdout_terminal {
        let said = lines[0]->Say_0;
        let front = head + "] updating installed "@ + from + " -> latest "@ + to;
        assert(front =~= said.subrange(0, front.len() as int));
    }
}

/// An answer is taken for yes exactly where it is `y` or `yes`, in any case, with
/// or without white space around.
pub proof fn yes_is_yes(a: Seq<char>, word: Seq<char>, b: Seq<char>, ans: &str, r: bool)
    requires
        call_ensures(yes_answer, (ans,), r),
        ans@ == a + word + b,
        text::all_white(a),
        text::all_white(b),
        word.len() > 0 ==> !text::white_space(word[0]) && !text::white_space(word.last()),
    ensures
        r <==> {
            ||| word.len() == 1 && seq!['y', 'Y'].contains(word[0])
            ||| word.len() == 3 && seq!['y', 'Y'].contains(word[0]) && seq!['e', 'E'].contains(
                word[1],
            ) && seq!['s', 'S'].contains(word[2])
        },
{
    text::trim_ignores_white_space_around(a, word, b);
    if word.len() > 0 {
        lemma_letter(word[0], 'y', 'Y');
        lemma_letter(word[1], 'e', 'E');
        lemma_letter(word[2], 's', 'S');
        assert(text::trim_start(word) == word);
        assert(text::trim_end(word) == word);
    }
}

proof fn lemma_letter(c: char, lower: char, upper: char)
    ensures
        seq![lower, upper].contains(c) <==> c == lower || c == upper,
{
    let both = seq![lower, upper];
    assert(both[0] == lower && both[1] == upper);
}

/// What happens next with a plugin follows from what came of the work: a pin is
/// given up only behind a yes, and then for the default branch; an update is
/// recorded only behind an installer that succeeded, and looked after only where
/// the record was written; the move of a pin is recorded with the commit that the
/// registry then shows, or the one before where it shows none.
pub proof fn work_follows_from_what_came(
    e: &PlanEntry,
    mode: Mode,
    bin: &str,
    work: Work,
    event: &Event,
    r: Step,
)
    requires
        call_ensures(follow, (e, mode, bin, work, event), r),
    ensures
        ({
            let next = r.work.deep_view();
            &&& work is Ask ==> (*event matches Event::Answered(ans) ==> {
                &&& is_yes(ans@) ==> next == (WorkView::Repin {
                    args: install::args_for(e.owner@, e.repo@, None),
                })
                &&& !is_yes(ans@) ==> next == WorkView::Settle(Outcome::Pinned)
            })
            &&& work is Update ==> (*event matches Event::Installed(run) ==> next == (
            if run is Exited && run->ok {
                WorkView::RecordUpdate
            } else {
                WorkView::Settle(Outcome::Failed)
            }))
            &&& work is RecordUpdate ==> (*event matches Event::Recorded(saved) ==> next == (
            if saved is Written && e.remote_sha is Some {
                WorkView::Verify
            } else {
                WorkView::Settle(Outcome::Updated)
            }))
            &&& work is Verify && *event is Listed ==> next == WorkView::Settle(Outcome::Updated)
            &&& work is Repin ==> (*event matches Event::Installed(run) ==> next == (
            if run is Exited && run->ok {
                WorkView::Locate
            } else {
                WorkView::Settle(Outcome::Failed)
            }))
            &&& work is Locate ==> (*event matches Event::Listed(listed) ==> {
                let shown = match listed {
                    Ok(plugins) => registry::commit_of(plugins.deep_view(), e.plugin_id@),
                    Err(_) => None,
                };
                next == WorkView::RecordPin(
                    match shown {
                        Some(sha) => sha,
                        None => e.installed_sha@,
                    },
                )
            })
            &&& work is RecordPin && *event is Recorded ==> next == WorkView::Settle(
                Outcome::Updated,
            )
            &&& !fits(work.deep_view(), *event) ==> next == work.deep_view() && r.lines@.len() == 0
        }),
{
    assert(r.lines.deep_view().len() == r.lines@.len());
}

/// What can go wrong is said: an installer that failed, a trail that could not be
/// written, and a registry that cannot be listed or does not show the new commit
/// behind an update.
pub proof fn what_goes_wrong_is_said(
    e: &PlanEntry,
    mode: Mode,
    bin: &str,
    work: Work,
    event: &Event,
    r: Step,
)
    requires
        call_ensures(follow, (e, mode, bin, work, event), r),
    ensures
        ({
            let lines = r.lines.deep_view();
            &&& work is Update || work is Repin ==> (*event matches Event::Installed(run) ==> !(run
                is Exited && run->ok) ==> lines.len() > 0 && lines[0] == install::complaint(
                bin@,
                e.owner@,
                e.repo@,
                run,
            )[0])
            &&& work is RecordUpdate ==> (*event matches Event::Recorded(saved) ==> {
                &&& saved matches Saved::Failed(why) ==> lines == seq![
                    LineView::Note("  warning: "@ + why@),
                ]
                &&& !(saved is Failed) ==> lines.len() == 0
            })
            &&& work is RecordPin ==> (*event matches Event::Recorded(saved) ==> (saved
                matches Saved::Failed(why) ==> lines.len() > 0 && lines[0] == LineView::Note(
                "  warning: "@ + why@,
            )))
            &&& work is Verify ==> (*event matches Event::Listed(listed) ==> {
                let confirmed = listed is Ok && registry::commit_of(
                    listed->Ok_0.deep_view(),
                    e.plugin_id@,
                ) == Some(text::or_empty(e.remote_sha.deep_view()));
                &&& confirmed ==> lines.len() == 0
                &&& !confirmed && listed is Ok ==> lines == seq![
                    LineView::Note(
                        "  ["@ + e.plugin_id@
                            + "] warning: verify failed - registry still reports the old commit"@,
                    ),
                ]
                &&& listed matches Err(why) ==> lines == seq![
                    LineView::Note("  ["@ + e.plugin_id@ + "] warning: verify error: "@ + why@),
                ]
            })
        }),
{
    assert(r.lines.deep_view() == r.deep_view().lines);
    if let Event::Installed(run) = *event {
        install::failures_are_reported(bin@, e.owner@, e.repo@, run);
    }
}

/// What is printed once a plugin is done: with machine-readable output nothing
/// but warnings. That a pin is kept is said with the pin; that it was given up,
/// with both versions; and behind an animated install, that the update is done,
/// or failed.
pub proof fn what_is_done_is_said(
    e: &PlanEntry,
    mode: Mode,
    bin: &str,
    work: Work,
    event: &Event,
    r: Step,
)
    requires
        call_ensures(follow, (e, mode, bin, work, event), r),
    ensures
        ({
            let lines = r.lines.deep_view();
            let head = "  ["@ + e.plugin_id@;
            let from = updater::version_text(e.version.deep_view(), e.installed_sha@);
            let to = updater::remote_text(e.remote_version.deep_view(), e.remote_sha.deep_view());
            &&& mode.json ==> forall|i: int| 0 <= i < lines.len() ==> (#[trigger] lines[i]) is Note
            &&& work is Ask ==> (*event matches Event::Answered(ans) ==> {
                &&& is_yes(ans@) || mode.json ==> lines.len() == 0
                &&& !is_yes(ans@) && !mode.json ==> lines.len() == 2 && lines[0] == LineView::Say(
                    head + "] keeping commit pin"@,
                ) && lines[1] == LineView::Say(pinned_line(e.deep_view()))
            })
            &&& work is Update ==> (*event matches Event::Installed(run) ==> {
                let shown = !mode.json && mode.stdout_terminal;
                &&& run is Exited && run->ok && !shown ==> lines.len() == 0
                &&& run is Exited && run->ok && shown ==> lines.len() == 1 && lines[0] is Say && (
                head + "] updated installed "@ + from + " -> latest "@ + to).is_prefix_of(
                    lines[0]->Say_0,
                )
                &&& !(run is Exited && run->ok) && shown ==> lines.len() == 2 && lines[1]
                    == LineView::Note(head + "] update failed ("@ + to + ")"@)
                &&& !(run is Exited && run->ok) && !shown ==> lines.len() == 1
            })
            &&& work is Repin ==> (*event matches Event::Installed(run) ==> {
                &&& run is Exited && run->ok ==> lines.len() == 0
                &&& !(run is Exited && run->ok) && !mode.json ==> lines.len() == 2 && lines[1]
                    == LineView::Note(head + "] reinstall failed"@)
                &&& !(run is Exited && run->ok) && mode.json ==> lines.len() == 1
            })
            &&& work is Locate && *event is Listed ==> lines.len() == 0
            &&& work is RecordPin ==> (*event matches Event::Recorded(saved) ==> lines.len() == (
            if saved is Failed {
                1int
            } else {
                0int
            }) + (if mode.json {
                0int
            } else {
                1int
            }))
            &&& work matches Work::RecordPin(sha) ==> (*event matches Event::Recorded(saved)
                ==> !mode.json ==> lines.last() == LineView::Say(
                head + "] updated: reinstalled from the default branch (installed "@ + from
                    + " -> latest "@ + updater::shortened(sha@) + ")"@,
            ))
        }),
{
    let lines = r.lines.deep_view();
    let head = "  ["@ + e.plugin_id@;
    let from = updater::version_text(e.version.deep_view(), e.installed_sha@);
    let to = updater::remote_text(e.remote_version.deep_view(), e.remote_sha.deep_view());
    assert(lines == r.deep_view().lines);
    if let Event::Installed(run) = *event {
        install::failures_are_reported(bin@, e.owner@, e.repo@, run);
        if work is Update && run is Exited && run->ok && !mode.json && mode.stdout_terminal {
            let said = lines[0]->Say_0;
            let front = head + "] updated installed "@ + from + " -> latest "@ + to;
            assert(front =~= said.subrange(0, front.len() as int));
        }
    }
}

/// The commit that a plugin is at behind a reinstall is the one that the registry
/// shows, and where it shows none, or cannot be listed, the one before.
pub proof fn the_registry_shows_the_commit(
    listed: &Result<Vec<Plugin>, String>,
    plugin_id: &str,
    before: &str,
    r: String,
)
    requires
        call_ensures(locate, (listed, plugin_id, before), r),
    ensures
        *listed matches Ok(plugins) ==> (registry::commit_of(plugins.deep_view(), plugin_id@)
            matches Some(sha) ==> r@ == sha),
        *listed matches Ok(plugins) ==> (registry::commit_of(plugins.deep_view(), plugin_id@) is None
            ==> r@ == before@),
        *listed is Err ==> r@ == before@,
{
}

/// An update names the ref that it goes to where the plugin tracks one, and both
/// versions in any case, in the label of the install, in the line before it and
/// in the line behind it alike.
pub proof fn updates_name_their_ref(cfg: &Config, e: &PlanEntry, mode: Mode, r: Step)
    requires
        call_ensures(begin, (cfg, e, mode), r),
        e.action == Action::Update,
    ensures
        ({
            let from = updater::version_text(e.version.deep_view(), e.installed_sha@);
            let to = updater::remote_text(e.remote_version.deep_view(), e.remote_sha.deep_view());
            let span = from + " -> latest "@ + to + (match e.requested_ref {
                Some(at) => " (pinned "@ + at@ + ")"@,
                None => Seq::empty(),
            });
            &&& r.work is Update
            &&& r.work->Update_label@ == "updating "@ + e.plugin_id@ + " installed "@ + span
            &&& !mode.json && !mode.stdout_terminal ==> r.lines.deep_view() == seq![
                LineView::Say("  ["@ + e.plugin_id@ + "] updating installed "@ + span),
            ]
        }),
{
    let from = updater::version_text(e.version.deep_view(), e.installed_sha@);
    let to = updater::remote_text(e.remote_version.deep_view(), e.remote_sha.deep_view());
    let span = from + " -> latest "@ + to + (match e.requested_ref {
        Some(at) => " (pinned "@ + at@ + ")"@,
        None => Seq::empty(),
    });
    assert(span_of(e.deep_view()) =~= span);
    assert(r.lines.deep_view() == r.deep_view().lines);
}

/// A pin to a commit is asked about by the id and the installed version, and one
/// that stays is reported as up to date with the way to move it: `resume` behind
/// a rollback, an update from a terminal otherwise.
pub proof fn pins_are_named(cfg: &Config, e: &PlanEntry, mode: Mode, r: Step)
    requires
        call_ensures(begin, (cfg, e, mode), r),
        e.action == Action::Hold,
        e.status == Status::Same,
        e.ref_kind == RefKind::Commit,
    ensures
        ({
            let from = updater::version_text(e.version.deep_view(), e.installed_sha@);
            let head = "  ["@ + e.plugin_id@;
            let line = head + "] up to date (installed "@ + from + ", latest "@ + from + ")"@;
            let by_rollback = e.reason matches Some(why) && "pinned by rollback"@.is_prefix_of(
                why@,
            );
            &&& r.work matches Work::Ask(asked) ==> asked@ == head
                + "] pinned to a commit (installed "@ + from
                + "); reinstall from the default branch to update? [y/N] "@
            &&& !mode.json && by_rollback ==> pinned_line(e.deep_view()) == line
                + " (pinned by rollback; run `resume`)"@
            &&& !by_rollback ==> pinned_line(e.deep_view()) == line
                + " (commit-pinned; not auto-updated; run `update` from a terminal to update it interactively)"@
            &&& !mode.json && by_rollback ==> r.lines.deep_view() == seq![
                LineView::Say(line + " (pinned by rollback; run `resume`)"@),
            ]
            &&& !mode.json && !by_rollback && !mode.stdin_terminal ==> r.lines.deep_view() == seq![
                LineView::Say(
                    line
                        + " (commit-pinned; not auto-updated; run `update` from a terminal to update it interactively)"@,
                ),
            ]
        }),
{
    reveal_strlit("pinned by rollback");
    assert(r.lines.deep_view() == r.deep_view().lines);
}

} // verus!
