//! Going back to the commit before an update, rejoining the ref that was tracked
//! before, and printing the trail of both.
//!
//! A rollback pins a plugin to the commit that it goes back to. The entry that
//! it leaves in the trail keeps the ref that the plugin tracked, and `resume`
//! takes it up from there.

use crate::apply;
use crate::apply::Event;
use crate::apply::Mode;
use crate::apply::Saved;
use crate::collect;
use crate::config::ConfigView;
use crate::install;
use crate::install::InstallRun;
use crate::registry;
use crate::registry::Plugin;
use crate::registry::PluginView;
use crate::report;
use crate::report::Line;
use crate::report::LineView;
use crate::report::Report;
use crate::report::ReportView;
use crate::state;
use crate::state::State;
use crate::state::StateEntry;
use crate::state::StateEntryView;
use crate::text;
use crate::updater;
use crate::updater::Action;
use crate::updater::PlanEntryView;
use vstd::prelude::*;

verus! {

/// How a command over the trail begins.
#[derive(Debug)]
pub enum Start {
    /// It ends at once.
    Stop(Report),
    /// It prints these lines and goes through these entries.
    Go { lines: Vec<Line>, targets: Vec<StateEntry> },
}

/// A `Start` as values.
#[verifier::ext_equal]
pub enum StartView {
    Stop(ReportView),
    Go { lines: Seq<LineView>, targets: Seq<StateEntryView> },
}

impl DeepView for Start {
    type V = StartView;

    open spec fn deep_view(&self) -> StartView {
        match self {
            Start::Stop(r) => StartView::Stop(r.deep_view()),
            Start::Go { lines, targets } => StartView::Go {
                lines: lines.deep_view(),
                targets: targets.deep_view(),
            },
        }
    }
}

/// What is done with an entry of the trail.
#[derive(Debug, Clone, Copy, PartialEq, Eq, Structural)]
pub enum Undo {
    /// The update is undone.
    Rollback,
    /// The rollback is undone.
    Resume,
}

/// What happens next with an entry.
#[derive(Debug)]
pub enum Work {
    /// Nothing; the plugin is passed over.
    Skip,
    /// List the installed plugins to find the plugin.
    List,
    /// Install this repository with these arguments behind the herdr program.
    Install { owner: String, repo: String, args: Vec<String> },
    /// List the installed plugins to learn the commit that was installed.
    Locate,
    /// Append this to the trail.
    Record(StateEntry),
    /// Nothing more; the plugin counts as done.
    Done,
}

/// A `Work` as values.
#[verifier::ext_equal]
pub enum WorkView {
    Skip,
    List,
    Install { owner: Seq<char>, repo: Seq<char>, args: Seq<Seq<char>> },
    Locate,
    Record(StateEntryView),
    Done,
}

impl DeepView for Work {
    type V = WorkView;

    open spec fn deep_view(&self) -> WorkView {
        match self {
            Work::Skip => WorkView::Skip,
            Work::List => WorkView::List,
            Work::Install { owner, repo, args } => WorkView::Install {
                owner: owner@,
                repo: repo@,
                args: args.deep_view(),
            },
            Work::Locate => WorkView::Locate,
            Work::Record(e) => WorkView::Record(e.deep_view()),
            Work::Done => WorkView::Done,
        }
    }
}

/// What is printed now and what happens next with an entry.
#[derive(Debug)]
pub struct Step {
    pub lines: Vec<Line>,
    pub work: Work,
}

/// A `Step` as values.
#[verifier::ext_equal]
pub struct StepView {
    pub lines: Seq<LineView>,
    pub work: WorkView,
}

impl DeepView for Step {
    type V = StepView;

    open spec fn deep_view(&self) -> StepView {
        StepView { lines: self.lines.deep_view(), work: self.work.deep_view() }
    }
}

/// A line for standard error, unless the output is machine-readable.
pub open spec fn noted(json: bool, s: Seq<char>) -> Seq<LineView> {
    if json {
        Seq::empty()
    } else {
        seq![LineView::Note(s)]
    }
}

fn note(json: bool, s: String) -> (r: Vec<Line>)
    ensures
        r.deep_view() == noted(json, s@),
{
    if json {
        report::no_lines()
    } else {
        report::one_warning(s)
    }
}

/// A line for standard output, unless the output is machine-readable.
pub open spec fn said(json: bool, s: Seq<char>) -> Seq<LineView> {
    if json {
        Seq::empty()
    } else {
        seq![LineView::Say(s)]
    }
}

fn say(json: bool, s: String) -> (r: Vec<Line>)
    ensures
        r.deep_view() == said(json, s@),
{
    if json {
        report::no_lines()
    } else {
        report::one_line(s)
    }
}

/// How a command over the trail ends where no place for the trail is known.
pub fn no_place() -> (r: Report)
    ensures
        r.deep_view() == (ReportView {
            lines: seq![LineView::Note("error: no config dir; cannot locate state.json"@)],
            exit: report::EXIT_ERROR,
        }),
{
    Report {
        lines: report::one_warning("error: no config dir; cannot locate state.json".to_owned()),
        exit: report::EXIT_ERROR,
    }
}

/// An error about one plugin ends a command.
pub open spec fn refused(head: Seq<char>, id: Seq<char>) -> StartView {
    StartView::Stop(
        ReportView {
            lines: seq![LineView::Note(head + id + "'"@)],
            exit: report::EXIT_ERROR,
        },
    )
}

fn refuse(head: &str, id: &str) -> (r: Start)
    ensures
        r.deep_view() == refused(head@, id@),
{
    let mut s = head.to_owned();
    s.append(id);
    s.append("'");
    Start::Stop(Report { lines: report::one_warning(s), exit: report::EXIT_ERROR })
}

/// Nothing to do ends a command.
pub open spec fn idle(json: bool, s: Seq<char>) -> StartView {
    StartView::Stop(ReportView { lines: noted(json, s), exit: report::EXIT_OK })
}

/// How a rollback begins: with the newest entry of each plugin where that is an
/// update. Older entries are left alone, and so is a plugin that is rolled back
/// already. Asking for a plugin without an entry is an error.
pub open spec fn rollback_starts(
    entries: Seq<StateEntryView>,
    json: bool,
    only: Option<Seq<char>>,
) -> StartView {
    match only {
        Some(id) => match state::latest(entries, id) {
            Some(e) => if e.result == "updated"@ {
                StartView::Go { lines: Seq::empty(), targets: seq![e] }
            } else {
                StartView::Go {
                    lines: seq![
                        LineView::Note(
                            "  ["@ + id
                                + "] already rolled back; run `resume` to rejoin the tracking ref"@,
                        ),
                    ],
                    targets: Seq::empty(),
                }
            },
            None => refused("error: no update recorded for plugin '"@, id),
        },
        None => if entries.len() == 0 {
            idle(json, "[herdr-auto-update] no updates recorded - nothing to roll back"@)
        } else {
            StartView::Go {
                lines: Seq::empty(),
                targets: state::newest_with(entries, "updated"@),
            }
        },
    }
}

fn one_target(e: &StateEntry) -> (r: Start)
    ensures
        r.deep_view() == (StartView::Go { lines: Seq::empty(), targets: seq![e.deep_view()] }),
{
    let targets: Vec<StateEntry> = vec![e.clone()];
    assert(targets.deep_view() =~= seq![e.deep_view()]);
    Start::Go { lines: report::no_lines(), targets }
}

/// Begins a rollback of all plugins, or of one.
pub fn rollback_start(st: &State, json: bool, only: Option<&str>) -> (r: Start)
    ensures
        r.deep_view() == rollback_starts(st.entries.deep_view(), json, only.deep_view()),
{
    match only {
        Some(id) => match st.latest_for(id) {
            Some(e) => {
                if text::same(e.result.as_str(), "updated") {
                    return one_target(e);
                }
                let mut s = "  [".to_owned();
                s.append(id);
                s.append("] already rolled back; run `resume` to rejoin the tracking ref");
                let targets: Vec<StateEntry> = Vec::new();
                assert(targets.deep_view() =~= Seq::empty());
                Start::Go { lines: report::one_warning(s), targets }
            },
            None => refuse("error: no update recorded for plugin '", id),
        },
        None => {
            if st.entries.len() == 0 {
                let s = "[herdr-auto-update] no updates recorded - nothing to roll back";
                return Start::Stop(
                    Report { lines: note(json, s.to_owned()), exit: report::EXIT_OK },
                );
            }
            Start::Go { lines: report::no_lines(), targets: st.newest_entries("updated") }
        },
    }
}

/// What is done first with an entry: without a commit to go back to a rollback
/// passes it over.
pub open spec fn beginning(undo: Undo, e: StateEntryView) -> StepView {
    if undo == Undo::Rollback && e.previous_sha.len() == 0 {
        StepView {
            lines: seq![
                LineView::Note(
                    "  ["@ + e.plugin_id + "] cannot roll back: no previous commit recorded"@,
                ),
            ],
            work: WorkView::Skip,
        }
    } else {
        StepView { lines: Seq::empty(), work: WorkView::List }
    }
}

/// Begins with an entry of the trail.
pub fn begin(undo: Undo, e: &StateEntry) -> (r: Step)
    ensures
        r.deep_view() == beginning(undo, e.deep_view()),
{
    if undo == Undo::Rollback && e.previous_sha.as_str().is_empty() {
        let mut s = "  [".to_owned();
        s.append(e.plugin_id.as_str());
        s.append("] cannot roll back: no previous commit recorded");
        Step { lines: report::one_warning(s), work: Work::Skip }
    } else {
        Step { lines: report::no_lines(), work: Work::List }
    }
}

/// The repository of a plugin in a list; none where there is no list.
pub open spec fn repo_in(
    listed: Result<Seq<PluginView>, Seq<char>>,
    plugin_id: Seq<char>,
) -> Option<(Seq<char>, Seq<char>)> {
    match listed {
        Ok(plugins) => registry::repo_of(plugins, plugin_id),
        Err(_) => None,
    }
}

fn find_repo(listed: &Result<Vec<Plugin>, String>, plugin_id: &str) -> (r: Option<
    (String, String),
>)
    ensures
        r.deep_view() == repo_in(apply::list_of(*listed), plugin_id@),
{
    match listed {
        Ok(plugins) => registry::owner_repo_of(plugins, plugin_id),
        Err(_) => None,
    }
}

/// What happens next with an entry once the plugins were listed: its plugin is
/// reinstalled at the given ref, or passed over where it is not installed.
pub open spec fn reinstall(
    e: StateEntryView,
    listed: Result<Seq<PluginView>, Seq<char>>,
    requested_ref: Option<Seq<char>>,
    announcement: Seq<LineView>,
    missing: Seq<char>,
) -> StepView {
    match repo_in(listed, e.plugin_id) {
        Some((owner, repo)) => StepView {
            lines: announcement,
            work: WorkView::Install {
                owner,
                repo,
                args: install::args_for(owner, repo, requested_ref),
            },
        },
        None => StepView {
            lines: seq![LineView::Note("  ["@ + e.plugin_id + missing)],
            work: WorkView::Skip,
        },
    }
}

/// What happens next with an entry that is to be rolled back: the commit before
/// the update is reinstalled.
pub open spec fn rollback_goes_on(
    e: StateEntryView,
    listed: Result<Seq<PluginView>, Seq<char>>,
    json: bool,
) -> StepView {
    reinstall(
        e,
        listed,
        Some(e.previous_sha),
        said(
            json,
            "  ["@ + e.plugin_id + "] rolling back "@ + updater::shortened(e.current_sha) + " -> "@
                + updater::shortened(e.previous_sha),
        ),
        "] cannot roll back: plugin not in registry"@,
    )
}

/// Goes on with a rollback once the plugins were listed.
fn rollback_listed(e: &StateEntry, listed: &Result<Vec<Plugin>, String>, json: bool) -> (r:
    Step)
    ensures
        r.deep_view() == rollback_goes_on(e.deep_view(), apply::list_of(*listed), json),
{
    match find_repo(listed, e.plugin_id.as_str()) {
        Some((owner, repo)) => {
            let mut s = "  [".to_owned();
            s.append(e.plugin_id.as_str());
            s.append("] rolling back ");
            s.append(updater::short(e.current_sha.as_str()));
            s.append(" -> ");
            s.append(updater::short(e.previous_sha.as_str()));
            let args = install::install_args(
                owner.as_str(),
                repo.as_str(),
                Some(e.previous_sha.as_str()),
            );
            Step { lines: say(json, s), work: Work::Install { owner, repo, args } }
        },
        None => {
            let mut s = "  [".to_owned();
            s.append(e.plugin_id.as_str());
            s.append("] cannot roll back: plugin not in registry");
            Step { lines: report::one_warning(s), work: Work::Skip }
        },
    }
}

/// The entry of the trail for a rollback.
pub open spec fn rollback_record(e: StateEntryView, now: Seq<char>) -> StateEntryView {
    StateEntryView {
        plugin_id: e.plugin_id,
        previous_sha: e.current_sha,
        current_sha: e.previous_sha,
        requested_ref: e.requested_ref,
        updated_at: now,
        result: "rolled_back"@,
    }
}

/// The entry of the trail for a rollback. It keeps the ref that the plugin
/// tracked, which herdr forgets.
fn rollback_entry(e: &StateEntry, now: &str) -> (r: StateEntry)
    ensures
        r.deep_view() == rollback_record(e.deep_view(), now@),
{
    StateEntry {
        plugin_id: e.plugin_id.clone(),
        previous_sha: e.current_sha.clone(),
        current_sha: e.previous_sha.clone(),
        requested_ref: text::copy_of(&e.requested_ref),
        updated_at: now.to_owned(),
        result: "rolled_back".to_owned(),
    }
}

/// What became of an entry.
#[derive(Debug, Clone, Copy, PartialEq, Eq, Structural)]
pub enum Ended {
    /// It was passed over, or its reinstall failed.
    Skipped,
    /// It was done.
    Done,
}

/// How many entries were done.
pub open spec fn done_count(ended: Seq<Ended>) -> nat
    decreases ended.len(),
{
    if ended.len() == 0 {
        0
    } else {
        done_count(ended.drop_last()) + if ended.last() == Ended::Done {
            1nat
        } else {
            0nat
        }
    }
}

/// How a command over the trail ends: with the count of what was done, and not
/// well where that is nothing.
pub open spec fn ends(ended: Seq<Ended>, json: bool, what: Seq<char>) -> ReportView {
    ReportView {
        lines: noted(json, "[herdr-auto-update] "@ + text::decimal(done_count(ended)) + what),
        exit: if ended.contains(Ended::Done) {
            report::EXIT_OK
        } else {
            report::EXIT_PENDING
        },
    }
}

proof fn lemma_done_count(ended: Seq<Ended>)
    ensures
        done_count(ended) > 0 <==> ended.contains(Ended::Done),
    decreases ended.len(),
{
    if ended.len() > 0 {
        let front = ended.drop_last();
        lemma_done_count(front);
        if front.contains(Ended::Done) {
            let i = choose|i: int| 0 <= i < front.len() && front[i] == Ended::Done;
            assert(ended[i] == Ended::Done);
        }
        if ended.contains(Ended::Done) {
            let i = choose|i: int| 0 <= i < ended.len() && ended[i] == Ended::Done;
            if i < front.len() {
                assert(front[i] == Ended::Done);
            }
        }
        assert(ended[ended.len() - 1] == ended.last());
    }
}

fn end(ended: &Vec<Ended>, json: bool, what: &str) -> (r: Report)
    ensures
        r.deep_view() == ends(ended@, json, what@),
{
    let mut count: usize = 0;
    let mut i: usize = 0;
    while i < ended.len()
        invariant
            count <= i <= ended.len(),
            count == done_count(ended@.take(i as int)),
        decreases ended.len() - i,
    {
        assert(ended@.take(i + 1).drop_last() =~= ended@.take(i as int));
        assert(ended@.take(i + 1).last() == ended@[i as int]);
        if ended[i] == Ended::Done {
            count = count + 1;
        }
        i = i + 1;
    }
    proof {
        assert(ended@.take(ended.len() as int) =~= ended@);
        lemma_done_count(ended@);
    }
    let mut s = "[herdr-auto-update] ".to_owned();
    text::push_decimal(&mut s, count as u64);
    s.append(what);
    let exit: u8 = if count == 0 {
        report::EXIT_PENDING
    } else {
        report::EXIT_OK
    };
    Report { lines: note(json, s), exit }
}

/// Ends a rollback, given what became of its entries.
pub fn rollback_end(ended: &Vec<Ended>, json: bool) -> (r: Report)
    ensures
        r.deep_view() == ends(ended@, json, " plugin(s) rolled back"@),
{
    end(ended, json, " plugin(s) rolled back")
}

/// How a resume begins: with the newest entry of each plugin where that is a
/// rollback. Asking for a plugin whose newest entry is none is an error.
pub open spec fn resume_starts(
    entries: Seq<StateEntryView>,
    json: bool,
    only: Option<Seq<char>>,
) -> StartView {
    match only {
        Some(id) => match state::latest(entries, id) {
            Some(e) => if e.result == "rolled_back"@ {
                StartView::Go { lines: Seq::empty(), targets: seq![e] }
            } else {
                refused("error: no rollback recorded for plugin '"@, id)
            },
            None => refused("error: no rollback recorded for plugin '"@, id),
        },
        None => if entries.len() == 0 {
            idle(json, "[herdr-auto-update] no rollbacks recorded - nothing to resume"@)
        } else {
            StartView::Go {
                lines: Seq::empty(),
                targets: state::newest_with(entries, "rolled_back"@),
            }
        },
    }
}

/// Begins to resume all plugins, or one.
pub fn resume_start(st: &State, json: bool, only: Option<&str>) -> (r: Start)
    ensures
        r.deep_view() == resume_starts(st.entries.deep_view(), json, only.deep_view()),
{
    match only {
        Some(id) => {
            if let Some(e) = st.latest_for(id) {
                if text::same(e.result.as_str(), "rolled_back") {
                    return one_target(e);
                }
            }
            refuse("error: no rollback recorded for plugin '", id)
        },
        None => {
            if st.entries.len() == 0 {
                let s = "[herdr-auto-update] no rollbacks recorded - nothing to resume";
                return Start::Stop(
                    Report { lines: note(json, s.to_owned()), exit: report::EXIT_OK },
                );
            }
            Start::Go { lines: report::no_lines(), targets: st.newest_entries("rolled_back") }
        },
    }
}

/// What happens next with an entry that is to be resumed: the ref that was
/// tracked before the rollback is reinstalled.
pub open spec fn resume_goes_on(
    e: StateEntryView,
    listed: Result<Seq<PluginView>, Seq<char>>,
    json: bool,
) -> StepView {
    reinstall(
        e,
        listed,
        e.requested_ref,
        said(
            json,
            "  ["@ + e.plugin_id + "] resuming tracking ref "@ + (match e.requested_ref {
                Some(r) => r,
                None => "<default branch>"@,
            }),
        ),
        "] cannot resume: plugin not in registry"@,
    )
}

/// Goes on with a resume once the plugins were listed.
fn resume_listed(e: &StateEntry, listed: &Result<Vec<Plugin>, String>, json: bool) -> (r: Step)
    ensures
        r.deep_view() == resume_goes_on(e.deep_view(), apply::list_of(*listed), json),
{
    match find_repo(listed, e.plugin_id.as_str()) {
        Some((owner, repo)) => {
            let mut s = "  [".to_owned();
            s.append(e.plugin_id.as_str());
            s.append("] resuming tracking ref ");
            match &e.requested_ref {
                Some(r) => s.append(r.as_str()),
                None => s.append("<default branch>"),
            }
            let args = install::install_args(
                owner.as_str(),
                repo.as_str(),
                text::borrowed(&e.requested_ref),
            );
            Step { lines: say(json, s), work: Work::Install { owner, repo, args } }
        },
        None => {
            let mut s = "  [".to_owned();
            s.append(e.plugin_id.as_str());
            s.append("] cannot resume: plugin not in registry");
            Step { lines: report::one_warning(s), work: Work::Skip }
        },
    }
}

/// The entry of the trail for a plugin that is back on the ref that it tracked,
/// at a commit.
pub open spec fn resume_record(e: StateEntryView, current: Seq<char>, now: Seq<char>) -> StateEntryView {
    StateEntryView {
        plugin_id: e.plugin_id,
        previous_sha: e.current_sha,
        current_sha: current,
        requested_ref: e.requested_ref,
        updated_at: now,
        result: "updated"@,
    }
}

/// The entry of the trail for a plugin that is back on the ref that it tracked.
/// `listed` are the plugins behind the reinstall: they show the commit.
fn resume_entry(e: &StateEntry, listed: &Result<Vec<Plugin>, String>, now: &str) -> (r:
    StateEntry)
    ensures
        r.deep_view() == resume_record(
            e.deep_view(),
            apply::located(
                apply::list_of(*listed),
                e.deep_view().plugin_id,
                e.deep_view().current_sha,
            ),
            now@,
        ),
{
    StateEntry {
        plugin_id: e.plugin_id.clone(),
        previous_sha: e.current_sha.clone(),
        current_sha: apply::locate(listed, e.plugin_id.as_str(), e.current_sha.as_str()),
        requested_ref: text::copy_of(&e.requested_ref),
        updated_at: now.to_owned(),
        result: "updated".to_owned(),
    }
}

/// What happens next once the installer was run: a rollback is recorded, and
/// behind a resume the plugins are listed to learn the commit.
pub open spec fn after_install(
    undo: Undo,
    e: StateEntryView,
    bin: Seq<char>,
    owner: Seq<char>,
    repo: Seq<char>,
    run: InstallRun,
    now: Seq<char>,
) -> StepView {
    StepView {
        lines: install::complaint(bin, owner, repo, run),
        work: if !install::installed(run) {
            WorkView::Skip
        } else {
            match undo {
                Undo::Rollback => WorkView::Record(rollback_record(e, now)),
                Undo::Resume => WorkView::Locate,
            }
        },
    }
}

fn reinstalled(
    undo: Undo,
    e: &StateEntry,
    bin: &str,
    owner: &str,
    repo: &str,
    run: &InstallRun,
    now: &str,
) -> (r: Step)
    ensures
        r.deep_view() == after_install(undo, e.deep_view(), bin@, owner@, repo@, *run, now@),
{
    let (ok, lines) = install::install_result(bin, owner, repo, run);
    if !ok {
        return Step { lines, work: Work::Skip };
    }
    match undo {
        Undo::Rollback => Step { lines, work: Work::Record(rollback_entry(e, now)) },
        Undo::Resume => Step { lines, work: Work::Locate },
    }
}

/// Whether an event is what a work comes to.
pub open spec fn fits(work: WorkView, event: Event) -> bool {
    match work {
        WorkView::Skip | WorkView::Done => false,
        WorkView::List | WorkView::Locate => event is Listed,
        WorkView::Install { .. } => event is Installed,
        WorkView::Record(_) => event is Recorded,
    }
}

/// What happens next with an entry once a work came to an event. An event that
/// the work does not come to changes nothing.
pub open spec fn following(
    undo: Undo,
    e: StateEntryView,
    json: bool,
    bin: Seq<char>,
    work: WorkView,
    event: Event,
    now: Seq<char>,
) -> StepView {
    match (work, event) {
        (WorkView::List, Event::Listed(listed)) => match undo {
            Undo::Rollback => rollback_goes_on(e, apply::list_of(listed), json),
            Undo::Resume => resume_goes_on(e, apply::list_of(listed), json),
        },
        (WorkView::Install { owner, repo, .. }, Event::Installed(run)) => after_install(
            undo,
            e,
            bin,
            owner,
            repo,
            run,
            now,
        ),
        (WorkView::Locate, Event::Listed(listed)) => StepView {
            lines: Seq::empty(),
            work: WorkView::Record(
                resume_record(
                    e,
                    apply::located(apply::list_of(listed), e.plugin_id, e.current_sha),
                    now,
                ),
            ),
        },
        (WorkView::Record(_), Event::Recorded(saved)) => StepView {
            lines: apply::save_warning(saved),
            work: WorkView::Done,
        },
        _ => StepView { lines: Seq::empty(), work },
    }
}

/// Goes on with an entry once a work came to an event. `bin` is the herdr
/// program, `now` the time that a record carries.
pub fn follow(
    undo: Undo,
    e: &StateEntry,
    json: bool,
    bin: &str,
    work: Work,
    event: &Event,
    now: &str,
) -> (r: Step)
    ensures
        r.deep_view() == following(
            undo,
            e.deep_view(),
            json,
            bin@,
            work.deep_view(),
            *event,
            now@,
        ),
{
    match (work, event) {
        (Work::List, Event::Listed(listed)) => match undo {
            Undo::Rollback => rollback_listed(e, listed, json),
            Undo::Resume => resume_listed(e, listed, json),
        },
        (Work::Install { owner, repo, args: _ }, Event::Installed(run)) => reinstalled(
            undo,
            e,
            bin,
            owner.as_str(),
            repo.as_str(),
            run,
            now,
        ),
        (Work::Locate, Event::Listed(listed)) => Step {
            lines: report::no_lines(),
            work: Work::Record(resume_entry(e, listed, now)),
        },
        (Work::Record(_), Event::Recorded(saved)) => Step {
            lines: apply::save_lines(saved),
            work: Work::Done,
        },
        (work, _) => Step { lines: report::no_lines(), work },
    }
}

/// How many steps a work is away from the end at most.
pub open spec fn distance(work: WorkView) -> nat {
    match work {
        WorkView::Skip | WorkView::Done => 0,
        WorkView::Record(_) => 1,
        WorkView::Locate => 2,
        WorkView::Install { .. } => 3,
        WorkView::List => 4,
    }
}

/// Every entry comes to an end after four steps at most, and counts as done only
/// behind a record, which only an installer that succeeded leads to.
pub proof fn every_entry_ends(
    undo: Undo,
    e: StateEntryView,
    json: bool,
    bin: Seq<char>,
    work: WorkView,
    event: Event,
    now: Seq<char>,
)
    requires
        fits(work, event),
    ensures
        ({
            let next = following(undo, e, json, bin, work, event, now).work;
            &&& distance(next) < distance(work)
            &&& distance(work) <= 4
            &&& next is Done <==> work is Record
            &&& next is Record && undo == Undo::Rollback && work is Install ==> (event
                matches Event::Installed(run) && install::installed(run))
            &&& next is Locate ==> (event matches Event::Installed(run) && install::installed(run))
        }),
{
}

/// Ends a resume, given what became of its entries.
pub fn resume_end(ended: &Vec<Ended>, json: bool) -> (r: Report)
    ensures
        r.deep_view() == ends(ended@, json, " plugin(s) resumed"@),
{
    end(ended, json, " plugin(s) resumed")
}

/// The line of an entry in the history.
pub open spec fn history_line(e: StateEntryView) -> Seq<char> {
    e.updated_at + " "@ + e.result + " "@ + e.plugin_id + " "@ + updater::shortened(e.previous_sha)
        + " -> "@ + updater::shortened(e.current_sha)
}

/// The lines of the history, the oldest entry first.
pub open spec fn history_lines(entries: Seq<StateEntryView>) -> Seq<LineView> {
    entries.map_values(|e: StateEntryView| LineView::Say(history_line(e)))
}

/// Prints the trail for a reader.
pub fn history_report(st: &State) -> (r: Report)
    ensures
        r.deep_view() == (ReportView {
            lines: if st.entries.deep_view().len() == 0 {
                seq![LineView::Say("[herdr-auto-update] no recorded updates"@)]
            } else {
                history_lines(st.entries.deep_view())
            },
            exit: report::EXIT_OK,
        }),
{
    if st.entries.len() == 0 {
        return Report {
            lines: report::one_line("[herdr-auto-update] no recorded updates".to_owned()),
            exit: report::EXIT_OK,
        };
    }
    let ghost all = st.entries.deep_view();
    let mut lines = report::no_lines();
    let mut i: usize = 0;
    while i < st.entries.len()
        invariant
            all == st.entries.deep_view(),
            i <= st.entries.len(),
            lines.deep_view() == history_lines(all.take(i as int)),
        decreases st.entries.len() - i,
    {
        let e = &st.entries[i];
        let mut s = e.updated_at.clone();
        s.append(" ");
        s.append(e.result.as_str());
        s.append(" ");
        s.append(e.plugin_id.as_str());
        s.append(" ");
        s.append(updater::short(e.previous_sha.as_str()));
        s.append(" -> ");
        s.append(updater::short(e.current_sha.as_str()));
        assert(all[i as int] == e.deep_view());
        report::say(&mut lines, s);
        assert(lines.deep_view() =~= history_lines(all.take(i + 1)));
        i = i + 1;
    }
    assert(all.take(st.entries.len() as int) =~= all);
    Report { lines, exit: report::EXIT_OK }
}

/// What an update recorded is what a rollback undoes: the plugin is reinstalled
/// at the commit that it was at before the update.
pub proof fn updates_can_be_undone(
    entries: Seq<StateEntryView>,
    e: PlanEntryView,
    now: Seq<char>,
    plugins: Seq<PluginView>,
    json: bool,
)
    requires
        registry::repo_of(plugins, e.plugin_id) is Some,
        e.installed_sha.len() > 0,
    ensures
        ({
            let record = apply::update_record(e, now);
            let (owner, repo) = registry::repo_of(plugins, e.plugin_id)->0;
            &&& rollback_starts(entries.push(record), json, Some(e.plugin_id)) == (StartView::Go {
                lines: Seq::empty(),
                targets: seq![record],
            })
            &&& rollback_starts(entries.push(record), json, None) matches StartView::Go {
                targets,
                ..
            } && targets.contains(record)
            &&& beginning(Undo::Rollback, record).work is List
            &&& rollback_goes_on(record, Ok(plugins), json).work == (WorkView::Install {
                owner,
                repo,
                args: install::args_for(owner, repo, Some(e.installed_sha)),
            })
        }),
{
    let record = apply::update_record(e, now);
    state::append_then_latest(entries, record, e.plugin_id);
    state::newest_with_is_latest(entries.push(record), "updated"@, record);
}

/// A rollback swaps the two commits of the update that it undoes and keeps the
/// ref that was tracked; rolling back is its own inverse on the commits.
pub proof fn rollback_swaps(e: StateEntryView, now: Seq<char>, later: Seq<char>)
    ensures
        ({
            let back = rollback_record(e, now);
            &&& back.current_sha == e.previous_sha
            &&& back.previous_sha == e.current_sha
            &&& back.requested_ref == e.requested_ref
            &&& rollback_record(back, later).current_sha == e.current_sha
        }),
{
}

proof fn lemma_results_differ()
    ensures
        "updated"@ != "rolled_back"@,
{
    reveal_strlit("updated");
    reveal_strlit("rolled_back");
    assert("updated"@.len() != "rolled_back"@.len());
}

/// A plugin that was rolled back is known to be, is not rolled back again, alone
/// or with all others, and is what a resume takes up.
pub proof fn rolled_back_once(
    entries: Seq<StateEntryView>,
    e: StateEntryView,
    now: Seq<char>,
    json: bool,
)
    ensures
        ({
            let back = rollback_record(e, now);
            let after = entries.push(back);
            &&& collect::rolled_back(Some(after), e.plugin_id)
            &&& rollback_starts(after, json, Some(e.plugin_id)) matches StartView::Go {
                targets,
                ..
            } && targets.len() == 0
            &&& rollback_starts(after, json, None) matches StartView::Go { targets, .. }
                && forall|i: int| 0 <= i < targets.len() ==> (#[trigger] targets[i]).plugin_id
                != e.plugin_id
            &&& resume_starts(after, json, Some(e.plugin_id)) matches StartView::Go { targets, .. }
                && targets == seq![back]
            &&& resume_starts(after, json, None) matches StartView::Go { targets, .. }
                && targets.contains(back)
        }),
{
    let back = rollback_record(e, now);
    let after = entries.push(back);
    lemma_results_differ();
    state::append_then_latest(entries, back, e.plugin_id);
    let targets = state::newest_with(after, "updated"@);
    assert forall|i: int| 0 <= i < targets.len() implies (#[trigger] targets[i]).plugin_id
        != e.plugin_id by {
        assert(targets.contains(targets[i]));
        state::newest_with_is_latest(after, "updated"@, targets[i]);
    }
    state::newest_with_is_latest(after, "rolled_back"@, back);
}

/// A plugin that was resumed does not count as rolled back, can be rolled back
/// again, and is not resumed again.
pub proof fn resumed_once(
    entries: Seq<StateEntryView>,
    e: StateEntryView,
    current: Seq<char>,
    now: Seq<char>,
    json: bool,
)
    ensures
        ({
            let record = resume_record(e, current, now);
            let after = entries.push(record);
            &&& !collect::rolled_back(Some(after), e.plugin_id)
            &&& rollback_starts(after, json, Some(e.plugin_id)) matches StartView::Go {
                targets,
                ..
            } && targets == seq![record]
            &&& rollback_starts(after, json, None) matches StartView::Go { targets, .. }
                && targets.contains(record)
            &&& resume_starts(after, json, Some(e.plugin_id)) is Stop
            &&& resume_starts(after, json, None) matches StartView::Go { targets, .. } && forall|
                i: int,
            | 0 <= i < targets.len() ==> (#[trigger] targets[i]).plugin_id != e.plugin_id
        }),
{
    let record = resume_record(e, current, now);
    let after = entries.push(record);
    lemma_results_differ();
    state::append_then_latest(entries, record, e.plugin_id);
    let targets = state::newest_with(after, "rolled_back"@);
    assert forall|i: int| 0 <= i < targets.len() implies (#[trigger] targets[i]).plugin_id
        != e.plugin_id by {
        assert(targets.contains(targets[i]));
        state::newest_with_is_latest(after, "rolled_back"@, targets[i]);
    }
    state::newest_with_is_latest(after, "updated"@, record);
}

/// A rollback reinstalls the commit before the update, and a resume of it the
/// ref that the update tracked: what herdr is asked to install is what it was
/// asked for before.
pub proof fn resume_undoes_rollback(
    e: StateEntryView,
    plugins: Seq<PluginView>,
    now: Seq<char>,
    json: bool,
)
    ensures
        registry::repo_of(plugins, e.plugin_id) matches Some((owner, repo)) ==> {
            &&& registry::valid_repo(owner, repo)
            &&& rollback_goes_on(e, Ok(plugins), json).work == (WorkView::Install {
                owner,
                repo,
                args: install::args_for(owner, repo, Some(e.previous_sha)),
            })
            &&& resume_goes_on(rollback_record(e, now), Ok(plugins), json).work == (
            WorkView::Install {
                owner,
                repo,
                args: install::args_for(owner, repo, e.requested_ref),
            })
        },
{
}

/// Each plugin is rolled back at most once in a run, and to the commit before
/// its latest update only.
pub proof fn only_the_latest_update_is_undone(
    entries: Seq<StateEntryView>,
    json: bool,
    only: Option<Seq<char>>,
)
    ensures
        rollback_starts(entries, json, only) matches StartView::Go { targets, .. } ==> {
            &&& forall|i: int|
                0 <= i < targets.len() ==> state::latest(
                    entries,
                    (#[trigger] targets[i]).plugin_id,
                ) == Some(targets[i]) && targets[i].result == "updated"@
            &&& forall|i: int, j: int|
                0 <= i < j < targets.len() ==> (#[trigger] targets[i]).plugin_id != (
                #[trigger] targets[j]).plugin_id
        },
{
    match only {
        Some(id) => {
            if state::latest(entries, id) is Some {
                lemma_latest_has_id(entries, id);
            }
        },
        None => {
            let targets = state::newest_with(entries, "updated"@);
            assert forall|i: int| 0 <= i < targets.len() implies state::latest(
                entries,
                (#[trigger] targets[i]).plugin_id,
            ) == Some(targets[i]) && targets[i].result == "updated"@ by {
                assert(targets.contains(targets[i]));
                state::newest_with_is_latest(entries, "updated"@, targets[i]);
            }
            assert forall|i: int, j: int| 0 <= i < j < targets.len() implies (
            #[trigger] targets[i]).plugin_id != (#[trigger] targets[j]).plugin_id by {
                state::newest_with_once(entries, "updated"@, i, j);
            }
        },
    }
}

proof fn lemma_latest_has_id(entries: Seq<StateEntryView>, id: Seq<char>)
    requires
        state::latest(entries, id) is Some,
    ensures
        state::latest(entries, id)->0.plugin_id == id,
    decreases entries.len(),
{
    if entries.last().plugin_id != id {
        lemma_latest_has_id(entries.drop_last(), id);
    }
}

/// The history of a trail with entries has one line for each entry, no more and
/// no less, and line `i` is that of entry `i`: its time, its result, its plugin
/// and its two commits in short. An empty trail has one line that says so.
pub proof fn history_has_a_line_per_entry(st: &State, r: Report)
    requires
        call_ensures(history_report, (st,), r),
    ensures
        r.exit == 0,
        st.entries@.len() == 0 ==> r.lines@.len() == 1,
        st.entries@.len() > 0 ==> r.lines@.len() == st.entries@.len(),
        forall|i: int|
            0 <= i < st.entries@.len() ==> (#[trigger] r.lines@[i]) is Say && ({
                let e = st.entries@[i];
                r.lines@[i]->Say_0@ == e.updated_at@ + " "@ + e.result@ + " "@ + e.plugin_id@ + " "@
                    + updater::shortened(e.previous_sha@) + " -> "@ + updater::shortened(
                    e.current_sha@,
                )
            }),
{
    let lines = r.lines.deep_view();
    let entries = st.entries.deep_view();
    assert(lines == r.deep_view().lines);
    assert(lines.len() == r.lines@.len());
    assert(entries.len() == st.entries@.len());
    assert forall|i: int| 0 <= i < st.entries@.len() implies (#[trigger] r.lines@[i]) is Say && ({
        let e = st.entries@[i];
        r.lines@[i]->Say_0@ == e.updated_at@ + " "@ + e.result@ + " "@ + e.plugin_id@ + " "@
            + updater::shortened(e.previous_sha@) + " -> "@ + updater::shortened(e.current_sha@)
    }) by {
        assert(lines[i] == r.lines@[i].deep_view());
        assert(entries[i] == st.entries@[i].deep_view());
    }
}

/// What is appended to a trail with entries is one more line behind the others of
/// its history, which stay as they are.
pub proof fn history_only_grows(before: &State, after: &State, r: Report, s: Report)
    requires
        call_ensures(history_report, (before,), r),
        call_ensures(history_report, (after,), s),
        before.entries@.len() > 0,
        before.entries@.is_prefix_of(after.entries@),
    ensures
        r.lines.deep_view().is_prefix_of(s.lines.deep_view()),
        s.lines@.len() - r.lines@.len() == after.entries@.len() - before.entries@.len(),
{
    history_has_a_line_per_entry(before, r);
    history_has_a_line_per_entry(after, s);
    let few = r.lines.deep_view();
    let many = s.lines.deep_view();
    let n = few.len() as int;
    assert(before.entries@ =~= after.entries@.subrange(0, n));
    assert forall|i: int| 0 <= i < n implies few[i] == many[i] by {
        assert(before.entries@[i] == after.entries@.subrange(0, n)[i]);
        assert(r.lines@[i] is Say && s.lines@[i] is Say);
        assert(few[i] == r.lines@[i].deep_view());
        assert(many[i] == s.lines@[i].deep_view());
    }
    assert(few =~= many.subrange(0, n));
}

/// Going there and back again: an update, the rollback of its record and the
/// resume of that rollback's record. The rollback installs the commit before the
/// update, and the resume asks herdr for exactly what the update asked it for, at
/// the ref that the plugin tracks.
pub proof fn update_rollback_resume(
    cfg: ConfigView,
    e: PlanEntryView,
    mode: Mode,
    plugins: Seq<PluginView>,
    updated_at: Seq<char>,
    rolled_back_at: Seq<char>,
    json: bool,
)
    requires
        e.action == Action::Update,
        e.installed_sha.len() > 0,
        registry::repo_of(plugins, e.plugin_id) == Some((e.owner, e.repo)),
    ensures
        ({
            let updated = apply::update_record(e, updated_at);
            let back = rollback_record(updated, rolled_back_at);
            let update = apply::beginning(cfg, e, mode).work;
            let rollback = rollback_goes_on(updated, Ok(plugins), json).work;
            let resume = resume_goes_on(back, Ok(plugins), json).work;
            &&& update is Update && rollback is Install && resume is Install
            &&& rollback->args == install::args_for(e.owner, e.repo, Some(e.installed_sha))
            &&& resume->args == update->Update_args
            &&& resume->args == install::args_for(e.owner, e.repo, e.requested_ref)
        }),
{
}

/// A plugin that moved from its pin to the default branch goes back to the
/// commit that it was pinned to: the record of the move is what a rollback
/// starts from, and it reinstalls that commit. A resume of the rollback rejoins
/// the default branch.
pub proof fn moves_from_pins_can_be_undone(
    entries: Seq<StateEntryView>,
    e: PlanEntryView,
    new_sha: Seq<char>,
    now: Seq<char>,
    rolled_back_at: Seq<char>,
    plugins: Seq<PluginView>,
    json: bool,
)
    requires
        registry::repo_of(plugins, e.plugin_id) is Some,
        e.installed_sha.len() > 0,
    ensures
        ({
            let record = apply::pin_record(e, new_sha, now);
            let back = rollback_record(record, rolled_back_at);
            let (owner, repo) = registry::repo_of(plugins, e.plugin_id)->0;
            &&& rollback_starts(entries.push(record), json, Some(e.plugin_id)) == (StartView::Go {
                lines: Seq::empty(),
                targets: seq![record],
            })
            &&& rollback_starts(entries.push(record), json, None) matches StartView::Go {
                targets,
                ..
            } && targets.contains(record)
            &&& beginning(Undo::Rollback, record).work is List
            &&& rollback_goes_on(record, Ok(plugins), json).work == (WorkView::Install {
                owner,
                repo,
                args: install::args_for(owner, repo, Some(e.installed_sha)),
            })
            &&& back.current_sha == e.installed_sha
            &&& back.previous_sha == new_sha
            &&& resume_goes_on(back, Ok(plugins), json).work == (WorkView::Install {
                owner,
                repo,
                args: install::args_for(owner, repo, None),
            })
        }),
{
    let record = apply::pin_record(e, new_sha, now);
    state::append_then_latest(entries, record, e.plugin_id);
    state::newest_with_is_latest(entries.push(record), "updated"@, record);
}

/// A rollback begins with nothing where nothing is recorded; it refuses a plugin
/// without an entry, has nothing to do for one whose last entry is no update, and
/// else goes through the last entries that are updates: that of the one plugin,
/// or those of all.
pub proof fn rollbacks_begin_with_the_last_updates(
    st: &State,
    json: bool,
    only: Option<&str>,
    r: Start,
)
    requires
        call_ensures(rollback_start, (st, json, only), r),
    ensures
        ({
            let entries = st.entries.deep_view();
            &&& only matches Some(id) ==> match state::latest(entries, id@) {
                None => r is Stop && r->Stop_0.exit == 2 && r->Stop_0.lines.deep_view() == seq![
                    LineView::Note("error: no update recorded for plugin '"@ + id@ + "'"@),
                ],
                Some(e) => {
                    &&& r is Go
                    &&& e.result == "updated"@ ==> r->targets.deep_view() == seq![e]
                        && r->Go_lines@.len() == 0
                    &&& e.result != "updated"@ ==> r->targets@.len() == 0
                        && r->Go_lines.deep_view() == seq![
                        LineView::Note(
                            "  ["@ + id@
                                + "] already rolled back; run `resume` to rejoin the tracking ref"@,
                        ),
                    ]
                },
            }
            &&& only is None && entries.len() == 0 ==> r is Stop && r->Stop_0.exit == 0
                && r->Stop_0.lines.deep_view() == (if json {
                Seq::empty()
            } else {
                seq![
                    LineView::Note(
                        "[herdr-auto-update] no updates recorded - nothing to roll back"@,
                    ),
                ]
            })
            &&& only is None && entries.len() > 0 ==> r is Go && r->Go_lines@.len() == 0
                && r->targets.deep_view() == state::newest_with(entries, "updated"@)
        }),
{
    if r is Go {
        assert(r->Go_lines.deep_view().len() == r->Go_lines@.len());
        assert(r->targets.deep_view().len() == r->targets@.len());
    } else {
        assert(r->Stop_0.lines.deep_view() == r->Stop_0.deep_view().lines);
        assert(r->Stop_0.lines.deep_view().len() == r->Stop_0.lines@.len());
    }
}

/// A resume begins with nothing where nothing is recorded; it refuses a plugin
/// whose last entry is no rollback, and else goes through the last entries that
/// are rollbacks: that of the one plugin, or those of all.
pub proof fn resumes_begin_with_the_last_rollbacks(
    st: &State,
    json: bool,
    only: Option<&str>,
    r: Start,
)
    requires
        call_ensures(resume_start, (st, json, only), r),
    ensures
        ({
            let entries = st.entries.deep_view();
            &&& only matches Some(id) ==> ({
                let last = state::latest(entries, id@);
                let back = last is Some && last->0.result == "rolled_back"@;
                &&& back ==> r is Go && r->Go_lines@.len() == 0 && r->targets.deep_view() == seq![
                    last->0,
                ]
                &&& !back ==> r is Stop && r->Stop_0.exit == 2 && r->Stop_0.lines.deep_view()
                    == seq![
                    LineView::Note("error: no rollback recorded for plugin '"@ + id@ + "'"@),
                ]
            })
            &&& only is None && entries.len() == 0 ==> r is Stop && r->Stop_0.exit == 0
                && r->Stop_0.lines.deep_view() == (if json {
                Seq::empty()
            } else {
                seq![
                    LineView::Note("[herdr-auto-update] no rollbacks recorded - nothing to resume"@),
                ]
            })
            &&& only is None && entries.len() > 0 ==> r is Go && r->Go_lines@.len() == 0
                && r->targets.deep_view() == state::newest_with(entries, "rolled_back"@)
        }),
{
    if r is Go {
        assert(r->Go_lines.deep_view().len() == r->Go_lines@.len());
    } else {
        assert(r->Stop_0.lines.deep_view() == r->Stop_0.deep_view().lines);
        assert(r->Stop_0.lines.deep_view().len() == r->Stop_0.lines@.len());
    }
}

/// Only a rollback without a commit to go back to is passed over at once, with a
/// warning; every other entry begins with a look at the installed plugins.
pub proof fn a_commit_to_go_back_to_is_needed(undo: Undo, e: &StateEntry, r: Step)
    requires
        call_ensures(begin, (undo, e), r),
    ensures
        r.work is Skip <==> undo == Undo::Rollback && e.previous_sha@.len() == 0,
        r.work is List <==> !(undo == Undo::Rollback && e.previous_sha@.len() == 0),
        r.work is Skip ==> r.lines.deep_view() == seq![
            LineView::Note(
                "  ["@ + e.plugin_id@ + "] cannot roll back: no previous commit recorded"@,
            ),
        ],
        r.work is List ==> r.lines@.len() == 0,
{
    assert(r.lines.deep_view() == r.deep_view().lines);
    assert(r.lines.deep_view().len() == r.lines@.len());
}

/// What happens next with an entry follows from what came of the work. A plugin
/// that the registry does not list with a valid repository is passed over with a
/// warning; else it is installed from there: by a rollback at the commit before
/// the update, by a resume at the ref that it tracked. An installer that failed
/// ends the entry; behind one that succeeded it is recorded, and then done.
pub proof fn undoing_follows_from_what_came(
    undo: Undo,
    e: &StateEntry,
    json: bool,
    bin: &str,
    work: Work,
    event: &Event,
    now: &str,
    r: Step,
)
    requires
        call_ensures(follow, (undo, e, json, bin, work, event, now), r),
    ensures
        ({
            let next = r.work.deep_view();
            let lines = r.lines.deep_view();
            let head = "  ["@ + e.plugin_id@;
            &&& work is List ==> (*event matches Event::Listed(listed) ==> {
                let place = match listed {
                    Ok(plugins) => registry::repo_of(plugins.deep_view(), e.plugin_id@),
                    Err(_) => None,
                };
                &&& place is None ==> next is Skip && lines == seq![
                    LineView::Note(
                        head + (match undo {
                            Undo::Rollback => "] cannot roll back: plugin not in registry"@,
                            Undo::Resume => "] cannot resume: plugin not in registry"@,
                        }),
                    ),
                ]
                &&& place matches Some((owner, repo)) ==> {
                    &&& next == (WorkView::Install {
                        owner,
                        repo,
                        args: install::args_for(
                            owner,
                            repo,
                            match undo {
                                Undo::Rollback => Some(e.previous_sha@),
                                Undo::Resume => e.requested_ref.deep_view(),
                            },
                        ),
                    })
                    &&& json ==> lines.len() == 0
                    &&& !json && undo == Undo::Rollback ==> lines == seq![
                        LineView::Say(
                            head + "] rolling back "@ + updater::shortened(e.current_sha@)
                                + " -> "@ + updater::shortened(e.previous_sha@),
                        ),
                    ]
                    &&& !json && undo == Undo::Resume ==> lines == seq![
                        LineView::Say(
                            head + "] resuming tracking ref "@ + (match e.requested_ref {
                                Some(at) => at@,
                                None => "<default branch>"@,
                            }),
                        ),
                    ]
                }
            })
            &&& work is Install ==> (*event matches Event::Installed(run) ==> {
                let ok = run is Exited && run->ok;
                &&& !ok ==> next is Skip
                &&& lines == install::complaint(
                    bin@,
                    work->Install_owner@,
                    work->Install_repo@,
                    run,
                )
                &&& ok <==> lines.len() == 0
                &&& ok && undo == Undo::Rollback ==> next is Record
                &&& ok && undo == Undo::Resume ==> next is Locate
            })
            &&& work is Locate && *event is Listed ==> next is Record && lines.len() == 0
            &&& work is Record ==> (*event matches Event::Recorded(saved) ==> {
                &&& next is Done
                &&& saved matches Saved::Failed(why) ==> lines == seq![
                    LineView::Note("  warning: "@ + why@),
                ]
                &&& !(saved is Failed) ==> lines.len() == 0
            })
            &&& !fits(work.deep_view(), *event) ==> next == work.deep_view() && lines.len() == 0
        }),
{
    assert(r.lines.deep_view() == r.deep_view().lines);
    if let (Work::Install { owner, repo, .. }, Event::Installed(run)) = (work, *event) {
        install::failures_are_reported(bin@, owner@, repo@, run);
    }
}

/// What is recorded of a rollback and of a resume: the plugin, where it comes
/// from and where it is, the ref that it tracks and the time. A rollback turns
/// the two commits of the update around; a resume comes from the commit that the
/// rollback went to and is where the registry then shows the plugin.
pub proof fn undoing_is_recorded(
    undo: Undo,
    e: &StateEntry,
    json: bool,
    bin: &str,
    work: Work,
    event: &Event,
    now: &str,
    r: Step,
)
    requires
        call_ensures(follow, (undo, e, json, bin, work, event, now), r),
        !(work is Record),
        r.work is Record,
    ensures
        ({
            let record = r.work->Record_0;
            let rollback = work is Install;
            &&& record.plugin_id@ == e.plugin_id@
            &&& record.previous_sha@ == e.current_sha@
            &&& record.requested_ref.deep_view() == e.requested_ref.deep_view()
            &&& record.updated_at@ == now@
            &&& rollback ==> undo == Undo::Rollback && record.current_sha@ == e.previous_sha@
                && record.result@ == "rolled_back"@
            &&& !rollback ==> work is Locate && record.result@ == "updated"@ && (*event
                matches Event::Listed(listed) && record.current_sha@ == (match listed {
                Ok(plugins) => match registry::commit_of(plugins.deep_view(), e.plugin_id@) {
                    Some(sha) => sha,
                    None => e.current_sha@,
                },
                Err(_) => e.current_sha@,
            }))
        }),
{
    assert(r.deep_view().work == WorkView::Record(r.work->Record_0.deep_view()));
}

/// The entries that were done are counted one by one.
pub proof fn done_entries_are_counted(a: Seq<Ended>, b: Seq<Ended>, one: Ended)
    ensures
        done_count(a + b) == done_count(a) + done_count(b),
        done_count(seq![one]) == (if one == Ended::Done {
            1nat
        } else {
            0nat
        }),
        done_count(Seq::empty()) == 0,
    decreases b.len(),
{
    reveal_with_fuel(done_count, 2);
    assert(seq![one].drop_last() =~= Seq::<Ended>::empty());
    if b.len() == 0 {
        assert(a + b =~= a);
    } else {
        assert((a + b).drop_last() =~= a + b.drop_last());
        done_entries_are_counted(a, b.drop_last(), one);
    }
}

/// A rollback, and a resume, ends well exactly where at least one entry was done,
/// and says how many were, unless the output is machine-readable.
pub proof fn undoing_ends_with_the_count(ended: &Vec<Ended>, json: bool, back: Report, again: Report)
    requires
        call_ensures(rollback_end, (ended, json), back),
        call_ensures(resume_end, (ended, json), again),
    ensures
        back.exit == 0 <==> exists|i: int| 0 <= i < ended@.len() && ended@[i] == Ended::Done,
        back.exit == 0 || back.exit == 1,
        again.exit == back.exit,
        json ==> back.lines@.len() == 0 && again.lines@.len() == 0,
        !json ==> back.lines.deep_view() == seq![
            LineView::Note(
                "[herdr-auto-update] "@ + text::decimal(done_count(ended@))
                    + " plugin(s) rolled back"@,
            ),
        ],
        !json ==> again.lines.deep_view() == seq![
            LineView::Note(
                "[herdr-auto-update] "@ + text::decimal(done_count(ended@))
                    + " plugin(s) resumed"@,
            ),
        ],
{
    assert(back.lines.deep_view() == back.deep_view().lines);
    assert(again.lines.deep_view() == again.deep_view().lines);
    assert(back.lines.deep_view().len() == back.lines@.len());
    assert(again.lines.deep_view().len() == again.lines@.len());
}

/// Where no place for the trail is known, nothing of it can be undone or shown,
/// and that is an error.
pub proof fn a_place_for_the_trail_is_needed(r: Report)
    requires
        call_ensures(no_place, (), r),
    ensures
        r.exit == 2,
        r.lines.deep_view() == seq![
            LineView::Note("error: no config dir; cannot locate state.json"@),
        ],
{
    assert(r.lines.deep_view() == r.deep_view().lines);
}

} // verus!
