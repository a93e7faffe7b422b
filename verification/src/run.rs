//! A whole run over a plan: its entries are worked on one after the other, in
//! the order of the plan, each until it is settled.

use crate::apply;
use crate::apply::Event;
use crate::apply::Mode;
use crate::apply::Outcome;
use crate::apply::Step;
use crate::apply::StepView;
use crate::apply::Work;
use crate::apply::WorkView;
use crate::config::Config;
use crate::config::ConfigView;
use crate::install;
use crate::report;
use crate::report::Line;
use crate::report::LineView;
use crate::summary::Settled;
use crate::summary::SettledView;
use crate::updater::Action;
use crate::updater::PlanEntry;
use crate::updater::PlanEntryView;
use vstd::prelude::*;

verus! {

/// Where a run stands.
#[derive(Debug)]
pub struct Stage {
    /// What is printed now.
    pub lines: Vec<Line>,
    /// The entries that are settled: the first ones of the plan.
    pub done: Vec<Settled>,
    /// What happens next with the first entry that is not settled; none at the
    /// end.
    pub work: Option<Work>,
}

/// A `Stage` as values.
#[verifier::ext_equal]
pub struct StageView {
    pub lines: Seq<LineView>,
    pub done: Seq<SettledView>,
    pub work: Option<WorkView>,
}

impl DeepView for Stage {
    type V = StageView;

    open spec fn deep_view(&self) -> StageView {
        StageView {
            lines: self.lines.deep_view(),
            done: self.done.deep_view(),
            work: self.work.deep_view(),
        }
    }
}

/// An entry with what became of it.
pub open spec fn settled(e: PlanEntryView, outcome: Outcome) -> SettledView {
    SettledView { plugin_id: e.plugin_id, outcome }
}

/// Where a run stands behind a step with the first entry that is not settled. As
/// long as an entry is settled, the next one begins.
pub open spec fn onward(
    cfg: ConfigView,
    entries: Seq<PlanEntryView>,
    mode: Mode,
    lines: Seq<LineView>,
    done: Seq<SettledView>,
    step: StepView,
) -> StageView
    decreases entries.len() - done.len(),
{
    let printed = lines + step.lines;
    match step.work {
        WorkView::Settle(outcome) => if done.len() < entries.len() {
            let more = done.push(settled(entries[done.len() as int], outcome));
            if more.len() < entries.len() {
                onward(
                    cfg,
                    entries,
                    mode,
                    printed,
                    more,
                    apply::beginning(cfg, entries[more.len() as int], mode),
                )
            } else {
                StageView { lines: printed, done: more, work: None }
            }
        } else {
            StageView { lines: printed, done, work: None }
        },
        work => StageView { lines: printed, done, work: Some(work) },
    }
}

/// Where a run over a plan begins.
pub open spec fn started(cfg: ConfigView, entries: Seq<PlanEntryView>, mode: Mode) -> StageView {
    if entries.len() == 0 {
        StageView { lines: Seq::empty(), done: Seq::empty(), work: None }
    } else {
        onward(
            cfg,
            entries,
            mode,
            Seq::empty(),
            Seq::empty(),
            apply::beginning(cfg, entries[0], mode),
        )
    }
}

/// Where a run stands once its work came to an event. A run that is at its end
/// stays there.
pub open spec fn advanced(
    cfg: ConfigView,
    entries: Seq<PlanEntryView>,
    mode: Mode,
    bin: Seq<char>,
    stage: StageView,
    event: Event,
) -> StageView {
    match stage.work {
        Some(work) => if stage.done.len() < entries.len() {
            onward(
                cfg,
                entries,
                mode,
                Seq::empty(),
                stage.done,
                apply::following(entries[stage.done.len() as int], mode, bin, work, event),
            )
        } else {
            StageView { lines: Seq::empty(), ..stage }
        },
        None => StageView { lines: Seq::empty(), ..stage },
    }
}

fn append_lines(lines: &mut Vec<Line>, more: Vec<Line>)
    ensures
        final(lines).deep_view() == old(lines).deep_view() + more.deep_view(),
{
    let ghost before = lines.deep_view();
    let ghost added = more.deep_view();
    let mut rest = more;
    lines.append(&mut rest);
    assert(lines.deep_view() =~= before + added);
}

fn go_on(
    cfg: &Config,
    entries: &Vec<PlanEntry>,
    mode: Mode,
    so_far: Vec<Settled>,
    first: Step,
) -> (r: Stage)
    ensures
        r.deep_view() == onward(
            cfg.deep_view(),
            entries.deep_view(),
            mode,
            Seq::empty(),
            so_far.deep_view(),
            first.deep_view(),
        ),
{
    let mut lines = report::no_lines();
    let mut done = so_far;
    let mut step = first;
    while done.len() < entries.len()
        invariant
            onward(
                cfg.deep_view(),
                entries.deep_view(),
                mode,
                Seq::empty(),
                so_far.deep_view(),
                first.deep_view(),
            ) == onward(
                cfg.deep_view(),
                entries.deep_view(),
                mode,
                lines.deep_view(),
                done.deep_view(),
                step.deep_view(),
            ),
        decreases entries.len() - done.len(),
    {
        let ghost before = done.deep_view();
        append_lines(&mut lines, step.lines);
        match step.work {
            Work::Settle(outcome) => {
                let at: usize = done.len();
                assert(entries.deep_view()[at as int] == entries@[at as int].deep_view());
                done.push(Settled { plugin_id: entries[at].plugin_id.clone(), outcome });
                assert(done.deep_view() =~= before.push(
                    settled(entries.deep_view()[at as int], outcome),
                ));
                if done.len() == entries.len() {
                    return Stage { lines, done, work: None };
                }
                assert(entries.deep_view()[at + 1] == entries@[at + 1].deep_view());
                step = apply::begin(cfg, &entries[at + 1], mode);
            },
            work => {
                return Stage { lines, done, work: Some(work) };
            },
        }
    }
    append_lines(&mut lines, step.lines);
    match step.work {
        Work::Settle(_) => Stage { lines, done, work: None },
        work => Stage { lines, done, work: Some(work) },
    }
}

/// Begins a run over a plan.
pub fn start(cfg: &Config, entries: &Vec<PlanEntry>, mode: Mode) -> (r: Stage)
    ensures
        r.deep_view() == started(cfg.deep_view(), entries.deep_view(), mode),
{
    let done: Vec<Settled> = Vec::new();
    assert(done.deep_view() =~= Seq::empty());
    if entries.len() == 0 {
        return Stage { lines: report::no_lines(), done, work: None };
    }
    assert(entries.deep_view()[0] == entries@[0].deep_view());
    let step = apply::begin(cfg, &entries[0], mode);
    go_on(cfg, entries, mode, done, step)
}

/// Goes on with a run once its work came to an event. `bin` is the herdr
/// program.
pub fn advance(
    cfg: &Config,
    entries: &Vec<PlanEntry>,
    mode: Mode,
    bin: &str,
    stage: Stage,
    event: &Event,
) -> (r: Stage)
    ensures
        r.deep_view() == advanced(
            cfg.deep_view(),
            entries.deep_view(),
            mode,
            bin@,
            stage.deep_view(),
            *event,
        ),
{
    let at: usize = stage.done.len();
    match stage.work {
        Some(work) => {
            if at < entries.len() {
                assert(entries.deep_view()[at as int] == entries@[at as int].deep_view());
                let step = apply::follow(&entries[at], mode, bin, work, event);
                go_on(cfg, entries, mode, stage.done, step)
            } else {
                Stage { lines: report::no_lines(), done: stage.done, work: Some(work) }
            }
        },
        None => Stage { lines: report::no_lines(), done: stage.done, work: None },
    }
}

/// The entry that a run works on; none at the end.
pub fn current<'a>(entries: &'a Vec<PlanEntry>, stage: &Stage) -> (r: Option<&'a PlanEntry>)
    ensures
        r.deep_view() == (if stage.deep_view().work is Some && stage.deep_view().done.len()
            < entries.deep_view().len() {
            Some(entries.deep_view()[stage.deep_view().done.len() as int])
        } else {
            None
        }),
{
    if stage.work.is_some() && stage.done.len() < entries.len() {
        Some(&entries[stage.done.len()])
    } else {
        None
    }
}

/// A run that was played through some events, and the installs that were made on
/// the way: their arguments, and whether they succeeded.
pub struct Played {
    pub stage: StageView,
    pub installs: Seq<(Seq<Seq<char>>, bool)>,
}

/// The install that an event reports, where the work is one.
pub open spec fn install_made(work: Option<WorkView>, event: Event) -> Option<
    (Seq<Seq<char>>, bool),
> {
    match (work, event) {
        (Some(WorkView::Update { args, .. }), Event::Installed(run)) => Some(
            (args, install::installed(run)),
        ),
        (Some(WorkView::Repin { args }), Event::Installed(run)) => Some(
            (args, install::installed(run)),
        ),
        _ => None,
    }
}

/// A run over a plan, played through the events that its works came to.
pub open spec fn played(
    cfg: ConfigView,
    entries: Seq<PlanEntryView>,
    mode: Mode,
    bin: Seq<char>,
    events: Seq<Event>,
) -> Played
    decreases events.len(),
{
    if events.len() == 0 {
        Played { stage: started(cfg, entries, mode), installs: Seq::empty() }
    } else {
        let before = played(cfg, entries, mode, bin, events.drop_last());
        Played {
            stage: advanced(cfg, entries, mode, bin, before.stage, events.last()),
            installs: match install_made(before.stage.work, events.last()) {
                Some(made) => before.installs.push(made),
                None => before.installs,
            },
        }
    }
}

/// The installs that settled entries stand for: one for each planned update, in
/// order, which succeeded where the entry counts as updated.
pub open spec fn installs_for(entries: Seq<PlanEntryView>, done: Seq<SettledView>) -> Seq<
    (Seq<Seq<char>>, bool),
>
    decreases done.len(),
{
    if done.len() == 0 {
        Seq::empty()
    } else {
        let e = entries[done.len() - 1];
        let before = installs_for(entries, done.drop_last());
        if e.action == Action::Update {
            before.push(
                (
                    install::args_for(e.owner, e.repo, e.requested_ref),
                    done.last().outcome == Outcome::Updated,
                ),
            )
        } else {
            before
        }
    }
}

/// Whether the settled entries are the first ones of the plan, in order.
pub open spec fn in_order(entries: Seq<PlanEntryView>, done: Seq<SettledView>) -> bool {
    &&& done.len() <= entries.len()
    &&& forall|i: int|
        0 <= i < done.len() ==> (#[trigger] done[i]).plugin_id == entries[i].plugin_id
}

/// Whether an outcome is that of an install.
pub open spec fn of_install(outcome: Outcome) -> bool {
    outcome == Outcome::Updated || outcome == Outcome::Failed
}

/// Whether exactly the planned updates among the settled entries were installed
/// or failed to be.
pub open spec fn as_planned(entries: Seq<PlanEntryView>, done: Seq<SettledView>) -> bool {
    forall|i: int|
        0 <= i < done.len() ==> (of_install((#[trigger] done[i]).outcome) <==> entries[i].action
            == Action::Update)
}

proof fn lemma_onward_order(
    cfg: ConfigView,
    entries: Seq<PlanEntryView>,
    mode: Mode,
    lines: Seq<LineView>,
    done: Seq<SettledView>,
    step: StepView,
)
    requires
        in_order(entries, done),
        done.len() < entries.len(),
    ensures
        ({
            let r = onward(cfg, entries, mode, lines, done, step);
            &&& in_order(entries, r.done)
            &&& done.is_prefix_of(r.done)
            &&& r.work is None <==> r.done.len() == entries.len()
            &&& r.work is Some ==> !(r.work->0 is Settle)
        }),
    decreases entries.len() - done.len(),
{
    if let WorkView::Settle(outcome) = step.work {
        let more = done.push(settled(entries[done.len() as int], outcome));
        assert(in_order(entries, more));
        assert(done =~= more.subrange(0, done.len() as int));
        if more.len() < entries.len() {
            let printed = lines + step.lines;
            let next = apply::beginning(cfg, entries[more.len() as int], mode);
            lemma_onward_order(cfg, entries, mode, printed, more, next);
            let r = onward(cfg, entries, mode, printed, more, next);
            assert(done =~= r.done.subrange(0, done.len() as int)) by {
                assert(more =~= r.done.subrange(0, more.len() as int));
                assert forall|i: int| 0 <= i < done.len() implies done[i] == r.done[i] by {
                    assert(more[i] == r.done.subrange(0, more.len() as int)[i]);
                }
            }
        }
    } else {
        assert(done =~= done.subrange(0, done.len() as int));
    }
}

proof fn lemma_played_order(
    cfg: ConfigView,
    entries: Seq<PlanEntryView>,
    mode: Mode,
    bin: Seq<char>,
    events: Seq<Event>,
)
    ensures
        ({
            let stage = played(cfg, entries, mode, bin, events).stage;
            &&& in_order(entries, stage.done)
            &&& stage.work is None <==> stage.done.len() == entries.len()
            &&& stage.work is Some ==> !(stage.work->0 is Settle)
        }),
    decreases events.len(),
{
    if events.len() == 0 {
        if entries.len() > 0 {
            lemma_onward_order(
                cfg,
                entries,
                mode,
                Seq::empty(),
                Seq::empty(),
                apply::beginning(cfg, entries[0], mode),
            );
        }
    } else {
        lemma_played_order(cfg, entries, mode, bin, events.drop_last());
        let before = played(cfg, entries, mode, bin, events.drop_last()).stage;
        if let Some(work) = before.work {
            lemma_onward_order(
                cfg,
                entries,
                mode,
                Seq::empty(),
                before.done,
                apply::following(
                    entries[before.done.len() as int],
                    mode,
                    bin,
                    work,
                    events.last(),
                ),
            );
        }
    }
}

/// A run works through the entries of its plan in order, each of them once:
/// whatever happens, what is settled are the first entries of the plan, and the
/// run is at its end exactly where all of them are.
pub proof fn entries_are_worked_on_in_order(
    cfg: ConfigView,
    entries: Seq<PlanEntryView>,
    mode: Mode,
    bin: Seq<char>,
    events: Seq<Event>,
)
    ensures
        ({
            let stage = played(cfg, entries, mode, bin, events).stage;
            &&& stage.done.len() <= entries.len()
            &&& forall|i: int|
                0 <= i < stage.done.len() ==> (#[trigger] stage.done[i]).plugin_id
                    == entries[i].plugin_id
            &&& stage.work is None <==> stage.done.len() == entries.len()
        }),
{
    lemma_played_order(cfg, entries, mode, bin, events);
}

/// How many events a run is away from its end at most.
pub open spec fn distance(entries: Seq<PlanEntryView>, stage: StageView) -> int {
    match stage.work {
        Some(work) => 5 * (entries.len() - stage.done.len() - 1) + apply::distance(work),
        None => 0,
    }
}

proof fn lemma_onward_distance(
    cfg: ConfigView,
    entries: Seq<PlanEntryView>,
    mode: Mode,
    lines: Seq<LineView>,
    done: Seq<SettledView>,
    step: StepView,
)
    requires
        done.len() < entries.len(),
    ensures
        0 <= distance(entries, onward(cfg, entries, mode, lines, done, step)) <= 5 * (entries.len()
            - done.len() - 1) + apply::distance(step.work),
    decreases entries.len() - done.len(),
{
    if let WorkView::Settle(outcome) = step.work {
        let more = done.push(settled(entries[done.len() as int], outcome));
        if more.len() < entries.len() {
            lemma_onward_distance(
                cfg,
                entries,
                mode,
                lines + step.lines,
                more,
                apply::beginning(cfg, entries[more.len() as int], mode),
            );
        }
    }
}

/// Every run ends: each event that its work comes to brings it closer.
pub proof fn every_run_ends(
    cfg: ConfigView,
    entries: Seq<PlanEntryView>,
    mode: Mode,
    bin: Seq<char>,
    stage: StageView,
    event: Event,
)
    requires
        stage.work is Some,
        stage.done.len() < entries.len(),
        apply::fits(stage.work->0, event),
    ensures
        0 <= distance(entries, advanced(cfg, entries, mode, bin, stage, event)) < distance(
            entries,
            stage,
        ),
{
    let e = entries[stage.done.len() as int];
    apply::every_plugin_settles(e, mode, bin, stage.work->0, event);
    lemma_onward_distance(
        cfg,
        entries,
        mode,
        Seq::empty(),
        stage.done,
        apply::following(e, mode, bin, stage.work->0, event),
    );
}

/// Whether the work of a run, where no one can be asked, is that of a planned
/// update at the ref that the plugin was installed at.
spec fn work_is_planned(entries: Seq<PlanEntryView>, stage: StageView) -> bool {
    stage.work matches Some(work) ==> {
        let e = entries[stage.done.len() as int];
        &&& e.action == Action::Update
        &&& work is Update || work is RecordUpdate || work is Verify
        &&& work matches WorkView::Update { args, .. } ==> args == install::args_for(
            e.owner,
            e.repo,
            e.requested_ref,
        )
    }
}

/// The installs that were made when a run stands somewhere: those of the settled
/// entries, and that of the entry at work once it succeeded.
spec fn installs_at(entries: Seq<PlanEntryView>, stage: StageView) -> Seq<
    (Seq<Seq<char>>, bool),
> {
    let before = installs_for(entries, stage.done);
    if stage.work is Some && (stage.work->0 is RecordUpdate || stage.work->0 is Verify) {
        let e = entries[stage.done.len() as int];
        before.push((install::args_for(e.owner, e.repo, e.requested_ref), true))
    } else {
        before
    }
}

proof fn lemma_onward_planned(
    cfg: ConfigView,
    entries: Seq<PlanEntryView>,
    mode: Mode,
    lines: Seq<LineView>,
    done: Seq<SettledView>,
    step: StepView,
)
    requires
        !mode.interactive(),
        done.len() < entries.len(),
        as_planned(entries, done),
        step.work matches WorkView::Settle(o) ==> (of_install(o)
            <==> entries[done.len() as int].action == Action::Update),
        !(step.work is Settle) ==> work_is_planned(
            entries,
            (StageView { lines, done, work: Some(step.work) }),
        ),
    ensures
        ({
            let r = onward(cfg, entries, mode, lines, done, step);
            &&& as_planned(entries, r.done)
            &&& work_is_planned(entries, r)
            &&& installs_at(entries, r) == (match step.work {
                WorkView::Settle(o) => installs_for(
                    entries,
                    done.push(settled(entries[done.len() as int], o)),
                ),
                _ => installs_at(entries, (StageView { lines, done, work: Some(step.work) })),
            })
        }),
    decreases entries.len() - done.len(),
{
    if let WorkView::Settle(outcome) = step.work {
        let more = done.push(settled(entries[done.len() as int], outcome));
        assert forall|i: int| 0 <= i < more.len() implies (of_install((#[trigger] more[i]).outcome)
            <==> entries[i].action == Action::Update) by {
            if i < done.len() {
                assert(more[i] == done[i]);
            }
        }
        if more.len() < entries.len() {
            let e = entries[more.len() as int];
            let next = apply::beginning(cfg, e, mode);
            apply::installs_are_planned(cfg, e, mode);
            lemma_onward_planned(cfg, entries, mode, lines + step.lines, more, next);
            if let WorkView::Settle(o) = next.work {
                let further = more.push(settled(e, o));
                assert(further.drop_last() =~= more);
            }
        }
    }
}

proof fn lemma_played_planned(
    cfg: ConfigView,
    entries: Seq<PlanEntryView>,
    mode: Mode,
    bin: Seq<char>,
    events: Seq<Event>,
)
    requires
        !mode.interactive(),
    ensures
        ({
            let p = played(cfg, entries, mode, bin, events);
            &&& as_planned(entries, p.stage.done)
            &&& work_is_planned(entries, p.stage)
            &&& p.installs == installs_at(entries, p.stage)
        }),
    decreases events.len(),
{
    let none = Seq::<SettledView>::empty();
    assert(installs_for(entries, none) =~= Seq::empty());
    if events.len() == 0 {
        if entries.len() > 0 {
            let step = apply::beginning(cfg, entries[0], mode);
            apply::installs_are_planned(cfg, entries[0], mode);
            lemma_onward_planned(cfg, entries, mode, Seq::empty(), none, step);
            if let WorkView::Settle(o) = step.work {
                assert(none.push(settled(entries[0], o)).drop_last() =~= none);
            }
        }
    } else {
        let front = events.drop_last();
        let event = events.last();
        lemma_played_planned(cfg, entries, mode, bin, front);
        lemma_played_order(cfg, entries, mode, bin, front);
        let before = played(cfg, entries, mode, bin, front);
        if let Some(work) = before.stage.work {
            let done = before.stage.done;
            let e = entries[done.len() as int];
            let step = apply::following(e, mode, bin, work, event);
            lemma_onward_planned(cfg, entries, mode, Seq::empty(), done, step);
            if let WorkView::Settle(o) = step.work {
                assert(done.push(settled(e, o)).drop_last() =~= done);
            }
        }
    }
}

/// Where no one can be asked, a run that is at its end has made one install for
/// each planned update, in the order of the plan and at the ref that the plugin
/// was installed at, and no other. An entry is updated where its install
/// succeeded and failed where it did not; no other entry is either.
pub proof fn planned_updates_are_installed_once(
    cfg: ConfigView,
    entries: Seq<PlanEntryView>,
    mode: Mode,
    bin: Seq<char>,
    events: Seq<Event>,
)
    requires
        !mode.interactive(),
        played(cfg, entries, mode, bin, events).stage.work is None,
    ensures
        ({
            let p = played(cfg, entries, mode, bin, events);
            &&& p.installs == installs_for(entries, p.stage.done)
            &&& p.stage.done.len() == entries.len()
            &&& forall|i: int|
                0 <= i < entries.len() ==> (of_install((#[trigger] p.stage.done[i]).outcome)
                    <==> entries[i].action == Action::Update)
        }),
{
    lemma_played_order(cfg, entries, mode, bin, events);
    lemma_played_planned(cfg, entries, mode, bin, events);
}

/// What the plugins from one position up to another print when they are begun, in
/// order.
pub open spec fn begun_lines(
    cfg: ConfigView,
    entries: Seq<PlanEntryView>,
    mode: Mode,
    from: int,
    to: int,
) -> Seq<LineView>
    decreases to - from,
{
    if from >= to {
        Seq::empty()
    } else {
        apply::beginning(cfg, entries[from], mode).lines + begun_lines(
            cfg,
            entries,
            mode,
            from + 1,
            to,
        )
    }
}

proof fn lemma_onward(
    cfg: ConfigView,
    entries: Seq<PlanEntryView>,
    mode: Mode,
    lines: Seq<LineView>,
    done: Seq<SettledView>,
    step: StepView,
)
    requires
        done.len() < entries.len(),
    ensures
        ({
            let r = onward(cfg, entries, mode, lines, done, step);
            let at = done.len() as int;
            let begun = if r.done.len() < entries.len() {
                r.done.len() as int + 1
            } else {
                r.done.len() as int
            };
            &&& r.lines == lines + step.lines + begun_lines(cfg, entries, mode, at + 1, begun)
            &&& at <= r.done.len() <= entries.len()
            &&& forall|i: int| 0 <= i < at ==> (#[trigger] r.done[i]) == done[i]
            &&& step.work matches WorkView::Settle(o) ==> r.done.len() > at && r.done[at]
                == settled(entries[at], o)
            &&& !(step.work is Settle) ==> r.done == done && r.work == Some(step.work)
            &&& forall|i: int|
                at < i < r.done.len() ==> (#[trigger] r.done[i]).plugin_id == entries[i].plugin_id
                    && apply::beginning(cfg, entries[i], mode).work == WorkView::Settle(
                    r.done[i].outcome,
                )
            &&& r.done.len() > at && r.done.len() < entries.len() ==> r.work == Some(
                apply::beginning(cfg, entries[r.done.len() as int], mode).work,
            ) && !(r.work->0 is Settle)
            &&& r.done.len() == entries.len() ==> r.work is None
        }),
    decreases entries.len() - done.len(),
{
    let printed = lines + step.lines;
    let at = done.len() as int;
    if let WorkView::Settle(o) = step.work {
        let more = done.push(settled(entries[at], o));
        if more.len() < entries.len() {
            let next = apply::beginning(cfg, entries[at + 1], mode);
            lemma_onward(cfg, entries, mode, printed, more, next);
            let r = onward(cfg, entries, mode, printed, more, next);
            let begun = if r.done.len() < entries.len() {
                r.done.len() as int + 1
            } else {
                r.done.len() as int
            };
            assert(r == onward(cfg, entries, mode, lines, done, step));
            assert(r.lines =~= printed + begun_lines(cfg, entries, mode, at + 1, begun));
            assert(r.done[at] == more[at]);
            assert forall|i: int| 0 <= i < at implies (#[trigger] r.done[i]) == done[i] by {
                assert(r.done[i] == more[i]);
            }
        } else {
            assert(begun_lines(cfg, entries, mode, at + 1, at + 1) =~= Seq::empty());
            assert(printed + Seq::<LineView>::empty() =~= printed);
        }
    } else {
        assert(begun_lines(cfg, entries, mode, at + 1, at + 1) =~= Seq::empty());
        assert(printed + Seq::<LineView>::empty() =~= printed);
    }
}

/// A run begins with the first plugin and goes on to the next as long as they are
/// settled at once, as applying them one by one says; it stops at the first that
/// is not, or behind the last one. Everything that is printed of them on the way
/// is printed, in order.
pub proof fn runs_begin_plugin_by_plugin(
    cfg: &Config,
    entries: &Vec<PlanEntry>,
    mode: Mode,
    r: Stage,
)
    requires
        call_ensures(start, (cfg, entries, mode), r),
    ensures
        ({
            let c = cfg.deep_view();
            let es = entries.deep_view();
            let stage = r.deep_view();
            let n = stage.done.len() as int;
            &&& n <= es.len()
            &&& forall|i: int|
                0 <= i < n ==> (#[trigger] stage.done[i]).plugin_id == es[i].plugin_id
                    && apply::beginning(c, es[i], mode).work == WorkView::Settle(
                    stage.done[i].outcome,
                )
            &&& n == es.len() ==> stage.work is None && stage.lines == begun_lines(
                c,
                es,
                mode,
                0,
                n,
            )
            &&& n < es.len() ==> stage.work == Some(apply::beginning(c, es[n], mode).work) && !(
            stage.work->0 is Settle) && stage.lines == begun_lines(c, es, mode, 0, n + 1)
        }),
{
    let c = cfg.deep_view();
    let es = entries.deep_view();
    let stage = r.deep_view();
    if es.len() > 0 {
        let first = apply::beginning(c, es[0], mode);
        lemma_onward(c, es, mode, Seq::empty(), Seq::empty(), first);
        let n = stage.done.len() as int;
        let to = if n < es.len() {
            n + 1
        } else {
            n
        };
        assert(Seq::<LineView>::empty() + first.lines + begun_lines(c, es, mode, 1, to)
            =~= begun_lines(c, es, mode, 0, to));
    }
}

/// An event goes to the first plugin that is not settled, and to no other. As
/// long as there is more to do with it, the run stays with it; once it is settled
/// the next ones are begun. Everything that is printed on the way is printed, in
/// order, and what is settled stays as it is.
pub proof fn events_go_to_the_plugin_at_work(
    cfg: &Config,
    entries: &Vec<PlanEntry>,
    mode: Mode,
    bin: &str,
    stage: Stage,
    event: &Event,
    r: Stage,
)
    requires
        call_ensures(advance, (cfg, entries, mode, bin, stage, event), r),
    ensures
        ({
            let c = cfg.deep_view();
            let es = entries.deep_view();
            let before = stage.deep_view();
            let after = r.deep_view();
            let at = before.done.len() as int;
            let n = after.done.len() as int;
            let busy = before.work is Some && at < es.len();
            let step = apply::following(es[at], mode, bin@, before.work->0, *event);
            let more = begun_lines(
                c,
                es,
                mode,
                at + 1,
                if n < es.len() {
                    n + 1
                } else {
                    n
                },
            );
            &&& !busy ==> after.done == before.done && after.work == before.work
                && after.lines.len() == 0
            &&& forall|i: int| 0 <= i < at ==> (#[trigger] after.done[i]) == before.done[i]
            &&& busy && !(step.work is Settle) ==> after.done == before.done && after.work == Some(
                step.work,
            ) && after.lines == step.lines
            &&& busy && step.work is Settle ==> {
                &&& at < n <= es.len()
                &&& after.done[at].plugin_id == es[at].plugin_id
                &&& after.done[at].outcome == step.work->Settle_0
                &&& forall|i: int|
                    at < i < n ==> (#[trigger] after.done[i]).plugin_id == es[i].plugin_id
                        && apply::beginning(c, es[i], mode).work == WorkView::Settle(
                        after.done[i].outcome,
                    )
                &&& n == es.len() ==> after.work is None
                &&& n < es.len() ==> after.work == Some(apply::beginning(c, es[n], mode).work)
                &&& after.lines == step.lines + more
            }
        }),
{
    let c = cfg.deep_view();
    let es = entries.deep_view();
    let before = stage.deep_view();
    let after = r.deep_view();
    let at = before.done.len() as int;
    if before.work is Some && at < es.len() {
        let step = apply::following(es[at], mode, bin@, before.work->0, *event);
        lemma_onward(c, es, mode, Seq::empty(), before.done, step);
        assert(Seq::<LineView>::empty() + step.lines =~= step.lines);
        if !(step.work is Settle) {
            assert(begun_lines(c, es, mode, at + 1, at + 1) =~= Seq::empty());
            assert(step.lines + Seq::<LineView>::empty() =~= step.lines);
        }
    }
}

} // verus!
