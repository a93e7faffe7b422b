//! Sorting the installed plugins: those whose state is clear at once and those
//! whose upstream has to be asked.

use crate::progress;
use crate::progress::Progress;
use crate::progress::ProgressView;
use crate::registry;
use crate::registry::Plugin;
use crate::registry::PluginView;
use crate::registry::Source;
use crate::registry::SourceView;
use crate::remote::JobResult;
use crate::remote::JobResultView;
use crate::remote::RemoteJob;
use crate::remote::RemoteJobView;
use crate::state;
use crate::state::State;
use crate::state::StateEntryView;
use crate::text;
use crate::updater;
use crate::updater::PluginStatus;
use crate::updater::PluginStatusView;
use crate::updater::RefKind;
use crate::updater::Status;
use vstd::prelude::*;

verus! {

/// The place of one installed plugin in a check.
#[derive(Debug)]
pub enum Slot {
    /// Not checked: another kind of plugin, or not the one that was asked for.
    Skipped,
    /// The state is known.
    Settled(PluginStatus),
    /// Upstream has to be asked.
    Pending(RemoteJob),
}

/// A `Slot` as values.
pub enum SlotView {
    Skipped,
    Settled(PluginStatusView),
    Pending(RemoteJobView),
}

impl DeepView for Slot {
    type V = SlotView;

    open spec fn deep_view(&self) -> SlotView {
        match self {
            Slot::Skipped => SlotView::Skipped,
            Slot::Settled(s) => SlotView::Settled(s.deep_view()),
            Slot::Pending(j) => SlotView::Pending(j.deep_view()),
        }
    }
}

/// Whether a plugin was installed from GitHub.
pub open spec fn is_github(p: PluginView) -> bool {
    p.source is Some && p.source->0.kind == registry::GITHUB_KIND@
}

/// A plugin that cannot be checked for what the registry says of it.
pub open spec fn unusable(p: PluginView, src: SourceView, error: Seq<char>) -> PluginStatusView {
    PluginStatusView {
        plugin_id: p.plugin_id,
        owner: text::or_empty(src.owner),
        repo: text::or_empty(src.repo),
        version: p.version,
        installed_sha: text::or_empty(src.resolved_commit),
        remote_sha: None,
        remote_version: None,
        update_available: false,
        status: Status::Unknown,
        ref_kind: updater::kind_of(src.requested_ref),
        requested_ref: src.requested_ref,
        error: Some(error),
        note: None,
    }
}

/// Whether the newest entry of a plugin in the trail is a rollback.
pub open spec fn rolled_back(trail: Option<Seq<StateEntryView>>, plugin_id: Seq<char>) -> bool {
    &&& trail is Some
    &&& state::latest(trail->0, plugin_id) is Some
    &&& state::latest(trail->0, plugin_id)->0.result == "rolled_back"@
}

/// Why a plugin is pinned to a commit: by a rollback, which `resume` undoes, or
/// by how it was installed.
pub open spec fn pin_note(trail: Option<Seq<StateEntryView>>, plugin_id: Seq<char>) -> Seq<char> {
    if rolled_back(trail, plugin_id) {
        "pinned by rollback; run `resume` to rejoin the tracking ref"@
    } else {
        "pinned to a commit; not auto-updated (run `herdr-auto-update update` from a terminal to update it interactively)"@
    }
}

/// A plugin that is pinned to a commit: the pin is the installed commit, so it
/// is where its upstream is.
pub open spec fn pinned(
    p: PluginView,
    owner: Seq<char>,
    repo: Seq<char>,
    commit: Seq<char>,
    requested_ref: Option<Seq<char>>,
    note: Seq<char>,
) -> PluginStatusView {
    PluginStatusView {
        plugin_id: p.plugin_id,
        owner,
        repo,
        version: p.version,
        installed_sha: commit,
        remote_sha: Some(commit),
        remote_version: None,
        update_available: false,
        status: Status::Same,
        ref_kind: RefKind::Commit,
        requested_ref,
        error: None,
        note: Some(note),
    }
}

/// The place of a plugin that takes part in a check.
pub open spec fn slot_for(p: PluginView, trail: Option<Seq<StateEntryView>>) -> SlotView {
    if !is_github(p) {
        SlotView::Skipped
    } else {
        let src = p.source->0;
        match (src.owner, src.repo, src.resolved_commit) {
            (Some(owner), Some(repo), Some(commit)) => if !registry::valid_repo(owner, repo) {
                SlotView::Settled(
                    unusable(p, src, "invalid owner/repo recorded in registry"@),
                )
            } else if updater::kind_of(src.requested_ref) == RefKind::Commit {
                SlotView::Settled(
                    pinned(
                        p,
                        owner,
                        repo,
                        commit,
                        src.requested_ref,
                        pin_note(trail, p.plugin_id),
                    ),
                )
            } else {
                SlotView::Pending(
                    RemoteJobView {
                        plugin_id: p.plugin_id,
                        owner,
                        repo,
                        version: p.version,
                        installed_sha: commit,
                        requested_ref: src.requested_ref,
                    },
                )
            },
            _ => SlotView::Settled(
                unusable(p, src, "github source missing owner/repo/commit fields"@),
            ),
        }
    }
}

/// Whether a plugin is asked for: all are, or the one with the id.
pub open spec fn is_wanted(p: PluginView, only: Option<Seq<char>>) -> bool {
    only is None || p.plugin_id == only->0
}

/// Why the one plugin that is asked for cannot be checked. An id that is not in
/// the registry, or of a plugin that did not come from GitHub, is an error, so
/// that asking for one plugin never does nothing in silence.
pub open spec fn refusal(plugins: Seq<PluginView>, only: Option<Seq<char>>) -> Option<Seq<char>> {
    match only {
        None => None,
        Some(id) => if exists|i: int|
            0 <= i < plugins.len() && (#[trigger] plugins[i]).plugin_id == id && !is_github(
                plugins[i],
            ) {
            Some("plugin '"@ + id + "' is not a GitHub-installed plugin"@)
        } else if forall|i: int|
            0 <= i < plugins.len() ==> (#[trigger] plugins[i]).plugin_id != id {
            Some("plugin '"@ + id + "' not found in the herdr registry"@)
        } else {
            None
        },
    }
}

/// The places of the plugins, in the order of the registry.
pub open spec fn slots_of(
    plugins: Seq<PluginView>,
    trail: Option<Seq<StateEntryView>>,
    only: Option<Seq<char>>,
) -> Seq<SlotView> {
    plugins.map_values(
        |p: PluginView|
            if is_wanted(p, only) {
                slot_for(p, trail)
            } else {
                SlotView::Skipped
            },
    )
}

/// What sorting the plugins comes to: their places, or why the one that is asked
/// for cannot be checked.
pub open spec fn surveyed(
    plugins: Seq<PluginView>,
    trail: Option<Seq<StateEntryView>>,
    only: Option<Seq<char>>,
) -> Result<Seq<SlotView>, Seq<char>> {
    match refusal(plugins, only) {
        Some(e) => Err(e),
        None => Ok(slots_of(plugins, trail, only)),
    }
}

fn unusable_status(p: &Plugin, src: &Source, error: &str) -> (r: PluginStatus)
    ensures
        r.deep_view() == unusable(p.deep_view(), src.deep_view(), error@),
{
    PluginStatus {
        plugin_id: p.plugin_id.clone(),
        owner: text::text_or_empty(&src.owner),
        repo: text::text_or_empty(&src.repo),
        version: text::copy_of(&p.version),
        installed_sha: text::text_or_empty(&src.resolved_commit),
        remote_sha: None,
        remote_version: None,
        update_available: false,
        status: Status::Unknown,
        ref_kind: updater::ref_kind(text::borrowed(&src.requested_ref)),
        requested_ref: text::copy_of(&src.requested_ref),
        error: Some(error.to_owned()),
        note: None,
    }
}

/// The entries of the trail of updates as values.
pub open spec fn trail_of(trail: Option<&State>) -> Option<Seq<StateEntryView>> {
    match trail {
        Some(st) => Some(st.entries.deep_view()),
        None => None,
    }
}

fn note_for(trail: Option<&State>, plugin_id: &str) -> (r: String)
    ensures
        r@ == pin_note(trail_of(trail), plugin_id@),
{
    if let Some(st) = trail {
        if let Some(e) = st.latest_for(plugin_id) {
            if text::same(e.result.as_str(), "rolled_back") {
                return "pinned by rollback; run `resume` to rejoin the tracking ref".to_owned();
            }
        }
    }
    "pinned to a commit; not auto-updated (run `herdr-auto-update update` from a terminal to update it interactively)".to_owned()
}

fn place(p: &Plugin, src: &Source, trail: Option<&State>) -> (r: Slot)
    requires
        p.deep_view().source == Some(src.deep_view()),
        is_github(p.deep_view()),
    ensures
        r.deep_view() == slot_for(p.deep_view(), trail_of(trail)),
{
    match (&src.owner, &src.repo, &src.resolved_commit) {
        (Some(owner), Some(repo), Some(commit)) => {
            if !registry::valid_github_repo(owner.as_str(), repo.as_str()) {
                return Slot::Settled(
                    unusable_status(p, src, "invalid owner/repo recorded in registry"),
                );
            }
            if updater::ref_kind(text::borrowed(&src.requested_ref)) == RefKind::Commit {
                return Slot::Settled(
                    PluginStatus {
                        plugin_id: p.plugin_id.clone(),
                        owner: owner.clone(),
                        repo: repo.clone(),
                        version: text::copy_of(&p.version),
                        installed_sha: commit.clone(),
                        remote_sha: Some(commit.clone()),
                        remote_version: None,
                        update_available: false,
                        status: Status::Same,
                        ref_kind: RefKind::Commit,
                        requested_ref: text::copy_of(&src.requested_ref),
                        error: None,
                        note: Some(note_for(trail, p.plugin_id.as_str())),
                    },
                );
            }
            Slot::Pending(
                RemoteJob {
                    plugin_id: p.plugin_id.clone(),
                    owner: owner.clone(),
                    repo: repo.clone(),
                    version: text::copy_of(&p.version),
                    installed_sha: commit.clone(),
                    requested_ref: text::copy_of(&src.requested_ref),
                },
            )
        },
        _ => Slot::Settled(
            unusable_status(p, src, "github source missing owner/repo/commit fields"),
        ),
    }
}

fn not_github(id: &str) -> (r: String)
    ensures
        r@ == "plugin '"@ + id@ + "' is not a GitHub-installed plugin"@,
{
    let mut e = "plugin '".to_owned();
    e.append(id);
    e.append("' is not a GitHub-installed plugin");
    e
}

/// Sorts the installed plugins. With `only`, all but the plugin with that id are
/// skipped, and it is an error where there is no such plugin from GitHub.
pub fn survey(plugins: &Vec<Plugin>, trail: Option<&State>, only: Option<&str>) -> (r: Result<
    Vec<Slot>,
    String,
>)
    ensures
        (match r {
            Ok(slots) => Ok::<Seq<SlotView>, Seq<char>>(slots.deep_view()),
            Err(e) => Err::<Seq<SlotView>, Seq<char>>(e@),
        }) == surveyed(plugins.deep_view(), trail_of(trail), only.deep_view()),
{
    let ghost all = plugins.deep_view();
    let ghost wanted = only.deep_view();
    let ghost goal = slots_of(all, trail_of(trail), wanted);
    let mut slots: Vec<Slot> = Vec::new();
    let mut matched = false;
    let mut i: usize = 0;
    while i < plugins.len()
        invariant
            all == plugins.deep_view(),
            wanted == only.deep_view(),
            goal == slots_of(all, trail_of(trail), wanted),
            i <= plugins.len(),
            slots.len() == i,
            forall|j: int| 0 <= j < i ==> #[trigger] slots@[j].deep_view() == goal[j],
            wanted is Some ==> (matched <==> exists|j: int|
                0 <= j < i && (#[trigger] all[j]).plugin_id == wanted->0),
            wanted is Some ==> forall|j: int|
                0 <= j < i && (#[trigger] all[j]).plugin_id == wanted->0 ==> is_github(all[j]),
        decreases plugins.len() - i,
    {
        let p = &plugins[i];
        assert(all[i as int] == p.deep_view());
        i = i + 1;
        if let Some(id) = only {
            if !text::same(p.plugin_id.as_str(), id) {
                slots.push(Slot::Skipped);
                continue;
            }
            matched = true;
        }
        if let Some(src) = &p.source {
            if text::same(src.kind.as_str(), registry::GITHUB_KIND) {
                slots.push(place(p, src, trail));
                continue;
            }
        }
        if let Some(id) = only {
            assert(all[i - 1].plugin_id == id@);
            return Err(not_github(id));
        }
        slots.push(Slot::Skipped);
    }
    if let Some(id) = only {
        if !matched {
            let mut e = "plugin '".to_owned();
            e.append(id);
            e.append("' not found in the herdr registry");
            return Err(e);
        }
    }
    assert(slots.deep_view() =~= goal);
    Ok(slots)
}

/// The positions of the plugins whose upstream has to be asked, in order.
pub open spec fn pending(slots: Seq<SlotView>) -> Seq<usize>
    decreases slots.len(),
{
    if slots.len() == 0 {
        Seq::empty()
    } else if slots.last() is Pending {
        pending(slots.drop_last()).push((slots.len() - 1) as usize)
    } else {
        pending(slots.drop_last())
    }
}

/// The positions of the plugins whose upstream has to be asked, in order.
pub fn pending_slots(slots: &Vec<Slot>) -> (r: Vec<usize>)
    ensures
        r@ == pending(slots.deep_view()),
{
    let ghost all = slots.deep_view();
    let mut r: Vec<usize> = Vec::new();
    let mut i: usize = 0;
    while i < slots.len()
        invariant
            all == slots.deep_view(),
            i <= slots.len(),
            r@ == pending(all.take(i as int)),
        decreases slots.len() - i,
    {
        assert(all.take(i + 1).drop_last() =~= all.take(i as int));
        assert(all.take(i + 1).last() == slots@[i as int].deep_view());
        if let Slot::Pending(_) = &slots[i] {
            r.push(i);
        }
        i = i + 1;
    }
    assert(all.take(slots.len() as int) =~= all);
    r
}

/// What has to be asked for the plugin at a position; none where its place waits
/// for nothing.
pub fn job_at(slots: &Vec<Slot>, index: usize) -> (r: Option<RemoteJob>)
    ensures
        r.deep_view() == (if index < slots.deep_view().len() {
            match slots.deep_view()[index as int] {
                SlotView::Pending(job) => Some(job),
                _ => None,
            }
        } else {
            None
        }),
{
    if index >= slots.len() {
        return None;
    }
    match &slots[index] {
        Slot::Pending(job) => Some(job.clone()),
        _ => None,
    }
}

/// How many checks run at once: one per plugin, but no more than configured.
pub open spec fn workers(jobs: nat, max_concurrency: nat) -> nat {
    let most = if max_concurrency == 0 {
        1nat
    } else {
        max_concurrency
    };
    if jobs <= most {
        jobs
    } else {
        most
    }
}

/// How many checks run at once.
pub fn worker_count(jobs: usize, max_concurrency: usize) -> (r: usize)
    ensures
        r == workers(jobs as nat, max_concurrency as nat),
{
    let most: usize = if max_concurrency == 0 {
        1
    } else {
        max_concurrency
    };
    if jobs <= most {
        jobs
    } else {
        most
    }
}

/// No more checks run at once than configured, or one; and where there is work
/// there is someone to do it.
pub proof fn concurrency_is_bounded(jobs: nat, max_concurrency: nat)
    ensures
        workers(jobs, max_concurrency) <= jobs,
        max_concurrency > 0 ==> workers(jobs, max_concurrency) <= max_concurrency,
        workers(jobs, max_concurrency) == 0 <==> jobs == 0,
        workers(jobs, 0) <= 1,
{
}

/// The state of a plugin whose upstream was asked.
pub open spec fn status_of(job: RemoteJobView, result: JobResultView) -> PluginStatusView {
    PluginStatusView {
        plugin_id: job.plugin_id,
        owner: job.owner,
        repo: job.repo,
        version: job.version,
        installed_sha: job.installed_sha,
        remote_sha: result.remote_sha,
        remote_version: result.remote_version,
        update_available: result.status == Status::Behind,
        status: result.status,
        ref_kind: updater::kind_of(job.requested_ref),
        requested_ref: job.requested_ref,
        error: result.error,
        note: None,
    }
}

/// The state of a plugin whose upstream was asked.
pub fn job_status(job: &RemoteJob, result: &JobResult) -> (r: PluginStatus)
    ensures
        r.deep_view() == status_of(job.deep_view(), result.deep_view()),
{
    PluginStatus {
        plugin_id: job.plugin_id.clone(),
        owner: job.owner.clone(),
        repo: job.repo.clone(),
        version: text::copy_of(&job.version),
        installed_sha: job.installed_sha.clone(),
        remote_sha: text::copy_of(&result.remote_sha),
        remote_version: text::copy_of(&result.remote_version),
        update_available: result.status == Status::Behind,
        status: result.status,
        ref_kind: updater::ref_kind(text::borrowed(&job.requested_ref)),
        requested_ref: text::copy_of(&job.requested_ref),
        error: text::copy_of(&result.error),
        note: None,
    }
}

/// The places once the upstream of the plugin at a position was asked. A place
/// that waits for nothing stays as it is.
pub open spec fn settled_at(slots: Seq<SlotView>, index: int, result: JobResultView) -> Seq<
    SlotView,
> {
    if 0 <= index < slots.len() {
        match slots[index] {
            SlotView::Pending(job) => slots.update(
                index,
                SlotView::Settled(status_of(job, result)),
            ),
            _ => slots,
        }
    } else {
        slots
    }
}

/// Settles the place at `index` with what asking upstream came to, and marks its
/// row in the panel done. Returns what is to be written.
pub fn settle(
    slots: &mut Vec<Slot>,
    index: usize,
    result: &JobResult,
    panel: &mut Progress,
) -> (r: String)
    requires
        old(panel).deep_view().valid(),
    ensures
        final(slots).deep_view() == settled_at(
            old(slots).deep_view(),
            index as int,
            result.deep_view(),
        ),
        final(panel).deep_view().valid(),
        index < old(slots).deep_view().len() && old(slots).deep_view()[index as int] is Pending
            ==> ({
            let s = status_of(
                old(slots).deep_view()[index as int]->Pending_0,
                result.deep_view(),
            );
            (final(panel).deep_view(), r@) == progress::with_done(
                old(panel).deep_view(),
                index as int,
                s.error is None,
                updater::line_of(s),
            )
        }),
        !(index < old(slots).deep_view().len() && old(slots).deep_view()[index as int] is Pending)
            ==> final(panel).deep_view() == old(panel).deep_view() && r@ == Seq::<char>::empty(),
{
    let ghost before = slots.deep_view();
    if index >= slots.len() {
        return String::new();
    }
    let status = match &slots[index] {
        Slot::Pending(job) => {
            assert(before[index as int] == SlotView::Pending(job.deep_view()));
            job_status(job, result)
        },
        _ => {
            return String::new();
        },
    };
    let written = panel.done(index, status.error.is_none(), updater::status_line(&status));
    let ghost s = status.deep_view();
    slots.set(index, Slot::Settled(status));
    assert(slots.deep_view() =~= before.update(index as int, SlotView::Settled(s)));
    written
}

/// What a panel shows, and what is written, once the first `n` places were put
/// on it: a row for each plugin that takes part, done where its state is known.
pub open spec fn shown(p: ProgressView, slots: Seq<SlotView>, n: int) -> (ProgressView, Seq<char>)
    decreases n,
{
    if n <= 0 {
        (p, Seq::empty())
    } else {
        let (before, written) = shown(p, slots, n - 1);
        match slots[n - 1] {
            SlotView::Skipped => (before, written),
            SlotView::Pending(job) => (
                progress::with_row(before, n - 1, job.plugin_id),
                written,
            ),
            SlotView::Settled(s) => {
                let (after, more) = progress::with_done(
                    progress::with_row(before, n - 1, s.plugin_id),
                    n - 1,
                    s.error is None,
                    updater::line_of(s),
                );
                (after, written + more)
            },
        }
    }
}

/// Puts the places of the plugins on a new panel. Returns the panel and what is
/// to be written.
pub fn open_panel(slots: &Vec<Slot>, json: bool, terminal: bool) -> (r: (Progress, String))
    ensures
        (r.0.deep_view(), r.1@) == shown(
            progress::fresh(slots@.len(), json, terminal),
            slots.deep_view(),
            slots@.len() as int,
        ),
        r.0.deep_view().valid(),
{
    let ghost start = progress::fresh(slots@.len(), json, terminal);
    let ghost ss = slots.deep_view();
    let mut panel = Progress::new(slots.len(), json, terminal);
    let mut written = String::new();
    let mut i: usize = 0;
    while i < slots.len()
        invariant
            ss == slots.deep_view(),
            i <= slots.len(),
            panel.deep_view().valid(),
            panel.deep_view().rows.len() == slots.len(),
            panel.deep_view().visible <= i,
            (panel.deep_view(), written@) == shown(start, ss, i as int),
        decreases slots.len() - i,
    {
        assert(ss[i as int] == slots@[i as int].deep_view());
        match &slots[i] {
            Slot::Skipped => {},
            Slot::Pending(job) => {
                panel.row(i, job.plugin_id.as_str());
            },
            Slot::Settled(s) => {
                panel.row(i, s.plugin_id.as_str());
                let more = panel.done(i, s.error.is_none(), updater::status_line(s));
                written.append(more.as_str());
            },
        }
        i = i + 1;
    }
    (panel, written)
}

/// The states that are known, in order.
pub open spec fn known(slots: Seq<SlotView>) -> Seq<PluginStatusView>
    decreases slots.len(),
{
    if slots.len() == 0 {
        Seq::empty()
    } else {
        match slots.last() {
            SlotView::Settled(s) => known(slots.drop_last()).push(s),
            _ => known(slots.drop_last()),
        }
    }
}

/// The states that are known, in the order of the registry.
pub fn statuses(slots: Vec<Slot>) -> (r: Vec<PluginStatus>)
    ensures
        r.deep_view() == known(slots.deep_view()),
{
    let ghost all = slots.deep_view();
    let mut r: Vec<PluginStatus> = Vec::new();
    let mut rest: Vec<Slot> = slots;
    assert(all.take(rest.len() as int) =~= all);
    assert(known(all) =~= known(all) + r.deep_view().reverse());
    while rest.len() > 0
        invariant
            rest.deep_view() == all.take(rest.len() as int),
            rest.len() <= all.len(),
            known(all) == known(rest.deep_view()) + r.deep_view().reverse(),
        decreases rest.len(),
    {
        let ghost before = rest.deep_view();
        let ghost found = r.deep_view();
        if let Some(slot) = rest.pop() {
            assert(rest.deep_view() =~= before.drop_last());
            assert(before.last() == slot.deep_view());
            assert(before.drop_last() =~= all.take(rest.len() as int));
            if let Slot::Settled(s) = slot {
                r.push(s);
                assert(r.deep_view().reverse() =~= seq![s.deep_view()] + found.reverse());
                assert(known(before) =~= known(rest.deep_view()).push(s.deep_view()));
                assert(known(before) + found.reverse() =~= known(rest.deep_view())
                    + r.deep_view().reverse());
            }
        }
    }
    assert(known(all) =~= r.deep_view().reverse());
    let ghost backwards = r.deep_view();
    let turned = turn(r);
    assert(turned.deep_view() =~= backwards.reverse());
    turned
}

fn turn(v: Vec<PluginStatus>) -> (r: Vec<PluginStatus>)
    ensures
        r.deep_view() == v.deep_view().reverse(),
{
    let ghost all = v@;
    let mut rest: Vec<PluginStatus> = v;
    let mut r: Vec<PluginStatus> = Vec::new();
    while rest.len() > 0
        invariant
            rest@ == all.take(rest.len() as int),
            rest.len() + r.len() == all.len(),
            forall|j: int| 0 <= j < r.len() ==> #[trigger] r@[j] == all[all.len() - 1 - j],
        decreases rest.len(),
    {
        if let Some(s) = rest.pop() {
            r.push(s);
        }
        assert(rest@ =~= all.take(rest.len() as int));
    }
    assert(r.deep_view() =~= v.deep_view().reverse());
    r
}

/// A plugin that is pinned to a commit is never asked for upstream and never
/// has an update.
pub proof fn commit_pins_stay(p: PluginView, trail: Option<Seq<StateEntryView>>)
    requires
        is_github(p),
        updater::kind_of(p.source->0.requested_ref) == RefKind::Commit,
    ensures
        slot_for(p, trail) matches SlotView::Settled(s) && !s.update_available && (s.error is None
            ==> s.status == Status::Same),
{
}

/// Only valid names reach an address or an argument: every plugin whose upstream
/// is asked has a valid owner and repository, and so has every plugin whose
/// state is known without an error.
pub proof fn names_are_valid(p: PluginView, trail: Option<Seq<StateEntryView>>)
    ensures
        slot_for(p, trail) matches SlotView::Pending(job) ==> registry::valid_repo(
            job.owner,
            job.repo,
        ),
        slot_for(p, trail) matches SlotView::Settled(s) ==> (s.error is None
            ==> registry::valid_repo(s.owner, s.repo)),
{
}

/// Asking upstream keeps what the registry says of a plugin.
pub proof fn asking_keeps_the_plugin(
    p: PluginView,
    trail: Option<Seq<StateEntryView>>,
    result: JobResultView,
)
    requires
        slot_for(p, trail) is Pending,
    ensures
        ({
            let s = status_of(slot_for(p, trail)->Pending_0, result);
            &&& s.plugin_id == p.plugin_id
            &&& s.version == p.version
            &&& Some(s.owner) == p.source->0.owner
            &&& Some(s.repo) == p.source->0.repo
            &&& Some(s.installed_sha) == p.source->0.resolved_commit
            &&& s.requested_ref == p.source->0.requested_ref
            &&& s.ref_kind != RefKind::Commit
            &&& s.update_available <==> s.status == Status::Behind
        }),
{
}

/// Asking for one plugin that is accepted checks that plugin, and no other.
pub proof fn only_checks_that_plugin(
    plugins: Seq<PluginView>,
    trail: Option<Seq<StateEntryView>>,
    id: Seq<char>,
)
    requires
        surveyed(plugins, trail, Some(id)) is Ok,
    ensures
        ({
            let slots = surveyed(plugins, trail, Some(id))->Ok_0;
            &&& slots.len() == plugins.len()
            &&& forall|i: int|
                0 <= i < slots.len() ==> (#[trigger] slots[i] is Skipped <==> plugins[i].plugin_id
                    != id)
            &&& exists|i: int| 0 <= i < slots.len() && !(#[trigger] slots[i] is Skipped)
        }),
{
    let slots = surveyed(plugins, trail, Some(id))->Ok_0;
    let k = choose|i: int| 0 <= i < plugins.len() && (#[trigger] plugins[i]).plugin_id == id;
    assert forall|i: int| 0 <= i < slots.len() implies (#[trigger] slots[i] is Skipped
        <==> plugins[i].plugin_id != id) by {
        if plugins[i].plugin_id == id {
            assert(is_github(plugins[i]));
        }
    }
    assert(!(slots[k] is Skipped));
}

proof fn lemma_pending_positions(slots: Seq<SlotView>)
    requires
        slots.len() <= usize::MAX,
    ensures
        forall|k: int|
            0 <= k < pending(slots).len() ==> (#[trigger] pending(slots)[k]) < slots.len()
                && slots[pending(slots)[k] as int] is Pending,
        forall|a: int, b: int|
            0 <= a < b < pending(slots).len() ==> #[trigger] pending(slots)[a]
                < #[trigger] pending(slots)[b],
        forall|i: int|
            0 <= i < slots.len() && #[trigger] slots[i] is Pending ==> pending(slots).contains(
                i as usize,
            ),
    decreases slots.len(),
{
    if slots.len() > 0 {
        let front = slots.drop_last();
        lemma_pending_positions(front);
        let was = pending(front);
        let now = pending(slots);
        assert forall|k: int| 0 <= k < now.len() implies (#[trigger] now[k]) < slots.len()
            && slots[now[k] as int] is Pending by {
            if k < was.len() {
                assert(now[k] == was[k]);
                assert(front[was[k] as int] is Pending);
            }
        }
        assert forall|a: int, b: int| 0 <= a < b < now.len() implies #[trigger] now[a]
            < #[trigger] now[b] by {
            assert(now[a] == was[a]);
            if b < was.len() {
                assert(now[b] == was[b]);
            }
        }
        assert forall|i: int| 0 <= i < slots.len() && #[trigger] slots[i] is Pending implies
            now.contains(i as usize) by {
            if i < front.len() {
                assert(front[i] is Pending);
                let k = choose|k: int| 0 <= k < was.len() && was[k] == i as usize;
                assert(now[k] == i as usize);
            } else {
                assert(now[now.len() - 1] == i as usize);
            }
        }
    }
}

/// The work list holds the position of every plugin whose upstream has to be
/// asked, and each of them once.
pub proof fn every_pending_plugin_is_asked_once(slots: Seq<SlotView>)
    requires
        slots.len() <= usize::MAX,
    ensures
        pending(slots).no_duplicates(),
        forall|i: int|
            0 <= i < slots.len() ==> (#[trigger] slots[i] is Pending <==> pending(slots).contains(
                i as usize,
            )),
{
    lemma_pending_positions(slots);
    assert forall|i: int| 0 <= i < slots.len() && pending(slots).contains(i as usize) implies
        #[trigger] slots[i] is Pending by {
        let k = choose|k: int| 0 <= k < pending(slots).len() && pending(slots)[k] == i as usize;
        assert(slots[pending(slots)[k] as int] is Pending);
    }
}

/// The order in which the answers for two plugins arrive does not matter.
pub proof fn answers_commute(
    slots: Seq<SlotView>,
    i: int,
    first: JobResultView,
    j: int,
    second: JobResultView,
)
    requires
        i != j,
    ensures
        settled_at(settled_at(slots, i, first), j, second) == settled_at(
            settled_at(slots, j, second),
            i,
            first,
        ),
{
    assert(settled_at(settled_at(slots, i, first), j, second) =~= settled_at(
        settled_at(slots, j, second),
        i,
        first,
    ));
}

/// Every plugin that was installed from GitHub takes part in a check, and no
/// other. Its upstream is asked exactly where its owner, repository and commit
/// are recorded, its names are valid and it is not pinned to a commit; with a
/// field missing or a name that is not valid, the check of it is an error.
pub proof fn every_github_plugin_takes_part(p: PluginView, trail: Option<Seq<StateEntryView>>)
    ensures
        slot_for(p, trail) is Skipped <==> !(p.source is Some && p.source->0.kind == "github"@),
        p.source matches Some(src) ==> src.kind == "github"@ ==> {
            let recorded = src.owner is Some && src.repo is Some && src.resolved_commit is Some;
            let valid = registry::valid_repo(src.owner->0, src.repo->0);
            let pinned_to_commit = updater::kind_of(src.requested_ref) == RefKind::Commit;
            &&& slot_for(p, trail) is Pending <==> recorded && valid && !pinned_to_commit
            &&& slot_for(p, trail) matches SlotView::Settled(s) ==> {
                &&& s.error is Some <==> !(recorded && valid)
                &&& s.plugin_id == p.plugin_id
                &&& s.version == p.version
                &&& s.requested_ref == src.requested_ref
                &&& s.ref_kind == updater::kind_of(src.requested_ref)
                &&& !s.update_available
                &&& s.remote_version is None
                &&& src.owner is Some ==> s.owner == src.owner->0
                &&& src.repo is Some ==> s.repo == src.repo->0
                &&& src.resolved_commit is Some ==> s.installed_sha == src.resolved_commit->0
                &&& src.owner is None ==> s.owner.len() == 0
                &&& src.repo is None ==> s.repo.len() == 0
                &&& src.resolved_commit is None ==> s.installed_sha.len() == 0
                &&& s.error is Some ==> s.status == Status::Unknown && s.remote_sha is None
                    && s.note is None
                &&& s.error is None ==> s.status == Status::Same && s.remote_sha
                    == src.resolved_commit && s.note is Some
            }
        },
{
}

/// A job asks for the plugin that it is made for: as the registry records it.
pub proof fn jobs_ask_for_their_plugin(p: PluginView, trail: Option<Seq<StateEntryView>>)
    ensures
        slot_for(p, trail) matches SlotView::Pending(job) ==> {
            &&& job.plugin_id == p.plugin_id
            &&& job.version == p.version
            &&& p.source is Some
            &&& p.source->0.owner == Some(job.owner)
            &&& p.source->0.repo == Some(job.repo)
            &&& p.source->0.resolved_commit == Some(job.installed_sha)
            &&& p.source->0.requested_ref == job.requested_ref
        },
{
}

/// Why a check cannot be made is said: which fields are missing, or that a name
/// is not valid.
pub proof fn unusable_plugins_are_told_apart(p: PluginView, trail: Option<Seq<StateEntryView>>)
    ensures
        slot_for(p, trail) matches SlotView::Settled(s) ==> {
            let src = p.source->0;
            let recorded = src.owner is Some && src.repo is Some && src.resolved_commit is Some;
            &&& !recorded ==> s.error == Some("github source missing owner/repo/commit fields"@)
            &&& recorded && !registry::valid_repo(src.owner->0, src.repo->0) ==> s.error == Some(
                "invalid owner/repo recorded in registry"@,
            )
        },
{
}

/// A pin to a commit is put down to a rollback exactly where the last entry of
/// the trail about the plugin is one.
pub proof fn pins_are_put_down_to_rollbacks(trail: Option<Seq<StateEntryView>>, id: Seq<char>)
    ensures
        "pinned by rollback"@.is_prefix_of(pin_note(trail, id)) <==> (trail matches Some(entries)
            && exists|i: int|
            0 <= i < entries.len() && (#[trigger] entries[i]).plugin_id == id && entries[i].result
                == "rolled_back"@ && forall|j: int|
                i < j < entries.len() ==> (#[trigger] entries[j]).plugin_id != id),
        "pinned to a commit"@.is_prefix_of(pin_note(trail, id)) <==> !"pinned by rollback"@.is_prefix_of(
            pin_note(trail, id),
        ),
{
    let note = pin_note(trail, id);
    let p = "pinned by rollback"@;
    let q = "pinned to a commit"@;
    reveal_strlit("pinned by rollback");
    reveal_strlit("pinned to a commit");
    reveal_strlit("pinned by rollback; run `resume` to rejoin the tracking ref");
    reveal_strlit(
        "pinned to a commit; not auto-updated (run `herdr-auto-update update` from a terminal to update it interactively)",
    );
    if rolled_back(trail, id) {
        assert(p =~= note.subrange(0, p.len() as int));
        assert(note[7] == 'b' && q[7] == 't');
        if q.is_prefix_of(note) {
            assert(note.subrange(0, q.len() as int)[7] == note[7]);
        }
    } else {
        assert(q =~= note.subrange(0, q.len() as int));
        assert(note[7] == 't' && p[7] == 'b');
        if p.is_prefix_of(note) {
            assert(note.subrange(0, p.len() as int)[7] == note[7]);
        }
    }
    if let Some(entries) = trail {
        state::the_last_entry_counts(entries, id);
        if exists|i: int|
            0 <= i < entries.len() && (#[trigger] entries[i]).plugin_id == id && entries[i].result
                == "rolled_back"@ && forall|j: int|
                i < j < entries.len() ==> (#[trigger] entries[j]).plugin_id != id {
            let i = choose|i: int|
                0 <= i < entries.len() && (#[trigger] entries[i]).plugin_id == id
                    && entries[i].result == "rolled_back"@ && forall|j: int|
                    i < j < entries.len() ==> (#[trigger] entries[j]).plugin_id != id;
            assert(state::latest(entries, id) == Some(entries[i]));
        }
        if rolled_back(trail, id) {
            let i = lemma_last_about(entries, id);
            assert(entries[i].result == "rolled_back"@);
        }
    }
}

proof fn lemma_last_about(entries: Seq<StateEntryView>, id: Seq<char>) -> (i: int)
    requires
        state::latest(entries, id) is Some,
    ensures
        0 <= i < entries.len(),
        entries[i].plugin_id == id,
        state::latest(entries, id) == Some(entries[i]),
        forall|j: int| i < j < entries.len() ==> (#[trigger] entries[j]).plugin_id != id,
    decreases entries.len(),
{
    if entries.last().plugin_id == id {
        entries.len() - 1
    } else {
        let i = lemma_last_about(entries.drop_last(), id);
        assert forall|j: int| i < j < entries.len() implies (#[trigger] entries[j]).plugin_id
            != id by {
            if j < entries.len() - 1 {
                assert(entries.drop_last()[j] == entries[j]);
            }
        }
        i
    }
}

/// Without an id all plugins are sorted, in the order of the registry, each into
/// its own place, and nothing is refused. With an id the others are skipped.
pub proof fn every_plugin_has_its_place(
    plugins: &Vec<Plugin>,
    trail: Option<&State>,
    only: Option<&str>,
    r: Result<Vec<Slot>, String>,
)
    requires
        call_ensures(survey, (plugins, trail, only), r),
    ensures
        only is None ==> r is Ok,
        r matches Ok(slots) ==> {
            &&& slots@.len() == plugins@.len()
            &&& forall|i: int|
                #![trigger slots@[i]]
                0 <= i < slots@.len() ==> slots@[i].deep_view() == (if only is None || only->0@
                    == plugins@[i].plugin_id@ {
                    slot_for(
                        plugins@[i].deep_view(),
                        match trail {
                            Some(st) => Some(st.entries.deep_view()),
                            None => None,
                        },
                    )
                } else {
                    SlotView::Skipped
                })
        },
{
    if let Ok(slots) = r {
        let ss = slots.deep_view();
        let ps = plugins.deep_view();
        assert(ss.len() == slots@.len());
        assert(ps.len() == plugins@.len());
        assert forall|i: int| #![trigger slots@[i]] 0 <= i < slots@.len() implies slots@[i].deep_view()
            == (if only is None || only->0@ == plugins@[i].plugin_id@ {
            slot_for(plugins@[i].deep_view(), trail_of(trail))
        } else {
            SlotView::Skipped
        }) by {
            assert(ss[i] == slots@[i].deep_view());
            assert(ps[i] == plugins@[i].deep_view());
        }
    }
}

/// Asking for one plugin is refused exactly where no plugin has the id, or one
/// that has it was not installed from GitHub; which of the two it is, the message
/// says.
pub proof fn asking_for_one_is_refused_with_reason(
    plugins: &Vec<Plugin>,
    trail: Option<&State>,
    id: &str,
    r: Result<Vec<Slot>, String>,
)
    requires
        call_ensures(survey, (plugins, trail, Some(id)), r),
    ensures
        ({
            let ps = plugins.deep_view();
            let missing = forall|i: int|
                0 <= i < ps.len() ==> (#[trigger] ps[i]).plugin_id != id@;
            let foreign = exists|i: int|
                0 <= i < ps.len() && (#[trigger] ps[i]).plugin_id == id@ && !(ps[i].source is Some
                    && ps[i].source->0.kind == "github"@);
            &&& r is Err <==> missing || foreign
            &&& missing ==> r->Err_0@ == "plugin '"@ + id@ + "' not found in the herdr registry"@
            &&& foreign ==> r->Err_0@ == "plugin '"@ + id@ + "' is not a GitHub-installed plugin"@
        }),
{
    let ps = plugins.deep_view();
    let wanted: Option<&str> = Some(id);
    assert(wanted.deep_view() == Some(id@));
    if exists|i: int|
        0 <= i < ps.len() && (#[trigger] ps[i]).plugin_id == id@ && !(ps[i].source is Some
            && ps[i].source->0.kind == "github"@) {
        let i = choose|i: int|
            0 <= i < ps.len() && (#[trigger] ps[i]).plugin_id == id@ && !(ps[i].source is Some
                && ps[i].source->0.kind == "github"@);
        assert(!is_github(ps[i]));
    }
}

/// The work list is in the order of the registry.
pub proof fn the_work_list_is_in_order(slots: Seq<SlotView>)
    requires
        slots.len() <= usize::MAX,
    ensures
        forall|a: int, b: int|
            0 <= a < b < pending(slots).len() ==> #[trigger] pending(slots)[a]
                < #[trigger] pending(slots)[b],
        forall|k: int| 0 <= k < pending(slots).len() ==> (#[trigger] pending(slots)[k]) < slots.len(),
{
    lemma_pending_positions(slots);
}

/// As many checks run at once as there are plugins to ask, but no more than
/// configured; with zero configured it is one.
pub proof fn as_many_checks_as_allowed(jobs: usize, max_concurrency: usize, r: usize)
    requires
        call_ensures(worker_count, (jobs, max_concurrency), r),
    ensures
        max_concurrency > 0 && jobs <= max_concurrency ==> r == jobs,
        max_concurrency > 0 && jobs >= max_concurrency ==> r == max_concurrency,
        max_concurrency == 0 && jobs > 0 ==> r == 1,
        jobs == 0 ==> r == 0,
{
}

/// What is found out about a plugin is what is reported of it: the plugin is as
/// its job says, the relation to upstream is as asking came to, and an update is
/// available exactly where the plugin is behind.
pub proof fn answers_are_reported_as_they_came(job: &RemoteJob, result: &JobResult, r: PluginStatus)
    requires
        call_ensures(job_status, (job, result), r),
    ensures
        r.plugin_id@ == job.plugin_id@,
        r.owner@ == job.owner@,
        r.repo@ == job.repo@,
        r.version.deep_view() == job.version.deep_view(),
        r.installed_sha@ == job.installed_sha@,
        r.requested_ref.deep_view() == job.requested_ref.deep_view(),
        r.ref_kind == updater::kind_of(job.requested_ref.deep_view()),
        r.remote_sha.deep_view() == result.remote_sha.deep_view(),
        r.remote_version.deep_view() == result.remote_version.deep_view(),
        r.status == result.status,
        r.error.deep_view() == result.error.deep_view(),
        r.update_available <==> result.status == Status::Behind,
        r.note is None,
{
}

/// An answer settles the place that waits for it, and no other.
pub proof fn an_answer_settles_its_place(
    slots: Seq<SlotView>,
    index: int,
    result: JobResultView,
    i: int,
)
    requires
        0 <= i < slots.len(),
    ensures
        settled_at(slots, index, result).len() == slots.len(),
        i != index ==> settled_at(slots, index, result)[i] == slots[i],
        i == index && slots[i] is Pending ==> settled_at(slots, index, result)[i]
            == SlotView::Settled(status_of(slots[i]->Pending_0, result)),
        i == index && !(slots[i] is Pending) ==> settled_at(slots, index, result) == slots,
{
}

proof fn lemma_known_add(a: Seq<SlotView>, b: Seq<SlotView>)
    ensures
        known(a + b) == known(a) + known(b),
    decreases b.len(),
{
    if b.len() == 0 {
        assert(a + b =~= a);
        assert(known(a) + known(b) =~= known(a));
    } else {
        assert((a + b).drop_last() =~= a + b.drop_last());
        lemma_known_add(a, b.drop_last());
        if let SlotView::Settled(s) = b.last() {
            assert((known(a) + known(b.drop_last())).push(s) =~= known(a) + known(
                b.drop_last(),
            ).push(s));
        }
    }
}

/// The states that are known are those of the settled places, all of them and in
/// order: what is known of two stretches of places is what is known of the first
/// and then of the second, and a place alone gives its state where it is settled
/// and nothing where it is not.
pub proof fn known_states_are_kept_in_order(a: Seq<SlotView>, b: Seq<SlotView>, slot: SlotView)
    ensures
        known(a + b) == known(a) + known(b),
        slot matches SlotView::Settled(s) ==> known(seq![slot]) == seq![s],
        !(slot is Settled) ==> known(seq![slot]).len() == 0,
        known(Seq::empty()).len() == 0,
{
    lemma_known_add(a, b);
    reveal_with_fuel(known, 2);
    assert(seq![slot].drop_last() =~= Seq::<SlotView>::empty());
    if let SlotView::Settled(s) = slot {
        assert(known(seq![slot]) =~= seq![s]);
    }
}

/// A new panel has a row for every plugin that takes part, at the place that it
/// has, done where the state is known; on a panel that is not enabled there are
/// none.
pub proof fn the_panel_shows_who_takes_part(
    slots: Seq<SlotView>,
    n: int,
    json: bool,
    terminal: bool,
    i: int,
)
    requires
        0 <= n <= slots.len(),
        0 <= i < slots.len(),
    ensures
        ({
            let p = shown(progress::fresh(slots.len(), json, terminal), slots, n).0;
            &&& p.enabled <==> !json && terminal
            &&& p.rows.len() == slots.len()
            &&& p.rows[i] is Some <==> p.enabled && i < n && !(slots[i] is Skipped)
            &&& p.rows[i] is Some ==> match slots[i] {
                SlotView::Pending(job) => p.rows[i]->0.plugin_id == job.plugin_id
                    && p.rows[i]->0.state is Checking,
                SlotView::Settled(s) => p.rows[i]->0.plugin_id == s.plugin_id && p.rows[i]->0.state
                    == (progress::RowStateView::Done {
                    ok: s.error is None,
                    label: updater::line_of(s),
                }),
                SlotView::Skipped => false,
            }
        }),
    decreases n,
{
    if n > 0 {
        the_panel_shows_who_takes_part(slots, n - 1, json, terminal, i);
    }
}

} // verus!
