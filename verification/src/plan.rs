//! The policy engine: what to do with every plugin that was checked, and the
//! reports of `check` and `plan`.

use crate::config;
use crate::config::Config;
use crate::config::ConfigView;
use crate::config::Policy;
use crate::report;
use crate::report::Line;
use crate::report::LineView;
use crate::report::Report;
use crate::report::ReportView;
use crate::text;
use crate::updater;
use crate::updater::Action;
use crate::updater::PlanEntry;
use crate::updater::PlanEntryView;
use crate::updater::PluginStatus;
use crate::updater::PluginStatusView;
use crate::updater::RefKind;
use crate::updater::Status;
use vstd::prelude::*;

verus! {

/// Why the relation to upstream alone holds a plugin back: only what is behind
/// upstream may be updated, and what diverged where that is allowed.
pub open spec fn status_hold(cfg: ConfigView, s: PluginStatusView) -> Option<Seq<char>> {
    match s.status {
        Status::Same => Some(
            match s.note {
                Some(n) => n,
                None => "up to date"@,
            },
        ),
        Status::Ahead => Some("installed commit is ahead of upstream (upstream reset?)"@),
        Status::Unknown => Some("cannot classify update (network / rate limit?)"@),
        Status::Behind => None,
        Status::Diverged => if cfg.allow_force_push {
            None
        } else {
            Some("commits diverged (force push?); allow_force_push=false"@)
        },
    }
}

/// Why the configuration holds back a plugin that could be updated.
pub open spec fn config_hold(cfg: ConfigView, s: PluginStatusView) -> Option<Seq<char>> {
    if cfg.exclude.contains(s.plugin_id) {
        Some("excluded"@)
    } else if !config::admitted(cfg.allow, s.owner, s.repo) {
        Some("not in allow list"@)
    } else if cfg.trusted_owners.len() > 0 && !cfg.trusted_owners.contains(s.owner) {
        Some("owner '"@ + s.owner + "' not trusted"@)
    } else if cfg.immutable_pins && s.ref_kind != RefKind::Branch {
        Some("immutable pin ("@ + updater::kind_name(s.ref_kind) + "); not auto-updated"@)
    } else if cfg.policy == Policy::Notify {
        Some("policy: notify"@)
    } else if cfg.policy == Policy::PinnedOnly && s.requested_ref is None {
        Some("policy: pinned-only"@)
    } else {
        None
    }
}

/// The action for a plugin and the reason for it.
pub open spec fn decision(cfg: ConfigView, s: PluginStatusView) -> (Action, Option<Seq<char>>) {
    if s.error is Some {
        (Action::Error, s.error)
    } else if status_hold(cfg, s) is Some {
        (Action::Hold, status_hold(cfg, s))
    } else if config_hold(cfg, s) is Some {
        (Action::Hold, config_hold(cfg, s))
    } else {
        (Action::Update, None)
    }
}

fn hold_by_status(cfg: &Config, s: &PluginStatus) -> (r: Option<String>)
    ensures
        r.deep_view() == status_hold(cfg.deep_view(), s.deep_view()),
{
    match s.status {
        Status::Same => match &s.note {
            Some(n) => Some(n.clone()),
            None => Some("up to date".to_owned()),
        },
        Status::Ahead => Some("installed commit is ahead of upstream (upstream reset?)".to_owned()),
        Status::Unknown => Some("cannot classify update (network / rate limit?)".to_owned()),
        Status::Behind => None,
        Status::Diverged => if cfg.allow_force_push {
            None
        } else {
            Some("commits diverged (force push?); allow_force_push=false".to_owned())
        },
    }
}

fn hold_by_config(cfg: &Config, s: &PluginStatus) -> (r: Option<String>)
    ensures
        r.deep_view() == config_hold(cfg.deep_view(), s.deep_view()),
{
    if cfg.is_excluded(s.plugin_id.as_str()) {
        return Some("excluded".to_owned());
    }
    if !cfg.is_allowed(s.owner.as_str(), s.repo.as_str()) {
        return Some("not in allow list".to_owned());
    }
    if !cfg.is_trusted(s.owner.as_str()) {
        let mut why = "owner '".to_owned();
        why.append(s.owner.as_str());
        why.append("' not trusted");
        return Some(why);
    }
    if cfg.immutable_pins && s.ref_kind != RefKind::Branch {
        let mut why = "immutable pin (".to_owned();
        why.append(updater::ref_kind_label(s.ref_kind));
        why.append("); not auto-updated");
        return Some(why);
    }
    match cfg.policy {
        Policy::Notify => Some("policy: notify".to_owned()),
        Policy::PinnedOnly => if s.requested_ref.is_none() {
            Some("policy: pinned-only".to_owned())
        } else {
            None
        },
        Policy::Auto => None,
    }
}

/// Decides what is done with a plugin, and why. A check error comes first, then
/// the relation to upstream, then the configuration.
pub fn decide(cfg: &Config, s: &PluginStatus) -> (r: (Action, Option<String>))
    ensures
        (r.0, r.1.deep_view()) == decision(cfg.deep_view(), s.deep_view()),
{
    if let Some(err) = &s.error {
        return (Action::Error, Some(err.clone()));
    }
    if let Some(why) = hold_by_status(cfg, s) {
        return (Action::Hold, Some(why));
    }
    if let Some(why) = hold_by_config(cfg, s) {
        return (Action::Hold, Some(why));
    }
    (Action::Update, None)
}

/// The plan entry of a plugin.
pub open spec fn entry_for(cfg: ConfigView, s: PluginStatusView) -> PlanEntryView {
    PlanEntryView {
        plugin_id: s.plugin_id,
        owner: s.owner,
        repo: s.repo,
        installed_sha: s.installed_sha,
        version: s.version,
        remote_sha: s.remote_sha,
        remote_version: s.remote_version,
        status: s.status,
        ref_kind: s.ref_kind,
        policy: cfg.policy,
        action: decision(cfg, s).0,
        requested_ref: s.requested_ref,
        reason: decision(cfg, s).1,
    }
}

/// The plan: one entry for every plugin, in the same order.
pub open spec fn planned(cfg: ConfigView, statuses: Seq<PluginStatusView>) -> Seq<PlanEntryView> {
    statuses.map_values(|s: PluginStatusView| entry_for(cfg, s))
}

fn plan_entry(cfg: &Config, s: &PluginStatus) -> (r: PlanEntry)
    ensures
        r.deep_view() == entry_for(cfg.deep_view(), s.deep_view()),
{
    let (action, reason) = decide(cfg, s);
    PlanEntry {
        plugin_id: s.plugin_id.clone(),
        owner: s.owner.clone(),
        repo: s.repo.clone(),
        installed_sha: s.installed_sha.clone(),
        version: text::copy_of(&s.version),
        remote_sha: text::copy_of(&s.remote_sha),
        remote_version: text::copy_of(&s.remote_version),
        status: s.status,
        ref_kind: s.ref_kind,
        policy: cfg.policy,
        action,
        requested_ref: text::copy_of(&s.requested_ref),
        reason,
    }
}

/// Decides the action for every plugin. `plan` and `apply` share this one
/// decision path.
pub fn build_plan(cfg: &Config, statuses: &Vec<PluginStatus>) -> (r: Vec<PlanEntry>)
    ensures
        r.deep_view() == planned(cfg.deep_view(), statuses.deep_view()),
{
    let mut plan: Vec<PlanEntry> = Vec::new();
    let mut i: usize = 0;
    while i < statuses.len()
        invariant
            i <= statuses.len(),
            plan.len() == i,
            forall|j: int|
                0 <= j < i ==> #[trigger] plan@[j].deep_view() == entry_for(
                    cfg.deep_view(),
                    statuses@[j].deep_view(),
                ),
        decreases statuses.len() - i,
    {
        plan.push(plan_entry(cfg, &statuses[i]));
        i = i + 1;
    }
    assert(plan.deep_view() =~= planned(cfg.deep_view(), statuses.deep_view()));
    plan
}

/// A plugin is updated exactly where its check succeeded, it is behind upstream
/// (or diverged and that is allowed), and exclude list, allow patterns, trusted
/// owners, pins and policy all let it pass.
pub proof fn update_iff_everything_passes(cfg: ConfigView, s: PluginStatusView)
    ensures
        decision(cfg, s).0 == Action::Update <==> {
            &&& s.error is None
            &&& s.status == Status::Behind || (s.status == Status::Diverged && cfg.allow_force_push)
            &&& !cfg.exclude.contains(s.plugin_id)
            &&& config::admitted(cfg.allow, s.owner, s.repo)
            &&& cfg.trusted_owners.len() == 0 || cfg.trusted_owners.contains(s.owner)
            &&& cfg.immutable_pins ==> s.ref_kind == RefKind::Branch
            &&& cfg.policy != Policy::Notify
            &&& cfg.policy == Policy::PinnedOnly ==> s.requested_ref is Some
        },
{
}

/// Every plugin that is not updated has a reason, and an update needs none.
pub proof fn only_updates_lack_a_reason(cfg: ConfigView, s: PluginStatusView)
    ensures
        decision(cfg, s).0 == Action::Update <==> decision(cfg, s).1 is None,
{
}

/// A plan that only notifies installs nothing.
pub proof fn notify_never_updates(cfg: ConfigView, statuses: Seq<PluginStatusView>, i: int)
    requires
        cfg.policy == Policy::Notify,
        0 <= i < statuses.len(),
    ensures
        planned(cfg, statuses)[i].action != Action::Update,
{
}

/// A plugin whose check failed is an error in the plan, and nothing else is.
pub proof fn errors_are_errors(cfg: ConfigView, s: PluginStatusView)
    ensures
        decision(cfg, s).0 == Action::Error <==> s.error is Some,
        s.error is Some ==> decision(cfg, s).1 == s.error,
{
}

/// How many plugins have an update available.
pub open spec fn pending_count(statuses: Seq<PluginStatusView>) -> nat
    decreases statuses.len(),
{
    if statuses.len() == 0 {
        0
    } else {
        pending_count(statuses.drop_last()) + if statuses.last().update_available {
            1nat
        } else {
            0nat
        }
    }
}

/// How many checks failed.
pub open spec fn error_count(statuses: Seq<PluginStatusView>) -> nat
    decreases statuses.len(),
{
    if statuses.len() == 0 {
        0
    } else {
        error_count(statuses.drop_last()) + if statuses.last().error is Some {
            1nat
        } else {
            0nat
        }
    }
}

fn count(statuses: &Vec<PluginStatus>) -> (r: (usize, usize))
    ensures
        r.0 == pending_count(statuses.deep_view()),
        r.1 == error_count(statuses.deep_view()),
{
    let ghost all = statuses.deep_view();
    let mut pending: usize = 0;
    let mut errors: usize = 0;
    let mut i: usize = 0;
    while i < statuses.len()
        invariant
            all == statuses.deep_view(),
            i <= statuses.len(),
            pending <= i,
            errors <= i,
            pending == pending_count(all.take(i as int)),
            errors == error_count(all.take(i as int)),
        decreases statuses.len() - i,
    {
        assert(all.take(i + 1).drop_last() =~= all.take(i as int));
        assert(all.take(i + 1).last() == statuses@[i as int].deep_view());
        if statuses[i].update_available {
            pending = pending + 1;
        }
        if statuses[i].error.is_some() {
            errors = errors + 1;
        }
        i = i + 1;
    }
    assert(all.take(statuses.len() as int) =~= all);
    (pending, errors)
}

/// How `check` exits: a failed check takes precedence over a pending update.
pub open spec fn check_exit(statuses: Seq<PluginStatusView>) -> u8 {
    if exists|i: int| 0 <= i < statuses.len() && (#[trigger] statuses[i]).error is Some {
        report::EXIT_ERROR
    } else if exists|i: int| 0 <= i < statuses.len() && (#[trigger] statuses[i]).update_available {
        report::EXIT_PENDING
    } else {
        report::EXIT_OK
    }
}

proof fn lemma_counts(statuses: Seq<PluginStatusView>)
    ensures
        error_count(statuses) > 0 <==> exists|i: int|
            0 <= i < statuses.len() && (#[trigger] statuses[i]).error is Some,
        pending_count(statuses) > 0 <==> exists|i: int|
            0 <= i < statuses.len() && (#[trigger] statuses[i]).update_available,
    decreases statuses.len(),
{
    if statuses.len() > 0 {
        let front = statuses.drop_last();
        let n = statuses.len() - 1;
        lemma_counts(front);
        if error_count(front) > 0 {
            let i = choose|i: int| 0 <= i < front.len() && (#[trigger] front[i]).error is Some;
            assert(statuses[i].error is Some);
        }
        if pending_count(front) > 0 {
            let i = choose|i: int| 0 <= i < front.len() && (#[trigger] front[i]).update_available;
            assert(statuses[i].update_available);
        }
        if exists|i: int| 0 <= i < statuses.len() && (#[trigger] statuses[i]).error is Some {
            let i = choose|i: int|
                0 <= i < statuses.len() && (#[trigger] statuses[i]).error is Some;
            if i < n {
                assert(front[i].error is Some);
            }
        }
        if exists|i: int| 0 <= i < statuses.len() && (#[trigger] statuses[i]).update_available {
            let i = choose|i: int|
                0 <= i < statuses.len() && (#[trigger] statuses[i]).update_available;
            if i < n {
                assert(front[i].update_available);
            }
        }
        assert(statuses[n] == statuses.last());
    }
}

/// The lines that `check` prints for the plugins.
pub open spec fn status_lines(statuses: Seq<PluginStatusView>) -> Seq<LineView>
    decreases statuses.len(),
{
    if statuses.len() == 0 {
        Seq::empty()
    } else {
        status_lines(statuses.drop_last()).push(
            LineView::Say("  "@ + updater::line_of(statuses.last())),
        )
    }
}

/// The last line of `check`.
pub open spec fn check_summary(statuses: Seq<PluginStatusView>) -> Seq<char> {
    "[herdr-auto-update] "@ + text::decimal(statuses.len()) + " plugin(s) checked, "@
        + text::decimal(pending_count(statuses)) + " update(s) available, "@ + text::decimal(
        error_count(statuses),
    ) + " error(s)"@
}

/// Reports a check: a line per plugin and a summary, nothing of it with `json`,
/// and the exit code.
pub fn check_report(statuses: &Vec<PluginStatus>, json: bool) -> (r: Report)
    ensures
        r.deep_view() == (ReportView {
            lines: if json {
                Seq::empty()
            } else {
                status_lines(statuses.deep_view()).push(
                    LineView::Note(check_summary(statuses.deep_view())),
                )
            },
            exit: check_exit(statuses.deep_view()),
        }),
{
    let ghost all = statuses.deep_view();
    let (pending, errors) = count(statuses);
    let mut lines = report::no_lines();
    if !json {
        let mut i: usize = 0;
        while i < statuses.len()
            invariant
                all == statuses.deep_view(),
                i <= statuses.len(),
                lines.deep_view() == status_lines(all.take(i as int)),
            decreases statuses.len() - i,
        {
            assert(all.take(i + 1).drop_last() =~= all.take(i as int));
            assert(all.take(i + 1).last() == statuses@[i as int].deep_view());
            let mut s = "  ".to_owned();
            s.append(updater::status_line(&statuses[i]).as_str());
            report::say(&mut lines, s);
            i = i + 1;
        }
        assert(all.take(statuses.len() as int) =~= all);
        let mut s = "[herdr-auto-update] ".to_owned();
        text::push_decimal(&mut s, statuses.len() as u64);
        s.append(" plugin(s) checked, ");
        text::push_decimal(&mut s, pending as u64);
        s.append(" update(s) available, ");
        text::push_decimal(&mut s, errors as u64);
        s.append(" error(s)");
        report::warn(&mut lines, s);
    }
    proof {
        lemma_counts(all);
    }
    let exit: u8 = if errors > 0 {
        report::EXIT_ERROR
    } else if pending > 0 {
        report::EXIT_PENDING
    } else {
        report::EXIT_OK
    };
    Report { lines, exit }
}

/// The lines that `plan` prints for one plugin.
pub open spec fn plan_block(e: PlanEntryView) -> Seq<LineView> {
    let head = seq![
        LineView::Say(e.plugin_id),
        LineView::Say("  installed: "@ + updater::version_text(e.version, e.installed_sha)),
    ];
    let remote = match e.remote_sha {
        Some(r) => seq![LineView::Say("  remote: "@ + updater::version_text(e.remote_version, r))],
        None => Seq::empty(),
    };
    let facts = seq![
        LineView::Say("  status: "@ + updater::status_name(e.status)),
        LineView::Say("  channel: "@ + updater::kind_name(e.ref_kind)),
        LineView::Say("  policy: "@ + updater::policy_name(e.policy)),
        LineView::Say("  action: "@ + updater::action_name(e.action)),
    ];
    let reason = match e.reason {
        Some(r) => seq![LineView::Say("  reason: "@ + r)],
        None => Seq::empty(),
    };
    head + remote + facts + reason + seq![LineView::Say(""@)]
}

/// The lines that `plan` prints.
pub open spec fn plan_lines(plan: Seq<PlanEntryView>) -> Seq<LineView>
    decreases plan.len(),
{
    if plan.len() == 0 {
        Seq::empty()
    } else {
        plan_lines(plan.drop_last()) + plan_block(plan.last())
    }
}

/// How `plan` exits: 1 says that at least one update would be applied, not
/// merely that some upstream ref changed.
pub open spec fn plan_exit(plan: Seq<PlanEntryView>, statuses: Seq<PluginStatusView>) -> u8 {
    if exists|i: int| 0 <= i < statuses.len() && (#[trigger] statuses[i]).error is Some {
        report::EXIT_ERROR
    } else if exists|i: int| 0 <= i < plan.len() && (#[trigger] plan[i]).action == Action::Update {
        report::EXIT_PENDING
    } else {
        report::EXIT_OK
    }
}

fn say_text(lines: &mut Vec<Line>, label: &str, value: &str)
    ensures
        final(lines).deep_view() == old(lines).deep_view().push(LineView::Say(label@ + value@)),
{
    let mut s = label.to_owned();
    s.append(value);
    report::say(lines, s);
}

fn say_plan_block(lines: &mut Vec<Line>, e: &PlanEntry)
    ensures
        final(lines).deep_view() == old(lines).deep_view() + plan_block(e.deep_view()),
{
    let ghost before = lines.deep_view();
    report::say(lines, e.plugin_id.clone());
    say_text(
        lines,
        "  installed: ",
        updater::version_str(&e.version, e.installed_sha.as_str()).as_str(),
    );
    if let Some(r) = &e.remote_sha {
        say_text(
            lines,
            "  remote: ",
            updater::version_str(&e.remote_version, r.as_str()).as_str(),
        );
    }
    say_text(lines, "  status: ", updater::status_label(e.status));
    say_text(lines, "  channel: ", updater::ref_kind_label(e.ref_kind));
    say_text(lines, "  policy: ", updater::policy_label(e.policy));
    say_text(lines, "  action: ", updater::action_label(e.action));
    if let Some(r) = &e.reason {
        say_text(lines, "  reason: ", r.as_str());
    }
    report::say(lines, "".to_owned());
    assert(lines.deep_view() =~= before + plan_block(e.deep_view()));
}

/// Reports a plan: a block of lines per plugin, nothing with `json`, and the
/// exit code.
pub fn plan_report(plan: &Vec<PlanEntry>, statuses: &Vec<PluginStatus>, json: bool) -> (r: Report)
    ensures
        r.deep_view() == (ReportView {
            lines: if json {
                Seq::empty()
            } else {
                plan_lines(plan.deep_view())
            },
            exit: plan_exit(plan.deep_view(), statuses.deep_view()),
        }),
{
    let ghost all = plan.deep_view();
    let (_, errors) = count(statuses);
    let mut lines = report::no_lines();
    let mut pending = false;
    let mut i: usize = 0;
    while i < plan.len()
        invariant
            all == plan.deep_view(),
            i <= plan.len(),
            lines.deep_view() == (if json {
                Seq::empty()
            } else {
                plan_lines(all.take(i as int))
            }),
            pending <==> exists|j: int| 0 <= j < i && (#[trigger] all[j]).action == Action::Update,
        decreases plan.len() - i,
    {
        assert(all.take(i + 1).drop_last() =~= all.take(i as int));
        assert(all.take(i + 1).last() == plan@[i as int].deep_view());
        assert(all[i as int] == plan@[i as int].deep_view());
        if !json {
            say_plan_block(&mut lines, &plan[i]);
        }
        if plan[i].action == Action::Update {
            pending = true;
        }
        i = i + 1;
    }
    proof {
        assert(all.take(plan.len() as int) =~= all);
        lemma_counts(statuses.deep_view());
    }
    let exit: u8 = if errors > 0 {
        report::EXIT_ERROR
    } else if pending {
        report::EXIT_PENDING
    } else {
        report::EXIT_OK
    };
    Report { lines, exit }
}

/// What holds a plugin back is said, and the first obstacle is what is said: an
/// error of the check, then the relation to upstream, then the exclude list, the
/// allow patterns, the trusted owners, the pins and the policy.
pub proof fn the_first_obstacle_is_the_reason(
    cfg: &Config,
    s: &PluginStatus,
    r: (Action, Option<String>),
    excluded: bool,
    allowed: bool,
    trusted: bool,
    id: &str,
    owner: &str,
    repo: &str,
)
    requires
        call_ensures(decide, (cfg, s), r),
        id@ == s.plugin_id@ && owner@ == s.owner@ && repo@ == s.repo@,
        call_ensures(Config::is_excluded, (cfg, id), excluded),
        call_ensures(Config::is_allowed, (cfg, owner, repo), allowed),
        call_ensures(Config::is_trusted, (cfg, owner), trusted),
    ensures
        ({
            let why = r.1.deep_view();
            let movable = s.error is None && (s.status == Status::Behind || (s.status
                == Status::Diverged && cfg.allow_force_push));
            &&& s.error matches Some(e) ==> r.0 == Action::Error && why == Some(e@)
            &&& s.error is None ==> r.0 != Action::Error
            &&& s.error is None && !movable ==> r.0 == Action::Hold
            &&& s.error is None && s.status == Status::Same ==> why == (match s.note {
                Some(note) => Some(note@),
                None => Some("up to date"@),
            })
            &&& s.error is None && s.status == Status::Ahead ==> why == Some(
                "installed commit is ahead of upstream (upstream reset?)"@,
            )
            &&& s.error is None && s.status == Status::Unknown ==> why == Some(
                "cannot classify update (network / rate limit?)"@,
            )
            &&& s.error is None && s.status == Status::Diverged && !cfg.allow_force_push ==> why
                == Some("commits diverged (force push?); allow_force_push=false"@)
            &&& movable && excluded ==> r.0 == Action::Hold && why == Some("excluded"@)
            &&& movable && !excluded && !allowed ==> r.0 == Action::Hold && why == Some(
                "not in allow list"@,
            )
            &&& movable && !excluded && allowed && !trusted ==> r.0 == Action::Hold && why == Some(
                "owner '"@ + s.owner@ + "' not trusted"@,
            )
            &&& movable && !excluded && allowed && trusted ==> {
                let pinned = cfg.immutable_pins && s.ref_kind != RefKind::Branch;
                &&& pinned && s.ref_kind == RefKind::Tag ==> r.0 == Action::Hold && why == Some(
                    "immutable pin ("@ + "tag"@ + "); not auto-updated"@,
                )
                &&& pinned && s.ref_kind == RefKind::Commit ==> r.0 == Action::Hold && why == Some(
                    "immutable pin ("@ + "commit"@ + "); not auto-updated"@,
                )
                &&& !pinned && cfg.policy == Policy::Notify ==> r.0 == Action::Hold && why == Some(
                    "policy: notify"@,
                )
                &&& !pinned && cfg.policy == Policy::PinnedOnly && s.requested_ref is None ==> r.0
                    == Action::Hold && why == Some("policy: pinned-only"@)
                &&& !pinned && (cfg.policy == Policy::Auto || (cfg.policy == Policy::PinnedOnly
                    && s.requested_ref is Some)) ==> r.0 == Action::Update && why is None
            }
        }),
{
}

/// A plan has one entry for every plugin that was checked, in the same order, and
/// each says of its plugin what the check found and what is decided about it.
pub proof fn plans_say_what_was_found(
    cfg: &Config,
    statuses: &Vec<PluginStatus>,
    plan: Vec<PlanEntry>,
    i: int,
    r: (Action, Option<String>),
)
    requires
        call_ensures(build_plan, (cfg, statuses), plan),
        0 <= i < statuses@.len(),
        call_ensures(decide, (cfg, &statuses@[i]), r),
    ensures
        plan@.len() == statuses@.len(),
        plan@[i].plugin_id@ == statuses@[i].plugin_id@,
        plan@[i].owner@ == statuses@[i].owner@,
        plan@[i].repo@ == statuses@[i].repo@,
        plan@[i].installed_sha@ == statuses@[i].installed_sha@,
        plan@[i].version.deep_view() == statuses@[i].version.deep_view(),
        plan@[i].remote_sha.deep_view() == statuses@[i].remote_sha.deep_view(),
        plan@[i].remote_version.deep_view() == statuses@[i].remote_version.deep_view(),
        plan@[i].status == statuses@[i].status,
        plan@[i].ref_kind == statuses@[i].ref_kind,
        plan@[i].requested_ref.deep_view() == statuses@[i].requested_ref.deep_view(),
        plan@[i].policy == cfg.policy,
        plan@[i].action == r.0,
        plan@[i].reason.deep_view() == r.1.deep_view(),
{
    let entries = plan.deep_view();
    let found = statuses.deep_view();
    assert(entries.len() == plan@.len());
    assert(found.len() == statuses@.len());
    assert(found[i] == statuses@[i].deep_view());
    assert(entries[i] == plan@[i].deep_view());
    assert(entries[i] == entry_for(cfg.deep_view(), found[i]));
}

/// A check exits with 2 exactly where a plugin could not be checked, with 1
/// exactly where none could not and one has an update available, and else with
/// 0. With machine-readable output no line is printed; else one for every plugin,
/// in order, and a last one for standard error.
pub proof fn checks_exit_by_what_was_found(statuses: &Vec<PluginStatus>, json: bool, r: Report)
    requires
        call_ensures(check_report, (statuses, json), r),
    ensures
        ({
            let failed = exists|i: int|
                0 <= i < statuses@.len() && (#[trigger] statuses@[i]).error is Some;
            let pending = exists|i: int|
                0 <= i < statuses@.len() && (#[trigger] statuses@[i]).update_available;
            &&& failed ==> r.exit == 2
            &&& !failed && pending ==> r.exit == 1
            &&& !failed && !pending ==> r.exit == 0
            &&& json ==> r.lines@.len() == 0
            &&& !json ==> r.lines@.len() == statuses@.len() + 1 && r.lines@.last() is Note
            &&& !json ==> forall|i: int|
                0 <= i < statuses@.len() ==> (#[trigger] r.lines@[i]) is Say
                    && r.lines@[i]->Say_0@ == "  "@ + updater::line_of(statuses@[i].deep_view())
        }),
{
    let all = statuses.deep_view();
    let lines = r.lines.deep_view();
    assert(all.len() == statuses@.len());
    assert(lines.len() == r.lines@.len());
    assert(lines == r.deep_view().lines);
    assert forall|i: int| 0 <= i < statuses@.len() implies all[i] == (
    #[trigger] statuses@[i]).deep_view() by {}
    if exists|i: int| 0 <= i < all.len() && (#[trigger] all[i]).error is Some {
        let i = choose|i: int| 0 <= i < all.len() && (#[trigger] all[i]).error is Some;
        assert(statuses@[i].error is Some);
    }
    if exists|i: int| 0 <= i < all.len() && (#[trigger] all[i]).update_available {
        let i = choose|i: int| 0 <= i < all.len() && (#[trigger] all[i]).update_available;
        assert(statuses@[i].update_available);
    }
    if !json {
        lemma_status_lines(all);
        assert forall|i: int| 0 <= i < statuses@.len() implies (#[trigger] r.lines@[i]) is Say
            && r.lines@[i]->Say_0@ == "  "@ + updater::line_of(statuses@[i].deep_view()) by {
            assert(lines[i] == r.lines@[i].deep_view());
            assert(lines[i] == status_lines(all)[i]);
        }
        assert(lines[all.len() as int] == r.lines@[all.len() as int].deep_view());
    }
}

proof fn lemma_status_lines(statuses: Seq<PluginStatusView>)
    ensures
        status_lines(statuses).len() == statuses.len(),
        forall|i: int|
            0 <= i < statuses.len() ==> #[trigger] status_lines(statuses)[i] == LineView::Say(
                "  "@ + updater::line_of(statuses[i]),
            ),
    decreases statuses.len(),
{
    if statuses.len() > 0 {
        let front = statuses.drop_last();
        lemma_status_lines(front);
        assert forall|i: int| 0 <= i < statuses.len() implies #[trigger] status_lines(statuses)[i]
            == LineView::Say("  "@ + updater::line_of(statuses[i])) by {
            if i < front.len() {
                assert(status_lines(statuses)[i] == status_lines(front)[i]);
                assert(front[i] == statuses[i]);
            }
        }
    }
}

/// Counting goes plugin by plugin: what two lists of plugins have pending, or
/// failed, adds up, and a plugin alone counts as pending exactly where it has an
/// update and as failed exactly where its check is an error.
pub proof fn counts_add_up(a: Seq<PluginStatusView>, b: Seq<PluginStatusView>, s: PluginStatusView)
    ensures
        pending_count(a + b) == pending_count(a) + pending_count(b),
        error_count(a + b) == error_count(a) + error_count(b),
        pending_count(seq![s]) == (if s.update_available {
            1nat
        } else {
            0nat
        }),
        error_count(seq![s]) == (if s.error is Some {
            1nat
        } else {
            0nat
        }),
        pending_count(Seq::empty()) == 0,
        error_count(Seq::empty()) == 0,
    decreases b.len(),
{
    reveal_with_fuel(pending_count, 2);
    reveal_with_fuel(error_count, 2);
    assert(seq![s].drop_last() =~= Seq::<PluginStatusView>::empty());
    if b.len() == 0 {
        assert(a + b =~= a);
    } else {
        assert((a + b).drop_last() =~= a + b.drop_last());
        counts_add_up(a, b.drop_last(), s);
    }
}

/// The last line of a check says how many plugins were checked, how many have an
/// update and how many failed, in this order.
pub proof fn checks_are_summed_up(statuses: &Vec<PluginStatus>, r: Report)
    requires
        call_ensures(check_report, (statuses, false), r),
    ensures
        r.lines@.last()->Note_0@ == "[herdr-auto-update] "@ + text::decimal(statuses@.len())
            + " plugin(s) checked, "@ + text::decimal(pending_count(statuses.deep_view()))
            + " update(s) available, "@ + text::decimal(error_count(statuses.deep_view()))
            + " error(s)"@,
{
    let all = statuses.deep_view();
    checks_exit_by_what_was_found(statuses, false, r);
    let lines = r.lines.deep_view();
    assert(lines == r.deep_view().lines);
    assert(lines.last() == LineView::Note(check_summary(all)));
    assert(lines[lines.len() - 1] == r.lines@[lines.len() - 1].deep_view());
}

/// A plan exits with 2 exactly where a plugin could not be checked, with 1
/// exactly where none could not and one would be updated, and else with 0. With
/// machine-readable output no line is printed.
pub proof fn plans_exit_by_what_would_be_done(
    plan: &Vec<PlanEntry>,
    statuses: &Vec<PluginStatus>,
    json: bool,
    r: Report,
)
    requires
        call_ensures(plan_report, (plan, statuses, json), r),
    ensures
        ({
            let failed = exists|i: int|
                0 <= i < statuses@.len() && (#[trigger] statuses@[i]).error is Some;
            let pending = exists|i: int|
                0 <= i < plan@.len() && (#[trigger] plan@[i]).action == Action::Update;
            &&& failed ==> r.exit == 2
            &&& !failed && pending ==> r.exit == 1
            &&& !failed && !pending ==> r.exit == 0
            &&& json ==> r.lines@.len() == 0
            &&& !json ==> r.lines.deep_view() == plan_lines(plan.deep_view())
        }),
{
    let all = statuses.deep_view();
    let entries = plan.deep_view();
    assert(r.lines.deep_view().len() == r.lines@.len());
    assert(r.lines.deep_view() == r.deep_view().lines);
    assert forall|i: int| 0 <= i < statuses@.len() implies all[i] == (
    #[trigger] statuses@[i]).deep_view() by {}
    assert forall|i: int| 0 <= i < plan@.len() implies entries[i] == (
    #[trigger] plan@[i]).deep_view() by {}
    if exists|i: int| 0 <= i < all.len() && (#[trigger] all[i]).error is Some {
        let i = choose|i: int| 0 <= i < all.len() && (#[trigger] all[i]).error is Some;
        assert(statuses@[i].error is Some);
    }
    if exists|i: int| 0 <= i < entries.len() && (#[trigger] entries[i]).action == Action::Update {
        let i = choose|i: int|
            0 <= i < entries.len() && (#[trigger] entries[i]).action == Action::Update;
        assert(plan@[i].action == Action::Update);
    }
}

/// A plan is printed entry by entry, in order: two stretches of it one behind the
/// other, and of each entry its id, the installed version, the upstream one where
/// it is known, status, channel, policy and action, and the reason where there is
/// one, with an empty line at the end.
pub proof fn plans_are_printed_entry_by_entry(
    a: Seq<PlanEntryView>,
    b: Seq<PlanEntryView>,
    e: PlanEntryView,
)
    ensures
        plan_lines(a + b) == plan_lines(a) + plan_lines(b),
        plan_lines(Seq::empty()).len() == 0,
        ({
            let block = plan_lines(seq![e]);
            let r: int = if e.remote_sha is Some {
                1
            } else {
                0
            };
            &&& block.len() == 7 + r + (if e.reason is Some {
                1int
            } else {
                0int
            })
            &&& block[0] == LineView::Say(e.plugin_id)
            &&& block[1] == LineView::Say(
                "  installed: "@ + updater::version_text(e.version, e.installed_sha),
            )
            &&& e.remote_sha matches Some(sha) ==> block[2] == LineView::Say(
                "  remote: "@ + updater::version_text(e.remote_version, sha),
            )
            &&& block[2 + r] == LineView::Say("  status: "@ + updater::status_name(e.status))
            &&& block[3 + r] == LineView::Say("  channel: "@ + updater::kind_name(e.ref_kind))
            &&& block[4 + r] == LineView::Say("  policy: "@ + updater::policy_name(e.policy))
            &&& block[5 + r] == LineView::Say("  action: "@ + updater::action_name(e.action))
            &&& e.reason matches Some(why) ==> block[6 + r] == LineView::Say("  reason: "@ + why)
            &&& block.last() == LineView::Say(""@)
        }),
    decreases b.len(),
{
    reveal_with_fuel(plan_lines, 2);
    assert(seq![e].drop_last() =~= Seq::<PlanEntryView>::empty());
    assert(plan_lines(seq![e]) =~= plan_block(e));
    if b.len() == 0 {
        assert(a + b =~= a);
        assert(plan_lines(a) + plan_lines(b) =~= plan_lines(a));
    } else {
        assert((a + b).drop_last() =~= a + b.drop_last());
        plans_are_printed_entry_by_entry(a, b.drop_last(), e);
        assert(plan_lines(a) + plan_lines(b.drop_last()) + plan_block(b.last()) =~= plan_lines(a)
            + (plan_lines(b.drop_last()) + plan_block(b.last())));
    }
}

} // verus!
