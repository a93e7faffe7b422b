//! Moving one plugin from its commit pin to the default branch: it is
//! reinstalled without a ref. The trail is left as it is.

use crate::apply;
use crate::install;
use crate::install::InstallRun;
use crate::registry;
use crate::registry::Plugin;
use crate::registry::PluginView;
use crate::registry::Source;
use crate::report;
use crate::report::Line;
use crate::report::LineView;
use crate::report::Report;
use crate::report::ReportView;
use crate::text;
use crate::updater;
use crate::updater::RefKind;
use vstd::prelude::*;

verus! {

/// How the command goes on.
#[derive(Debug)]
pub enum Untrack {
    /// It ends.
    Stop(Report),
    /// It prints these lines and installs this repository with these arguments
    /// behind the herdr program.
    Install { lines: Vec<Line>, owner: String, repo: String, args: Vec<String> },
}

/// An `Untrack` as values.
#[verifier::ext_equal]
pub enum UntrackView {
    Stop(ReportView),
    Install { lines: Seq<LineView>, owner: Seq<char>, repo: Seq<char>, args: Seq<Seq<char>> },
}

impl DeepView for Untrack {
    type V = UntrackView;

    open spec fn deep_view(&self) -> UntrackView {
        match self {
            Untrack::Stop(r) => UntrackView::Stop(r.deep_view()),
            Untrack::Install { lines, owner, repo, args } => UntrackView::Install {
                lines: lines.deep_view(),
                owner: owner@,
                repo: repo@,
                args: args.deep_view(),
            },
        }
    }
}

/// How the command ends where no plugin was named: all at once would be too much
/// to do by accident.
pub fn untrack_usage() -> (r: Report)
    ensures
        r.deep_view() == (ReportView {
            lines: seq![
                LineView::Note("error: untrack requires --only <plugin_id> (one plugin at a time)"@),
                LineView::Note("usage: herdr-auto-update untrack --only <plugin_id>"@),
            ],
            exit: report::EXIT_ERROR,
        }),
{
    let mut lines = report::no_lines();
    report::warn(
        &mut lines,
        "error: untrack requires --only <plugin_id> (one plugin at a time)".to_owned(),
    );
    report::warn(&mut lines, "usage: herdr-auto-update untrack --only <plugin_id>".to_owned());
    let r = Report { lines, exit: report::EXIT_ERROR };
    assert(r.lines.deep_view() =~= seq![
        LineView::Note("error: untrack requires --only <plugin_id> (one plugin at a time)"@),
        LineView::Note("usage: herdr-auto-update untrack --only <plugin_id>"@),
    ]);
    r
}

/// Why a plugin cannot be moved: it has to be installed from a GitHub repository
/// with a valid name, and to be pinned to a commit.
pub open spec fn obstacle(plugins: Seq<PluginView>, id: Seq<char>) -> Option<Seq<char>> {
    match registry::listed(plugins, id) {
        None => Some("error: plugin '"@ + id + "' not found in the herdr registry"@),
        Some(p) => match p.source {
            None => Some("error: plugin '"@ + id + "' is not a GitHub-installed plugin"@),
            Some(src) => if src.owner is None || src.repo is None {
                Some("error: plugin '"@ + id + "' has no owner/repo recorded in the registry"@)
            } else if !registry::valid_repo(src.owner->0, src.repo->0) {
                Some(
                    "error: plugin '"@ + id + "' has an invalid owner/repo recorded in the registry"@,
                )
            } else if updater::kind_of(src.requested_ref) != RefKind::Commit {
                Some(
                    "error: plugin '"@ + id + "' is not pinned to a commit (requested_ref: "@ + (
                    match src.requested_ref {
                        Some(r) => r,
                        None => "<none>"@,
                    }) + ")"@,
                )
            } else {
                None
            },
        },
    }
}

/// How the command goes on once the plugins were listed.
pub open spec fn picked(
    id: Seq<char>,
    listed: Result<Seq<PluginView>, Seq<char>>,
    json: bool,
) -> UntrackView {
    match listed {
        Err(e) => UntrackView::Stop(
            ReportView { lines: seq![LineView::Note("error: "@ + e)], exit: report::EXIT_ERROR },
        ),
        Ok(plugins) => match obstacle(plugins, id) {
            Some(e) => UntrackView::Stop(
                ReportView { lines: seq![LineView::Note(e)], exit: report::EXIT_ERROR },
            ),
            None => {
                let src = registry::source_of(plugins, id)->0;
                let owner = src.owner->0;
                let repo = src.repo->0;
                UntrackView::Install {
                    lines: if json {
                        Seq::empty()
                    } else {
                        seq![
                            LineView::Say(
                                "  ["@ + id + "] untracking: reinstalling "@ + owner + "/"@ + repo
                                    + " without --ref (default branch)"@,
                            ),
                        ]
                    },
                    owner,
                    repo,
                    args: install::args_for(owner, repo, None),
                }
            },
        },
    }
}

fn stop(error: String) -> (r: Untrack)
    ensures
        r.deep_view() == UntrackView::Stop(
            (ReportView { lines: seq![LineView::Note(error@)], exit: report::EXIT_ERROR }),
        ),
{
    Untrack::Stop(Report { lines: report::one_warning(error), exit: report::EXIT_ERROR })
}

fn about(id: &str, rest: &str) -> (r: String)
    ensures
        r@ == "error: plugin '"@ + id@ + rest@,
{
    let mut s = "error: plugin '".to_owned();
    s.append(id);
    s.append(rest);
    s
}

fn pick_source(id: &str, src: &Source, owner: &str, repo: &str, json: bool) -> (r: Untrack)
    requires
        src.deep_view().owner == Some(owner@),
        src.deep_view().repo == Some(repo@),
    ensures
        forall|plugins: Seq<PluginView>|
            (#[trigger] registry::listed(plugins, id@)) is Some && registry::listed(
                plugins,
                id@,
            )->0.source == Some(src.deep_view()) ==> r.deep_view() == picked(
                id@,
                Ok(plugins),
                json,
            ),
{
    if !registry::valid_github_repo(owner, repo) {
        return stop(about(id, "' has an invalid owner/repo recorded in the registry"));
    }
    if updater::ref_kind(text::borrowed(&src.requested_ref)) != RefKind::Commit {
        let mut s = about(id, "' is not pinned to a commit (requested_ref: ");
        match &src.requested_ref {
            Some(r) => s.append(r.as_str()),
            None => s.append("<none>"),
        }
        s.append(")");
        return stop(s);
    }
    let lines = if json {
        report::no_lines()
    } else {
        let mut s = "  [".to_owned();
        s.append(id);
        s.append("] untracking: reinstalling ");
        s.append(owner);
        s.append("/");
        s.append(repo);
        s.append(" without --ref (default branch)");
        report::one_line(s)
    };
    Untrack::Install {
        lines,
        owner: owner.to_owned(),
        repo: repo.to_owned(),
        args: install::install_args(owner, repo, None),
    }
}

/// Goes on once the plugins were listed.
pub fn untrack_listed(id: &str, listed: &Result<Vec<Plugin>, String>, json: bool) -> (r: Untrack)
    ensures
        r.deep_view() == picked(id@, apply::list_of(*listed), json),
{
    let plugins = match listed {
        Ok(plugins) => plugins,
        Err(e) => {
            let mut s = "error: ".to_owned();
            s.append(e.as_str());
            return stop(s);
        },
    };
    match registry::find_plugin(plugins, id) {
        None => stop(about(id, "' not found in the herdr registry")),
        Some(p) => match &p.source {
            None => stop(about(id, "' is not a GitHub-installed plugin")),
            Some(src) => match (&src.owner, &src.repo) {
                (Some(owner), Some(repo)) => pick_source(
                    id,
                    src,
                    owner.as_str(),
                    repo.as_str(),
                    json,
                ),
                _ => stop(about(id, "' has no owner/repo recorded in the registry")),
            },
        },
    }
}

/// How the command ends where the reinstall failed; none where it succeeded and
/// the plugins are to be listed again.
pub fn untrack_installed(bin: &str, owner: &str, repo: &str, run: &InstallRun) -> (r: Option<
    Report,
>)
    ensures
        r is None <==> install::installed(*run),
        r matches Some(end) ==> end.deep_view() == (ReportView {
            lines: install::complaint(bin@, owner@, repo@, *run),
            exit: report::EXIT_PENDING,
        }),
{
    let (ok, lines) = install::install_result(bin, owner, repo, run);
    if ok {
        None
    } else {
        Some(Report { lines, exit: report::EXIT_PENDING })
    }
}

/// Whether the registry shows that a plugin is pinned to a commit.
pub open spec fn still_pinned(
    listed: Result<Seq<PluginView>, Seq<char>>,
    id: Seq<char>,
) -> bool {
    match listed {
        Ok(plugins) => match registry::source_of(plugins, id) {
            Some(src) => updater::kind_of(src.requested_ref) == RefKind::Commit,
            None => false,
        },
        Err(_) => false,
    }
}

fn is_still_pinned(listed: &Result<Vec<Plugin>, String>, id: &str) -> (r: bool)
    ensures
        r == still_pinned(apply::list_of(*listed), id@),
{
    if let Ok(plugins) = listed {
        if let Some(p) = registry::find_plugin(plugins, id) {
            if let Some(src) = &p.source {
                return updater::ref_kind(text::borrowed(&src.requested_ref)) == RefKind::Commit;
            }
        }
    }
    false
}

/// How the command ends once the plugins were listed behind the reinstall: a pin
/// that is still there is a failure.
pub open spec fn untrack_ends(
    id: Seq<char>,
    listed: Result<Seq<PluginView>, Seq<char>>,
    json: bool,
) -> ReportView {
    if still_pinned(listed, id) {
        ReportView {
            lines: seq![
                LineView::Note(
                    "  ["@ + id + "] warning: registry still records a commit pin after reinstall"@,
                ),
            ],
            exit: report::EXIT_PENDING,
        }
    } else {
        ReportView {
            lines: if json {
                Seq::empty()
            } else {
                seq![
                    LineView::Say(
                        "  ["@ + id
                            + "] now tracking the default branch; run `herdr-auto-update update` to apply available updates"@,
                    ),
                ]
            },
            exit: report::EXIT_OK,
        }
    }
}

/// Ends the command once the plugins were listed behind the reinstall.
pub fn untrack_end(id: &str, listed: &Result<Vec<Plugin>, String>, json: bool) -> (r: Report)
    ensures
        r.deep_view() == untrack_ends(id@, apply::list_of(*listed), json),
{
    let mut s = "  [".to_owned();
    s.append(id);
    if is_still_pinned(listed, id) {
        s.append("] warning: registry still records a commit pin after reinstall");
        return Report { lines: report::one_warning(s), exit: report::EXIT_PENDING };
    }
    let lines = if json {
        report::no_lines()
    } else {
        s.append("] now tracking the default branch; run `herdr-auto-update update` to apply available updates");
        report::one_line(s)
    };
    Report { lines, exit: report::EXIT_OK }
}

/// The reinstall is without a ref, and only of a plugin that is pinned to a
/// commit and whose names are valid.
pub proof fn only_commit_pins_are_untracked(
    id: Seq<char>,
    listed: Result<Seq<PluginView>, Seq<char>>,
    json: bool,
)
    ensures
        picked(id, listed, json) matches UntrackView::Install { owner, repo, args, .. } ==> {
            &&& args == install::args_for(owner, repo, None)
            &&& registry::valid_repo(owner, repo)
            &&& still_pinned(listed, id)
        },
{
}

/// A plugin is moved to the default branch exactly where it is listed with a
/// repository that has valid names and is pinned to a commit; from there it is
/// reinstalled, without a ref. What stands in the way is an error that names the
/// plugin, and so is a list that cannot be had.
pub proof fn pinned_plugins_are_untracked(
    id: &str,
    listed: &Result<Vec<Plugin>, String>,
    json: bool,
    r: Untrack,
)
    requires
        call_ensures(untrack_listed, (id, listed, json), r),
    ensures
        match *listed {
            Err(e) => r is Stop && r->Stop_0.exit == 2 && r->Stop_0.lines.deep_view() == seq![
                LineView::Note("error: "@ + e@),
            ],
            Ok(plugins) => {
                let found = registry::listed(plugins.deep_view(), id@);
                let src = found->0.source->0;
                let recorded = found is Some && found->0.source is Some && src.owner is Some
                    && src.repo is Some;
                let valid = recorded && registry::valid_repo(src.owner->0, src.repo->0);
                let movable = valid && updater::kind_of(src.requested_ref) == RefKind::Commit;
                &&& r is Install <==> movable
                &&& r matches Untrack::Install { lines, owner, repo, args } ==> {
                    &&& owner@ == src.owner->0 && repo@ == src.repo->0
                    &&& args.deep_view() == install::args_for(owner@, repo@, None)
                    &&& json ==> lines@.len() == 0
                    &&& !json ==> lines.deep_view() == seq![
                        LineView::Say(
                            "  ["@ + id@ + "] untracking: reinstalling "@ + owner@ + "/"@ + repo@
                                + " without --ref (default branch)"@,
                        ),
                    ]
                }
                &&& r matches Untrack::Stop(end) ==> {
                    let lines = end.lines.deep_view();
                    let head = "error: plugin '"@ + id@;
                    &&& end.exit == 2 && lines.len() == 1
                    &&& found is None ==> lines[0] == LineView::Note(
                        head + "' not found in the herdr registry"@,
                    )
                    &&& found is Some && found->0.source is None ==> lines[0] == LineView::Note(
                        head + "' is not a GitHub-installed plugin"@,
                    )
                    &&& found is Some && found->0.source is Some && !recorded ==> lines[0]
                        == LineView::Note(head + "' has no owner/repo recorded in the registry"@)
                    &&& recorded && !valid ==> lines[0] == LineView::Note(
                        head + "' has an invalid owner/repo recorded in the registry"@,
                    )
                    &&& valid ==> lines[0] == LineView::Note(
                        head + "' is not pinned to a commit (requested_ref: "@ + (
                        match src.requested_ref {
                            Some(at) => at,
                            None => "<none>"@,
                        }) + ")"@,
                    )
                }
            },
        },
{
    match r {
        Untrack::Stop(end) => {
            assert(end.lines.deep_view() == end.deep_view().lines);
        },
        Untrack::Install { lines, owner, repo, args } => {
            assert(lines.deep_view().len() == lines@.len());
            assert(r.deep_view() == (UntrackView::Install {
                lines: lines.deep_view(),
                owner: owner@,
                repo: repo@,
                args: args.deep_view(),
            }));
        },
    }
}

/// A reinstall that failed ends the command badly and with its warning; one that
/// succeeded goes on.
pub proof fn failed_reinstalls_end_the_command(
    bin: &str,
    owner: &str,
    repo: &str,
    run: &InstallRun,
    r: Option<Report>,
)
    requires
        call_ensures(untrack_installed, (bin, owner, repo, run), r),
    ensures
        r is None <==> *run is Exited && run->ok,
        r matches Some(end) ==> end.exit == 1 && end.lines@.len() == 1 && end.lines@[0] is Note,
{
    install::failures_are_reported(bin@, owner@, repo@, *run);
    if let Some(end) = r {
        let lines = end.lines.deep_view();
        assert(lines == end.deep_view().lines);
        assert(lines.len() == end.lines@.len());
        assert(lines[0] == end.lines@[0].deep_view());
    }
}

/// The command ends well unless the registry still shows a pin to a commit. That
/// the plugin cannot be found then, or the plugins cannot be listed, is no pin.
pub proof fn the_registry_has_the_last_word(
    id: &str,
    listed: &Result<Vec<Plugin>, String>,
    json: bool,
    r: Report,
)
    requires
        call_ensures(untrack_end, (id, listed, json), r),
    ensures
        ({
            let found = match *listed {
                Ok(plugins) => registry::listed(plugins.deep_view(), id@),
                Err(_) => None,
            };
            let still = found is Some && found->0.source is Some && updater::kind_of(
                found->0.source->0.requested_ref,
            ) == RefKind::Commit;
            &&& still ==> r.exit == 1 && r.lines.deep_view() == seq![
                LineView::Note(
                    "  ["@ + id@
                        + "] warning: registry still records a commit pin after reinstall"@,
                ),
            ]
            &&& !still ==> r.exit == 0
            &&& !still && json ==> r.lines@.len() == 0
            &&& !still && !json ==> r.lines.deep_view() == seq![
                LineView::Say(
                    "  ["@ + id@
                        + "] now tracking the default branch; run `herdr-auto-update update` to apply available updates"@,
                ),
            ]
        }),
{
    assert(r.lines.deep_view() == r.deep_view().lines);
    assert(r.lines.deep_view().len() == r.lines@.len());
}

/// A plugin has to be named: without an id the command is bad usage and says how
/// it is used.
pub proof fn a_plugin_has_to_be_named(r: Report)
    requires
        call_ensures(untrack_usage, (), r),
    ensures
        r.exit == 2,
        r.lines.deep_view() == seq![
            LineView::Note("error: untrack requires --only <plugin_id> (one plugin at a time)"@),
            LineView::Note("usage: herdr-auto-update untrack --only <plugin_id>"@),
        ],
{
    assert(r.lines.deep_view() == r.deep_view().lines);
}

} // verus!
