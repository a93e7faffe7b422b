//! Reinstalling a plugin through herdr. There is no separate way to update a
//! plugin: a reinstall replaces the managed checkout and keeps what the plugin
//! has configured and stored.

use crate::report;
use crate::report::Line;
use crate::report::LineView;
use vstd::prelude::*;

verus! {

/// How a run of herdr's installer ended.
#[derive(Debug)]
pub enum InstallRun {
    /// It ran; whether it succeeded, and its exit status in words.
    Exited { ok: bool, status: String },
    /// It could not be run, and why.
    CannotRun(String),
}

/// The arguments behind the herdr program that install a repository at a ref, or
/// at the default branch where there is none.
pub open spec fn args_for(
    owner: Seq<char>,
    repo: Seq<char>,
    requested_ref: Option<Seq<char>>,
) -> Seq<Seq<char>> {
    let place = owner + "/"@ + repo;
    match requested_ref {
        Some(r) => seq!["plugin"@, "install"@, place, "--ref"@, r, "--yes"@],
        None => seq!["plugin"@, "install"@, place, "--yes"@],
    }
}

/// The arguments behind the herdr program that install a repository. A plugin
/// that was installed at a ref is reinstalled at that ref.
pub fn install_args(owner: &str, repo: &str, requested_ref: Option<&str>) -> (r: Vec<String>)
    ensures
        r.deep_view() == args_for(owner@, repo@, requested_ref.deep_view()),
{
    let mut place = owner.to_owned();
    place.append("/");
    place.append(repo);
    let args: Vec<String> = match requested_ref {
        Some(r) => vec![
            "plugin".to_owned(),
            "install".to_owned(),
            place,
            "--ref".to_owned(),
            r.to_owned(),
            "--yes".to_owned(),
        ],
        None => vec!["plugin".to_owned(), "install".to_owned(), place, "--yes".to_owned()],
    };
    assert(args.deep_view() =~= args_for(owner@, repo@, requested_ref.deep_view()));
    args
}

/// Whether the installer succeeded.
pub open spec fn installed(run: InstallRun) -> bool {
    run matches InstallRun::Exited { ok, .. } && ok
}

/// What is said of an installer that failed.
pub open spec fn complaint(
    bin: Seq<char>,
    owner: Seq<char>,
    repo: Seq<char>,
    run: InstallRun,
) -> Seq<LineView> {
    match run {
        InstallRun::Exited { ok, status } => if ok {
            Seq::empty()
        } else {
            seq![
                LineView::Note(
                    "  install for "@ + owner + "/"@ + repo + " failed with "@ + status@,
                ),
            ]
        },
        InstallRun::CannotRun(e) => seq![
            LineView::Note("  cannot run '"@ + bin + "': "@ + e@),
        ],
    }
}

/// Whether the installer succeeded, and what is said where it did not. `bin` is
/// the herdr program.
pub fn install_result(bin: &str, owner: &str, repo: &str, run: &InstallRun) -> (r: (
    bool,
    Vec<Line>,
))
    ensures
        r.0 == installed(*run),
        r.1.deep_view() == complaint(bin@, owner@, repo@, *run),
{
    match run {
        InstallRun::Exited { ok, status } => {
            if *ok {
                (true, report::no_lines())
            } else {
                let mut s = "  install for ".to_owned();
                s.append(owner);
                s.append("/");
                s.append(repo);
                s.append(" failed with ");
                s.append(status.as_str());
                (false, report::one_warning(s))
            }
        },
        InstallRun::CannotRun(e) => {
            let mut s = "  cannot run '".to_owned();
            s.append(bin);
            s.append("': ");
            s.append(e.as_str());
            (false, report::one_warning(s))
        },
    }
}

/// An installer that failed is always reported, and one that succeeded never.
pub proof fn failures_are_reported(
    bin: Seq<char>,
    owner: Seq<char>,
    repo: Seq<char>,
    run: InstallRun,
)
    ensures
        installed(run) <==> complaint(bin, owner, repo, run).len() == 0,
{
}

/// A repository is installed by its name, without questions, and at exactly the
/// ref that is asked for; without one no ref is handed on at all.
pub proof fn the_ref_is_handed_on(
    owner: &str,
    repo: &str,
    requested_ref: Option<&str>,
    r: Vec<String>,
)
    requires
        call_ensures(install_args, (owner, repo, requested_ref), r),
    ensures
        r@[0]@ == "plugin"@,
        r@[1]@ == "install"@,
        r@[2]@ == owner@ + "/"@ + repo@,
        r@.last()@ == "--yes"@,
        requested_ref matches Some(at) ==> r@.len() == 6 && r@[3]@ == "--ref"@ && r@[4]@ == at@,
        requested_ref is None ==> r@.len() == 4,
{
    let args = r.deep_view();
    assert(args.len() == r@.len());
    assert forall|i: int| 0 <= i < args.len() implies args[i] == (#[trigger] r@[i])@ by {}
    assert(args[0] == r@[0]@ && args[1] == r@[1]@ && args[2] == r@[2]@);
    assert(args[args.len() - 1] == r@[args.len() - 1]@);
    if requested_ref is Some {
        assert(args[3] == r@[3]@ && args[4] == r@[4]@);
    }
}

/// Two refs that differ, and a ref and none, are installed with arguments that
/// differ.
pub proof fn refs_are_told_apart(
    owner: Seq<char>,
    repo: Seq<char>,
    a: Option<Seq<char>>,
    b: Option<Seq<char>>,
)
    ensures
        args_for(owner, repo, a) == args_for(owner, repo, b) <==> a == b,
{
    let x = args_for(owner, repo, a);
    let y = args_for(owner, repo, b);
    if x == y {
        assert(x.len() == y.len());
        assert(x[4] == y[4]);
    }
}

/// An install counts as done only where the installer ran and succeeded. Of one
/// that did not, one warning is printed: which repository it was for and how it
/// ended, or which program could not be run and why.
pub proof fn only_success_is_success(
    bin: &str,
    owner: &str,
    repo: &str,
    run: &InstallRun,
    r: (bool, Vec<Line>),
)
    requires
        call_ensures(install_result, (bin, owner, repo, run), r),
    ensures
        r.0 <==> (*run is Exited && run->ok),
        r.0 ==> r.1@.len() == 0,
        !r.0 ==> r.1@.len() == 1 && r.1@[0] is Note,
        *run matches InstallRun::Exited { ok, status } ==> !ok ==> r.1@[0]->Note_0@
            == "  install for "@ + (owner@ + "/"@ + repo@) + (" failed with "@ + status@),
        *run matches InstallRun::CannotRun(e) ==> r.1@[0]->Note_0@ == "  cannot run '"@ + (bin@
            + "': "@ + e@),
{
    let lines = r.1.deep_view();
    assert(lines.len() == r.1@.len());
    if !r.0 {
        assert(lines[0] == r.1@[0].deep_view());
        let said = r.1@[0]->Note_0@;
        match *run {
            InstallRun::Exited { ok, status } => {
                assert(said =~= "  install for "@ + (owner@ + "/"@ + repo@) + (" failed with "@
                    + status@));
            },
            InstallRun::CannotRun(e) => {
                assert(said =~= "  cannot run '"@ + (bin@ + "': "@ + e@));
            },
        }
    }
}

} // verus!
