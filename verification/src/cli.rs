//! The command line: which command is run, with which flags.

use crate::config::Config;
use crate::config::ConfigView;
use crate::report;
use crate::report::LineView;
use crate::report::Report;
use crate::report::ReportView;
use crate::summary;
use crate::text;
use vstd::prelude::*;

verus! {

/// The version of the program.
pub const VERSION: &'static str = "1.0.8";

/// The help text.
pub const USAGE: &'static str = "\
herdr-auto-update - check/update installed herdr plugins

USAGE:
    herdr-auto-update <command> [--json] [--config <path>] [--only <plugin_id>]

COMMANDS:
    startup   check and reinstall outdated plugins (used by herdr's startup hook)
    check     report plugins with newer commits upstream; exit 1 if any
    update    check and reinstall all outdated plugins
    plan      report what an update would do; install nothing
    apply     carry out the plan (the same as update)
    rollback  reinstall the commit before the last update
    resume    rejoin the ref that was tracked before a rollback
    untrack   move one commit-pinned plugin to its default branch (needs --only)
    history   print the recorded updates and rollbacks

FLAGS:
    --json           machine-readable output
    --config <path>  override the plugin config file
    --only <id>      restrict the command to one plugin id
    -V, --version    print version
    -h, --help       print help

EXIT CODES:
    0   ok / everything up to date
    1   updates available (check/plan) or one or more reinstalls failed
    2   fatal error, bad usage, or one or more plugin checks errored
";

/// The position of the first argument that is `flag`.
pub open spec fn position(args: Seq<Seq<char>>, flag: Seq<char>) -> Option<int>
    decreases args.len(),
{
    if args.len() == 0 {
        None
    } else if args[0] == flag {
        Some(0)
    } else {
        match position(args.skip(1), flag) {
            Some(i) => Some(i + 1),
            None => None,
        }
    }
}

proof fn lemma_position(args: Seq<Seq<char>>, flag: Seq<char>)
    ensures
        match position(args, flag) {
            Some(i) => 0 <= i < args.len() && args[i] == flag && forall|j: int|
                0 <= j < i ==> args[j] != flag,
            None => !args.contains(flag),
        },
    decreases args.len(),
{
    if args.len() > 0 && args[0] != flag {
        let rest = args.skip(1);
        lemma_position(rest, flag);
        match position(rest, flag) {
            Some(i) => {
                assert(rest[i] == args[i + 1]);
                assert forall|j: int| 0 <= j < i + 1 implies args[j] != flag by {
                    if j > 0 {
                        assert(rest[j - 1] == args[j]);
                    }
                }
            },
            None => {
                if args.contains(flag) {
                    let j = choose|j: int| 0 <= j < args.len() && args[j] == flag;
                    assert(rest[j - 1] == flag);
                }
            },
        }
    }
}

fn find(args: &Vec<String>, flag: &str) -> (r: Option<usize>)
    ensures
        match r {
            Some(i) => position(args.deep_view(), flag@) == Some(i as int) && i < args.len(),
            None => position(args.deep_view(), flag@) is None,
        },
{
    let ghost all = args.deep_view();
    let mut i: usize = 0;
    proof {
        lemma_position(all, flag@);
    }
    while i < args.len()
        invariant
            all == args.deep_view(),
            i <= args.len(),
            forall|j: int| 0 <= j < i ==> all[j] != flag@,
            match position(all, flag@) {
                Some(k) => 0 <= k < all.len() && all[k] == flag@ && forall|j: int|
                    0 <= j < k ==> all[j] != flag@,
                None => !all.contains(flag@),
            },
        decreases args.len() - i,
    {
        if text::same(args[i].as_str(), flag) {
            assert(all[i as int] == flag@);
            return Some(i);
        }
        i = i + 1;
    }
    None
}

fn drop_at(args: &mut Vec<String>, i: usize) -> (r: String)
    requires
        i < old(args).len(),
    ensures
        r@ == old(args).deep_view()[i as int],
        final(args).deep_view() == old(args).deep_view().remove(i as int),
        final(args).len() == old(args).len() - 1,
{
    let ghost before = args.deep_view();
    let s = args.remove(i);
    assert(args.deep_view() =~= before.remove(i as int));
    s
}

/// Whether a flag is given, and the arguments without it.
pub open spec fn flag_taken(args: Seq<Seq<char>>, flag: Seq<char>) -> (bool, Seq<Seq<char>>) {
    match position(args, flag) {
        Some(i) => (true, args.remove(i)),
        None => (false, args),
    }
}

/// Takes the first `flag` out of the arguments and says whether there was one.
pub fn take_flag(args: &mut Vec<String>, flag: &str) -> (r: bool)
    ensures
        (r, final(args).deep_view()) == flag_taken(old(args).deep_view(), flag@),
{
    match find(args, flag) {
        Some(i) => {
            let _ = drop_at(args, i);
            true
        },
        None => false,
    }
}

/// The value behind a flag and the arguments without both; an error where the
/// flag is last or followed by another one, so that a flag is never taken for a
/// value.
pub open spec fn value_taken(args: Seq<Seq<char>>, flag: Seq<char>) -> (
    Result<Option<Seq<char>>, ()>,
    Seq<Seq<char>>,
) {
    match position(args, flag) {
        Some(i) => {
            let rest = args.remove(i);
            if i < rest.len() && !"-"@.is_prefix_of(rest[i]) {
                (Ok(Some(rest[i])), rest.remove(i))
            } else {
                (Err(()), rest)
            }
        },
        None => (Ok(None), args),
    }
}

/// Takes the first `flag` and the value behind it out of the arguments. An error
/// where there is no value or another flag in its place.
pub fn take_value(args: &mut Vec<String>, flag: &str) -> (r: Result<Option<String>, ()>)
    ensures
        (
            (match r {
                Ok(v) => Ok::<Option<Seq<char>>, ()>(v.deep_view()),
                Err(e) => Err::<Option<Seq<char>>, ()>(e),
            }),
            final(args).deep_view(),
        ) == value_taken(old(args).deep_view(), flag@),
{
    match find(args, flag) {
        Some(i) => {
            let _ = drop_at(args, i);
            if i < args.len() && !text::has_prefix(args[i].as_str(), "-") {
                Ok(Some(drop_at(args, i)))
            } else {
                Err(())
            }
        },
        None => Ok(None),
    }
}

/// A command line that was understood.
#[derive(Debug)]
pub struct Invocation {
    pub command: String,
    pub json: bool,
    pub config: Option<String>,
    pub only: Option<String>,
}

/// An `Invocation` as values.
pub struct InvocationView {
    pub command: Seq<char>,
    pub json: bool,
    pub config: Option<Seq<char>>,
    pub only: Option<Seq<char>>,
}

impl DeepView for Invocation {
    type V = InvocationView;

    open spec fn deep_view(&self) -> InvocationView {
        InvocationView {
            command: self.command@,
            json: self.json,
            config: self.config.deep_view(),
            only: self.only.deep_view(),
        }
    }
}

/// Bad usage: an error and the help text.
pub open spec fn bad_usage(error: Seq<char>) -> ReportView {
    ReportView {
        lines: seq![LineView::Note("error: "@ + error), LineView::Note(USAGE@)],
        exit: report::EXIT_ERROR,
    }
}

fn misused(error: &str) -> (r: Report)
    ensures
        r.deep_view() == bad_usage(error@),
{
    let mut s = "error: ".to_owned();
    s.append(error);
    let mut lines = report::one_warning(s);
    report::warn(&mut lines, USAGE.to_owned());
    let r = Report { lines, exit: report::EXIT_ERROR };
    assert(r.lines.deep_view() =~= bad_usage(error@).lines);
    r
}

/// What a command line asks for: help and version win over everything else, and
/// every argument has to be understood.
pub open spec fn understood(args: Seq<Seq<char>>) -> Result<InvocationView, ReportView> {
    if args.contains("-h"@) || args.contains("--help"@) {
        Err(ReportView { lines: seq![LineView::Say(USAGE@)], exit: report::EXIT_OK })
    } else if args.contains("-V"@) || args.contains("--version"@) {
        Err(
            ReportView {
                lines: seq![LineView::Say("herdr-auto-update "@ + VERSION@)],
                exit: report::EXIT_OK,
            },
        )
    } else if args.len() == 0 {
        Err(ReportView { lines: seq![LineView::Note(USAGE@)], exit: report::EXIT_ERROR })
    } else {
        let (json, a) = flag_taken(args.skip(1), "--json"@);
        let (config, b) = value_taken(a, "--config"@);
        let (only, c) = value_taken(b, "--only"@);
        if config is Err {
            Err(bad_usage("--config requires a path argument"@))
        } else if only is Err {
            Err(bad_usage("--only requires a plugin id argument"@))
        } else if c.len() > 0 {
            Err(bad_usage("unexpected argument(s): "@ + text::joined(c, " "@)))
        } else {
            Ok(InvocationView { command: args[0], json, config: config->Ok_0, only: only->Ok_0 })
        }
    }
}

/// An understood command line or the end of the program, as values.
pub open spec fn reading(r: Result<Invocation, Report>) -> Result<InvocationView, ReportView> {
    match r {
        Ok(i) => Ok(i.deep_view()),
        Err(e) => Err(e.deep_view()),
    }
}

/// Understands the arguments behind the program name. An `Err` ends the program:
/// help, version or bad usage.
pub fn parse(args: Vec<String>) -> (r: Result<Invocation, Report>)
    ensures
        reading(r) == understood(args.deep_view()),
{
    let ghost given = args.deep_view();
    if text::is_listed(&args, "-h") || text::is_listed(&args, "--help") {
        return Err(Report { lines: report::one_line(USAGE.to_owned()), exit: report::EXIT_OK });
    }
    if text::is_listed(&args, "-V") || text::is_listed(&args, "--version") {
        let mut s = "herdr-auto-update ".to_owned();
        s.append(VERSION);
        return Err(Report { lines: report::one_line(s), exit: report::EXIT_OK });
    }
    if args.len() == 0 {
        return Err(
            Report { lines: report::one_warning(USAGE.to_owned()), exit: report::EXIT_ERROR },
        );
    }
    let mut rest: Vec<String> = args;
    let command = drop_at(&mut rest, 0);
    assert(rest.deep_view() =~= given.skip(1));
    let json = take_flag(&mut rest, "--json");
    let config = match take_value(&mut rest, "--config") {
        Ok(v) => v,
        Err(_) => {
            return Err(misused("--config requires a path argument"));
        },
    };
    let only = match take_value(&mut rest, "--only") {
        Ok(v) => v,
        Err(_) => {
            return Err(misused("--only requires a plugin id argument"));
        },
    };
    if rest.len() > 0 {
        let mut s = "unexpected argument(s): ".to_owned();
        s.append(text::join(&rest, " ").as_str());
        return Err(misused(s.as_str()));
    }
    Ok(Invocation { command, json, config, only })
}

/// What is run.
#[derive(Debug, Clone, Copy, PartialEq, Eq, Structural)]
pub enum Command {
    Startup,
    Check,
    /// `update`, and `apply`, which is another name for it.
    Update,
    Plan,
    Rollback,
    Resume,
    Untrack,
    History,
}

/// The command of a name.
pub open spec fn command_named(name: Seq<char>) -> Option<Command> {
    if name == "startup"@ {
        Some(Command::Startup)
    } else if name == "check"@ {
        Some(Command::Check)
    } else if name == "update"@ {
        Some(Command::Update)
    } else if name == "plan"@ {
        Some(Command::Plan)
    } else if name == "apply"@ {
        Some(Command::Update)
    } else if name == "rollback"@ {
        Some(Command::Rollback)
    } else if name == "resume"@ {
        Some(Command::Resume)
    } else if name == "untrack"@ {
        Some(Command::Untrack)
    } else if name == "history"@ {
        Some(Command::History)
    } else {
        None
    }
}

fn find_command(name: &str) -> (r: Option<Command>)
    ensures
        r == command_named(name@),
{
    if text::same(name, "startup") {
        Some(Command::Startup)
    } else if text::same(name, "check") {
        Some(Command::Check)
    } else if text::same(name, "update") {
        Some(Command::Update)
    } else if text::same(name, "plan") {
        Some(Command::Plan)
    } else if text::same(name, "apply") {
        Some(Command::Update)
    } else if text::same(name, "rollback") {
        Some(Command::Rollback)
    } else if text::same(name, "resume") {
        Some(Command::Resume)
    } else if text::same(name, "untrack") {
        Some(Command::Untrack)
    } else if text::same(name, "history") {
        Some(Command::History)
    } else {
        None
    }
}

/// Whether a command is about all plugins and takes no plugin id.
pub open spec fn takes_no_id(c: Command) -> bool {
    c == Command::Startup || c == Command::History
}

/// The command of an invocation, or bad usage: a name that is no command, or a
/// plugin id for a command that takes none.
pub open spec fn selected(i: InvocationView) -> Result<Command, ReportView> {
    match command_named(i.command) {
        Some(c) => if takes_no_id(c) && i.only is Some {
            Err(bad_usage("--only cannot be used with "@ + i.command))
        } else {
            Ok(c)
        },
        None => Err(bad_usage("unknown command '"@ + i.command + "'"@)),
    }
}

/// Selects the command of an invocation. An `Err` ends the program.
pub fn select(i: &Invocation) -> (r: Result<Command, Report>)
    ensures
        (match r {
            Ok(c) => Ok::<Command, ReportView>(c),
            Err(e) => Err::<Command, ReportView>(e.deep_view()),
        }) == selected(i.deep_view()),
{
    match find_command(i.command.as_str()) {
        Some(c) => {
            if (c == Command::Startup || c == Command::History) && i.only.is_some() {
                let mut s = "--only cannot be used with ".to_owned();
                s.append(i.command.as_str());
                return Err(misused(s.as_str()));
            }
            Ok(c)
        },
        None => {
            let mut s = "unknown command '".to_owned();
            s.append(i.command.as_str());
            s.append("'");
            Err(misused(s.as_str()))
        },
    }
}

/// What is carried out: the startup hook is no task of its own.
#[derive(Debug, Clone, Copy, PartialEq, Eq, Structural)]
pub enum Job {
    Check,
    Update,
    Plan,
    Rollback,
    Resume,
    Untrack,
    History,
}

/// What is carried out, for which plugin, and how it is printed. Nothing else of
/// a command line reaches the work, but for the configuration.
#[derive(Debug)]
pub struct Task {
    pub job: Job,
    pub only: Option<String>,
    pub json: bool,
}

/// A `Task` as values.
pub struct TaskView {
    pub job: Job,
    pub only: Option<Seq<char>>,
    pub json: bool,
}

impl DeepView for Task {
    type V = TaskView;

    open spec fn deep_view(&self) -> TaskView {
        TaskView { job: self.job, only: self.only.deep_view(), json: self.json }
    }
}

/// The task of a command under a configuration, or the end of the program. The
/// startup hook is the update of all plugins, unless it is switched off.
pub open spec fn task_for(
    cfg: ConfigView,
    command: Command,
    only: Option<Seq<char>>,
    json: bool,
) -> Result<TaskView, ReportView> {
    match command {
        Command::Startup => match summary::startup_end(cfg, json) {
            Some(end) => Err(end),
            None => Ok(TaskView { job: Job::Update, only: None, json }),
        },
        Command::Check => Ok(TaskView { job: Job::Check, only, json }),
        Command::Update => Ok(TaskView { job: Job::Update, only, json }),
        Command::Plan => Ok(TaskView { job: Job::Plan, only, json }),
        Command::Rollback => Ok(TaskView { job: Job::Rollback, only, json }),
        Command::Resume => Ok(TaskView { job: Job::Resume, only, json }),
        Command::Untrack => Ok(TaskView { job: Job::Untrack, only, json }),
        Command::History => Ok(TaskView { job: Job::History, only, json }),
    }
}

/// The task of a command under a configuration. An `Err` ends the program.
pub fn task(cfg: &Config, command: Command, only: Option<String>, json: bool) -> (r: Result<
    Task,
    Report,
>)
    ensures
        (match r {
            Ok(t) => Ok::<TaskView, ReportView>(t.deep_view()),
            Err(e) => Err::<TaskView, ReportView>(e.deep_view()),
        }) == task_for(cfg.deep_view(), command, only.deep_view(), json),
{
    let job = match command {
        Command::Startup => {
            return match summary::startup_gate(cfg, json) {
                Some(end) => Err(end),
                None => Ok(Task { job: Job::Update, only: None, json }),
            };
        },
        Command::Check => Job::Check,
        Command::Update => Job::Update,
        Command::Plan => Job::Plan,
        Command::Rollback => Job::Rollback,
        Command::Resume => Job::Resume,
        Command::Untrack => Job::Untrack,
        Command::History => Job::History,
    };
    Ok(Task { job, only, json })
}

/// The startup hook is the same task as an update of all plugins where
/// `auto_update` is on. Where it is off, the program ends well before any task:
/// nothing is listed, checked or installed.
pub proof fn startup_is_the_update(cfg: ConfigView, json: bool)
    ensures
        cfg.auto_update ==> task_for(cfg, Command::Startup, None, json) == task_for(
            cfg,
            Command::Update,
            None,
            json,
        ),
        !cfg.auto_update ==> (task_for(cfg, Command::Startup, None, json) matches Err(end)
            && end.exit == report::EXIT_OK),
        task_for(cfg, Command::Update, None, json) == Ok::<TaskView, ReportView>(
            (TaskView { job: Job::Update, only: None, json }),
        ),
{
}

/// A flag is never taken for the value of another one: what is taken does not
/// begin with `-`.
pub proof fn flags_are_no_values(args: Seq<Seq<char>>, flag: Seq<char>)
    ensures
        value_taken(args, flag).0 matches Ok(Some(v)) ==> {
            &&& !"-"@.is_prefix_of(v)
            &&& args.contains(flag)
            &&& args.contains(v)
            &&& value_taken(args, flag).1.len() == args.len() - 2
        },
        value_taken(args, flag).0 matches Ok(None) ==> !args.contains(flag) && value_taken(
            args,
            flag,
        ).1 == args,
{
    lemma_position(args, flag);
    if position(args, flag) is Some {
        let i = position(args, flag)->0;
        let rest = args.remove(i);
        if i < rest.len() {
            assert(rest[i] == args[i + 1]);
        }
    }
}

/// `apply` does what `update` does.
pub proof fn apply_is_update()
    ensures
        command_named("apply"@) == command_named("update"@),
        command_named("update"@) == Some(Command::Update),
{
    reveal_strlit("apply");
    reveal_strlit("update");
    reveal_strlit("startup");
    reveal_strlit("check");
    reveal_strlit("plan");
    assert("apply"@[0] == 'a');
    assert("update"@[0] == 'u');
    assert("startup"@[0] == 's');
    assert("check"@[0] == 'c');
    assert("plan"@[0] == 'p');
}

/// A program that ends before a command is run prints something, and says that
/// all is well only where it was asked for help or its version.
pub proof fn usage_errors_are_errors(args: Seq<Seq<char>>)
    ensures
        understood(args) matches Err(end) ==> {
            &&& end.lines.len() > 0
            &&& end.exit == report::EXIT_OK <==> (args.contains("-h"@) || args.contains("--help"@)
                || args.contains("-V"@) || args.contains("--version"@))
            &&& end.exit == report::EXIT_OK || end.exit == report::EXIT_ERROR
        },
{
}

proof fn lemma_position_of(a: Seq<Seq<char>>, flag: Seq<char>, b: Seq<Seq<char>>)
    requires
        !a.contains(flag),
    ensures
        position(a + seq![flag] + b, flag) == Some(a.len() as int),
{
    let args = a + seq![flag] + b;
    lemma_position(args, flag);
    assert(args[a.len() as int] == flag);
    assert(args.contains(flag));
    let i = position(args, flag)->0;
    if i < a.len() {
        assert(args[i] == a[i]);
    }
}

/// A flag is taken wherever it stands: the first one is taken out and everything
/// else stays in place. Where there is none, nothing is taken.
pub proof fn flags_are_taken_anywhere(a: Seq<Seq<char>>, flag: Seq<char>, b: Seq<Seq<char>>)
    requires
        !a.contains(flag),
    ensures
        flag_taken(a + seq![flag] + b, flag) == (true, a + b),
        flag_taken(a, flag) == (false, a),
{
    lemma_position_of(a, flag, b);
    lemma_position(a, flag);
    assert((a + seq![flag] + b).remove(a.len() as int) =~= a + b);
}

/// The value of a flag is what stands behind the first one, and both are taken
/// out; where nothing or another flag stands there, it is an error. Where the
/// flag is not given, there is no value and nothing is taken.
pub proof fn values_stand_behind_their_flags(a: Seq<Seq<char>>, flag: Seq<char>, b: Seq<Seq<char>>)
    requires
        !a.contains(flag),
    ensures
        ({
            let taken = value_taken(a + seq![flag] + b, flag);
            let missing = b.len() == 0 || (b[0].len() > 0 && b[0][0] == '-');
            &&& missing ==> taken.0 is Err && taken.1 == a + b
            &&& !missing ==> taken.0 == Ok::<Option<Seq<char>>, ()>(Some(b[0])) && taken.1 == a
                + b.skip(1)
        }),
        value_taken(a, flag) == (Ok::<Option<Seq<char>>, ()>(None), a),
{
    let args = a + seq![flag] + b;
    let n = a.len() as int;
    lemma_position_of(a, flag, b);
    lemma_position(a, flag);
    let rest = args.remove(n);
    assert(rest =~= a + b);
    reveal_strlit("-");
    if b.len() > 0 {
        assert(rest[n] == b[0]);
        assert(rest.remove(n) =~= a + b.skip(1));
        let dash = "-"@;
        assert(dash.len() == 1 && dash[0] == '-');
        if b[0].len() > 0 && b[0][0] == '-' {
            assert(dash =~= b[0].subrange(0, 1));
        }
        if dash.is_prefix_of(b[0]) {
            assert(b[0].subrange(0, 1)[0] == b[0][0]);
        }
    }
}

/// Help and the version are printed wherever they are asked for, and end the
/// program well. Else a command line is understood exactly where it has a
/// command, the flags with a value have one and nothing is left over; each part
/// is then what was given.
pub proof fn command_lines_are_understood(args: Vec<String>, r: Result<Invocation, Report>)
    requires
        call_ensures(parse, (args,), r),
    ensures
        ({
            let given = args.deep_view();
            let help = given.contains("-h"@) || given.contains("--help"@);
            let version = given.contains("-V"@) || given.contains("--version"@);
            let (json, a) = flag_taken(given.skip(1), "--json"@);
            let (config, b) = value_taken(a, "--config"@);
            let (only, left) = value_taken(b, "--only"@);
            &&& r is Ok <==> !help && !version && given.len() > 0 && config is Ok && only is Ok
                && left.len() == 0
            &&& r matches Ok(i) ==> {
                &&& i.command@ == given[0]
                &&& i.json == json
                &&& i.config.deep_view() == config->Ok_0
                &&& i.only.deep_view() == only->Ok_0
            }
            &&& help ==> r->Err_0.exit == 0 && r->Err_0.lines.deep_view() == seq![
                LineView::Say(USAGE@),
            ]
            &&& !help && version ==> r->Err_0.exit == 0 && r->Err_0.lines.deep_view() == seq![
                LineView::Say("herdr-auto-update "@ + VERSION@),
            ]
            &&& r is Err && !help && !version ==> r->Err_0.exit == 2 && r->Err_0.lines.deep_view()
                == (if given.len() == 0 {
                seq![LineView::Note(USAGE@)]
            } else {
                let why = if config is Err {
                    "--config requires a path argument"@
                } else if only is Err {
                    "--only requires a plugin id argument"@
                } else {
                    "unexpected argument(s): "@ + text::joined(left, " "@)
                };
                seq![LineView::Note("error: "@ + why), LineView::Note(USAGE@)]
            })
        }),
{
    if let Err(end) = r {
        assert(end.lines.deep_view() == end.deep_view().lines);
    }
}

/// What a command line says is what is understood: a command, with or without
/// `--json`, a configuration file and a plugin id.
pub proof fn what_is_said_is_understood(
    command: Seq<char>,
    json: bool,
    config: Option<Seq<char>>,
    only: Option<Seq<char>>,
)
    requires
        command.len() > 0 && command[0] != '-',
        config matches Some(p) ==> !(p.len() > 0 && p[0] == '-'),
        only matches Some(id) ==> !(id.len() > 0 && id[0] == '-'),
    ensures
        ({
            let first = seq![command];
            let flag = if json {
                seq!["--json"@]
            } else {
                Seq::empty()
            };
            let path = match config {
                Some(p) => seq!["--config"@, p],
                None => Seq::empty(),
            };
            let id = match only {
                Some(id) => seq!["--only"@, id],
                None => Seq::empty(),
            };
            understood(first + flag + path + id) == Ok::<InvocationView, ReportView>(
                (InvocationView { command, json, config, only }),
            )
        }),
{
    let none = Seq::<Seq<char>>::empty();
    let flag = if json {
        seq!["--json"@]
    } else {
        none
    };
    let path = match config {
        Some(p) => seq!["--config"@, p],
        None => none,
    };
    let id = match only {
        Some(id) => seq!["--only"@, id],
        None => none,
    };
    let args = seq![command] + flag + path + id;
    reveal_strlit("-h");
    reveal_strlit("--help");
    reveal_strlit("-V");
    reveal_strlit("--version");
    reveal_strlit("--json");
    reveal_strlit("--config");
    reveal_strlit("--only");
    assert("-h"@[0] == '-' && "--help"@[0] == '-' && "-V"@[0] == '-' && "--version"@[0] == '-');
    assert("-h"@.len() == 2 && "-V"@.len() == 2 && "--help"@.len() == 6 && "--version"@.len() == 9);
    assert("--json"@.len() == 6 && "--config"@.len() == 8 && "--only"@.len() == 6);
    assert("--help"@[2] == 'h' && "--json"@[2] == 'j' && "--only"@[2] == 'o');
    assert forall|i: int| 0 <= i < args.len() implies {
        let x = #[trigger] args[i];
        ||| x == command
        ||| x == "--json"@
        ||| x == "--config"@
        ||| x == "--only"@
        ||| config == Some(x)
        ||| only == Some(x)
    } by {
        if i >= 1 {
            if i < 1 + flag.len() {
                assert(args[i] == flag[i - 1]);
            } else if i < 1 + flag.len() + path.len() {
                assert(args[i] == path[i - 1 - flag.len()]);
            } else {
                assert(args[i] == id[i - 1 - flag.len() - path.len()]);
            }
        }
    }
    assert(!args.contains("-h"@) && !args.contains("--help"@));
    assert(!args.contains("-V"@) && !args.contains("--version"@));
    let rest = args.skip(1);
    assert(rest =~= flag + path + id);
    let a = path + id;
    assert(!a.contains("--json"@)) by {
        if a.contains("--json"@) {
            let i = choose|i: int| 0 <= i < a.len() && a[i] == "--json"@;
            if i < path.len() {
                assert(a[i] == path[i]);
            } else {
                assert(a[i] == id[i - path.len()]);
            }
        }
    }
    if json {
        flags_are_taken_anywhere(none, "--json"@, a);
        assert(none + seq!["--json"@] + a =~= rest);
        assert(none + a =~= a);
    } else {
        flags_are_taken_anywhere(a, "--json"@, none);
        assert(rest =~= a);
    }
    assert(flag_taken(rest, "--json"@) == (json, a));
    assert(!id.contains("--config"@)) by {
        if id.contains("--config"@) {
            let i = choose|i: int| 0 <= i < id.len() && id[i] == "--config"@;
            assert(i == 0 || i == 1);
        }
    }
    if let Some(p) = config {
        values_stand_behind_their_flags(none, "--config"@, seq![p] + id);
        assert(none + seq!["--config"@] + (seq![p] + id) =~= a);
        assert((seq![p] + id).skip(1) =~= id);
        assert(none + id =~= id);
    } else {
        values_stand_behind_their_flags(id, "--config"@, none);
        assert(a =~= id);
    }
    if let Some(x) = only {
        values_stand_behind_their_flags(none, "--only"@, seq![x]);
        assert(none + seq!["--only"@] + seq![x] =~= id);
        assert(seq![x].skip(1) =~= none);
        assert(none + none =~= none);
    } else {
        assert(!none.contains("--only"@));
        values_stand_behind_their_flags(none, "--only"@, none);
    }
}

/// Every command has one name, but for the update, which has two; no other name
/// is a command.
pub proof fn commands_have_names(name: Seq<char>)
    ensures
        command_named(name) == Some(Command::Startup) <==> name == "startup"@,
        command_named(name) == Some(Command::Check) <==> name == "check"@,
        command_named(name) == Some(Command::Update) <==> name == "update"@ || name == "apply"@,
        command_named(name) == Some(Command::Plan) <==> name == "plan"@,
        command_named(name) == Some(Command::Rollback) <==> name == "rollback"@,
        command_named(name) == Some(Command::Resume) <==> name == "resume"@,
        command_named(name) == Some(Command::Untrack) <==> name == "untrack"@,
        command_named(name) == Some(Command::History) <==> name == "history"@,
{
    reveal_strlit("startup");
    reveal_strlit("check");
    reveal_strlit("update");
    reveal_strlit("plan");
    reveal_strlit("apply");
    reveal_strlit("rollback");
    reveal_strlit("resume");
    reveal_strlit("untrack");
    reveal_strlit("history");
    assert("startup"@[0] == 's' && "check"@[0] == 'c' && "update"@[0] == 'u' && "plan"@[0] == 'p');
    assert("apply"@[0] == 'a' && "rollback"@[0] == 'r' && "resume"@[0] == 'r');
    assert("untrack"@[0] == 'u' && "history"@[0] == 'h');
    assert("update"@[1] == 'p' && "untrack"@[1] == 'n');
    assert("rollback"@[1] == 'o' && "resume"@[1] == 'e');
}

/// A command is selected by its name. A name that is none is bad usage, and so is
/// a plugin id for the startup hook or the history, which are about all plugins.
pub proof fn commands_are_selected_by_name(i: &Invocation, r: Result<Command, Report>)
    requires
        call_ensures(select, (i,), r),
    ensures
        r is Ok <==> command_named(i.command@) is Some && !(i.only is Some && (command_named(
            i.command@,
        ) == Some(Command::Startup) || command_named(i.command@) == Some(Command::History))),
        r matches Ok(c) ==> command_named(i.command@) == Some(c),
        r matches Err(end) ==> end.exit == 2 && end.lines.deep_view() == seq![
            LineView::Note(
                if command_named(i.command@) is Some {
                    "error: "@ + ("--only cannot be used with "@ + i.command@)
                } else {
                    "error: "@ + ("unknown command '"@ + i.command@ + "'"@)
                },
            ),
            LineView::Note(USAGE@),
        ],
{
    if let Err(end) = r {
        assert(end.lines.deep_view() == end.deep_view().lines);
    }
}

/// Each command is carried out as what it is, for the plugin that was asked for
/// and with the output that was asked for. Only the startup hook is the update of
/// all plugins, and only that can end without a task: where `auto_update` is off.
pub proof fn commands_are_carried_out_as_asked(
    cfg: &Config,
    command: Command,
    only: Option<String>,
    json: bool,
    r: Result<Task, Report>,
)
    requires
        call_ensures(task, (cfg, command, only, json), r),
    ensures
        r is Err <==> command == Command::Startup && !cfg.auto_update,
        r matches Ok(t) ==> {
            &&& t.json == json
            &&& command == Command::Startup ==> t.only is None
            &&& command != Command::Startup ==> t.only.deep_view() == only.deep_view()
            &&& t.job == Job::Update <==> command == Command::Update || command
                == Command::Startup
            &&& t.job == Job::Check <==> command == Command::Check
            &&& t.job == Job::Plan <==> command == Command::Plan
            &&& t.job == Job::Rollback <==> command == Command::Rollback
            &&& t.job == Job::Resume <==> command == Command::Resume
            &&& t.job == Job::Untrack <==> command == Command::Untrack
            &&& t.job == Job::History <==> command == Command::History
        },
{
}

/// The values of an invocation are what it holds.
pub proof fn invocations_are_seen_whole(i: Invocation)
    ensures
        i.deep_view().command == i.command@,
        i.deep_view().json == i.json,
        i.deep_view().config == i.config.deep_view(),
        i.deep_view().only == i.only.deep_view(),
{
}

} // verus!
