//! What running another program gives back, and which program to run.

use crate::text;
use vstd::prelude::*;

verus! {

/// What a program that was run left behind.
#[derive(Debug)]
pub struct ToolOutput {
    /// Whether it exited successfully.
    pub ok: bool,
    /// Its exit status in words.
    pub status: String,
    pub stdout: Vec<u8>,
    pub stderr: Vec<u8>,
}

/// The value of an environment variable, unless it is blank.
pub open spec fn nonblank(value: Option<Seq<char>>) -> Option<Seq<char>> {
    match value {
        Some(v) => if text::trimmed(v).len() == 0 {
            None
        } else {
            Some(v)
        },
        None => None,
    }
}

/// The value of an environment variable, unless it is unset or blank.
pub fn env_nonempty(value: Option<&str>) -> (r: Option<String>)
    ensures
        r.deep_view() == nonblank(value.deep_view()),
{
    match value {
        Some(v) => if text::is_blank(v) {
            None
        } else {
            Some(v.to_owned())
        },
        None => None,
    }
}

/// The program that an environment variable names, or the usual one.
pub open spec fn chosen(value: Option<Seq<char>>, usual: Seq<char>) -> Seq<char> {
    match nonblank(value) {
        Some(v) => v,
        None => usual,
    }
}

fn choose_tool(value: Option<&str>, usual: &str) -> (r: String)
    ensures
        r@ == chosen(value.deep_view(), usual@),
{
    match env_nonempty(value) {
        Some(v) => v,
        None => usual.to_owned(),
    }
}

/// The herdr program, given the value of `HERDR_BIN_PATH`.
pub fn herdr_bin(value: Option<&str>) -> (r: String)
    ensures
        r@ == chosen(value.deep_view(), "herdr"@),
{
    choose_tool(value, "herdr")
}

/// The git program, given the value of `HERDR_AUTO_UPDATE_GIT`.
pub fn git_bin(value: Option<&str>) -> (r: String)
    ensures
        r@ == chosen(value.deep_view(), "git"@),
{
    choose_tool(value, "git")
}

/// The curl program, given the value of `HERDR_AUTO_UPDATE_CURL`.
pub fn curl_bin(value: Option<&str>) -> (r: String)
    ensures
        r@ == chosen(value.deep_view(), "curl"@),
{
    choose_tool(value, "curl")
}

/// How a program that is being waited for is found.
#[derive(Debug)]
pub enum Poll {
    /// It has exited.
    Exited,
    /// It is still running.
    Running,
    /// It cannot be waited for, and why.
    Lost(String),
}

/// What is done with a program that is being waited for.
#[derive(Debug)]
pub enum Wait {
    /// Collect what it left behind.
    Collect,
    /// Sleep a little and look again.
    Again,
    /// Kill it and everything that it started, and report this.
    Kill(String),
}

/// The message about a program that cannot be started.
pub open spec fn start_failure(bin: Seq<char>, e: Seq<char>) -> Seq<char> {
    "cannot run "@ + bin + ": "@ + e
}

/// The message about a program that cannot be started.
pub fn start_error(bin: &str, e: &str) -> (r: String)
    ensures
        r@ == start_failure(bin@, e@),
{
    let mut s = "cannot run ".to_owned();
    s.append(bin);
    s.append(": ");
    s.append(e);
    s
}

/// Whether there is a deadline: a timeout of zero is none.
pub fn has_deadline(timeout_secs: u64) -> (r: bool)
    ensures
        r == (timeout_secs != 0),
{
    timeout_secs != 0
}

/// Decides what is done with a program that is being waited for. One that still
/// runs when its time is up is killed, so that it cannot be waited for forever.
pub fn poll_step(bin: &str, found: &Poll, time_is_up: bool, timeout_secs: u64) -> (r: Wait)
    ensures
        match *found {
            Poll::Exited => r is Collect,
            Poll::Running => if time_is_up {
                r is Kill && r->Kill_0@ == bin@ + " timed out after "@ + text::decimal(
                    timeout_secs as nat,
                ) + "s"@
            } else {
                r is Again
            },
            Poll::Lost(e) => r is Kill && r->Kill_0@ == "cannot wait for "@ + bin@ + ": "@ + e@,
        },
{
    match found {
        Poll::Exited => Wait::Collect,
        Poll::Running => {
            if time_is_up {
                let mut s = bin.to_owned();
                s.append(" timed out after ");
                text::push_decimal(&mut s, timeout_secs);
                s.append("s");
                Wait::Kill(s)
            } else {
                Wait::Again
            }
        },
        Poll::Lost(e) => {
            let mut s = "cannot wait for ".to_owned();
            s.append(bin);
            s.append(": ");
            s.append(e.as_str());
            Wait::Kill(s)
        },
    }
}

/// A variable that is unset, or holds white space only, counts as not given; any
/// other value is taken as it is.
pub proof fn blank_is_not_given(value: Option<&str>, r: Option<String>)
    requires
        call_ensures(env_nonempty, (value,), r),
    ensures
        r is None <==> (value matches Some(v) ==> text::all_white(v@)),
        r matches Some(s) ==> value matches Some(v) && s@ == v@,
{
    if let Some(v) = value {
        text::blank_is_all_white(v@);
    }
}

/// Each program is the one that its variable names, and where that names none,
/// the usual one.
pub proof fn programs_can_be_named(
    value: Option<&str>,
    herdr: String,
    git: String,
    curl: String,
)
    requires
        call_ensures(herdr_bin, (value,), herdr),
        call_ensures(git_bin, (value,), git),
        call_ensures(curl_bin, (value,), curl),
    ensures
        value matches Some(v) ==> !text::all_white(v@) ==> herdr@ == v@ && git@ == v@ && curl@
            == v@,
        value is None || text::all_white(value->0@) ==> herdr@ == "herdr"@ && git@ == "git"@
            && curl@ == "curl"@,
{
    if let Some(v) = value {
        text::blank_is_all_white(v@);
    }
}

/// A program is waited for exactly as long as it runs and its time is not up.
/// One that exited is collected, whatever the time; any other is killed, and
/// what is reported of it names the program and the reason.
pub proof fn waiting_ends_when_the_time_is_up(
    bin: &str,
    found: &Poll,
    time_is_up: bool,
    timeout_secs: u64,
    r: Wait,
)
    requires
        call_ensures(poll_step, (bin, found, time_is_up, timeout_secs), r),
    ensures
        r is Collect <==> *found is Exited,
        r is Again <==> *found is Running && !time_is_up,
        r is Kill <==> *found is Lost || (*found is Running && time_is_up),
        *found is Running && time_is_up ==> r->Kill_0@ == bin@ + (" timed out after "@
            + text::decimal(timeout_secs as nat) + "s"@),
        *found matches Poll::Lost(e) ==> r->Kill_0@ == "cannot wait for "@ + (bin@ + ": "@ + e@),
{
    if *found is Running && time_is_up {
        assert(r->Kill_0@ =~= bin@ + (" timed out after "@ + text::decimal(timeout_secs as nat)
            + "s"@));
    }
    if let Poll::Lost(e) = *found {
        assert(r->Kill_0@ =~= "cannot wait for "@ + (bin@ + ": "@ + e@));
    }
}

/// A program that cannot be started is named, with the reason. There is a
/// deadline exactly where the timeout is not zero.
pub proof fn programs_that_cannot_start_are_named(
    bin: &str,
    e: &str,
    r: String,
    timeout_secs: u64,
    deadline: bool,
)
    requires
        call_ensures(start_error, (bin, e), r),
        call_ensures(has_deadline, (timeout_secs,), deadline),
    ensures
        r@ == "cannot run "@ + (bin@ + ": "@ + e@),
        deadline <==> timeout_secs > 0,
{
    assert(r@ =~= "cannot run "@ + (bin@ + ": "@ + e@));
}

} // verus!
