//! The end of a run: what became of the plugins, in words, as JSON, as a desktop
//! notification and as an exit code.

use crate::apply::Outcome;
use crate::config::Config;
use crate::config::ConfigView;
use crate::config::Policy;
use crate::report;
use crate::report::Line;
use crate::report::LineView;
use crate::report::Report;
use crate::report::ReportView;
use crate::text;
use vstd::prelude::*;

verus! {

/// A plugin and what became of it.
#[derive(Debug)]
pub struct Settled {
    pub plugin_id: String,
    pub outcome: Outcome,
}

/// A `Settled` as values.
pub struct SettledView {
    pub plugin_id: Seq<char>,
    pub outcome: Outcome,
}

impl DeepView for Settled {
    type V = SettledView;

    open spec fn deep_view(&self) -> SettledView {
        SettledView { plugin_id: self.plugin_id@, outcome: self.outcome }
    }
}

/// The ids of the plugins that came to an outcome, in order.
pub open spec fn ids_with(done: Seq<SettledView>, outcome: Outcome) -> Seq<Seq<char>>
    decreases done.len(),
{
    if done.len() == 0 {
        Seq::empty()
    } else if done.last().outcome == outcome {
        ids_with(done.drop_last(), outcome).push(done.last().plugin_id)
    } else {
        ids_with(done.drop_last(), outcome)
    }
}

/// The ids of the plugins by what became of them.
#[derive(Debug)]
pub struct Tally {
    pub updated: Vec<String>,
    pub failed: Vec<String>,
    pub excluded: Vec<String>,
    pub held: Vec<String>,
    pub pinned: Vec<String>,
    pub errors: Vec<String>,
}

/// A `Tally` as values.
#[verifier::ext_equal]
pub struct TallyView {
    pub updated: Seq<Seq<char>>,
    pub failed: Seq<Seq<char>>,
    pub excluded: Seq<Seq<char>>,
    pub held: Seq<Seq<char>>,
    pub pinned: Seq<Seq<char>>,
    pub errors: Seq<Seq<char>>,
}

impl DeepView for Tally {
    type V = TallyView;

    open spec fn deep_view(&self) -> TallyView {
        TallyView {
            updated: self.updated.deep_view(),
            failed: self.failed.deep_view(),
            excluded: self.excluded.deep_view(),
            held: self.held.deep_view(),
            pinned: self.pinned.deep_view(),
            errors: self.errors.deep_view(),
        }
    }
}

/// The ids of the plugins by what became of them. Of a plugin that is up to date
/// nothing is kept.
pub open spec fn tally_of(done: Seq<SettledView>) -> TallyView {
    TallyView {
        updated: ids_with(done, Outcome::Updated),
        failed: ids_with(done, Outcome::Failed),
        excluded: ids_with(done, Outcome::Excluded),
        held: ids_with(done, Outcome::Held),
        pinned: ids_with(done, Outcome::Pinned),
        errors: ids_with(done, Outcome::Error),
    }
}

fn add_id(ids: &mut Vec<String>, id: &str)
    ensures
        final(ids).deep_view() == old(ids).deep_view().push(id@),
{
    ids.push(id.to_owned());
    assert(ids.deep_view() =~= old(ids).deep_view().push(id@));
}

/// Counts the plugins by what became of them.
pub fn tally(done: &Vec<Settled>) -> (r: Tally)
    ensures
        r.deep_view() == tally_of(done.deep_view()),
{
    let ghost all = done.deep_view();
    let mut t = Tally {
        updated: Vec::new(),
        failed: Vec::new(),
        excluded: Vec::new(),
        held: Vec::new(),
        pinned: Vec::new(),
        errors: Vec::new(),
    };
    assert(t.deep_view() =~~= tally_of(all.take(0)));
    let mut i: usize = 0;
    while i < done.len()
        invariant
            all == done.deep_view(),
            i <= done.len(),
            t.deep_view() == tally_of(all.take(i as int)),
        decreases done.len() - i,
    {
        let s = &done[i];
        assert(all.take(i + 1).drop_last() =~= all.take(i as int));
        assert(all.take(i + 1).last() == s.deep_view());
        match s.outcome {
            Outcome::Updated => add_id(&mut t.updated, s.plugin_id.as_str()),
            Outcome::Failed => add_id(&mut t.failed, s.plugin_id.as_str()),
            Outcome::Excluded => add_id(&mut t.excluded, s.plugin_id.as_str()),
            Outcome::Held => add_id(&mut t.held, s.plugin_id.as_str()),
            Outcome::Pinned => add_id(&mut t.pinned, s.plugin_id.as_str()),
            Outcome::Error => add_id(&mut t.errors, s.plugin_id.as_str()),
            Outcome::UpToDate => {},
        }
        i = i + 1;
    }
    assert(all.take(done.len() as int) =~= all);
    t
}

proof fn lemma_ids_some(done: Seq<SettledView>, outcome: Outcome)
    ensures
        ids_with(done, outcome).len() > 0 <==> exists|i: int|
            0 <= i < done.len() && (#[trigger] done[i]).outcome == outcome,
    decreases done.len(),
{
    if done.len() > 0 {
        let front = done.drop_last();
        lemma_ids_some(front, outcome);
        if exists|i: int| 0 <= i < front.len() && (#[trigger] front[i]).outcome == outcome {
            let i = choose|i: int| 0 <= i < front.len() && (#[trigger] front[i]).outcome == outcome;
            assert(done[i].outcome == outcome);
        }
        if exists|i: int| 0 <= i < done.len() && (#[trigger] done[i]).outcome == outcome {
            let i = choose|i: int| 0 <= i < done.len() && (#[trigger] done[i]).outcome == outcome;
            if i < front.len() {
                assert(front[i].outcome == outcome);
            }
        }
        assert(done[done.len() - 1] == done.last());
    }
}

/// Every plugin is counted once: under its outcome, or as up to date.
pub proof fn every_plugin_counts_once(done: Seq<SettledView>)
    ensures
        ({
            let t = tally_of(done);
            done.len() == t.updated.len() + t.failed.len() + t.excluded.len() + t.held.len()
                + t.pinned.len() + t.errors.len() + ids_with(done, Outcome::UpToDate).len()
        }),
    decreases done.len(),
{
    if done.len() > 0 {
        every_plugin_counts_once(done.drop_last());
    }
}

/// How a run exits: a failed check takes precedence over a failed install.
pub open spec fn run_exit(done: Seq<SettledView>) -> u8 {
    if exists|i: int| 0 <= i < done.len() && (#[trigger] done[i]).outcome == Outcome::Error {
        report::EXIT_ERROR
    } else if exists|i: int| 0 <= i < done.len() && (#[trigger] done[i]).outcome == Outcome::Failed {
        report::EXIT_PENDING
    } else {
        report::EXIT_OK
    }
}

/// Lists under their keys, in the order that they are handed to the writer.
pub open spec fn fields_of(t: TallyView) -> Seq<(Seq<char>, Seq<Seq<char>>)> {
    seq![
        ("updated"@, t.updated),
        ("failed"@, t.failed),
        ("excluded"@, t.excluded),
        ("held"@, t.held),
        ("pinned"@, t.pinned),
        ("errors"@, t.errors),
    ]
}

/// The JSON object that has these lists of texts under these keys, indented.
pub uninterp spec fn pretty_lists(fields: Seq<(Seq<char>, Seq<Seq<char>>)>) -> Seq<char>;

/// `serde_json::to_string_pretty` of an object that has these lists of texts
/// under these keys. It cannot fail on texts. What it writes is left to the name
/// `pretty_lists`; that it depends on the lists and keys alone is claimed.
#[verifier::external_body]
fn write_lists(fields: Vec<(String, Vec<String>)>) -> (r: String)
    ensures
        r@ == pretty_lists(fields.deep_view()),
{
    let object: serde_json::Map<String, serde_json::Value> = fields.into_iter().map(
        |(key, list)| (key, serde_json::Value::from(list)),
    ).collect();
    serde_json::to_string_pretty(&object).unwrap()
}

/// The lists of a tally under their keys.
pub fn report_fields(t: Tally) -> (r: Vec<(String, Vec<String>)>)
    ensures
        r.deep_view() == fields_of(t.deep_view()),
{
    let ghost v = t.deep_view();
    let fields: Vec<(String, Vec<String>)> = vec![
        ("updated".to_owned(), t.updated),
        ("failed".to_owned(), t.failed),
        ("excluded".to_owned(), t.excluded),
        ("held".to_owned(), t.held),
        ("pinned".to_owned(), t.pinned),
        ("errors".to_owned(), t.errors),
    ];
    assert(fields.deep_view() =~= fields_of(v));
    fields
}

/// The lines about plugins that stay at their commits.
pub open spec fn pin_lines(pinned: Seq<Seq<char>>) -> Seq<LineView> {
    if pinned.len() == 0 {
        Seq::empty()
    } else {
        seq![
            LineView::Note(
                "[herdr-auto-update] "@ + text::decimal(pinned.len())
                    + " plugin(s) are pinned to commits and cannot be auto-updated: "@
                    + text::joined(pinned, ", "@),
            ),
            LineView::Note(
                "[herdr-auto-update] hint: run `herdr-auto-update update` from a terminal to update pinned plugins interactively; `untrack --only <plugin_id>` switches one to the default branch non-interactively"@,
            ),
        ]
    }
}

/// `, `, a number and a word, where the number is not zero.
pub open spec fn counted(n: nat, word: Seq<char>) -> Seq<char> {
    if n == 0 {
        Seq::empty()
    } else {
        ", "@ + text::decimal(n) + word
    }
}

/// The last line of a run.
pub open spec fn summary_line(t: TallyView) -> Seq<char> {
    "[herdr-auto-update] "@ + text::decimal(t.updated.len()) + " updated, "@ + text::decimal(
        t.failed.len(),
    ) + " failed"@ + counted(t.held.len(), " held"@) + counted(t.pinned.len(), " pinned"@)
        + counted(t.errors.len(), " error(s)"@)
}

/// What a run prints at its end.
pub open spec fn final_lines(t: TallyView, json: bool) -> Seq<LineView> {
    if json {
        seq![LineView::Say(pretty_lists(fields_of(t)))]
    } else {
        pin_lines(t.pinned).push(LineView::Note(summary_line(t)))
    }
}

fn push_counted(s: &mut String, n: usize, word: &str)
    ensures
        final(s)@ == old(s)@ + counted(n as nat, word@),
{
    let ghost before = s@;
    if n > 0 {
        s.append(", ");
        text::push_decimal(s, n as u64);
        s.append(word);
    }
    assert(s@ =~= before + counted(n as nat, word@));
}

fn human_lines(t: &Tally) -> (r: Vec<Line>)
    ensures
        r.deep_view() == final_lines(t.deep_view(), false),
{
    let mut lines = report::no_lines();
    if t.pinned.len() > 0 {
        let mut s = "[herdr-auto-update] ".to_owned();
        text::push_decimal(&mut s, t.pinned.len() as u64);
        s.append(" plugin(s) are pinned to commits and cannot be auto-updated: ");
        s.append(text::join(&t.pinned, ", ").as_str());
        report::warn(&mut lines, s);
        report::warn(
            &mut lines,
            "[herdr-auto-update] hint: run `herdr-auto-update update` from a terminal to update pinned plugins interactively; `untrack --only <plugin_id>` switches one to the default branch non-interactively".to_owned(),
        );
    }
    let mut s = "[herdr-auto-update] ".to_owned();
    text::push_decimal(&mut s, t.updated.len() as u64);
    s.append(" updated, ");
    text::push_decimal(&mut s, t.failed.len() as u64);
    s.append(" failed");
    push_counted(&mut s, t.held.len(), " held");
    push_counted(&mut s, t.pinned.len(), " pinned");
    push_counted(&mut s, t.errors.len(), " error(s)");
    report::warn(&mut lines, s);
    assert(lines.deep_view() =~= final_lines(t.deep_view(), false));
    lines
}

/// The parts of a notification.
pub open spec fn notice_parts(t: TallyView) -> Seq<Seq<char>> {
    part(t.updated.len(), " plugin(s) updated"@) + part(t.failed.len(), " failed"@) + part(
        t.errors.len(),
        " could not be checked"@,
    ) + part(t.held.len(), " held by policy"@) + part(
        t.pinned.len(),
        " pinned to commits (not auto-updated)"@,
    )
}

/// A number and a word, where the number is not zero.
pub open spec fn part(n: nat, word: Seq<char>) -> Seq<Seq<char>> {
    if n == 0 {
        Seq::empty()
    } else {
        seq![text::decimal(n) + word]
    }
}

/// The arguments behind the herdr program that show a notification; none where
/// there is nothing to say or notifications are off.
pub open spec fn notice_args(notify: bool, t: TallyView) -> Option<Seq<Seq<char>>> {
    if !notify || notice_parts(t).len() == 0 {
        None
    } else {
        Some(
            seq![
                "notification"@,
                "show"@,
                "herdr-auto-update"@,
                "--body"@,
                text::joined(notice_parts(t), ", "@),
            ],
        )
    }
}

fn add_part(parts: &mut Vec<String>, n: usize, word: &str)
    ensures
        final(parts).deep_view() == old(parts).deep_view() + part(n as nat, word@),
{
    let ghost before = parts.deep_view();
    if n > 0 {
        let mut s = text::decimal_text(n as u64);
        s.append(word);
        parts.push(s);
    }
    assert(parts.deep_view() =~= before + part(n as nat, word@));
}

/// The arguments behind the herdr program that show a desktop notification about
/// a run; none where there is nothing to say or notifications are off.
pub fn notification(notify: bool, t: &Tally) -> (r: Option<Vec<String>>)
    ensures
        r.deep_view() == notice_args(notify, t.deep_view()),
{
    let mut parts: Vec<String> = Vec::new();
    assert(parts.deep_view() =~= Seq::empty());
    add_part(&mut parts, t.updated.len(), " plugin(s) updated");
    add_part(&mut parts, t.failed.len(), " failed");
    add_part(&mut parts, t.errors.len(), " could not be checked");
    add_part(&mut parts, t.held.len(), " held by policy");
    add_part(&mut parts, t.pinned.len(), " pinned to commits (not auto-updated)");
    assert(parts.deep_view() =~= notice_parts(t.deep_view()));
    if !notify || parts.len() == 0 {
        return None;
    }
    let args: Vec<String> = vec![
        "notification".to_owned(),
        "show".to_owned(),
        "herdr-auto-update".to_owned(),
        "--body".to_owned(),
        text::join(&parts, ", "),
    ];
    assert(args.deep_view() =~= notice_args(notify, t.deep_view())->0);
    Some(args)
}

/// What is left to do at the end of a run.
#[derive(Debug)]
pub struct RunEnd {
    pub report: Report,
    /// The arguments behind the herdr program that show a notification.
    pub notification: Option<Vec<String>>,
}

/// Ends a run: what is printed, how it exits, and the notification. With `json`
/// there is none.
pub fn end_run(cfg: &Config, done: &Vec<Settled>, json: bool) -> (r: RunEnd)
    ensures
        r.report.deep_view() == (ReportView {
            lines: final_lines(tally_of(done.deep_view()), json),
            exit: run_exit(done.deep_view()),
        }),
        r.notification.deep_view() == (if json {
            None
        } else {
            notice_args(cfg.deep_view().notify, tally_of(done.deep_view()))
        }),
{
    let t = tally(done);
    proof {
        lemma_ids_some(done.deep_view(), Outcome::Error);
        lemma_ids_some(done.deep_view(), Outcome::Failed);
    }
    let exit: u8 = if t.errors.len() > 0 {
        report::EXIT_ERROR
    } else if t.failed.len() > 0 {
        report::EXIT_PENDING
    } else {
        report::EXIT_OK
    };
    if json {
        let ghost v = t.deep_view();
        let lines = report::one_line(write_lists(report_fields(t)));
        assert(lines.deep_view() =~= final_lines(v, true));
        RunEnd { report: Report { lines, exit }, notification: None }
    } else {
        let lines = human_lines(&t);
        RunEnd { report: Report { lines, exit }, notification: notification(cfg.notify, &t) }
    }
}

/// The note that is printed where the policy is left to its default.
pub open spec fn policy_note(cfg: ConfigView, json: bool) -> Seq<LineView> {
    if !json && cfg.policy == Policy::Notify && !cfg.policy_explicit {
        seq![
            LineView::Note(
                "[herdr-auto-update] note: `policy` is not set; defaulting to \"notify\" (v1.0). Set policy = \"auto\" to reinstall updates automatically."@,
            ),
        ]
    } else {
        Seq::empty()
    }
}

/// The note that is printed before a run where the policy is left to its
/// default.
pub fn start_lines(cfg: &Config, json: bool) -> (r: Vec<Line>)
    ensures
        r.deep_view() == policy_note(cfg.deep_view(), json),
{
    if !json && cfg.policy == Policy::Notify && !cfg.policy_explicit {
        report::one_warning(
            "[herdr-auto-update] note: `policy` is not set; defaulting to \"notify\" (v1.0). Set policy = \"auto\" to reinstall updates automatically.".to_owned(),
        )
    } else {
        report::no_lines()
    }
}

/// How the startup hook ends where it does nothing: with `auto_update` off.
pub open spec fn startup_end(cfg: ConfigView, json: bool) -> Option<ReportView> {
    if cfg.auto_update {
        None
    } else {
        Some(
            ReportView {
                lines: if json {
                    Seq::empty()
                } else {
                    seq![
                        LineView::Note(
                            "[herdr-auto-update] auto_update disabled; skipping startup check"@,
                        ),
                    ]
                },
                exit: report::EXIT_OK,
            },
        )
    }
}

/// How the startup hook ends where it does nothing: with `auto_update` off it
/// ends at once, without a check; else it goes on.
pub fn startup_gate(cfg: &Config, json: bool) -> (r: Option<Report>)
    ensures
        r.deep_view() == startup_end(cfg.deep_view(), json),
{
    if cfg.auto_update {
        return None;
    }
    let lines = if json {
        report::no_lines()
    } else {
        report::one_warning(
            "[herdr-auto-update] auto_update disabled; skipping startup check".to_owned(),
        )
    };
    Some(Report { lines, exit: report::EXIT_OK })
}

/// How a command ends that failed before it began: with an error line.
pub fn fatal(error: &str) -> (r: Report)
    ensures
        r.deep_view() == (ReportView {
            lines: seq![LineView::Note("error: "@ + error@)],
            exit: report::EXIT_ERROR,
        }),
{
    let mut s = "error: ".to_owned();
    s.append(error);
    Report { lines: report::one_warning(s), exit: report::EXIT_ERROR }
}

/// The plugins that came to an outcome are listed in order and each as often as
/// it came to it: those of two stretches of a run one behind the other, and one
/// alone exactly where the outcome is its own.
pub proof fn plugins_are_listed_by_outcome(
    a: Seq<SettledView>,
    b: Seq<SettledView>,
    one: SettledView,
    outcome: Outcome,
)
    ensures
        ids_with(a + b, outcome) == ids_with(a, outcome) + ids_with(b, outcome),
        one.outcome == outcome ==> ids_with(seq![one], outcome) == seq![one.plugin_id],
        one.outcome != outcome ==> ids_with(seq![one], outcome).len() == 0,
        ids_with(Seq::empty(), outcome).len() == 0,
    decreases b.len(),
{
    reveal_with_fuel(ids_with, 2);
    assert(seq![one].drop_last() =~= Seq::<SettledView>::empty());
    if one.outcome == outcome {
        assert(ids_with(seq![one], outcome) =~= seq![one.plugin_id]);
    }
    if b.len() == 0 {
        assert(a + b =~= a);
        assert(ids_with(a, outcome) + ids_with(b, outcome) =~= ids_with(a, outcome));
    } else {
        assert((a + b).drop_last() =~= a + b.drop_last());
        plugins_are_listed_by_outcome(a, b.drop_last(), one, outcome);
        assert(ids_with(a + b, outcome) =~= ids_with(a, outcome) + ids_with(b, outcome));
    }
}

/// Each list of a tally holds the plugins of its outcome.
pub proof fn tallies_go_by_outcome(done: &Vec<Settled>, t: Tally)
    requires
        call_ensures(tally, (done,), t),
    ensures
        t.updated.deep_view() == ids_with(done.deep_view(), Outcome::Updated),
        t.failed.deep_view() == ids_with(done.deep_view(), Outcome::Failed),
        t.excluded.deep_view() == ids_with(done.deep_view(), Outcome::Excluded),
        t.held.deep_view() == ids_with(done.deep_view(), Outcome::Held),
        t.pinned.deep_view() == ids_with(done.deep_view(), Outcome::Pinned),
        t.errors.deep_view() == ids_with(done.deep_view(), Outcome::Error),
{
}

/// The machine-readable report has the six lists under their names, whole and in
/// this order.
pub proof fn lists_have_their_names(t: Tally, r: Vec<(String, Vec<String>)>)
    requires
        call_ensures(report_fields, (t,), r),
    ensures
        r@.len() == 6,
        r@[0].0@ == "updated"@ && r@[0].1.deep_view() == t.updated.deep_view(),
        r@[1].0@ == "failed"@ && r@[1].1.deep_view() == t.failed.deep_view(),
        r@[2].0@ == "excluded"@ && r@[2].1.deep_view() == t.excluded.deep_view(),
        r@[3].0@ == "held"@ && r@[3].1.deep_view() == t.held.deep_view(),
        r@[4].0@ == "pinned"@ && r@[4].1.deep_view() == t.pinned.deep_view(),
        r@[5].0@ == "errors"@ && r@[5].1.deep_view() == t.errors.deep_view(),
{
    let fields = r.deep_view();
    assert(fields.len() == r@.len());
    assert(fields[0] == r@[0].deep_view() && fields[1] == r@[1].deep_view());
    assert(fields[2] == r@[2].deep_view() && fields[3] == r@[3].deep_view());
    assert(fields[4] == r@[4].deep_view() && fields[5] == r@[5].deep_view());
}

/// A run exits with 2 exactly where a plugin could not be checked, with 1 exactly
/// where none could not and an install failed, and else with 0. With
/// machine-readable output the six lists are all that is printed, and there is no
/// notification.
pub proof fn runs_exit_by_what_became_of_them(
    cfg: &Config,
    done: &Vec<Settled>,
    json: bool,
    t: Tally,
    note: Option<Vec<String>>,
    r: RunEnd,
)
    requires
        call_ensures(end_run, (cfg, done, json), r),
        call_ensures(tally, (done,), t),
        call_ensures(notification, (cfg.notify, &t), note),
    ensures
        ({
            let unchecked = exists|i: int|
                0 <= i < done@.len() && (#[trigger] done@[i]).outcome == Outcome::Error;
            let failed = exists|i: int|
                0 <= i < done@.len() && (#[trigger] done@[i]).outcome == Outcome::Failed;
            &&& unchecked ==> r.report.exit == 2
            &&& !unchecked && failed ==> r.report.exit == 1
            &&& !unchecked && !failed ==> r.report.exit == 0
            &&& json ==> r.notification is None
            &&& json ==> r.report.lines.deep_view() == seq![
                LineView::Say(pretty_lists(fields_of(t.deep_view()))),
            ]
            &&& !json ==> r.notification.deep_view() == note.deep_view()
        }),
{
    let all = done.deep_view();
    assert(r.report.lines.deep_view() == r.report.deep_view().lines);
    assert forall|i: int| 0 <= i < done@.len() implies all[i] == (
    #[trigger] done@[i]).deep_view() by {}
    if exists|i: int| 0 <= i < all.len() && (#[trigger] all[i]).outcome == Outcome::Error {
        let i = choose|i: int| 0 <= i < all.len() && (#[trigger] all[i]).outcome == Outcome::Error;
        assert(done@[i].outcome == Outcome::Error);
    }
    if exists|i: int| 0 <= i < all.len() && (#[trigger] all[i]).outcome == Outcome::Failed {
        let i = choose|i: int| 0 <= i < all.len() && (#[trigger] all[i]).outcome == Outcome::Failed;
        assert(done@[i].outcome == Outcome::Failed);
    }
}

/// A number and its word, with a comma in front, where the number is not zero.
pub proof fn only_what_is_there_is_counted(n: nat, word: Seq<char>)
    ensures
        counted(n, word).len() == 0 || n > 0,
        part(n, word).len() == (if n > 0 {
            1nat
        } else {
            0nat
        }),
        n > 0 ==> counted(n, word) == ", "@ + (text::decimal(n) + word),
        n > 0 ==> part(n, word)[0] == text::decimal(n) + word,
{
    if n > 0 {
        assert(counted(n, word) =~= ", "@ + (text::decimal(n) + word));
    }
}

/// What a run prints for a reader at its end: how many plugins were updated and
/// how many failed, and how many were held, pinned or could not be checked where
/// there are any; in front of it the ids of the pinned ones, where there are any,
/// with a hint.
pub proof fn runs_are_summed_up(cfg: &Config, done: &Vec<Settled>, t: Tally, r: RunEnd)
    requires
        call_ensures(end_run, (cfg, done, false), r),
        call_ensures(tally, (done,), t),
    ensures
        ({
            let lines = r.report.lines.deep_view();
            let pinned = t.pinned@.len();
            &&& lines.len() == (if pinned > 0 {
                3int
            } else {
                1int
            })
            &&& lines.last() == LineView::Note(
                "[herdr-auto-update] "@ + text::decimal(t.updated@.len()) + " updated, "@
                    + text::decimal(t.failed@.len()) + " failed"@ + counted(
                    t.held@.len(),
                    " held"@,
                ) + counted(pinned, " pinned"@) + counted(t.errors@.len(), " error(s)"@),
            )
            &&& pinned > 0 ==> lines[0] == LineView::Note(
                "[herdr-auto-update] "@ + text::decimal(pinned)
                    + " plugin(s) are pinned to commits and cannot be auto-updated: "@
                    + text::joined(t.pinned.deep_view(), ", "@),
            ) && lines[1] == LineView::Note(
                "[herdr-auto-update] hint: run `herdr-auto-update update` from a terminal to update pinned plugins interactively; `untrack --only <plugin_id>` switches one to the default branch non-interactively"@,
            )
        }),
{
    let lines = r.report.lines.deep_view();
    assert(lines == r.report.deep_view().lines);
    assert(t.pinned.deep_view().len() == t.pinned@.len());
    assert(t.updated.deep_view().len() == t.updated@.len());
    assert(t.failed.deep_view().len() == t.failed@.len());
    assert(t.held.deep_view().len() == t.held@.len());
    assert(t.errors.deep_view().len() == t.errors@.len());
}

/// A notification is shown exactly where notifications are on and a plugin was
/// updated, failed, could not be checked, was held or is pinned; its body counts
/// these, in this order, and leaves out what there is none of.
pub proof fn notifications_say_what_ran(notify: bool, t: &Tally, r: Option<Vec<String>>)
    requires
        call_ensures(notification, (notify, t), r),
    ensures
        r is Some <==> notify && t.updated@.len() + t.failed@.len() + t.errors@.len()
            + t.held@.len() + t.pinned@.len() > 0,
        r matches Some(args) ==> {
            &&& args@.len() == 5
            &&& args@[0]@ == "notification"@ && args@[1]@ == "show"@
            &&& args@[2]@ == "herdr-auto-update"@ && args@[3]@ == "--body"@
            &&& args@[4]@ == text::joined(
                part(t.updated@.len(), " plugin(s) updated"@) + part(t.failed@.len(), " failed"@)
                    + part(t.errors@.len(), " could not be checked"@) + part(
                    t.held@.len(),
                    " held by policy"@,
                ) + part(t.pinned@.len(), " pinned to commits (not auto-updated)"@),
                ", "@,
            )
        },
{
    assert(t.pinned.deep_view().len() == t.pinned@.len());
    assert(t.updated.deep_view().len() == t.updated@.len());
    assert(t.failed.deep_view().len() == t.failed@.len());
    assert(t.held.deep_view().len() == t.held@.len());
    assert(t.errors.deep_view().len() == t.errors@.len());
    if let Some(args) = r {
        let all = args.deep_view();
        assert(all.len() == args@.len());
        assert(all[0] == args@[0]@ && all[1] == args@[1]@ && all[2] == args@[2]@);
        assert(all[3] == args@[3]@ && all[4] == args@[4]@);
    }
}

/// That the policy was left to its default is noted exactly where it was and the
/// output is for a reader.
pub proof fn a_missing_policy_is_noted(cfg: &Config, json: bool, r: Vec<Line>)
    requires
        call_ensures(start_lines, (cfg, json), r),
    ensures
        r.deep_view() == (if !json && cfg.policy == Policy::Notify && !cfg.policy_explicit {
            seq![
                LineView::Note(
                    "[herdr-auto-update] note: `policy` is not set; defaulting to \"notify\" (v1.0). Set policy = \"auto\" to reinstall updates automatically."@,
                ),
            ]
        } else {
            Seq::empty()
        }),
{
}

/// The startup hook is switched off exactly by `auto_update`, and then ends well.
pub proof fn startup_is_switched_off_by_auto_update(cfg: &Config, json: bool, r: Option<Report>)
    requires
        call_ensures(startup_gate, (cfg, json), r),
    ensures
        r is None <==> cfg.auto_update,
        r matches Some(end) ==> end.exit == 0 && end.lines.deep_view() == (if json {
            Seq::empty()
        } else {
            seq![
                LineView::Note("[herdr-auto-update] auto_update disabled; skipping startup check"@),
            ]
        }),
{
    if let Some(end) = r {
        assert(end.lines.deep_view() == end.deep_view().lines);
    }
}

/// What fails before it begins is an error that says what failed.
pub proof fn fatal_errors_are_errors(error: &str, r: Report)
    requires
        call_ensures(fatal, (error,), r),
    ensures
        r.exit == 2,
        r.lines.deep_view() == seq![LineView::Note("error: "@ + error@)],
{
    assert(r.lines.deep_view() == r.deep_view().lines);
}

} // verus!
