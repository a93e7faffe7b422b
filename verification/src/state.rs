//! The audit trail of updates and rollbacks. Entries are append-only; the most
//! recent entry of a plugin is what a rollback or a resume starts from.

use crate::calendar;
use crate::text;
use vstd::prelude::*;

verus! {

/// Name of the file that holds the trail.
pub const STATE_FILE: &'static str = "state.json";

/// Version that a written trail carries.
pub const STATE_VERSION: u32 = 1;

/// One recorded update or rollback.
#[derive(Debug)]
pub struct StateEntry {
    pub plugin_id: String,
    pub previous_sha: String,
    pub current_sha: String,
    pub requested_ref: Option<String>,
    pub updated_at: String,
    /// `updated` or `rolled_back`.
    pub result: String,
}

/// A `StateEntry` as values.
pub struct StateEntryView {
    pub plugin_id: Seq<char>,
    pub previous_sha: Seq<char>,
    pub current_sha: Seq<char>,
    pub requested_ref: Option<Seq<char>>,
    pub updated_at: Seq<char>,
    pub result: Seq<char>,
}

impl DeepView for StateEntry {
    type V = StateEntryView;

    open spec fn deep_view(&self) -> StateEntryView {
        StateEntryView {
            plugin_id: self.plugin_id@,
            previous_sha: self.previous_sha@,
            current_sha: self.current_sha@,
            requested_ref: self.requested_ref.deep_view(),
            updated_at: self.updated_at@,
            result: self.result@,
        }
    }
}

impl Clone for StateEntry {
    fn clone(&self) -> (r: Self)
        ensures
            r.deep_view() == self.deep_view(),
    {
        StateEntry {
            plugin_id: self.plugin_id.clone(),
            previous_sha: self.previous_sha.clone(),
            current_sha: self.current_sha.clone(),
            requested_ref: text::copy_of(&self.requested_ref),
            updated_at: self.updated_at.clone(),
            result: self.result.clone(),
        }
    }
}

/// The whole trail, oldest entry first.
#[derive(Debug)]
pub struct State {
    pub version: u32,
    pub entries: Vec<StateEntry>,
}

impl Default for State {
    fn default() -> (r: State)
        ensures
            r.version == 0,
            r.entries@.len() == 0,
    {
        State { version: 0, entries: Vec::new() }
    }
}

/// The most recent entry of a plugin.
pub open spec fn latest(entries: Seq<StateEntryView>, plugin_id: Seq<char>) -> Option<
    StateEntryView,
>
    decreases entries.len(),
{
    if entries.len() == 0 {
        None
    } else if entries.last().plugin_id == plugin_id {
        Some(entries.last())
    } else {
        latest(entries.drop_last(), plugin_id)
    }
}

/// Whether no later entry is about the same plugin.
pub open spec fn is_newest(entries: Seq<StateEntryView>, i: int) -> bool {
    &&& 0 <= i < entries.len()
    &&& forall|j: int|
        i < j < entries.len() ==> #[trigger] entries[j].plugin_id != entries[i].plugin_id
}

/// Among the first `n` entries those that are the newest of their plugin and
/// have the given result, the most recent one first.
pub open spec fn newest_among(entries: Seq<StateEntryView>, n: int, result: Seq<char>) -> Seq<
    StateEntryView,
>
    decreases n,
{
    if n <= 0 {
        Seq::empty()
    } else if is_newest(entries, n - 1) && entries[n - 1].result == result {
        seq![entries[n - 1]] + newest_among(entries, n - 1, result)
    } else {
        newest_among(entries, n - 1, result)
    }
}

/// The plugins' newest entries that have the given result, the most recent one
/// first.
pub open spec fn newest_with(entries: Seq<StateEntryView>, result: Seq<char>) -> Seq<
    StateEntryView,
> {
    newest_among(entries, entries.len() as int, result)
}

/// How writing the trail ended.
#[derive(Debug)]
pub enum WriteRun {
    Written,
    /// The trail could not be put into words, and why.
    NotSerialized(String),
    /// The file could not be written, and why.
    NotWritten(String),
}

/// What is reported of writing the trail.
pub open spec fn save_outcome(run: WriteRun) -> Result<(), Seq<char>> {
    match run {
        WriteRun::Written => Ok(()),
        WriteRun::NotSerialized(e) => Err("cannot serialize state: "@ + e@),
        WriteRun::NotWritten(e) => Err("cannot write "@ + STATE_FILE@ + ": "@ + e@),
    }
}

impl State {
    /// The trail that reading its file came to: an empty one where the file is
    /// missing or holds no trail, so that a broken file cannot fail a command.
    pub fn load(read: Option<State>) -> (r: State)
        ensures
            r.entries.deep_view() == (match read {
                Some(st) => st.entries.deep_view(),
                None => Seq::empty(),
            }),
            r.version == (match read {
                Some(st) => st.version,
                None => 0,
            }),
    {
        match read {
            Some(st) => st,
            None => {
                let st = State::default();
                assert(st.entries.deep_view() =~= Seq::empty());
                st
            },
        }
    }

    /// What is reported of writing the trail.
    pub fn save(run: &WriteRun) -> (r: Result<(), String>)
        ensures
            (match r {
                Ok(u) => Ok::<(), Seq<char>>(u),
                Err(e) => Err::<(), Seq<char>>(e@),
            }) == save_outcome(*run),
    {
        match run {
            WriteRun::Written => Ok(()),
            WriteRun::NotSerialized(e) => {
                let mut s = "cannot serialize state: ".to_owned();
                s.append(e.as_str());
                Err(s)
            },
            WriteRun::NotWritten(e) => {
                let mut s = "cannot write ".to_owned();
                s.append(STATE_FILE);
                s.append(": ");
                s.append(e.as_str());
                Err(s)
            },
        }
    }

    /// Appends an entry and stamps the version.
    pub fn append(&mut self, e: StateEntry)
        ensures
            final(self).version == STATE_VERSION,
            final(self).entries@ == old(self).entries@.push(e),
            final(self).entries.deep_view() == old(self).entries.deep_view().push(e.deep_view()),
    {
        self.version = STATE_VERSION;
        self.entries.push(e);
        assert(self.entries.deep_view() =~= old(self).entries.deep_view().push(e.deep_view()));
    }

    /// The most recent entry of a plugin.
    pub fn latest_for(&self, plugin_id: &str) -> (r: Option<&StateEntry>)
        ensures
            r.deep_view() == latest(self.entries.deep_view(), plugin_id@),
    {
        let mut i: usize = self.entries.len();
        assert(self.entries.deep_view().take(i as int) =~= self.entries.deep_view());
        while i > 0
            invariant
                i <= self.entries.len(),
                latest(self.entries.deep_view(), plugin_id@) == latest(
                    self.entries.deep_view().take(i as int),
                    plugin_id@,
                ),
            decreases i,
        {
            let ghost all = self.entries.deep_view();
            assert(all.take(i as int).drop_last() =~= all.take(i - 1));
            assert(all.take(i as int).last() == all[i - 1]);
            i = i - 1;
            if text::same(self.entries[i].plugin_id.as_str(), plugin_id) {
                return Some(&self.entries[i]);
            }
        }
        None
    }

    /// The plugins' newest entries that have the given result, the most recent
    /// one first.
    pub fn newest_entries(&self, result: &str) -> (r: Vec<StateEntry>)
        ensures
            r.deep_view() == newest_with(self.entries.deep_view(), result@),
    {
        let ghost all = self.entries.deep_view();
        let mut found: Vec<StateEntry> = Vec::new();
        let mut i: usize = self.entries.len();
        assert(found.deep_view() + newest_with(all, result@) =~= newest_with(all, result@));
        while i > 0
            invariant
                all == self.entries.deep_view(),
                i <= self.entries.len(),
                newest_with(all, result@) == found.deep_view() + newest_among(
                    all,
                    i as int,
                    result@,
                ),
            decreases i,
        {
            let ghost before = found.deep_view();
            i = i - 1;
            let e = &self.entries[i];
            assert(all[i as int] == e.deep_view());
            if self.nothing_newer(i) && text::same(e.result.as_str(), result) {
                found.push(e.clone());
                assert(found.deep_view() =~= before.push(e.deep_view()));
                assert(before.push(e.deep_view()) + newest_among(all, i as int, result@) =~= before
                    + (seq![all[i as int]] + newest_among(all, i as int, result@)));
            }
        }
        assert(found.deep_view() + Seq::<StateEntryView>::empty() =~= found.deep_view());
        found
    }

    /// Whether no later entry is about the plugin of entry `i`.
    fn nothing_newer(&self, i: usize) -> (r: bool)
        requires
            i < self.entries.len(),
        ensures
            r == is_newest(self.entries.deep_view(), i as int),
    {
        let ghost all = self.entries.deep_view();
        let mut j: usize = i + 1;
        while j < self.entries.len()
            invariant
                all == self.entries.deep_view(),
                i < j <= self.entries.len(),
                forall|k: int| i < k < j ==> #[trigger] all[k].plugin_id != all[i as int].plugin_id,
            decreases self.entries.len() - j,
        {
            if text::same(
                self.entries[j].plugin_id.as_str(),
                self.entries[i].plugin_id.as_str(),
            ) {
                assert(all[j as int].plugin_id == all[i as int].plugin_id);
                return false;
            }
            j = j + 1;
        }
        true
    }
}

/// The newest entry of a plugin stays the one that was appended last: what is
/// appended is what is found, and no other plugin notices.
pub proof fn append_then_latest(
    entries: Seq<StateEntryView>,
    e: StateEntryView,
    plugin_id: Seq<char>,
)
    ensures
        latest(entries.push(e), e.plugin_id) == Some(e),
        plugin_id != e.plugin_id ==> latest(entries.push(e), plugin_id) == latest(
            entries,
            plugin_id,
        ),
{
    assert(entries.push(e).drop_last() =~= entries);
}

proof fn lemma_newest_is_latest(entries: Seq<StateEntryView>, i: int)
    requires
        is_newest(entries, i),
    ensures
        latest(entries, entries[i].plugin_id) == Some(entries[i]),
    decreases entries.len(),
{
    let n = entries.len() - 1;
    if i < n {
        assert(entries[n].plugin_id != entries[i].plugin_id);
        let shorter = entries.drop_last();
        assert forall|j: int| i < j < shorter.len() implies #[trigger] shorter[j].plugin_id
            != shorter[i].plugin_id by {
            assert(entries[j].plugin_id != entries[i].plugin_id);
        }
        lemma_newest_is_latest(shorter, i);
    }
}

proof fn lemma_latest_is_newest(entries: Seq<StateEntryView>, id: Seq<char>) -> (i: int)
    requires
        latest(entries, id) is Some,
    ensures
        is_newest(entries, i),
        entries[i] == latest(entries, id)->0,
        entries[i].plugin_id == id,
    decreases entries.len(),
{
    if entries.last().plugin_id == id {
        entries.len() - 1
    } else {
        let i = lemma_latest_is_newest(entries.drop_last(), id);
        assert forall|j: int| i < j < entries.len() implies #[trigger] entries[j].plugin_id
            != entries[i].plugin_id by {
            if j < entries.len() - 1 {
                assert(entries.drop_last()[j].plugin_id != entries.drop_last()[i].plugin_id);
            }
        }
        i
    }
}

proof fn lemma_among_sound(entries: Seq<StateEntryView>, n: int, result: Seq<char>, k: int)
    requires
        0 <= n <= entries.len(),
        0 <= k < newest_among(entries, n, result).len(),
    ensures
        exists|i: int|
            0 <= i < n && is_newest(entries, i) && #[trigger] entries[i] == newest_among(
                entries,
                n,
                result,
            )[k] && entries[i].result == result,
    decreases n,
{
    let hit = is_newest(entries, n - 1) && entries[n - 1].result == result;
    if hit && k == 0 {
        assert(entries[n - 1] == newest_among(entries, n, result)[k]);
    } else {
        let k2 = if hit {
            k - 1
        } else {
            k
        };
        lemma_among_sound(entries, n - 1, result, k2);
        let i = choose|i: int|
            0 <= i < n - 1 && is_newest(entries, i) && #[trigger] entries[i] == newest_among(
                entries,
                n - 1,
                result,
            )[k2] && entries[i].result == result;
        assert(entries[i] == newest_among(entries, n, result)[k]);
    }
}

proof fn lemma_among_complete(entries: Seq<StateEntryView>, n: int, result: Seq<char>, i: int)
    requires
        0 <= i < n <= entries.len(),
        is_newest(entries, i),
        entries[i].result == result,
    ensures
        newest_among(entries, n, result).contains(entries[i]),
    decreases n,
{
    let rest = newest_among(entries, n - 1, result);
    if i == n - 1 {
        assert(newest_among(entries, n, result)[0] == entries[i]);
    } else {
        lemma_among_complete(entries, n - 1, result, i);
        let k = choose|k: int| 0 <= k < rest.len() && rest[k] == entries[i];
        if is_newest(entries, n - 1) && entries[n - 1].result == result {
            assert(newest_among(entries, n, result)[k + 1] == entries[i]);
        }
    }
}

/// An entry is among the newest with a result exactly where it is the latest of
/// its plugin and has that result: older history is never picked.
pub proof fn newest_with_is_latest(
    entries: Seq<StateEntryView>,
    result: Seq<char>,
    e: StateEntryView,
)
    ensures
        newest_with(entries, result).contains(e) <==> (latest(entries, e.plugin_id) == Some(e)
            && e.result == result),
{
    let all = newest_with(entries, result);
    if all.contains(e) {
        let k = choose|k: int| 0 <= k < all.len() && all[k] == e;
        lemma_among_sound(entries, entries.len() as int, result, k);
        let i = choose|i: int|
            0 <= i < entries.len() && is_newest(entries, i) && #[trigger] entries[i] == all[k]
                && entries[i].result == result;
        lemma_newest_is_latest(entries, i);
    }
    if latest(entries, e.plugin_id) == Some(e) && e.result == result {
        let i = lemma_latest_is_newest(entries, e.plugin_id);
        lemma_among_complete(entries, entries.len() as int, result, i);
    }
}

proof fn lemma_among_once(entries: Seq<StateEntryView>, n: int, result: Seq<char>, a: int, b: int)
    requires
        0 <= n <= entries.len(),
        0 <= a < b < newest_among(entries, n, result).len(),
    ensures
        newest_among(entries, n, result)[a].plugin_id != newest_among(
            entries,
            n,
            result,
        )[b].plugin_id,
    decreases n,
{
    let hit = is_newest(entries, n - 1) && entries[n - 1].result == result;
    if hit && a == 0 {
        lemma_among_sound(entries, n - 1, result, b - 1);
        let rest = newest_among(entries, n - 1, result);
        let i = choose|i: int|
            0 <= i < n - 1 && is_newest(entries, i) && #[trigger] entries[i] == rest[b - 1]
                && entries[i].result == result;
        assert(entries[n - 1].plugin_id != entries[i].plugin_id);
    } else if hit {
        lemma_among_once(entries, n - 1, result, a - 1, b - 1);
    } else {
        lemma_among_once(entries, n - 1, result, a, b);
    }
}

/// No plugin occurs twice among the newest entries.
pub proof fn newest_with_once(entries: Seq<StateEntryView>, result: Seq<char>, a: int, b: int)
    requires
        0 <= a < b < newest_with(entries, result).len(),
    ensures
        newest_with(entries, result)[a].plugin_id != newest_with(entries, result)[b].plugin_id,
{
    lemma_among_once(entries, entries.len() as int, result, a, b);
}

/// A date and a second of the day as an RFC 3339 timestamp in UTC.
pub open spec fn stamp(d: calendar::Date, second: nat) -> Seq<char> {
    text::padded(d.year as nat, 4) + "-"@ + text::padded(d.month as nat, 2) + "-"@ + text::padded(
        d.day as nat,
        2,
    ) + "T"@ + text::padded(second / 3600, 2) + ":"@ + text::padded((second % 3600) / 60, 2) + ":"@
        + text::padded(second % 60, 2) + "Z"@
}

/// The RFC 3339 timestamp of a number of seconds behind 1970-01-01T00:00:00Z.
pub open spec fn timestamp(secs: nat) -> Seq<char> {
    stamp(calendar::date_of(secs / 86_400), secs % 86_400)
}

/// The RFC 3339 timestamp of a unix time.
pub fn format_epoch(secs: u64) -> (r: String)
    ensures
        r@ == timestamp(secs as nat),
{
    let rem: u64 = secs % 86_400;
    let (y, m, d) = calendar::civil_from_days(secs / 86_400);
    let mut s = String::new();
    text::push_four_digits(&mut s, y);
    assert(s@ =~= text::padded(y as nat, 4));
    s.append("-");
    text::push_two_digits(&mut s, m);
    s.append("-");
    text::push_two_digits(&mut s, d);
    s.append("T");
    text::push_two_digits(&mut s, rem / 3600);
    s.append(":");
    text::push_two_digits(&mut s, (rem % 3600) / 60);
    s.append(":");
    text::push_two_digits(&mut s, rem % 60);
    s.append("Z");
    s
}

/// Up to the end of the year 9999 every timestamp has twenty characters.
pub proof fn timestamp_has_twenty_chars(secs: nat)
    requires
        secs < 253_402_300_800,
    ensures
        timestamp(secs).len() == 20,
{
    let d = calendar::date_of(secs / 86_400);
    let second = secs % 86_400;
    calendar::every_day_has_a_date(secs / 86_400);
    calendar::days_before_year_closed(10_000);
    calendar::date_before_year(d, 10_000);
    text::padded_fills_up(d.year as nat);
    text::padded_fills_up(d.month as nat);
    text::padded_fills_up(d.day as nat);
    text::padded_fills_up(second / 3600);
    text::padded_fills_up((second % 3600) / 60);
    text::padded_fills_up(second % 60);
    reveal_strlit("-");
    reveal_strlit("T");
    reveal_strlit(":");
    reveal_strlit("Z");
}

/// A moment of the system clock.
#[verifier::external_type_specification]
#[verifier::external_body]
pub struct ExSystemTime(std::time::SystemTime);

/// `SystemTime::now` reads the system clock; nothing is claimed of what it
/// reads.
pub assume_specification[ std::time::SystemTime::now ]() -> (r: std::time::SystemTime)
;

/// `SystemTime::duration_since` against the unix epoch, in whole seconds;
/// `None` for a moment before the epoch. What it is rests on the clock, so
/// nothing is claimed of it.
#[verifier::external_body]
fn secs_since_epoch(t: &std::time::SystemTime) -> (r: Option<u64>) {
    t.duration_since(std::time::UNIX_EPOCH).map(|d| d.as_secs()).ok()
}

/// The timestamp for what the clock shows: the seconds since the epoch, or none
/// where it stands before the epoch, which counts as the epoch.
pub open spec fn clock_stamp(secs: Option<u64>) -> Seq<char> {
    match secs {
        Some(s) => timestamp(s as nat),
        None => timestamp(0),
    }
}

/// The timestamp for what the clock shows.
pub fn format_clock(secs: Option<u64>) -> (r: String)
    ensures
        r@ == clock_stamp(secs),
{
    match secs {
        Some(s) => format_epoch(s),
        None => format_epoch(0),
    }
}

/// Whether the clock was read and showed these seconds since the epoch, or none
/// where it stands before the epoch.
pub closed spec fn clock_showed(secs: Option<u64>) -> bool {
    exists|t: std::time::SystemTime|
        call_ensures(std::time::SystemTime::now, (), t) && call_ensures(
            secs_since_epoch,
            (&t,),
            secs,
        )
}

/// The current time as an RFC 3339 timestamp in UTC; the epoch where the clock
/// stands before it. The timestamp is that of what the clock showed; which time
/// that is rests on the clock.
pub fn rfc3339_now() -> (r: String)
    ensures
        exists|secs: Option<u64>| clock_showed(secs) && r@ == #[trigger] clock_stamp(secs),
{
    let now = std::time::SystemTime::now();
    let secs = secs_since_epoch(&now);
    assert(clock_showed(secs));
    format_clock(secs)
}

proof fn lemma_latest_is_last(entries: Seq<StateEntryView>, id: Seq<char>) -> (i: int)
    ensures
        -1 <= i < entries.len(),
        forall|j: int| i < j < entries.len() ==> (#[trigger] entries[j]).plugin_id != id,
        i >= 0 ==> entries[i].plugin_id == id && latest(entries, id) == Some(entries[i]),
        i == -1 ==> latest(entries, id) is None,
    decreases entries.len(),
{
    if entries.len() == 0 {
        -1
    } else if entries.last().plugin_id == id {
        entries.len() - 1
    } else {
        let i = lemma_latest_is_last(entries.drop_last(), id);
        assert forall|j: int| i < j < entries.len() implies (#[trigger] entries[j]).plugin_id
            != id by {
            if j < entries.len() - 1 {
                assert(entries.drop_last()[j] == entries[j]);
            }
        }
        i
    }
}

/// The entry that is found for a plugin is the last one of the trail that is
/// about it; none is found exactly where no entry is.
pub proof fn the_last_entry_counts(entries: Seq<StateEntryView>, id: Seq<char>)
    ensures
        latest(entries, id) is None <==> forall|i: int|
            0 <= i < entries.len() ==> (#[trigger] entries[i]).plugin_id != id,
        forall|i: int|
            0 <= i < entries.len() && entries[i].plugin_id == id && (forall|j: int|
                i < j < entries.len() ==> (#[trigger] entries[j]).plugin_id != id) ==> latest(
                entries,
                id,
            ) == Some(#[trigger] entries[i]),
{
    let k = lemma_latest_is_last(entries, id);
    assert forall|i: int|
        0 <= i < entries.len() && entries[i].plugin_id == id && (forall|j: int|
            i < j < entries.len() ==> (#[trigger] entries[j]).plugin_id != id) implies latest(
        entries,
        id,
    ) == Some(#[trigger] entries[i]) by {
        if k < i {
            assert(entries[i].plugin_id != id);
        } else if i < k {
            assert(entries[k].plugin_id != id);
        }
    }
    if latest(entries, id) is None {
        assert(k == -1);
    }
}

proof fn lemma_among_order(
    entries: Seq<StateEntryView>,
    n: int,
    result: Seq<char>,
    a: int,
    b: int,
) -> (r: (int, int))
    requires
        0 <= n <= entries.len(),
        0 <= a < b < newest_among(entries, n, result).len(),
    ensures
        0 <= r.1 < r.0 < n,
        entries[r.0] == newest_among(entries, n, result)[a],
        entries[r.1] == newest_among(entries, n, result)[b],
    decreases n,
{
    let hit = is_newest(entries, n - 1) && entries[n - 1].result == result;
    if hit && a == 0 {
        lemma_among_sound(entries, n - 1, result, b - 1);
        let rest = newest_among(entries, n - 1, result);
        let i = choose|i: int|
            0 <= i < n - 1 && is_newest(entries, i) && #[trigger] entries[i] == rest[b - 1]
                && entries[i].result == result;
        (n - 1, i)
    } else if hit {
        lemma_among_order(entries, n - 1, result, a - 1, b - 1)
    } else {
        lemma_among_order(entries, n - 1, result, a, b)
    }
}

/// Among the newest entries the most recent one comes first: of two of them the
/// one in front stands further behind in the trail.
pub proof fn newest_come_first(entries: Seq<StateEntryView>, result: Seq<char>, a: int, b: int)
    requires
        0 <= a < b < newest_with(entries, result).len(),
    ensures
        exists|i: int, j: int|
            0 <= j < i < entries.len() && #[trigger] entries[i] == newest_with(entries, result)[a]
                && #[trigger] entries[j] == newest_with(entries, result)[b],
{
    let r = lemma_among_order(entries, entries.len() as int, result, a, b);
    assert(entries[r.0] == newest_with(entries, result)[a]);
    assert(entries[r.1] == newest_with(entries, result)[b]);
}

/// A trail that was read is taken as it is, and one that was not is empty.
pub proof fn a_missing_trail_is_empty(read: Option<State>, r: State)
    requires
        call_ensures(State::load, (read,), r),
    ensures
        read matches Some(st) ==> r.entries.deep_view() == st.entries.deep_view() && r.version
            == st.version,
        read is None ==> r.entries@.len() == 0 && r.version == 0,
{
    assert(r.entries.deep_view().len() == r.entries@.len());
}

/// That the trail was saved is said only where it was written; else what went
/// wrong is told, and why.
pub proof fn only_what_is_written_is_saved(run: &WriteRun, r: Result<(), String>)
    requires
        call_ensures(State::save, (run,), r),
    ensures
        r is Ok <==> *run is Written,
        *run matches WriteRun::NotSerialized(e) ==> r->Err_0@ == "cannot serialize state: "@ + e@,
        *run matches WriteRun::NotWritten(e) ==> r->Err_0@ == "cannot write "@ + (STATE_FILE@ + ": "@
            + e@),
{
    if let WriteRun::NotWritten(e) = *run {
        assert(r->Err_0@ =~= "cannot write "@ + (STATE_FILE@ + ": "@ + e@));
    }
}

/// A timestamp up to the end of the year 9999 can be read back: its digits are
/// those of a date of the calendar and of a time of the day, which together lie
/// exactly the given seconds behind the epoch.
pub proof fn timestamps_can_be_read_back(secs: u64, r: String)
    requires
        call_ensures(format_epoch, (secs,), r),
        secs < 253_402_300_800,
    ensures
        ({
            let t = r@;
            let field = |from: int, to: int| text::number_of(t.subrange(from, to));
            let d = calendar::Date { year: field(0, 4), month: field(5, 7), day: field(8, 10) };
            &&& t.len() == 20
            &&& t[4] == '-' && t[7] == '-' && t[10] == 'T'
            &&& t[13] == ':' && t[16] == ':' && t[19] == 'Z'
            &&& d.valid()
            &&& 0 <= field(11, 13) < 24 && 0 <= field(14, 16) < 60 && 0 <= field(17, 19) < 60
            &&& d.number() * 86_400 + field(11, 13) * 3600 + field(14, 16) * 60 + field(17, 19)
                == secs
        }),
{
    let days = (secs as nat) / 86_400;
    let d = calendar::date_of(days);
    let second = (secs as nat) % 86_400;
    calendar::every_day_has_a_date(days);
    calendar::days_before_year_closed(10_000);
    calendar::date_before_year(d, 10_000);
    let y = text::padded(d.year as nat, 4);
    let mo = text::padded(d.month as nat, 2);
    let da = text::padded(d.day as nat, 2);
    let h = text::padded(second / 3600, 2);
    let mi = text::padded((second % 3600) / 60, 2);
    let s = text::padded(second % 60, 2);
    text::padded_fills_up(d.year as nat);
    text::padded_fills_up(d.month as nat);
    text::padded_fills_up(d.day as nat);
    text::padded_fills_up(second / 3600);
    text::padded_fills_up((second % 3600) / 60);
    text::padded_fills_up(second % 60);
    text::padded_stands_for_its_number(d.year as nat, 4);
    text::padded_stands_for_its_number(d.month as nat, 2);
    text::padded_stands_for_its_number(d.day as nat, 2);
    text::padded_stands_for_its_number(second / 3600, 2);
    text::padded_stands_for_its_number((second % 3600) / 60, 2);
    text::padded_stands_for_its_number(second % 60, 2);
    reveal_strlit("-");
    reveal_strlit("T");
    reveal_strlit(":");
    reveal_strlit("Z");
    let t = r@;
    assert(t.len() == 20);
    assert(t.subrange(0, 4) =~= y);
    assert(t.subrange(5, 7) =~= mo);
    assert(t.subrange(8, 10) =~= da);
    assert(t.subrange(11, 13) =~= h);
    assert(t.subrange(14, 16) =~= mi);
    assert(t.subrange(17, 19) =~= s);
    assert(t[4] == "-"@[0] && t[7] == "-"@[0] && t[10] == "T"@[0]);
    assert(t[13] == ":"@[0] && t[16] == ":"@[0] && t[19] == "Z"@[0]);
}

/// A clock that stands before the epoch counts as one that shows the epoch, and
/// any other is taken at its word.
pub proof fn the_clock_is_taken_at_its_word(secs: Option<u64>, r: String, of: String)
    requires
        call_ensures(format_clock, (secs,), r),
        call_ensures(
            format_epoch,
            (match secs {
                Some(s) => s,
                None => 0,
            },),
            of,
        ),
    ensures
        r@ == of@,
{
}

/// An entry that is appended is the last of the trail, behind all that was there
/// before, which stays as it is.
pub proof fn entries_are_only_added(st: &mut State, e: StateEntry)
    requires
        call_ensures(State::append, (st, e), ()),
    ensures
        final(st).entries@.len() == old(st).entries@.len() + 1,
        final(st).entries@.last() == e,
        forall|i: int|
            0 <= i < old(st).entries@.len() ==> (#[trigger] final(st).entries@[i])
                == old(st).entries@[i],
        final(st).version == 1,
{
}

/// The values of an entry are what it holds.
pub proof fn entries_are_seen_whole(e: StateEntry)
    ensures
        e.deep_view().plugin_id == e.plugin_id@,
        e.deep_view().previous_sha == e.previous_sha@,
        e.deep_view().current_sha == e.current_sha@,
        e.deep_view().requested_ref == e.requested_ref.deep_view(),
        e.deep_view().updated_at == e.updated_at@,
        e.deep_view().result == e.result@,
{
}

/// What the clock showed comes from a reading of the clock.
pub proof fn the_clock_is_read(secs: Option<u64>)
    requires
        clock_showed(secs),
    ensures
        exists|t: std::time::SystemTime| call_ensures(std::time::SystemTime::now, (), t),
{
}

} // verus!
