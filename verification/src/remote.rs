//! The upstream side of a plugin: which commit its ref resolves to, what that
//! version is called, and how the installed commit relates to it.
//!
//! Checking a plugin asks git for the commit, git for the tags and the compare
//! API for the relation, each only where the answer before leaves it open.

use crate::compare;
use crate::compare::Cache;
use crate::compare::CacheEntry;
use crate::compare::CacheEntryView;
use crate::compare::ClassifyStep;
use crate::compare::CompareKey;
use crate::compare::CompareStatus;
use crate::text;
use crate::tool::ToolOutput;
use crate::updater;
use crate::updater::Status;
use vstd::prelude::*;

verus! {

/// A plugin whose upstream commit still has to be resolved.
#[derive(Debug)]
pub struct RemoteJob {
    pub plugin_id: String,
    pub owner: String,
    pub repo: String,
    pub version: Option<String>,
    pub installed_sha: String,
    pub requested_ref: Option<String>,
}

/// A `RemoteJob` as values.
pub struct RemoteJobView {
    pub plugin_id: Seq<char>,
    pub owner: Seq<char>,
    pub repo: Seq<char>,
    pub version: Option<Seq<char>>,
    pub installed_sha: Seq<char>,
    pub requested_ref: Option<Seq<char>>,
}

impl DeepView for RemoteJob {
    type V = RemoteJobView;

    open spec fn deep_view(&self) -> RemoteJobView {
        RemoteJobView {
            plugin_id: self.plugin_id@,
            owner: self.owner@,
            repo: self.repo@,
            version: self.version.deep_view(),
            installed_sha: self.installed_sha@,
            requested_ref: self.requested_ref.deep_view(),
        }
    }
}

impl Clone for RemoteJob {
    fn clone(&self) -> (r: Self)
        ensures
            r.deep_view() == self.deep_view(),
    {
        RemoteJob {
            plugin_id: self.plugin_id.clone(),
            owner: self.owner.clone(),
            repo: self.repo.clone(),
            version: text::copy_of(&self.version),
            installed_sha: self.installed_sha.clone(),
            requested_ref: text::copy_of(&self.requested_ref),
        }
    }
}

/// What checking one plugin upstream came to.
#[derive(Debug)]
pub struct JobResult {
    pub remote_sha: Option<String>,
    pub status: Status,
    pub error: Option<String>,
    pub remote_version: Option<String>,
    /// Verdicts to take into the cache.
    pub cache_entries: Vec<CacheEntry>,
}

/// A `JobResult` as values.
#[verifier::ext_equal]
pub struct JobResultView {
    pub remote_sha: Option<Seq<char>>,
    pub status: Status,
    pub error: Option<Seq<char>>,
    pub remote_version: Option<Seq<char>>,
    pub cache_entries: Seq<CacheEntryView>,
}

impl DeepView for JobResult {
    type V = JobResultView;

    open spec fn deep_view(&self) -> JobResultView {
        JobResultView {
            remote_sha: self.remote_sha.deep_view(),
            status: self.status,
            error: self.error.deep_view(),
            remote_version: self.remote_version.deep_view(),
            cache_entries: self.cache_entries.deep_view(),
        }
    }
}

/// The address of a repository.
pub open spec fn repo_url(owner: Seq<char>, repo: Seq<char>) -> Seq<char> {
    "https://github.com/"@ + owner + "/"@ + repo
}

fn url_of(owner: &str, repo: &str) -> (r: String)
    ensures
        r@ == repo_url(owner@, repo@),
{
    let mut url = "https://github.com/".to_owned();
    url.append(owner);
    url.append("/");
    url.append(repo);
    url
}

/// The arguments behind the git program that resolve a ref, or the default
/// branch where there is none. A connection without traffic is given up.
pub open spec fn head_args(
    owner: Seq<char>,
    repo: Seq<char>,
    requested_ref: Option<Seq<char>>,
) -> Seq<Seq<char>> {
    seq![
        "-c"@,
        "http.lowSpeedLimit=1"@,
        "-c"@,
        "http.lowSpeedTime=15"@,
        "ls-remote"@,
        repo_url(owner, repo),
        match requested_ref {
            Some(r) => r,
            None => "HEAD"@,
        },
    ]
}

/// The arguments behind the git program that list the tags, the highest version
/// first.
pub open spec fn tags_args(owner: Seq<char>, repo: Seq<char>) -> Seq<Seq<char>> {
    seq![
        "-c"@,
        "http.lowSpeedLimit=1"@,
        "-c"@,
        "http.lowSpeedTime=15"@,
        "ls-remote"@,
        "--tags"@,
        "--sort=-v:refname"@,
        repo_url(owner, repo),
    ]
}

fn list_tags_args(job: &RemoteJob) -> (r: Vec<String>)
    ensures
        r.deep_view() == tags_args(job.deep_view().owner, job.deep_view().repo),
{
    let args: Vec<String> = vec![
        "-c".to_owned(),
        "http.lowSpeedLimit=1".to_owned(),
        "-c".to_owned(),
        "http.lowSpeedTime=15".to_owned(),
        "ls-remote".to_owned(),
        "--tags".to_owned(),
        "--sort=-v:refname".to_owned(),
        url_of(job.owner.as_str(), job.repo.as_str()),
    ];
    assert(args.deep_view() =~= tags_args(job.owner@, job.repo@));
    args
}

/// The commit that git printed for a ref: the first word of the first line,
/// where that is a full commit hash.
pub open spec fn head_in(printed: Seq<char>) -> Option<Seq<char>> {
    if updater::commit_hash(text::leading_word(printed)) {
        Some(text::leading_word(printed))
    } else {
        None
    }
}

/// The commit that git printed for a ref.
pub fn find_head(printed: &str) -> (r: Option<String>)
    ensures
        r.deep_view() == head_in(printed@),
{
    let sha = text::first_word(printed);
    if updater::is_commit_hash(sha) {
        Some(sha.to_owned())
    } else {
        None
    }
}

/// The upstream commit from what git did: none where it failed or printed no
/// commit, an error where it could not be run.
pub open spec fn head_from(run: Result<ToolOutput, String>) -> Result<
    Option<Seq<char>>,
    Seq<char>,
> {
    match run {
        Ok(out) => if out.ok {
            Ok(head_in(text::lossy_utf8(out.stdout@)))
        } else {
            Ok(None)
        },
        Err(e) => Err(e@),
    }
}

/// The upstream commit from what git did: none where it failed or printed no
/// commit, an error where it could not be run.
pub fn remote_head(run: Result<ToolOutput, String>) -> (r: Result<Option<String>, String>)
    ensures
        (match r {
            Ok(h) => Ok::<Option<Seq<char>>, Seq<char>>(h.deep_view()),
            Err(e) => Err::<Option<Seq<char>>, Seq<char>>(e@),
        }) == head_from(run),
        run matches Ok(out) ==> (out.ok ==> text::utf8_is_read(out.stdout@)),
{
    match run {
        Ok(out) => if out.ok {
            let printed = text::utf8_lossy(out.stdout.as_slice());
            Ok(find_head(printed.as_str()))
        } else {
            Ok(None)
        },
        Err(e) => Err(e),
    }
}

/// The tag that a line of git's listing names: the rest of its second word
/// behind `refs/tags/`. The entry for the commit behind an annotated tag ends
/// with `^{}` and names none.
pub open spec fn tag_in(line: Seq<char>) -> Option<Seq<char>> {
    let ws = text::words(line);
    if ws.len() < 2 {
        None
    } else {
        match text::without_prefix(ws[1], "refs/tags/"@) {
            Some(tag) => if tag.len() == 0 || "^{}"@.is_suffix_of(tag) {
                None
            } else {
                Some(tag)
            },
            None => None,
        }
    }
}

/// The tag of the first line that names one.
pub open spec fn first_tag(lines: Seq<Seq<char>>) -> Option<Seq<char>>
    decreases lines.len(),
{
    if lines.len() == 0 {
        None
    } else {
        match tag_in(lines[0]) {
            Some(tag) => Some(tag),
            None => first_tag(lines.skip(1)),
        }
    }
}

fn line_tag(s: &str, x: &Vec<char>, from: usize, to: usize) -> (r: Option<String>)
    requires
        x@ == s@,
        from <= to <= x.len(),
    ensures
        r.deep_view() == tag_in(x@.subrange(from as int, to as int)),
{
    let sha = text::next_word(x, from, to);
    if sha.0 == sha.1 {
        return None;
    }
    let name = text::next_word(x, sha.1, to);
    proof {
        let ws = text::words(x@.subrange(from as int, to as int));
        let rest = text::words(x@.subrange(sha.1 as int, to as int));
        assert(ws.len() == 1 + rest.len());
        if name.0 < name.1 {
            assert(ws[1] == rest[0]);
        }
    }
    if name.0 == name.1 {
        return None;
    }
    match text::strip_prefix(s.substring_char(name.0, name.1), "refs/tags/") {
        Some(tag) => if tag.as_str().is_empty() || text::has_suffix(tag.as_str(), "^{}") {
            None
        } else {
            Some(tag)
        },
        None => None,
    }
}

/// The highest version among the tags that git listed, the highest one first.
pub fn find_tag(printed: &str) -> (r: Option<String>)
    ensures
        r.deep_view() == first_tag(text::lines(printed@)),
{
    let x = text::chars_of(printed);
    let mut at: usize = 0;
    assert(x@.skip(0) =~= printed@);
    while at < x.len()
        invariant
            x@ == printed@,
            at <= x.len(),
            first_tag(text::lines(printed@)) == first_tag(text::lines(x@.skip(at as int))),
        decreases x.len() - at,
    {
        let end: usize = text::line_end(&x, at);
        let ghost rest = x@.skip(at as int);
        let found = line_tag(printed, &x, at, end);
        proof {
            let ls = text::lines(rest);
            assert(ls[0] =~= x@.subrange(at as int, end as int));
            if end < x.len() {
                assert(rest.skip(end - at + 1) =~= x@.skip(end + 1));
                assert(ls.skip(1) =~= text::lines(x@.skip(end + 1)));
            } else {
                assert(first_tag(ls.skip(1)) is None);
            }
        }
        if found.is_some() {
            return found;
        }
        if end == x.len() {
            return None;
        }
        at = end + 1;
    }
    None
}

/// The name of the newest upstream version from what git did; none where
/// anything failed.
pub open spec fn tag_from(run: Result<ToolOutput, String>) -> Option<Seq<char>> {
    match run {
        Ok(out) => if out.ok {
            first_tag(text::lines(text::lossy_utf8(out.stdout@)))
        } else {
            None
        },
        Err(_) => None,
    }
}

/// The name of the newest upstream version from what git did; none where
/// anything failed. For display only.
pub fn remote_version(run: Result<ToolOutput, String>) -> (r: Option<String>)
    ensures
        r.deep_view() == tag_from(run),
        run matches Ok(out) ==> (out.ok ==> text::utf8_is_read(out.stdout@)),
{
    match run {
        Ok(out) => if out.ok {
            let printed = text::utf8_lossy(out.stdout.as_slice());
            find_tag(printed.as_str())
        } else {
            None
        },
        Err(_) => None,
    }
}

/// The tag that a plugin is pinned to.
pub open spec fn pinned_tag(requested_ref: Option<Seq<char>>) -> Option<Seq<char>> {
    match requested_ref {
        Some(r) => text::without_prefix(r, "refs/tags/"@),
        None => None,
    }
}

fn tag_of_pin(job: &RemoteJob) -> (r: Option<String>)
    ensures
        r.deep_view() == pinned_tag(job.deep_view().requested_ref),
{
    match &job.requested_ref {
        Some(r) => text::strip_prefix(r.as_str(), "refs/tags/"),
        None => None,
    }
}

/// What checking a plugin does next.
#[derive(Debug)]
pub enum JobWork {
    /// Nothing more.
    Done(JobResult),
    /// Resolve the upstream commit with these arguments behind the git program.
    AskHead { args: Vec<String> },
    /// The upstream commit differs; list the tags with these arguments behind
    /// the git program.
    AskTags { remote: String, args: Vec<String> },
    /// Ask the compare API with these arguments behind the curl program.
    AskApi { remote: String, version: Option<String>, args: Vec<String> },
}

/// A `JobWork` as values.
#[verifier::ext_equal]
pub enum JobWorkView {
    Done(JobResultView),
    AskHead { args: Seq<Seq<char>> },
    AskTags { remote: Seq<char>, args: Seq<Seq<char>> },
    AskApi { remote: Seq<char>, version: Option<Seq<char>>, args: Seq<Seq<char>> },
}

impl DeepView for JobWork {
    type V = JobWorkView;

    open spec fn deep_view(&self) -> JobWorkView {
        match self {
            JobWork::Done(r) => JobWorkView::Done(r.deep_view()),
            JobWork::AskHead { args } => JobWorkView::AskHead { args: args.deep_view() },
            JobWork::AskTags { remote, args } => JobWorkView::AskTags {
                remote: remote@,
                args: args.deep_view(),
            },
            JobWork::AskApi { remote, version, args } => JobWorkView::AskApi {
                remote: remote@,
                version: version.deep_view(),
                args: args.deep_view(),
            },
        }
    }
}

/// What a check begins with: git is asked for the commit of the ref that the
/// plugin was installed at, else of the default branch.
pub open spec fn beginning(job: RemoteJobView) -> JobWorkView {
    JobWorkView::AskHead { args: head_args(job.owner, job.repo, job.requested_ref) }
}

/// Begins to check a plugin.
pub fn begin(job: &RemoteJob) -> (r: JobWork)
    ensures
        r.deep_view() == beginning(job.deep_view()),
{
    let wanted = match &job.requested_ref {
        Some(r) => r.clone(),
        None => "HEAD".to_owned(),
    };
    let args: Vec<String> = vec![
        "-c".to_owned(),
        "http.lowSpeedLimit=1".to_owned(),
        "-c".to_owned(),
        "http.lowSpeedTime=15".to_owned(),
        "ls-remote".to_owned(),
        url_of(job.owner.as_str(), job.repo.as_str()),
        wanted,
    ];
    assert(args.deep_view() =~= head_args(job.owner@, job.repo@, job.requested_ref.deep_view()));
    JobWork::AskHead { args }
}

/// A check that could not be made.
pub open spec fn unresolved(error: Seq<char>) -> JobResultView {
    JobResultView {
        remote_sha: None,
        status: Status::Unknown,
        error: Some(error),
        remote_version: None,
        cache_entries: Seq::empty(),
    }
}

/// A plugin that is where its upstream is.
pub open spec fn unchanged(remote: Seq<char>) -> JobResultView {
    JobResultView {
        remote_sha: Some(remote),
        status: Status::Same,
        error: None,
        remote_version: None,
        cache_entries: Seq::empty(),
    }
}

/// What a verdict is about.
pub open spec fn key_of(job: RemoteJobView, remote: Seq<char>) -> CompareKey {
    CompareKey {
        owner: job.owner,
        repo: job.repo,
        installed_sha: job.installed_sha,
        remote_sha: remote,
    }
}

/// The relation of the installed commit to upstream, from that of upstream to
/// the installed commit.
pub open spec fn seen_from_here(verdict: CompareStatus) -> Status {
    match verdict {
        CompareStatus::Identical => Status::Same,
        CompareStatus::Ahead => Status::Behind,
        CompareStatus::Behind => Status::Ahead,
        CompareStatus::Diverged => Status::Diverged,
    }
}

/// What a check comes to where the upstream commit differs, given the relation
/// that was found or why there is none. A failure leaves the relation unknown:
/// that it is a fast-forward cannot be shown.
pub open spec fn compared(
    job: RemoteJobView,
    remote: Seq<char>,
    version: Option<Seq<char>>,
    verdict: Result<CompareStatus, Seq<char>>,
    now: Seq<char>,
) -> JobResultView {
    match verdict {
        Ok(CompareStatus::Identical) => unchanged(remote),
        Ok(v) => JobResultView {
            remote_sha: Some(remote),
            status: seen_from_here(v),
            error: None,
            remote_version: version,
            cache_entries: seq![CacheEntryView { key: key_of(job, remote), status: v, at: now }],
        },
        Err(e) => JobResultView { remote_sha: Some(remote), ..unresolved(e) },
    }
}

/// What a check does next once the upstream version has a name or none.
pub open spec fn named(
    job: RemoteJobView,
    remote: Seq<char>,
    version: Option<Seq<char>>,
    timeout_secs: u64,
    cache: Seq<CacheEntryView>,
    now: Seq<char>,
) -> JobWorkView {
    match compare::cached(cache, key_of(job, remote)) {
        Some(v) => JobWorkView::Done(compared(job, remote, version, Ok(v), now)),
        None => JobWorkView::AskApi {
            remote,
            version,
            args: compare::compare_args(key_of(job, remote), timeout_secs),
        },
    }
}

/// What a check does next once git was asked for the upstream commit. Neither
/// tags nor the API are asked for a plugin that has not moved.
pub open spec fn resolved(
    job: RemoteJobView,
    head: Result<Option<Seq<char>>, Seq<char>>,
    timeout_secs: u64,
    cache: Seq<CacheEntryView>,
    now: Seq<char>,
) -> JobWorkView {
    match head {
        Err(e) => JobWorkView::Done(unresolved(e)),
        Ok(None) => JobWorkView::Done(
            unresolved("cannot resolve remote HEAD (repo moved or deleted?)"@),
        ),
        Ok(Some(remote)) => if remote == job.installed_sha {
            JobWorkView::Done(unchanged(remote))
        } else {
            match pinned_tag(job.requested_ref) {
                Some(tag) => named(job, remote, Some(tag), timeout_secs, cache, now),
                None => JobWorkView::AskTags { remote, args: tags_args(job.owner, job.repo) },
            }
        },
    }
}

fn failed_job(remote_sha: Option<String>, error: String) -> (r: JobResult)
    ensures
        r.deep_view() == (JobResultView {
            remote_sha: remote_sha.deep_view(),
            ..unresolved(error@)
        }),
{
    let r = JobResult {
        remote_sha,
        status: Status::Unknown,
        error: Some(error),
        remote_version: None,
        cache_entries: Vec::new(),
    };
    assert(r.cache_entries.deep_view() =~= Seq::empty());
    r
}

fn unchanged_job(remote: String) -> (r: JobResult)
    ensures
        r.deep_view() == unchanged(remote@),
{
    let r = JobResult {
        remote_sha: Some(remote),
        status: Status::Same,
        error: None,
        remote_version: None,
        cache_entries: Vec::new(),
    };
    assert(r.cache_entries.deep_view() =~= Seq::empty());
    r
}

fn moved_job(
    job: &RemoteJob,
    remote: String,
    status: Status,
    version: Option<String>,
    verdict: CompareStatus,
    now: &str,
) -> (r: JobResult)
    ensures
        r.deep_view() == (JobResultView {
            remote_sha: Some(remote@),
            status,
            error: None,
            remote_version: version.deep_view(),
            cache_entries: seq![
                CacheEntryView { key: key_of(job.deep_view(), remote@), status: verdict, at: now@ },
            ],
        }),
{
    let entries: Vec<CacheEntry> = vec![cache_entry(job, remote.as_str(), verdict, now)];
    let r = JobResult {
        remote_sha: Some(remote),
        status,
        error: None,
        remote_version: version,
        cache_entries: entries,
    };
    assert(r.cache_entries.deep_view() =~= seq![
        CacheEntryView { key: key_of(job.deep_view(), remote@), status: verdict, at: now@ },
    ]);
    r
}

/// The cache entry for a verdict about a plugin.
pub fn cache_entry(job: &RemoteJob, remote_sha: &str, status: CompareStatus, now: &str) -> (r:
    CacheEntry)
    ensures
        r.deep_view() == (CacheEntryView {
            key: key_of(job.deep_view(), remote_sha@),
            status,
            at: now@,
        }),
{
    CacheEntry {
        owner: job.owner.clone(),
        repo: job.repo.clone(),
        installed_sha: job.installed_sha.clone(),
        remote_sha: remote_sha.to_owned(),
        status,
        at: now.to_owned(),
    }
}

/// What a verdict of the compare API, or a failure to get one, means for a
/// plugin; `now` stamps the verdict for the cache.
pub fn api_answered(
    job: &RemoteJob,
    remote: String,
    version: Option<String>,
    verdict: Result<CompareStatus, String>,
    now: &str,
) -> (r: JobResult)
    ensures
        r.deep_view() == compared(
            job.deep_view(),
            remote@,
            version.deep_view(),
            relation(verdict),
            now@,
        ),
{
    match verdict {
        Ok(CompareStatus::Identical) => unchanged_job(remote),
        Ok(CompareStatus::Ahead) => moved_job(
            job,
            remote,
            Status::Behind,
            version,
            CompareStatus::Ahead,
            now,
        ),
        Ok(CompareStatus::Behind) => moved_job(
            job,
            remote,
            Status::Ahead,
            version,
            CompareStatus::Behind,
            now,
        ),
        Ok(CompareStatus::Diverged) => moved_job(
            job,
            remote,
            Status::Diverged,
            version,
            CompareStatus::Diverged,
            now,
        ),
        Err(e) => failed_job(Some(remote), e),
    }
}

/// Goes on with a check once the upstream version has a name, or none: the cache
/// knows the relation, or the compare API is asked for it.
pub fn version_known(
    job: &RemoteJob,
    remote: String,
    version: Option<String>,
    timeout_secs: u64,
    cache: &Cache,
    now: &str,
) -> (r: JobWork)
    ensures
        r.deep_view() == named(
            job.deep_view(),
            remote@,
            version.deep_view(),
            timeout_secs,
            cache.entries.deep_view(),
            now@,
        ),
{
    match compare::classify(
        job.owner.as_str(),
        job.repo.as_str(),
        job.installed_sha.as_str(),
        remote.as_str(),
        timeout_secs,
        cache,
    ) {
        ClassifyStep::Known(v) => JobWork::Done(api_answered(job, remote, version, Ok(v), now)),
        ClassifyStep::Ask(args) => JobWork::AskApi { remote, version, args },
    }
}

/// Goes on with a check once the upstream commit is known, or known to be
/// missing.
pub fn head_known(
    job: &RemoteJob,
    head: Result<Option<String>, String>,
    timeout_secs: u64,
    cache: &Cache,
    now: &str,
) -> (r: JobWork)
    ensures
        r.deep_view() == resolved(
            job.deep_view(),
            match head {
                Ok(h) => Ok(h.deep_view()),
                Err(e) => Err(e@),
            },
            timeout_secs,
            cache.entries.deep_view(),
            now@,
        ),
{
    match head {
        Err(e) => JobWork::Done(failed_job(None, e)),
        Ok(None) => JobWork::Done(
            failed_job(None, "cannot resolve remote HEAD (repo moved or deleted?)".to_owned()),
        ),
        Ok(Some(remote)) => {
            if text::same(remote.as_str(), job.installed_sha.as_str()) {
                return JobWork::Done(unchanged_job(remote));
            }
            match tag_of_pin(job) {
                Some(tag) => version_known(job, remote, Some(tag), timeout_secs, cache, now),
                None => JobWork::AskTags { remote, args: list_tags_args(job) },
            }
        },
    }
}

/// What came of the work of a check.
#[derive(Debug)]
pub enum JobEvent {
    /// What running git left behind, or why it could not be run.
    Ran(Result<ToolOutput, String>),
    /// What the compare API said, or why it said nothing.
    Compared(Result<CompareStatus, String>),
}

/// Whether an event is what a work comes to.
pub open spec fn fits(work: JobWorkView, event: JobEvent) -> bool {
    match work {
        JobWorkView::Done(_) => false,
        JobWorkView::AskHead { .. } | JobWorkView::AskTags { .. } => event is Ran,
        JobWorkView::AskApi { .. } => event is Compared,
    }
}

/// A relation, or why there is none, as values.
pub open spec fn relation(verdict: Result<CompareStatus, String>) -> Result<
    CompareStatus,
    Seq<char>,
> {
    match verdict {
        Ok(v) => Ok(v),
        Err(e) => Err(e@),
    }
}

/// What a check does next once a work came to an event. An event that the work
/// does not come to changes nothing.
pub open spec fn following(
    job: RemoteJobView,
    work: JobWorkView,
    event: JobEvent,
    timeout_secs: u64,
    cache: Seq<CacheEntryView>,
    now: Seq<char>,
) -> JobWorkView {
    match (work, event) {
        (JobWorkView::AskHead { .. }, JobEvent::Ran(run)) => resolved(
            job,
            head_from(run),
            timeout_secs,
            cache,
            now,
        ),
        (JobWorkView::AskTags { remote, .. }, JobEvent::Ran(run)) => named(
            job,
            remote,
            tag_from(run),
            timeout_secs,
            cache,
            now,
        ),
        (
            JobWorkView::AskApi { remote, version, .. },
            JobEvent::Compared(verdict),
        ) => JobWorkView::Done(compared(job, remote, version, relation(verdict), now)),
        _ => work,
    }
}

/// Goes on with a check once a work came to an event. `now` stamps a verdict for
/// the cache.
pub fn follow(
    job: &RemoteJob,
    work: JobWork,
    event: JobEvent,
    timeout_secs: u64,
    cache: &Cache,
    now: &str,
) -> (r: JobWork)
    ensures
        r.deep_view() == following(
            job.deep_view(),
            work.deep_view(),
            event,
            timeout_secs,
            cache.entries.deep_view(),
            now@,
        ),
        (work is AskHead || work is AskTags) ==> (event matches JobEvent::Ran(Ok(out)) ==> (out.ok
            ==> text::utf8_is_read(out.stdout@))),
{
    match (work, event) {
        (JobWork::AskHead { args: _ }, JobEvent::Ran(run)) => head_known(
            job,
            remote_head(run),
            timeout_secs,
            cache,
            now,
        ),
        (JobWork::AskTags { remote, args: _ }, JobEvent::Ran(run)) => version_known(
            job,
            remote,
            remote_version(run),
            timeout_secs,
            cache,
            now,
        ),
        (
            JobWork::AskApi { remote, version, args: _ },
            JobEvent::Compared(verdict),
        ) => JobWork::Done(api_answered(job, remote, version, verdict, now)),
        (work, _) => work,
    }
}

/// How many steps a work is away from the end at most.
pub open spec fn distance(work: JobWorkView) -> nat {
    match work {
        JobWorkView::Done(_) => 0,
        JobWorkView::AskApi { .. } => 1,
        JobWorkView::AskTags { .. } => 2,
        JobWorkView::AskHead { .. } => 3,
    }
}

/// Every check ends after three questions at most.
pub proof fn every_check_ends(
    job: RemoteJobView,
    work: JobWorkView,
    event: JobEvent,
    timeout_secs: u64,
    cache: Seq<CacheEntryView>,
    now: Seq<char>,
)
    requires
        fits(work, event),
    ensures
        distance(following(job, work, event, timeout_secs, cache, now)) < distance(work),
        distance(work) <= 3,
{
}

/// A check reports that a plugin can be updated only where upstream was compared
/// and is a fast-forward: an upstream commit that differs from the installed one
/// and an API verdict of `ahead`.
pub proof fn behind_only_by_verdict(
    job: RemoteJobView,
    head: Result<Option<Seq<char>>, Seq<char>>,
    timeout_secs: u64,
    cache: Seq<CacheEntryView>,
    now: Seq<char>,
)
    ensures
        resolved(job, head, timeout_secs, cache, now) matches JobWorkView::Done(r) ==> (r.status
            == Status::Behind ==> {
            &&& head matches Ok(Some(remote))
            &&& remote != job.installed_sha
            &&& compare::cached(cache, key_of(job, remote)) == Some(CompareStatus::Ahead)
        }),
{
}

/// What the API could not say is unknown and an error; it is never taken for an
/// update, and nothing is cached of it.
pub proof fn failures_degrade_to_unknown(
    job: RemoteJobView,
    remote: Seq<char>,
    version: Option<Seq<char>>,
    e: Seq<char>,
    now: Seq<char>,
)
    ensures
        compared(job, remote, version, Err(e), now).status == Status::Unknown,
        compared(job, remote, version, Err(e), now).error == Some(e),
        compared(job, remote, version, Err(e), now).cache_entries.len() == 0,
{
}

/// A verdict that was taken into the cache answers the next check of the same
/// commits in the same way, without asking anyone.
pub proof fn verdict_is_reused(
    job: RemoteJobView,
    remote: Seq<char>,
    version: Option<Seq<char>>,
    verdict: CompareStatus,
    timeout_secs: u64,
    cache: Seq<CacheEntryView>,
    before: Seq<char>,
    now: Seq<char>,
)
    requires
        verdict != CompareStatus::Identical,
    ensures
        ({
            let fresh = compared(job, remote, version, Ok(verdict), before);
            let merged = compare::merged(cache, fresh.cache_entries);
            named(job, remote, version, timeout_secs, merged, now) == JobWorkView::Done(
                compared(job, remote, version, Ok(verdict), now),
            )
        }),
{
    let fresh = compared(job, remote, version, Ok(verdict), before).cache_entries;
    let key = key_of(job, remote);
    compare::merge_then_lookup(cache, fresh, key);
    assert(fresh.last().key == key);
}

/// The verdict alone decides the status that a check reports, whatever the
/// upstream version is called, or whether it has a name, and whenever the
/// verdict came: behind exactly where upstream is ahead, ahead exactly where
/// upstream is behind, diverged and same exactly where upstream is that, and
/// unknown exactly where there is no verdict. The error is why there is none.
pub proof fn verdict_decides_the_status(
    job: &RemoteJob,
    remote: String,
    version: Option<String>,
    verdict: Result<CompareStatus, String>,
    now: &str,
    r: JobResult,
)
    requires
        call_ensures(api_answered, (job, remote, version, verdict, now), r),
    ensures
        r.status == Status::Behind <==> verdict == Ok::<CompareStatus, String>(
            CompareStatus::Ahead,
        ),
        r.status == Status::Ahead <==> verdict == Ok::<CompareStatus, String>(
            CompareStatus::Behind,
        ),
        r.status == Status::Diverged <==> verdict == Ok::<CompareStatus, String>(
            CompareStatus::Diverged,
        ),
        r.status == Status::Same <==> verdict == Ok::<CompareStatus, String>(
            CompareStatus::Identical,
        ),
        r.status == Status::Unknown <==> verdict is Err,
        r.remote_sha.deep_view() == Some(remote@),
        verdict matches Ok(v) ==> r.error is None,
        verdict matches Err(e) ==> r.error.deep_view() == Some(e@),
{
}

/// A verdict that upstream differs is kept for the cache, once, under exactly the
/// repository and the commits that were compared and with the time that it came;
/// of anything else nothing is kept. The name of the upstream version is shown
/// with such a verdict only.
pub proof fn verdict_is_kept_as_it_came(
    job: &RemoteJob,
    remote: String,
    version: Option<String>,
    verdict: Result<CompareStatus, String>,
    now: &str,
    r: JobResult,
)
    requires
        call_ensures(api_answered, (job, remote, version, verdict, now), r),
    ensures
        verdict is Err || verdict->Ok_0 == CompareStatus::Identical ==> {
            &&& r.cache_entries@.len() == 0
            &&& r.remote_version is None
        },
        verdict matches Ok(v) ==> v != CompareStatus::Identical ==> {
            &&& r.cache_entries@.len() == 1
            &&& r.cache_entries@[0].owner@ == job.owner@
            &&& r.cache_entries@[0].repo@ == job.repo@
            &&& r.cache_entries@[0].installed_sha@ == job.installed_sha@
            &&& r.cache_entries@[0].remote_sha@ == remote@
            &&& r.cache_entries@[0].status == v
            &&& r.cache_entries@[0].at@ == now@
            &&& r.remote_version.deep_view() == version.deep_view()
        },
{
    let kept = r.cache_entries.deep_view();
    assert(kept == r.deep_view().cache_entries);
    assert(kept.len() == r.cache_entries@.len());
    if verdict is Ok && verdict->Ok_0 != CompareStatus::Identical {
        assert(kept[0] == r.cache_entries@[0].deep_view());
    }
}

/// However a check comes to its end, it reports the verdict on exactly the
/// installed commit and the upstream one: that of the API where the API was
/// asked, else that of the cache. A check that ends without either has found no
/// upstream commit, or the installed one.
pub proof fn every_check_reports_the_verdict(
    job: &RemoteJob,
    work: JobWork,
    event: JobEvent,
    timeout_secs: u64,
    cache: &Cache,
    now: &str,
    next: JobWork,
)
    requires
        call_ensures(follow, (job, work, event, timeout_secs, cache, now), next),
        !(work is Done),
        next is Done,
    ensures
        ({
            let r = next->Done_0;
            let verdict = |v: CompareStatus|
                {
                    &&& r.error is None
                    &&& r.status == Status::Behind <==> v == CompareStatus::Ahead
                    &&& r.status == Status::Ahead <==> v == CompareStatus::Behind
                    &&& r.status == Status::Diverged <==> v == CompareStatus::Diverged
                    &&& r.status == Status::Same <==> v == CompareStatus::Identical
                };
            let known = |remote: Seq<char>|
                compare::cached(
                    cache.entries.deep_view(),
                    (CompareKey {
                        owner: job.owner@,
                        repo: job.repo@,
                        installed_sha: job.installed_sha@,
                        remote_sha: remote,
                    }),
                );
            match work {
                JobWork::AskApi { remote, .. } => {
                    &&& r.remote_sha.deep_view() == Some(remote@)
                    &&& event is Compared
                    &&& event->Compared_0 matches Ok(v) ==> verdict(v)
                    &&& event->Compared_0 is Err ==> r.status == Status::Unknown && r.error is Some
                },
                JobWork::AskTags { remote, .. } => {
                    &&& r.remote_sha.deep_view() == Some(remote@)
                    &&& known(remote@) is Some
                    &&& verdict(known(remote@)->0)
                },
                _ => match r.remote_sha.deep_view() {
                    None => r.status == Status::Unknown && r.error is Some,
                    Some(remote) => if remote == job.installed_sha@ {
                        r.status == Status::Same && r.error is None
                    } else {
                        known(remote) is Some && verdict(known(remote)->0)
                    },
                },
            }
        }),
{
}

/// What is asked next follows from the upstream commit: nothing where it could
/// not be found or is the installed one; the tags where it differs and no tag is
/// tracked; and where a tag is tracked, the API, unless the cache knows about
/// exactly these commits.
pub proof fn head_decides_what_is_asked(
    job: &RemoteJob,
    head: Result<Option<String>, String>,
    timeout_secs: u64,
    cache: &Cache,
    now: &str,
    next: JobWork,
)
    requires
        call_ensures(head_known, (job, head, timeout_secs, cache, now), next),
    ensures
        head matches Err(e) ==> next is Done && next->Done_0.error.deep_view() == Some(e@)
            && next->Done_0.remote_sha is None && next->Done_0.status == Status::Unknown,
        head == Ok::<Option<String>, String>(None) ==> next is Done
            && next->Done_0.error.deep_view() == Some(
            "cannot resolve remote HEAD (repo moved or deleted?)"@,
        ) && next->Done_0.remote_sha is None && next->Done_0.status == Status::Unknown,
        head matches Ok(Some(remote)) ==> {
            &&& remote@ == job.installed_sha@ ==> next is Done && next->Done_0.status
                == Status::Same && next->Done_0.error is None
                && next->Done_0.remote_sha.deep_view() == Some(remote@)
                && next->Done_0.cache_entries@.len() == 0
            &&& remote@ != job.installed_sha@ && (forall|tag: Seq<char>|
                job.requested_ref.deep_view() != Some("refs/tags/"@ + tag)) ==> next is AskTags
                && next->AskTags_remote@ == remote@
            &&& forall|tag: Seq<char>|
                remote@ != job.installed_sha@ && job.requested_ref.deep_view() == Some(
                    #[trigger] ("refs/tags/"@ + tag),
                ) ==> {
                    let known = compare::cached(
                        cache.entries.deep_view(),
                        (CompareKey {
                            owner: job.owner@,
                            repo: job.repo@,
                            installed_sha: job.installed_sha@,
                            remote_sha: remote@,
                        }),
                    );
                    &&& known is Some <==> next is Done
                    &&& known is None <==> next is AskApi
                    &&& next is AskApi ==> next->AskApi_remote@ == remote@
                        && next->AskApi_version.deep_view() == Some(tag)
                }
        },
{
    if let Ok(Some(remote)) = head {
        if remote@ != job.installed_sha@ {
            if let Some(r) = job.requested_ref.deep_view() {
                let p = "refs/tags/"@;
                if p.is_prefix_of(r) {
                    assert(r =~= p + r.skip(p.len() as int));
                }
                assert forall|tag: Seq<char>| r == #[trigger] (p + tag) implies text::without_prefix(
                    r,
                    p,
                ) == Some(tag) by {
                    assert(p =~= r.subrange(0, p.len() as int));
                    assert(r.skip(p.len() as int) =~= tag);
                }
            }
        }
        if remote@ == job.installed_sha@ {
            assert(next->Done_0.cache_entries.deep_view().len() == 0);
        }
    }
}

/// A check begins by asking git for the ref that the plugin was installed at, and
/// for the default branch where it was installed at none, in the repository of
/// the plugin.
pub proof fn the_tracked_ref_is_asked_for(job: &RemoteJob, r: JobWork)
    requires
        call_ensures(begin, (job,), r),
    ensures
        r is AskHead,
        r->AskHead_args@.len() == 7,
        r->AskHead_args@[0]@ == "-c"@ && r->AskHead_args@[1]@ == "http.lowSpeedLimit=1"@,
        r->AskHead_args@[2]@ == "-c"@ && r->AskHead_args@[3]@ == "http.lowSpeedTime=15"@,
        r->AskHead_args@[4]@ == "ls-remote"@,
        r->AskHead_args@[5]@ == "https://github.com/"@ + job.owner@ + "/"@ + job.repo@,
        job.requested_ref matches Some(at) ==> r->AskHead_args@[6]@ == at@,
        job.requested_ref is None ==> r->AskHead_args@[6]@ == "HEAD"@,
{
    let args = r->AskHead_args.deep_view();
    assert(args.len() == r->AskHead_args@.len());
    assert(args[0] == r->AskHead_args@[0]@ && args[1] == r->AskHead_args@[1]@);
    assert(args[2] == r->AskHead_args@[2]@ && args[3] == r->AskHead_args@[3]@);
    assert(args[4] == r->AskHead_args@[4]@);
    assert(args[5] == r->AskHead_args@[5]@);
    assert(args[6] == r->AskHead_args@[6]@);
}

/// The commit that is found is the first word of what git printed, where that is
/// a full commit hash, whatever follows it; anything else is no commit.
pub proof fn the_head_is_the_first_word(
    sha: Seq<char>,
    rest: Seq<char>,
    printed: &str,
    r: Option<String>,
)
    requires
        call_ensures(find_head, (printed,), r),
        printed@ == sha + rest,
        sha.len() > 0,
        text::no_white(sha),
        rest.len() == 0 || text::white_space(rest[0]),
    ensures
        updater::commit_hash(sha) ==> r.deep_view() == Some(sha),
        !updater::commit_hash(sha) ==> r is None,
{
    text::leading_word_is_first(sha, rest);
}

/// Whatever git printed, what is found is a full commit hash, or nothing.
pub proof fn heads_are_commits(printed: &str, r: Option<String>)
    requires
        call_ensures(find_head, (printed,), r),
    ensures
        r matches Some(sha) ==> updater::commit_hash(sha@),
{
}

/// A git that could not be run is an error with its reason; one that failed finds
/// no commit, whatever it printed; and of one that succeeded what it printed is
/// read.
pub proof fn only_a_git_that_succeeded_is_read(
    run: Result<ToolOutput, String>,
    r: Result<Option<String>, String>,
    version: Option<String>,
    printed: &str,
    head: Option<String>,
    tag: Option<String>,
)
    requires
        call_ensures(remote_head, (run,), r),
        call_ensures(remote_version, (run,), version),
        call_ensures(find_head, (printed,), head),
        call_ensures(find_tag, (printed,), tag),
        run matches Ok(out) ==> printed@ == text::lossy_utf8(out.stdout@),
    ensures
        run matches Err(e) ==> r is Err && r->Err_0@ == e@ && version is None,
        run matches Ok(out) ==> r is Ok,
        run matches Ok(out) ==> !out.ok ==> r->Ok_0 is None && version is None,
        run matches Ok(out) ==> out.ok ==> r->Ok_0.deep_view() == head.deep_view()
            && version.deep_view() == tag.deep_view(),
{
}

proof fn lemma_first_tag(lines: Seq<Seq<char>>) -> (i: int)
    ensures
        0 <= i <= lines.len(),
        forall|j: int| 0 <= j < i ==> tag_in(#[trigger] lines[j]) is None,
        i < lines.len() ==> tag_in(lines[i]) is Some && first_tag(lines) == tag_in(lines[i]),
        i == lines.len() ==> first_tag(lines) is None,
    decreases lines.len(),
{
    if lines.len() == 0 || tag_in(lines[0]) is Some {
        0
    } else {
        let i = lemma_first_tag(lines.skip(1));
        assert forall|j: int| 0 <= j < i + 1 implies tag_in(#[trigger] lines[j]) is None by {
            if j > 0 {
                assert(lines.skip(1)[j - 1] == lines[j]);
            }
        }
        i + 1
    }
}

/// The version that is shown is that of the first line that names a tag: git
/// lists the highest one first.
pub proof fn the_first_tag_is_shown(printed: &str, r: Option<String>)
    requires
        call_ensures(find_tag, (printed,), r),
    ensures
        ({
            let lines = text::lines(printed@);
            &&& r is None <==> forall|i: int|
                0 <= i < lines.len() ==> tag_in(#[trigger] lines[i]) is None
            &&& forall|i: int|
                0 <= i < lines.len() && tag_in(lines[i]) is Some && (forall|j: int|
                    0 <= j < i ==> tag_in(#[trigger] lines[j]) is None) ==> r.deep_view()
                    == tag_in(#[trigger] lines[i])
        }),
{
    let lines = text::lines(printed@);
    let k = lemma_first_tag(lines);
    assert forall|i: int|
        0 <= i < lines.len() && tag_in(lines[i]) is Some && (forall|j: int|
            0 <= j < i ==> tag_in(#[trigger] lines[j]) is None) implies r.deep_view() == tag_in(
        #[trigger] lines[i],
    ) by {
        if k < i {
            assert(tag_in(lines[k]) is None);
        } else if i < k {
            assert(tag_in(lines[i]) is None);
        }
    }
    if r is None {
        assert(k == lines.len());
    }
}

/// A line names the tag whose full name is its second word, unless that is empty
/// or the entry for the commit behind an annotated tag. A second word that is no
/// tag, and a line without one, names none.
pub proof fn lines_name_tags(sha: Seq<char>, gap: Seq<char>, name: Seq<char>, tag: Seq<char>)
    requires
        sha.len() > 0,
        text::no_white(sha),
        gap.len() > 0,
        text::all_white(gap),
        text::no_white(name),
        name.len() > 0,
    ensures
        name == "refs/tags/"@ + tag && tag.len() > 0 && !seq!['^', '{', '}'].is_suffix_of(tag)
            ==> tag_in(sha + gap + name) == Some(tag),
        name == "refs/tags/"@ + tag && (tag.len() == 0 || seq!['^', '{', '}'].is_suffix_of(tag))
            ==> tag_in(sha + gap + name) is None,
        !"refs/tags/"@.is_prefix_of(name) ==> tag_in(sha + gap + name) is None,
        tag_in(sha) is None,
{
    let none = Seq::<char>::empty();
    let p = "refs/tags/"@;
    reveal_strlit("^{}");
    assert("^{}"@ =~= seq!['^', '{', '}']);
    text::words_are_split_at_white_space(none, sha, gap + name);
    text::words_are_split_at_white_space(gap, name, none);
    text::words_are_split_at_white_space(none, sha, none);
    assert(none + sha + (gap + name) =~= sha + gap + name);
    assert(gap + name + none =~= gap + name);
    assert(none + sha + none =~= sha);
    let ws = text::words(sha + gap + name);
    assert(ws.len() >= 2 && ws[1] == name);
    assert(text::words(sha).len() == 1);
    if name == p + tag {
        assert(p =~= name.subrange(0, p.len() as int));
        assert(name.skip(p.len() as int) =~= tag);
    }
}

/// Once the upstream version has a name, or none, the cache answers where it
/// knows about exactly these commits; else the API is asked, about the same
/// commit and with the same name.
pub proof fn the_cache_comes_before_the_api(
    job: &RemoteJob,
    remote: String,
    version: Option<String>,
    timeout_secs: u64,
    cache: &Cache,
    now: &str,
    next: JobWork,
)
    requires
        call_ensures(version_known, (job, remote, version, timeout_secs, cache, now), next),
    ensures
        ({
            let key = CompareKey {
                owner: job.owner@,
                repo: job.repo@,
                installed_sha: job.installed_sha@,
                remote_sha: remote@,
            };
            let known = compare::cached(cache.entries.deep_view(), key);
            &&& known is Some <==> next is Done
            &&& known is None <==> next is AskApi
            &&& next matches JobWork::AskApi { remote: asked, version: name, args } ==> asked@
                == remote@ && name.deep_view() == version.deep_view() && args.deep_view()
                == compare::compare_args(key, timeout_secs)
            &&& next matches JobWork::Done(r) ==> {
                &&& r.remote_sha.deep_view() == Some(remote@)
                &&& r.error is None
                &&& r.status == Status::Behind <==> known == Some(CompareStatus::Ahead)
                &&& r.status == Status::Ahead <==> known == Some(CompareStatus::Behind)
                &&& r.status == Status::Diverged <==> known == Some(CompareStatus::Diverged)
                &&& r.status == Status::Same <==> known == Some(CompareStatus::Identical)
            }
        }),
{
}

/// What is asked follows from what came of the last question: git's answer about
/// the ref, git's answer about the tags, and a verdict of the API are handed on
/// to the step that takes them; anything else changes nothing.
pub proof fn answers_are_handed_on(
    job: &RemoteJob,
    work: JobWork,
    event: JobEvent,
    timeout_secs: u64,
    cache: &Cache,
    now: &str,
    next: JobWork,
    head: Result<Option<String>, String>,
    version: Option<String>,
    behind_head: JobWork,
    behind_tags: JobWork,
)
    requires
        call_ensures(follow, (job, work, event, timeout_secs, cache, now), next),
        event matches JobEvent::Ran(run) ==> call_ensures(remote_head, (run,), head)
            && call_ensures(remote_version, (run,), version),
        call_ensures(head_known, (job, head, timeout_secs, cache, now), behind_head),
        work matches JobWork::AskTags { remote, .. } ==> call_ensures(
            version_known,
            (job, remote, version, timeout_secs, cache, now),
            behind_tags,
        ),
    ensures
        work is AskHead && event is Ran ==> next.deep_view() == behind_head.deep_view(),
        work is AskTags && event is Ran ==> next.deep_view() == behind_tags.deep_view(),
        work is AskApi && event is Compared ==> next is Done,
        (work is AskHead || work is AskTags) && event is Compared ==> next.deep_view()
            == work.deep_view(),
        work is AskApi && event is Ran ==> next.deep_view() == work.deep_view(),
        work is Done ==> next.deep_view() == work.deep_view(),
{
    if let JobEvent::Ran(run) = event {
        assert(head_from(run) == (match head {
            Ok(h) => Ok::<Option<Seq<char>>, Seq<char>>(h.deep_view()),
            Err(e) => Err::<Option<Seq<char>>, Seq<char>>(e@),
        }));
    }
}

/// The tags are listed from the repository of the plugin, the highest version
/// first.
pub proof fn tags_are_listed_highest_first(
    job: &RemoteJob,
    head: Result<Option<String>, String>,
    timeout_secs: u64,
    cache: &Cache,
    now: &str,
    next: JobWork,
)
    requires
        call_ensures(head_known, (job, head, timeout_secs, cache, now), next),
        next is AskTags,
    ensures
        next->AskTags_args@.len() == 8,
        next->AskTags_args@[0]@ == "-c"@ && next->AskTags_args@[1]@ == "http.lowSpeedLimit=1"@,
        next->AskTags_args@[2]@ == "-c"@ && next->AskTags_args@[3]@ == "http.lowSpeedTime=15"@,
        next->AskTags_args@[4]@ == "ls-remote"@,
        next->AskTags_args@[5]@ == "--tags"@,
        next->AskTags_args@[6]@ == "--sort=-v:refname"@,
        next->AskTags_args@[7]@ == "https://github.com/"@ + job.owner@ + "/"@ + job.repo@,
{
    let args = next->AskTags_args.deep_view();
    assert(args.len() == next->AskTags_args@.len());
    assert(args[0] == next->AskTags_args@[0]@ && args[1] == next->AskTags_args@[1]@);
    assert(args[2] == next->AskTags_args@[2]@ && args[3] == next->AskTags_args@[3]@);
    assert(args[4] == next->AskTags_args@[4]@ && args[5] == next->AskTags_args@[5]@);
    assert(args[6] == next->AskTags_args@[6]@ && args[7] == next->AskTags_args@[7]@);
}

/// The values of a job are what it holds.
pub proof fn jobs_are_seen_whole(job: RemoteJob)
    ensures
        job.deep_view().plugin_id == job.plugin_id@,
        job.deep_view().owner == job.owner@,
        job.deep_view().repo == job.repo@,
        job.deep_view().version == job.version.deep_view(),
        job.deep_view().installed_sha == job.installed_sha@,
        job.deep_view().requested_ref == job.requested_ref.deep_view(),
{
}

} // verus!
