//! Relation of an installed commit to an upstream one, as the GitHub compare
//! API reports it, and the cache of its verdicts.
//!
//! The API is asked with the installed commit as base and the upstream commit
//! as head, so its `ahead` means that upstream has commits the installed
//! version lacks.

use crate::config::DataDir;
use crate::config::FilePath;
use crate::text;
use crate::tool::ToolOutput;
use vstd::prelude::*;

verus! {

/// Relation of head to base.
#[derive(Debug, Clone, Copy, PartialEq, Eq, Structural)]
pub enum CompareStatus {
    Identical,
    /// The head has commits the base lacks.
    Ahead,
    /// The base has commits the head lacks.
    Behind,
    /// Both sides have unique commits.
    Diverged,
}

/// One cached verdict for an exact owner, repository, installed and upstream
/// commit.
#[derive(Debug)]
pub struct CacheEntry {
    pub owner: String,
    pub repo: String,
    pub installed_sha: String,
    pub remote_sha: String,
    pub status: CompareStatus,
    pub at: String,
}

/// What a verdict is about.
pub struct CompareKey {
    pub owner: Seq<char>,
    pub repo: Seq<char>,
    pub installed_sha: Seq<char>,
    pub remote_sha: Seq<char>,
}

/// A `CacheEntry` as values.
pub struct CacheEntryView {
    pub key: CompareKey,
    pub status: CompareStatus,
    pub at: Seq<char>,
}

impl DeepView for CacheEntry {
    type V = CacheEntryView;

    open spec fn deep_view(&self) -> CacheEntryView {
        CacheEntryView {
            key: CompareKey {
                owner: self.owner@,
                repo: self.repo@,
                installed_sha: self.installed_sha@,
                remote_sha: self.remote_sha@,
            },
            status: self.status,
            at: self.at@,
        }
    }
}

impl Clone for CacheEntry {
    fn clone(&self) -> (r: Self)
        ensures
            r.deep_view() == self.deep_view(),
    {
        CacheEntry {
            owner: self.owner.clone(),
            repo: self.repo.clone(),
            installed_sha: self.installed_sha.clone(),
            remote_sha: self.remote_sha.clone(),
            status: self.status,
            at: self.at.clone(),
        }
    }
}

/// The cached verdicts.
#[derive(Debug)]
pub struct Cache {
    pub version: u32,
    pub entries: Vec<CacheEntry>,
}

impl Default for Cache {
    fn default() -> (r: Cache)
        ensures
            r.version == 0,
            r.entries@.len() == 0,
    {
        Cache { version: 0, entries: Vec::new() }
    }
}

/// Version that a written cache carries.
pub const CACHE_VERSION: u32 = 1;

/// The verdict that a cache holds about a key: that of its first entry with it.
pub open spec fn cached(entries: Seq<CacheEntryView>, key: CompareKey) -> Option<CompareStatus>
    decreases entries.len(),
{
    if entries.len() == 0 {
        None
    } else if entries[0].key == key {
        Some(entries[0].status)
    } else {
        cached(entries.skip(1), key)
    }
}

impl CacheEntry {
    /// Whether the entry is about these commits.
    fn is_about(&self, owner: &str, repo: &str, installed_sha: &str, remote_sha: &str) -> (r: bool)
        ensures
            r == (self.deep_view().key == (CompareKey {
                owner: owner@,
                repo: repo@,
                installed_sha: installed_sha@,
                remote_sha: remote_sha@,
            })),
    {
        text::same(self.owner.as_str(), owner) && text::same(self.repo.as_str(), repo)
            && text::same(self.installed_sha.as_str(), installed_sha) && text::same(
            self.remote_sha.as_str(),
            remote_sha,
        )
    }
}

impl Cache {
    /// The verdict that the cache holds about these commits.
    pub fn lookup(&self, owner: &str, repo: &str, installed_sha: &str, remote_sha: &str) -> (r:
        Option<CompareStatus>)
        ensures
            r == cached(
                self.entries.deep_view(),
                (CompareKey {
                    owner: owner@,
                    repo: repo@,
                    installed_sha: installed_sha@,
                    remote_sha: remote_sha@,
                }),
            ),
    {
        let ghost all = self.entries.deep_view();
        let ghost key = CompareKey {
            owner: owner@,
            repo: repo@,
            installed_sha: installed_sha@,
            remote_sha: remote_sha@,
        };
        let mut i: usize = 0;
        assert(all.skip(0) =~= all);
        while i < self.entries.len()
            invariant
                all == self.entries.deep_view(),
                key == (CompareKey {
                    owner: owner@,
                    repo: repo@,
                    installed_sha: installed_sha@,
                    remote_sha: remote_sha@,
                }),
                i <= self.entries.len(),
                cached(all, key) == cached(all.skip(i as int), key),
            decreases self.entries.len() - i,
        {
            assert(all.skip(i as int)[0] == self.entries@[i as int].deep_view());
            assert(all.skip(i as int).skip(1) =~= all.skip(i + 1));
            if self.entries[i].is_about(owner, repo, installed_sha, remote_sha) {
                return Some(self.entries[i].status);
            }
            i = i + 1;
        }
        None
    }
}

/// The cache that reading its file came to: an empty one where the file is
/// missing or holds no cache, which is advisory only.
pub fn load_cache(read: Option<Cache>) -> (r: Cache)
    ensures
        r.entries.deep_view() == (match read {
            Some(c) => c.entries.deep_view(),
            None => Seq::empty(),
        }),
        r.version == (match read {
            Some(c) => c.version,
            None => 0,
        }),
{
    match read {
        Some(c) => c,
        None => {
            let c = Cache::default();
            assert(c.entries.deep_view() =~= Seq::empty());
            c
        },
    }
}

/// The entries that are not about a key.
pub open spec fn without_key(entries: Seq<CacheEntryView>, key: CompareKey) -> Seq<
    CacheEntryView,
> {
    entries.filter(|e: CacheEntryView| e.key != key)
}

/// Entries into which new ones were taken, one after the other: each replaces
/// what was there about its key.
pub open spec fn merged(entries: Seq<CacheEntryView>, new: Seq<CacheEntryView>) -> Seq<
    CacheEntryView,
>
    decreases new.len(),
{
    if new.len() == 0 {
        entries
    } else {
        let m = merged(entries, new.drop_last());
        without_key(m, new.last().key).push(new.last())
    }
}

/// The cache without what it holds about the key of an entry.
fn drop_key(entries: &Vec<CacheEntry>, ne: &CacheEntry) -> (r: Vec<CacheEntry>)
    ensures
        r.deep_view() == without_key(entries.deep_view(), ne.deep_view().key),
{
    let ghost all = entries.deep_view();
    let ghost keep = |e: CacheEntryView| e.key != ne.deep_view().key;
    let mut kept: Vec<CacheEntry> = Vec::new();
    let mut i: usize = 0;
    assert(all.take(0) =~= Seq::<CacheEntryView>::empty());
    reveal(Seq::filter);
    assert(kept.deep_view() =~= all.take(0).filter(keep));
    while i < entries.len()
        invariant
            all == entries.deep_view(),
            keep == (|e: CacheEntryView| e.key != ne.deep_view().key),
            i <= entries.len(),
            kept.deep_view() == all.take(i as int).filter(keep),
        decreases entries.len() - i,
    {
        let ghost before = kept.deep_view();
        let e = &entries[i];
        proof {
            reveal(Seq::filter);
            assert(all.take(i + 1).drop_last() =~= all.take(i as int));
            assert(all.take(i + 1).last() == e.deep_view());
        }
        if !e.is_about(
            ne.owner.as_str(),
            ne.repo.as_str(),
            ne.installed_sha.as_str(),
            ne.remote_sha.as_str(),
        ) {
            kept.push(e.clone());
            assert(kept.deep_view() =~= before.push(e.deep_view()));
        }
        i = i + 1;
    }
    assert(all.take(entries.len() as int) =~= all);
    kept
}

/// Takes fresh verdicts into a cache; they win over older ones about the same
/// commits.
pub fn merge_cache(cache: Cache, new_entries: Vec<CacheEntry>) -> (r: Cache)
    ensures
        r.version == CACHE_VERSION,
        r.entries.deep_view() == merged(cache.entries.deep_view(), new_entries.deep_view()),
{
    let ghost old_entries = cache.entries.deep_view();
    let ghost new = new_entries.deep_view();
    let mut entries: Vec<CacheEntry> = cache.entries;
    let mut i: usize = 0;
    while i < new_entries.len()
        invariant
            new == new_entries.deep_view(),
            i <= new_entries.len(),
            entries.deep_view() == merged(old_entries, new.take(i as int)),
        decreases new_entries.len() - i,
    {
        let ne = &new_entries[i];
        let mut kept = drop_key(&entries, ne);
        let ghost before = kept.deep_view();
        kept.push(ne.clone());
        proof {
            assert(kept.deep_view() =~= before.push(ne.deep_view()));
            assert(new.take(i + 1).drop_last() =~= new.take(i as int));
            assert(new.take(i + 1).last() == ne.deep_view());
        }
        entries = kept;
        i = i + 1;
    }
    assert(new.take(new_entries.len() as int) =~= new);
    Cache { version: CACHE_VERSION, entries }
}

/// The verdict of the last of some entries that is about a key.
pub open spec fn last_verdict(entries: Seq<CacheEntryView>, key: CompareKey) -> Option<
    CompareStatus,
>
    decreases entries.len(),
{
    if entries.len() == 0 {
        None
    } else if entries.last().key == key {
        Some(entries.last().status)
    } else {
        last_verdict(entries.drop_last(), key)
    }
}

proof fn lemma_cached_push(entries: Seq<CacheEntryView>, e: CacheEntryView, key: CompareKey)
    ensures
        cached(entries.push(e), key) == (match cached(entries, key) {
            Some(s) => Some(s),
            None => if e.key == key {
                Some(e.status)
            } else {
                None
            },
        }),
    decreases entries.len(),
{
    let all = entries.push(e);
    if entries.len() == 0 {
        reveal_with_fuel(cached, 2);
    } else {
        assert(all[0] == entries[0]);
        assert(all.skip(1) =~= entries.skip(1).push(e));
        lemma_cached_push(entries.skip(1), e, key);
    }
}

proof fn lemma_cached_without(entries: Seq<CacheEntryView>, gone: CompareKey, key: CompareKey)
    ensures
        cached(without_key(entries, gone), key) == (if key == gone {
            None
        } else {
            cached(entries, key)
        }),
    decreases entries.len(),
{
    reveal(Seq::filter);
    if entries.len() > 0 {
        let front = entries.drop_last();
        let e = entries.last();
        lemma_cached_without(front, gone, key);
        assert(entries =~= front.push(e));
        lemma_cached_push(front, e, key);
        lemma_cached_push(without_key(front, gone), e, key);
    }
}

/// What a merged cache holds about a key is the last fresh verdict about it,
/// and what it held before where there is no fresh one.
pub proof fn merge_then_lookup(
    entries: Seq<CacheEntryView>,
    new: Seq<CacheEntryView>,
    key: CompareKey,
)
    ensures
        cached(merged(entries, new), key) == (match last_verdict(new, key) {
            Some(s) => Some(s),
            None => cached(entries, key),
        }),
    decreases new.len(),
{
    if new.len() > 0 {
        let m = merged(entries, new.drop_last());
        let e = new.last();
        merge_then_lookup(entries, new.drop_last(), key);
        lemma_cached_without(m, e.key, key);
        lemma_cached_push(without_key(m, e.key), e, key);
    }
}

/// Whether no two entries are about the same commits.
pub open spec fn keys_unique(entries: Seq<CacheEntryView>) -> bool {
    forall|i: int, j: int|
        0 <= i < j < entries.len() ==> #[trigger] entries[i].key != #[trigger] entries[j].key
}

proof fn lemma_unique_without(entries: Seq<CacheEntryView>, gone: CompareKey)
    requires
        keys_unique(entries),
    ensures
        keys_unique(without_key(entries, gone)),
        forall|i: int|
            0 <= i < without_key(entries, gone).len() ==> #[trigger] without_key(
                entries,
                gone,
            )[i].key != gone && entries.contains(without_key(entries, gone)[i]),
    decreases entries.len(),
{
    reveal(Seq::filter);
    if entries.len() > 0 {
        let front = entries.drop_last();
        let e = entries.last();
        let kept = without_key(front, gone);
        assert forall|i: int, j: int| 0 <= i < j < front.len() implies #[trigger] front[i].key
            != #[trigger] front[j].key by {
            assert(entries[i].key != entries[j].key);
        }
        lemma_unique_without(front, gone);
        assert forall|i: int| 0 <= i < kept.len() implies #[trigger] kept[i].key != e.key
            && entries.contains(kept[i]) by {
            assert(front.contains(kept[i]));
            let j = choose|j: int| 0 <= j < front.len() && front[j] == kept[i];
            assert(entries[j] == kept[i]);
            assert(entries[j].key != entries[entries.len() - 1].key);
        }
        assert(entries.contains(e)) by {
            assert(entries[entries.len() - 1] == e);
        }
    }
}

/// Merging keeps a cache free of two verdicts about the same commits.
pub proof fn merge_keeps_unique(entries: Seq<CacheEntryView>, new: Seq<CacheEntryView>)
    requires
        keys_unique(entries),
    ensures
        keys_unique(merged(entries, new)),
    decreases new.len(),
{
    if new.len() > 0 {
        let m = merged(entries, new.drop_last());
        merge_keeps_unique(entries, new.drop_last());
        lemma_unique_without(m, new.last().key);
    }
}

/// The address that the API is asked at.
pub open spec fn compare_url(key: CompareKey) -> Seq<char> {
    "https://api.github.com/repos/"@ + key.owner + "/"@ + key.repo + "/compare/"@
        + key.installed_sha + "..."@ + key.remote_sha
}

/// The arguments behind the curl program that ask the API.
pub open spec fn compare_args(key: CompareKey, timeout_secs: u64) -> Seq<Seq<char>> {
    seq!["-fsS"@, "--max-time"@, text::decimal(timeout_secs as nat), compare_url(key)]
}

/// How a relation is found out.
#[derive(Debug)]
pub enum ClassifyStep {
    /// The cache knows it.
    Known(CompareStatus),
    /// The API has to be asked, with these arguments behind the curl program.
    Ask(Vec<String>),
}

/// Finds the relation of an installed to an upstream commit in the cache, or
/// says how to ask for it: the API is asked only where the cache has no entry
/// about exactly these commits.
pub fn classify(
    owner: &str,
    repo: &str,
    installed_sha: &str,
    remote_sha: &str,
    timeout_secs: u64,
    cache: &Cache,
) -> (r: ClassifyStep)
    ensures
        ({
            let key = CompareKey {
                owner: owner@,
                repo: repo@,
                installed_sha: installed_sha@,
                remote_sha: remote_sha@,
            };
            match cached(cache.entries.deep_view(), key) {
                Some(s) => r == ClassifyStep::Known(s),
                None => r is Ask && r->Ask_0.deep_view() == compare_args(key, timeout_secs),
            }
        }),
{
    match cache.lookup(owner, repo, installed_sha, remote_sha) {
        Some(s) => ClassifyStep::Known(s),
        None => {
            let mut url = "https://api.github.com/repos/".to_owned();
            url.append(owner);
            url.append("/");
            url.append(repo);
            url.append("/compare/");
            url.append(installed_sha);
            url.append("...");
            url.append(remote_sha);
            let args: Vec<String> = vec![
                "-fsS".to_owned(),
                "--max-time".to_owned(),
                text::decimal_text(timeout_secs),
                url,
            ];
            assert(args.deep_view() =~= compare_args(
                CompareKey {
                    owner: owner@,
                    repo: repo@,
                    installed_sha: installed_sha@,
                    remote_sha: remote_sha@,
                },
                timeout_secs,
            ));
            ClassifyStep::Ask(args)
        },
    }
}

/// What is reported when the API cannot be asked, given what curl said.
pub open spec fn api_error(said: Seq<char>, status: Seq<char>, timeout_secs: u64) -> Seq<char> {
    if text::occurs(said, "403"@) || text::occurs(said, "429"@) || text::occurs(
        said,
        "rate limit"@,
    ) {
        "compare API: rate limit exceeded (cache hit next run)"@
    } else if text::occurs(said, "timed out after"@) {
        "compare API: request timed out after "@ + text::decimal(timeout_secs as nat) + "s"@
    } else if text::trimmed(said).len() == 0 {
        "compare API: request failed (HTTP "@ + status + ")"@
    } else {
        "compare API: request failed: "@ + text::trimmed(said)
    }
}

/// What is reported when the API cannot be asked, given what curl said and its
/// exit status.
pub fn compare_error(said: &str, status: &str, timeout_secs: u64) -> (r: String)
    ensures
        r@ == api_error(said@, status@, timeout_secs),
{
    if text::contains(said, "403") || text::contains(said, "429") || text::contains(
        said,
        "rate limit",
    ) {
        return "compare API: rate limit exceeded (cache hit next run)".to_owned();
    }
    if text::contains(said, "timed out after") {
        let mut s = "compare API: request timed out after ".to_owned();
        text::push_decimal(&mut s, timeout_secs);
        s.append("s");
        return s;
    }
    let msg = text::trim(said);
    if msg.is_empty() {
        let mut s = "compare API: request failed (HTTP ".to_owned();
        s.append(status);
        s.append(")");
        s
    } else {
        let mut s = "compare API: request failed: ".to_owned();
        s.append(msg);
        s
    }
}

/// The reply of the API, or what went wrong.
pub fn compare_reply(run: Result<ToolOutput, String>, timeout_secs: u64) -> (r: Result<
    Vec<u8>,
    String,
>)
    ensures
        match run {
            Ok(out) => if out.ok {
                r is Ok && r->Ok_0@ == out.stdout@
            } else {
                r is Err && r->Err_0@ == api_error(
                    text::lossy_utf8(out.stderr@),
                    out.status@,
                    timeout_secs,
                )
            },
            Err(e) => r is Err && r->Err_0@ == "compare API: "@ + e@,
        },
        run matches Ok(out) ==> (!out.ok ==> text::utf8_is_read(out.stderr@)),
{
    match run {
        Ok(out) => if out.ok {
            Ok(out.stdout)
        } else {
            let said = text::utf8_lossy(out.stderr.as_slice());
            Err(compare_error(said.as_str(), out.status.as_str(), timeout_secs))
        },
        Err(e) => {
            let mut s = "compare API: ".to_owned();
            s.append(e.as_str());
            Err(s)
        },
    }
}

/// The relation that a reply of the API states: `parsed` is its `status` field,
/// or why the reply cannot be read.
pub fn compare_verdict(parsed: Result<String, String>) -> (r: Result<CompareStatus, String>)
    ensures
        match parsed {
            Ok(s) => if s@ == "identical"@ {
                r == Ok::<CompareStatus, String>(CompareStatus::Identical)
            } else if s@ == "ahead"@ {
                r == Ok::<CompareStatus, String>(CompareStatus::Ahead)
            } else if s@ == "behind"@ {
                r == Ok::<CompareStatus, String>(CompareStatus::Behind)
            } else if s@ == "diverged"@ {
                r == Ok::<CompareStatus, String>(CompareStatus::Diverged)
            } else {
                r is Err && r->Err_0@ == "compare API: unexpected status '"@ + s@ + "'"@
            },
            Err(e) => r is Err && r->Err_0@ == "compare API: cannot parse response: "@ + e@,
        },
{
    match parsed {
        Ok(s) => {
            if text::same(s.as_str(), "identical") {
                Ok(CompareStatus::Identical)
            } else if text::same(s.as_str(), "ahead") {
                Ok(CompareStatus::Ahead)
            } else if text::same(s.as_str(), "behind") {
                Ok(CompareStatus::Behind)
            } else if text::same(s.as_str(), "diverged") {
                Ok(CompareStatus::Diverged)
            } else {
                let mut m = "compare API: unexpected status '".to_owned();
                m.append(s.as_str());
                m.append("'");
                Err(m)
            }
        },
        Err(e) => {
            let mut m = "compare API: cannot parse response: ".to_owned();
            m.append(e.as_str());
            Err(m)
        },
    }
}

/// Where the cache lives in the data directory.
pub fn cache_path(dir: &DataDir) -> (r: FilePath)
    ensures
        r.dir.deep_view() == dir.deep_view(),
        r.name@ == "compare-cache.json"@,
{
    FilePath { dir: dir.clone(), name: "compare-cache.json".to_owned() }
}

proof fn lemma_cached_first(entries: Seq<CacheEntryView>, key: CompareKey) -> (i: int)
    ensures
        0 <= i <= entries.len(),
        forall|j: int| 0 <= j < i ==> (#[trigger] entries[j]).key != key,
        i < entries.len() ==> entries[i].key == key && cached(entries, key) == Some(
            entries[i].status,
        ),
        i == entries.len() ==> cached(entries, key) is None,
    decreases entries.len(),
{
    if entries.len() == 0 || entries[0].key == key {
        0
    } else {
        let i = lemma_cached_first(entries.skip(1), key);
        assert forall|j: int| 0 <= j < i + 1 implies (#[trigger] entries[j]).key != key by {
            if j > 0 {
                assert(entries.skip(1)[j - 1] == entries[j]);
            }
        }
        i + 1
    }
}

/// The cache answers for exactly the owner, the repository and the two commits:
/// with the verdict of the first entry that has all four, and not at all where
/// none has.
pub proof fn lookup_goes_by_all_four(
    cache: &Cache,
    owner: &str,
    repo: &str,
    installed_sha: &str,
    remote_sha: &str,
    r: Option<CompareStatus>,
)
    requires
        call_ensures(Cache::lookup, (cache, owner, repo, installed_sha, remote_sha), r),
    ensures
        ({
            let about = |e: CacheEntry|
                e.owner@ == owner@ && e.repo@ == repo@ && e.installed_sha@ == installed_sha@
                    && e.remote_sha@ == remote_sha@;
            &&& r is None <==> forall|i: int|
                0 <= i < cache.entries@.len() ==> !about(#[trigger] cache.entries@[i])
            &&& r matches Some(v) ==> exists|i: int|
                0 <= i < cache.entries@.len() && about(#[trigger] cache.entries@[i])
                    && cache.entries@[i].status == v && forall|j: int|
                    0 <= j < i ==> !about(#[trigger] cache.entries@[j])
        }),
{
    let all = cache.entries.deep_view();
    let key = CompareKey {
        owner: owner@,
        repo: repo@,
        installed_sha: installed_sha@,
        remote_sha: remote_sha@,
    };
    let about = |e: CacheEntry|
        e.owner@ == owner@ && e.repo@ == repo@ && e.installed_sha@ == installed_sha@
            && e.remote_sha@ == remote_sha@;
    let k = lemma_cached_first(all, key);
    assert forall|i: int| 0 <= i < cache.entries@.len() implies about(#[trigger] cache.entries@[i])
        == (all[i].key == key) by {
        assert(all[i] == cache.entries@[i].deep_view());
    }
    if k < all.len() {
        assert(about(cache.entries@[k]));
        assert(all[k] == cache.entries@[k].deep_view());
    }
}

/// The API is asked exactly where the cache has no answer, and then for the
/// upstream commit relative to the installed one: the address holds the owner
/// and the repository and ends with both commits, the installed one first. The
/// time that the request may take is handed on.
pub proof fn the_api_is_asked_for_what_is_unknown(
    owner: &str,
    repo: &str,
    installed_sha: &str,
    remote_sha: &str,
    timeout_secs: u64,
    cache: &Cache,
    found: Option<CompareStatus>,
    r: ClassifyStep,
)
    requires
        call_ensures(Cache::lookup, (cache, owner, repo, installed_sha, remote_sha), found),
        call_ensures(
            classify,
            (owner, repo, installed_sha, remote_sha, timeout_secs, cache),
            r,
        ),
    ensures
        found matches Some(v) ==> r == ClassifyStep::Known(v),
        found is None ==> {
            &&& r is Ask
            &&& r->Ask_0@.len() == 4
            &&& r->Ask_0@[0]@ == "-fsS"@
            &&& r->Ask_0@[1]@ == "--max-time"@
            &&& text::number_of(r->Ask_0@[2]@) == timeout_secs
            &&& r->Ask_0@[3]@ == "https://api.github.com/repos/"@ + (owner@ + "/"@ + repo@) + (
            "/compare/"@ + (installed_sha@ + "..."@ + remote_sha@))
        },
{
    if found is None {
        let args = r->Ask_0.deep_view();
        text::decimal_stands_for_its_number(timeout_secs as nat);
        assert(args.len() == r->Ask_0@.len());
        assert(args[0] == r->Ask_0@[0]@ && args[1] == r->Ask_0@[1]@);
        assert(args[2] == r->Ask_0@[2]@ && args[3] == r->Ask_0@[3]@);
        assert(args[3] =~= "https://api.github.com/repos/"@ + (owner@ + "/"@ + repo@) + (
        "/compare/"@ + (installed_sha@ + "..."@ + remote_sha@)));
    }
}

/// A request that the API turned down for too many of them is told apart from
/// all others, wherever in what curl said that stands; then one that timed out;
/// and of the rest what curl said is kept, or its exit status where it said
/// nothing.
pub proof fn failed_requests_are_told_apart(
    said: &str,
    status: &str,
    timeout_secs: u64,
    r: String,
)
    requires
        call_ensures(compare_error, (said, status, timeout_secs), r),
    ensures
        ({
            let limited = text::occurs(said@, "403"@) || text::occurs(said@, "429"@)
                || text::occurs(said@, "rate limit"@);
            let late = text::occurs(said@, "timed out after"@);
            &&& limited ==> r@ == "compare API: rate limit exceeded (cache hit next run)"@
            &&& !limited && late ==> r@ == "compare API: request timed out after "@ + text::decimal(
                timeout_secs as nat,
            ) + "s"@
            &&& !limited && !late && !text::all_white(said@) ==> r@
                == "compare API: request failed: "@ + text::trimmed(said@)
            &&& !limited && !late && text::all_white(said@) ==> r@
                == "compare API: request failed (HTTP "@ + status@ + ")"@
        }),
{
    text::blank_is_all_white(said@);
}

/// A reply is taken only from a request that ran and succeeded, and as it came.
/// Why a request failed is told from what curl said, and why curl could not be
/// run is handed on.
pub proof fn replies_are_taken_as_they_came(
    run: Result<ToolOutput, String>,
    timeout_secs: u64,
    r: Result<Vec<u8>, String>,
    said: &str,
    status: &str,
    why: String,
)
    requires
        call_ensures(compare_reply, (run, timeout_secs), r),
        call_ensures(compare_error, (said, status, timeout_secs), why),
        run matches Ok(out) ==> said@ == text::lossy_utf8(out.stderr@) && status@ == out.status@,
    ensures
        r is Ok <==> run is Ok && run->Ok_0.ok,
        r matches Ok(reply) ==> reply@ == run->Ok_0.stdout@,
        run matches Ok(out) ==> !out.ok ==> r->Err_0@ == why@,
        run matches Err(e) ==> r->Err_0@ == "compare API: "@ + e@,
{
}

/// A verdict is one of the four words of the API, each of them for one relation;
/// any other word, and a reply that cannot be read, is none.
pub proof fn verdicts_have_a_word_each(
    parsed: Result<String, String>,
    r: Result<CompareStatus, String>,
)
    requires
        call_ensures(compare_verdict, (parsed,), r),
    ensures
        r == Ok::<CompareStatus, String>(CompareStatus::Identical) <==> parsed is Ok
            && parsed->Ok_0@ == "identical"@,
        r == Ok::<CompareStatus, String>(CompareStatus::Ahead) <==> parsed is Ok && parsed->Ok_0@
            == "ahead"@,
        r == Ok::<CompareStatus, String>(CompareStatus::Behind) <==> parsed is Ok && parsed->Ok_0@
            == "behind"@,
        r == Ok::<CompareStatus, String>(CompareStatus::Diverged) <==> parsed is Ok
            && parsed->Ok_0@ == "diverged"@,
        parsed matches Err(e) ==> r is Err && r->Err_0@ == "compare API: cannot parse response: "@
            + e@,
        parsed matches Ok(word) ==> r is Err ==> r->Err_0@ == "compare API: unexpected status '"@
            + word@ + "'"@,
{
    reveal_strlit("identical");
    reveal_strlit("ahead");
    reveal_strlit("behind");
    reveal_strlit("diverged");
    assert("identical"@.len() == 9);
    assert("ahead"@.len() == 5);
    assert("behind"@.len() == 6);
    assert("diverged"@.len() == 8);
}

proof fn lemma_without_key(entries: Seq<CacheEntryView>, key: CompareKey, e: CacheEntryView)
    ensures
        without_key(entries, key).contains(e) <==> entries.contains(e) && e.key != key,
    decreases entries.len(),
{
    reveal(Seq::filter);
    if entries.len() > 0 {
        let front = entries.drop_last();
        let last = entries.last();
        let kept = without_key(front, key);
        let all = without_key(entries, key);
        lemma_without_key(front, key, e);
        if entries.contains(e) {
            let i = choose|i: int| 0 <= i < entries.len() && entries[i] == e;
            if i < front.len() {
                assert(front[i] == e);
            }
        }
        if front.contains(e) {
            let i = choose|i: int| 0 <= i < front.len() && front[i] == e;
            assert(entries[i] == e);
        }
        assert(entries[entries.len() - 1] == last);
        if kept.contains(e) {
            let i = choose|i: int| 0 <= i < kept.len() && kept[i] == e;
            assert(all[i] == e);
        }
        if last.key != key {
            assert(all[all.len() - 1] == last);
        }
        if all.contains(e) {
            let i = choose|i: int| 0 <= i < all.len() && all[i] == e;
            if last.key != key && i < all.len() - 1 {
                assert(kept[i] == e);
            } else if last.key == key {
                assert(kept[i] == e);
            }
        }
    }
}

/// Taking in one fresh verdict leaves exactly the entries about other commits,
/// and the fresh one, which is then the last.
pub proof fn a_fresh_verdict_replaces_its_own_kind_only(
    entries: Seq<CacheEntryView>,
    fresh: CacheEntryView,
    e: CacheEntryView,
)
    ensures
        merged(entries, seq![fresh]).contains(e) <==> e == fresh || (entries.contains(e) && e.key
            != fresh.key),
        merged(entries, seq![fresh]).last() == fresh,
        merged(entries, Seq::empty()) == entries,
{
    let new = seq![fresh];
    reveal_with_fuel(merged, 2);
    assert(new.drop_last() =~= Seq::<CacheEntryView>::empty());
    let kept = without_key(entries, fresh.key);
    let all = kept.push(fresh);
    assert(merged(entries, new) == all);
    lemma_without_key(entries, fresh.key, e);
    if all.contains(e) {
        let i = choose|i: int| 0 <= i < all.len() && all[i] == e;
        if i < kept.len() {
            assert(kept[i] == e);
        }
    }
    if kept.contains(e) {
        let i = choose|i: int| 0 <= i < kept.len() && kept[i] == e;
        assert(all[i] == e);
    }
    assert(all[kept.len() as int] == fresh);
}

} // verus!
