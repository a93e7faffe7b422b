//! What is known of an installed plugin relative to its upstream ref, and what
//! a plan makes of it.

use crate::config::Policy;
use crate::text;
use vstd::prelude::*;

verus! {

/// Relation of a plugin's installed commit to its upstream ref.
#[derive(Debug, Clone, Copy, PartialEq, Eq, Structural)]
pub enum Status {
    /// Upstream ref matches the installed commit.
    Same,
    /// Upstream has newer commits; the plugin can be updated.
    Behind,
    /// The installed commit is ahead of upstream.
    Ahead,
    /// Both sides have unique commits; not a fast-forward.
    Diverged,
    /// Upstream could not be resolved.
    Unknown,
}

/// What kind of ref a plugin is pinned to. Unpinned plugins track the default
/// branch.
#[derive(Debug, Clone, Copy, PartialEq, Eq, Structural)]
pub enum RefKind {
    /// Tracks a branch.
    Branch,
    /// Pinned to a tag.
    Tag,
    /// Pinned to an exact commit.
    Commit,
}

/// Whether a character is a hexadecimal digit.
pub open spec fn hex_digit(c: char) -> bool {
    '0' <= c <= '9' || 'a' <= c <= 'f' || 'A' <= c <= 'F'
}

/// Whether a text is a full commit hash.
pub open spec fn commit_hash(s: Seq<char>) -> bool {
    s.len() == 40 && forall|i: int| 0 <= i < s.len() ==> hex_digit(#[trigger] s[i])
}

/// Whether a text is a full commit hash: 40 hexadecimal digits.
pub fn is_commit_hash(s: &str) -> (r: bool)
    ensures
        r == commit_hash(s@),
{
    let x = text::chars_of(s);
    if x.len() != 40 {
        return false;
    }
    let mut i: usize = 0;
    while i < x.len()
        invariant
            x@ == s@,
            i <= x.len(),
            forall|j: int| 0 <= j < i ==> hex_digit(#[trigger] s@[j]),
        decreases x.len() - i,
    {
        let c = x[i];
        if !(('0' <= c && c <= '9') || ('a' <= c && c <= 'f') || ('A' <= c && c <= 'F')) {
            assert(!hex_digit(s@[i as int]));
            return false;
        }
        i = i + 1;
    }
    true
}

/// The kind of a requested ref.
pub open spec fn kind_of(requested_ref: Option<Seq<char>>) -> RefKind {
    match requested_ref {
        Some(r) => if commit_hash(r) {
            RefKind::Commit
        } else if "refs/tags/"@.is_prefix_of(r) {
            RefKind::Tag
        } else {
            RefKind::Branch
        },
        None => RefKind::Branch,
    }
}

/// Classifies a requested ref: a full commit hash is a commit, `refs/tags/*` a
/// tag, everything else (no ref at all too) a branch.
pub fn ref_kind(requested_ref: Option<&str>) -> (r: RefKind)
    ensures
        r == kind_of(requested_ref.deep_view()),
{
    match requested_ref {
        Some(r) => if is_commit_hash(r) {
            RefKind::Commit
        } else if text::has_prefix(r, "refs/tags/") {
            RefKind::Tag
        } else {
            RefKind::Branch
        },
        None => RefKind::Branch,
    }
}

/// One plugin as a check found it.
#[derive(Debug)]
pub struct PluginStatus {
    pub plugin_id: String,
    pub owner: String,
    pub repo: String,
    pub version: Option<String>,
    pub installed_sha: String,
    pub remote_sha: Option<String>,
    /// Upstream release name of a changed plugin; for display only.
    pub remote_version: Option<String>,
    pub update_available: bool,
    pub status: Status,
    pub ref_kind: RefKind,
    pub requested_ref: Option<String>,
    pub error: Option<String>,
    /// Why the status is what it is, beyond the other fields. Never changes the
    /// action on its own.
    pub note: Option<String>,
}

/// A `PluginStatus` as values.
pub struct PluginStatusView {
    pub plugin_id: Seq<char>,
    pub owner: Seq<char>,
    pub repo: Seq<char>,
    pub version: Option<Seq<char>>,
    pub installed_sha: Seq<char>,
    pub remote_sha: Option<Seq<char>>,
    pub remote_version: Option<Seq<char>>,
    pub update_available: bool,
    pub status: Status,
    pub ref_kind: RefKind,
    pub requested_ref: Option<Seq<char>>,
    pub error: Option<Seq<char>>,
    pub note: Option<Seq<char>>,
}

impl DeepView for PluginStatus {
    type V = PluginStatusView;

    open spec fn deep_view(&self) -> PluginStatusView {
        PluginStatusView {
            plugin_id: self.plugin_id@,
            owner: self.owner@,
            repo: self.repo@,
            version: self.version.deep_view(),
            installed_sha: self.installed_sha@,
            remote_sha: self.remote_sha.deep_view(),
            remote_version: self.remote_version.deep_view(),
            update_available: self.update_available,
            status: self.status,
            ref_kind: self.ref_kind,
            requested_ref: self.requested_ref.deep_view(),
            error: self.error.deep_view(),
            note: self.note.deep_view(),
        }
    }
}

impl Clone for PluginStatus {
    fn clone(&self) -> (r: Self)
        ensures
            r.deep_view() == self.deep_view(),
    {
        PluginStatus {
            plugin_id: self.plugin_id.clone(),
            owner: self.owner.clone(),
            repo: self.repo.clone(),
            version: text::copy_of(&self.version),
            installed_sha: self.installed_sha.clone(),
            remote_sha: text::copy_of(&self.remote_sha),
            remote_version: text::copy_of(&self.remote_version),
            update_available: self.update_available,
            status: self.status,
            ref_kind: self.ref_kind,
            requested_ref: text::copy_of(&self.requested_ref),
            error: text::copy_of(&self.error),
            note: text::copy_of(&self.note),
        }
    }
}

/// What a plan does with a plugin.
#[derive(Debug, Clone, Copy, PartialEq, Eq, Structural)]
pub enum Action {
    /// Install the available update.
    Update,
    /// Keep the installed version.
    Hold,
    /// Upstream state could not be determined.
    Error,
}

/// What is done with one plugin when a plan is applied, and why.
#[derive(Debug)]
pub struct PlanEntry {
    pub plugin_id: String,
    pub owner: String,
    pub repo: String,
    pub installed_sha: String,
    pub version: Option<String>,
    pub remote_sha: Option<String>,
    pub remote_version: Option<String>,
    pub status: Status,
    pub ref_kind: RefKind,
    pub policy: Policy,
    pub action: Action,
    pub requested_ref: Option<String>,
    pub reason: Option<String>,
}

/// A `PlanEntry` as values.
pub struct PlanEntryView {
    pub plugin_id: Seq<char>,
    pub owner: Seq<char>,
    pub repo: Seq<char>,
    pub installed_sha: Seq<char>,
    pub version: Option<Seq<char>>,
    pub remote_sha: Option<Seq<char>>,
    pub remote_version: Option<Seq<char>>,
    pub status: Status,
    pub ref_kind: RefKind,
    pub policy: Policy,
    pub action: Action,
    pub requested_ref: Option<Seq<char>>,
    pub reason: Option<Seq<char>>,
}

impl DeepView for PlanEntry {
    type V = PlanEntryView;

    open spec fn deep_view(&self) -> PlanEntryView {
        PlanEntryView {
            plugin_id: self.plugin_id@,
            owner: self.owner@,
            repo: self.repo@,
            installed_sha: self.installed_sha@,
            version: self.version.deep_view(),
            remote_sha: self.remote_sha.deep_view(),
            remote_version: self.remote_version.deep_view(),
            status: self.status,
            ref_kind: self.ref_kind,
            policy: self.policy,
            action: self.action,
            requested_ref: self.requested_ref.deep_view(),
            reason: self.reason.deep_view(),
        }
    }
}

impl Clone for PlanEntry {
    fn clone(&self) -> (r: Self)
        ensures
            r.deep_view() == self.deep_view(),
    {
        PlanEntry {
            plugin_id: self.plugin_id.clone(),
            owner: self.owner.clone(),
            repo: self.repo.clone(),
            installed_sha: self.installed_sha.clone(),
            version: text::copy_of(&self.version),
            remote_sha: text::copy_of(&self.remote_sha),
            remote_version: text::copy_of(&self.remote_version),
            status: self.status,
            ref_kind: self.ref_kind,
            policy: self.policy,
            action: self.action,
            requested_ref: text::copy_of(&self.requested_ref),
            reason: text::copy_of(&self.reason),
        }
    }
}

/// The name of a status.
pub open spec fn status_name(s: Status) -> Seq<char> {
    match s {
        Status::Same => "same"@,
        Status::Behind => "behind"@,
        Status::Ahead => "ahead"@,
        Status::Diverged => "diverged"@,
        Status::Unknown => "unknown"@,
    }
}

/// The name of a status.
pub fn status_label(s: Status) -> (r: &'static str)
    ensures
        r@ == status_name(s),
{
    match s {
        Status::Same => "same",
        Status::Behind => "behind",
        Status::Ahead => "ahead",
        Status::Diverged => "diverged",
        Status::Unknown => "unknown",
    }
}

/// The name of a ref kind.
pub open spec fn kind_name(k: RefKind) -> Seq<char> {
    match k {
        RefKind::Branch => "branch"@,
        RefKind::Tag => "tag"@,
        RefKind::Commit => "commit"@,
    }
}

/// The name of a ref kind.
pub fn ref_kind_label(k: RefKind) -> (r: &'static str)
    ensures
        r@ == kind_name(k),
{
    match k {
        RefKind::Branch => "branch",
        RefKind::Tag => "tag",
        RefKind::Commit => "commit",
    }
}

/// The name of a policy.
pub open spec fn policy_name(p: Policy) -> Seq<char> {
    match p {
        Policy::Auto => "auto"@,
        Policy::Notify => "notify"@,
        Policy::PinnedOnly => "pinned-only"@,
    }
}

/// The name of a policy.
pub fn policy_label(p: Policy) -> (r: &'static str)
    ensures
        r@ == policy_name(p),
{
    match p {
        Policy::Auto => "auto",
        Policy::Notify => "notify",
        Policy::PinnedOnly => "pinned-only",
    }
}

/// The name of an action.
pub open spec fn action_name(a: Action) -> Seq<char> {
    match a {
        Action::Update => "UPDATE"@,
        Action::Hold => "HOLD"@,
        Action::Error => "ERROR"@,
    }
}

/// The name of an action.
pub fn action_label(a: Action) -> (r: &'static str)
    ensures
        r@ == action_name(a),
{
    match a {
        Action::Update => "UPDATE",
        Action::Hold => "HOLD",
        Action::Error => "ERROR",
    }
}

/// The first eight bytes of a text, where they end at a character; else the
/// whole of it.
pub open spec fn shortened(s: Seq<char>) -> Seq<char> {
    let bytes = vstd::utf8::encode_utf8(s);
    if vstd::utf8::is_char_boundary(bytes, 8) {
        vstd::utf8::decode_utf8(bytes.subrange(0, 8))
    } else {
        s
    }
}

/// The first eight bytes of a commit hash, where they end at a character; else
/// the whole of it.
pub fn short(sha: &str) -> (r: &str)
    ensures
        r@ == shortened(sha@),
{
    if sha.is_char_boundary(8) {
        let (head, _) = sha.split_at(8);
        proof {
            vstd::utf8::encode_utf8_decode_utf8(head@);
        }
        head
    } else {
        sha
    }
}

/// Of a text in ASCII, as a commit hash is, the first eight characters are
/// kept, and the whole where it has fewer.
pub proof fn short_keeps_eight(s: Seq<char>)
    requires
        vstd::utf8::is_ascii_chars(s),
    ensures
        shortened(s) == (if s.len() >= 8 {
            s.take(8)
        } else {
            s
        }),
{
    let bytes = vstd::utf8::encode_utf8(s);
    vstd::utf8::is_ascii_chars_encode_utf8(s);
    vstd::utf8::encode_utf8_valid_utf8(s);
    if s.len() >= 8 {
        let head = s.take(8);
        vstd::utf8::is_ascii_chars_encode_utf8(head);
        vstd::utf8::encode_utf8_decode_utf8(head);
        assert(bytes.subrange(0, 8) =~= vstd::utf8::encode_utf8(head));
        if s.len() == 8 {
            vstd::utf8::is_char_boundary_start_end_of_seq(bytes);
        } else {
            vstd::utf8::is_char_boundary_iff_is_leading_byte(bytes, 8);
        }
    } else {
        lemma_no_boundary_behind(bytes, 8);
    }
}

proof fn lemma_no_boundary_behind(bytes: Seq<u8>, n: int)
    requires
        vstd::utf8::valid_utf8(bytes),
        bytes.len() < n,
    ensures
        !vstd::utf8::is_char_boundary(bytes, n),
{
}

/// The human name of a version: the version with a leading `v`, else the short
/// commit hash.
pub open spec fn version_text(v: Option<Seq<char>>, sha: Seq<char>) -> Seq<char> {
    match v {
        Some(v) => if v.len() == 0 {
            shortened(sha)
        } else if v[0] == 'v' {
            v
        } else {
            "v"@ + v
        },
        None => shortened(sha),
    }
}

/// The human name of a version: the version with a leading `v`, else the short
/// commit hash. For display only.
pub fn version_str(v: &Option<String>, sha: &str) -> (r: String)
    ensures
        r@ == version_text(v.deep_view(), sha@),
{
    match v {
        Some(v) => {
            if v.as_str().is_empty() {
                short(sha).to_owned()
            } else if v.as_str().get_char(0) == 'v' {
                v.clone()
            } else {
                let mut s = "v".to_owned();
                s.append(v.as_str());
                s
            }
        },
        None => short(sha).to_owned(),
    }
}

/// The commit to show for an upstream that may be unknown.
pub open spec fn sha_or_mark(sha: Option<Seq<char>>) -> Seq<char> {
    match sha {
        Some(s) => s,
        None => "?"@,
    }
}

/// The human name of an upstream version.
pub open spec fn remote_text(v: Option<Seq<char>>, sha: Option<Seq<char>>) -> Seq<char> {
    version_text(v, sha_or_mark(sha))
}

/// The human name of an upstream version.
pub fn remote_str(v: &Option<String>, sha: &Option<String>) -> (r: String)
    ensures
        r@ == remote_text(v.deep_view(), sha.deep_view()),
{
    match sha {
        Some(s) => version_str(v, s.as_str()),
        None => version_str(v, "?"),
    }
}

/// What is added to the line of a plugin that is up to date with a note.
pub open spec fn note_hint(note: Option<Seq<char>>) -> Seq<char> {
    match note {
        Some(n) => if "pinned by rollback"@.is_prefix_of(n) {
            " (pinned by rollback; run `resume`)"@
        } else if "pinned to a commit"@.is_prefix_of(n) {
            " (commit-pinned; not auto-updated)"@
        } else {
            ""@
        },
        None => ""@,
    }
}

/// The report line of a plugin.
pub open spec fn line_of(s: PluginStatusView) -> Seq<char> {
    let head = "["@ + s.plugin_id;
    let from = version_text(s.version, s.installed_sha);
    let to = remote_text(s.remote_version, s.remote_sha);
    match s.error {
        Some(e) => head + "] error: "@ + e,
        None => match s.status {
            Status::Behind => head + "] update available: installed "@ + from + " -> latest "@ + to,
            Status::Ahead => head + "] ahead of upstream (installed "@ + from + ", latest "@ + to
                + ")"@,
            Status::Diverged => head + "] diverged from upstream (installed "@ + from + ", latest "@
                + to + ")"@,
            Status::Unknown => head + "] unknown (installed "@ + from + ")"@,
            Status::Same => head + "] up to date (installed "@ + from + ", latest "@ + from + ")"@
                + note_hint(s.note),
        },
    }
}

fn hint_of(note: &Option<String>) -> (r: &'static str)
    ensures
        r@ == note_hint(note.deep_view()),
{
    match note {
        Some(n) => if text::has_prefix(n.as_str(), "pinned by rollback") {
            " (pinned by rollback; run `resume`)"
        } else if text::has_prefix(n.as_str(), "pinned to a commit") {
            " (commit-pinned; not auto-updated)"
        } else {
            ""
        },
        None => "",
    }
}

/// The report line of a plugin. The live panel shows the same text.
pub fn status_line(s: &PluginStatus) -> (r: String)
    ensures
        r@ == line_of(s.deep_view()),
{
    let mut line = "[".to_owned();
    line.append(s.plugin_id.as_str());
    if let Some(err) = &s.error {
        line.append("] error: ");
        line.append(err.as_str());
        return line;
    }
    let from = version_str(&s.version, s.installed_sha.as_str());
    let to = remote_str(&s.remote_version, &s.remote_sha);
    match s.status {
        Status::Behind => {
            line.append("] update available: installed ");
            line.append(from.as_str());
            line.append(" -> latest ");
            line.append(to.as_str());
        },
        Status::Ahead => {
            line.append("] ahead of upstream (installed ");
            line.append(from.as_str());
            line.append(", latest ");
            line.append(to.as_str());
            line.append(")");
        },
        Status::Diverged => {
            line.append("] diverged from upstream (installed ");
            line.append(from.as_str());
            line.append(", latest ");
            line.append(to.as_str());
            line.append(")");
        },
        Status::Unknown => {
            line.append("] unknown (installed ");
            line.append(from.as_str());
            line.append(")");
        },
        Status::Same => {
            line.append("] up to date (installed ");
            line.append(from.as_str());
            line.append(", latest ");
            line.append(from.as_str());
            line.append(")");
            line.append(hint_of(&s.note));
        },
    }
    line
}

/// A commit hash has forty characters, each of them a hexadecimal digit in
/// either case, and nothing else is one.
pub proof fn commit_hashes_are_forty_digits(s: &str, r: bool)
    requires
        call_ensures(is_commit_hash, (s,), r),
    ensures
        r <==> s@.len() == 40 && forall|i: int|
            0 <= i < s@.len() ==> "0123456789abcdefABCDEF"@.contains(#[trigger] s@[i]),
{
    assert forall|i: int| 0 <= i < s@.len() implies hex_digit(#[trigger] s@[i])
        == "0123456789abcdefABCDEF"@.contains(s@[i]) by {
        lemma_hex_digits(s@[i]);
    }
}

proof fn lemma_hex_digits(c: char)
    ensures
        hex_digit(c) <==> "0123456789abcdefABCDEF"@.contains(c),
{
    reveal_strlit("0123456789abcdefABCDEF");
    let all = "0123456789abcdefABCDEF"@;
    assert(all.len() == 22);
    if hex_digit(c) {
        let i: int = if '0' <= c <= '9' {
            c as int - '0' as int
        } else if 'a' <= c <= 'f' {
            c as int - 'a' as int + 10
        } else {
            c as int - 'A' as int + 16
        };
        assert(all[i] == c);
    }
}

/// A pin to a commit is a ref that is a commit hash, a pin to a tag one that
/// begins with `refs/tags/`, whatever follows, and everything else, also no ref
/// at all, tracks a branch.
pub proof fn refs_have_one_kind(requested_ref: Option<&str>, hash: bool, r: RefKind)
    requires
        call_ensures(ref_kind, (requested_ref,), r),
        requested_ref matches Some(at) ==> call_ensures(is_commit_hash, (at,), hash),
    ensures
        r == RefKind::Commit <==> requested_ref is Some && hash,
        r == RefKind::Tag <==> (requested_ref matches Some(at) && exists|tag: Seq<char>|
            at@ == #[trigger] ("refs/tags/"@ + tag)),
        requested_ref is None ==> r == RefKind::Branch,
{
    if let Some(at) = requested_ref {
        let p = "refs/tags/"@;
        reveal_strlit("refs/tags/");
        if p.is_prefix_of(at@) {
            assert(at@ =~= p + at@.skip(p.len() as int));
            assert(at@[4] == p[4]);
            assert(!hex_digit(at@[4]));
        }
        if exists|tag: Seq<char>| at@ == #[trigger] (p + tag) {
            let tag = choose|tag: Seq<char>| at@ == #[trigger] (p + tag);
            assert(p =~= at@.subrange(0, p.len() as int));
        }
    }
}

/// Every status, ref kind, policy and action is printed by its own word.
pub proof fn names_are_words(s: Status, k: RefKind, p: Policy, a: Action)
    ensures
        status_name(s) == "same"@ <==> s == Status::Same,
        status_name(s) == "behind"@ <==> s == Status::Behind,
        status_name(s) == "ahead"@ <==> s == Status::Ahead,
        status_name(s) == "diverged"@ <==> s == Status::Diverged,
        status_name(s) == "unknown"@ <==> s == Status::Unknown,
        kind_name(k) == "branch"@ <==> k == RefKind::Branch,
        kind_name(k) == "tag"@ <==> k == RefKind::Tag,
        kind_name(k) == "commit"@ <==> k == RefKind::Commit,
        policy_name(p) == "auto"@ <==> p == Policy::Auto,
        policy_name(p) == "notify"@ <==> p == Policy::Notify,
        policy_name(p) == "pinned-only"@ <==> p == Policy::PinnedOnly,
        action_name(a) == "UPDATE"@ <==> a == Action::Update,
        action_name(a) == "HOLD"@ <==> a == Action::Hold,
        action_name(a) == "ERROR"@ <==> a == Action::Error,
{
    reveal_strlit("same");
    reveal_strlit("behind");
    reveal_strlit("ahead");
    reveal_strlit("diverged");
    reveal_strlit("unknown");
    reveal_strlit("branch");
    reveal_strlit("tag");
    reveal_strlit("commit");
    reveal_strlit("auto");
    reveal_strlit("notify");
    reveal_strlit("pinned-only");
    reveal_strlit("UPDATE");
    reveal_strlit("HOLD");
    reveal_strlit("ERROR");
    assert("same"@[0] == 's' && "behind"@[0] == 'b' && "ahead"@[0] == 'a');
    assert("diverged"@[0] == 'd' && "unknown"@[0] == 'u');
    assert("branch"@[0] == 'b' && "tag"@[0] == 't' && "commit"@[0] == 'c');
    assert("auto"@[0] == 'a' && "notify"@[0] == 'n' && "pinned-only"@[0] == 'p');
    assert("UPDATE"@[0] == 'U' && "HOLD"@[0] == 'H' && "ERROR"@[0] == 'E');
}

/// What is shown of a commit is the front of it: all of it, or the part that
/// takes eight bytes.
pub proof fn short_is_the_front(s: Seq<char>)
    ensures
        shortened(s).is_prefix_of(s),
        shortened(s) == s || vstd::utf8::encode_utf8(shortened(s)).len() == 8,
        vstd::utf8::encode_utf8(s).len() < 8 ==> shortened(s) == s,
{
    let bytes = vstd::utf8::encode_utf8(s);
    vstd::utf8::encode_utf8_valid_utf8(s);
    vstd::utf8::encode_utf8_decode_utf8(s);
    if bytes.len() < 8 {
        lemma_no_boundary_behind(bytes, 8);
    }
    if vstd::utf8::is_char_boundary(bytes, 8) {
        let head = bytes.subrange(0, 8);
        let tail = bytes.subrange(8, bytes.len() as int);
        vstd::utf8::valid_utf8_split(bytes, 8);
        vstd::utf8::decode_utf8_split(bytes, 8);
        vstd::utf8::decode_utf8_encode_utf8(head);
        assert(vstd::utf8::decode_utf8(head) =~= s.subrange(
            0,
            vstd::utf8::decode_utf8(head).len() as int,
        ));
    } else {
        assert(s =~= s.subrange(0, s.len() as int));
    }
}

/// A version is shown with exactly one `v` in front, whether it has one already
/// or not; without a version, or with an empty one, the commit is shown in
/// short.
pub proof fn versions_have_one_v(v: Option<String>, sha: &str, r: String, s: &str)
    requires
        call_ensures(version_str, (&v, sha), r),
        call_ensures(short, (sha,), s),
    ensures
        forall|rest: Seq<char>| v.deep_view() == Some(#[trigger] (seq!['v'] + rest)) ==> r@ == seq![
            'v',
        ] + rest,
        v matches Some(name) ==> name@.len() > 0 && name@[0] != 'v' ==> r@ == seq!['v'] + name@,
        v is None || v->0@.len() == 0 ==> r@ == s@,
{
    reveal_strlit("v");
    assert("v"@ =~= seq!['v']);
}

/// An upstream version is shown as a version, and as `?` where neither its name
/// nor its commit is known.
pub proof fn unknown_versions_are_marked(v: Option<String>, sha: Option<String>, r: String)
    requires
        call_ensures(remote_str, (&v, &sha), r),
    ensures
        sha matches Some(s) ==> r@ == version_text(v.deep_view(), s@),
        sha is None && v is None ==> r@ == seq!['?'],
        sha is None && v is Some && v->0@.len() > 0 ==> r@ == version_text(v.deep_view(), ""@),
{
    reveal_strlit("?");
    assert("?"@ =~= seq!['?']);
    assert(vstd::utf8::is_ascii_chars("?"@)) by {
        assert(forall|i: int| 0 <= i < "?"@.len() ==> "?"@[i] == '?');
    }
    short_keeps_eight("?"@);
}

/// The line of a plugin begins with its id and then says how the check went: the
/// error where there is one, else that an update is available exactly where the
/// plugin is behind, and what else the status is. Both versions are shown where
/// they differ, the installed one first.
pub proof fn status_lines_say_the_status(
    s: &PluginStatus,
    sha: &str,
    from: String,
    to: String,
    r: String,
)
    requires
        call_ensures(status_line, (s,), r),
        sha@ == s.installed_sha@,
        call_ensures(version_str, (&s.version, sha), from),
        call_ensures(remote_str, (&s.remote_version, &s.remote_sha), to),
    ensures
        s.error matches Some(e) ==> r@ == "["@ + s.plugin_id@ + "] error: "@ + e@,
        s.error is None ==> {
            &&& s.status == Status::Behind ==> r@ == "["@ + s.plugin_id@
                + "] update available: installed "@ + from@ + " -> latest "@ + to@
            &&& s.status == Status::Ahead ==> r@ == "["@ + s.plugin_id@
                + "] ahead of upstream (installed "@ + from@ + ", latest "@ + to@ + ")"@
            &&& s.status == Status::Diverged ==> r@ == "["@ + s.plugin_id@
                + "] diverged from upstream (installed "@ + from@ + ", latest "@ + to@ + ")"@
            &&& s.status == Status::Unknown ==> r@ == "["@ + s.plugin_id@
                + "] unknown (installed "@ + from@ + ")"@
            &&& s.status == Status::Same ==> (("["@ + s.plugin_id@ + "] up to date (installed "@
                + from@ + ", latest "@ + from@ + ")"@).is_prefix_of(r@))
            &&& s.status == Status::Same && s.note is None ==> r@ == "["@ + s.plugin_id@
                + "] up to date (installed "@ + from@ + ", latest "@ + from@ + ")"@
            &&& s.status == Status::Same ==> (s.note matches Some(why) ==> {
                let head = "["@ + s.plugin_id@ + "] up to date (installed "@ + from@ + ", latest "@
                    + from@ + ")"@;
                &&& "pinned by rollback"@.is_prefix_of(why@) ==> r@ == head
                    + " (pinned by rollback; run `resume`)"@
                &&& "pinned to a commit"@.is_prefix_of(why@) ==> r@ == head
                    + " (commit-pinned; not auto-updated)"@
            })
        },
{
    reveal_strlit("pinned by rollback");
    reveal_strlit("pinned to a commit");
    if let Some(why) = s.note {
        let p = "pinned by rollback"@;
        let q = "pinned to a commit"@;
        if p.is_prefix_of(why@) && q.is_prefix_of(why@) {
            assert(why@.subrange(0, p.len() as int)[7] == why@[7]);
            assert(why@.subrange(0, q.len() as int)[7] == why@[7]);
            assert(p[7] == 'b' && q[7] == 't');
        }
    }
    if s.error is None && s.status == Status::Same {
        let head = "["@ + s.plugin_id@ + "] up to date (installed "@ + from@ + ", latest "@ + from@
            + ")"@;
        assert(head =~= r@.subrange(0, head.len() as int));
        if s.note is None {
            reveal_strlit("");
            assert(r@ =~= head);
        }
    }
}

/// A check announces an update exactly where the plugin is behind and the check
/// did not fail.
pub proof fn updates_are_announced(s: PluginStatusView)
    ensures
        ("["@ + s.plugin_id + "] update available: installed "@).is_prefix_of(line_of(s)) <==> s.error
            is None && s.status == Status::Behind,
{
    let head = "["@ + s.plugin_id;
    let wanted = head + "] update available: installed "@;
    let line = line_of(s);
    let at = head.len() as int + 2;
    reveal_strlit("] update available: installed ");
    reveal_strlit("] error: ");
    reveal_strlit("] ahead of upstream (installed ");
    reveal_strlit("] diverged from upstream (installed ");
    reveal_strlit("] unknown (installed ");
    reveal_strlit("] up to date (installed ");
    assert(wanted[at + 1] == 'p');
    assert(wanted[at] == 'u');
    assert(wanted[at + 2] == 'd');
    if s.error is None && s.status == Status::Behind {
        assert(wanted =~= line.subrange(0, wanted.len() as int));
    } else {
        if s.error is Some {
            assert(line[at] == 'e');
        } else {
            match s.status {
                Status::Ahead => {
                    assert(line[at] == 'a');
                },
                Status::Diverged => {
                    assert(line[at] == 'd');
                },
                Status::Unknown => {
                    assert(line[at + 1] == 'n');
                },
                _ => {
                    assert(line[at + 2] == ' ');
                },
            }
        }
        if wanted.is_prefix_of(line) {
            assert(line.subrange(0, wanted.len() as int)[at] == line[at]);
            assert(line.subrange(0, wanted.len() as int)[at + 1] == line[at + 1]);
            assert(line.subrange(0, wanted.len() as int)[at + 2] == line[at + 2]);
        }
    }
}

/// The values of a status are what it holds.
pub proof fn statuses_are_seen_whole(s: PluginStatus)
    ensures
        s.deep_view().plugin_id == s.plugin_id@,
        s.deep_view().owner == s.owner@,
        s.deep_view().repo == s.repo@,
        s.deep_view().version == s.version.deep_view(),
        s.deep_view().installed_sha == s.installed_sha@,
        s.deep_view().remote_sha == s.remote_sha.deep_view(),
        s.deep_view().remote_version == s.remote_version.deep_view(),
        s.deep_view().update_available == s.update_available,
        s.deep_view().status == s.status,
        s.deep_view().ref_kind == s.ref_kind,
        s.deep_view().requested_ref == s.requested_ref.deep_view(),
        s.deep_view().error == s.error.deep_view(),
        s.deep_view().note == s.note.deep_view(),
{
}

/// The values of a plan entry are what it holds.
pub proof fn plan_entries_are_seen_whole(e: PlanEntry)
    ensures
        e.deep_view().plugin_id == e.plugin_id@,
        e.deep_view().owner == e.owner@,
        e.deep_view().repo == e.repo@,
        e.deep_view().installed_sha == e.installed_sha@,
        e.deep_view().version == e.version.deep_view(),
        e.deep_view().remote_sha == e.remote_sha.deep_view(),
        e.deep_view().remote_version == e.remote_version.deep_view(),
        e.deep_view().status == e.status,
        e.deep_view().ref_kind == e.ref_kind,
        e.deep_view().policy == e.policy,
        e.deep_view().action == e.action,
        e.deep_view().requested_ref == e.requested_ref.deep_view(),
        e.deep_view().reason == e.reason.deep_view(),
{
}

} // verus!
