//! The plugins that herdr has installed, as its registry lists them.

use crate::text;
use crate::tool::ToolOutput;
use vstd::prelude::*;

verus! {

/// Kind of a plugin that was installed from GitHub.
pub const GITHUB_KIND: &'static str = "github";

/// Longest owner name on GitHub.
pub const OWNER_MAX: usize = 39;

/// Longest repository name on GitHub.
pub const REPO_MAX: usize = 100;

/// One installed plugin.
#[derive(Debug)]
pub struct Plugin {
    pub plugin_id: String,
    pub version: Option<String>,
    pub source: Option<Source>,
}

/// Where a plugin was installed from.
#[derive(Debug)]
pub struct Source {
    pub kind: String,
    pub owner: Option<String>,
    pub repo: Option<String>,
    pub requested_ref: Option<String>,
    pub resolved_commit: Option<String>,
}

/// A `Plugin` as values.
pub struct PluginView {
    pub plugin_id: Seq<char>,
    pub version: Option<Seq<char>>,
    pub source: Option<SourceView>,
}

/// A `Source` as values.
pub struct SourceView {
    pub kind: Seq<char>,
    pub owner: Option<Seq<char>>,
    pub repo: Option<Seq<char>>,
    pub requested_ref: Option<Seq<char>>,
    pub resolved_commit: Option<Seq<char>>,
}

impl DeepView for Source {
    type V = SourceView;

    open spec fn deep_view(&self) -> SourceView {
        SourceView {
            kind: self.kind@,
            owner: self.owner.deep_view(),
            repo: self.repo.deep_view(),
            requested_ref: self.requested_ref.deep_view(),
            resolved_commit: self.resolved_commit.deep_view(),
        }
    }
}

impl DeepView for Plugin {
    type V = PluginView;

    open spec fn deep_view(&self) -> PluginView {
        PluginView {
            plugin_id: self.plugin_id@,
            version: self.version.deep_view(),
            source: self.source.deep_view(),
        }
    }
}

/// Whether a character may stand in an owner or repository name.
pub open spec fn name_char(c: char) -> bool {
    ||| 'a' <= c <= 'z'
    ||| 'A' <= c <= 'Z'
    ||| '0' <= c <= '9'
    ||| c == '-'
    ||| c == '_'
    ||| c == '.'
}

/// Whether a text is an owner or repository name of at most `max` characters.
pub open spec fn valid_name(s: Seq<char>, max: nat) -> bool {
    &&& 0 < s.len() <= max
    &&& s != "."@
    &&& s != ".."@
    &&& forall|i: int| 0 <= i < s.len() ==> name_char(#[trigger] s[i])
}

/// Whether an owner and a repository are both valid names.
pub open spec fn valid_repo(owner: Seq<char>, repo: Seq<char>) -> bool {
    valid_name(owner, OWNER_MAX as nat) && valid_name(repo, REPO_MAX as nat)
}

/// Validates an owner or repository name: letters, digits, `-`, `_` and `.`,
/// bounded length, and not a directory reference.
pub fn valid_github_name(s: &str, max: usize) -> (r: bool)
    ensures
        r == valid_name(s@, max as nat),
{
    let x = text::chars_of(s);
    if x.len() == 0 || x.len() > max || text::same(s, ".") || text::same(s, "..") {
        return false;
    }
    let mut i: usize = 0;
    while i < x.len()
        invariant
            x@ == s@,
            i <= x.len(),
            forall|j: int| 0 <= j < i ==> name_char(#[trigger] s@[j]),
        decreases x.len() - i,
    {
        let c = x[i];
        let fine = ('a' <= c && c <= 'z') || ('A' <= c && c <= 'Z') || ('0' <= c && c <= '9') || c
            == '-' || c == '_' || c == '.';
        if !fine {
            assert(!name_char(s@[i as int]));
            return false;
        }
        i = i + 1;
    }
    true
}

/// Whether an owner and a repository may be placed into an address or an
/// argument.
pub fn valid_github_repo(owner: &str, repo: &str) -> (r: bool)
    ensures
        r == valid_repo(owner@, repo@),
{
    valid_github_name(owner, OWNER_MAX) && valid_github_name(repo, REPO_MAX)
}

/// The code units of little-endian UTF-16; an odd byte at the end is dropped.
pub open spec fn le_units(bytes: Seq<u8>) -> Seq<u16> {
    Seq::new(bytes.len() / 2, |i: int| (bytes[2 * i] + 256 * bytes[2 * i + 1]) as u16)
}

/// Whether bytes begin with the mark of little-endian UTF-16.
pub open spec fn has_utf16_mark(bytes: Seq<u8>) -> bool {
    bytes.len() >= 2 && bytes[0] == 0xff && bytes[1] == 0xfe
}

/// The text that herdr wrote: UTF-16 behind its byte order mark, else UTF-8.
pub open spec fn stdout_text(bytes: Seq<u8>) -> Seq<char> {
    if has_utf16_mark(bytes) {
        text::decode_utf16(le_units(bytes.skip(2)))
    } else {
        text::lossy_utf8(bytes)
    }
}

/// Decodes what herdr wrote: it may write little-endian UTF-16 to a pipe, which
/// the byte order mark tells.
pub fn decode_stdout(bytes: &[u8]) -> (r: String)
    ensures
        r@ == stdout_text(bytes@),
        text::utf8_is_read(bytes@),
        vstd::utf8::valid_utf8(bytes@) ==> r@ == vstd::utf8::decode_utf8(bytes@),
{
    if bytes.len() >= 2 && bytes[0] == 0xff && bytes[1] == 0xfe {
        let mut units: Vec<u16> = Vec::new();
        let len: usize = bytes.len();
        let n: usize = (len - 2) / 2;
        let mut i: usize = 0;
        while i < n
            invariant
                len == bytes@.len(),
                len >= 2,
                n == (len - 2) / 2,
                i <= n,
                units@ == le_units(bytes@.skip(2)).take(i as int),
            decreases n - i,
        {
            let low: u16 = bytes[2 + 2 * i] as u16;
            let high: u16 = bytes[3 + 2 * i] as u16;
            let ghost rest = bytes@.skip(2);
            assert(rest[2 * i] == bytes@[2 + 2 * i]);
            assert(rest[2 * i + 1] == bytes@[3 + 2 * i]);
            units.push(low + 256 * high);
            assert(units@ =~= le_units(rest).take(i + 1));
            i = i + 1;
        }
        assert(units@ =~= le_units(bytes@.skip(2)));
        text::utf16_lossy(&units)
    } else {
        text::utf8_lossy(bytes)
    }
}

/// The UTF-16 code units of a character.
pub open spec fn utf16_units(c: char) -> Seq<u16> {
    let n = c as u32;
    if n < 0x10000 {
        seq![n as u16]
    } else {
        seq![(0xd800 + (n - 0x10000) / 0x400) as u16, (0xdc00 + (n - 0x10000) % 0x400) as u16]
    }
}

/// A text in UTF-16.
pub open spec fn encode_utf16(s: Seq<char>) -> Seq<u16>
    decreases s.len(),
{
    if s.len() == 0 {
        Seq::empty()
    } else {
        utf16_units(s[0]) + encode_utf16(s.skip(1))
    }
}

/// Code units as bytes, the low byte of each first.
pub open spec fn le_bytes(units: Seq<u16>) -> Seq<u8> {
    Seq::new(
        2 * units.len(),
        |i: int|
            if i % 2 == 0 {
                (units[i / 2] % 256) as u8
            } else {
                (units[i / 2] / 256) as u8
            },
    )
}

proof fn lemma_utf16(s: Seq<char>)
    ensures
        text::decode_utf16(encode_utf16(s)) == s,
    decreases s.len(),
{
    if s.len() > 0 {
        let c = s[0];
        let n = c as u32;
        let rest = encode_utf16(s.skip(1));
        let all = encode_utf16(s);
        lemma_utf16(s.skip(1));
        vstd::utf8::char_is_scalar(c);
        vstd::utf8::char_u32_cast(c, n);
        if n < 0x10000 {
            assert(all.skip(1) =~= rest);
            assert(all[0] == n as u16);
            assert(all[0] as char == c);
        } else {
            assert(all.skip(2) =~= rest);
            assert(0 <= (n - 0x10000) / 0x400 < 0x400);
            assert(text::pair_scalar(all[0], all[1]) == c);
        }
        assert(seq![c] + s.skip(1) =~= s);
    } else {
        assert(s =~= Seq::<char>::empty());
    }
}

/// A text that herdr writes as little-endian UTF-16 behind a byte order mark is
/// read back as it was.
pub proof fn utf16_output_is_read_back(s: Seq<char>)
    ensures
        stdout_text(seq![0xffu8, 0xfeu8] + le_bytes(encode_utf16(s))) == s,
{
    let units = encode_utf16(s);
    let bytes = seq![0xffu8, 0xfeu8] + le_bytes(units);
    assert(bytes.skip(2) =~= le_bytes(units));
    assert(le_units(le_bytes(units)) =~= units) by {
        assert forall|i: int| 0 <= i < units.len() implies le_units(le_bytes(units))[i]
            == units[i] by {
            assert((2 * i) / 2 == i);
            assert((2 * i + 1) / 2 == i);
            let u = units[i];
            assert((u % 256) as u8 == u % 256);
            assert((u / 256) as u8 == u / 256);
        }
    }
    lemma_utf16(s);
}

/// The first listed plugin with an id.
pub open spec fn listed(plugins: Seq<PluginView>, plugin_id: Seq<char>) -> Option<PluginView>
    decreases plugins.len(),
{
    if plugins.len() == 0 {
        None
    } else if plugins[0].plugin_id == plugin_id {
        Some(plugins[0])
    } else {
        listed(plugins.skip(1), plugin_id)
    }
}

/// The first listed plugin with an id.
pub fn find_plugin<'a>(plugins: &'a Vec<Plugin>, plugin_id: &str) -> (r: Option<&'a Plugin>)
    ensures
        r.deep_view() == listed(plugins.deep_view(), plugin_id@),
{
    let ghost all = plugins.deep_view();
    let mut i: usize = 0;
    assert(all.skip(0) =~= all);
    while i < plugins.len()
        invariant
            all == plugins.deep_view(),
            i <= plugins.len(),
            listed(all, plugin_id@) == listed(all.skip(i as int), plugin_id@),
        decreases plugins.len() - i,
    {
        assert(all.skip(i as int)[0] == plugins@[i as int].deep_view());
        assert(all.skip(i as int).skip(1) =~= all.skip(i + 1));
        if text::same(plugins[i].plugin_id.as_str(), plugin_id) {
            return Some(&plugins[i]);
        }
        i = i + 1;
    }
    None
}

/// The source of the first listed plugin with an id.
pub open spec fn source_of(plugins: Seq<PluginView>, plugin_id: Seq<char>) -> Option<SourceView> {
    match listed(plugins, plugin_id) {
        Some(p) => p.source,
        None => None,
    }
}

fn find_source<'a>(plugins: &'a Vec<Plugin>, plugin_id: &str) -> (r: Option<&'a Source>)
    ensures
        r.deep_view() == source_of(plugins.deep_view(), plugin_id@),
{
    match find_plugin(plugins, plugin_id) {
        Some(p) => match &p.source {
            Some(s) => Some(s),
            None => None,
        },
        None => None,
    }
}

/// The owner and repository that a plugin can be reinstalled from.
pub open spec fn repo_of(plugins: Seq<PluginView>, plugin_id: Seq<char>) -> Option<
    (Seq<char>, Seq<char>),
> {
    match source_of(plugins, plugin_id) {
        Some(s) => match (s.owner, s.repo) {
            (Some(owner), Some(repo)) => if valid_repo(owner, repo) {
                Some((owner, repo))
            } else {
                None
            },
            _ => None,
        },
        None => None,
    }
}

/// The owner and repository of a plugin id, from the registry; `None` where
/// either is missing or not a valid name.
pub fn owner_repo_of(plugins: &Vec<Plugin>, plugin_id: &str) -> (r: Option<(String, String)>)
    ensures
        r.deep_view() == repo_of(plugins.deep_view(), plugin_id@),
{
    match find_source(plugins, plugin_id) {
        Some(s) => match (&s.owner, &s.repo) {
            (Some(owner), Some(repo)) => if valid_github_repo(owner.as_str(), repo.as_str()) {
                Some((owner.clone(), repo.clone()))
            } else {
                None
            },
            _ => None,
        },
        None => None,
    }
}

/// The commit that the registry records for a plugin.
pub open spec fn commit_of(plugins: Seq<PluginView>, plugin_id: Seq<char>) -> Option<Seq<char>> {
    match source_of(plugins, plugin_id) {
        Some(s) => s.resolved_commit,
        None => None,
    }
}

/// The commit that the registry records for a plugin id. `None` when the plugin
/// is absent or no commit is recorded.
pub fn resolved_commit_of(plugins: &Vec<Plugin>, plugin_id: &str) -> (r: Option<String>)
    ensures
        r.deep_view() == commit_of(plugins.deep_view(), plugin_id@),
{
    match find_source(plugins, plugin_id) {
        Some(s) => text::copy_of(&s.resolved_commit),
        None => None,
    }
}

/// Whether the registry resolves a plugin id to `expected`; a plugin that is
/// absent or has no commit recorded counts as not installed.
pub fn verify_installed(plugins: &Vec<Plugin>, plugin_id: &str, expected: &str) -> (r: bool)
    ensures
        r == (commit_of(plugins.deep_view(), plugin_id@) == Some(expected@)),
{
    match resolved_commit_of(plugins, plugin_id) {
        Some(sha) => text::same(sha.as_str(), expected),
        None => false,
    }
}

/// The command line behind the herdr program that lists the plugins.
pub fn list_args() -> (r: Vec<String>)
    ensures
        r.deep_view() == seq!["plugin"@, "list"@, "--json"@],
{
    let r: Vec<String> = vec!["plugin".to_owned(), "list".to_owned(), "--json".to_owned()];
    assert(r.deep_view() =~= seq!["plugin"@, "list"@, "--json"@]);
    r
}

/// The message for a listing that herdr refused, given what it said.
pub open spec fn exit_error(bin: Seq<char>, status: Seq<char>, said: Seq<char>) -> Seq<char> {
    "'"@ + bin + " plugin list --json' exited with "@ + status + ": "@ + text::trimmed(said)
}

/// The message for a listing that herdr refused, given what it said.
pub fn list_exit_error(bin: &str, status: &str, said: &str) -> (r: String)
    ensures
        r@ == exit_error(bin@, status@, said@),
{
    let mut s = "'".to_owned();
    s.append(bin);
    s.append(" plugin list --json' exited with ");
    s.append(status);
    s.append(": ");
    s.append(text::trim(said));
    s
}

/// What listing the plugins comes to: the listing as text, or what went wrong.
pub open spec fn listing(bin: Seq<char>, run: Result<ToolOutput, String>) -> Result<
    Seq<char>,
    Seq<char>,
> {
    match run {
        Ok(out) => if out.ok {
            Ok(stdout_text(out.stdout@))
        } else {
            Err(exit_error(bin, out.status@, text::lossy_utf8(out.stderr@)))
        },
        Err(e) => Err("cannot run '"@ + bin + " plugin list --json': "@ + e@),
    }
}

/// The listing that `herdr plugin list --json` printed, or what went wrong.
pub fn list_output(bin: &str, run: Result<ToolOutput, String>) -> (r: Result<String, String>)
    ensures
        text::both(r) == listing(bin@, run),
        run matches Ok(out) ==> (out.ok ==> text::utf8_is_read(out.stdout@)),
        run matches Ok(out) ==> (out.ok && vstd::utf8::valid_utf8(out.stdout@) ==> text::both(r)
            == Ok::<Seq<char>, Seq<char>>(vstd::utf8::decode_utf8(out.stdout@))),
        run matches Ok(out) ==> (!out.ok ==> text::utf8_is_read(out.stderr@)),
{
    match run {
        Ok(out) => if out.ok {
            Ok(decode_stdout(out.stdout.as_slice()))
        } else {
            let err = text::utf8_lossy(out.stderr.as_slice());
            Err(list_exit_error(bin, out.status.as_str(), err.as_str()))
        },
        Err(e) => {
            let mut s = "cannot run '".to_owned();
            s.append(bin);
            s.append(" plugin list --json': ");
            s.append(e.as_str());
            Err(s)
        },
    }
}

/// The message for a listing that cannot be parsed.
pub fn list_parse_error(bin: &str, e: &str) -> (r: String)
    ensures
        r@ == "cannot parse '"@ + bin@ + " plugin list --json' output: "@ + e@,
{
    let mut s = "cannot parse '".to_owned();
    s.append(bin);
    s.append(" plugin list --json' output: ");
    s.append(e);
    s
}

/// A name is valid exactly where it has at least one and at most as many
/// characters as allowed, all of them letters, digits, `-`, `_` or `.`, and is
/// neither `.` nor `..`.
pub proof fn names_have_plain_characters(s: &str, max: usize, r: bool)
    requires
        call_ensures(valid_github_name, (s, max), r),
    ensures
        r <==> {
            &&& 1 <= s@.len() <= max
            &&& s@ != seq!['.']
            &&& s@ != seq!['.', '.']
            &&& forall|i: int|
                0 <= i < s@.len()
                    ==> "ABCDEFGHIJKLMNOPQRSTUVWXYZabcdefghijklmnopqrstuvwxyz0123456789-_."@.contains(
                #[trigger] s@[i])
        },
{
    reveal_strlit(".");
    reveal_strlit("..");
    assert("."@ =~= seq!['.']);
    assert(".."@ =~= seq!['.', '.']);
    assert forall|i: int| 0 <= i < s@.len() implies name_char(#[trigger] s@[i])
        == "ABCDEFGHIJKLMNOPQRSTUVWXYZabcdefghijklmnopqrstuvwxyz0123456789-_."@.contains(s@[i]) by {
        lemma_name_chars(s@[i]);
    }
}

proof fn lemma_name_chars(c: char)
    ensures
        name_char(c)
            <==> "ABCDEFGHIJKLMNOPQRSTUVWXYZabcdefghijklmnopqrstuvwxyz0123456789-_."@.contains(c),
{
    reveal_strlit("ABCDEFGHIJKLMNOPQRSTUVWXYZabcdefghijklmnopqrstuvwxyz0123456789-_.");
    let all = "ABCDEFGHIJKLMNOPQRSTUVWXYZabcdefghijklmnopqrstuvwxyz0123456789-_."@;
    assert(all.len() == 65);
    if name_char(c) {
        let i: int = if 'A' <= c <= 'Z' {
            c as int - 'A' as int
        } else if 'a' <= c <= 'z' {
            c as int - 'a' as int + 26
        } else if '0' <= c <= '9' {
            c as int - '0' as int + 52
        } else if c == '-' {
            62
        } else if c == '_' {
            63
        } else {
            64
        };
        assert(all[i] == c);
    }
}

/// An owner has at most 39 characters, a repository at most 100, and both have to
/// be valid for the two to be.
pub proof fn both_names_have_to_be_valid(
    owner: &str,
    repo: &str,
    r: bool,
    owner_valid: bool,
    repo_valid: bool,
)
    requires
        call_ensures(valid_github_repo, (owner, repo), r),
        call_ensures(valid_github_name, (owner, 39), owner_valid),
        call_ensures(valid_github_name, (repo, 100), repo_valid),
    ensures
        r <==> owner_valid && repo_valid,
{
}

/// Valid names can be told apart again behind the slash: two repositories with
/// valid names that are written alike are the same.
pub proof fn valid_names_are_written_apart(
    owner: Seq<char>,
    repo: Seq<char>,
    other_owner: Seq<char>,
    other_repo: Seq<char>,
)
    requires
        valid_repo(owner, repo),
        valid_repo(other_owner, other_repo),
        owner + seq!['/'] + repo == other_owner + seq!['/'] + other_repo,
    ensures
        owner == other_owner,
        repo == other_repo,
{
    let a = owner + seq!['/'] + repo;
    let b = other_owner + seq!['/'] + other_repo;
    assert(a[owner.len() as int] == '/');
    assert(b[other_owner.len() as int] == '/');
    if owner.len() < other_owner.len() {
        assert(b[owner.len() as int] == other_owner[owner.len() as int]);
        assert(name_char(other_owner[owner.len() as int]));
    } else if owner.len() > other_owner.len() {
        assert(a[other_owner.len() as int] == owner[other_owner.len() as int]);
        assert(name_char(owner[other_owner.len() as int]));
    }
    assert(owner =~= a.subrange(0, owner.len() as int));
    assert(other_owner =~= b.subrange(0, owner.len() as int));
    assert(repo =~= a.skip(owner.len() as int + 1));
    assert(other_repo =~= b.skip(owner.len() as int + 1));
}

proof fn lemma_listed(plugins: Seq<PluginView>, id: Seq<char>) -> (i: int)
    ensures
        0 <= i <= plugins.len(),
        forall|j: int| 0 <= j < i ==> (#[trigger] plugins[j]).plugin_id != id,
        i < plugins.len() ==> plugins[i].plugin_id == id && listed(plugins, id) == Some(plugins[i]),
        i == plugins.len() ==> listed(plugins, id) is None,
    decreases plugins.len(),
{
    if plugins.len() == 0 || plugins[0].plugin_id == id {
        0
    } else {
        let i = lemma_listed(plugins.skip(1), id);
        assert forall|j: int| 0 <= j < i + 1 implies (#[trigger] plugins[j]).plugin_id != id by {
            if j > 0 {
                assert(plugins.skip(1)[j - 1] == plugins[j]);
            }
        }
        i + 1
    }
}

/// The plugin that is found has the id and is the first in the list that has it;
/// none is found exactly where none in the list has it.
pub proof fn the_first_with_the_id_is_found(plugins: Seq<PluginView>, id: Seq<char>)
    ensures
        listed(plugins, id) is None <==> forall|i: int|
            0 <= i < plugins.len() ==> (#[trigger] plugins[i]).plugin_id != id,
        forall|i: int|
            0 <= i < plugins.len() && plugins[i].plugin_id == id && (forall|j: int|
                0 <= j < i ==> (#[trigger] plugins[j]).plugin_id != id) ==> listed(plugins, id)
                == Some(#[trigger] plugins[i]),
{
    let k = lemma_listed(plugins, id);
    assert forall|i: int|
        0 <= i < plugins.len() && plugins[i].plugin_id == id && (forall|j: int|
            0 <= j < i ==> (#[trigger] plugins[j]).plugin_id != id) implies listed(plugins, id)
        == Some(#[trigger] plugins[i]) by {
        if k < i {
            assert(plugins[k].plugin_id != id);
        } else if i < k {
            assert(plugins[i].plugin_id != id);
        }
    }
    if listed(plugins, id) is None {
        assert(k == plugins.len());
    }
}

/// What the registry says of a plugin is what its entry says: the owner and the
/// repository, where both are recorded and valid, and the commit, where one is.
/// Of a plugin that is not listed it says nothing.
pub proof fn the_entry_of_a_plugin_counts(
    plugins: &Vec<Plugin>,
    plugin_id: &str,
    place: Option<(String, String)>,
    commit: Option<String>,
    expected: &str,
    verified: bool,
)
    requires
        call_ensures(owner_repo_of, (plugins, plugin_id), place),
        call_ensures(resolved_commit_of, (plugins, plugin_id), commit),
        call_ensures(verify_installed, (plugins, plugin_id, expected), verified),
    ensures
        match listed(plugins.deep_view(), plugin_id@) {
            None => place is None && commit is None && !verified,
            Some(p) => match p.source {
                None => place is None && commit is None && !verified,
                Some(s) => {
                    &&& commit.deep_view() == s.resolved_commit
                    &&& verified <==> s.resolved_commit == Some(expected@)
                    &&& place is Some <==> s.owner is Some && s.repo is Some && valid_repo(
                        s.owner->0,
                        s.repo->0,
                    )
                    &&& place matches Some((owner, repo)) ==> s.owner == Some(owner@) && s.repo
                        == Some(repo@)
                },
            },
        },
{
}

/// A listing is taken only from a herdr that ran and succeeded; what failed is
/// reported with the program and its reason.
pub proof fn failed_listings_are_errors(
    bin: &str,
    run: Result<ToolOutput, String>,
    r: Result<String, String>,
)
    requires
        call_ensures(list_output, (bin, run), r),
    ensures
        r is Ok <==> run is Ok && run->Ok_0.ok,
        run matches Err(e) ==> r->Err_0@ == "cannot run '"@ + bin@ + (" plugin list --json': "@
            + e@),
        run matches Ok(out) ==> out.ok ==> r->Ok_0@ == stdout_text(out.stdout@),
        run matches Ok(out) ==> !out.ok ==> r->Err_0@ == "'"@ + bin@
            + " plugin list --json' exited with "@ + (out.status@ + ": "@ + text::trimmed(
            text::lossy_utf8(out.stderr@),
        )),
{
    match run {
        Err(e) => {
            assert(r->Err_0@ =~= "cannot run '"@ + bin@ + (" plugin list --json': "@ + e@));
        },
        Ok(out) => {
            if !out.ok {
                assert(r->Err_0@ =~= "'"@ + bin@ + " plugin list --json' exited with "@ + (
                out.status@ + ": "@ + text::trimmed(text::lossy_utf8(out.stderr@))));
            }
        },
    }
}

/// A listing that cannot be parsed is reported with the program and the reason.
pub proof fn unreadable_listings_are_named(bin: &str, e: &str, r: String)
    requires
        call_ensures(list_parse_error, (bin, e), r),
    ensures
        r@ == "cannot parse '"@ + bin@ + (" plugin list --json' output: "@ + e@),
{
    assert(r@ =~= "cannot parse '"@ + bin@ + (" plugin list --json' output: "@ + e@));
}

/// The values of a source are what it holds.
pub proof fn sources_are_seen_whole(s: Source)
    ensures
        s.deep_view().kind == s.kind@,
        s.deep_view().owner == s.owner.deep_view(),
        s.deep_view().repo == s.repo.deep_view(),
        s.deep_view().requested_ref == s.requested_ref.deep_view(),
        s.deep_view().resolved_commit == s.resolved_commit.deep_view(),
{
}

/// The values of a plugin are what it holds.
pub proof fn plugins_are_seen_whole(p: Plugin)
    ensures
        p.deep_view().plugin_id == p.plugin_id@,
        p.deep_view().version == p.version.deep_view(),
        p.deep_view().source == p.source.deep_view(),
{
}

/// What herdr wrote is read as UTF-8 unless it begins with the mark of UTF-16,
/// and behind that mark an odd byte at the end makes no difference.
pub proof fn the_mark_tells_the_encoding(bytes: &[u8], r: String, odd: u8)
    requires
        call_ensures(decode_stdout, (bytes,), r),
    ensures
        !(bytes@.len() >= 2 && bytes@[0] == 0xff && bytes@[1] == 0xfe) ==> r@ == text::lossy_utf8(
            bytes@,
        ),
        bytes@.len() >= 2 && bytes@[0] == 0xff && bytes@[1] == 0xfe && bytes@.len() % 2 == 0
            ==> stdout_text(bytes@.push(odd)) == r@,
{
    let longer = bytes@.push(odd);
    if bytes@.len() >= 2 && bytes@.len() % 2 == 0 {
        assert(le_units(longer.skip(2)) =~= le_units(bytes@.skip(2)));
    }
}

} // verus!
