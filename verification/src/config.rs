//! Plugin configuration: policy, filters and the places where files live.

use crate::registry;
use crate::text;
use crate::tool;
use crate::tool::ToolOutput;
use vstd::prelude::*;

verus! {

/// Update policy: what an update run may do with a plugin whose upstream ref
/// changed.
#[derive(Debug, Clone, Copy, PartialEq, Eq, Structural)]
pub enum Policy {
    /// Install updates, honoring `allow` and `exclude`.
    Auto,
    /// Check, report and notify only; never install.
    Notify,
    /// Only update plugins that were installed with an explicit ref.
    PinnedOnly,
}

impl DeepView for Policy {
    type V = Policy;

    open spec fn deep_view(&self) -> Policy {
        *self
    }
}

/// Whether a pattern matches a text: `*` matches any sequence (the empty one
/// too, across `/`), `?` one character other than `/`, and any other character
/// itself.
pub open spec fn glob(p: Seq<char>, t: Seq<char>) -> bool
    decreases p.len() + t.len(),
{
    if p.len() == 0 {
        t.len() == 0
    } else if p[0] == '*' {
        glob(p.skip(1), t) || (t.len() > 0 && glob(p, t.skip(1)))
    } else {
        t.len() > 0 && one_char(p[0], t[0]) && glob(p.skip(1), t.skip(1))
    }
}

/// Whether a pattern character other than `*` matches a character.
pub open spec fn one_char(p: char, c: char) -> bool {
    p == c || (p == '?' && c != '/')
}

/// A leading `*` stands for every prefix of the text and for nothing else.
pub proof fn glob_star(p: Seq<char>, t: Seq<char>)
    requires
        p.len() > 0,
        p[0] == '*',
    ensures
        glob(p, t) <==> exists|k: int| 0 <= k <= t.len() && glob(p.skip(1), #[trigger] t.skip(k)),
    decreases t.len(),
{
    assert(t.skip(0) =~= t);
    if t.len() > 0 {
        let rest = t.skip(1);
        glob_star(p, rest);
        if exists|k: int| 0 <= k <= rest.len() && glob(p.skip(1), #[trigger] rest.skip(k)) {
            let k = choose|k: int| 0 <= k <= rest.len() && glob(p.skip(1), #[trigger] rest.skip(k));
            assert(rest.skip(k) =~= t.skip(k + 1));
        }
        if exists|k: int| 0 < k <= t.len() && glob(p.skip(1), #[trigger] t.skip(k)) {
            let k = choose|k: int| 0 < k <= t.len() && glob(p.skip(1), #[trigger] t.skip(k));
            assert(rest.skip(k - 1) =~= t.skip(k));
        }
    }
}

/// A pattern without `*` and `?` matches itself and nothing else.
pub proof fn glob_literal(p: Seq<char>, t: Seq<char>)
    requires
        forall|i: int| 0 <= i < p.len() ==> p[i] != '*' && p[i] != '?',
    ensures
        glob(p, t) <==> p == t,
    decreases p.len(),
{
    if p.len() > 0 && t.len() > 0 {
        glob_literal(p.skip(1), t.skip(1));
        if p.skip(1) == t.skip(1) && p[0] == t[0] {
            assert(p =~= seq![p[0]] + p.skip(1));
            assert(t =~= seq![t[0]] + t.skip(1));
        }
    }
    if p.len() == 0 && t.len() == 0 {
        assert(p =~= t);
    }
}

/// A stretch of pattern without `*` consumes as many characters as it has.
proof fn lemma_glob_fixed(p: Seq<char>, t: Seq<char>, n: int)
    requires
        0 <= n <= p.len(),
        forall|i: int| 0 <= i < n ==> p[i] != '*',
        glob(p, t),
    ensures
        n <= t.len(),
        glob(p.skip(n), t.skip(n)),
    decreases n,
{
    if n == 0 {
        assert(p.skip(0) =~= p);
        assert(t.skip(0) =~= t);
    } else {
        lemma_glob_fixed(p.skip(1), t.skip(1), n - 1);
        assert(p.skip(1).skip(n - 1) =~= p.skip(n));
        assert(t.skip(1).skip(n - 1) =~= t.skip(n));
    }
}

/// Whether a later position for the last `*` leads to a match.
spec fn retry(p: Seq<char>, t: Seq<char>, star: Option<usize>, mark: int) -> bool {
    star is Some && exists|k: int|
        mark < k <= t.len() && glob(p.skip(star->0 + 1), #[trigger] t.skip(k))
}

/// A second `*` makes the positions still open for the first one irrelevant.
proof fn lemma_new_star(p: Seq<char>, t: Seq<char>, star: Option<usize>, mark: int, pi: int, ti: int)
    requires
        0 <= pi < p.len(),
        p[pi] == '*',
        0 <= mark <= ti <= t.len(),
        star is Some ==> star->0 < pi && pi - star->0 - 1 == ti - mark,
        star is Some ==> forall|i: int| star->0 < i < pi ==> p[i] != '*',
        retry(p, t, star, mark),
    ensures
        glob(p.skip(pi), t.skip(ti)),
{
    let s = star->0 as int;
    let n = pi - s - 1;
    let k = choose|k: int| mark < k <= t.len() && glob(p.skip(s + 1), #[trigger] t.skip(k));
    lemma_glob_fixed(p.skip(s + 1), t.skip(k), n);
    assert(p.skip(s + 1).skip(n) =~= p.skip(pi));
    assert(t.skip(k).skip(n) =~= t.skip(k + n));
    glob_star(p.skip(pi), t.skip(k + n));
    glob_star(p.skip(pi), t.skip(ti));
    let rest = t.skip(k + n);
    let j = choose|j: int| 0 <= j <= rest.len() && glob(p.skip(pi).skip(1), #[trigger] rest.skip(j));
    assert(rest.skip(j) =~= t.skip(ti).skip(k + n - ti + j));
}

/// A `*` matches the empty rest, and the later positions of it.
proof fn lemma_take_star(p: Seq<char>, t: Seq<char>, pi: usize, ti: int)
    requires
        pi < p.len(),
        p[pi as int] == '*',
        0 <= ti <= t.len(),
    ensures
        glob(p.skip(pi as int), t.skip(ti)) <==> (glob(p.skip(pi + 1), t.skip(ti)) || retry(
            p,
            t,
            Some(pi),
            ti,
        )),
{
    let u = t.skip(ti);
    glob_star(p.skip(pi as int), u);
    assert(p.skip(pi as int).skip(1) =~= p.skip(pi + 1));
    assert(u.skip(0) =~= u);
    if exists|k: int| 0 <= k <= u.len() && glob(p.skip(pi + 1), #[trigger] u.skip(k)) {
        let k = choose|k: int| 0 <= k <= u.len() && glob(p.skip(pi + 1), #[trigger] u.skip(k));
        assert(u.skip(k) =~= t.skip(ti + k));
    }
    if retry(p, t, Some(pi), ti) {
        let k = choose|k: int| ti < k <= t.len() && glob(p.skip(pi + 1), #[trigger] t.skip(k));
        assert(u.skip(k - ti) =~= t.skip(k));
    }
}

/// No later position for the last `*` helps once the text is used up.
proof fn lemma_used_up(p: Seq<char>, t: Seq<char>, star: Option<usize>, mark: int, pi: int)
    requires
        0 <= pi <= p.len(),
        0 <= mark <= t.len(),
        star is Some ==> star->0 < pi && pi - star->0 - 1 == t.len() - mark,
        star is Some ==> forall|i: int| star->0 < i < pi ==> p[i] != '*',
    ensures
        !retry(p, t, star, mark),
{
    if retry(p, t, star, mark) {
        let s = star->0 as int;
        let k = choose|k: int| mark < k <= t.len() && glob(p.skip(s + 1), #[trigger] t.skip(k));
        lemma_glob_fixed(p.skip(s + 1), t.skip(k), pi - s - 1);
    }
}

/// Moving on to the next position for the last `*`.
proof fn lemma_retry_next(p: Seq<char>, t: Seq<char>, s: usize, mark: int)
    requires
        0 <= mark < t.len(),
    ensures
        retry(p, t, Some(s), mark) <==> (glob(p.skip(s + 1), t.skip(mark + 1)) || retry(
            p,
            t,
            Some(s),
            mark + 1,
        )),
{
    if retry(p, t, Some(s), mark) {
        let k = choose|k: int| mark < k <= t.len() && glob(p.skip(s + 1), #[trigger] t.skip(k));
        assert(k == mark + 1 || k > mark + 1);
    }
}

/// Minimal glob for `allow` patterns: `*` matches any sequence (the empty one
/// too, across `/`), `?` exactly one character other than `/`.
pub fn glob_match(pattern: &str, txt: &str) -> (r: bool)
    ensures
        r == glob(pattern@, txt@),
{
    let p = text::chars_of(pattern);
    let t = text::chars_of(txt);
    let mut pi: usize = 0;
    let mut ti: usize = 0;
    let mut star: Option<usize> = None;
    let mut mark: usize = 0;
    assert(p@.skip(0) =~= p@);
    assert(t@.skip(0) =~= t@);
    while ti < t.len()
        invariant
            p@ == pattern@,
            t@ == txt@,
            pi <= p.len(),
            mark <= ti <= t.len(),
            star is None ==> mark == 0,
            star is Some ==> star->0 < pi && pi - star->0 - 1 == ti - mark,
            star is Some ==> forall|i: int| star->0 < i < pi ==> p@[i] != '*',
            glob(p@, t@) <==> (glob(p@.skip(pi as int), t@.skip(ti as int)) || retry(
                p@,
                t@,
                star,
                mark as int,
            )),
        decreases t.len() - mark, p.len() - pi,
    {
        proof {
            if pi < p.len() {
                assert(p@.skip(pi as int).skip(1) =~= p@.skip(pi + 1));
            }
            assert(t@.skip(ti as int).skip(1) =~= t@.skip(ti + 1));
        }
        if pi < p.len() && p[pi] == '*' {
            proof {
                lemma_take_star(p@, t@, pi, ti as int);
                if retry(p@, t@, star, mark as int) {
                    lemma_new_star(p@, t@, star, mark as int, pi as int, ti as int);
                }
            }
            star = Some(pi);
            mark = ti;
            pi = pi + 1;
        } else if pi < p.len() && (p[pi] == t[ti] || (p[pi] == '?' && t[ti] != '/')) {
            pi = pi + 1;
            ti = ti + 1;
        } else if let Some(s) = star {
            proof {
                lemma_retry_next(p@, t@, s, mark as int);
            }
            pi = s + 1;
            mark = mark + 1;
            ti = mark;
        } else {
            return false;
        }
    }
    proof {
        lemma_used_up(p@, t@, star, mark as int, pi as int);
        assert(t@.skip(ti as int) =~= Seq::<char>::empty());
    }
    while pi < p.len() && p[pi] == '*'
        invariant
            p@ == pattern@,
            t@ == txt@,
            pi <= p.len(),
            glob(p@, t@) <==> glob(p@.skip(pi as int), Seq::<char>::empty()),
        decreases p.len() - pi,
    {
        assert(p@.skip(pi as int).skip(1) =~= p@.skip(pi + 1));
        pi = pi + 1;
    }
    pi == p.len()
}

/// A directory for the plugin's own files.
#[derive(Debug)]
pub enum DataDir {
    /// The directory itself.
    At(String),
    /// The `config` directory inside this one.
    ConfigUnder(String),
    /// The directory that holds this file.
    ParentOf(String),
}

/// A `DataDir` as values.
pub enum DataDirView {
    At(Seq<char>),
    ConfigUnder(Seq<char>),
    ParentOf(Seq<char>),
}

impl DeepView for DataDir {
    type V = DataDirView;

    open spec fn deep_view(&self) -> DataDirView {
        match self {
            DataDir::At(s) => DataDirView::At(s@),
            DataDir::ConfigUnder(s) => DataDirView::ConfigUnder(s@),
            DataDir::ParentOf(s) => DataDirView::ParentOf(s@),
        }
    }
}

impl Clone for DataDir {
    fn clone(&self) -> (r: Self)
        ensures
            r.deep_view() == self.deep_view(),
    {
        match self {
            DataDir::At(s) => DataDir::At(s.clone()),
            DataDir::ConfigUnder(s) => DataDir::ConfigUnder(s.clone()),
            DataDir::ParentOf(s) => DataDir::ParentOf(s.clone()),
        }
    }
}

/// A file in a data directory.
#[derive(Debug)]
pub struct FilePath {
    pub dir: DataDir,
    pub name: String,
}

/// A `FilePath` as values.
pub struct FilePathView {
    pub dir: DataDirView,
    pub name: Seq<char>,
}

impl DeepView for FilePath {
    type V = FilePathView;

    open spec fn deep_view(&self) -> FilePathView {
        FilePathView { dir: self.dir.deep_view(), name: self.name@ }
    }
}

/// Where the configuration is read from.
#[derive(Debug)]
pub enum ConfigPath {
    /// The file that the caller named.
    Given(String),
    /// The file in the usual directory.
    Usual(FilePath),
}

/// A `ConfigPath` as values.
pub enum ConfigPathView {
    Given(Seq<char>),
    Usual(FilePathView),
}

impl DeepView for ConfigPath {
    type V = ConfigPathView;

    open spec fn deep_view(&self) -> ConfigPathView {
        match self {
            ConfigPath::Given(s) => ConfigPathView::Given(s@),
            ConfigPath::Usual(f) => ConfigPathView::Usual(f.deep_view()),
        }
    }
}

/// What the surroundings say about the plugin's directory: the values of
/// `HERDR_PLUGIN_CONFIG_DIR` and `HERDR_PLUGIN_ROOT`, and what
/// `herdr plugin config-dir` printed.
#[derive(Debug)]
pub struct Surroundings {
    pub config_dir_var: Option<String>,
    pub root_var: Option<String>,
    pub herdr_config_dir: Option<String>,
}

/// `Surroundings` as values.
pub struct SurroundingsView {
    pub config_dir_var: Option<Seq<char>>,
    pub root_var: Option<Seq<char>>,
    pub herdr_config_dir: Option<Seq<char>>,
}

impl DeepView for Surroundings {
    type V = SurroundingsView;

    open spec fn deep_view(&self) -> SurroundingsView {
        SurroundingsView {
            config_dir_var: self.config_dir_var.deep_view(),
            root_var: self.root_var.deep_view(),
            herdr_config_dir: self.herdr_config_dir.deep_view(),
        }
    }
}

/// The directory that the environment names.
pub open spec fn dir_from_env(s: SurroundingsView) -> Option<DataDirView> {
    match tool::nonblank(s.config_dir_var) {
        Some(dir) => Some(DataDirView::At(dir)),
        None => match tool::nonblank(s.root_var) {
            Some(root) => Some(DataDirView::ConfigUnder(root)),
            None => None,
        },
    }
}

/// The usual directory: the one that the environment names, else the one that
/// herdr names.
pub open spec fn usual_dir(s: SurroundingsView) -> Option<DataDirView> {
    match dir_from_env(s) {
        Some(dir) => Some(dir),
        None => match tool::nonblank(s.herdr_config_dir) {
            Some(dir) => Some(DataDirView::At(text::trimmed(dir))),
            None => None,
        },
    }
}

/// The directory that the environment names. Where it names one, herdr need not
/// be asked.
pub fn env_dir(s: &Surroundings) -> (r: Option<DataDir>)
    ensures
        r.deep_view() == dir_from_env(s.deep_view()),
{
    match tool::env_nonempty(text::borrowed(&s.config_dir_var)) {
        Some(dir) => Some(DataDir::At(dir)),
        None => match tool::env_nonempty(text::borrowed(&s.root_var)) {
            Some(root) => Some(DataDir::ConfigUnder(root)),
            None => None,
        },
    }
}

fn usual_data_dir(s: &Surroundings) -> (r: Option<DataDir>)
    ensures
        r.deep_view() == usual_dir(s.deep_view()),
{
    match env_dir(s) {
        Some(dir) => Some(dir),
        None => match tool::env_nonempty(text::borrowed(&s.herdr_config_dir)) {
            Some(dir) => Some(DataDir::At(text::trim(dir.as_str()).to_owned())),
            None => None,
        },
    }
}

/// The command line behind the herdr program that prints the plugin's
/// directory.
pub fn config_dir_args() -> (r: Vec<String>)
    ensures
        r.deep_view() == seq!["plugin"@, "config-dir"@, "herdr-auto-update"@],
{
    let r: Vec<String> = vec![
        "plugin".to_owned(),
        "config-dir".to_owned(),
        "herdr-auto-update".to_owned(),
    ];
    assert(r.deep_view() =~= seq!["plugin"@, "config-dir"@, "herdr-auto-update"@]);
    r
}

/// The directory that herdr printed, from what running it came to; none where it
/// failed.
pub fn printed_dir(run: Result<ToolOutput, String>) -> (r: Option<String>)
    ensures
        r.deep_view() == (match run {
            Ok(out) => if out.ok {
                Some(registry::stdout_text(out.stdout@))
            } else {
                None
            },
            Err(_) => None,
        }),
        run matches Ok(out) ==> (out.ok ==> text::utf8_is_read(out.stdout@)),
        run matches Ok(out) ==> (out.ok && vstd::utf8::valid_utf8(out.stdout@) ==> r.deep_view()
            == Some(vstd::utf8::decode_utf8(out.stdout@))),
{
    match run {
        Ok(out) => if out.ok {
            Some(registry::decode_stdout(out.stdout.as_slice()))
        } else {
            None
        },
        Err(_) => None,
    }
}

/// The directory for the plugin's own files: the one that holds the named
/// configuration file, else the usual one.
pub open spec fn dir_for(given: Option<Seq<char>>, s: SurroundingsView) -> Option<DataDirView> {
    match given {
        Some(p) => Some(DataDirView::ParentOf(p)),
        None => usual_dir(s),
    }
}

/// The directory for the plugin's own files: the one that holds the named
/// configuration file, else the usual one. `None` when nothing is known.
pub fn config_dir(override_path: Option<&str>, s: &Surroundings) -> (r: Option<DataDir>)
    ensures
        r.deep_view() == dir_for(override_path.deep_view(), s.deep_view()),
{
    match override_path {
        Some(p) => Some(DataDir::ParentOf(p.to_owned())),
        None => usual_data_dir(s),
    }
}

/// Where the configuration is read from.
pub open spec fn source(given: Option<Seq<char>>, s: SurroundingsView) -> Option<ConfigPathView> {
    match given {
        Some(p) => Some(ConfigPathView::Given(p)),
        None => match usual_dir(s) {
            Some(dir) => Some(ConfigPathView::Usual(FilePathView { dir, name: "config.toml"@ })),
            None => None,
        },
    }
}

/// Where the configuration is read from: the named file, else `config.toml` in
/// the usual directory.
pub fn config_path(override_path: Option<&str>, s: &Surroundings) -> (r: Option<ConfigPath>)
    ensures
        r.deep_view() == source(override_path.deep_view(), s.deep_view()),
{
    match override_path {
        Some(p) => Some(ConfigPath::Given(p.to_owned())),
        None => match usual_data_dir(s) {
            Some(dir) => Some(ConfigPath::Usual(FilePath { dir, name: "config.toml".to_owned() })),
            None => None,
        },
    }
}

/// The configuration of a run.
#[derive(Debug)]
pub struct Config {
    /// Reinstall outdated plugins automatically from the startup hook.
    pub auto_update: bool,
    /// Show a desktop notification when updates ran. Ignored with `--json`.
    pub notify: bool,
    /// Plugin ids to skip during updates.
    pub exclude: Vec<String>,
    /// Wall-clock deadline in seconds for one remote check; 0 for none.
    pub timeout_secs: u64,
    /// Upper bound on concurrent remote checks.
    pub max_concurrency: usize,
    /// Update policy.
    pub policy: Policy,
    /// Whether the configuration file sets the policy.
    pub policy_explicit: bool,
    /// Restrict update targets to these `owner/repo` patterns. Empty for all.
    pub allow: Vec<String>,
    /// Only fast-forward updates are installed. Classification enforces this:
    /// only a plugin that is behind its upstream is ever updated.
    pub require_fast_forward: bool,
    /// Allow installing a diverged upstream.
    pub allow_force_push: bool,
    /// Restrict update targets to these owners. Empty for all.
    pub trusted_owners: Vec<String>,
    /// Hold plugins that are pinned to a tag or a commit.
    pub immutable_pins: bool,
    /// The configuration file that was read.
    pub config_path: Option<ConfigPath>,
}

/// A `Config` as values.
pub struct ConfigView {
    pub auto_update: bool,
    pub notify: bool,
    pub exclude: Seq<Seq<char>>,
    pub timeout_secs: u64,
    pub max_concurrency: usize,
    pub policy: Policy,
    pub policy_explicit: bool,
    pub allow: Seq<Seq<char>>,
    pub require_fast_forward: bool,
    pub allow_force_push: bool,
    pub trusted_owners: Seq<Seq<char>>,
    pub immutable_pins: bool,
    pub config_path: Option<ConfigPathView>,
}

impl DeepView for Config {
    type V = ConfigView;

    open spec fn deep_view(&self) -> ConfigView {
        ConfigView {
            auto_update: self.auto_update,
            notify: self.notify,
            exclude: self.exclude.deep_view(),
            timeout_secs: self.timeout_secs,
            max_concurrency: self.max_concurrency,
            policy: self.policy,
            policy_explicit: self.policy_explicit,
            allow: self.allow.deep_view(),
            require_fast_forward: self.require_fast_forward,
            allow_force_push: self.allow_force_push,
            trusted_owners: self.trusted_owners.deep_view(),
            immutable_pins: self.immutable_pins,
            config_path: self.config_path.deep_view(),
        }
    }
}

/// The configuration with every default in place.
pub open spec fn defaults() -> ConfigView {
    ConfigView {
        auto_update: true,
        notify: true,
        exclude: Seq::empty(),
        timeout_secs: 20,
        max_concurrency: 8,
        policy: Policy::Auto,
        policy_explicit: false,
        allow: Seq::empty(),
        require_fast_forward: true,
        allow_force_push: false,
        trusted_owners: Seq::empty(),
        immutable_pins: true,
        config_path: None,
    }
}

impl Default for Config {
    fn default() -> (r: Config)
        ensures
            r.deep_view() == defaults(),
    {
        let r = Config {
            auto_update: true,
            notify: true,
            exclude: Vec::new(),
            timeout_secs: 20,
            max_concurrency: 8,
            policy: Policy::Auto,
            policy_explicit: false,
            allow: Vec::new(),
            require_fast_forward: true,
            allow_force_push: false,
            trusted_owners: Vec::new(),
            immutable_pins: true,
            config_path: None,
        };
        assert(r.exclude.deep_view() =~= Seq::empty());
        assert(r.allow.deep_view() =~= Seq::empty());
        assert(r.trusted_owners.deep_view() =~= Seq::empty());
        r
    }
}

/// What a configuration file sets; a key that it leaves out is `None`.
#[derive(Debug)]
pub struct ConfigFile {
    pub auto_update: Option<bool>,
    pub notify: Option<bool>,
    pub exclude: Option<Vec<String>>,
    pub timeout_secs: Option<u64>,
    pub max_concurrency: Option<usize>,
    pub policy: Option<Policy>,
    pub allow: Option<Vec<String>>,
    pub require_fast_forward: Option<bool>,
    pub allow_force_push: Option<bool>,
    pub trusted_owners: Option<Vec<String>>,
    pub immutable_pins: Option<bool>,
}

/// `value`, or `usual` where there is none.
pub open spec fn or_else<T>(value: Option<T>, usual: T) -> T {
    match value {
        Some(v) => v,
        None => usual,
    }
}

/// The configuration that a file makes: the defaults for what it leaves out,
/// and the notify policy for a policy that it leaves out.
pub open spec fn configured(f: ConfigFile, path: ConfigPathView) -> ConfigView {
    let d = defaults();
    ConfigView {
        auto_update: or_else(f.auto_update, d.auto_update),
        notify: or_else(f.notify, d.notify),
        exclude: or_else(f.exclude.deep_view(), d.exclude),
        timeout_secs: or_else(f.timeout_secs, d.timeout_secs),
        max_concurrency: or_else(f.max_concurrency, d.max_concurrency),
        policy: or_else(f.policy, Policy::Notify),
        policy_explicit: f.policy is Some,
        allow: or_else(f.allow.deep_view(), d.allow),
        require_fast_forward: or_else(f.require_fast_forward, d.require_fast_forward),
        allow_force_push: or_else(f.allow_force_push, d.allow_force_push),
        trusted_owners: or_else(f.trusted_owners.deep_view(), d.trusted_owners),
        immutable_pins: or_else(f.immutable_pins, d.immutable_pins),
        config_path: Some(path),
    }
}

/// What reading the configuration file came to.
#[derive(Debug)]
pub enum ConfigRead {
    /// There is no such file.
    Missing,
    /// The file cannot be read, and why.
    Unreadable(String),
    /// The file is no configuration, and why.
    Invalid(String),
    /// What the file sets.
    Parsed(ConfigFile),
}

/// The configuration of a run, or why there is none. A file that the caller
/// named and that is missing leaves every default in place; where no file was
/// named and none is found, the policy counts as left out.
pub open spec fn loaded(path: Option<ConfigPathView>, shown: Seq<char>, read: ConfigRead) -> Result<
    ConfigView,
    Seq<char>,
> {
    match path {
        None => Ok(ConfigView { policy: Policy::Notify, ..defaults() }),
        Some(p) => match read {
            ConfigRead::Missing => if p is Given {
                Ok(defaults())
            } else {
                Ok(ConfigView { policy: Policy::Notify, ..defaults() })
            },
            ConfigRead::Unreadable(e) => Err("cannot read config "@ + shown + ": "@ + e@),
            ConfigRead::Invalid(e) => Err("invalid config "@ + shown + ": "@ + e@),
            ConfigRead::Parsed(f) => Ok(configured(f, p)),
        },
    }
}

fn without_policy() -> (r: Config)
    ensures
        r.deep_view() == (ConfigView { policy: Policy::Notify, ..defaults() }),
{
    let mut c = Config::default();
    c.policy = Policy::Notify;
    c
}

fn from_file(f: ConfigFile, path: ConfigPath) -> (r: Config)
    ensures
        r.deep_view() == configured(f, path.deep_view()),
{
    let mut c = Config::default();
    c.policy = Policy::Notify;
    if let Some(v) = f.auto_update {
        c.auto_update = v;
    }
    if let Some(v) = f.notify {
        c.notify = v;
    }
    if let Some(v) = f.exclude {
        c.exclude = v;
    }
    if let Some(v) = f.timeout_secs {
        c.timeout_secs = v;
    }
    if let Some(v) = f.max_concurrency {
        c.max_concurrency = v;
    }
    if let Some(v) = f.policy {
        c.policy = v;
        c.policy_explicit = true;
    }
    if let Some(v) = f.allow {
        c.allow = v;
    }
    if let Some(v) = f.require_fast_forward {
        c.require_fast_forward = v;
    }
    if let Some(v) = f.allow_force_push {
        c.allow_force_push = v;
    }
    if let Some(v) = f.trusted_owners {
        c.trusted_owners = v;
    }
    if let Some(v) = f.immutable_pins {
        c.immutable_pins = v;
    }
    c.config_path = Some(path);
    c
}

/// Settles the configuration of a run from where it is read from, that place in
/// words, and what reading it came to. A broken file is an error, so that it
/// cannot silently change behavior.
pub fn load(path: Option<ConfigPath>, shown: &str, read: ConfigRead) -> (r: Result<Config, String>)
    ensures
        (match r {
            Ok(c) => Ok::<ConfigView, Seq<char>>(c.deep_view()),
            Err(e) => Err::<ConfigView, Seq<char>>(e@),
        }) == loaded(path.deep_view(), shown@, read),
{
    match path {
        None => Ok(without_policy()),
        Some(p) => match read {
            ConfigRead::Missing => match p {
                ConfigPath::Given(_) => Ok(Config::default()),
                ConfigPath::Usual(_) => Ok(without_policy()),
            },
            ConfigRead::Unreadable(e) => {
                let mut s = "cannot read config ".to_owned();
                s.append(shown);
                s.append(": ");
                s.append(e.as_str());
                Err(s)
            },
            ConfigRead::Invalid(e) => {
                let mut s = "invalid config ".to_owned();
                s.append(shown);
                s.append(": ");
                s.append(e.as_str());
                Err(s)
            },
            ConfigRead::Parsed(f) => Ok(from_file(f, p)),
        },
    }
}

/// Whether a repository is admitted by `allow` patterns.
pub open spec fn admitted(allow: Seq<Seq<char>>, owner: Seq<char>, repo: Seq<char>) -> bool {
    allow.len() == 0 || exists|i: int|
        0 <= i < allow.len() && glob(#[trigger] allow[i], owner + "/"@ + repo)
}

/// The directory for the plugin's own files: the one that holds the
/// configuration file that was read, else the usual one.
pub open spec fn data_dir_of(cfg: ConfigView, s: SurroundingsView) -> Option<DataDirView> {
    match cfg.config_path {
        Some(ConfigPathView::Given(p)) => Some(DataDirView::ParentOf(p)),
        Some(ConfigPathView::Usual(f)) => Some(f.dir),
        None => usual_dir(s),
    }
}

/// Where a configuration file is read, the plugin's own files live beside it;
/// without a named file they live in the usual directory in any case.
pub proof fn data_lives_beside_the_configuration(
    given: Option<Seq<char>>,
    s: SurroundingsView,
    shown: Seq<char>,
    read: ConfigRead,
)
    requires
        read is Parsed || given is None,
    ensures
        loaded(source(given, s), shown, read) matches Ok(cfg) ==> data_dir_of(cfg, s) == dir_for(
            given,
            s,
        ),
{
}

impl Config {
    /// Whether a plugin id is on the exclude list.
    pub fn is_excluded(&self, plugin_id: &str) -> (r: bool)
        ensures
            r == self.deep_view().exclude.contains(plugin_id@),
    {
        text::is_listed(&self.exclude, plugin_id)
    }

    /// Whether `owner/repo` may be updated: an empty `allow` admits everything,
    /// otherwise at least one pattern must match.
    pub fn is_allowed(&self, owner: &str, repo: &str) -> (r: bool)
        ensures
            r == admitted(self.deep_view().allow, owner@, repo@),
    {
        if self.allow.is_empty() {
            return true;
        }
        let mut spec_text = owner.to_owned();
        spec_text.append("/");
        spec_text.append(repo);
        let mut i: usize = 0;
        while i < self.allow.len()
            invariant
                spec_text@ == owner@ + "/"@ + repo@,
                i <= self.allow.len(),
                forall|j: int|
                    0 <= j < i ==> !glob(#[trigger] self.allow.deep_view()[j], spec_text@),
            decreases self.allow.len() - i,
        {
            if glob_match(self.allow[i].as_str(), spec_text.as_str()) {
                assert(glob(self.allow.deep_view()[i as int], spec_text@));
                return true;
            }
            i = i + 1;
        }
        false
    }

    /// Whether an owner is trusted: an empty list trusts everyone.
    pub fn is_trusted(&self, owner: &str) -> (r: bool)
        ensures
            r == (self.deep_view().trusted_owners.len() == 0
                || self.deep_view().trusted_owners.contains(owner@)),
    {
        self.trusted_owners.is_empty() || text::is_listed(&self.trusted_owners, owner)
    }

    /// The directory for the plugin's own files: the one that holds the
    /// configuration file that was read, else the usual one. `None` when no
    /// place is known.
    pub fn data_dir(&self, s: &Surroundings) -> (r: Option<DataDir>)
        ensures
            r.deep_view() == data_dir_of(self.deep_view(), s.deep_view()),
    {
        match &self.config_path {
            Some(ConfigPath::Given(p)) => Some(DataDir::ParentOf(p.clone())),
            Some(ConfigPath::Usual(f)) => Some(f.dir.clone()),
            None => config_dir(None, s),
        }
    }
}

/// A stretch of pattern without `*` in front matches as many characters, one by
/// one: `?` any but `/`, any other character itself. The rest of the pattern
/// then has the rest of the text to match.
pub proof fn glob_in_front(p: Seq<char>, t: Seq<char>, n: int)
    requires
        0 <= n <= p.len(),
        forall|i: int| 0 <= i < n ==> p[i] != '*',
    ensures
        glob(p, t) <==> {
            &&& n <= t.len()
            &&& forall|i: int|
                #![trigger t[i]]
                0 <= i < n ==> if p[i] == '?' {
                    t[i] != '/'
                } else {
                    t[i] == p[i]
                }
            &&& glob(p.skip(n), t.skip(n))
        },
    decreases n,
{
    if n == 0 {
        assert(p.skip(0) =~= p);
        assert(t.skip(0) =~= t);
    } else if t.len() > 0 {
        glob_in_front(p.skip(1), t.skip(1), n - 1);
        assert(p.skip(1).skip(n - 1) =~= p.skip(n));
        if n <= t.len() {
            assert(t.skip(1).skip(n - 1) =~= t.skip(n));
        }
        if glob(p, t) {
            assert forall|i: int| #![trigger t[i]] 0 <= i < n implies if p[i] == '?' {
                t[i] != '/'
            } else {
                t[i] == p[i]
            } by {
                if i > 0 {
                    assert(t.skip(1)[i - 1] == t[i]);
                    assert(p.skip(1)[i - 1] == p[i]);
                }
            }
        }
        if n <= t.len() && (forall|i: int|
            #![trigger t[i]]
            0 <= i < n ==> if p[i] == '?' {
                t[i] != '/'
            } else {
                t[i] == p[i]
            }) {
            assert(t[0] == t[0]);
            assert forall|i: int| #![trigger t.skip(1)[i]] 0 <= i < n - 1 implies if p.skip(1)[i]
                == '?' {
                t.skip(1)[i] != '/'
            } else {
                t.skip(1)[i] == p.skip(1)[i]
            } by {
                assert(t.skip(1)[i] == t[i + 1]);
            }
        }
    }
}

/// Nothing but an empty text matches the empty pattern, and `*` matches every
/// text.
pub proof fn glob_nothing_and_anything(t: Seq<char>)
    ensures
        glob(Seq::empty(), t) <==> t.len() == 0,
        glob(seq!['*'], t),
{
    let p = seq!['*'];
    glob_star(p, t);
    assert(p.skip(1) =~= Seq::<char>::empty());
    assert(t.skip(t.len() as int).len() == 0);
    assert(glob(p.skip(1), t.skip(t.len() as int)));
}

/// Texts that match two patterns match them one behind the other.
pub proof fn glob_joins(p: Seq<char>, q: Seq<char>, t: Seq<char>, u: Seq<char>)
    requires
        glob(p, t),
        glob(q, u),
    ensures
        glob(p + q, t + u),
    decreases p.len() + t.len(),
{
    if p.len() == 0 {
        assert(p + q =~= q);
        assert(t + u =~= u);
    } else if p[0] == '*' {
        if glob(p.skip(1), t) {
            glob_joins(p.skip(1), q, t, u);
            assert((p + q).skip(1) =~= p.skip(1) + q);
        } else {
            glob_joins(p, q, t.skip(1), u);
            assert((t + u).skip(1) =~= t.skip(1) + u);
        }
    } else {
        glob_joins(p.skip(1), q, t.skip(1), u);
        assert((p + q).skip(1) =~= p.skip(1) + q);
        assert((t + u).skip(1) =~= t.skip(1) + u);
    }
}

/// A repository is admitted wherever any pattern of the list matches it, at
/// whatever place in the list, and is turned away where the list has patterns
/// and none of them does. An empty list admits every repository.
pub proof fn any_pattern_admits(cfg: &Config, owner: &str, repo: &str, r: bool)
    requires
        call_ensures(Config::is_allowed, (cfg, owner, repo), r),
    ensures
        cfg.allow@.len() == 0 ==> r,
        forall|i: int|
            0 <= i < cfg.allow@.len() && glob(
                (#[trigger] cfg.allow@[i])@,
                owner@ + seq!['/'] + repo@,
            ) ==> r,
        cfg.allow@.len() > 0 && (forall|i: int|
            0 <= i < cfg.allow@.len() ==> !glob(
                (#[trigger] cfg.allow@[i])@,
                owner@ + seq!['/'] + repo@,
            )) ==> !r,
{
    let allow = cfg.allow.deep_view();
    reveal_strlit("/");
    assert("/"@ =~= seq!['/']);
    assert forall|i: int|
        0 <= i < cfg.allow@.len() && glob(
            (#[trigger] cfg.allow@[i])@,
            owner@ + seq!['/'] + repo@,
        ) implies r by {
        assert(allow[i] == cfg.allow@[i]@);
    }
    if r && allow.len() > 0 {
        let i = choose|i: int|
            0 <= i < allow.len() && glob(#[trigger] allow[i], owner@ + "/"@ + repo@);
        assert(allow[i] == cfg.allow@[i]@);
    }
}

/// More patterns admit no less: a repository that a list with patterns admits is
/// admitted by every list that holds those patterns, in any order and with
/// others between them. A list admits what its two parts admit together.
pub proof fn more_patterns_admit_more(
    few: Seq<Seq<char>>,
    many: Seq<Seq<char>>,
    owner: Seq<char>,
    repo: Seq<char>,
)
    ensures
        few.len() > 0 && admitted(few, owner, repo) && (forall|p: Seq<char>| #[trigger]
            few.contains(p) ==> many.contains(p)) ==> admitted(many, owner, repo),
        few.len() > 0 && many.len() > 0 ==> (admitted(few + many, owner, repo) <==> admitted(
            few,
            owner,
            repo,
        ) || admitted(many, owner, repo)),
        few.len() > 0 && many.len() > 0 ==> admitted(few + many, owner, repo) == admitted(
            many + few,
            owner,
            repo,
        ),
{
    let place = owner + "/"@ + repo;
    if few.len() > 0 && admitted(few, owner, repo) {
        let i = choose|i: int| 0 <= i < few.len() && glob(#[trigger] few[i], place);
        if forall|p: Seq<char>| #[trigger] few.contains(p) ==> many.contains(p) {
            assert(few.contains(few[i]));
            let j = choose|j: int| 0 <= j < many.len() && many[j] == few[i];
            assert(glob(many[j], place));
        }
        assert((few + many)[i] == few[i]);
        assert((many + few)[many.len() + i] == few[i]);
    }
    if many.len() > 0 && admitted(many, owner, repo) {
        let i = choose|i: int| 0 <= i < many.len() && glob(#[trigger] many[i], place);
        assert((few + many)[few.len() + i] == many[i]);
        assert((many + few)[i] == many[i]);
    }
    if few.len() > 0 && many.len() > 0 && admitted(few + many, owner, repo) {
        let i = choose|i: int|
            0 <= i < (few + many).len() && glob(#[trigger] (few + many)[i], place);
        if i < few.len() {
            assert(few[i] == (few + many)[i]);
        } else {
            assert(many[i - few.len()] == (few + many)[i]);
        }
    }
    if few.len() > 0 && many.len() > 0 && admitted(many + few, owner, repo) {
        let i = choose|i: int|
            0 <= i < (many + few).len() && glob(#[trigger] (many + few)[i], place);
        if i < many.len() {
            assert(many[i] == (many + few)[i]);
        } else {
            assert(few[i - many.len()] == (many + few)[i]);
        }
    }
}

/// A plugin is excluded exactly where its id is somewhere on the exclude list,
/// and an owner is trusted exactly where it is somewhere on the list of trusted
/// owners or that list is empty.
pub proof fn lists_hold_what_they_name(
    cfg: &Config,
    plugin_id: &str,
    excluded: bool,
    owner: &str,
    trusted: bool,
)
    requires
        call_ensures(Config::is_excluded, (cfg, plugin_id), excluded),
        call_ensures(Config::is_trusted, (cfg, owner), trusted),
    ensures
        excluded <==> exists|i: int|
            0 <= i < cfg.exclude@.len() && (#[trigger] cfg.exclude@[i])@ == plugin_id@,
        trusted <==> (cfg.trusted_owners@.len() == 0 || exists|i: int|
            0 <= i < cfg.trusted_owners@.len() && (#[trigger] cfg.trusted_owners@[i])@ == owner@),
{
    let ids = cfg.exclude.deep_view();
    let owners = cfg.trusted_owners.deep_view();
    if excluded {
        let i = choose|i: int| 0 <= i < ids.len() && ids[i] == plugin_id@;
        assert(cfg.exclude@[i]@ == plugin_id@);
    }
    assert forall|i: int| 0 <= i < cfg.exclude@.len() implies ids[i] == (
    #[trigger] cfg.exclude@[i])@ by {}
    if trusted && owners.len() > 0 {
        let i = choose|i: int| 0 <= i < owners.len() && owners[i] == owner@;
        assert(cfg.trusted_owners@[i]@ == owner@);
    }
    assert forall|i: int| 0 <= i < cfg.trusted_owners@.len() implies owners[i] == (
    #[trigger] cfg.trusted_owners@[i])@ by {}
}

/// Whether a value is given: it is there and holds more than white space.
pub open spec fn given(value: Option<String>) -> bool {
    value matches Some(v) && !text::all_white(v@)
}

/// The directory that the plugin's own variable names comes first, then the
/// `config` directory inside the plugin's root, then the one that herdr printed,
/// without the white space around it; a value that is blank is passed over. What
/// comes later is not looked at where something earlier is given.
pub proof fn directories_come_in_order(
    s: &Surroundings,
    env: Option<DataDir>,
    usual: Option<DataDir>,
)
    requires
        call_ensures(env_dir, (s,), env),
        call_ensures(config_dir, (None, s), usual),
    ensures
        given(s.config_dir_var) ==> env.deep_view() == Some(
            DataDirView::At(s.config_dir_var->0@),
        ),
        !given(s.config_dir_var) && given(s.root_var) ==> env.deep_view() == Some(
            DataDirView::ConfigUnder(s.root_var->0@),
        ),
        !given(s.config_dir_var) && !given(s.root_var) ==> env is None,
        env is Some ==> usual.deep_view() == env.deep_view(),
        env is None && given(s.herdr_config_dir) ==> usual.deep_view() == Some(
            DataDirView::At(text::trimmed(s.herdr_config_dir->0@)),
        ),
        env is None && !given(s.herdr_config_dir) ==> usual is None,
{
    if let Some(v) = s.config_dir_var {
        text::blank_is_all_white(v@);
    }
    if let Some(v) = s.root_var {
        text::blank_is_all_white(v@);
    }
    if let Some(v) = s.herdr_config_dir {
        text::blank_is_all_white(v@);
    }
}

/// A configuration file that the caller names is read, whatever the surroundings
/// say, and the plugin's files live beside it. Without one `config.toml` in the
/// usual directory is read, and where no directory is known, none.
pub proof fn a_named_file_comes_first(
    named: Option<&str>,
    s: &Surroundings,
    usual: Option<DataDir>,
    dir: Option<DataDir>,
    path: Option<ConfigPath>,
)
    requires
        call_ensures(config_dir, (None, s), usual),
        call_ensures(config_dir, (named, s), dir),
        call_ensures(config_path, (named, s), path),
    ensures
        named matches Some(p) ==> dir.deep_view() == Some(DataDirView::ParentOf(p@))
            && path.deep_view() == Some(ConfigPathView::Given(p@)),
        named is None ==> dir.deep_view() == usual.deep_view(),
        named is None && usual is None ==> path is None,
        named is None && usual is Some ==> path.deep_view() == Some(
            ConfigPathView::Usual(
                (FilePathView { dir: usual.deep_view()->0, name: "config.toml"@ }),
            ),
        ),
{
}

/// The plugin's own files live beside the configuration file that was read,
/// whatever the surroundings say, and in the usual directory where none was.
pub proof fn files_live_beside_what_was_read(
    cfg: &Config,
    s: &Surroundings,
    usual: Option<DataDir>,
    dir: Option<DataDir>,
)
    requires
        call_ensures(config_dir, (None, s), usual),
        call_ensures(Config::data_dir, (cfg, s), dir),
    ensures
        match cfg.config_path {
            Some(ConfigPath::Given(p)) => dir.deep_view() == Some(DataDirView::ParentOf(p@)),
            Some(ConfigPath::Usual(f)) => dir.deep_view() == Some(f.dir.deep_view()),
            None => dir.deep_view() == usual.deep_view(),
        },
{
}

/// A file that cannot be read or is no configuration is an error, wherever it
/// is, and nothing else is; the message names the file and the reason.
pub proof fn broken_files_are_errors(
    path: Option<ConfigPath>,
    shown: &str,
    read: ConfigRead,
    r: Result<Config, String>,
)
    requires
        call_ensures(load, (path, shown, read), r),
    ensures
        r is Err <==> path is Some && (read is Unreadable || read is Invalid),
        r is Err ==> (read matches ConfigRead::Unreadable(e) ==> r->Err_0@ == "cannot read config "@
            + (shown@ + ": "@ + e@)),
        r is Err ==> (read matches ConfigRead::Invalid(e) ==> r->Err_0@ == "invalid config "@ + (
        shown@ + ": "@ + e@)),
{
    if path is Some {
        match read {
            ConfigRead::Unreadable(e) => {
                assert(r->Err_0@ =~= "cannot read config "@ + (shown@ + ": "@ + e@));
            },
            ConfigRead::Invalid(e) => {
                assert(r->Err_0@ =~= "invalid config "@ + (shown@ + ": "@ + e@));
            },
            _ => {},
        }
    }
}

/// The directory that herdr printed is taken only from a herdr that ran and
/// succeeded, and herdr is asked for the directory of this plugin.
pub proof fn herdr_is_asked_for_the_directory(
    args: Vec<String>,
    run: Result<ToolOutput, String>,
    r: Option<String>,
)
    requires
        call_ensures(config_dir_args, (), args),
        call_ensures(printed_dir, (run,), r),
    ensures
        args@.len() == 3,
        args@[0]@ == "plugin"@ && args@[1]@ == "config-dir"@ && args@[2]@ == "herdr-auto-update"@,
        r is Some <==> run is Ok && run->Ok_0.ok,
        r matches Some(dir) ==> dir@ == registry::stdout_text(run->Ok_0.stdout@),
{
    let all = args.deep_view();
    assert(all.len() == args@.len());
    assert(all[0] == args@[0]@ && all[1] == args@[1]@ && all[2] == args@[2]@);
}

/// Each key that a file sets is taken as it is set, and each that it leaves out
/// has its default, whatever the other keys are. A policy that is left out only
/// notifies, and is known to be left out.
pub proof fn every_key_counts_for_itself(
    path: ConfigPath,
    shown: &str,
    f: ConfigFile,
    r: Result<Config, String>,
)
    requires
        call_ensures(load, (Some(path), shown, ConfigRead::Parsed(f)), r),
    ensures
        r is Ok,
        ({
            let c = r->Ok_0;
            &&& c.auto_update == or_else(f.auto_update, true)
            &&& c.notify == or_else(f.notify, true)
            &&& c.timeout_secs == or_else(f.timeout_secs, 20)
            &&& c.max_concurrency == or_else(f.max_concurrency, 8)
            &&& c.require_fast_forward == or_else(f.require_fast_forward, true)
            &&& c.allow_force_push == or_else(f.allow_force_push, false)
            &&& c.immutable_pins == or_else(f.immutable_pins, true)
            &&& c.policy == or_else(f.policy, Policy::Notify)
            &&& c.policy_explicit <==> f.policy is Some
            &&& f.exclude is None ==> c.exclude@.len() == 0
            &&& f.exclude matches Some(l) ==> c.exclude.deep_view() == l.deep_view()
            &&& f.allow is None ==> c.allow@.len() == 0
            &&& f.allow matches Some(l) ==> c.allow.deep_view() == l.deep_view()
            &&& f.trusted_owners is None ==> c.trusted_owners@.len() == 0
            &&& f.trusted_owners matches Some(l) ==> c.trusted_owners.deep_view() == l.deep_view()
            &&& c.config_path.deep_view() == Some(path.deep_view())
        }),
{
    let c = r->Ok_0;
    assert(c.exclude.deep_view().len() == c.exclude@.len());
    assert(c.allow.deep_view().len() == c.allow@.len());
    assert(c.trusted_owners.deep_view().len() == c.trusted_owners@.len());
}

/// A value that is there is taken, and the usual one only where there is none.
pub proof fn what_is_set_is_taken<T>(v: T, usual: T)
    ensures
        or_else(Some(v), usual) == v,
        or_else(None, usual) == usual,
{
}

/// Without a file every key has its default. Only a file that the caller named
/// and that is missing leaves the policy at installing; else it only notifies.
pub proof fn without_a_file_there_are_defaults(
    path: Option<ConfigPath>,
    shown: &str,
    read: ConfigRead,
    r: Result<Config, String>,
)
    requires
        call_ensures(load, (path, shown, read), r),
        path is None || read is Missing,
    ensures
        r is Ok,
        ({
            let c = r->Ok_0;
            &&& c.auto_update && c.notify && c.require_fast_forward && c.immutable_pins
            &&& !c.allow_force_push && !c.policy_explicit
            &&& c.timeout_secs == 20 && c.max_concurrency == 8
            &&& c.exclude@.len() == 0 && c.allow@.len() == 0 && c.trusted_owners@.len() == 0
            &&& c.config_path is None
            &&& c.policy == Policy::Auto <==> path is Some && path->0 is Given
            &&& c.policy == Policy::Notify <==> !(path is Some && path->0 is Given)
        }),
{
    let c = r->Ok_0;
    assert(c.exclude.deep_view().len() == c.exclude@.len());
    assert(c.allow.deep_view().len() == c.allow@.len());
    assert(c.trusted_owners.deep_view().len() == c.trusted_owners@.len());
}

/// The values of a configuration are what it holds.
pub proof fn configurations_are_seen_whole(c: Config)
    ensures
        c.deep_view().auto_update == c.auto_update,
        c.deep_view().notify == c.notify,
        c.deep_view().exclude == c.exclude.deep_view(),
        c.deep_view().timeout_secs == c.timeout_secs,
        c.deep_view().max_concurrency == c.max_concurrency,
        c.deep_view().policy == c.policy,
        c.deep_view().policy_explicit == c.policy_explicit,
        c.deep_view().allow == c.allow.deep_view(),
        c.deep_view().require_fast_forward == c.require_fast_forward,
        c.deep_view().allow_force_push == c.allow_force_push,
        c.deep_view().trusted_owners == c.trusted_owners.deep_view(),
        c.deep_view().immutable_pins == c.immutable_pins,
        c.deep_view().config_path == c.config_path.deep_view(),
{
}

} // verus!
