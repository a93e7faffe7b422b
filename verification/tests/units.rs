use herdr_auto_update::apply;
use herdr_auto_update::apply::{Event, Mode, Outcome, Saved, Work};
use herdr_auto_update::calendar;
use herdr_auto_update::cli;
use herdr_auto_update::collect;
use herdr_auto_update::collect::Slot;
use herdr_auto_update::compare;
use herdr_auto_update::compare::{Cache, CacheEntry, ClassifyStep, CompareStatus};
use herdr_auto_update::config;
use herdr_auto_update::config::{
    glob_match, Config, ConfigFile, ConfigPath, ConfigRead, DataDir, Policy, Surroundings,
};
use herdr_auto_update::install;
use herdr_auto_update::install::InstallRun;
use herdr_auto_update::plan;
use herdr_auto_update::progress;
use herdr_auto_update::progress::Progress;
use herdr_auto_update::registry;
use herdr_auto_update::registry::{decode_stdout, valid_github_name, Plugin, Source};
use herdr_auto_update::remote;
use herdr_auto_update::remote::{JobEvent, JobResult, JobWork, RemoteJob};
use herdr_auto_update::report::Line;
use herdr_auto_update::rollback;
use herdr_auto_update::rollback::Ended;
use herdr_auto_update::run;
use herdr_auto_update::state;
use herdr_auto_update::state::{format_epoch, rfc3339_now, State, StateEntry, WriteRun};
use herdr_auto_update::summary;
use herdr_auto_update::summary::Settled;
use herdr_auto_update::text;
use herdr_auto_update::tool;
use herdr_auto_update::tool::{Poll, ToolOutput, Wait};
use herdr_auto_update::updater;
use herdr_auto_update::updater::{Action, PlanEntry, PluginStatus, RefKind, Status};

fn sha(c: char) -> String {
    c.to_string().repeat(40)
}

fn around(config_dir: Option<&str>, root: Option<&str>, herdr: Option<&str>) -> Surroundings {
    Surroundings {
        config_dir_var: config_dir.map(|s| s.to_string()),
        root_var: root.map(|s| s.to_string()),
        herdr_config_dir: herdr.map(|s| s.to_string()),
    }
}

fn empty_file() -> ConfigFile {
    ConfigFile {
        auto_update: None,
        notify: None,
        exclude: None,
        timeout_secs: None,
        max_concurrency: None,
        policy: None,
        allow: None,
        require_fast_forward: None,
        allow_force_push: None,
        trusted_owners: None,
        immutable_pins: None,
    }
}

fn said(lines: &[Line]) -> Vec<String> {
    lines
        .iter()
        .map(|l| match l {
            Line::Say(s) => format!("out:{s}"),
            Line::Note(s) => format!("err:{s}"),
        })
        .collect()
}

fn github(id: &str, owner: &str, repo: &str, commit: &str, wanted: Option<&str>) -> Plugin {
    Plugin {
        plugin_id: id.to_string(),
        version: None,
        source: Some(Source {
            kind: "github".to_string(),
            owner: Some(owner.to_string()),
            repo: Some(repo.to_string()),
            requested_ref: wanted.map(|r| r.to_string()),
            resolved_commit: Some(commit.to_string()),
        }),
    }
}

fn status(s: Status) -> PluginStatus {
    PluginStatus {
        plugin_id: "p".to_string(),
        owner: "o".to_string(),
        repo: "r".to_string(),
        version: Some("1.0".to_string()),
        installed_sha: sha('a'),
        remote_sha: Some(sha('b')),
        remote_version: None,
        update_available: s == Status::Behind,
        status: s,
        ref_kind: RefKind::Branch,
        requested_ref: None,
        error: None,
        note: None,
    }
}

fn planned(action: Action, s: Status, kind: RefKind, reason: Option<&str>) -> PlanEntry {
    PlanEntry {
        plugin_id: "p".to_string(),
        owner: "o".to_string(),
        repo: "r".to_string(),
        installed_sha: sha('a'),
        version: None,
        remote_sha: Some(sha('b')),
        remote_version: Some("2.0".to_string()),
        status: s,
        ref_kind: kind,
        policy: Policy::Auto,
        action,
        requested_ref: None,
        reason: reason.map(|r| r.to_string()),
    }
}

fn quiet() -> Mode {
    Mode {
        json: false,
        stdin_terminal: false,
        stdout_terminal: false,
    }
}

fn output(ok: bool, stdout: &[u8], stderr: &[u8]) -> ToolOutput {
    ToolOutput {
        ok,
        status: if ok { "exit status: 0".to_string() } else { "exit status: 22".to_string() },
        stdout: stdout.to_vec(),
        stderr: stderr.to_vec(),
    }
}

fn job(wanted: Option<&str>) -> RemoteJob {
    RemoteJob {
        plugin_id: "p".to_string(),
        owner: "o".to_string(),
        repo: "r".to_string(),
        version: None,
        installed_sha: sha('a'),
        requested_ref: wanted.map(|r| r.to_string()),
    }
}

fn nothing_cached() -> Cache {
    Cache::default()
}

// Configuration.

#[test]
fn glob_matches() {
    assert!(glob_match("ragamo/*", "ragamo/herdr-flock"));
    assert!(glob_match("*/herdr-flock", "ragamo/herdr-flock"));
    assert!(glob_match("*", "a/b"));
    assert!(glob_match("a?c/x", "abc/x"));
    assert!(!glob_match("ragamo/*", "dio16/herdr-flock"));
    assert!(!glob_match("a?c", "a/c"));
}

#[test]
fn glob_edges() {
    assert!(glob_match("", ""));
    assert!(!glob_match("", "a"));
    assert!(glob_match("*", ""));
    assert!(glob_match("**a", "aaa"));
    assert!(glob_match("a*b*c", "axxbyybzc"));
    assert!(!glob_match("a*b*c", "axxbyybz"));
    assert!(!glob_match("abc", "abcd"));
    // A star in the text is a character like any other.
    assert!(glob_match("*b", "*ab"));
    assert!(glob_match("*", "*x"));
    assert!(glob_match("日?語", "日本語"));
}

#[test]
fn allow_empty_admits_all() {
    let cfg = Config::default();
    assert!(cfg.is_allowed("any", "thing"));
}

#[test]
fn defaults_when_no_file() {
    let path = config::config_path(
        Some("Z:/definitely/not/here/config.toml"),
        &around(None, None, None),
    );
    let cfg = config::load(path, "Z:/definitely/not/here/config.toml", ConfigRead::Missing).unwrap();
    assert!(cfg.auto_update);
    assert!(cfg.notify);
    assert!(cfg.exclude.is_empty());
    assert_eq!(cfg.timeout_secs, 20);
    assert_eq!(cfg.max_concurrency, 8);
    assert_eq!(cfg.policy, Policy::Auto);
    assert!(cfg.allow.is_empty());
    assert!(cfg.require_fast_forward);
    assert!(!cfg.allow_force_push);
}

#[test]
fn file_settings_override_defaults() {
    let mut file = empty_file();
    file.auto_update = Some(false);
    file.notify = Some(false);
    file.exclude = Some(vec!["flock.farm".to_string(), "wave-tui.radio".to_string()]);
    file.timeout_secs = Some(5);
    file.max_concurrency = Some(2);
    file.policy = Some(Policy::PinnedOnly);
    file.allow = Some(vec!["ragamo/*".to_string()]);
    file.require_fast_forward = Some(false);
    file.allow_force_push = Some(true);
    let path = config::config_path(Some("dir/config.toml"), &around(None, None, None));
    let cfg = config::load(path, "dir/config.toml", ConfigRead::Parsed(file)).unwrap();
    assert!(!cfg.auto_update);
    assert!(!cfg.notify);
    assert_eq!(cfg.exclude, vec!["flock.farm", "wave-tui.radio"]);
    assert!(cfg.is_excluded("flock.farm"));
    assert!(!cfg.is_excluded("other"));
    assert_eq!(cfg.timeout_secs, 5);
    assert_eq!(cfg.max_concurrency, 2);
    assert_eq!(cfg.policy, Policy::PinnedOnly);
    assert!(cfg.policy_explicit);
    assert!(cfg.is_allowed("ragamo", "herdr-flock"));
    assert!(!cfg.is_allowed("dio16", "herdr-flock"));
    assert!(!cfg.require_fast_forward);
    assert!(cfg.allow_force_push);
    assert!(cfg.immutable_pins);
    assert!(matches!(cfg.data_dir(&around(None, None, None)), Some(DataDir::ParentOf(p)) if p == "dir/config.toml"));
}

#[test]
fn policy_left_out_is_notify() {
    let place = config::config_path(Some("c"), &around(None, None, None));
    let cfg = config::load(place, "c", ConfigRead::Parsed(empty_file())).unwrap();
    assert_eq!(cfg.policy, Policy::Notify);
    assert!(!cfg.policy_explicit);
    let nowhere = config::load(None, "", ConfigRead::Missing).unwrap();
    assert_eq!(nowhere.policy, Policy::Notify);
    let usual = config::config_path(None, &around(Some("d"), None, None));
    let cfg = config::load(usual, "d/config.toml", ConfigRead::Missing).unwrap();
    assert_eq!(cfg.policy, Policy::Notify);
}

#[test]
fn broken_config_is_fatal() {
    let place = || config::config_path(Some("c.toml"), &around(None, None, None));
    let e = config::load(place(), "c.toml", ConfigRead::Invalid("bad".to_string())).unwrap_err();
    assert_eq!(e, "invalid config c.toml: bad");
    let e = config::load(place(), "c.toml", ConfigRead::Unreadable("denied".to_string())).unwrap_err();
    assert_eq!(e, "cannot read config c.toml: denied");
}

#[test]
fn directory_is_looked_for_in_order() {
    assert!(matches!(
        config::config_dir(Some("x/config.toml"), &around(Some("d"), Some("r"), Some("h"))),
        Some(DataDir::ParentOf(p)) if p == "x/config.toml"
    ));
    assert!(matches!(
        config::config_dir(None, &around(Some("d"), Some("r"), Some("h"))),
        Some(DataDir::At(d)) if d == "d"
    ));
    assert!(matches!(
        config::config_dir(None, &around(Some("  "), Some("r"), Some("h"))),
        Some(DataDir::ConfigUnder(r)) if r == "r"
    ));
    assert!(matches!(
        config::config_dir(None, &around(None, Some(""), Some(" h \n"))),
        Some(DataDir::At(h)) if h == "h"
    ));
    assert!(config::config_dir(None, &around(None, None, None)).is_none());
    assert!(config::env_dir(&around(None, None, Some("h"))).is_none());
    assert!(config::config_path(None, &around(None, None, None)).is_none());
    match config::config_path(None, &around(None, Some("r"), None)) {
        Some(ConfigPath::Usual(f)) => assert_eq!(f.name, "config.toml"),
        other => panic!("{other:?}"),
    }
    assert_eq!(config::config_dir_args(), vec!["plugin", "config-dir", "herdr-auto-update"]);
    assert_eq!(config::printed_dir(Ok(output(true, b"/x\n", b""))), Some("/x\n".to_string()));
    assert_eq!(config::printed_dir(Ok(output(false, b"/x\n", b""))), None);
    assert_eq!(config::printed_dir(Err("gone".to_string())), None);
}

// Registry.

#[test]
fn valid_names_accepted() {
    for name in [
        "ragamo",
        "herdr-flock",
        "herdr-file-viewer",
        "a.b_c-d",
        "A1",
    ] {
        assert!(valid_github_name(name, 100), "should accept {name:?}");
    }
}

#[test]
fn invalid_names_rejected() {
    for name in [
        "",
        "bad;rm -rf",
        "a/b",
        "x y",
        "evil$IFS",
        "..",
        "a\nb",
        "a@b",
    ] {
        assert!(!valid_github_name(name, 100), "should reject {name:?}");
    }
}

#[test]
fn length_bounded() {
    assert!(valid_github_name("a", 1));
    assert!(!valid_github_name("ab", 1));
    assert!(registry::valid_github_repo(&"o".repeat(39), &"r".repeat(100)));
    assert!(!registry::valid_github_repo(&"o".repeat(40), "r"));
    assert!(!registry::valid_github_repo("o", &"r".repeat(101)));
    assert!(!valid_github_name(".", 9));
    assert!(valid_github_name("...", 9));
    assert!(!valid_github_name("日本", 9));
}

#[test]
fn decodes_utf8() {
    assert_eq!(decode_stdout(b"{\"a\":1}"), "{\"a\":1}");
    assert_eq!(decode_stdout("日本語".as_bytes()), "日本語");
}

#[test]
fn decodes_utf16le_with_bom() {
    let mut bytes = vec![0xFF, 0xFE];
    for u in "{\"x\":\"日本\"}".encode_utf16() {
        bytes.extend_from_slice(&u.to_le_bytes());
    }
    assert_eq!(decode_stdout(&bytes), "{\"x\":\"日本\"}");
}

#[test]
fn decodes_what_is_broken() {
    assert_eq!(decode_stdout(&[0x61, 0xff, 0x62]), "a\u{fffd}b");
    assert_eq!(decode_stdout(&[]), "");
    assert_eq!(decode_stdout(&[0xff]), "\u{fffd}");
    // An odd byte at the end is dropped.
    assert_eq!(decode_stdout(&[0xff, 0xfe, 0x61, 0x00, 0x62]), "a");
    // A high surrogate without a low one, and a pair.
    assert_eq!(decode_stdout(&[0xff, 0xfe, 0x00, 0xd8, 0x61, 0x00]), "\u{fffd}a");
    assert_eq!(decode_stdout(&[0xff, 0xfe, 0x00, 0xd8, 0x00, 0xd8]), "\u{fffd}\u{fffd}");
    assert_eq!(decode_stdout(&[0xff, 0xfe, 0x00, 0xdc]), "\u{fffd}");
    assert_eq!(decode_stdout(&[0xff, 0xfe, 0x3d, 0xd8, 0x00, 0xde]), "\u{1f600}");
}

#[test]
fn registry_lookups() {
    let plugins = vec![
        github("a", "o", "r", "c1", None),
        github("a", "other", "other", "c2", None),
        github("bad", "o;", "r", "c3", None),
        Plugin { plugin_id: "bare".to_string(), version: None, source: None },
    ];
    assert_eq!(registry::owner_repo_of(&plugins, "a"), Some(("o".to_string(), "r".to_string())));
    assert_eq!(registry::owner_repo_of(&plugins, "bad"), None);
    assert_eq!(registry::owner_repo_of(&plugins, "bare"), None);
    assert_eq!(registry::owner_repo_of(&plugins, "nope"), None);
    assert_eq!(registry::resolved_commit_of(&plugins, "a"), Some("c1".to_string()));
    assert_eq!(registry::resolved_commit_of(&plugins, "bare"), None);
    assert!(registry::verify_installed(&plugins, "a", "c1"));
    assert!(!registry::verify_installed(&plugins, "a", "c2"));
    assert!(!registry::verify_installed(&plugins, "nope", "c1"));
    assert!(registry::find_plugin(&plugins, "bare").is_some());
}

#[test]
fn listing_errors_in_words() {
    assert_eq!(registry::list_args(), vec!["plugin", "list", "--json"]);
    assert_eq!(
        registry::list_output("herdr", Ok(output(false, b"", b" boom \n"))),
        Err("'herdr plugin list --json' exited with exit status: 22: boom".to_string())
    );
    assert_eq!(
        registry::list_output("herdr", Err("no".to_string())),
        Err("cannot run 'herdr plugin list --json': no".to_string())
    );
    assert_eq!(registry::list_output("herdr", Ok(output(true, b"[]", b""))), Ok("[]".to_string()));
    assert_eq!(
        registry::list_parse_error("herdr", "eof"),
        "cannot parse 'herdr plugin list --json' output: eof"
    );
}

// The trail.

#[test]
fn rfc3339_known_epochs() {
    assert_eq!(rfc3339_now().len(), 20);
    // 1700000000 = 2023-11-14T22:13:20Z (known constant).
    assert_eq!(format_epoch(1_700_000_000), "2023-11-14T22:13:20Z");
    assert_eq!(format_epoch(0), "1970-01-01T00:00:00Z");
    assert_eq!(format_epoch(86_400), "1970-01-02T00:00:00Z");
    // 1664455200 = 2022-09-29T12:40:00Z (verified via epoch arithmetic:
    // 19264 days after 1970-01-01 = 2022-09-29, remainder 45600s).
    assert_eq!(format_epoch(1_664_455_200), "2022-09-29T12:40:00Z");
}

#[test]
fn calendar_edges() {
    assert_eq!(format_epoch(951_782_400), "2000-02-29T00:00:00Z");
    assert_eq!(format_epoch(951_868_799), "2000-02-29T23:59:59Z");
    assert_eq!(format_epoch(4_107_542_400), "2100-03-01T00:00:00Z");
    assert_eq!(format_epoch(253_402_300_799), "9999-12-31T23:59:59Z");
    assert_eq!(format_epoch(253_402_300_800), "10000-01-01T00:00:00Z");
    assert_eq!(calendar::civil_from_days(0), (1970, 1, 1));
    assert_eq!(calendar::civil_from_days(364), (1970, 12, 31));
    assert_eq!(calendar::civil_from_days(19_264), (2022, 9, 29));
    assert_eq!(state::format_clock(Some(86_400)), "1970-01-02T00:00:00Z");
    assert_eq!(state::format_clock(None), "1970-01-01T00:00:00Z");
    // The clock is past 2020 and what it shows sorts behind that.
    assert!(rfc3339_now() > "2020-01-01T00:00:00Z".to_string());
}

fn recorded(id: &str, previous: char, current: char, result: &str) -> StateEntry {
    StateEntry {
        plugin_id: id.to_string(),
        previous_sha: sha(previous),
        current_sha: sha(current),
        requested_ref: None,
        updated_at: "t".to_string(),
        result: result.to_string(),
    }
}

#[test]
fn latest_entry_wins() {
    let mut s = State::default();
    assert_eq!(s.version, 0);
    s.append(recorded("p1", 'a', 'b', "updated"));
    s.append(recorded("p2", 'x', 'y', "updated"));
    s.append(recorded("p1", 'b', 'c', "updated"));
    assert_eq!(s.version, 1);
    assert_eq!(s.entries.len(), 3);
    assert_eq!(s.latest_for("p1").unwrap().previous_sha, sha('b'));
    assert!(s.latest_for("nope").is_none());
    let newest: Vec<String> = s.newest_entries("updated").into_iter().map(|e| e.plugin_id).collect();
    assert_eq!(newest, vec!["p1", "p2"]);
    s.append(recorded("p2", 'y', 'x', "rolled_back"));
    let newest: Vec<String> = s.newest_entries("updated").into_iter().map(|e| e.plugin_id).collect();
    assert_eq!(newest, vec!["p1"]);
    assert_eq!(s.newest_entries("rolled_back").len(), 1);
    assert_eq!(state::STATE_FILE, "state.json");
}

#[test]
fn missing_or_broken_files_are_empty() {
    assert!(State::load(None).entries.is_empty());
    let mut s = State::default();
    s.append(recorded("p", 'a', 'b', "updated"));
    assert_eq!(State::load(Some(s)).entries.len(), 1);
    assert_eq!(compare::load_cache(None).entries.len(), 0);
    let one = Cache { version: 1, entries: vec![verdict(CompareStatus::Ahead)] };
    assert_eq!(compare::load_cache(Some(one)).entries.len(), 1);
}

#[test]
fn trail_errors_in_words() {
    assert_eq!(State::save(&WriteRun::Written), Ok(()));
    assert_eq!(
        State::save(&WriteRun::NotSerialized("x".to_string())),
        Err("cannot serialize state: x".to_string())
    );
    assert_eq!(
        State::save(&WriteRun::NotWritten("x".to_string())),
        Err("cannot write state.json: x".to_string())
    );
}

// Comparing commits.

fn verdict(status: CompareStatus) -> CacheEntry {
    CacheEntry {
        owner: "ragamo".into(),
        repo: "herdr-flock".into(),
        installed_sha: sha('a'),
        remote_sha: sha('b'),
        status,
        at: "x".into(),
    }
}

#[test]
fn classify_hits_cache_without_network() {
    let cache = Cache {
        version: 1,
        entries: vec![verdict(CompareStatus::Behind)],
    };
    let got = compare::classify(
        "ragamo",
        "herdr-flock",
        &"a".repeat(40),
        &"b".repeat(40),
        5,
        &cache,
    );
    match got {
        ClassifyStep::Known(s) => assert_eq!(s, CompareStatus::Behind),
        ClassifyStep::Ask(args) => panic!("asked with {args:?}"),
    }
}

#[test]
fn classify_asks_about_unknown_commits() {
    let cache = Cache {
        version: 1,
        entries: vec![verdict(CompareStatus::Behind)],
    };
    match compare::classify("ragamo", "herdr-flock", "a", "b", 20, &cache) {
        ClassifyStep::Ask(args) => assert_eq!(
            args,
            vec![
                "-fsS",
                "--max-time",
                "20",
                "https://api.github.com/repos/ragamo/herdr-flock/compare/a...b",
            ]
        ),
        other => panic!("{other:?}"),
    }
}

#[test]
fn same_commits_are_cached_once() {
    let cache = compare::merge_cache(Cache::default(), vec![verdict(CompareStatus::Ahead)]);
    assert_eq!(cache.version, 1);
    let mut other = verdict(CompareStatus::Ahead);
    other.remote_sha = sha('c');
    let cache = compare::merge_cache(cache, vec![other, verdict(CompareStatus::Diverged)]);
    assert_eq!(cache.entries.len(), 2, "same tuple must dedupe");
    assert_eq!(
        cache.lookup("ragamo", "herdr-flock", &sha('a'), &sha('b')),
        Some(CompareStatus::Diverged)
    );
    assert_eq!(
        cache.lookup("ragamo", "herdr-flock", &sha('a'), &sha('c')),
        Some(CompareStatus::Ahead)
    );
    assert_eq!(cache.lookup("ragamo", "herdr-flock", &sha('b'), &sha('a')), None);
    let file = compare::cache_path(&DataDir::At("d".to_string()));
    assert_eq!(file.name, "compare-cache.json");
}

#[test]
fn compare_errors_in_words() {
    assert_eq!(
        compare::compare_error("The requested URL returned error: 403", "x", 5),
        "compare API: rate limit exceeded (cache hit next run)"
    );
    assert_eq!(
        compare::compare_error("HTTP 429", "x", 5),
        "compare API: rate limit exceeded (cache hit next run)"
    );
    assert_eq!(
        compare::compare_error("API rate limit exceeded", "x", 5),
        "compare API: rate limit exceeded (cache hit next run)"
    );
    assert_eq!(
        compare::compare_error("Operation timed out after 5001 ms", "x", 5),
        "compare API: request timed out after 5s"
    );
    assert_eq!(
        compare::compare_error("  \n", "exit status: 1", 5),
        "compare API: request failed (HTTP exit status: 1)"
    );
    assert_eq!(
        compare::compare_error(" no route \n", "x", 5),
        "compare API: request failed: no route"
    );
    assert_eq!(
        compare::compare_reply(Err("curl timed out after 5s".to_string()), 5),
        Err("compare API: curl timed out after 5s".to_string())
    );
    assert_eq!(
        compare::compare_reply(Ok(output(false, b"", b"error: 403")), 5),
        Err("compare API: rate limit exceeded (cache hit next run)".to_string())
    );
    assert_eq!(compare::compare_reply(Ok(output(true, b"{}", b"")), 5), Ok(b"{}".to_vec()));
}

#[test]
fn compare_replies() {
    let verdict = |s: &str| compare::compare_verdict(Ok(s.to_string()));
    assert_eq!(verdict("identical"), Ok(CompareStatus::Identical));
    assert_eq!(verdict("ahead"), Ok(CompareStatus::Ahead));
    assert_eq!(verdict("behind"), Ok(CompareStatus::Behind));
    assert_eq!(verdict("diverged"), Ok(CompareStatus::Diverged));
    assert_eq!(verdict("odd"), Err("compare API: unexpected status 'odd'".to_string()));
    assert_eq!(
        compare::compare_verdict(Err("eof".to_string())),
        Err("compare API: cannot parse response: eof".to_string())
    );
}

// Upstream.

#[test]
fn head_is_the_first_word() {
    let commit = sha('a');
    assert_eq!(remote::find_head(&format!("{commit}\tHEAD\n")), Some(commit.clone()));
    assert_eq!(remote::find_head(&format!("  {commit} x\r\nother\n")), Some(commit.clone()));
    assert_eq!(remote::find_head(&format!("\n{commit} HEAD\n")), None);
    assert_eq!(remote::find_head("abc HEAD\n"), None);
    assert_eq!(remote::find_head(&sha('g')), None);
    assert_eq!(remote::find_head(""), None);
    assert_eq!(remote::remote_head(Ok(output(true, commit.as_bytes(), b""))), Ok(Some(commit.clone())));
    assert_eq!(remote::remote_head(Ok(output(false, commit.as_bytes(), b""))), Ok(None));
    assert_eq!(remote::remote_head(Err("no git".to_string())), Err("no git".to_string()));
}

#[test]
fn tag_is_the_first_real_one() {
    assert_eq!(
        remote::find_tag("1 refs/tags/v2.0^{}\n2 refs/tags/v2.0\n3 refs/tags/v1.0\n"),
        Some("v2.0".to_string())
    );
    assert_eq!(remote::find_tag("1\n2 refs/heads/main\n3 refs/tags/\n4\trefs/tags/x"), Some("x".to_string()));
    assert_eq!(remote::find_tag("1 refs/tags/a/b\r\n"), Some("a/b".to_string()));
    assert_eq!(remote::find_tag(""), None);
    assert_eq!(remote::find_tag("\n\n"), None);
    assert_eq!(remote::remote_version(Ok(output(true, b"1 refs/tags/t\n", b""))), Some("t".to_string()));
    assert_eq!(remote::remote_version(Ok(output(false, b"1 refs/tags/t\n", b""))), None);
    assert_eq!(remote::remote_version(Err("x".to_string())), None);
}

fn head_question(job: &RemoteJob) -> Vec<String> {
    match remote::begin(job) {
        JobWork::AskHead { args } => args,
        other => panic!("{other:?}"),
    }
}

#[test]
fn checks_ask_one_thing_after_the_other() {
    let j = job(None);
    let ask = |work: JobWork, event: JobEvent| remote::follow(&j, work, event, 5, &nothing_cached(), "now");
    let ran = |text: &str| JobEvent::Ran(Ok(output(true, text.as_bytes(), b"")));
    let work = ask(remote::begin(&j), ran(&format!("{} HEAD\n", sha('b'))));
    assert!(matches!(&work, JobWork::AskTags { remote, .. } if *remote == sha('b')));
    let work = ask(work, ran("1 refs/tags/v9\n"));
    assert!(matches!(&work, JobWork::AskApi { version: Some(v), .. } if v == "v9"));
    // What does not belong to a work changes nothing.
    let work = ask(work, ran(""));
    let r = done(ask(work, JobEvent::Compared(Ok(CompareStatus::Ahead))));
    assert_eq!(r.status, Status::Behind);
    assert_eq!(r.remote_version.as_deref(), Some("v9"));
}

#[test]
fn git_is_asked_for_the_requested_ref() {
    let pre = ["-c", "http.lowSpeedLimit=1", "-c", "http.lowSpeedTime=15", "ls-remote"];
    let mut want: Vec<&str> = pre.to_vec();
    want.extend(["https://github.com/o/r", "HEAD"]);
    assert_eq!(head_question(&job(None)), want);
    let mut want: Vec<&str> = pre.to_vec();
    want.extend(["https://github.com/o/r", "refs/heads/x"]);
    assert_eq!(head_question(&job(Some("refs/heads/x"))), want);
    match remote::head_known(&job(None), Ok(Some(sha('b'))), 5, &nothing_cached(), "now") {
        JobWork::AskTags { remote, args } => {
            assert_eq!(remote, sha('b'));
            let mut want: Vec<&str> = pre.to_vec();
            want.extend(["--tags", "--sort=-v:refname", "https://github.com/o/r"]);
            assert_eq!(args, want);
        }
        other => panic!("{other:?}"),
    }
}

fn done(work: JobWork) -> JobResult {
    match work {
        JobWork::Done(r) => r,
        other => panic!("{other:?}"),
    }
}

#[test]
fn unmoved_plugins_ask_no_further() {
    let r = done(remote::head_known(&job(None), Ok(Some(sha('a'))), 5, &nothing_cached(), "now"));
    assert_eq!(r.status, Status::Same);
    assert_eq!(r.remote_sha, Some(sha('a')));
    let r = done(remote::head_known(&job(None), Ok(None), 5, &nothing_cached(), "now"));
    assert_eq!(r.status, Status::Unknown);
    assert_eq!(
        r.error.as_deref(),
        Some("cannot resolve remote HEAD (repo moved or deleted?)")
    );
    let r = done(remote::head_known(&job(None), Err("git timed out after 5s".to_string()), 5, &nothing_cached(), "now"));
    assert_eq!(r.error.as_deref(), Some("git timed out after 5s"));
    assert_eq!(r.remote_sha, None);
}

#[test]
fn pinned_tags_name_themselves() {
    match remote::head_known(&job(Some("refs/tags/v3")), Ok(Some(sha('b'))), 5, &nothing_cached(), "now") {
        JobWork::AskApi { remote, version, args } => {
            assert_eq!(remote, sha('b'));
            assert_eq!(version.as_deref(), Some("v3"));
            assert_eq!(args[2], "5");
        }
        other => panic!("{other:?}"),
    }
}

#[test]
fn verdicts_are_seen_from_here() {
    let ask = |v: Result<CompareStatus, String>| {
        remote::api_answered(&job(None), sha('b'), Some("v2".to_string()), v, "now")
    };
    let r = ask(Ok(CompareStatus::Identical));
    assert_eq!((r.status, r.remote_version, r.cache_entries.len()), (Status::Same, None, 0));
    let r = ask(Ok(CompareStatus::Ahead));
    assert_eq!((r.status, r.remote_version.as_deref()), (Status::Behind, Some("v2")));
    assert_eq!(r.cache_entries[0].status, CompareStatus::Ahead);
    assert_eq!(r.cache_entries[0].at, "now");
    assert_eq!(ask(Ok(CompareStatus::Behind)).status, Status::Ahead);
    assert_eq!(ask(Ok(CompareStatus::Diverged)).status, Status::Diverged);
    let r = ask(Err("rate".to_string()));
    assert_eq!((r.status, r.error.as_deref(), r.cache_entries.len()), (Status::Unknown, Some("rate"), 0));
    assert_eq!(r.remote_sha, Some(sha('b')));
    assert_eq!(r.remote_version, None);
}

// Sorting plugins.

#[test]
fn plugins_find_their_places() {
    let plugins = vec![
        github("branch", "o", "r", &sha('a'), None),
        github("pin", "o", "r", &sha('a'), Some(&sha('a'))),
        github("bad", "o o", "r", &sha('a'), None),
        Plugin { plugin_id: "bare".to_string(), version: None, source: None },
    ];
    let slots = collect::survey(&plugins, None, None).unwrap();
    assert!(matches!(&slots[0], Slot::Pending(j) if j.plugin_id == "branch"));
    match &slots[1] {
        Slot::Settled(s) => {
            assert_eq!(s.status, Status::Same);
            assert!(s.note.as_ref().unwrap().starts_with("pinned to a commit; not auto-updated"));
            assert_eq!(s.remote_sha, Some(sha('a')));
        }
        other => panic!("{other:?}"),
    }
    match &slots[2] {
        Slot::Settled(s) => assert_eq!(
            s.error.as_deref(),
            Some("invalid owner/repo recorded in registry")
        ),
        other => panic!("{other:?}"),
    }
    assert!(matches!(&slots[3], Slot::Skipped));
    assert_eq!(collect::pending_slots(&slots), vec![0]);
    assert!(collect::job_at(&slots, 0).is_some());
    assert!(collect::job_at(&slots, 1).is_none());
    assert!(collect::job_at(&slots, 9).is_none());

    let mut trail = State::default();
    trail.append(recorded("pin", 'b', 'a', "rolled_back"));
    let slots = collect::survey(&plugins, Some(&trail), Some("pin")).unwrap();
    assert!(matches!(&slots[0], Slot::Skipped));
    match &slots[1] {
        Slot::Settled(s) => assert_eq!(
            s.note.as_deref(),
            Some("pinned by rollback; run `resume` to rejoin the tracking ref")
        ),
        other => panic!("{other:?}"),
    }
    assert_eq!(
        collect::survey(&plugins, None, Some("bare")).unwrap_err(),
        "plugin 'bare' is not a GitHub-installed plugin"
    );
    assert_eq!(
        collect::survey(&plugins, None, Some("x")).unwrap_err(),
        "plugin 'x' not found in the herdr registry"
    );
}

#[test]
fn answers_may_come_in_any_order() {
    let plugins = vec![
        github("one", "o", "r", &sha('a'), None),
        github("two", "o", "r", &sha('a'), None),
    ];
    let result = |c: char| JobResult {
        remote_sha: Some(sha(c)),
        status: Status::Behind,
        error: None,
        remote_version: None,
        cache_entries: Vec::new(),
    };
    let run = |order: [usize; 2]| {
        let mut slots = collect::survey(&plugins, None, None).unwrap();
        let (mut panel, _) = collect::open_panel(&slots, false, false);
        for i in order {
            let c = if i == 0 { 'b' } else { 'c' };
            collect::settle(&mut slots, i, &result(c), &mut panel);
        }
        // A second answer changes nothing.
        collect::settle(&mut slots, 0, &result('d'), &mut panel);
        collect::statuses(slots)
            .into_iter()
            .map(|s| (s.plugin_id, s.remote_sha.unwrap(), s.update_available))
            .collect::<Vec<_>>()
    };
    let want = vec![
        ("one".to_string(), sha('b'), true),
        ("two".to_string(), sha('c'), true),
    ];
    assert_eq!(run([0, 1]), want);
    assert_eq!(run([1, 0]), want);
}

#[test]
fn workers_are_bounded() {
    assert_eq!(collect::worker_count(0, 8), 0);
    assert_eq!(collect::worker_count(3, 8), 3);
    assert_eq!(collect::worker_count(30, 8), 8);
    assert_eq!(collect::worker_count(30, 1), 1);
    assert_eq!(collect::worker_count(30, 0), 1);
}

// The plan.

#[test]
fn ref_kinds() {
    assert_eq!(updater::ref_kind(None), RefKind::Branch);
    assert_eq!(updater::ref_kind(Some("main")), RefKind::Branch);
    assert_eq!(updater::ref_kind(Some("refs/heads/x")), RefKind::Branch);
    assert_eq!(updater::ref_kind(Some("refs/tags/v1")), RefKind::Tag);
    assert_eq!(updater::ref_kind(Some(&sha('A'))), RefKind::Commit);
    assert_eq!(updater::ref_kind(Some(&sha('g'))), RefKind::Branch);
    assert_eq!(updater::ref_kind(Some(&"a".repeat(39))), RefKind::Branch);
}

#[test]
fn short_truncates() {
    assert_eq!(updater::short("0123456789abcdef"), "01234567");
    assert_eq!(updater::short("abc"), "abc");
    assert_eq!(updater::short(""), "");
    // Never through a character.
    assert_eq!(updater::short("日本語"), "日本語");
    assert_eq!(updater::short("ab日本語"), "ab日本");
}

#[test]
fn versions_in_words() {
    let v = |s: &str| Some(s.to_string());
    assert_eq!(updater::version_str(&v("1.0"), "0123456789"), "v1.0");
    assert_eq!(updater::version_str(&v("v1.0"), "0123456789"), "v1.0");
    assert_eq!(updater::version_str(&v(""), "0123456789"), "01234567");
    assert_eq!(updater::version_str(&None, "0123456789"), "01234567");
    assert_eq!(updater::remote_str(&None, &None), "?");
}

#[test]
fn status_lines_in_words() {
    let mut s = status(Status::Behind);
    assert_eq!(updater::status_line(&s), "[p] update available: installed v1.0 -> latest bbbbbbbb");
    s.status = Status::Ahead;
    assert_eq!(updater::status_line(&s), "[p] ahead of upstream (installed v1.0, latest bbbbbbbb)");
    s.status = Status::Diverged;
    assert_eq!(
        updater::status_line(&s),
        "[p] diverged from upstream (installed v1.0, latest bbbbbbbb)"
    );
    s.status = Status::Unknown;
    assert_eq!(updater::status_line(&s), "[p] unknown (installed v1.0)");
    s.status = Status::Same;
    s.note = Some("pinned by rollback; x".to_string());
    assert_eq!(
        updater::status_line(&s),
        "[p] up to date (installed v1.0, latest v1.0) (pinned by rollback; run `resume`)"
    );
    s.note = Some("pinned to a commit; x".to_string());
    assert_eq!(
        updater::status_line(&s),
        "[p] up to date (installed v1.0, latest v1.0) (commit-pinned; not auto-updated)"
    );
    s.note = Some("else".to_string());
    assert_eq!(updater::status_line(&s), "[p] up to date (installed v1.0, latest v1.0)");
    s.error = Some("boom".to_string());
    assert_eq!(updater::status_line(&s), "[p] error: boom");
}

#[test]
fn decisions_and_their_reasons() {
    let cfg = Config::default();
    let why = |cfg: &Config, s: &PluginStatus| plan::decide(cfg, s);
    assert_eq!(why(&cfg, &status(Status::Behind)), (Action::Update, None));
    let held = |r: &str| (Action::Hold, Some(r.to_string()));
    assert_eq!(why(&cfg, &status(Status::Same)), held("up to date"));
    assert_eq!(
        why(&cfg, &status(Status::Ahead)),
        held("installed commit is ahead of upstream (upstream reset?)")
    );
    assert_eq!(
        why(&cfg, &status(Status::Unknown)),
        held("cannot classify update (network / rate limit?)")
    );
    assert_eq!(
        why(&cfg, &status(Status::Diverged)),
        held("commits diverged (force push?); allow_force_push=false")
    );
    let mut c = Config::default();
    c.allow_force_push = true;
    assert_eq!(why(&c, &status(Status::Diverged)).0, Action::Update);
    c.exclude = vec!["p".to_string()];
    assert_eq!(why(&c, &status(Status::Behind)), held("excluded"));
    let mut c = Config::default();
    c.allow = vec!["x/*".to_string()];
    assert_eq!(why(&c, &status(Status::Behind)), held("not in allow list"));
    let mut c = Config::default();
    c.trusted_owners = vec!["x".to_string()];
    assert_eq!(why(&c, &status(Status::Behind)), held("owner 'o' not trusted"));
    let mut tag = status(Status::Behind);
    tag.ref_kind = RefKind::Tag;
    tag.requested_ref = Some("refs/tags/v1".to_string());
    assert_eq!(why(&cfg, &tag), held("immutable pin (tag); not auto-updated"));
    let mut c = Config::default();
    c.immutable_pins = false;
    assert_eq!(why(&c, &tag).0, Action::Update);
    c.policy = Policy::PinnedOnly;
    assert_eq!(why(&c, &tag).0, Action::Update);
    assert_eq!(why(&c, &status(Status::Behind)), held("policy: pinned-only"));
    c.policy = Policy::Notify;
    assert_eq!(why(&c, &tag), held("policy: notify"));
    let mut broken = status(Status::Behind);
    broken.error = Some("boom".to_string());
    assert_eq!(why(&cfg, &broken), (Action::Error, Some("boom".to_string())));
    let mut noted = status(Status::Same);
    noted.note = Some("because".to_string());
    assert_eq!(why(&cfg, &noted), held("because"));
}

#[test]
fn plan_blocks_in_words() {
    let cfg = Config::default();
    let statuses = vec![status(Status::Behind), status(Status::Same)];
    let entries = plan::build_plan(&cfg, &statuses);
    assert_eq!(entries.len(), 2);
    let r = plan::plan_report(&entries, &statuses, false);
    assert_eq!(r.exit, 1);
    assert_eq!(
        said(&r.lines)[..8].to_vec(),
        vec![
            "out:p",
            "out:  installed: v1.0",
            "out:  remote: bbbbbbbb",
            "out:  status: behind",
            "out:  channel: branch",
            "out:  policy: auto",
            "out:  action: UPDATE",
            "out:",
        ]
    );
    assert_eq!(said(&r.lines)[15], "out:  reason: up to date");
    assert_eq!(r.lines.len(), 17);
    let r = plan::plan_report(&entries, &statuses, true);
    assert_eq!((r.exit, r.lines.len()), (1, 0));
    let r = plan::check_report(&vec![status(Status::Same)], false);
    assert_eq!(r.exit, 0);
    assert_eq!(
        said(&r.lines),
        vec![
            "out:  [p] up to date (installed v1.0, latest v1.0)",
            "err:[herdr-auto-update] 1 plugin(s) checked, 0 update(s) available, 0 error(s)",
        ]
    );
}

// Applying.

#[test]
fn yes_answer_accepts_y_and_yes_only() {
    assert!(apply::yes_answer("y"));
    assert!(apply::yes_answer("Y"));
    assert!(apply::yes_answer("yes"));
    assert!(apply::yes_answer("  Yes \n"));
    assert!(!apply::yes_answer(""));
    assert!(!apply::yes_answer("n"));
    assert!(!apply::yes_answer("N"));
    assert!(!apply::yes_answer("no"));
    assert!(!apply::yes_answer("maybe"));
}

#[test]
fn install_command_lines() {
    assert_eq!(
        install::install_args("o", "r", None),
        vec!["plugin", "install", "o/r", "--yes"]
    );
    assert_eq!(
        install::install_args("o", "r", Some("main")),
        vec!["plugin", "install", "o/r", "--ref", "main", "--yes"]
    );
    let (ok, lines) = install::install_result("herdr", "o", "r", &InstallRun::CannotRun("gone".to_string()));
    assert!(!ok);
    assert_eq!(said(&lines), vec!["err:  cannot run 'herdr': gone"]);
}

#[test]
fn planned_updates_are_installed_and_recorded() {
    let cfg = Config::default();
    let e = planned(Action::Update, Status::Behind, RefKind::Branch, None);
    let step = apply::begin(&cfg, &e, quiet());
    assert_eq!(said(&step.lines), vec!["out:  [p] updating installed aaaaaaaa -> latest v2.0"]);
    match &step.work {
        Work::Update { args, label } => {
            assert_eq!(args, &vec!["plugin", "install", "o/r", "--yes"]);
            assert_eq!(label, "updating p installed aaaaaaaa -> latest v2.0");
        }
        other => panic!("{other:?}"),
    }
    let fine = InstallRun::Exited { ok: true, status: "0".to_string() };
    let step = apply::follow(&e, quiet(), "herdr", step.work, &Event::Installed(fine));
    assert!(step.lines.is_empty());
    assert!(matches!(step.work, Work::RecordUpdate));
    let record = apply::update_entry(&e, "now");
    assert_eq!((record.previous_sha, record.current_sha), (sha('a'), sha('b')));
    assert_eq!((record.updated_at.as_str(), record.result.as_str()), ("now", "updated"));
    let step = apply::follow(&e, quiet(), "herdr", step.work, &Event::Recorded(Saved::Written));
    assert!(matches!(step.work, Work::Verify));
    let listed = Ok(vec![github("p", "o", "r", &sha('b'), None)]);
    let step = apply::follow(&e, quiet(), "herdr", step.work, &Event::Listed(listed));
    assert!(step.lines.is_empty());
    assert!(matches!(step.work, Work::Settle(Outcome::Updated)));
}

#[test]
fn trouble_behind_an_install_is_only_a_warning() {
    let e = planned(Action::Update, Status::Behind, RefKind::Branch, None);
    let follow = |w: Work, ev: Event| apply::follow(&e, quiet(), "herdr", w, &ev);
    let step = follow(Work::RecordUpdate, Event::Recorded(Saved::Failed("full".to_string())));
    assert_eq!(said(&step.lines), vec!["err:  warning: full"]);
    assert!(matches!(step.work, Work::Settle(Outcome::Updated)));
    let step = follow(Work::RecordUpdate, Event::Recorded(Saved::Nowhere));
    assert!(matches!(step.work, Work::Settle(Outcome::Updated)));
    let step = follow(Work::Verify, Event::Listed(Err("gone".to_string())));
    assert_eq!(said(&step.lines), vec!["err:  [p] warning: verify error: gone"]);
    assert!(matches!(step.work, Work::Settle(Outcome::Updated)));
    // What does not belong to a work changes nothing.
    let step = follow(Work::Verify, Event::Recorded(Saved::Written));
    assert!(matches!(step.work, Work::Verify));
}

#[test]
fn failed_updates_say_so() {
    let e = planned(Action::Update, Status::Behind, RefKind::Branch, None);
    let mode = Mode { json: false, stdin_terminal: true, stdout_terminal: true };
    let work = apply::begin(&Config::default(), &e, mode);
    assert!(work.lines.is_empty());
    let bad = InstallRun::Exited { ok: false, status: "exit status: 3".to_string() };
    let step = apply::follow(&e, mode, "herdr", work.work, &Event::Installed(bad));
    assert_eq!(
        said(&step.lines),
        vec![
            "err:  install for o/r failed with exit status: 3",
            "err:  [p] update failed (v2.0)",
        ]
    );
    assert!(matches!(step.work, Work::Settle(Outcome::Failed)));
}

#[test]
fn held_plugins_are_only_reported() {
    let cfg = Config::default();
    let e = planned(Action::Hold, Status::Behind, RefKind::Branch, Some("policy: notify"));
    let step = apply::begin(&cfg, &e, quiet());
    assert_eq!(
        said(&step.lines),
        vec!["out:  [p] update available (installed aaaaaaaa -> latest v2.0) but held (policy: notify)"]
    );
    assert!(matches!(step.work, Work::Settle(Outcome::Held)));
    let mut c = Config::default();
    c.exclude = vec!["p".to_string()];
    let step = apply::begin(&c, &e, quiet());
    assert_eq!(
        said(&step.lines),
        vec!["out:  [p] update available (installed aaaaaaaa -> latest v2.0) but excluded"]
    );
    assert!(matches!(step.work, Work::Settle(Outcome::Excluded)));
    let e = planned(Action::Error, Status::Unknown, RefKind::Branch, Some("boom"));
    let step = apply::begin(&cfg, &e, quiet());
    assert_eq!(said(&step.lines), vec!["err:  [p] error: boom"]);
    assert!(matches!(step.work, Work::Settle(Outcome::Error)));
    let json = Mode { json: true, stdin_terminal: true, stdout_terminal: true };
    assert!(apply::begin(&cfg, &e, json).lines.is_empty());
}

#[test]
fn pins_are_asked_about_at_a_terminal_only() {
    let cfg = Config::default();
    let at_terminal = Mode { json: false, stdin_terminal: true, stdout_terminal: false };
    let e = planned(Action::Hold, Status::Same, RefKind::Commit, Some("pinned to a commit; x"));
    match apply::begin(&cfg, &e, at_terminal).work {
        Work::Ask(q) => assert_eq!(
            q,
            "  [p] pinned to a commit (installed aaaaaaaa); reinstall from the default branch to update? [y/N] "
        ),
        other => panic!("{other:?}"),
    }
    let step = apply::begin(&cfg, &e, quiet());
    assert!(matches!(step.work, Work::Settle(Outcome::Pinned)));
    assert_eq!(
        said(&step.lines),
        vec!["out:  [p] up to date (installed aaaaaaaa, latest aaaaaaaa) (commit-pinned; not auto-updated; run `update` from a terminal to update it interactively)"]
    );
    let e = planned(Action::Hold, Status::Same, RefKind::Commit, Some("pinned by rollback; x"));
    assert!(matches!(apply::begin(&cfg, &e, at_terminal).work, Work::Settle(Outcome::Pinned)));
    let listed = Err("gone".to_string());
    assert_eq!(apply::locate(&listed, "p", "before"), "before");
}

fn settled(id: &str, outcome: Outcome) -> Settled {
    Settled { plugin_id: id.to_string(), outcome }
}

#[test]
fn runs_are_summed_up() {
    let cfg = Config::default();
    let all = vec![
        settled("a", Outcome::Updated),
        settled("b", Outcome::Failed),
        settled("c", Outcome::Held),
        settled("d", Outcome::Pinned),
        settled("e", Outcome::Error),
        settled("f", Outcome::Excluded),
        settled("g", Outcome::UpToDate),
        settled("h", Outcome::Pinned),
    ];
    let end = summary::end_run(&cfg, &all, false);
    assert_eq!(end.report.exit, 2);
    assert_eq!(
        said(&end.report.lines),
        vec![
            "err:[herdr-auto-update] 2 plugin(s) are pinned to commits and cannot be auto-updated: d, h",
            "err:[herdr-auto-update] hint: run `herdr-auto-update update` from a terminal to update pinned plugins interactively; `untrack --only <plugin_id>` switches one to the default branch non-interactively",
            "err:[herdr-auto-update] 1 updated, 1 failed, 1 held, 2 pinned, 1 error(s)",
        ]
    );
    assert_eq!(
        end.notification.unwrap(),
        vec![
            "notification",
            "show",
            "herdr-auto-update",
            "--body",
            "1 plugin(s) updated, 1 failed, 1 could not be checked, 1 held by policy, 2 pinned to commits (not auto-updated)",
        ]
    );
    let end = summary::end_run(&cfg, &vec![settled("b", Outcome::Failed)], false);
    assert_eq!(end.report.exit, 1);
    let end = summary::end_run(&cfg, &vec![settled("g", Outcome::UpToDate)], false);
    assert_eq!((end.report.exit, end.notification), (0, None));
    let mut off = Config::default();
    off.notify = false;
    assert_eq!(summary::end_run(&off, &all, false).notification, None);
}

#[test]
fn runs_are_summed_up_as_json() {
    let cfg = Config::default();
    let all = vec![settled("a \"quoted\"", Outcome::Updated), settled("b", Outcome::Error)];
    let end = summary::end_run(&cfg, &all, true);
    assert_eq!(end.report.exit, 2);
    assert_eq!(end.notification, None);
    assert_eq!(
        said(&end.report.lines),
        vec!["out:{\n  \"errors\": [\n    \"b\"\n  ],\n  \"excluded\": [],\n  \"failed\": [],\n  \"held\": [],\n  \"pinned\": [],\n  \"updated\": [\n    \"a \\\"quoted\\\"\"\n  ]\n}"]
    );
    let fields = summary::report_fields(summary::tally(&all));
    let keys: Vec<&str> = fields.iter().map(|f| f.0.as_str()).collect();
    assert_eq!(keys, vec!["updated", "failed", "excluded", "held", "pinned", "errors"]);
}

#[test]
fn runs_go_through_the_plan() {
    let cfg = Config::default();
    let named = |id: &str, action: Action, s: Status| {
        let mut e = planned(action, s, RefKind::Branch, None);
        e.plugin_id = id.to_string();
        e
    };
    let entries = vec![
        named("same", Action::Hold, Status::Same),
        named("first", Action::Update, Status::Behind),
        named("broken", Action::Error, Status::Unknown),
        named("second", Action::Update, Status::Behind),
    ];
    let stage = run::start(&cfg, &entries, quiet());
    assert_eq!(run::current(&entries, &stage).unwrap().plugin_id, "first");
    assert_eq!(stage.done.len(), 1);
    assert_eq!(stage.lines.len(), 2);
    let bad = Event::Installed(InstallRun::Exited { ok: false, status: "1".to_string() });
    let stage = run::advance(&cfg, &entries, quiet(), "herdr", stage, &bad);
    assert_eq!(run::current(&entries, &stage).unwrap().plugin_id, "second");
    let good = Event::Installed(InstallRun::Exited { ok: true, status: "0".to_string() });
    let stage = run::advance(&cfg, &entries, quiet(), "herdr", stage, &good);
    assert!(matches!(stage.work, Some(Work::RecordUpdate)));
    let stage = run::advance(&cfg, &entries, quiet(), "herdr", stage, &Event::Recorded(Saved::Nowhere));
    assert!(stage.work.is_none());
    assert!(run::current(&entries, &stage).is_none());
    let done: Vec<(&str, Outcome)> = stage.done.iter().map(|d| (d.plugin_id.as_str(), d.outcome)).collect();
    assert_eq!(
        done,
        vec![
            ("same", Outcome::UpToDate),
            ("first", Outcome::Failed),
            ("broken", Outcome::Error),
            ("second", Outcome::Updated),
        ]
    );
    // At the end nothing happens any more.
    let stage = run::advance(&cfg, &entries, quiet(), "herdr", stage, &good);
    assert_eq!((stage.done.len(), stage.lines.len()), (4, 0));
    let none = run::start(&cfg, &Vec::new(), quiet());
    assert!(none.work.is_none());
}

#[test]
fn startup_is_an_update_or_nothing() {
    let mut cfg = Config::default();
    let t = cli::task(&cfg, cli::Command::Startup, None, true).unwrap();
    assert_eq!((t.job, t.only, t.json), (cli::Job::Update, None, true));
    let t = cli::task(&cfg, cli::Command::Untrack, Some("p".to_string()), false).unwrap();
    assert_eq!((t.job, t.only.as_deref()), (cli::Job::Untrack, Some("p")));
    cfg.auto_update = false;
    let end = cli::task(&cfg, cli::Command::Startup, None, false).unwrap_err();
    assert_eq!(
        (end.exit, said(&end.lines)),
        (0, vec!["err:[herdr-auto-update] auto_update disabled; skipping startup check".to_string()])
    );
    assert!(cli::task(&cfg, cli::Command::Update, None, false).is_ok());
}

#[test]
fn undoing_nothing_exits_1() {
    let r = rollback::rollback_end(&vec![Ended::Skipped, Ended::Done, Ended::Done], false);
    assert_eq!((r.exit, said(&r.lines)), (0, vec!["err:[herdr-auto-update] 2 plugin(s) rolled back".to_string()]));
    let r = rollback::resume_end(&vec![Ended::Skipped], false);
    assert_eq!((r.exit, said(&r.lines)), (1, vec!["err:[herdr-auto-update] 0 plugin(s) resumed".to_string()]));
    assert_eq!(rollback::rollback_end(&Vec::new(), true).lines.len(), 0);
}

// Programs.

#[test]
fn programs_can_be_overridden() {
    assert_eq!(tool::git_bin(Some("stub-git")), "stub-git");
    assert_eq!(tool::git_bin(None), "git");
    assert_eq!(tool::git_bin(Some("  ")), "git");
    assert_eq!(tool::herdr_bin(None), "herdr");
    assert_eq!(tool::herdr_bin(Some("/x/herdr")), "/x/herdr");
    assert_eq!(tool::curl_bin(Some("")), "curl");
    assert_eq!(tool::env_nonempty(Some(" a ")), Some(" a ".to_string()));
}

#[test]
fn hung_programs_are_killed() {
    assert!(tool::has_deadline(1));
    assert!(!tool::has_deadline(0));
    assert!(matches!(tool::poll_step("git", &Poll::Exited, true, 1), Wait::Collect));
    assert!(matches!(tool::poll_step("git", &Poll::Running, false, 1), Wait::Again));
    assert!(matches!(
        tool::poll_step("git", &Poll::Running, true, 1),
        Wait::Kill(m) if m == "git timed out after 1s"
    ));
    assert!(matches!(
        tool::poll_step("git", &Poll::Lost("x".to_string()), false, 1),
        Wait::Kill(m) if m == "cannot wait for git: x"
    ));
    assert_eq!(tool::start_error("git", "no"), "cannot run git: no");
}

// The panel.

#[test]
fn panel_is_painted_over_itself() {
    let mut p = Progress::new(3, false, true);
    p.row(0, "one");
    p.row(2, "two");
    let first = p.done(0, true, "[one] fine".to_string());
    assert_eq!(
        first,
        "\r  \x1b[32m✓\x1b[0m [one] fine\x1b[K\n  \x1b[2m⠋ two\x1b[0m\x1b[K\n  ██████████░░░░░░░░░░ 1/2 checked\x1b[K"
    );
    // Done already: nothing is painted.
    assert_eq!(p.done(0, false, "x".to_string()), "");
    let tick = p.tick();
    assert!(tick.starts_with("\x1b[2A\r"), "{tick:?}");
    assert!(tick.contains("⠙ two"), "{tick:?}");
    let second = p.done(2, false, "[two] bad".to_string());
    assert!(second.contains("\x1b[31m✗\x1b[0m [two] bad"), "{second:?}");
    assert!(second.ends_with("  ████████████████████ 2/2 checked\x1b[K"), "{second:?}");
    assert_eq!(p.finish(), "\r\x1b[2A\x1b[J");
    assert_eq!(p.finish(), "");
}

#[test]
fn panel_without_rows_has_an_empty_bar() {
    let mut p = Progress::new(0, false, true);
    assert_eq!(p.tick(), "\r  ░░░░░░░░░░░░░░░░░░░░ 0/0 checked\x1b[K");
    // A row that was never opened is not marked.
    assert!(p.done(5, true, "x".to_string()).contains("0/0 checked"));
    // The bar is the top: the cursor goes up nowhere.
    assert_eq!(p.finish(), "\r\x1b[J");
}

#[test]
fn panel_is_off_without_a_terminal() {
    for (json, terminal) in [(true, true), (false, false)] {
        let mut p = Progress::new(1, json, terminal);
        p.row(0, "one");
        assert_eq!(p.done(0, true, "x".to_string()), "");
        assert_eq!(p.tick(), "");
        assert_eq!(p.finish(), "");
    }
    assert_eq!(progress::activity_line("x", 11), "\r  \x1b[2m⠙ x\x1b[0m\x1b[K");
    assert_eq!(progress::activity_end(), "\r\x1b[K");
}

#[test]
fn survey_opens_the_panel() {
    let plugins = vec![
        github("pin", "o", "r", &sha('a'), Some(&sha('a'))),
        Plugin { plugin_id: "bare".to_string(), version: None, source: None },
        github("branch", "o", "r", &sha('a'), None),
    ];
    let mut slots = collect::survey(&plugins, None, None).unwrap();
    let (mut panel, written) = collect::open_panel(&slots, false, true);
    assert!(written.contains("✓\x1b[0m [pin] up to date"), "{written:?}");
    assert!(written.ends_with("1/1 checked\x1b[K"), "{written:?}");
    let result = JobResult {
        remote_sha: None,
        status: Status::Unknown,
        error: Some("boom".to_string()),
        remote_version: None,
        cache_entries: Vec::new(),
    };
    let more = collect::settle(&mut slots, 2, &result, &mut panel);
    assert!(more.contains("✗\x1b[0m [branch] error: boom"), "{more:?}");
    assert!(more.ends_with("2/2 checked\x1b[K"), "{more:?}");
    // One row was on the screen, now there are two.
    assert!(more.starts_with("\x1b[1A\r"), "{more:?}");
    assert_eq!(panel.finish(), "\r\x1b[2A\x1b[J");
}

// The command line.

fn args(list: &[&str]) -> Vec<String> {
    list.iter().map(|a| a.to_string()).collect()
}

#[test]
fn flags_are_taken_out() {
    let mut a = args(&["x", "--json", "y", "--json"]);
    assert!(cli::take_flag(&mut a, "--json"));
    assert_eq!(a, vec!["x", "y", "--json"]);
    assert!(!cli::take_flag(&mut a, "--nope"));
    let mut a = args(&["--only", "p", "z"]);
    assert_eq!(cli::take_value(&mut a, "--only"), Ok(Some("p".to_string())));
    assert_eq!(a, vec!["z"]);
    assert_eq!(cli::take_value(&mut a, "--only"), Ok(None));
    let mut a = args(&["--only"]);
    assert_eq!(cli::take_value(&mut a, "--only"), Err(()));
    let mut a = args(&["--only", "-x"]);
    assert_eq!(cli::take_value(&mut a, "--only"), Err(()));
}

#[test]
fn command_lines_are_understood() {
    let i = cli::parse(args(&["check", "--only", "p", "--json", "--config", "c"])).unwrap();
    assert_eq!(i.command, "check");
    assert!(i.json);
    assert_eq!(i.config.as_deref(), Some("c"));
    assert_eq!(i.only.as_deref(), Some("p"));
    assert_eq!(cli::select(&i).unwrap(), cli::Command::Check);
    for (name, command) in [
        ("startup", cli::Command::Startup),
        ("update", cli::Command::Update),
        ("apply", cli::Command::Update),
        ("plan", cli::Command::Plan),
        ("rollback", cli::Command::Rollback),
        ("resume", cli::Command::Resume),
        ("untrack", cli::Command::Untrack),
        ("history", cli::Command::History),
    ] {
        assert_eq!(cli::select(&cli::parse(args(&[name])).unwrap()).unwrap(), command);
    }
}

#[test]
fn bad_command_lines_are_refused() {
    let end = |list: &[&str]| cli::parse(args(list)).unwrap_err();
    assert_eq!(end(&[]).exit, 2);
    assert_eq!(end(&["check", "-h"]).exit, 0);
    let v = end(&["--version"]);
    assert_eq!((v.exit, said(&v.lines)), (0, vec!["out:herdr-auto-update 1.0.8".to_string()]));
    let first = |list: &[&str]| said(&end(list).lines)[0].clone();
    assert_eq!(first(&["check", "a", "b"]), "err:error: unexpected argument(s): a b");
    assert_eq!(first(&["check", "--only"]), "err:error: --only requires a plugin id argument");
    assert_eq!(first(&["check", "--config"]), "err:error: --config requires a path argument");
    let refused = |list: &[&str]| {
        let r = cli::select(&cli::parse(args(list)).unwrap()).unwrap_err();
        assert_eq!(r.exit, 2);
        said(&r.lines)[0].clone()
    };
    assert_eq!(refused(&["startup", "--only", "p"]), "err:error: --only cannot be used with startup");
    assert_eq!(refused(&["frobnicate"]), "err:error: unknown command 'frobnicate'");
}

#[test]
fn trail_commands_need_a_place() {
    let r = rollback::no_place();
    assert_eq!(
        (r.exit, said(&r.lines)),
        (2, vec!["err:error: no config dir; cannot locate state.json".to_string()])
    );
    let st = State::default();
    match rollback::rollback_start(&st, false, None) {
        rollback::Start::Stop(r) => assert_eq!(
            (r.exit, said(&r.lines)),
            (
                0,
                vec!["err:[herdr-auto-update] no updates recorded - nothing to roll back".to_string()]
            )
        ),
        other => panic!("{other:?}"),
    }
}

// Text.

#[test]
fn texts() {
    assert_eq!(text::trim(" \u{a0}a b\t\n"), "a b");
    assert_eq!(text::trim("   "), "");
    assert!(text::is_blank("\u{3000}"));
    assert!(!text::is_blank("."));
    assert_eq!(text::strip_prefix("refs/tags/x", "refs/tags/"), Some("x".to_string()));
    assert_eq!(text::strip_prefix("refs", "refs/tags/"), None);
    assert!(text::has_suffix("v1^{}", "^{}"));
    assert!(!text::has_suffix("{}", "^{}"));
    assert!(text::contains("a rate limit b", "rate limit"));
    assert!(!text::contains("rate limi", "rate limit"));
    assert!(text::contains("x", ""));
    assert_eq!(text::decimal_text(0), "0");
    assert_eq!(text::decimal_text(u64::MAX), "18446744073709551615");
    assert_eq!(text::join(&args(&["a", "b", "c"]), ", "), "a, b, c");
    assert_eq!(text::join(&Vec::new(), ", "), "");
    assert_eq!(text::first_word(" a b\nc"), "a");
}
