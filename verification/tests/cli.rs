// Whole commands against a herdr, a git and a curl that live in memory: each
// command asks the library what to do next, and the world below does it.

use herdr_auto_update::apply;
use herdr_auto_update::apply::{Event, Mode, Saved, Work};
use herdr_auto_update::cli;
use herdr_auto_update::collect;
use herdr_auto_update::compare;
use herdr_auto_update::compare::Cache;
use herdr_auto_update::config;
use herdr_auto_update::config::{Config, ConfigFile, ConfigRead, DataDir, Policy, Surroundings};
use herdr_auto_update::install::InstallRun;
use herdr_auto_update::plan;
use herdr_auto_update::registry;
use herdr_auto_update::registry::{Plugin, Source};
use herdr_auto_update::remote;
use herdr_auto_update::remote::{JobEvent, JobResult, JobWork, RemoteJob};
use herdr_auto_update::report::{Line, Report};
use herdr_auto_update::rollback;
use herdr_auto_update::rollback::{Ended, Start, Undo};
use herdr_auto_update::run;
use herdr_auto_update::state;
use herdr_auto_update::state::{State, StateEntry};
use herdr_auto_update::summary;
use herdr_auto_update::tool::{self, Poll, ToolOutput, Wait};
use herdr_auto_update::untrack;
use herdr_auto_update::untrack::Untrack;
use herdr_auto_update::updater::{PluginStatus, Status};

const REGISTRY: &str = r#"{"id":"cli:plugin","result":{"plugins":[
  {"plugin_id":"flock.farm","version":"0.1.0","source":{"kind":"github","owner":"ragamo","repo":"herdr-flock","resolved_commit":"ae24844b3c8b1cf7cf3dfc3d6e6bc701b6e048a3"}},
  {"plugin_id":"herdr-file-viewer","version":"1.14.0","source":{"kind":"github","owner":"smarzban","repo":"herdr-file-viewer","resolved_commit":"350f3f5be79d136933ba36c8c8dd60f79df28002"}},
  {"plugin_id":"wave-tui.radio","version":"0.1.5","source":{"kind":"github","owner":"takemo101","repo":"wave-tui","resolved_commit":"f282ba19165f812baa081a5a1dfc0b2403348185"}},
  {"plugin_id":"linked-dev","version":"0.1.0","source":{"kind":"local","path":"C:\\dev\\some-plugin"}},
  {"plugin_id":"local-thing","version":"1.0.0"},
  {"plugin_id":"broken","source":{"kind":"github","repo":"x","resolved_commit":"0000000000000000000000000000000000000000"}},
  {"plugin_id":"evil","source":{"kind":"github","owner":"bad;rm -rf","repo":"x","resolved_commit":"0000000000000000000000000000000000000000"}},
  {"plugin_id":"pinned.stable","source":{"kind":"github","owner":"ragamo","repo":"herdr-flock","resolved_commit":"1111111111111111111111111111111111111111","requested_ref":"refs/heads/stable"}},
  {"plugin_id":"pinned.old","source":{"kind":"github","owner":"ragamo","repo":"herdr-flock","resolved_commit":"2222222222222222222222222222222222222222","requested_ref":"refs/heads/stable"}}
]}}"#;

const SLOW_REGISTRY: &str = r#"{"id":"cli:plugin","result":{"plugins":[
  {"plugin_id":"slow.repo","version":"0.1.0","source":{"kind":"github","owner":"example","repo":"slow-repo","resolved_commit":"0000000000000000000000000000000000000001"}}
]}}"#;

const CLEAN_REGISTRY: &str = r#"{"id":"cli:plugin","result":{"plugins":[
  {"plugin_id":"flock.farm","version":"0.1.0","source":{"kind":"github","owner":"ragamo","repo":"herdr-flock","resolved_commit":"ae24844b3c8b1cf7cf3dfc3d6e6bc701b6e048a3"}},
  {"plugin_id":"herdr-file-viewer","version":"1.14.0","source":{"kind":"github","owner":"smarzban","repo":"herdr-file-viewer","resolved_commit":"350f3f5be79d136933ba36c8c8dd60f79df28002"}},
  {"plugin_id":"pinned.old","source":{"kind":"github","owner":"ragamo","repo":"herdr-flock","resolved_commit":"2222222222222222222222222222222222222222","requested_ref":"refs/heads/stable"}}
]}}"#;

const PINNED_REGISTRY: &str = r#"{"id":"cli:plugin","result":{"plugins":[
  {"plugin_id":"tag.pinned","version":"1.0.0","source":{"kind":"github","owner":"ragamo","repo":"herdr-flock","resolved_commit":"2222222222222222222222222222222222222222","requested_ref":"refs/tags/v1.0.0"}},
  {"plugin_id":"commit.pinned","version":"1.0.0","source":{"kind":"github","owner":"ragamo","repo":"herdr-flock","resolved_commit":"3333333333333333333333333333333333333333","requested_ref":"3333333333333333333333333333333333333333"}},
  {"plugin_id":"flock.farm","version":"0.1.0","source":{"kind":"github","owner":"ragamo","repo":"herdr-flock","resolved_commit":"ae24844b3c8b1cf7cf3dfc3d6e6bc701b6e048a3"}}
]}}"#;

const PINNED_REGISTRY_CLEARED: &str = r#"{"id":"cli:plugin","result":{"plugins":[
  {"plugin_id":"tag.pinned","version":"1.0.0","source":{"kind":"github","owner":"ragamo","repo":"herdr-flock","resolved_commit":"2222222222222222222222222222222222222222","requested_ref":"refs/tags/v1.0.0"}},
  {"plugin_id":"commit.pinned","version":"1.0.0","source":{"kind":"github","owner":"ragamo","repo":"herdr-flock","resolved_commit":"3333333333333333333333333333333333333333"}},
  {"plugin_id":"flock.farm","version":"0.1.0","source":{"kind":"github","owner":"ragamo","repo":"herdr-flock","resolved_commit":"ae24844b3c8b1cf7cf3dfc3d6e6bc701b6e048a3"}}
]}}"#;

fn printed(text: &str) -> Result<ToolOutput, String> {
    Ok(ToolOutput {
        ok: true,
        status: "exit status: 0".to_string(),
        stdout: text.as_bytes().to_vec(),
        stderr: Vec::new(),
    })
}

fn exited_1() -> Result<ToolOutput, String> {
    Ok(ToolOutput {
        ok: false,
        status: "exit status: 1".to_string(),
        stdout: Vec::new(),
        stderr: Vec::new(),
    })
}

// herdr-flock is where it is installed (a `refs/*` argument resolves elsewhere),
// herdr-file-viewer is newer, anything else fails.
fn stub_git(args: &[String], _timeout_secs: u64) -> Result<ToolOutput, String> {
    let url = args
        .iter()
        .find(|a| a.starts_with("https://github.com/"))
        .cloned()
        .unwrap_or_default();
    let has_ref = args.iter().any(|a| a.starts_with("refs/"));
    if args.iter().any(|a| a == "--tags") {
        if url.contains("herdr-flock") {
            return printed("1111111111111111111111111111111111111111 refs/tags/v0.1.0\n");
        }
        if url.contains("herdr-file-viewer") {
            return printed("2222222222222222222222222222222222222222 refs/tags/v1.15.0\n");
        }
        return exited_1();
    }
    if url.contains("herdr-flock") {
        if has_ref {
            return printed("1111111111111111111111111111111111111111 HEAD\n");
        }
        return printed("ae24844b3c8b1cf7cf3dfc3d6e6bc701b6e048a3 HEAD\n");
    }
    if url.contains("herdr-file-viewer") {
        return printed("71d4c1c3706e7958c714789b035a99d949620a9e HEAD\n");
    }
    exited_1()
}

// A git that never ends: it is killed when its time is up.
fn stub_git_hang(_args: &[String], timeout_secs: u64) -> Result<ToolOutput, String> {
    match tool::poll_step("stub-git.sh", &Poll::Running, true, timeout_secs) {
        Wait::Kill(message) => Err(message),
        _ => panic!("a hung git must be killed"),
    }
}

fn stub_curl(_args: &[String]) -> Result<ToolOutput, String> {
    printed(r#"{"status":"ahead","ahead_by":1,"behind_by":0,"total_commits":1}"#)
}

fn stub_curl_diverged(_args: &[String]) -> Result<ToolOutput, String> {
    printed(r#"{"status":"diverged","ahead_by":1,"behind_by":1,"total_commits":2}"#)
}

fn stub_curl_fails(_args: &[String]) -> Result<ToolOutput, String> {
    exited_1()
}

fn text_field(v: &serde_json::Value, key: &str) -> Option<String> {
    v.get(key).and_then(|f| f.as_str()).map(|s| s.to_string())
}

fn parse_plugins(text: &str) -> Vec<Plugin> {
    let v: serde_json::Value = serde_json::from_str(text).unwrap();
    let list = v["result"]["plugins"].as_array().unwrap();
    list.iter()
        .map(|p| Plugin {
            plugin_id: text_field(p, "plugin_id").unwrap(),
            version: text_field(p, "version"),
            source: p.get("source").map(|s| Source {
                kind: text_field(s, "kind").unwrap(),
                owner: text_field(s, "owner"),
                repo: text_field(s, "repo"),
                requested_ref: text_field(s, "requested_ref"),
                resolved_commit: text_field(s, "resolved_commit"),
            }),
        })
        .collect()
}

fn parse_compare(reply: &[u8]) -> Result<String, String> {
    let v: serde_json::Value = serde_json::from_slice(reply).map_err(|e| e.to_string())?;
    text_field(&v, "status").ok_or("missing field `status`".to_string())
}

fn texts(t: &toml::Table, key: &str) -> Option<Vec<String>> {
    t.get(key).map(|v| {
        let list = v.as_array().unwrap();
        list.iter().map(|s| s.as_str().unwrap().to_string()).collect()
    })
}

fn switch(t: &toml::Table, key: &str) -> Option<bool> {
    t.get(key).map(|v| v.as_bool().unwrap())
}

fn parse_config(text: &str) -> ConfigFile {
    let t: toml::Table = text.parse().unwrap();
    ConfigFile {
        auto_update: switch(&t, "auto_update"),
        notify: switch(&t, "notify"),
        exclude: texts(&t, "exclude"),
        timeout_secs: t.get("timeout_secs").map(|v| v.as_integer().unwrap() as u64),
        max_concurrency: t.get("max_concurrency").map(|v| v.as_integer().unwrap() as usize),
        policy: t.get("policy").map(|v| match v.as_str().unwrap() {
            "auto" => Policy::Auto,
            "notify" => Policy::Notify,
            "pinned-only" => Policy::PinnedOnly,
            other => panic!("policy {other}"),
        }),
        allow: texts(&t, "allow"),
        require_fast_forward: switch(&t, "require_fast_forward"),
        allow_force_push: switch(&t, "allow_force_push"),
        trusted_owners: texts(&t, "trusted_owners"),
        immutable_pins: switch(&t, "immutable_pins"),
    }
}

fn entry(id: &str, previous: &str, current: &str, wanted: Option<&str>, at: &str, result: &str) -> StateEntry {
    StateEntry {
        plugin_id: id.to_string(),
        previous_sha: previous.to_string(),
        current_sha: current.to_string(),
        requested_ref: wanted.map(|r| r.to_string()),
        updated_at: at.to_string(),
        result: result.to_string(),
    }
}

struct World {
    registry: String,
    /// What is listed once something was installed.
    registry_after: Option<String>,
    git: fn(&[String], u64) -> Result<ToolOutput, String>,
    curl: fn(&[String]) -> Result<ToolOutput, String>,
    herdr_missing: bool,
    install_fails: bool,
    /// The configuration in the directory that herdr names, where that exists.
    plugin_config: Option<String>,
    trail: Option<Vec<StateEntry>>,
    cache: Option<Cache>,
    terminal: bool,
    answer: String,
    installs: Vec<String>,
    notifications: Vec<String>,
    git_runs: usize,
    out: String,
    err: String,
}

struct Out {
    code: u8,
    stdout: String,
    stderr: String,
}

fn world(registry: &str) -> World {
    World {
        registry: registry.to_string(),
        registry_after: None,
        git: stub_git,
        curl: stub_curl,
        herdr_missing: false,
        install_fails: false,
        plugin_config: None,
        trail: None,
        cache: None,
        terminal: false,
        answer: String::new(),
        installs: Vec::new(),
        notifications: Vec::new(),
        git_runs: 0,
        out: String::new(),
        err: String::new(),
    }
}

impl World {
    fn print(&mut self, lines: &[Line]) {
        for line in lines {
            match line {
                Line::Say(s) => {
                    self.out.push_str(s);
                    self.out.push('\n');
                }
                Line::Note(s) => {
                    self.err.push_str(s);
                    self.err.push('\n');
                }
            }
        }
    }

    fn finish(&mut self, report: Report) -> u8 {
        self.print(&report.lines);
        report.exit
    }

    fn list(&self) -> Result<Vec<Plugin>, String> {
        let run = if self.herdr_missing {
            Err("No such file or directory (os error 2)".to_string())
        } else if self.installs.is_empty() || self.registry_after.is_none() {
            printed(&self.registry)
        } else {
            printed(self.registry_after.as_ref().unwrap())
        };
        let text = registry::list_output("stub-herdr.sh", run)?;
        Ok(parse_plugins(&text))
    }

    fn install(&mut self, args: &[String]) -> InstallRun {
        self.installs.push(args.join(" "));
        if self.install_fails {
            InstallRun::Exited {
                ok: false,
                status: "exit status: 1".to_string(),
            }
        } else {
            InstallRun::Exited {
                ok: true,
                status: "exit status: 0".to_string(),
            }
        }
    }

    /// Whether the directory exists.
    fn is_there(&self, dir: &DataDir) -> bool {
        match dir {
            DataDir::At(d) => {
                assert_eq!(d, "/tmp/hau/plugin-config");
                self.plugin_config.is_some()
            }
            DataDir::ParentOf(file) => {
                assert_eq!(file, "/tmp/hau/config.toml");
                true
            }
            DataDir::ConfigUnder(root) => panic!("no root is set, but {root}"),
        }
    }

    fn load_trail(&self, dir: &DataDir) -> State {
        let read = match &self.trail {
            Some(entries) if self.is_there(dir) => Some(State {
                version: 1,
                entries: entries.clone(),
            }),
            _ => None,
        };
        State::load(read)
    }

    fn save_trail(&mut self, dir: &DataDir, st: &State) -> Saved {
        let run = if self.is_there(dir) {
            self.trail = Some(st.entries.clone());
            state::WriteRun::Written
        } else {
            state::WriteRun::NotWritten("No such file or directory (os error 2)".to_string())
        };
        match State::save(&run) {
            Ok(()) => Saved::Written,
            Err(e) => Saved::Failed(e),
        }
    }

    fn resolve(&mut self, job: &RemoteJob, timeout_secs: u64, cache: &Cache) -> JobResult {
        let mut work = remote::begin(job);
        loop {
            let event = match work {
                JobWork::Done(result) => return result,
                JobWork::AskHead { ref args } | JobWork::AskTags { ref args, .. } => {
                    self.git_runs += 1;
                    JobEvent::Ran((self.git)(args, timeout_secs))
                }
                JobWork::AskApi { ref args, .. } => {
                    let verdict = compare::compare_reply((self.curl)(args), timeout_secs)
                        .and_then(|reply| compare::compare_verdict(parse_compare(&reply)));
                    JobEvent::Compared(verdict)
                }
            };
            work = remote::follow(job, work, event, timeout_secs, cache, "2026-08-15T00:00:00Z");
        }
    }

    fn collect(&mut self, cfg: &Config, dir: &Option<DataDir>, only: Option<&str>, json: bool) -> Result<Vec<PluginStatus>, String> {
        let plugins = self.list()?;
        let trail = dir.as_ref().map(|d| self.load_trail(d));
        let mut slots = collect::survey(&plugins, trail.as_ref(), only)?;
        let (mut panel, opening) = collect::open_panel(&slots, json, false);
        assert_eq!(opening, "");
        let cache = compare::load_cache(self.cache.take());
        let mut fresh = Vec::new();
        // The last one answers first: the order must not matter.
        for index in collect::pending_slots(&slots).into_iter().rev() {
            let job = collect::job_at(&slots, index).unwrap();
            let result = self.resolve(&job, cfg.timeout_secs, &cache);
            let painted = collect::settle(&mut slots, index, &result, &mut panel);
            assert_eq!(painted, "");
            fresh.extend(result.cache_entries);
        }
        self.cache = Some(compare::merge_cache(cache, fresh));
        assert_eq!(panel.finish(), "");
        Ok(collect::statuses(slots))
    }

    fn update(&mut self, cfg: &Config, dir: &Option<DataDir>, json: bool, only: Option<&str>) -> u8 {
        let statuses = match self.collect(cfg, dir, only, json) {
            Ok(s) => s,
            Err(e) => return self.finish(summary::fatal(&e)),
        };
        let entries = plan::build_plan(cfg, &statuses);
        self.print(&summary::start_lines(cfg, json));
        let mode = Mode {
            json,
            stdin_terminal: self.terminal,
            stdout_terminal: self.terminal,
        };
        let mut stage = run::start(cfg, &entries, mode);
        loop {
            self.print(&stage.lines);
            let (Some(work), Some(e)) = (&stage.work, run::current(&entries, &stage)) else {
                break;
            };
            let event = match work {
                Work::Settle(outcome) => panic!("settled as {outcome:?} but still at work"),
                Work::Ask(prompt) => {
                    self.out.push_str(prompt);
                    Event::Answered(self.answer.clone())
                }
                Work::Update { args, label: _ } => Event::Installed(self.install(args)),
                Work::Repin { args } => Event::Installed(self.install(args)),
                Work::RecordUpdate => {
                    Event::Recorded(self.record(dir, apply::update_entry(e, "2026-08-15T00:02:00Z")))
                }
                Work::RecordPin(sha) => {
                    Event::Recorded(self.record(dir, apply::pin_entry(e, sha, "2026-08-15T00:02:00Z")))
                }
                Work::Verify | Work::Locate => Event::Listed(self.list()),
            };
            stage = run::advance(cfg, &entries, mode, "stub-herdr.sh", stage, &event);
        }
        let done = stage.done;
        assert_eq!(
            done.iter().map(|d| &d.plugin_id).collect::<Vec<_>>(),
            entries.iter().map(|e| &e.plugin_id).collect::<Vec<_>>()
        );
        let end = summary::end_run(cfg, &done, json);
        if let Some(args) = end.notification {
            self.notifications.push(args.join(" "));
        }
        self.finish(end.report)
    }

    fn record(&mut self, dir: &Option<DataDir>, e: StateEntry) -> Saved {
        let Some(d) = dir else { return Saved::Nowhere };
        let mut st = self.load_trail(d);
        st.append(e);
        self.save_trail(d, &st)
    }

    fn undo(&mut self, undo: Undo, e: &StateEntry, st: &mut State, dir: &DataDir, json: bool) -> Ended {
        let mut step = rollback::begin(undo, e);
        loop {
            self.print(&step.lines);
            let event = match &step.work {
                rollback::Work::Skip => return Ended::Skipped,
                rollback::Work::Done => return Ended::Done,
                rollback::Work::List | rollback::Work::Locate => Event::Listed(self.list()),
                rollback::Work::Install { args, .. } => Event::Installed(self.install(&args.clone())),
                rollback::Work::Record(entry) => {
                    st.append(entry.clone());
                    Event::Recorded(self.save_trail(dir, st))
                }
            };
            step = rollback::follow(undo, e, json, "stub-herdr.sh", step.work, &event, "2026-08-15T00:03:00Z");
        }
    }

    fn rollback(&mut self, dir: &DataDir, json: bool, only: Option<&str>) -> u8 {
        let mut st = self.load_trail(dir);
        match rollback::rollback_start(&st, json, only) {
            Start::Stop(end) => self.finish(end),
            Start::Go { lines, targets } => {
                self.print(&lines);
                let mut ended = Vec::new();
                for e in &targets {
                    ended.push(self.undo(Undo::Rollback, e, &mut st, dir, json));
                }
                self.finish(rollback::rollback_end(&ended, json))
            }
        }
    }

    fn resume(&mut self, dir: &DataDir, json: bool, only: Option<&str>) -> u8 {
        let mut st = self.load_trail(dir);
        match rollback::resume_start(&st, json, only) {
            Start::Stop(end) => self.finish(end),
            Start::Go { lines, targets } => {
                self.print(&lines);
                let mut ended = Vec::new();
                for e in &targets {
                    ended.push(self.undo(Undo::Resume, e, &mut st, dir, json));
                }
                self.finish(rollback::resume_end(&ended, json))
            }
        }
    }

    fn untrack(&mut self, json: bool, only: Option<&str>) -> u8 {
        let Some(id) = only else {
            return self.finish(untrack::untrack_usage());
        };
        match untrack::untrack_listed(id, &self.list(), json) {
            Untrack::Stop(end) => self.finish(end),
            Untrack::Install {
                lines,
                owner,
                repo,
                args,
            } => {
                self.print(&lines);
                let run = self.install(&args);
                if let Some(end) = untrack::untrack_installed("stub-herdr.sh", &owner, &repo, &run) {
                    return self.finish(end);
                }
                let end = untrack::untrack_end(id, &self.list(), json);
                self.finish(end)
            }
        }
    }

    fn command(&mut self, args: &[&str], file: Option<&str>) -> u8 {
        let mut all: Vec<String> = args.iter().map(|a| a.to_string()).collect();
        if file.is_some() {
            all.push("--config".to_string());
            all.push("/tmp/hau/config.toml".to_string());
        }
        let inv = match cli::parse(all) {
            Ok(i) => i,
            Err(end) => return self.finish(end),
        };
        let around = Surroundings {
            config_dir_var: None,
            root_var: None,
            herdr_config_dir: Some("/tmp/hau/plugin-config\n".to_string()),
        };
        let place = config::config_path(inv.config.as_deref(), &around);
        let text = if file.is_some() { file.map(|f| f.to_string()) } else { self.plugin_config.clone() };
        let read = match text {
            Some(t) => ConfigRead::Parsed(parse_config(&t)),
            None => ConfigRead::Missing,
        };
        let cfg = match config::load(place, "/tmp/hau/config.toml", read) {
            Ok(c) => c,
            Err(e) => return self.finish(summary::fatal(&e)),
        };
        let command = match cli::select(&inv) {
            Ok(c) => c,
            Err(end) => return self.finish(end),
        };
        let dir = cfg.data_dir(&around);
        let task = match cli::task(&cfg, command, inv.only, inv.json) {
            Ok(t) => t,
            Err(end) => return self.finish(end),
        };
        let only = task.only.as_deref();
        let json = task.json;
        match task.job {
            cli::Job::Update => self.update(&cfg, &dir, json, only),
            cli::Job::Check | cli::Job::Plan => {
                let statuses = match self.collect(&cfg, &dir, only, json) {
                    Ok(s) => s,
                    Err(e) => return self.finish(summary::fatal(&e)),
                };
                if task.job == cli::Job::Check {
                    self.finish(plan::check_report(&statuses, json))
                } else {
                    let entries = plan::build_plan(&cfg, &statuses);
                    self.finish(plan::plan_report(&entries, &statuses, json))
                }
            }
            cli::Job::Rollback => match dir {
                Some(d) => self.rollback(&d, json, only),
                None => self.finish(rollback::no_place()),
            },
            cli::Job::Resume => match dir {
                Some(d) => self.resume(&d, json, only),
                None => self.finish(rollback::no_place()),
            },
            cli::Job::Untrack => self.untrack(json, only),
            cli::Job::History => match dir {
                Some(d) => {
                    let st = self.load_trail(&d);
                    self.finish(rollback::history_report(&st))
                }
                None => self.finish(rollback::no_place()),
            },
        }
    }

    fn run(&mut self, args: &[&str], file: Option<&str>) -> Out {
        self.out = String::new();
        self.err = String::new();
        let code = self.command(args, file);
        Out {
            code,
            stdout: self.out.clone(),
            stderr: self.err.clone(),
        }
    }

    fn install_log(&self) -> String {
        self.installs.join("\n")
    }
}

const AUTO: &str = "policy = \"auto\"\n";

#[test]
fn check_reports_status_and_exit_2_when_errors() {
    let out = world(REGISTRY).run(&["check"], None);
    // wave-tui (unresolvable), broken (missing fields), evil (invalid name)
    // are errors, which take precedence over pending updates.
    assert_eq!(out.code, 2);
    let s = out.stdout;
    assert!(s.contains("up to date (installed v0.1.0, latest v0.1.0)"), "flock: {s}");
    assert!(s.contains("update available"), "file-viewer: {s}");
    assert!(s.contains("cannot resolve remote HEAD"), "wave-tui: {s}");
    assert!(s.contains("invalid owner/repo"), "evil: {s}");
    assert!(s.contains("github source missing owner/repo/commit fields"), "broken: {s}");
    assert_eq!(
        out.stderr,
        "[herdr-auto-update] 7 plugin(s) checked, 2 update(s) available, 3 error(s)\n"
    );
}

#[test]
fn check_shows_version_names_not_shas() {
    let out = world(REGISTRY).run(&["check"], None);
    assert_eq!(out.code, 2);
    let s = out.stdout;
    assert!(s.contains("[flock.farm] up to date (installed v0.1.0, latest v0.1.0)"), "{s}");
    assert!(s.contains("update available: installed v1.14.0 -> latest v1.15.0"), "{s}");
    // A plugin without a manifest version keeps the short commit.
    assert!(
        s.contains("[pinned.stable] up to date (installed 11111111, latest 11111111)"),
        "{s}"
    );
}

#[test]
fn check_exit_1_when_pending_without_errors() {
    let out = world(CLEAN_REGISTRY).run(&["check"], None);
    assert_eq!(out.code, 1);
    assert!(out.stdout.contains("herdr-file-viewer"), "{}", out.stdout);
    assert!(!out.stdout.contains("error:"), "{}", out.stdout);
}

#[test]
fn update_reinstalls_only_outdated_via_herdr_cli() {
    let mut w = world(REGISTRY);
    let out = w.run(&["update"], Some(AUTO));
    // Three checks fail: update installs what it can and says so.
    assert_eq!(out.code, 2, "stderr: {}", out.stderr);
    let log = w.install_log();
    assert!(log.contains("plugin install smarzban/herdr-file-viewer --yes"), "install log: {log}");
    assert!(
        !log.contains("plugin install ragamo/herdr-flock --yes"),
        "up-to-date plugin must not be reinstalled against HEAD: {log}"
    );
    assert!(out.stderr.contains("2 updated, 0 failed, 3 error(s)"));
}

#[test]
fn update_respects_exclude_list() {
    let mut w = world(REGISTRY);
    let out = w.run(
        &["update"],
        Some("policy = \"auto\"\nauto_update = true\nexclude = [\"herdr-file-viewer\"]\n"),
    );
    assert_eq!(out.code, 2);
    let log = w.install_log();
    assert!(!log.contains("herdr-file-viewer"), "excluded plugin must not be reinstalled: {log}");
    assert!(out.stdout.contains("excluded"));
}

#[test]
fn startup_honors_auto_update_disabled() {
    let mut w = world(REGISTRY);
    let out = w.run(&["startup"], Some("auto_update = false\n"));
    assert_eq!(out.code, 0);
    assert_eq!(w.install_log(), "", "auto_update=false must not install");
    assert_eq!(
        out.stderr,
        "[herdr-auto-update] auto_update disabled; skipping startup check\n"
    );
    assert_eq!(w.git_runs, 0);
}

#[test]
fn startup_updates_by_default() {
    let mut w = world(REGISTRY);
    let out = w.run(&["startup"], Some(AUTO));
    assert_eq!(out.code, 2);
    assert!(w.install_log().contains("smarzban/herdr-file-viewer"));
}

#[test]
fn check_shows_installed_and_latest_versions() {
    let s = world(CLEAN_REGISTRY).run(&["check"], None).stdout;
    assert!(s.contains("[flock.farm] up to date (installed v0.1.0, latest v0.1.0)"), "{s}");
    assert!(s.contains("update available: installed v1.14.0 -> latest v1.15.0"), "{s}");
}

#[test]
fn update_json_reports_actions() {
    let out = world(REGISTRY).run(&["update", "--json"], Some(AUTO));
    assert_eq!(out.code, 2);
    let s = out.stdout;
    assert!(s.contains("\"updated\": [\n    \"herdr-file-viewer\""), "{s}");
    assert!(s.contains("\"failed\": []"), "{s}");
    assert!(s.contains("\"errors\": [\n    \"wave-tui.radio\""), "{s}");
    assert!(s.contains("\"broken\""), "{s}");
    assert!(s.contains("\"evil\""), "{s}");
}

#[test]
fn unknown_command_is_usage_error() {
    let out = world(REGISTRY).run(&["frobnicate"], None);
    assert_eq!(out.code, 2);
    assert!(out.stderr.contains("USAGE"));
}

#[test]
fn config_flag_without_value_is_usage_error() {
    let out = world(REGISTRY).run(&["check", "--config"], None);
    assert_eq!(out.code, 2);
    assert!(out.stderr.contains("USAGE"));
}

#[test]
fn config_flag_with_flag_as_value_is_usage_error() {
    let out = world(REGISTRY).run(&["check", "--config", "--json"], None);
    assert_eq!(out.code, 2);
    assert!(out.stderr.contains("USAGE"));
}

#[test]
fn check_pinned_compares_against_ref_not_head() {
    let out = world(REGISTRY).run(&["check"], None);
    assert_eq!(out.code, 2);
    let s = out.stdout;
    // herdr-flock HEAD is ae24844b, but the pinned ref resolves to 11111111;
    // pinned.stable matches the ref (up to date) while pinned.old does not.
    let stable: Vec<&str> = s.lines().filter(|l| l.contains("pinned.stable")).collect();
    assert_eq!(stable.len(), 1, "{s}");
    assert!(stable[0].contains("up to date"), "{s}");
    let old: Vec<&str> = s.lines().filter(|l| l.contains("pinned.old")).collect();
    assert_eq!(old.len(), 1, "{s}");
    assert!(old[0].contains("update available"), "{s}");
}

#[test]
fn update_passes_ref_flag_for_pinned_plugins() {
    let mut w = world(REGISTRY);
    let out = w.run(&["update"], Some(AUTO));
    assert_eq!(out.code, 2, "stderr: {}", out.stderr);
    let log = w.install_log();
    assert!(
        log.contains("ragamo/herdr-flock --ref refs/heads/stable"),
        "pinned reinstall must keep the ref: {log}"
    );
    let flock: Vec<&str> = log.lines().filter(|l| l.contains("ragamo/herdr-flock")).collect();
    assert_eq!(flock.len(), 1, "install log: {log}");
}

#[test]
fn update_notifies_after_updates() {
    let mut w = world(REGISTRY);
    let out = w.run(&["update"], Some(AUTO));
    assert_eq!(out.code, 2);
    let n = w.notifications.join("\n");
    assert!(
        n.contains("herdr-auto-update") && n.contains("2 plugin(s) updated, 3 could not be checked"),
        "notification log: {n}"
    );
}

#[test]
fn update_notify_can_be_disabled() {
    let mut w = world(REGISTRY);
    let out = w.run(&["update"], Some("policy = \"auto\"\nnotify = false\n"));
    assert_eq!(out.code, 2);
    assert_eq!(w.notifications.len(), 0, "notify=false must not notify");
}

#[test]
fn update_notify_skipped_when_nothing_to_do() {
    let mut w = world(REGISTRY);
    let out = w.run(&["update"], Some("policy = \"auto\"\nexclude = [\"herdr-file-viewer\"]\n"));
    assert_eq!(out.code, 2);
    // herdr-file-viewer is excluded, pinned.old is still updated.
    let n = w.notifications.join("\n");
    assert!(n.contains("1 plugin(s) updated, 3 could not be checked"), "notification log: {n}");
}

#[test]
fn update_only_restricts_install() {
    let mut w = world(REGISTRY);
    let out = w.run(&["update", "--only", "herdr-file-viewer"], Some(AUTO));
    assert_eq!(out.code, 0, "stderr: {}", out.stderr);
    let log = w.install_log();
    assert!(log.contains("smarzban/herdr-file-viewer"), "install log: {log}");
    assert!(!log.contains("ragamo/herdr-flock"), "--only must skip other plugins: {log}");
}

#[test]
fn update_only_unknown_plugin_is_fatal() {
    let mut w = world(REGISTRY);
    let out = w.run(&["update", "--only", "nope"], None);
    assert_eq!(out.code, 2);
    assert!(out.stderr.contains("not found"));
    assert_eq!(out.stderr, "error: plugin 'nope' not found in the herdr registry\n");
    assert_eq!(w.install_log(), "");
}

#[test]
fn update_only_local_plugin_is_fatal() {
    let mut w = world(REGISTRY);
    let out = w.run(&["update", "--only", "linked-dev"], None);
    assert_eq!(out.code, 2);
    assert!(out.stderr.contains("not a GitHub-installed plugin"));
    assert_eq!(w.install_log(), "");
}

#[test]
fn update_json_does_not_notify() {
    let mut w = world(REGISTRY);
    let out = w.run(&["update", "--json"], Some(AUTO));
    assert_eq!(out.code, 2);
    assert_eq!(w.notifications.len(), 0, "--json must not notify");
}

#[test]
fn missing_herdr_cli_is_fatal() {
    let mut w = world(REGISTRY);
    w.herdr_missing = true;
    let out = w.run(&["check"], None);
    assert_eq!(out.code, 2);
    assert!(out.stderr.contains("cannot run"));
    assert_eq!(
        out.stderr,
        "error: cannot run 'stub-herdr.sh plugin list --json': No such file or directory (os error 2)\n"
    );
}

#[test]
fn git_past_its_deadline_is_an_error() {
    let mut w = world(SLOW_REGISTRY);
    w.git = stub_git_hang;
    let out = w.run(&["update"], Some("timeout_secs = 1\n"));
    assert_eq!(out.code, 2);
    assert!(out.stderr.contains("timed out after 1s"), "{}", out.stderr);
    assert_eq!(w.install_log(), "", "timed-out plugin must not be installed");
}

#[test]
fn plan_reports_actions_without_installing() {
    let mut w = world(REGISTRY);
    let out = w.run(&["plan"], Some(AUTO));
    assert_eq!(out.code, 2);
    let s = out.stdout;
    assert!(s.contains("herdr-file-viewer"), "{s}");
    assert!(s.contains("action: UPDATE"), "{s}");
    assert!(s.contains("action: HOLD"), "{s}");
    assert!(s.contains("status: behind"), "{s}");
    assert_eq!(w.install_log(), "", "plan must not reinstall anything");
}

#[test]
fn plan_clean_registry_notify_holds_exits_0() {
    let mut w = world(CLEAN_REGISTRY);
    // No configuration file: the notify policy holds everything.
    let out = w.run(&["plan"], None);
    assert_eq!(out.code, 0);
    assert_eq!(w.install_log(), "", "plan must not reinstall anything");
}

#[test]
fn policy_notify_never_installs() {
    let mut w = world(REGISTRY);
    let out = w.run(&["update"], Some("policy = \"notify\"\n"));
    assert_eq!(out.code, 2);
    assert_eq!(w.install_log(), "", "notify policy must not install");
    assert!(out.stderr.contains("0 updated"), "{}", out.stderr);
}

#[test]
fn policy_pinned_only_updates_only_pinned_plugins() {
    let mut w = world(REGISTRY);
    let out = w.run(&["update"], Some("policy = \"pinned-only\"\n"));
    assert_eq!(out.code, 2);
    let log = w.install_log();
    assert!(log.contains("plugin install ragamo/herdr-flock"), "pinned plugin must be updated: {log}");
    assert!(!log.contains("smarzban/herdr-file-viewer"), "unpinned plugin must be held: {log}");
}

#[test]
fn allow_restricts_updates_by_owner_repo() {
    let mut w = world(REGISTRY);
    let out = w.run(&["update"], Some("policy = \"auto\"\nallow = [\"ragamo/*\"]\n"));
    assert_eq!(out.code, 2);
    let log = w.install_log();
    assert!(log.contains("plugin install ragamo/herdr-flock"), "allowed owner must be updated: {log}");
    assert!(
        !log.contains("smarzban/herdr-file-viewer"),
        "owner outside allow list must be held: {log}"
    );
}

#[test]
fn apply_acts_like_update() {
    let mut w = world(REGISTRY);
    let out = w.run(&["apply"], Some(AUTO));
    assert_eq!(out.code, 2);
    let log = w.install_log();
    assert!(log.contains("smarzban/herdr-file-viewer"), "{log}");
    assert!(log.contains("ragamo/herdr-flock"), "{log}");
    assert!(out.stderr.contains("2 updated, 0 failed"), "{}", out.stderr);
}

#[test]
fn diverged_is_held_by_default() {
    let mut w = world(REGISTRY);
    w.curl = stub_curl_diverged;
    let out = w.run(&["update"], Some(AUTO));
    assert_eq!(out.code, 2);
    let log = w.install_log();
    assert!(!log.contains("smarzban/herdr-file-viewer"), "diverged must not install by default: {log}");
    assert!(out.stdout.contains("diverged"), "{}", out.stdout);
}

#[test]
fn diverged_installs_with_allow_force_push() {
    let mut w = world(REGISTRY);
    w.curl = stub_curl_diverged;
    let out = w.run(&["update"], Some("policy = \"auto\"\nallow_force_push = true\n"));
    assert_eq!(out.code, 2);
    assert!(w.install_log().contains("smarzban/herdr-file-viewer"));
}

#[test]
fn failed_comparison_leaves_the_status_unknown() {
    let mut w = world(REGISTRY);
    w.curl = stub_curl_fails;
    let out = w.run(&["check"], None);
    assert_eq!(out.code, 2);
    assert!(out.stdout.contains("request failed"), "{}", out.stdout);
    let cfg = Config::default();
    let statuses = w.collect(&cfg, &None, Some("herdr-file-viewer"), false).unwrap();
    assert_eq!(statuses[0].status, Status::Unknown);
    assert_eq!(
        statuses[0].error.as_deref(),
        Some("compare API: request failed (HTTP exit status: 1)")
    );
    assert!(!statuses[0].update_available);
}

const PREV: &str = "350f3f5be79d136933ba36c8c8dd60f79df28002";
const CUR: &str = "71d4c1c3706e7958c714789b035a99d949620a9e";

#[test]
fn rollback_reinstalls_previous_commit() {
    let mut w = world(REGISTRY);
    w.trail = Some(vec![entry("herdr-file-viewer", PREV, CUR, None, "2026-08-15T00:00:00Z", "updated")]);
    let out = w.run(&["rollback"], Some(""));
    assert_eq!(out.code, 0);
    let log = w.install_log();
    assert!(
        log.contains(&format!("smarzban/herdr-file-viewer --ref {PREV} --yes")),
        "rollback must reinstall the previous commit: {log}"
    );
    assert!(out.stdout.contains("rolling back"), "{}", out.stdout);
    assert_eq!(
        out.stdout,
        "  [herdr-file-viewer] rolling back 71d4c1c3 -> 350f3f5b\n"
    );
}

#[test]
fn rollback_rewinds_only_latest_update_per_plugin() {
    let mut w = world(REGISTRY);
    let c = "aaaaaaaaaaaaaaaaaaaaaaaaaaaaaaaaaaaaaaaa";
    w.trail = Some(vec![
        entry("herdr-file-viewer", PREV, CUR, None, "2026-08-15T00:00:00Z", "updated"),
        entry("herdr-file-viewer", CUR, c, None, "2026-08-15T00:01:00Z", "updated"),
    ]);
    let out = w.run(&["rollback"], Some(""));
    assert_eq!(out.code, 0);
    let log = w.install_log();
    assert!(
        log.contains(&format!("smarzban/herdr-file-viewer --ref {CUR} --yes")),
        "rollback must install the commit before the LATEST update: {log}"
    );
    assert!(
        !log.contains(&format!("--ref {PREV}")),
        "rollback must not rewind older history: {log}"
    );
    let trail = w.trail.unwrap();
    let last = trail.last().unwrap();
    assert_eq!(last.result, "rolled_back");
    assert_eq!(last.current_sha, CUR);
    assert_eq!(last.previous_sha, c);
}

#[test]
fn rollback_skips_plugin_already_rolled_back() {
    let mut w = world(REGISTRY);
    w.trail = Some(vec![
        entry("herdr-file-viewer", PREV, CUR, None, "2026-08-15T00:00:00Z", "updated"),
        entry("herdr-file-viewer", CUR, PREV, None, "2026-08-15T00:01:00Z", "rolled_back"),
    ]);
    let out = w.run(&["rollback"], Some(""));
    assert_eq!(out.code, 1); // nothing to roll back
    assert_eq!(w.install_log(), "", "already rolled back must not reinstall anything");
}

#[test]
fn resume_reinstalls_original_tracking_ref() {
    let mut w = world(REGISTRY);
    w.trail = Some(vec![
        entry("herdr-file-viewer", PREV, CUR, Some("main"), "2026-08-15T00:00:00Z", "updated"),
        entry("herdr-file-viewer", CUR, PREV, Some("main"), "2026-08-15T00:01:00Z", "rolled_back"),
    ]);
    let out = w.run(&["resume"], Some(""));
    assert_eq!(out.code, 0);
    let log = w.install_log();
    assert!(
        log.contains("smarzban/herdr-file-viewer --ref main --yes"),
        "resume must reinstall with the original tracking ref: {log}"
    );
    assert_eq!(w.trail.unwrap().last().unwrap().result, "updated");
    assert!(out.stdout.contains("resuming tracking ref main"), "{}", out.stdout);
}

#[test]
fn resume_default_branch_installs_without_ref() {
    let mut w = world(REGISTRY);
    w.trail = Some(vec![
        entry("herdr-file-viewer", PREV, CUR, None, "2026-08-15T00:00:00Z", "updated"),
        entry("herdr-file-viewer", CUR, PREV, None, "2026-08-15T00:01:00Z", "rolled_back"),
    ]);
    let out = w.run(&["resume"], Some(""));
    assert_eq!(out.code, 0);
    let log = w.install_log();
    assert!(
        log.contains("smarzban/herdr-file-viewer --yes"),
        "resume of a default-branch tracker must install without --ref: {log}"
    );
    assert!(!log.contains("--ref"), "{log}");
}

#[test]
fn rollback_only_unknown_with_empty_state_is_fatal() {
    let mut w = world(REGISTRY);
    let out = w.run(&["rollback", "--only", "nope"], None);
    assert_eq!(out.code, 2);
    assert!(out.stderr.contains("no update recorded for plugin 'nope'"), "{}", out.stderr);
    assert_eq!(w.install_log(), "");
}

#[test]
fn resume_without_state_exits_0() {
    let mut w = world(REGISTRY);
    let out = w.run(&["resume"], None);
    assert_eq!(out.code, 0); // nothing to resume is not a failure
    assert!(out.stderr.contains("no rollbacks recorded"), "{}", out.stderr);
    assert_eq!(w.install_log(), "");
}

#[test]
fn rollback_then_resume_is_back_on_the_ref() {
    let mut w = world(REGISTRY);
    w.trail = Some(vec![entry("pinned.old", PREV, CUR, Some("refs/heads/stable"), "t", "updated")]);
    assert_eq!(w.run(&["rollback"], Some("")).code, 0);
    let again = w.run(&["rollback", "--only", "pinned.old"], Some(""));
    assert_eq!(again.code, 1);
    assert_eq!(
        again.stderr,
        "  [pinned.old] already rolled back; run `resume` to rejoin the tracking ref\n[herdr-auto-update] 0 plugin(s) rolled back\n"
    );
    assert_eq!(w.run(&["resume", "--only", "pinned.old"], Some("")).code, 0);
    let twice = w.run(&["resume", "--only", "pinned.old"], Some(""));
    assert_eq!(twice.code, 2);
    assert_eq!(twice.stderr, "error: no rollback recorded for plugin 'pinned.old'\n");
    assert_eq!(
        w.installs,
        vec![
            format!("plugin install ragamo/herdr-flock --ref {PREV} --yes"),
            "plugin install ragamo/herdr-flock --ref refs/heads/stable --yes".to_string(),
        ]
    );
    let trail = w.trail.unwrap();
    assert_eq!(trail.len(), 3);
    // The registry shows the commit that the resume came to.
    assert_eq!(trail[2].current_sha, "2222222222222222222222222222222222222222");
    assert_eq!(trail[2].previous_sha, PREV);
}

#[test]
fn rollback_passes_over_what_it_cannot_undo() {
    let mut w = world(REGISTRY);
    w.trail = Some(vec![
        entry("herdr-file-viewer", "", CUR, None, "t", "updated"),
        entry("gone", PREV, CUR, None, "t", "updated"),
        entry("evil", PREV, CUR, None, "t", "updated"),
    ]);
    let out = w.run(&["rollback"], Some(""));
    assert_eq!(out.code, 1);
    assert_eq!(w.installs.len(), 0);
    assert_eq!(
        out.stderr,
        "  [evil] cannot roll back: plugin not in registry\n  [gone] cannot roll back: plugin not in registry\n  [herdr-file-viewer] cannot roll back: no previous commit recorded\n[herdr-auto-update] 0 plugin(s) rolled back\n"
    );
}

#[test]
fn failed_reinstall_is_not_recorded() {
    let mut w = world(REGISTRY);
    w.install_fails = true;
    w.trail = Some(vec![entry("herdr-file-viewer", PREV, CUR, None, "t", "updated")]);
    let out = w.run(&["rollback"], Some(""));
    assert_eq!(out.code, 1);
    assert_eq!(w.trail.as_ref().unwrap().len(), 1);
    assert_eq!(
        out.stderr,
        "  install for smarzban/herdr-file-viewer failed with exit status: 1\n[herdr-auto-update] 0 plugin(s) rolled back\n"
    );
}

#[test]
fn untrack_requires_only() {
    let mut w = world(PINNED_REGISTRY);
    let out = w.run(&["untrack"], None);
    assert_eq!(out.code, 2);
    assert!(out.stderr.contains("untrack requires --only"), "{}", out.stderr);
    assert_eq!(w.install_log(), "");
}

#[test]
fn untrack_reinstalls_commit_pin_ref_less() {
    let mut w = world(PINNED_REGISTRY);
    w.registry_after = Some(PINNED_REGISTRY_CLEARED.to_string());
    let out = w.run(&["untrack", "--only", "commit.pinned"], None);
    assert_eq!(out.code, 0);
    let log = w.install_log();
    assert!(log.contains("ragamo/herdr-flock --yes"), "untrack must reinstall without --ref: {log}");
    assert!(!log.contains("--ref"), "untrack must not pass --ref: {log}");
    assert!(out.stdout.contains("now tracking the default branch"), "{}", out.stdout);
}

#[test]
fn untrack_rejects_non_pinned_and_unknown() {
    let mut w = world(PINNED_REGISTRY);
    let out = w.run(&["untrack", "--only", "flock.farm"], None);
    assert_eq!(out.code, 2);
    assert!(out.stderr.contains("not pinned to a commit"), "{}", out.stderr);
    assert_eq!(w.install_log(), "");
    let mut w2 = world(PINNED_REGISTRY);
    let out2 = w2.run(&["untrack", "--only", "nope"], None);
    assert_eq!(out2.code, 2);
    assert_eq!(w2.install_log(), "");
}

#[test]
fn untrack_reports_a_pin_that_stays() {
    let mut w = world(PINNED_REGISTRY);
    let out = w.run(&["untrack", "--only", "commit.pinned"], None);
    assert_eq!(out.code, 1);
    assert_eq!(
        out.stderr,
        "  [commit.pinned] warning: registry still records a commit pin after reinstall\n"
    );
    let mut w2 = world(PINNED_REGISTRY);
    w2.install_fails = true;
    assert_eq!(w2.run(&["untrack", "--only", "commit.pinned"], None).code, 1);
}

#[test]
fn update_reports_commit_pins_and_notifies() {
    let mut w = world(PINNED_REGISTRY);
    let out = w.run(&["update", "--json"], Some("")); // default notify policy
    assert_eq!(out.code, 0);
    let s = out.stdout;
    assert!(
        s.contains("\"pinned\": [\n    \"commit.pinned\"\n  ]"),
        "update --json must list commit-pinned plugins: {s}"
    );
    assert!(s.contains("\"held\": [\n    \"tag.pinned\"\n  ]"), "{s}");
    let e = w.run(&["update"], Some("")).stderr;
    assert!(e.contains("pinned to commits and cannot be auto-updated"), "{e}");
    assert!(e.contains("untrack --only"), "{e}");
    let n = w.notifications.join("\n");
    assert!(n.contains("pinned to commits"), "{n}");
    assert_eq!(w.install_log(), "", "non-interactive update must not reinstall pinned plugins");
}

#[test]
fn interactive_update_can_leave_a_pin() {
    let mut w = world(PINNED_REGISTRY);
    w.registry_after = Some(PINNED_REGISTRY_CLEARED.replace("3333333333333333333333333333333333333333", CUR));
    w.terminal = true;
    w.answer = "Yes\n".to_string();
    let out = w.run(&["update", "--only", "commit.pinned"], Some(AUTO));
    assert_eq!(out.code, 0);
    assert_eq!(w.installs, vec!["plugin install ragamo/herdr-flock --yes".to_string()]);
    assert!(
        out.stdout.contains("[commit.pinned] updated: reinstalled from the default branch (installed v1.0.0 -> latest 71d4c1c3)"),
        "{}",
        out.stdout
    );
    let trail = w.trail.unwrap();
    assert_eq!(trail[0].current_sha, CUR);
    assert_eq!(trail[0].requested_ref, None);
}

#[test]
fn interactive_update_keeps_a_pin_on_no() {
    let mut w = world(PINNED_REGISTRY);
    w.terminal = true;
    w.answer = "\n".to_string();
    let out = w.run(&["update", "--only", "commit.pinned"], Some(AUTO));
    assert_eq!(out.code, 0);
    assert_eq!(w.installs.len(), 0);
    assert!(out.stdout.contains("[commit.pinned] keeping commit pin"), "{}", out.stdout);
    assert!(out.stderr.contains("0 updated, 0 failed, 1 pinned"), "{}", out.stderr);
}

#[test]
fn rollback_pin_is_never_asked_about() {
    let mut w = world(PINNED_REGISTRY);
    w.terminal = true;
    w.answer = "y".to_string();
    w.trail = Some(vec![entry("commit.pinned", CUR, PREV, None, "t", "rolled_back")]);
    let out = w.run(&["update", "--only", "commit.pinned"], Some(AUTO));
    assert_eq!(w.installs.len(), 0);
    assert!(
        out.stdout.contains("up to date (installed v1.0.0, latest v1.0.0) (pinned by rollback; run `resume`)"),
        "{}",
        out.stdout
    );
}

#[test]
fn plan_exit_reflects_actions_not_raw_changes() {
    // Notify: upstream changed but everything is held.
    let out = world(CLEAN_REGISTRY).run(&["plan"], Some("policy = \"notify\"\n"));
    assert_eq!(out.code, 0, "notify+HOLD must exit 0");
    assert!(out.stdout.contains("action: HOLD"), "{}", out.stdout);

    // Auto: an update would be installed.
    let out2 = world(CLEAN_REGISTRY).run(&["plan"], Some(AUTO));
    assert_eq!(out2.code, 1, "auto+UPDATE must exit 1");
    assert!(out2.stdout.contains("action: UPDATE"), "{}", out2.stdout);

    // Diverged with force pushes allowed: an update would be installed too.
    let mut w3 = world(CLEAN_REGISTRY);
    w3.curl = stub_curl_diverged;
    let out3 = w3.run(&["plan"], Some("policy = \"auto\"\nallow_force_push = true\n"));
    assert_eq!(out3.code, 1, "force-push UPDATE must exit 1");
    assert!(out3.stdout.contains("action: UPDATE"), "{}", out3.stdout);
}

#[test]
fn update_records_state_history() {
    let mut w = world(CLEAN_REGISTRY);
    let out = w.run(&["update"], Some(AUTO));
    assert_eq!(out.code, 0);
    let trail = w.trail.unwrap();
    let viewer = trail.iter().find(|e| e.plugin_id == "herdr-file-viewer").unwrap();
    assert_eq!(viewer.result, "updated");
    assert_eq!(viewer.previous_sha, "350f3f5be79d136933ba36c8c8dd60f79df28002");
    assert_eq!(viewer.current_sha, CUR);
    // The registry of this world does not change, which is worth a warning.
    assert!(
        out.stderr.contains("[herdr-file-viewer] warning: verify failed - registry still reports the old commit"),
        "{}",
        out.stderr
    );
}

#[test]
fn failed_installs_exit_1_and_are_not_recorded() {
    let mut w = world(CLEAN_REGISTRY);
    w.install_fails = true;
    let out = w.run(&["update"], Some(AUTO));
    assert_eq!(out.code, 1);
    assert!(w.trail.is_none());
    assert!(out.stderr.contains("[herdr-auto-update] 0 updated, 2 failed\n"), "{}", out.stderr);
    assert_eq!(w.notifications, vec!["notification show herdr-auto-update --body 2 failed".to_string()]);
}

#[test]
fn history_prints_recorded_updates() {
    let mut w = world(REGISTRY);
    w.trail = Some(vec![entry("herdr-file-viewer", PREV, CUR, None, "2026-08-15T00:00:00Z", "updated")]);
    let out = w.run(&["history"], Some(""));
    assert_eq!(out.code, 0);
    assert!(out.stdout.contains("updated herdr-file-viewer"), "{}", out.stdout);
    assert_eq!(
        out.stdout,
        "2026-08-15T00:00:00Z updated herdr-file-viewer 350f3f5b -> 71d4c1c3\n"
    );
    let empty = world(REGISTRY).run(&["history"], Some(""));
    assert_eq!(empty.stdout, "[herdr-auto-update] no recorded updates\n");
}

#[test]
fn plan_reports_ref_channel() {
    // Default notify policy: every pin is held, nothing would apply.
    let out = world(PINNED_REGISTRY).run(&["plan"], None);
    assert_eq!(out.code, 0);
    let s = out.stdout;
    let block: Vec<&str> = s.lines().collect();
    for (name, want) in [
        ("tag.pinned", "channel: tag"),
        ("commit.pinned", "channel: commit"),
        ("flock.farm", "channel: branch"),
    ] {
        let idx = block
            .iter()
            .position(|l| l.contains(name))
            .unwrap_or_else(|| panic!("{name} missing: {s}"));
        assert!(
            block[idx..].iter().take(6).any(|l| l.contains(want)),
            "{name} should show '{want}': {s}"
        );
    }
}

#[test]
fn commit_pin_skips_network_and_never_updates() {
    let mut w = world(PINNED_REGISTRY);
    let out = w.run(&["check", "--only", "commit.pinned"], None);
    assert_eq!(out.code, 0); // no changes, no errors
    assert_eq!(w.git_runs, 0, "commit.pinned must not hit git");
    let s = out.stdout;
    assert!(s.contains("commit.pinned"), "{s}");
    assert!(s.contains("up to date"), "{s}");
}

#[test]
fn trusted_owners_holds_untrusted_owners() {
    let mut w = world(CLEAN_REGISTRY);
    let out = w.run(&["update"], Some("policy = \"auto\"\ntrusted_owners = [\"ragamo\"]\n"));
    let log = w.install_log();
    assert!(!log.contains("smarzban"), "untrusted owner must not install: {log}");
    assert!(log.contains("ragamo/herdr-flock"), "trusted owner may install: {log}");
    assert!(out.stdout.contains("owner 'smarzban' not trusted"), "{}", out.stdout);
}

fn block_of(s: &str, name: &str) -> String {
    let lines: Vec<&str> = s.lines().collect();
    let at = lines.iter().position(|l| l.contains(name)).unwrap();
    lines[at..].iter().take(8).copied().collect::<Vec<_>>().join("\n")
}

#[test]
fn immutable_pins_hold_tag_and_commit() {
    let s = world(PINNED_REGISTRY).run(&["plan"], Some("immutable_pins = true\n")).stdout;
    assert!(s.contains("tag.pinned"), "{s}");
    assert!(s.contains("immutable pin (tag)"), "{s}");
    assert!(s.contains("commit.pinned"), "{s}");
    let cblock = block_of(&s, "commit.pinned");
    assert!(cblock.contains("action: HOLD"), "{cblock}");
    assert!(!cblock.contains("action: UPDATE"), "{cblock}");
    let fblock = block_of(&s, "flock.farm");
    assert!(!fblock.contains("immutable pin"), "{fblock}");
}

#[test]
fn commit_pin_is_never_updateable() {
    let s = world(PINNED_REGISTRY)
        .run(&["plan"], Some("policy = \"auto\"\nimmutable_pins = false\n"))
        .stdout;
    let joined = block_of(&s, "commit.pinned");
    assert!(joined.contains("status: same"), "{joined}");
    assert!(joined.contains("action: HOLD"), "{joined}");
}

#[test]
fn standalone_resolves_plugin_config_dir_via_herdr() {
    let mut w = world(REGISTRY);
    w.plugin_config = Some(AUTO.to_string());
    let out = w.run(&["update"], None);
    let log = w.install_log();
    assert!(
        log.contains("smarzban/herdr-file-viewer"),
        "policy=auto from the plugin config dir must install: {log}"
    );
    assert!(
        !out.stderr.contains("policy` is not set"),
        "config with explicit policy must not warn: {}",
        out.stderr
    );
}

#[test]
fn unset_policy_emits_migration_warning() {
    let e = world(REGISTRY).run(&["update"], Some("")).stderr;
    assert!(e.contains("policy` is not set; defaulting to \"notify\""), "{e}");
    let e2 = world(REGISTRY).run(&["update"], Some("policy = \"notify\"\n")).stderr;
    assert!(!e2.contains("policy` is not set"), "{e2}");
    let e3 = world(REGISTRY).run(&["update"], Some(AUTO)).stderr;
    assert!(!e3.contains("policy` is not set"), "{e3}");
}

#[test]
fn verdicts_are_reused_from_the_cache() {
    let mut w = world(CLEAN_REGISTRY);
    assert_eq!(w.run(&["check"], None).code, 1);
    assert_eq!(w.cache.as_ref().unwrap().entries.len(), 2);
    // The API is gone, but the commits are the same.
    w.curl = stub_curl_fails;
    assert_eq!(w.run(&["check"], None).code, 1);
    assert_eq!(w.cache.as_ref().unwrap().entries.len(), 2);
}

#[test]
fn trail_that_cannot_be_written_is_a_warning() {
    // The directory that herdr names does not exist, and no file is given.
    let mut w = world(CLEAN_REGISTRY);
    let cfg = Config::default();
    let dir = Some(DataDir::At("/tmp/hau/plugin-config".to_string()));
    let code = w.update(&cfg, &dir, false, Some("herdr-file-viewer"));
    assert_eq!(code, 0);
    assert!(
        w.err.contains("  warning: cannot write state.json: No such file or directory (os error 2)\n"),
        "{}",
        w.err
    );
    assert_eq!(w.installs.len(), 1);
}

#[test]
fn startup_does_what_update_does() {
    let mut a = world(REGISTRY);
    let mut b = world(REGISTRY);
    let x = a.run(&["startup"], Some(AUTO));
    let y = b.run(&["update"], Some(AUTO));
    assert_eq!((x.code, x.stdout, x.stderr), (y.code, y.stdout, y.stderr));
    assert_eq!(a.installs, b.installs);
    assert_eq!(a.notifications, b.notifications);
}

#[test]
fn updates_are_installed_once_in_plan_order() {
    let mut w = world(REGISTRY);
    w.run(&["update"], Some(AUTO));
    assert_eq!(
        w.installs,
        vec![
            "plugin install smarzban/herdr-file-viewer --yes".to_string(),
            "plugin install ragamo/herdr-flock --ref refs/heads/stable --yes".to_string(),
        ]
    );
}
