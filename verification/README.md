# herdr-auto-update

Checks installed [herdr](https://herdr.dev) plugins for newer upstream commits
and reinstalls them through herdr, at server startup or by hand. The decisions
are verified: `src/` is a library whose functions carry contracts that are proved,
but for the few calls that are taken on trust (below), and `app/` is the program
around it that runs other programs and reads and writes files.

## Layout

| Module | What it holds |
|---|---|
| `text` | words, lines, numbers and lookups in text |
| `calendar` | which date a day since 1970-01-01 is |
| `tool` | which program to run, and when one that hangs is killed |
| `registry` | the installed plugins as herdr lists them, valid names |
| `config` | settings, `allow` patterns, where files live |
| `compare` | the relation of two commits, and the cache of it |
| `remote` | what upstream says about one plugin |
| `collect` | sorting the plugins and putting the answers in place |
| `updater` | what is known of a plugin, and how it is shown |
| `plan` | what is done with every plugin, and why |
| `install` | reinstalling a plugin |
| `apply` | carrying out a plan, plugin by plugin |
| `run` | going through a plan from its first entry to its last |
| `summary` | the end of a run: report, notification, exit code |
| `state` | the trail of updates and rollbacks |
| `rollback` | undoing an update, undoing that, printing the trail |
| `untrack` | moving a plugin from its commit pin to its default branch |
| `progress` | the live panel |
| `report` | lines and exit codes |
| `cli` | the command line |

Work that alternates between decisions and the outside world is written as
steps: `begin` says what to do first, `follow` takes what came of it and says what
to do next (`remote`, `apply`, `rollback`). `run` strings the steps of all plugins
together. `app/` does what it is told and hands
back what happened.

The proof functions of the modules state what holds across functions: that a plan
never installs what policy, pins or names forbid, that a rollback and a resume
undo each other, that the order in which answers arrive does not matter.

## What is taken on trust

`String::push`, `String::from_utf8_lossy`, `String::from_utf16_lossy`, the system
clock, and `serde_json::to_string_pretty`. Each is declared where it is used, with
what is claimed of it; of the clock nothing is.
