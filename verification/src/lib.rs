//! Decides which installed herdr plugins are behind their upstream ref, which
//! of them may be reinstalled, and what is recorded, reported and undone.

pub mod apply;
pub mod calendar;
pub mod cli;
pub mod collect;
pub mod compare;
pub mod config;
pub mod install;
pub mod plan;
pub mod progress;
pub mod registry;
pub mod remote;
pub mod report;
pub mod rollback;
pub mod run;
pub mod state;
pub mod summary;
pub mod text;
pub mod tool;
pub mod untrack;
pub mod updater;
