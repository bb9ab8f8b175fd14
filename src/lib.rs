//! The core of a schedule-driven backup agent: content-hash snapshots of a
//! directory tree, gitignore-style exclusion rules, the change-set of a new scan
//! against the last baseline and the baseline that follows, the remote keys of
//! a cycle's uploads and the files that cleanup may delete, and the scheduler
//! that decides when each target scans.

pub mod config;
pub mod config_app;
pub mod cycle;
pub mod digest;
pub mod ignore_filter;
pub mod scan;
pub mod schedule;
pub mod snapshot;
pub mod upload;
