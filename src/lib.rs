//! A read-only web front end's core for browsing git repositories: commit
//! statistics, diffstat bar charts and anchored patch rendering.
pub mod commit;
pub mod config;
pub mod data;
pub mod diffstat;
pub mod escape;
pub mod log;
pub mod page;
pub mod patch;
pub mod refs;
pub mod text;
pub mod time;
