//! Conventional commits: parsing commit messages, walking a history of
//! commits, telling the next semantic version, and gathering the commits of
//! each release for a changelog.
pub mod bump;
pub mod changelog;
pub mod check;
pub mod cli;
pub mod commit_cmd;
pub mod commits;
pub mod config;
pub mod git;
pub mod grammar;
pub mod host;
pub mod pattern;
pub mod releases;
pub mod strip;
pub mod text;
pub mod transform;
pub mod versions;
pub mod windows;
pub mod wrap;

pub use commits::{CommitParser, Footer, FooterKey, ParseError};
pub use config::{Config, Increment, Type};
pub use git::{Commit, RevWalkOptions};
