//! A release-workflow engine: a state machine over declared steps, semantic
//! version bumping, conventional-commit classification and changelog splicing.

pub mod text;
pub mod semver;
pub mod commits;
pub mod changelog;
pub mod command;
pub mod state;
pub mod step;
pub mod branch;
