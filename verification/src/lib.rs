//! Spaces: disposable working copies of a git repository, each a clone that is
//! backed by a shared local mirror and seeded with files from another space.
//!
//! This library holds the decisions of the tool, and proves what it says of
//! them. It reads no file, starts no process and asks no user: a caller does
//! that, hands over what it found, and carries out what comes back.
//!
//! - [`config`]: settings in four sources, read by scope or merged with a fixed
//!   precedence.
//! - [`copy`]: which files and directories a copy between spaces moves; unsafe
//!   patterns never match, and a dry run selects what a real run copies.
//! - [`paths`], [`targets`]: where clones and mirror live, and which space a
//!   name stands for.
//! - [`clone`], [`mirror`], [`hooks`], [`commands`], [`ui`]: the steps of the
//!   commands, the lines they print, and the answers they read.
//! - [`git`]: how an answer of the version-control tool is read.
//! - [`text`], [`order`]: strings as sequences of characters, and sequences
//!   without repetition.
//! - [`fspath`], [`globs`]: what the standard library computes of paths and the
//!   `glob` crate of patterns, each behind a contract that is taken on trust.

pub mod cli;
pub mod clone;
pub mod commands;
pub mod config;
pub mod copy;
pub mod fspath;
pub mod git;
pub mod globs;
pub mod hooks;
pub mod mirror;
pub mod order;
pub mod paths;
pub mod targets;
pub mod text;
pub mod ui;
