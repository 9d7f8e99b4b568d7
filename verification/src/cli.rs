//! The commands of the tool and their arguments, as plain values.

use vstd::prelude::*;

verus! {

/// One invocation of the tool.
#[derive(Debug)]
pub struct Cli {
    pub command: Commands,
}

/// The commands of the tool.
#[derive(Debug)]
pub enum Commands {
    /// Create a new space.
    New(NewArgs),
    /// Remove spaces by name or id.
    Rm(RmArgs),
    /// Print the path of a space or of the main repository.
    Go(TargetArg),
    /// Run a command inside a space.
    Run(RunArgs),
    /// List the spaces of this repository.
    List(ListArgs),
    /// Copy files between spaces.
    Copy(CopyArgs),
    /// Remove empty spaces and, where asked, those whose work is merged.
    Clean(CleanArgs),
    /// Check that the tool can work here.
    Doctor,
    /// Show or refresh the mirror.
    Mirrors(MirrorsArgs),
    /// Read and write settings.
    Config(ConfigArgs),
}

/// The one space that a command is about.
#[derive(Debug)]
pub struct TargetArg {
    pub id: String,
}

/// The arguments of `new`.
#[derive(Debug)]
pub struct NewArgs {
    pub name: Option<String>,
    pub branch: Option<String>,
    pub from: Option<String>,
    pub no_fetch: bool,
    pub no_copy: bool,
    pub yes: bool,
}

/// The arguments of `mirrors`.
#[derive(Debug)]
pub struct MirrorsArgs {
    pub command: Option<MirrorsCommand>,
}

/// What `mirrors` is asked to do beyond showing the mirror.
#[derive(Clone, Copy, Debug, PartialEq, Eq, Structural)]
pub enum MirrorsCommand {
    Update,
}

/// The arguments of `rm`.
#[derive(Debug)]
pub struct RmArgs {
    pub targets: Vec<String>,
    pub force: bool,
    pub yes: bool,
}

/// The arguments of `run`.
#[derive(Debug)]
pub struct RunArgs {
    pub id: String,
    pub cmd: Vec<String>,
}

/// The arguments of `list`.
#[derive(Debug)]
pub struct ListArgs {
    pub porcelain: bool,
}

/// The arguments of `copy`.
#[derive(Debug)]
pub struct CopyArgs {
    pub targets: Vec<String>,
    pub from: Option<String>,
    pub all: bool,
    pub dry_run: bool,
    pub patterns: Vec<String>,
}

/// The arguments of `clean`.
#[derive(Debug)]
pub struct CleanArgs {
    pub merged: bool,
    pub yes: bool,
    pub dry_run: bool,
}

/// The arguments of `config`, as they were typed.
#[derive(Debug)]
pub struct ConfigArgs {
    pub args: Vec<String>,
}

} // verus!
