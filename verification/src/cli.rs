//! What a run is asked to do.

use vstd::prelude::*;

verus! {

/// The arguments of a run.
#[derive(Debug)]
pub struct Args {
    /// The channel that is released on; `production` where none is given.
    pub environment: String,
    /// Change nothing; say what would be changed.
    pub dry_run: bool,
    /// Tag the current version of each package, and compute no new one.
    pub tag: bool,
}

/// Whether a run changes files and the repository, or only says what it
/// would change.
#[derive(Clone, Copy, Debug)]
pub struct DryRunConfig {
    pub is_dry_run: bool,
}

/// What a run does with each package.
#[derive(Clone, Copy, Debug, PartialEq, Eq, Structural)]
pub enum RunMode {
    /// Tag the version that the package stands at.
    TagCurrent,
    /// Work out the next version and the changelog.
    Release,
}

impl Args {
    /// Whether the run changes anything.
    pub fn dry_run_config(&self) -> (config: DryRunConfig)
        ensures
            config.is_dry_run == self.dry_run,
    {
        DryRunConfig { is_dry_run: self.dry_run }
    }

    /// What the run does with each package.
    pub fn mode(&self) -> (mode: RunMode)
        ensures
            mode == if self.tag {
                RunMode::TagCurrent
            } else {
                RunMode::Release
            },
    {
        if self.tag {
            RunMode::TagCurrent
        } else {
            RunMode::Release
        }
    }
}

} // verus!
