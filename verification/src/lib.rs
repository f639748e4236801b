//! Declarative symlink management: packages of symlink declarations, the
//! status of each declared link, and the decisions taken while linking and
//! unlinking. Filesystem access is left to the caller, who performs the
//! requests this library issues and hands the replies back.

pub mod operation;
pub mod package;
pub mod path;
pub mod render;
pub mod symlink;
pub mod text;

use crate::symlink::{StatusView, SymlinkStatus};
use vstd::prelude::*;

verus! {

/// What is asked of every package.
#[derive(Debug, Clone, Copy)]
pub enum Command {
    /// Link what is not linked. `force` clears each destination first.
    Link { force: bool },
    /// Unlink what is not unlinked. `force` removes each destination unseen.
    Unlink { force: bool },
    /// Report only.
    Status,
}

impl Command {
    /// Whether the command has work to do on a symlink of the given status.
    pub open spec fn concerns(self, status: StatusView) -> bool {
        match self {
            Command::Link { .. } => !(status is Linked),
            Command::Unlink { .. } => !(status is Unlinked),
            Command::Status => false,
        }
    }

    /// Whether the command has work to do on a symlink of the given status:
    /// linking passes over what is linked, unlinking over what is unlinked,
    /// and a report changes nothing.
    pub fn applies_to(&self, status: &SymlinkStatus) -> (r: bool)
        ensures
            r == self.concerns(status@),
    {
        match self {
            Command::Link { .. } => match status {
                SymlinkStatus::Linked => false,
                _ => true,
            },
            Command::Unlink { .. } => match status {
                SymlinkStatus::Unlinked => false,
                _ => true,
            },
            Command::Status => false,
        }
    }
}

} // verus!
