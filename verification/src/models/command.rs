//! Who issues a command.

use vstd::prelude::*;

verus! {

/// The origin of a command.
#[derive(Debug, Clone, Copy, PartialEq, Eq, Structural)]
pub enum CallerType {
    Cli,
    Ipc,
    Plugin,
}

} // verus!
