//! Hooks that a plugin may leave unimplemented.

use vstd::prelude::*;

verus! {

/// A plugin with no hooks of its own.
#[derive(Debug, Clone, Copy)]
pub struct NoopHooks;

} // verus!
