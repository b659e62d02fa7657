//! The scenes the test program can run.

use vstd::prelude::*;

verus! {

/// A window with a player entity that the arrow keys move, for checking
/// the order in which systems depend on each other.
#[derive(Debug, Default, Copy, Clone, PartialEq, Eq, Structural)]
pub struct DependencyTestScene;

/// The smallest scene with user-interface controls, a player and a
/// destruction test.
#[derive(Debug, Default, Copy, Clone, PartialEq, Eq, Structural)]
pub struct MinimalTestScene;

} // verus!
