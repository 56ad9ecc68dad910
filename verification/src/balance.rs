use vstd::prelude::*;

verus! {

/// How many steps a status effect takes to build up.
#[derive(Clone, Copy, Debug, PartialEq, Eq, Structural)]
pub struct StatusEffectBalancing {
    pub steps: i32,
}

/// Switches for debugging the game.
#[derive(Clone, Copy, Debug, PartialEq, Eq, Structural)]
pub struct DebugConfig {
    pub show_colliders: bool,
}

} // verus!
