use vstd::prelude::*;

verus! {

/// The kinds of visual effect that can play over the world.
#[derive(Clone, Copy, Debug, PartialEq, Eq, Structural)]
pub enum EffectKind {
    NoiseDissolve,
}

} // verus!
