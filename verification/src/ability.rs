use vstd::prelude::*;
use crate::load_map::MapAbilityType;

verus! {

/// How many mana tanks of each kind the player has collected: those that
/// refill by themselves and those that only pickups refill.
#[derive(Clone, Copy, Debug, PartialEq, Eq, Structural)]
pub struct ManaTanksCapacityInfo {
    pub auto_recharge_mana_tanks: i32,
    pub non_recharge_mana_tanks: i32,
}

impl Default for ManaTanksCapacityInfo {
    /// No tanks of either kind.
    fn default() -> (info: Self)
        ensures
            info.auto_recharge_mana_tanks == 0,
            info.non_recharge_mana_tanks == 0,
    {
        ManaTanksCapacityInfo { auto_recharge_mana_tanks: 0, non_recharge_mana_tanks: 0 }
    }
}

/// Whether the abilities now known are the ones known before plus those
/// picked up this frame: an ability once acquired is never lost.
pub fn learn_abilities(
    acquired_boost: bool,
    acquired_chain: bool,
    new_abilities: &Vec<MapAbilityType>,
) -> (acquired: (bool, bool))
    ensures
        acquired.0 == (acquired_boost || new_abilities@.contains(MapAbilityType::Boost)),
        acquired.1 == (acquired_chain || new_abilities@.contains(MapAbilityType::Chain)),
{
    let mut boost = acquired_boost;
    let mut chain = acquired_chain;
    let mut i: usize = 0;
    while i < new_abilities.len()
        invariant
            i <= new_abilities@.len(),
            boost == (acquired_boost || new_abilities@.take(i as int).contains(MapAbilityType::Boost)),
            chain == (acquired_chain || new_abilities@.take(i as int).contains(MapAbilityType::Chain)),
        decreases new_abilities@.len() - i,
    {
        let ghost before = new_abilities@.take(i as int);
        proof {
            assert(new_abilities@.take(i + 1) =~= before.push(new_abilities@[i as int]));
        }
        match new_abilities[i] {
            MapAbilityType::Boost => {
                boost = true;
            },
            MapAbilityType::Chain => {
                chain = true;
            },
        }
        proof {
            let after = new_abilities@.take(i + 1);
            assert(after[i as int] == new_abilities@[i as int]);
            assert forall|a: MapAbilityType| after.contains(a) <==> (before.contains(a)
                || a == new_abilities@[i as int]) by {
                if after.contains(a) {
                    let k = choose|k: int| 0 <= k < after.len() && after[k] == a;
                    if k < i {
                        assert(before[k] == a);
                    }
                }
                if before.contains(a) {
                    let k = choose|k: int| 0 <= k < before.len() && before[k] == a;
                    assert(after[k] == a);
                }
            }
        }
        i = i + 1;
    }
    proof {
        assert(new_abilities@.take(i as int) =~= new_abilities@);
    }
    (boost, chain)
}

/// What the chain ability does in a frame.
#[derive(Clone, Copy, Debug, PartialEq, Eq, Structural)]
pub struct ChainDecision {
    /// Whether the chain is out after this frame.
    pub activated: bool,
    /// Whether an active chain is let go this frame.
    pub kill: bool,
    /// Whether the chain is thrown to the nearest mount point this frame.
    pub attach: bool,
}

/// One frame of the chain ability. A fresh press of the chain button lets go
/// of an active chain; with the ability acquired and no chain out, it throws
/// the chain to a mount point when one is in range. The chain is out after
/// the frame if it was out or was thrown, and was not let go.
pub fn chain_step(
    acquired_chain: bool,
    chain_activated: bool,
    pressed: bool,
    was_pressed: bool,
    mount_point_in_range: bool,
) -> (decision: ChainDecision)
    ensures
        decision.kill == (chain_activated && pressed && !was_pressed),
        decision.attach == (acquired_chain && !chain_activated && pressed && !was_pressed
            && mount_point_in_range),
        decision.activated == ((chain_activated || decision.attach) && !decision.kill),
{
    let fresh_press = pressed && !was_pressed;
    let kill = chain_activated && fresh_press;
    let attach = acquired_chain && !chain_activated && fresh_press && mount_point_in_range;
    ChainDecision { activated: (chain_activated || attach) && !kill, kill, attach }
}

} // verus!
