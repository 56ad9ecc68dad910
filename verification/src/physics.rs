use vstd::prelude::*;
use crate::combat::WeaponModuleKind;
use crate::load_map::MapAbilityType;

verus! {

/// What an entity that the player touches this frame offers: a module to
/// pick up (with its id on the map), an ability, a way to another map (its
/// name and the spawn point there), a save point (with its id), and
/// whether it is a terminal.
pub struct PlayerContact {
    pub item: Option<(i32, WeaponModuleKind)>,
    pub ability: Option<MapAbilityType>,
    pub transition: Option<(String, i32)>,
    pub save_point: Option<i32>,
    pub terminal: bool,
}

/// What the player's contacts of one frame lead to. `terminal_contact` is
/// the position, among the contacts, of the terminal whose text is shown.
pub struct ContactOutcome {
    pub new_weapon_modules: Vec<(i32, WeaponModuleKind)>,
    pub new_abilities: Vec<MapAbilityType>,
    pub load_new_map: Option<(String, i32)>,
    pub save_point_contact: Option<i32>,
    pub terminal_contact: Option<usize>,
}

/// The modules offered by the contacts, in the order of the contacts.
pub open spec fn contact_items(contacts: Seq<PlayerContact>) -> Seq<(i32, WeaponModuleKind)>
    decreases contacts.len(),
{
    if contacts.len() == 0 {
        Seq::empty()
    } else {
        let rest = contact_items(contacts.drop_last());
        match contacts.last().item {
            Some(item) => rest.push(item),
            None => rest,
        }
    }
}

/// The abilities offered by the contacts, in the order of the contacts.
pub open spec fn contact_abilities(contacts: Seq<PlayerContact>) -> Seq<MapAbilityType>
    decreases contacts.len(),
{
    if contacts.len() == 0 {
        Seq::empty()
    } else {
        let rest = contact_abilities(contacts.drop_last());
        match contacts.last().ability {
            Some(ability) => rest.push(ability),
            None => rest,
        }
    }
}

/// `k` is the first contact that offers a way to another map.
pub open spec fn first_transition_at(contacts: Seq<PlayerContact>, k: int) -> bool {
    &&& 0 <= k < contacts.len()
    &&& contacts[k].transition is Some
    &&& forall|j: int| 0 <= j < k ==> (#[trigger] contacts[j]).transition is None
}

/// `k` is the first contact that is a save point.
pub open spec fn first_save_point_at(contacts: Seq<PlayerContact>, k: int) -> bool {
    &&& 0 <= k < contacts.len()
    &&& contacts[k].save_point is Some
    &&& forall|j: int| 0 <= j < k ==> (#[trigger] contacts[j]).save_point is None
}

/// `k` is the first contact that is a terminal.
pub open spec fn first_terminal_at(contacts: Seq<PlayerContact>, k: int) -> bool {
    &&& 0 <= k < contacts.len()
    &&& contacts[k].terminal
    &&& forall|j: int| 0 <= j < k ==> !(#[trigger] contacts[j]).terminal
}

/// What the player's contacts of one frame lead to: every module and every
/// ability on offer is picked up; the first way to another map, the first
/// save point and the first terminal among the contacts are the ones that
/// count, and none counts where no contact offers one.
pub fn player_contacts(contacts: &Vec<PlayerContact>) -> (outcome: ContactOutcome)
    ensures
        outcome.new_weapon_modules@ == contact_items(contacts@),
        outcome.new_abilities@ == contact_abilities(contacts@),
        match outcome.load_new_map {
            None => forall|j: int| 0 <= j < contacts@.len() ==> (#[trigger] contacts@[j]).transition is None,
            Some(t) => exists|k: int| first_transition_at(contacts@, k) && contacts@[k].transition == Some(t),
        },
        match outcome.save_point_contact {
            None => forall|j: int| 0 <= j < contacts@.len() ==> (#[trigger] contacts@[j]).save_point is None,
            Some(id) => exists|k: int| first_save_point_at(contacts@, k) && contacts@[k].save_point == Some(id),
        },
        match outcome.terminal_contact {
            None => forall|j: int| 0 <= j < contacts@.len() ==> !(#[trigger] contacts@[j]).terminal,
            Some(k) => first_terminal_at(contacts@, k as int),
        },
{
    let mut new_weapon_modules: Vec<(i32, WeaponModuleKind)> = Vec::new();
    let mut new_abilities: Vec<MapAbilityType> = Vec::new();
    let mut transition_at: Option<usize> = None;
    let mut save_point_contact: Option<i32> = None;
    let mut terminal_contact: Option<usize> = None;
    let mut i: usize = 0;
    while i < contacts.len()
        invariant
            i <= contacts@.len(),
            new_weapon_modules@ == contact_items(contacts@.take(i as int)),
            new_abilities@ == contact_abilities(contacts@.take(i as int)),
            match transition_at {
                None => forall|j: int| 0 <= j < i ==> (#[trigger] contacts@[j]).transition is None,
                Some(k) => k < i && first_transition_at(contacts@, k as int),
            },
            match save_point_contact {
                None => forall|j: int| 0 <= j < i ==> (#[trigger] contacts@[j]).save_point is None,
                Some(id) => exists|k: int|
                    k < i && first_save_point_at(contacts@, k) && contacts@[k].save_point == Some(id),
            },
            match terminal_contact {
                None => forall|j: int| 0 <= j < i ==> !(#[trigger] contacts@[j]).terminal,
                Some(k) => k < i && first_terminal_at(contacts@, k as int),
            },
        decreases contacts@.len() - i,
    {
        let contact = &contacts[i];
        proof {
            let t = contacts@.take(i + 1);
            assert(t.drop_last() =~= contacts@.take(i as int));
            assert(t.last() == contacts@[i as int]);
        }
        match contact.item {
            Some(item) => new_weapon_modules.push(item),
            None => {},
        }
        match contact.ability {
            Some(ability) => new_abilities.push(ability),
            None => {},
        }
        if transition_at.is_none() && contact.transition.is_some() {
            transition_at = Some(i);
        }
        if save_point_contact.is_none() {
            match contact.save_point {
                Some(id) => {
                    save_point_contact = Some(id);
                    assert(first_save_point_at(contacts@, i as int));
                },
                None => {},
            }
        }
        if terminal_contact.is_none() && contact.terminal {
            terminal_contact = Some(i);
        }
        i = i + 1;
    }
    proof {
        assert(contacts@.take(i as int) =~= contacts@);
    }
    let load_new_map = match transition_at {
        None => None,
        Some(k) => match &contacts[k].transition {
            Some((name, spawn)) => Some((name.clone(), *spawn)),
            None => None,
        },
    };
    ContactOutcome {
        new_weapon_modules,
        new_abilities,
        load_new_map,
        save_point_contact,
        terminal_contact,
    }
}

/// What a gate trigger does to its gate.
#[derive(Clone, Copy, Debug, PartialEq, Eq, Structural)]
pub enum GateAction {
    Open,
    Close,
}

/// A gate trigger that something touches this frame: which gate it acts on
/// (by id) and what it does to that gate.
#[derive(Clone, Copy, Debug, PartialEq, Eq, Structural)]
pub struct GateTriggerHit {
    pub gate_id: i32,
    pub action: GateAction,
}

/// `k` is the first position in `gate_ids` that carries the id `id`.
pub open spec fn first_gate_at(gate_ids: Seq<i32>, id: i32, k: int) -> bool {
    &&& 0 <= k < gate_ids.len()
    &&& gate_ids[k] == id
    &&& forall|j: int| 0 <= j < k ==> gate_ids[j] != id
}

/// The position of the first gate with the id `id`, if there is one.
pub open spec fn first_gate_index(gate_ids: Seq<i32>, id: i32) -> Option<int> {
    if exists|k: int| first_gate_at(gate_ids, id, k) {
        Some(choose|k: int| first_gate_at(gate_ids, id, k))
    } else {
        None
    }
}

/// Which gates the touched triggers switch, in the order of the triggers:
/// each trigger switches the first gate that carries its gate id (none if
/// no gate carries it), enabling that gate's colliders to close it and
/// disabling them to open it.
pub open spec fn spec_gate_switches(triggers: Seq<GateTriggerHit>, gate_ids: Seq<i32>) -> Seq<
    (usize, bool),
>
    decreases triggers.len(),
{
    if triggers.len() == 0 {
        Seq::empty()
    } else {
        let rest = spec_gate_switches(triggers.drop_last(), gate_ids);
        let t = triggers.last();
        match first_gate_index(gate_ids, t.gate_id) {
            Some(k) => rest.push((k as usize, t.action == GateAction::Close)),
            None => rest,
        }
    }
}

/// The position of the first gate with the id `id`.
fn find_gate(gate_ids: &Vec<i32>, id: i32) -> (found: Option<usize>)
    ensures
        match found {
            Some(k) => first_gate_index(gate_ids@, id) == Some(k as int),
            None => first_gate_index(gate_ids@, id) is None,
        },
{
    let mut i: usize = 0;
    while i < gate_ids.len()
        invariant
            i <= gate_ids@.len(),
            forall|j: int| 0 <= j < i ==> gate_ids@[j] != id,
        decreases gate_ids@.len() - i,
    {
        if gate_ids[i] == id {
            proof {
                assert(first_gate_at(gate_ids@, id, i as int));
                let c = choose|k: int| first_gate_at(gate_ids@, id, k);
                if c < i {
                    assert(gate_ids@[c] != id);
                }
                if c > i {
                    assert(gate_ids@[i as int] != id);
                }
            }
            return Some(i);
        }
        i = i + 1;
    }
    proof {
        if exists|k: int| first_gate_at(gate_ids@, id, k) {
            let c = choose|k: int| first_gate_at(gate_ids@, id, k);
            assert(gate_ids@[c] != id);
        }
    }
    None
}

/// Which gates the triggers touched this frame switch (see
/// [`spec_gate_switches`]): pairs of a position among `gate_ids` and whether
/// that gate's colliders are enabled, to be applied in order.
pub fn gate_switches(triggers: &Vec<GateTriggerHit>, gate_ids: &Vec<i32>) -> (switches: Vec<
    (usize, bool),
>)
    ensures
        switches@ == spec_gate_switches(triggers@, gate_ids@),
{
    let mut switches: Vec<(usize, bool)> = Vec::new();
    let mut i: usize = 0;
    while i < triggers.len()
        invariant
            i <= triggers@.len(),
            switches@ == spec_gate_switches(triggers@.take(i as int), gate_ids@),
        decreases triggers@.len() - i,
    {
        let t = triggers[i];
        proof {
            let after = triggers@.take(i + 1);
            assert(after.drop_last() =~= triggers@.take(i as int));
            assert(after.last() == t);
        }
        match find_gate(gate_ids, t.gate_id) {
            Some(k) => {
                let close = match t.action {
                    GateAction::Close => true,
                    GateAction::Open => false,
                };
                switches.push((k, close));
            },
            None => {},
        }
        i = i + 1;
    }
    proof {
        assert(triggers@.take(i as int) =~= triggers@);
    }
    switches
}

} // verus!
