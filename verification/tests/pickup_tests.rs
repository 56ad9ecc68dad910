use longinus::ability::{chain_step, ChainDecision};
use longinus::physics::{gate_switches, GateAction, GateTriggerHit};
use longinus::ability::learn_abilities;
use longinus::combat::{add_picked_up_modules, WeaponModuleKind};
use longinus::load_map::MapAbilityType;
use longinus::physics::{player_contacts, PlayerContact};

fn contact() -> PlayerContact {
    PlayerContact { item: None, ability: None, transition: None, save_point: None, terminal: false }
}

#[test]
fn abilities_are_never_lost() {
    assert_eq!(learn_abilities(true, false, &vec![]), (true, false));
    assert_eq!(learn_abilities(false, false, &vec![MapAbilityType::Chain]), (false, true));
    assert_eq!(
        learn_abilities(false, true, &vec![MapAbilityType::Boost, MapAbilityType::Boost]),
        (true, true)
    );
}

#[test]
fn picked_up_modules_join_the_spare_area_and_are_recorded() {
    let mut unequipped = vec![WeaponModuleKind::Plasma];
    let mut acquired = vec![("start".to_string(), 1)];
    add_picked_up_modules(
        &mut unequipped,
        &mut acquired,
        &"caves".to_string(),
        &vec![(4, WeaponModuleKind::Missile), (9, WeaponModuleKind::SideSlot)],
    );
    assert_eq!(
        unequipped,
        vec![WeaponModuleKind::Plasma, WeaponModuleKind::Missile, WeaponModuleKind::SideSlot]
    );
    assert_eq!(
        acquired,
        vec![("start".to_string(), 1), ("caves".to_string(), 4), ("caves".to_string(), 9)]
    );
}

#[test]
fn contacts_give_every_pickup_and_the_first_of_the_rest() {
    let contacts = vec![
        PlayerContact { item: Some((3, WeaponModuleKind::Plasma)), ..contact() },
        PlayerContact { terminal: true, save_point: Some(5), ..contact() },
        PlayerContact {
            ability: Some(MapAbilityType::Boost),
            transition: Some(("north".to_string(), 2)),
            ..contact()
        },
        PlayerContact {
            item: Some((8, WeaponModuleKind::Missile)),
            transition: Some(("south".to_string(), 1)),
            save_point: Some(6),
            terminal: true,
            ..contact()
        },
    ];
    let outcome = player_contacts(&contacts);
    assert_eq!(
        outcome.new_weapon_modules,
        vec![(3, WeaponModuleKind::Plasma), (8, WeaponModuleKind::Missile)]
    );
    assert_eq!(outcome.new_abilities, vec![MapAbilityType::Boost]);
    assert_eq!(outcome.load_new_map, Some(("north".to_string(), 2)));
    assert_eq!(outcome.save_point_contact, Some(5));
    assert_eq!(outcome.terminal_contact, Some(1));
}

#[test]
fn no_contacts_lead_nowhere() {
    let outcome = player_contacts(&vec![contact(), contact()]);
    assert!(outcome.new_weapon_modules.is_empty());
    assert!(outcome.new_abilities.is_empty());
    assert!(outcome.load_new_map.is_none());
    assert!(outcome.save_point_contact.is_none());
    assert!(outcome.terminal_contact.is_none());
}

#[test]
fn chain_is_thrown_and_let_go_on_fresh_presses() {
    assert_eq!(
        chain_step(true, false, true, false, true),
        ChainDecision { activated: true, kill: false, attach: true }
    );
    assert_eq!(
        chain_step(true, false, true, false, false),
        ChainDecision { activated: false, kill: false, attach: false }
    );
    assert_eq!(
        chain_step(false, false, true, false, true),
        ChainDecision { activated: false, kill: false, attach: false }
    );
    assert_eq!(
        chain_step(true, true, true, false, true),
        ChainDecision { activated: false, kill: true, attach: false }
    );
    assert_eq!(
        chain_step(true, true, true, true, true),
        ChainDecision { activated: true, kill: false, attach: false }
    );
}

#[test]
fn gate_triggers_switch_the_first_gate_with_their_id() {
    let gates = vec![4, 7, 4];
    let hits = vec![
        GateTriggerHit { gate_id: 4, action: GateAction::Open },
        GateTriggerHit { gate_id: 9, action: GateAction::Close },
        GateTriggerHit { gate_id: 7, action: GateAction::Close },
    ];
    assert_eq!(gate_switches(&hits, &gates), vec![(0, false), (1, true)]);
    assert!(gate_switches(&vec![], &gates).is_empty());
}
