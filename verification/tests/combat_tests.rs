use longinus::combat::{
    build_weapons, reversed_slot_position, slots_added_by, weapon_module_from_kind, Direction,
    EquippedModules, SlotPosition, WeaponModule, WeaponModuleKind,
};
use longinus::inventory::{append_held, copy_modules, replace_with_held};

#[test]
fn module_kinds_are_weapons_or_modifiers() {
    assert_eq!(
        weapon_module_from_kind(&WeaponModuleKind::Plasma),
        WeaponModule::Generator(WeaponModuleKind::Plasma)
    );
    assert_eq!(
        weapon_module_from_kind(&WeaponModuleKind::Missile),
        WeaponModule::Generator(WeaponModuleKind::Missile)
    );
    assert_eq!(
        weapon_module_from_kind(&WeaponModuleKind::SideSlot),
        WeaponModule::Modulator(WeaponModuleKind::SideSlot, Direction::Down)
    );
    assert_eq!(
        weapon_module_from_kind(&WeaponModuleKind::DoubleDamage75Freq),
        WeaponModule::Modulator(WeaponModuleKind::DoubleDamage75Freq, Direction::Left)
    );
    assert_eq!(
        weapon_module_from_kind(&WeaponModuleKind::DoubleFreq75Damage),
        WeaponModule::Modulator(WeaponModuleKind::DoubleFreq75Damage, Direction::Right)
    );
}

#[test]
fn equip_grid_get_and_set() {
    let mut grid = EquippedModules::empty();
    assert_eq!(grid.get(2, 3), None);
    grid.set(2, 3, Some(WeaponModuleKind::Missile));
    assert_eq!(grid.get(2, 3), Some(WeaponModuleKind::Missile));
    assert_eq!(grid.get(3, 2), None);
    assert_eq!(grid.cells[2 + 4 * 3], Some(WeaponModuleKind::Missile));
}

#[test]
fn empty_grid_builds_no_weapon() {
    assert!(build_weapons(&EquippedModules::empty()).is_empty());
}

#[test]
fn weapons_collect_attached_modifiers() {
    let mut grid = EquippedModules::empty();
    grid.set(1, 1, Some(WeaponModuleKind::Plasma));
    grid.set(1, 0, Some(WeaponModuleKind::Front2Slot));
    grid.set(2, 1, Some(WeaponModuleKind::DoubleDamage75Freq));
    grid.set(2, 0, Some(WeaponModuleKind::SideSlot));
    grid.set(0, 1, Some(WeaponModuleKind::DoubleFreq75Damage));
    grid.set(3, 3, Some(WeaponModuleKind::Missile));
    let plans = build_weapons(&grid);
    assert_eq!(plans.len(), 2);
    assert_eq!(plans[0].generator, WeaponModuleKind::Plasma);
    assert_eq!(
        plans[0].modulators,
        vec![
            WeaponModuleKind::Front2Slot,
            WeaponModuleKind::DoubleDamage75Freq,
            WeaponModuleKind::SideSlot,
            WeaponModuleKind::DoubleFreq75Damage,
        ]
    );
    assert_eq!(plans[1].generator, WeaponModuleKind::Missile);
    assert!(plans[1].modulators.is_empty());
}

#[test]
fn modifier_on_the_wrong_side_is_not_attached() {
    let mut grid = EquippedModules::empty();
    grid.set(1, 1, Some(WeaponModuleKind::Plasma));
    grid.set(1, 2, Some(WeaponModuleKind::Front2Slot));
    grid.set(0, 1, Some(WeaponModuleKind::DoubleDamage75Freq));
    let plans = build_weapons(&grid);
    assert_eq!(plans.len(), 1);
    assert!(plans[0].modulators.is_empty());
}

#[test]
fn reversed_slots_pair_up() {
    assert_eq!(reversed_slot_position(SlotPosition::FrontAhead), Some(SlotPosition::BackAhead));
    assert_eq!(reversed_slot_position(SlotPosition::BackAhead), Some(SlotPosition::FrontAhead));
    assert_eq!(
        reversed_slot_position(SlotPosition::Front45Left),
        Some(SlotPosition::Back45Left)
    );
    assert_eq!(reversed_slot_position(SlotPosition::SideLeft), None);
    for slot in [
        SlotPosition::FrontAhead,
        SlotPosition::FrontDoubleLeft,
        SlotPosition::FrontDoubleRight,
        SlotPosition::Front45Left,
        SlotPosition::Front45Right,
        SlotPosition::BackAhead,
        SlotPosition::BackDoubleLeft,
        SlotPosition::BackDoubleRight,
        SlotPosition::Back45Left,
        SlotPosition::Back45Right,
    ] {
        let reversed = reversed_slot_position(slot).unwrap();
        assert_ne!(reversed, slot);
        assert_eq!(reversed_slot_position(reversed), Some(slot));
    }
}

#[test]
fn slot_modifiers_open_two_slots() {
    assert_eq!(
        slots_added_by(WeaponModuleKind::Front2Slot),
        vec![SlotPosition::FrontDoubleLeft, SlotPosition::FrontDoubleRight]
    );
    assert_eq!(
        slots_added_by(WeaponModuleKind::FortyFiveSlot),
        vec![SlotPosition::Front45Left, SlotPosition::Front45Right]
    );
    assert_eq!(
        slots_added_by(WeaponModuleKind::SideSlot),
        vec![SlotPosition::SideLeft, SlotPosition::SideRight]
    );
    assert!(slots_added_by(WeaponModuleKind::MirrorSlot).is_empty());
    assert!(slots_added_by(WeaponModuleKind::Plasma).is_empty());
}

#[test]
fn inventory_list_edits() {
    let list = vec![WeaponModuleKind::Plasma, WeaponModuleKind::Missile, WeaponModuleKind::SideSlot];
    assert_eq!(copy_modules(&list), list);
    assert_eq!(
        append_held(&list, Some(WeaponModuleKind::MirrorSlot)),
        vec![
            WeaponModuleKind::Plasma,
            WeaponModuleKind::Missile,
            WeaponModuleKind::SideSlot,
            WeaponModuleKind::MirrorSlot,
        ]
    );
    assert_eq!(append_held(&list, None), list);
    assert_eq!(
        replace_with_held(&list, 1, Some(WeaponModuleKind::Front2Slot)),
        vec![WeaponModuleKind::Plasma, WeaponModuleKind::Front2Slot, WeaponModuleKind::SideSlot]
    );
    assert_eq!(
        replace_with_held(&list, 0, None),
        vec![WeaponModuleKind::Missile, WeaponModuleKind::SideSlot]
    );
}

use longinus::combat::{firing_slots, mirrored_slots, plan_slots, weapon_slot_set};

#[test]
fn plan_slots_collect_in_order() {
    let (slots, reversed) = plan_slots(&vec![
        WeaponModuleKind::SideSlot,
        WeaponModuleKind::DoubleDamage75Freq,
        WeaponModuleKind::Front2Slot,
    ]);
    assert_eq!(
        slots,
        vec![
            SlotPosition::SideLeft,
            SlotPosition::SideRight,
            SlotPosition::FrontDoubleLeft,
            SlotPosition::FrontDoubleRight,
        ]
    );
    assert!(!reversed);
    let (slots, reversed) = plan_slots(&vec![WeaponModuleKind::MirrorSlot]);
    assert!(slots.is_empty());
    assert!(reversed);
}

#[test]
fn mirrored_slots_add_the_reverses() {
    assert_eq!(
        mirrored_slots(&vec![SlotPosition::FrontAhead, SlotPosition::SideLeft, SlotPosition::Back45Right]),
        vec![
            SlotPosition::FrontAhead,
            SlotPosition::BackAhead,
            SlotPosition::SideLeft,
            SlotPosition::Back45Right,
            SlotPosition::Front45Right,
        ]
    );
    assert!(mirrored_slots(&vec![]).is_empty());
}

#[test]
fn weapon_without_slots_fires_ahead() {
    assert_eq!(firing_slots(&weapon_slot_set(&vec![])), vec![SlotPosition::FrontAhead]);
    assert_eq!(
        firing_slots(&weapon_slot_set(&vec![WeaponModuleKind::DoubleDamage75Freq])),
        vec![SlotPosition::FrontAhead]
    );
}

fn sorted(mut slots: Vec<SlotPosition>) -> Vec<SlotPosition> {
    slots.sort_by_key(|slot| format!("{:?}", slot));
    slots
}

#[test]
fn weapon_slot_set_holds_each_slot_once() {
    let set = weapon_slot_set(&vec![
        WeaponModuleKind::SideSlot,
        WeaponModuleKind::SideSlot,
        WeaponModuleKind::Front2Slot,
    ]);
    assert_eq!(
        sorted(firing_slots(&set)),
        sorted(vec![
            SlotPosition::SideLeft,
            SlotPosition::SideRight,
            SlotPosition::FrontDoubleLeft,
            SlotPosition::FrontDoubleRight,
        ])
    );
}

#[test]
fn mirrored_weapon_fires_both_ways() {
    let set = weapon_slot_set(&vec![WeaponModuleKind::FortyFiveSlot, WeaponModuleKind::MirrorSlot]);
    assert_eq!(
        sorted(firing_slots(&set)),
        sorted(vec![
            SlotPosition::Front45Left,
            SlotPosition::Front45Right,
            SlotPosition::Back45Left,
            SlotPosition::Back45Right,
        ])
    );
}

#[test]
fn mirror_alone_fires_ahead_and_behind() {
    let set = weapon_slot_set(&vec![WeaponModuleKind::MirrorSlot]);
    assert_eq!(
        sorted(firing_slots(&set)),
        sorted(vec![SlotPosition::FrontAhead, SlotPosition::BackAhead])
    );
    let set = weapon_slot_set(&vec![WeaponModuleKind::MirrorSlot, WeaponModuleKind::SideSlot]);
    assert_eq!(
        sorted(firing_slots(&set)),
        sorted(vec![SlotPosition::SideLeft, SlotPosition::SideRight])
    );
}
