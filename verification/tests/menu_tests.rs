use std::rc::Rc;

use longinus::combat::{Direction, EquippedModules, WeaponModuleKind};
use longinus::ecs::Terminal;
use longinus::inventory::InventoryUpdateData;
use longinus::load_map::MapAbilityType;
use longinus::menu::{
    ability_pickup_confirm, game_over, handle_cursor_movement, inventory_main, inventory_pick_slot,
    line_count, menu_input, menu_input_to_direction, menu_load_game, menu_main, module_pickup_confirm,
    next_main_menus, next_menus, open_menu, pause_load_game, pause_main, save_confirm,
    terminal_show, CursorOverride, CursorPosition, GameMenu, GameMenuKind, MainMenu, MainMenuKind,
    Menu, MenuButtons, MenuInput, MenuSystem, OpenMenuFacts, QuitDecision, SaveToLoad,
};

fn none() -> MenuInput {
    MenuInput {
        up: false,
        down: false,
        left: false,
        right: false,
        confirm: false,
        cancel: false,
        inventory: false,
        pause: false,
    }
}

fn up() -> MenuInput {
    MenuInput { up: true, ..none() }
}

fn down() -> MenuInput {
    MenuInput { down: true, ..none() }
}

fn left() -> MenuInput {
    MenuInput { left: true, ..none() }
}

fn right() -> MenuInput {
    MenuInput { right: true, ..none() }
}

fn confirm() -> MenuInput {
    MenuInput { confirm: true, ..none() }
}

fn cancel() -> MenuInput {
    MenuInput { cancel: true, ..none() }
}

fn at(x: i32, y: i32) -> CursorPosition {
    CursorPosition { x, y }
}

fn saves() -> Vec<String> {
    vec!["save_a".to_string(), "save_c".to_string(), "save_b".to_string()]
}

#[test]
fn directions_cancel_out_and_come_vertical_first() {
    assert_eq!(menu_input_to_direction(&none()), vec![]);
    assert_eq!(menu_input_to_direction(&MenuInput { up: true, down: true, ..none() }), vec![]);
    assert_eq!(
        menu_input_to_direction(&MenuInput { down: true, left: true, ..none() }),
        vec![Direction::Down, Direction::Left]
    );
    assert_eq!(
        menu_input_to_direction(&MenuInput { right: true, left: true, up: true, ..none() }),
        vec![Direction::Up]
    );
}

#[test]
fn cursor_steps_and_wraps() {
    assert_eq!(handle_cursor_movement(at(0, 0), 0, 0, 2, &down(), None), at(0, 1));
    assert_eq!(handle_cursor_movement(at(0, 2), 0, 0, 2, &down(), None), at(0, 0));
    assert_eq!(handle_cursor_movement(at(0, 0), 0, 0, 2, &up(), None), at(0, 2));
    assert_eq!(handle_cursor_movement(at(1, 0), 0, 1, 0, &right(), None), at(0, 0));
    assert_eq!(handle_cursor_movement(at(0, 0), 0, 1, 0, &left(), None), at(1, 0));
}

#[test]
fn cursor_stays_without_a_press() {
    assert_eq!(handle_cursor_movement(at(7, 9), 0, 1, 1, &none(), None), at(7, 9));
    assert_eq!(handle_cursor_movement(at(0, 1), 0, 0, 2, &confirm(), None), at(0, 1));
}

#[test]
fn cursor_override_applies_at_its_position() {
    let overrides = vec![
        CursorOverride { position: at(0, 0), moves: vec![(Direction::Up, at(0, -1))] },
        CursorOverride { position: at(3, 0), moves: vec![(Direction::Right, at(4, 0))] },
    ];
    assert_eq!(handle_cursor_movement(at(0, 0), 0, 3, 3, &up(), Some(&overrides)), at(0, -1));
    assert_eq!(handle_cursor_movement(at(3, 0), 0, 3, 3, &right(), Some(&overrides)), at(4, 0));
    assert_eq!(handle_cursor_movement(at(3, 0), 0, 3, 3, &up(), Some(&overrides)), at(3, 3));
    assert_eq!(handle_cursor_movement(at(1, 1), 0, 3, 3, &up(), Some(&overrides)), at(1, 0));
}

#[test]
fn cursor_override_last_entry_wins() {
    let overrides = vec![
        CursorOverride { position: at(0, 0), moves: vec![(Direction::Up, at(0, -1))] },
        CursorOverride { position: at(0, 0), moves: vec![(Direction::Up, at(5, 5))] },
    ];
    assert_eq!(handle_cursor_movement(at(0, 0), 0, 3, 3, &up(), Some(&overrides)), at(5, 5));
}

#[test]
fn pause_main_moves_cursor_without_confirm() {
    let (menus, quit) = pause_main(at(0, 0), &down());
    assert_eq!(menus.len(), 1);
    assert!(matches!(menus[0].kind, GameMenuKind::PauseMain));
    assert_eq!(menus[0].cursor_position, at(0, 1));
    assert!(quit.is_none());
}

#[test]
fn pause_main_entries() {
    let (menus, quit) = pause_main(at(0, 0), &confirm());
    assert!(menus.is_empty() && quit.is_none());
    let (menus, quit) = pause_main(at(0, 1), &confirm());
    assert_eq!(menus.len(), 2);
    assert!(matches!(menus[0].kind, GameMenuKind::PauseLoadSave));
    assert_eq!(menus[0].cursor_position, at(0, 0));
    assert!(matches!(menus[1].kind, GameMenuKind::PauseMain));
    assert_eq!(menus[1].cursor_position, at(0, 1));
    assert!(quit.is_none());
    let (menus, quit) = pause_main(at(0, 2), &confirm());
    assert!(menus.is_empty());
    assert!(matches!(quit, Some(QuitDecision::ToMainMenu)));
}

#[test]
fn pause_load_game_picks_a_save() {
    let list = saves();
    let (menus, chosen) = pause_load_game(at(0, 2), &confirm(), &list);
    assert!(menus.is_empty());
    assert_eq!(chosen, Some("save_c".to_string()));
    let (menus, chosen) = pause_load_game(at(0, 0), &confirm(), &list);
    assert!(menus.is_empty() && chosen.is_none());
    let (menus, chosen) = pause_load_game(at(0, 3), &down(), &list);
    assert_eq!(menus[0].cursor_position, at(0, 0));
    assert!(chosen.is_none());
}

#[test]
fn menu_load_game_picks_a_save() {
    let list = saves();
    let (menus, chosen) = menu_load_game(at(0, 0), &up(), &list);
    assert_eq!(menus.len(), 1);
    assert!(matches!(menus[0].kind, MainMenuKind::MainLoadSave));
    assert_eq!(menus[0].cursor_position, at(0, 3));
    assert!(chosen.is_none());
    let (menus, chosen) = menu_load_game(at(0, 1), &confirm(), &list);
    assert!(menus.is_empty());
    assert_eq!(chosen, Some("save_a".to_string()));
}

#[test]
fn menu_main_with_continue() {
    let list = saves();
    let (menus, load) = menu_main(at(0, 0), &list, &confirm(), true);
    assert!(menus.is_empty());
    assert!(matches!(load, Some(SaveToLoad::SaveData(ref name)) if name == "save_c"));
    let (menus, load) = menu_main(at(0, 1), &list, &confirm(), true);
    assert!(menus.is_empty());
    assert!(matches!(load, Some(SaveToLoad::Initial)));
    let (menus, load) = menu_main(at(0, 2), &list, &confirm(), true);
    assert_eq!(menus.len(), 2);
    assert!(matches!(menus[0].kind, MainMenuKind::MainLoadSave));
    assert!(matches!(menus[1].kind, MainMenuKind::Main(true)));
    assert!(load.is_none());
}

#[test]
fn menu_main_without_continue() {
    let (menus, load) = menu_main(at(0, 0), &vec![], &confirm(), false);
    assert!(menus.is_empty());
    assert!(matches!(load, Some(SaveToLoad::Initial)));
    let (menus, load) = menu_main(at(0, 1), &vec![], &down(), false);
    assert_eq!(menus.len(), 1);
    assert_eq!(menus[0].cursor_position, at(0, 0));
    assert!(load.is_none());
}

fn sample_inventory() -> InventoryUpdateData {
    let mut grid = EquippedModules::empty();
    grid.set(0, 0, Some(WeaponModuleKind::Plasma));
    InventoryUpdateData {
        equipped_modules: grid,
        unequipped_modules: vec![WeaponModuleKind::Missile, WeaponModuleKind::SideSlot],
    }
}

#[test]
fn inventory_main_opens_the_editor() {
    let data = sample_inventory();
    let menus = inventory_main(at(0, 0), &confirm(), &data.unequipped_modules, data.equipped_modules);
    assert_eq!(menus.len(), 2);
    match &menus[0].kind {
        GameMenuKind::InventoryPickSlot(held, update) => {
            assert!(held.is_none());
            assert_eq!(update.unequipped_modules, data.unequipped_modules);
            assert_eq!(update.equipped_modules.cells, data.equipped_modules.cells);
        },
        _ => panic!("expected the module-placing screen"),
    }
    assert!(matches!(menus[1].kind, GameMenuKind::InventoryMain));
    let menus = inventory_main(at(1, 0), &confirm(), &data.unequipped_modules, data.equipped_modules);
    assert!(menus.is_empty());
    let menus = inventory_main(at(0, 0), &right(), &data.unequipped_modules, data.equipped_modules);
    assert_eq!(menus[0].cursor_position, at(1, 0));
}

#[test]
fn pick_slot_takes_a_module_from_the_grid() {
    let (menus, update) = inventory_pick_slot(at(0, 0), &confirm(), None, sample_inventory());
    assert!(update.is_none());
    match &menus[0].kind {
        GameMenuKind::InventoryPickSlot(held, data) => {
            assert_eq!(*held, Some(WeaponModuleKind::Plasma));
            assert_eq!(data.equipped_modules.get(0, 0), None);
        },
        _ => panic!("expected the module-placing screen"),
    }
}

#[test]
fn pick_slot_swaps_with_the_unequipped_list() {
    let (menus, update) =
        inventory_pick_slot(at(5, 0), &confirm(), Some(WeaponModuleKind::Front2Slot), sample_inventory());
    assert!(update.is_none());
    match &menus[0].kind {
        GameMenuKind::InventoryPickSlot(held, data) => {
            assert_eq!(*held, Some(WeaponModuleKind::SideSlot));
            assert_eq!(
                data.unequipped_modules,
                vec![WeaponModuleKind::Missile, WeaponModuleKind::Front2Slot]
            );
        },
        _ => panic!("expected the module-placing screen"),
    }
}

#[test]
fn pick_slot_done_returns_the_held_module() {
    let (menus, update) =
        inventory_pick_slot(at(0, -1), &confirm(), Some(WeaponModuleKind::MirrorSlot), sample_inventory());
    assert!(menus.is_empty());
    let update = update.unwrap();
    assert_eq!(
        update.unequipped_modules,
        vec![WeaponModuleKind::Missile, WeaponModuleKind::SideSlot, WeaponModuleKind::MirrorSlot]
    );
}

#[test]
fn pick_slot_cursor_crosses_to_done_and_to_the_list() {
    let (menus, _) = inventory_pick_slot(at(2, 0), &up(), None, sample_inventory());
    assert_eq!(menus[0].cursor_position, at(0, -1));
    let (menus, _) = inventory_pick_slot(at(3, 2), &right(), None, sample_inventory());
    assert_eq!(menus[0].cursor_position, at(4, 0));
    let (menus, _) = inventory_pick_slot(at(4, 1), &left(), None, sample_inventory());
    assert_eq!(menus[0].cursor_position, at(3, 0));
}

#[test]
fn save_confirm_entries() {
    let (menus, id) = save_confirm(at(1, 0), &confirm(), 9);
    assert!(menus.is_empty());
    assert_eq!(id, Some(9));
    let (menus, id) = save_confirm(at(0, 0), &confirm(), 9);
    assert!(menus.is_empty() && id.is_none());
    let (menus, id) = save_confirm(at(0, 0), &left(), 9);
    assert!(matches!(menus[0].kind, GameMenuKind::SaveConfirm(9)));
    assert_eq!(menus[0].cursor_position, at(1, 0));
    assert!(id.is_none());
}

#[test]
fn pickup_notices() {
    let menus = module_pickup_confirm(&confirm(), WeaponModuleKind::Missile, sample_inventory());
    assert_eq!(menus.len(), 2);
    assert!(matches!(menus[0].kind, GameMenuKind::InventoryPickSlot(None, _)));
    assert!(matches!(menus[1].kind, GameMenuKind::InventoryMain));
    let menus = module_pickup_confirm(&down(), WeaponModuleKind::Missile, sample_inventory());
    assert!(matches!(menus[0].kind, GameMenuKind::ModulePickupConfirm(WeaponModuleKind::Missile)));
    assert!(ability_pickup_confirm(&confirm(), MapAbilityType::Boost).is_empty());
    let menus = ability_pickup_confirm(&up(), MapAbilityType::Chain);
    assert!(matches!(menus[0].kind, GameMenuKind::AbilityPickupConfirm(MapAbilityType::Chain)));
}

#[test]
fn game_over_quits_to_the_main_menu() {
    let (quit, menus) = game_over(&confirm());
    assert!(matches!(quit, Some(QuitDecision::ToMainMenu)));
    assert!(menus.is_empty());
    let (quit, menus) = game_over(&up());
    assert!(quit.is_none());
    assert!(matches!(menus[0].kind, GameMenuKind::GameOver));
}

#[test]
fn line_count_counts_newlines() {
    assert_eq!(line_count(""), 1);
    assert_eq!(line_count("one"), 1);
    assert_eq!(line_count("one\ntwo\n"), 3);
}

fn terminal(lines: usize) -> Rc<Terminal> {
    let content = vec!["line"; lines].join("\n");
    Rc::new(Terminal { content, created_at: "now".to_string() })
}

#[test]
fn terminal_scrolls_only_past_the_visible_lines() {
    let menus = terminal_show(at(0, 0), &down(), terminal(22));
    assert_eq!(menus[0].cursor_position, at(0, 1));
    let menus = terminal_show(at(0, 2), &down(), terminal(22));
    assert_eq!(menus[0].cursor_position, at(0, 0));
    let menus = terminal_show(at(0, 0), &down(), terminal(5));
    assert_eq!(menus[0].cursor_position, at(0, 0));
    assert!(terminal_show(at(0, 0), &confirm(), terminal(5)).is_empty());
}

fn facts() -> OpenMenuFacts {
    OpenMenuFacts {
        player_destroyed: false,
        save_point_contact: None,
        save_point_contact_last_frame: None,
        terminal_contact: None,
        terminal_contact_last_frame: None,
        new_abilities: vec![],
        new_weapon_modules: vec![],
    }
}

#[test]
fn open_menu_orders_what_opens() {
    let input = MenuInput { inventory: true, pause: true, ..none() };
    let menus = open_menu(
        &input,
        OpenMenuFacts {
            save_point_contact: Some(4),
            new_abilities: vec![MapAbilityType::Boost],
            new_weapon_modules: vec![WeaponModuleKind::Plasma, WeaponModuleKind::Missile],
            ..facts()
        },
    );
    assert_eq!(menus.len(), 6);
    assert!(matches!(menus[0].kind, GameMenuKind::SaveConfirm(4)));
    assert!(matches!(menus[1].kind, GameMenuKind::InventoryMain));
    assert!(matches!(menus[2].kind, GameMenuKind::PauseMain));
    assert!(matches!(menus[3].kind, GameMenuKind::AbilityPickupConfirm(MapAbilityType::Boost)));
    assert!(matches!(menus[4].kind, GameMenuKind::ModulePickupConfirm(WeaponModuleKind::Plasma)));
    assert!(matches!(menus[5].kind, GameMenuKind::ModulePickupConfirm(WeaponModuleKind::Missile)));
    assert!(menus.iter().all(|m| m.cursor_position == at(0, 0)));
}

#[test]
fn open_menu_game_over_comes_alone() {
    let input = MenuInput { pause: true, ..none() };
    let menus = open_menu(&input, OpenMenuFacts { player_destroyed: true, save_point_contact: Some(1), ..facts() });
    assert_eq!(menus.len(), 1);
    assert!(matches!(menus[0].kind, GameMenuKind::GameOver));
}

#[test]
fn open_menu_only_on_new_contact() {
    let menus = open_menu(
        &none(),
        OpenMenuFacts {
            save_point_contact: Some(2),
            save_point_contact_last_frame: Some(2),
            terminal_contact: Some(terminal(1)),
            terminal_contact_last_frame: None,
            ..facts()
        },
    );
    assert_eq!(menus.len(), 1);
    assert!(matches!(menus[0].kind, GameMenuKind::TerminalShow(_)));
}

fn buttons() -> MenuButtons {
    MenuButtons {
        menu_up: false,
        menu_down: false,
        menu_left: false,
        menu_right: false,
        menu_confirm: false,
        menu_cancel: false,
        firing: false,
        inventory: false,
        pause: false,
    }
}

#[test]
fn menu_input_counts_new_presses() {
    let input = menu_input(
        &MenuButtons { menu_up: true, firing: true, inventory: true, ..buttons() },
        &MenuButtons { menu_up: true, ..buttons() },
    );
    assert!(!input.up);
    assert!(input.confirm);
    assert!(input.cancel);
    assert!(input.inventory);
    assert!(!input.pause);
    let input = menu_input(&MenuButtons { menu_cancel: true, pause: true, ..buttons() }, &buttons());
    assert!(input.cancel && input.pause && !input.inventory && !input.confirm);
}

fn pick_menu(held: Option<WeaponModuleKind>) -> GameMenu {
    Menu { kind: GameMenuKind::InventoryPickSlot(held, sample_inventory()), cursor_position: at(1, 1) }
}

#[test]
fn next_menus_without_press_keeps_the_menu() {
    let data = sample_inventory();
    let next = next_menus(pick_menu(None), &none(), &data.unequipped_modules, data.equipped_modules, &saves());
    assert_eq!(next.menus.len(), 1);
    assert_eq!(next.menus[0].cursor_position, at(1, 1));
    assert!(next.inventory_update.is_none());
}

#[test]
fn cancel_while_placing_keeps_every_module() {
    let data = sample_inventory();
    let next = next_menus(
        pick_menu(Some(WeaponModuleKind::DoubleDamage75Freq)),
        &cancel(),
        &data.unequipped_modules,
        data.equipped_modules,
        &saves(),
    );
    assert!(next.menus.is_empty());
    let update = next.inventory_update.unwrap();
    assert_eq!(
        update.unequipped_modules,
        vec![WeaponModuleKind::Missile, WeaponModuleKind::SideSlot, WeaponModuleKind::DoubleDamage75Freq]
    );
    assert_eq!(update.equipped_modules.get(0, 0), Some(WeaponModuleKind::Plasma));
}

#[test]
fn next_menus_loads_a_chosen_save() {
    let data = sample_inventory();
    let menu = Menu { kind: GameMenuKind::PauseLoadSave, cursor_position: at(0, 3) };
    let next = next_menus(menu, &confirm(), &data.unequipped_modules, data.equipped_modules, &saves());
    assert!(next.menus.is_empty());
    assert!(matches!(next.quit_decision, Some(QuitDecision::LoadSave(ref name)) if name == "save_b"));
}

#[test]
fn next_menus_save_point() {
    let data = sample_inventory();
    let menu = Menu { kind: GameMenuKind::SaveConfirm(3), cursor_position: at(1, 0) };
    let next = next_menus(menu, &confirm(), &data.unequipped_modules, data.equipped_modules, &saves());
    assert_eq!(next.save_point_confirmed_id, Some(3));
}

#[test]
fn next_main_menus_chooses_a_save() {
    let menu: MainMenu = Menu { kind: MainMenuKind::MainLoadSave, cursor_position: at(0, 1) };
    let next = next_main_menus(menu, &confirm(), &saves());
    assert!(next.menus.is_empty());
    assert!(matches!(next.save_to_load, Some(SaveToLoad::SaveData(ref name)) if name == "save_a"));
    let menu: MainMenu = Menu { kind: MainMenuKind::Main(false), cursor_position: at(0, 0) };
    let next = next_main_menus(menu, &cancel(), &saves());
    assert_eq!(next.menus.len(), 1);
    assert!(matches!(next.menus[0].kind, MainMenuKind::Main(false)));
    assert!(next.save_to_load.is_none());
}

#[test]
fn menu_system_round_trip() {
    let system = MenuSystem::start_main(true);
    assert_eq!(system.active_main_menus.len(), 1);
    assert!(matches!(system.active_main_menus[0].kind, MainMenuKind::Main(true)));
    let system = system.run_main(&down(), &saves());
    assert_eq!(system.active_main_menus[0].cursor_position, at(0, 1));
    let system = system.run_main(&confirm(), &saves());
    assert!(system.active_main_menus.is_empty());
    assert!(matches!(system.save_to_load, Some(SaveToLoad::Initial)));

    let data = sample_inventory();
    let game = MenuSystem::start_game();
    let game = game.run_game(
        &MenuInput { pause: true, ..none() },
        &data.unequipped_modules,
        data.equipped_modules,
        &saves(),
        facts(),
    );
    assert_eq!(game.active_menus.len(), 1);
    assert!(matches!(game.active_menus[0].kind, GameMenuKind::PauseMain));
    let game = game.run_game(&down(), &data.unequipped_modules, data.equipped_modules, &saves(), facts());
    let game = game.run_game(&down(), &data.unequipped_modules, data.equipped_modules, &saves(), facts());
    let game = game.run_game(&confirm(), &data.unequipped_modules, data.equipped_modules, &saves(), facts());
    assert!(game.active_menus.is_empty());
    assert!(matches!(game.quit_decision, Some(QuitDecision::ToMainMenu)));
}

#[test]
fn grid_swap_twice_restores_the_inventory() {
    let data = sample_inventory();
    let (first, _) = inventory_pick_slot(at(0, 0), &confirm(), Some(WeaponModuleKind::Missile), data);
    let (held, update) = match &first[0].kind {
        GameMenuKind::InventoryPickSlot(held, update) => (*held, InventoryUpdateData {
            equipped_modules: update.equipped_modules,
            unequipped_modules: update.unequipped_modules.clone(),
        }),
        _ => panic!("expected the module-placing screen"),
    };
    assert_eq!(held, Some(WeaponModuleKind::Plasma));
    let (second, _) = inventory_pick_slot(at(0, 0), &confirm(), held, update);
    match &second[0].kind {
        GameMenuKind::InventoryPickSlot(held, update) => {
            assert_eq!(*held, Some(WeaponModuleKind::Missile));
            assert_eq!(update.equipped_modules.cells, sample_inventory().equipped_modules.cells);
            assert_eq!(update.unequipped_modules, sample_inventory().unequipped_modules);
        },
        _ => panic!("expected the module-placing screen"),
    }
}

#[test]
fn main_menu_keeps_a_stray_cursor_without_confirm() {
    let stray = CursorPosition { x: 3, y: 7 };
    let (menus, load) = menu_main(stray, &vec![], &none(), false);
    assert_eq!(menus.len(), 1);
    assert_eq!(menus[0].cursor_position, stray);
    assert!(load.is_none());
    let (menus, _) = menu_main(stray, &vec![], &down(), false);
    assert_eq!(menus[0].cursor_position, CursorPosition { x: 0, y: 0 });
}
