use longinus::inventory::InventoryUpdateData;
use longinus::combat::{EquippedModules, WeaponModuleKind};
use longinus::menu::{CursorPosition, GameMenuKind, MainMenuKind};
use longinus::menu_text::{main_menu_lines, menu_lines, MenuText, MenuWord};

fn w(text: MenuText, marked: bool) -> MenuWord {
    MenuWord { text, marked }
}

fn c(x: i32, y: i32) -> CursorPosition {
    CursorPosition { x, y }
}

#[test]
fn pause_menu_marks_the_row_under_the_cursor() {
    let lines = menu_lines(&GameMenuKind::PauseMain, c(0, 1), 0, &EquippedModules::empty(), &vec![]);
    assert_eq!(
        lines,
        vec![
            vec![w(MenuText::Resume, false)],
            vec![w(MenuText::LoadGame, true)],
            vec![w(MenuText::QuitToMenu, false)],
        ]
    );
}

#[test]
fn load_menu_lists_the_saves_below_back() {
    let lines = menu_lines(&GameMenuKind::PauseLoadSave, c(0, 2), 2, &EquippedModules::empty(), &vec![]);
    assert_eq!(
        lines,
        vec![
            vec![w(MenuText::Back, false)],
            vec![w(MenuText::SaveName(0), false)],
            vec![w(MenuText::SaveName(1), true)],
        ]
    );
}

#[test]
fn inventory_shows_the_grid_and_the_spare_modules() {
    let mut grid = EquippedModules::empty();
    grid.set(1, 2, Some(WeaponModuleKind::Plasma));
    let spare = vec![WeaponModuleKind::Missile, WeaponModuleKind::SideSlot];
    let lines = menu_lines(&GameMenuKind::InventoryMain, c(1, 0), 0, &grid, &spare);
    assert_eq!(lines.len(), 6);
    assert_eq!(lines[0], vec![w(MenuText::Edit, false), w(MenuText::Close, true)]);
    assert_eq!(lines[3][1], w(MenuText::Module(Some(WeaponModuleKind::Plasma)), false));
    assert_eq!(lines[3][0], w(MenuText::Module(None), false));
    assert_eq!(
        lines[5],
        vec![
            w(MenuText::Module(Some(WeaponModuleKind::Missile)), false),
            w(MenuText::Module(Some(WeaponModuleKind::SideSlot)), false),
        ]
    );
}

#[test]
fn main_menu_offers_continue_when_there_are_saves() {
    let lines = main_menu_lines(MainMenuKind::Main(true), c(0, 0), 3);
    assert_eq!(
        lines,
        vec![
            vec![w(MenuText::Title, false)],
            vec![w(MenuText::Continue, true)],
            vec![w(MenuText::NewGame, false)],
            vec![w(MenuText::LoadGame, false)],
        ]
    );
    assert_eq!(main_menu_lines(MainMenuKind::Main(false), c(0, 1), 0).len(), 3);
}

#[test]
fn pick_slot_lays_the_spare_modules_five_to_a_row() {
    let spare = vec![WeaponModuleKind::Missile; 5]
        .into_iter()
        .chain(vec![WeaponModuleKind::SideSlot])
        .collect::<Vec<_>>();
    let kind = GameMenuKind::InventoryPickSlot(
        Some(WeaponModuleKind::Plasma),
        InventoryUpdateData { equipped_modules: EquippedModules::empty(), unequipped_modules: spare },
    );
    let lines = menu_lines(&kind, c(4, 1), 0, &EquippedModules::empty(), &vec![]);
    // done, four grid rows, three spare rows, two lines about the held module
    assert_eq!(lines.len(), 10);
    assert_eq!(lines[0], vec![w(MenuText::Done, false)]);
    assert_eq!(lines[6].len(), 6);
    assert_eq!(lines[6][0], w(MenuText::Module(Some(WeaponModuleKind::SideSlot)), true));
    assert_eq!(lines[6][1], w(MenuText::Module(None), false));
    assert_eq!(lines[5][5], w(MenuText::Module(None), false));
    assert_eq!(lines[8], vec![w(MenuText::Holding(WeaponModuleKind::Plasma), false)]);
    assert_eq!(lines[9], vec![w(MenuText::ModuleDescription(WeaponModuleKind::Plasma), false)]);
}
