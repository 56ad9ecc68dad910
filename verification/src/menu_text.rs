use vstd::prelude::*;
use crate::combat::{EquippedModules, WeaponModuleKind, cell_index};
use crate::load_map::MapAbilityType;
use crate::menu::{
    CursorPosition, GameMenu, GameMenuKind, MainMenu, MainMenuKind, MenuInput, QuitDecision, SaveToLoad, at,
    done_cursor, menu_main_outcome, pause_main_outcome, save_confirm_outcome,
};
use crate::save::spec_most_recent;

verus! {

/// What a word of a menu says. `SaveName(i)` is the name of the `i`-th
/// save, `Module(None)` an empty cell, `ModuleDescription(kind)` the help
/// text of a module, and `TerminalText(first)` the text of the terminal
/// from its line `first` on.
#[derive(Clone, Copy, Debug, PartialEq, Eq, Structural)]
pub enum MenuText {
    Title,
    Continue,
    NewGame,
    LoadGame,
    Resume,
    QuitToMenu,
    Back,
    SaveName(usize),
    Edit,
    Close,
    Done,
    Module(Option<WeaponModuleKind>),
    Holding(WeaponModuleKind),
    ModuleDescription(WeaponModuleKind),
    SaveTheGame,
    No,
    Yes,
    PickedUp(WeaponModuleKind),
    Equip,
    Acquired(MapAbilityType),
    Confirm,
    GameOver,
    ToMainMenu,
    TerminalDate,
    TerminalText(usize),
}

/// A word of a menu, and whether it is shown as the one selected.
#[derive(Clone, Copy, Debug, PartialEq, Eq, Structural)]
pub struct MenuWord {
    pub text: MenuText,
    pub marked: bool,
}

pub open spec fn word(text: MenuText, marked: bool) -> MenuWord {
    MenuWord { text, marked }
}

/// The cursor stands on column `x`, row `y`.
pub open spec fn cursor_on(c: CursorPosition, x: int, y: int) -> bool {
    c.x == x && c.y == y
}

/// The lines listing the saves, the `i`-th on row `i + 1`.
pub open spec fn save_lines(saves_count: nat, c: CursorPosition) -> Seq<Seq<MenuWord>> {
    Seq::new(saves_count, |i: int| seq![word(MenuText::SaveName(i as usize), cursor_on(c, 0, i + 1))])
}

/// Row `y` of the equip grid; its cells are marked under the cursor when
/// `mark` holds.
pub open spec fn grid_row(grid: Seq<Option<WeaponModuleKind>>, c: CursorPosition, y: int, mark: bool) -> Seq<MenuWord> {
    Seq::new(4, |x: int| word(MenuText::Module(grid[cell_index(x, y)]), mark && cursor_on(c, x, y)))
}

/// The four rows of the equip grid.
pub open spec fn grid_lines(grid: Seq<Option<WeaponModuleKind>>, c: CursorPosition, mark: bool) -> Seq<Seq<MenuWord>> {
    Seq::new(4, |y: int| grid_row(grid, c, y, mark))
}

/// The module shown in column `x`, row `y` of the spare area: five modules
/// per row, and a sixth column that stays empty.
pub open spec fn spare_cell(spare: Seq<WeaponModuleKind>, x: int, y: int) -> Option<WeaponModuleKind> {
    if x < 5 && x + y * 5 < spare.len() {
        Some(spare[x + y * 5])
    } else {
        None
    }
}

/// Row `y` of the spare area, which stands right of the grid from column 4.
pub open spec fn spare_row(spare: Seq<WeaponModuleKind>, c: CursorPosition, y: int) -> Seq<MenuWord> {
    Seq::new(6, |x: int| word(MenuText::Module(spare_cell(spare, x, y)), cursor_on(c, 4 + x, y)))
}

/// The rows of the spare area: one more than it needs, so that a module can
/// always be set down.
pub open spec fn spare_lines(spare: Seq<WeaponModuleKind>, c: CursorPosition) -> Seq<Seq<MenuWord>> {
    Seq::new(spare.len() / 5 + 2, |y: int| spare_row(spare, c, y))
}

/// The lines about the module in hand, if any.
pub open spec fn held_lines(held: Option<WeaponModuleKind>) -> Seq<Seq<MenuWord>> {
    match held {
        Some(k) => seq![
            seq![word(MenuText::Holding(k), false)],
            seq![word(MenuText::ModuleDescription(k), false)],
        ],
        None => Seq::empty(),
    }
}

/// The lines of an in-game menu of kind `kind` with its cursor at `c`, given
/// the number of saves and the modules of the player.
pub open spec fn spec_menu_lines(
    kind: GameMenuKind,
    c: CursorPosition,
    saves_count: nat,
    equipped: Seq<Option<WeaponModuleKind>>,
    unequipped: Seq<WeaponModuleKind>,
) -> Seq<Seq<MenuWord>> {
    match kind {
        GameMenuKind::PauseMain => seq![
            seq![word(MenuText::Resume, cursor_on(c, 0, 0))],
            seq![word(MenuText::LoadGame, cursor_on(c, 0, 1))],
            seq![word(MenuText::QuitToMenu, cursor_on(c, 0, 2))],
        ],
        GameMenuKind::PauseLoadSave => seq![seq![word(MenuText::Back, cursor_on(c, 0, 0))]]
            + save_lines(saves_count, c),
        GameMenuKind::InventoryMain => seq![
            seq![word(MenuText::Edit, cursor_on(c, 0, 0)), word(MenuText::Close, cursor_on(c, 1, 0))],
        ] + grid_lines(equipped, c, false) + seq![
            unequipped.map_values(|m: WeaponModuleKind| word(MenuText::Module(Some(m)), false)),
        ],
        GameMenuKind::InventoryPickSlot(held, data) => seq![
            seq![word(MenuText::Done, cursor_on(c, 0, -1))],
        ] + grid_lines(data.equipped_modules@, c, true) + spare_lines(data.unequipped_modules@, c)
            + held_lines(held),
        GameMenuKind::SaveConfirm(_) => seq![
            seq![word(MenuText::SaveTheGame, false)],
            seq![word(MenuText::No, cursor_on(c, 0, 0)), word(MenuText::Yes, cursor_on(c, 1, 0))],
        ],
        GameMenuKind::ModulePickupConfirm(k) => seq![
            seq![word(MenuText::PickedUp(k), false)],
            seq![word(MenuText::ModuleDescription(k), false)],
            seq![word(MenuText::Equip, true)],
        ],
        GameMenuKind::AbilityPickupConfirm(a) => seq![
            seq![word(MenuText::Acquired(a), false)],
            seq![word(MenuText::Confirm, true)],
        ],
        GameMenuKind::GameOver => seq![
            seq![word(MenuText::GameOver, false)],
            seq![word(MenuText::ToMainMenu, true)],
        ],
        GameMenuKind::TerminalShow(_) => seq![
            seq![word(MenuText::TerminalDate, false)],
            seq![word(MenuText::TerminalText(if c.y < 0 { 0 } else { c.y as usize }), false)],
        ],
    }
}

/// The lines of a main menu of kind `kind` with its cursor at `c`.
pub open spec fn spec_main_menu_lines(kind: MainMenuKind, c: CursorPosition, saves_count: nat) -> Seq<Seq<MenuWord>> {
    match kind {
        MainMenuKind::Main(true) => seq![
            seq![word(MenuText::Title, false)],
            seq![word(MenuText::Continue, cursor_on(c, 0, 0))],
            seq![word(MenuText::NewGame, cursor_on(c, 0, 1))],
            seq![word(MenuText::LoadGame, cursor_on(c, 0, 2))],
        ],
        MainMenuKind::Main(false) => seq![
            seq![word(MenuText::Title, false)],
            seq![word(MenuText::NewGame, cursor_on(c, 0, 0))],
            seq![word(MenuText::LoadGame, cursor_on(c, 0, 1))],
        ],
        _ => seq![seq![word(MenuText::Back, cursor_on(c, 0, 0))]] + save_lines(saves_count, c),
    }
}

/// The words of each line.
pub open spec fn lines_view(lines: Seq<Vec<MenuWord>>) -> Seq<Seq<MenuWord>> {
    lines.map_values(|l: Vec<MenuWord>| l@)
}

fn on(c: CursorPosition, x: usize, y: usize) -> (b: bool)
    ensures
        b == cursor_on(c, x as int, y as int),
{
    c.x >= 0 && c.y >= 0 && c.x as usize == x && c.y as usize == y
}

fn line1(a: MenuWord) -> (line: Vec<MenuWord>)
    ensures
        line@ == seq![a],
{
    let mut line: Vec<MenuWord> = Vec::new();
    line.push(a);
    proof {
        assert(line@ =~= seq![a]);
    }
    line
}

fn line2(a: MenuWord, b: MenuWord) -> (line: Vec<MenuWord>)
    ensures
        line@ == seq![a, b],
{
    let mut line: Vec<MenuWord> = Vec::new();
    line.push(a);
    line.push(b);
    proof {
        assert(line@ =~= seq![a, b]);
    }
    line
}

/// Appends one line to a list of lines.
fn push_line(lines: &mut Vec<Vec<MenuWord>>, line: Vec<MenuWord>)
    ensures
        lines_view(final(lines)@) == lines_view(old(lines)@).push(line@),
{
    let ghost before = lines@;
    lines.push(line);
    proof {
        assert(lines_view(lines@) =~= lines_view(before).push(line@));
    }
}

fn push_save_lines(lines: &mut Vec<Vec<MenuWord>>, saves_count: usize, c: CursorPosition)
    ensures
        lines_view(final(lines)@) == lines_view(old(lines)@) + save_lines(saves_count as nat, c),
{
    let ghost start = lines_view(lines@);
    let mut i: usize = 0;
    while i < saves_count
        invariant
            i <= saves_count,
            lines_view(lines@) == start + save_lines(i as nat, c),
        decreases saves_count - i,
    {
        let marked = c.x == 0 && c.y >= 1 && (c.y - 1) as usize == i;
        push_line(lines, line1(MenuWord { text: MenuText::SaveName(i), marked }));
        proof {
            assert(save_lines((i + 1) as nat, c) =~= save_lines(i as nat, c).push(
                seq![word(MenuText::SaveName(i), cursor_on(c, 0, i + 1))],
            ));
        }
        i = i + 1;
    }
}

fn push_grid_lines(lines: &mut Vec<Vec<MenuWord>>, grid: &EquippedModules, c: CursorPosition, mark: bool)
    ensures
        lines_view(final(lines)@) == lines_view(old(lines)@) + grid_lines(grid@, c, mark),
{
    let ghost start = lines_view(lines@);
    let mut y: usize = 0;
    while y < 4
        invariant
            y <= 4,
            lines_view(lines@) == start + Seq::new(y as nat, |r: int| grid_row(grid@, c, r, mark)),
        decreases 4 - y,
    {
        let mut row: Vec<MenuWord> = Vec::new();
        let mut x: usize = 0;
        while x < 4
            invariant
                x <= 4,
                y < 4,
                row@ == Seq::new(x as nat, |k: int| word(MenuText::Module(grid@[cell_index(k, y as int)]), mark && cursor_on(c, k, y as int))),
            decreases 4 - x,
        {
            let w = MenuWord { text: MenuText::Module(grid.get(x, y)), marked: mark && on(c, x, y) };
            row.push(w);
            proof {
                assert(row@ =~= Seq::new((x + 1) as nat, |k: int| word(MenuText::Module(grid@[cell_index(k, y as int)]), mark && cursor_on(c, k, y as int))));
            }
            x = x + 1;
        }
        proof {
            assert(row@ =~= grid_row(grid@, c, y as int, mark));
        }
        push_line(lines, row);
        proof {
            assert(Seq::new((y + 1) as nat, |r: int| grid_row(grid@, c, r, mark)) =~= Seq::new(y as nat, |r: int| grid_row(grid@, c, r, mark)).push(grid_row(grid@, c, y as int, mark)));
        }
        y = y + 1;
    }
    proof {
        assert(Seq::new(4, |r: int| grid_row(grid@, c, r, mark)) =~= grid_lines(grid@, c, mark));
    }
}

fn push_spare_lines(lines: &mut Vec<Vec<MenuWord>>, spare: &Vec<WeaponModuleKind>, c: CursorPosition)
    ensures
        lines_view(final(lines)@) == lines_view(old(lines)@) + spare_lines(spare@, c),
{
    let ghost start = lines_view(lines@);
    let rows: usize = spare.len() / 5 + 2;
    let mut y: usize = 0;
    while y < rows
        invariant
            y <= rows,
            rows == spare@.len() / 5 + 2,
            lines_view(lines@) == start + Seq::new(y as nat, |r: int| spare_row(spare@, c, r)),
        decreases rows - y,
    {
        let mut row: Vec<MenuWord> = Vec::new();
        let mut x: usize = 0;
        while x < 6
            invariant
                x <= 6,
                row@ == Seq::new(x as nat, |k: int| word(MenuText::Module(spare_cell(spare@, k, y as int)), cursor_on(c, 4 + k, y as int))),
            decreases 6 - x,
        {
            let index: u128 = (y as u128) * 5 + (x as u128);
            let cell = if x < 5 && index < spare.len() as u128 {
                Some(spare[index as usize])
            } else {
                None
            };
            let w = MenuWord { text: MenuText::Module(cell), marked: on(c, x + 4, y) };
            row.push(w);
            proof {
                assert(row@ =~= Seq::new((x + 1) as nat, |k: int| word(MenuText::Module(spare_cell(spare@, k, y as int)), cursor_on(c, 4 + k, y as int))));
            }
            x = x + 1;
        }
        proof {
            assert(row@ =~= spare_row(spare@, c, y as int));
        }
        push_line(lines, row);
        proof {
            assert(Seq::new((y + 1) as nat, |r: int| spare_row(spare@, c, r)) =~= Seq::new(y as nat, |r: int| spare_row(spare@, c, r)).push(spare_row(spare@, c, y as int)));
        }
        y = y + 1;
    }
    proof {
        assert(Seq::new(rows as nat, |r: int| spare_row(spare@, c, r)) =~= spare_lines(spare@, c));
    }
}

/// The lines of the in-game menu of kind `kind` with its cursor at `c` (see
/// [`spec_menu_lines`]).
pub fn menu_lines(
    kind: &GameMenuKind,
    c: CursorPosition,
    saves_count: usize,
    equipped: &EquippedModules,
    unequipped: &Vec<WeaponModuleKind>,
) -> (lines: Vec<Vec<MenuWord>>)
    ensures
        lines_view(lines@) == spec_menu_lines(*kind, c, saves_count as nat, equipped@, unequipped@),
{
    let mut lines: Vec<Vec<MenuWord>> = Vec::new();
    proof {
        assert(lines_view(lines@) =~= Seq::<Seq<MenuWord>>::empty());
    }
    match kind {
        GameMenuKind::PauseMain => {
            push_line(&mut lines, line1(MenuWord { text: MenuText::Resume, marked: on(c, 0, 0) }));
            push_line(&mut lines, line1(MenuWord { text: MenuText::LoadGame, marked: on(c, 0, 1) }));
            push_line(&mut lines, line1(MenuWord { text: MenuText::QuitToMenu, marked: on(c, 0, 2) }));
        },
        GameMenuKind::PauseLoadSave => {
            push_line(&mut lines, line1(MenuWord { text: MenuText::Back, marked: on(c, 0, 0) }));
            push_save_lines(&mut lines, saves_count, c);
        },
        GameMenuKind::InventoryMain => {
            push_line(
                &mut lines,
                line2(
                    MenuWord { text: MenuText::Edit, marked: on(c, 0, 0) },
                    MenuWord { text: MenuText::Close, marked: on(c, 1, 0) },
                ),
            );
            push_grid_lines(&mut lines, equipped, c, false);
            let mut spare: Vec<MenuWord> = Vec::new();
            let mut i: usize = 0;
            while i < unequipped.len()
                invariant
                    i <= unequipped@.len(),
                    spare@ == unequipped@.take(i as int).map_values(|m: WeaponModuleKind| word(MenuText::Module(Some(m)), false)),
                decreases unequipped@.len() - i,
            {
                spare.push(MenuWord { text: MenuText::Module(Some(unequipped[i])), marked: false });
                proof {
                    assert(unequipped@.take(i + 1) =~= unequipped@.take(i as int).push(unequipped@[i as int]));
                    assert(spare@ =~= unequipped@.take(i + 1).map_values(|m: WeaponModuleKind| word(MenuText::Module(Some(m)), false)));
                }
                i = i + 1;
            }
            proof {
                assert(unequipped@.take(i as int) =~= unequipped@);
            }
            push_line(&mut lines, spare);
        },
        GameMenuKind::InventoryPickSlot(held, data) => {
            let done = c.x == 0 && c.y == -1;
            push_line(&mut lines, line1(MenuWord { text: MenuText::Done, marked: done }));
            push_grid_lines(&mut lines, &data.equipped_modules, c, true);
            push_spare_lines(&mut lines, &data.unequipped_modules, c);
            match held {
                Some(k) => {
                    push_line(&mut lines, line1(MenuWord { text: MenuText::Holding(*k), marked: false }));
                    push_line(&mut lines, line1(MenuWord { text: MenuText::ModuleDescription(*k), marked: false }));
                },
                None => {},
            }
        },
        GameMenuKind::SaveConfirm(_) => {
            push_line(&mut lines, line1(MenuWord { text: MenuText::SaveTheGame, marked: false }));
            push_line(
                &mut lines,
                line2(
                    MenuWord { text: MenuText::No, marked: on(c, 0, 0) },
                    MenuWord { text: MenuText::Yes, marked: on(c, 1, 0) },
                ),
            );
        },
        GameMenuKind::ModulePickupConfirm(k) => {
            push_line(&mut lines, line1(MenuWord { text: MenuText::PickedUp(*k), marked: false }));
            push_line(&mut lines, line1(MenuWord { text: MenuText::ModuleDescription(*k), marked: false }));
            push_line(&mut lines, line1(MenuWord { text: MenuText::Equip, marked: true }));
        },
        GameMenuKind::AbilityPickupConfirm(a) => {
            push_line(&mut lines, line1(MenuWord { text: MenuText::Acquired(*a), marked: false }));
            push_line(&mut lines, line1(MenuWord { text: MenuText::Confirm, marked: true }));
        },
        GameMenuKind::GameOver => {
            push_line(&mut lines, line1(MenuWord { text: MenuText::GameOver, marked: false }));
            push_line(&mut lines, line1(MenuWord { text: MenuText::ToMainMenu, marked: true }));
        },
        GameMenuKind::TerminalShow(_) => {
            let first: usize = if c.y < 0 { 0 } else { c.y as usize };
            push_line(&mut lines, line1(MenuWord { text: MenuText::TerminalDate, marked: false }));
            push_line(&mut lines, line1(MenuWord { text: MenuText::TerminalText(first), marked: false }));
        },
    }
    proof {
        assert(lines_view(lines@) =~= spec_menu_lines(*kind, c, saves_count as nat, equipped@, unequipped@));
    }
    lines
}

/// The lines of the main menu of kind `kind` with its cursor at `c` (see
/// [`spec_main_menu_lines`]).
pub fn main_menu_lines(kind: MainMenuKind, c: CursorPosition, saves_count: usize) -> (lines: Vec<Vec<MenuWord>>)
    ensures
        lines_view(lines@) == spec_main_menu_lines(kind, c, saves_count as nat),
{
    let mut lines: Vec<Vec<MenuWord>> = Vec::new();
    proof {
        assert(lines_view(lines@) =~= Seq::<Seq<MenuWord>>::empty());
    }
    match kind {
        MainMenuKind::Main(true) => {
            push_line(&mut lines, line1(MenuWord { text: MenuText::Title, marked: false }));
            push_line(&mut lines, line1(MenuWord { text: MenuText::Continue, marked: on(c, 0, 0) }));
            push_line(&mut lines, line1(MenuWord { text: MenuText::NewGame, marked: on(c, 0, 1) }));
            push_line(&mut lines, line1(MenuWord { text: MenuText::LoadGame, marked: on(c, 0, 2) }));
        },
        MainMenuKind::Main(false) => {
            push_line(&mut lines, line1(MenuWord { text: MenuText::Title, marked: false }));
            push_line(&mut lines, line1(MenuWord { text: MenuText::NewGame, marked: on(c, 0, 0) }));
            push_line(&mut lines, line1(MenuWord { text: MenuText::LoadGame, marked: on(c, 0, 1) }));
        },
        _ => {
            push_line(&mut lines, line1(MenuWord { text: MenuText::Back, marked: on(c, 0, 0) }));
            push_save_lines(&mut lines, saves_count, c);
        },
    }
    proof {
        assert(lines_view(lines@) =~= spec_main_menu_lines(kind, c, saves_count as nat));
    }
    lines
}

/// A press of the confirm button and nothing else.
pub open spec fn confirm_press() -> MenuInput {
    MenuInput {
        up: false,
        down: false,
        left: false,
        right: false,
        confirm: true,
        cancel: false,
        inventory: false,
        pause: false,
    }
}

/// On the "save the game?" question, "no" is marked exactly when the cursor
/// is on column 0 and "yes" exactly when it is on column 1; and the marked
/// entry is the one that confirming chooses: confirming saves exactly when
/// "yes" is marked.
pub proof fn law_save_question_marks_the_choice(
    c: CursorPosition,
    id: i32,
    saves_count: nat,
    equipped: Seq<Option<WeaponModuleKind>>,
    unequipped: Seq<WeaponModuleKind>,
    menus: Seq<GameMenu>,
    confirmed: Option<i32>,
)
    ensures
        ({
            let lines = spec_menu_lines(GameMenuKind::SaveConfirm(id), c, saves_count, equipped, unequipped);
            &&& lines.len() == 2 && lines[1].len() == 2
            &&& lines[1][0].text == MenuText::No && (lines[1][0].marked <==> c == at(0, 0))
            &&& lines[1][1].text == MenuText::Yes && (lines[1][1].marked <==> c == at(1, 0))
            &&& !lines[0][0].marked
            &&& save_confirm_outcome(c, confirm_press(), id, menus, confirmed) ==> (confirmed
                == Some(id) <==> lines[1][1].marked)
        }),
{
}

/// In the pause menu the entry on the cursor's row is the one marked, and
/// confirming does what the marked entry says: "resume" closes the menu,
/// "load game" opens the list of saves, "quit to menu" quits to the main
/// menu.
pub proof fn law_pause_menu_marks_the_choice(
    c: CursorPosition,
    saves_count: nat,
    equipped: Seq<Option<WeaponModuleKind>>,
    unequipped: Seq<WeaponModuleKind>,
    menus: Seq<GameMenu>,
    quit: Option<QuitDecision>,
)
    ensures
        ({
            let lines = spec_menu_lines(GameMenuKind::PauseMain, c, saves_count, equipped, unequipped);
            &&& lines.len() == 3
            &&& lines[0] == seq![word(MenuText::Resume, c == at(0, 0))]
            &&& lines[1] == seq![word(MenuText::LoadGame, c == at(0, 1))]
            &&& lines[2] == seq![word(MenuText::QuitToMenu, c == at(0, 2))]
            &&& pause_main_outcome(c, confirm_press(), menus, quit) ==> {
                &&& lines[0][0].marked ==> menus.len() == 0 && quit is None
                &&& lines[1][0].marked ==> menus.len() == 2 && menus[0].kind is PauseLoadSave
                    && quit is None
                &&& lines[2][0].marked ==> quit == Some(QuitDecision::ToMainMenu)
            }
        }),
{
}

/// In the main menu the entry on the cursor's row is the one marked, and
/// confirming does what the marked entry says: "continue" loads the most
/// recent save, "new game" starts from the beginning, "load game" opens the
/// list of saves.
pub proof fn law_main_menu_marks_the_choice(
    c: CursorPosition,
    with_continue: bool,
    saves: Seq<String>,
    menus: Seq<MainMenu>,
    load: Option<SaveToLoad>,
)
    ensures
        ({
            let lines = spec_main_menu_lines(MainMenuKind::Main(with_continue), c, saves.len());
            let first: int = if with_continue { 1 } else { 0 };
            &&& lines[0] == seq![word(MenuText::Title, false)]
            &&& with_continue ==> lines.len() == 4 && lines[1] == seq![word(MenuText::Continue, c == at(0, 0))]
            &&& !with_continue ==> lines.len() == 3
            &&& lines[1 + first] == seq![word(MenuText::NewGame, c == at(0, first as i32))]
            &&& lines[2 + first] == seq![word(MenuText::LoadGame, c == at(0, (first + 1) as i32))]
            &&& menu_main_outcome(c, confirm_press(), saves, with_continue, menus, load) ==> {
                &&& (with_continue && lines[1][0].marked) ==> menus.len() == 0 && match load {
                    Some(SaveToLoad::SaveData(name)) => name@ == spec_most_recent(
                        saves.map_values(|n: String| n@),
                    ),
                    _ => false,
                }
                &&& lines[1 + first][0].marked ==> menus.len() == 0 && load == Some(SaveToLoad::Initial)
                &&& lines[2 + first][0].marked ==> menus.len() == 2 && menus[0].kind
                    == MainMenuKind::MainLoadSave && load is None
            }
        }),
{
}

/// On the module-placing screen the marked word is the one under the
/// cursor: "done" when the cursor is on it, the cell `(x, y)` of the grid
/// when the cursor is there, and the spare slot in column `4 + x`, row `y`
/// when the cursor is there (for every row a cursor can reach).
pub proof fn law_pick_slot_marks_the_cursor(
    c: CursorPosition,
    held: Option<WeaponModuleKind>,
    data: crate::inventory::InventoryUpdateData,
    saves_count: nat,
    equipped: Seq<Option<WeaponModuleKind>>,
    unequipped: Seq<WeaponModuleKind>,
    x: int,
    y: int,
)
    ensures
        ({
            let lines = spec_menu_lines(GameMenuKind::InventoryPickSlot(held, data), c, saves_count, equipped, unequipped);
            &&& lines[0] == seq![word(MenuText::Done, c == done_cursor())]
            &&& (0 <= x < 4 && 0 <= y < 4) ==> (lines[1 + y][x].marked <==> c == at(x as i32, y as i32))
                && lines[1 + y][x].text == MenuText::Module(data.equipped_modules@[cell_index(x, y)])
            &&& (0 <= x < 6 && 0 <= y < data.unequipped_modules@.len() / 5 + 2 && y <= i32::MAX) ==> (lines[5 + y][x].marked
                <==> c == at((4 + x) as i32, y as i32))
        }),
{
    let grid = data.equipped_modules@;
    let spare = data.unequipped_modules@;
    let head = seq![seq![word(MenuText::Done, cursor_on(c, 0, -1))]];
    let lines = spec_menu_lines(GameMenuKind::InventoryPickSlot(held, data), c, saves_count, equipped, unequipped);
    assert(lines == head + grid_lines(grid, c, true) + spare_lines(spare, c) + held_lines(held));
    if 0 <= x < 4 && 0 <= y < 4 {
        assert(lines[1 + y] == grid_row(grid, c, y, true));
        assert(grid_row(grid, c, y, true)[x] == word(MenuText::Module(grid[cell_index(x, y)]), cursor_on(c, x, y)));
        assert((x as i32) as int == x && (y as i32) as int == y);
        assert(cursor_on(c, x, y) <==> c == at(x as i32, y as i32));
    }
    if 0 <= x < 6 && 0 <= y < spare.len() / 5 + 2 && y <= i32::MAX {
        assert(lines[5 + y] == spare_row(spare, c, y));
        assert(spare_row(spare, c, y)[x].marked == cursor_on(c, 4 + x, y));
        assert(cursor_on(c, 4 + x, y) <==> c == at((4 + x) as i32, y as i32));
    }
}

} // verus!
