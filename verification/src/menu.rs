use vstd::prelude::*;
use vstd::multiset::Multiset;
use std::rc::Rc;
use crate::combat::{Direction, EquippedModules, WeaponModuleKind, cell_index};
use crate::ecs::Terminal;
use crate::inventory::{
    InventoryUpdateData, append_held, lemma_list_len_within_inventory, grid_multiset, held_multiset, held_seq, inventory_multiset,
    modules_multiset, lemma_grid_multiset_update,
    lemma_held_seq_multiset, lemma_modules_multiset_concat, lemma_modules_multiset_replace,
    copy_modules, replace_with_held,
};
use crate::load_map::MapAbilityType;
use crate::save::{most_recent_save, names_view, spec_most_recent};

verus! {

broadcast use vstd::multiset::group_multiset_axioms;

/// A position of the menu cursor: column `x`, row `y`.
#[derive(Clone, Copy, Debug, PartialEq, Eq, Structural)]
pub struct CursorPosition {
    pub x: i32,
    pub y: i32,
}

/// The buttons newly pressed in this frame, as the menus read them.
#[derive(Clone, Copy, Debug)]
pub struct MenuInput {
    pub up: bool,
    pub down: bool,
    pub left: bool,
    pub right: bool,
    pub confirm: bool,
    pub cancel: bool,
    pub inventory: bool,
    pub pause: bool,
}

/// Special cursor moves from one position: pressing `moves[i].0` there sends
/// the cursor to `moves[i].1` instead of the ordinary step.
pub struct CursorOverride {
    pub position: CursorPosition,
    pub moves: Vec<(Direction, CursorPosition)>,
}

/// The directions pressed, with opposite presses cancelling out: first the
/// vertical one, if any, then the horizontal one, if any.
pub open spec fn spec_menu_directions(input: MenuInput) -> Seq<Direction> {
    let vertical: Seq<Direction> = if input.up && !input.down {
        seq![Direction::Up]
    } else if input.down && !input.up {
        seq![Direction::Down]
    } else {
        Seq::empty()
    };
    let horizontal: Seq<Direction> = if input.left && !input.right {
        seq![Direction::Left]
    } else if input.right && !input.left {
        seq![Direction::Right]
    } else {
        Seq::empty()
    };
    vertical + horizontal
}

/// The moves registered for `position`; where several entries name the
/// position, the last one counts.
pub open spec fn spec_find_override(overrides: Seq<CursorOverride>, position: CursorPosition) -> Option<
    Seq<(Direction, CursorPosition)>,
>
    decreases overrides.len(),
{
    if overrides.len() == 0 {
        None
    } else if overrides.last().position == position {
        Some(overrides.last().moves@)
    } else {
        spec_find_override(overrides.drop_last(), position)
    }
}

/// The target registered for `direction`; the last entry counts.
pub open spec fn spec_find_move(moves: Seq<(Direction, CursorPosition)>, direction: Direction) -> Option<
    CursorPosition,
>
    decreases moves.len(),
{
    if moves.len() == 0 {
        None
    } else if moves.last().0 == direction {
        Some(moves.last().1)
    } else {
        spec_find_move(moves.drop_last(), direction)
    }
}

/// The ordinary cursor step: the pressed directions move the cursor by one
/// (opposite presses cancel out); leaving the range on one side re-enters it
/// on the other. With no net movement the cursor stays, in range or not.
pub open spec fn spec_wrapped_step(
    cursor: CursorPosition,
    min_x: i32,
    max_x: i32,
    max_y: i32,
    input: MenuInput,
) -> CursorPosition {
    let dx: int = (if input.left { -1int } else { 0int }) + (if input.right { 1int } else { 0int });
    let dy: int = (if input.up { -1int } else { 0int }) + (if input.down { 1int } else { 0int });
    let nx = cursor.x + dx;
    let ny = cursor.y + dy;
    if dx == 0 && dy == 0 {
        cursor
    } else {
        CursorPosition {
            x: if nx < min_x {
                max_x
            } else if nx > max_x {
                min_x
            } else {
                nx as i32
            },
            y: if ny < 0 {
                max_y
            } else if ny > max_y {
                0
            } else {
                ny as i32
            },
        }
    }
}

/// Where the cursor goes when `moves` are the special moves registered for
/// its position: to the target of the first pressed direction (vertical
/// before horizontal) that has one, otherwise by the ordinary step.
pub open spec fn spec_cursor_with_moves(
    cursor: CursorPosition,
    min_x: i32,
    max_x: i32,
    max_y: i32,
    input: MenuInput,
    moves: Option<Seq<(Direction, CursorPosition)>>,
) -> CursorPosition {
    let dirs = spec_menu_directions(input);
    match moves {
        Some(m) => if dirs.len() > 0 && spec_find_move(m, dirs[0]) is Some {
            spec_find_move(m, dirs[0])->0
        } else if dirs.len() > 1 && spec_find_move(m, dirs[1]) is Some {
            spec_find_move(m, dirs[1])->0
        } else {
            spec_wrapped_step(cursor, min_x, max_x, max_y, input)
        },
        None => spec_wrapped_step(cursor, min_x, max_x, max_y, input),
    }
}

/// Where the cursor goes: to an override target if one applies, otherwise by
/// the ordinary step.
pub open spec fn spec_cursor_after(
    cursor: CursorPosition,
    min_x: i32,
    max_x: i32,
    max_y: i32,
    input: MenuInput,
    overrides: Option<Seq<CursorOverride>>,
) -> CursorPosition {
    match overrides {
        Some(ovs) => spec_cursor_with_moves(
            cursor,
            min_x,
            max_x,
            max_y,
            input,
            spec_find_override(ovs, cursor),
        ),
        None => spec_wrapped_step(cursor, min_x, max_x, max_y, input),
    }
}

/// The directions pressed, vertical first (see [`spec_menu_directions`]).
pub fn menu_input_to_direction(input: &MenuInput) -> (dirs: Vec<Direction>)
    ensures
        dirs@ == spec_menu_directions(*input),
{
    let mut dirs: Vec<Direction> = Vec::new();
    if input.up && !input.down {
        dirs.push(Direction::Up);
    } else if input.down && !input.up {
        dirs.push(Direction::Down);
    }
    if input.left && !input.right {
        dirs.push(Direction::Left);
    } else if input.right && !input.left {
        dirs.push(Direction::Right);
    }
    proof {
        assert(dirs@ =~= spec_menu_directions(*input));
    }
    dirs
}

fn find_override_index(overrides: &Vec<CursorOverride>, position: CursorPosition) -> (found: Option<
    usize,
>)
    ensures
        found is None ==> spec_find_override(overrides@, position) is None,
        found matches Some(i) ==> i < overrides@.len() && spec_find_override(overrides@, position)
            == Some(overrides@[i as int].moves@),
{
    let mut i: usize = overrides.len();
    assert(overrides@.take(i as int) =~= overrides@);
    while i > 0
        invariant
            i <= overrides@.len(),
            spec_find_override(overrides@, position) == spec_find_override(
                overrides@.take(i as int),
                position,
            ),
        decreases i,
    {
        proof {
            let t = overrides@.take(i as int);
            assert(t.drop_last() =~= overrides@.take(i - 1));
            assert(t.last() == overrides@[i - 1]);
        }
        if overrides[i - 1].position == position {
            return Some(i - 1);
        }
        i = i - 1;
    }
    None
}

fn find_move(moves: &Vec<(Direction, CursorPosition)>, direction: Direction) -> (found: Option<
    CursorPosition,
>)
    ensures
        found == spec_find_move(moves@, direction),
{
    let mut i: usize = moves.len();
    assert(moves@.take(i as int) =~= moves@);
    while i > 0
        invariant
            i <= moves@.len(),
            spec_find_move(moves@, direction) == spec_find_move(moves@.take(i as int), direction),
        decreases i,
    {
        proof {
            let t = moves@.take(i as int);
            assert(t.drop_last() =~= moves@.take(i - 1));
            assert(t.last() == moves@[i - 1]);
        }
        if moves[i - 1].0 == direction {
            return Some(moves[i - 1].1);
        }
        i = i - 1;
    }
    None
}

/// Moves the cursor for this frame's input inside the range
/// `min_x..=max_x` by `0..=max_y`, honouring the overrides.
pub fn handle_cursor_movement(
    cursor_position: CursorPosition,
    min_x_inclusive: i32,
    max_x_inclusive: i32,
    max_y_inclusive: i32,
    input: &MenuInput,
    overrides: Option<&Vec<CursorOverride>>,
) -> (next: CursorPosition)
    requires
        i32::MIN < cursor_position.x < i32::MAX,
        i32::MIN < cursor_position.y < i32::MAX,
    ensures
        next == spec_cursor_after(
            cursor_position,
            min_x_inclusive,
            max_x_inclusive,
            max_y_inclusive,
            *input,
            match overrides {
                Some(v) => Some(v@),
                None => None,
            },
        ),
{
    if let Some(ovs) = overrides {
        if let Some(index) = find_override_index(ovs, cursor_position) {
            let dirs = menu_input_to_direction(input);
            let moves = &ovs[index].moves;
            if dirs.len() > 0 {
                if let Some(target) = find_move(moves, dirs[0]) {
                    return target;
                }
            }
            if dirs.len() > 1 {
                if let Some(target) = find_move(moves, dirs[1]) {
                    return target;
                }
            }
        }
    }
    let up: i32 = if input.up { -1 } else { 0 };
    let down: i32 = if input.down { 1 } else { 0 };
    let right: i32 = if input.right { 1 } else { 0 };
    let left: i32 = if input.left { -1 } else { 0 };
    let dx: i32 = left + right;
    let dy: i32 = up + down;
    if dx == 0 && dy == 0 {
        return cursor_position;
    }
    let nx: i32 = cursor_position.x + dx;
    let ny: i32 = cursor_position.y + dy;
    CursorPosition {
        x: if nx < min_x_inclusive {
            max_x_inclusive
        } else if nx > max_x_inclusive {
            min_x_inclusive
        } else {
            nx
        },
        y: if ny < 0 {
            max_y_inclusive
        } else if ny > max_y_inclusive {
            0
        } else {
            ny
        },
    }
}


/// Which save the game is started from.
#[derive(Clone, Debug)]
pub enum SaveToLoad {
    Initial,
    SaveData(String),
}

/// How a running game is left.
#[derive(Clone)]
pub enum QuitDecision {
    ToMainMenu,
    ToDesktop,
    LoadSave(String),
}

/// The screens of the main menu; `Main` records whether a "continue" entry is
/// offered.
#[derive(Clone, Copy)]
pub enum MainMenuKind {
    Main(bool),
    MainLoadSave,
    MainLoadSaveConfirm,
}

/// The screens of the in-game menus.
pub enum GameMenuKind {
    PauseMain,
    PauseLoadSave,
    InventoryMain,
    InventoryPickSlot(Option<WeaponModuleKind>, InventoryUpdateData),
    SaveConfirm(i32),
    ModulePickupConfirm(WeaponModuleKind),
    AbilityPickupConfirm(MapAbilityType),
    GameOver,
    TerminalShow(Rc<Terminal>),
}

/// A menu screen with the position of its cursor.
pub struct Menu<Kind> {
    pub kind: Kind,
    pub cursor_position: CursorPosition,
}

/// A screen of the in-game menus.
pub type GameMenu = Menu<GameMenuKind>;

/// A screen of the main menu.
pub type MainMenu = Menu<MainMenuKind>;

/// The cursor at column `x`, row `y`.
pub open spec fn at(x: i32, y: i32) -> CursorPosition {
    CursorPosition { x, y }
}

/// The cursor on the "done" button above the equip grid.
pub open spec fn done_cursor() -> CursorPosition {
    at(0, -1i32)
}

/// Number of unequipped modules shown per row, right of the equip grid.
pub const INVENTORY_WRAP_WIDTH: i32 = 5;

/// The last row of the unequipped area for a list of `count` modules.
pub open spec fn unequipped_rows_max(count: int) -> int {
    count / 5 + 1
}

/// The places where the cursor of the module-placing screen may stand: the
/// "done" button, a cell of the grid, or a slot of the unequipped area.
pub open spec fn valid_pick_cursor(c: CursorPosition, count: int) -> bool {
    ||| c == done_cursor()
    ||| (0 <= c.x < 4 && 0 <= c.y < 4)
    ||| (4 <= c.x <= 9 && 0 <= c.y <= unequipped_rows_max(count))
}

/// The special moves of the grid side of the module-placing screen: from the
/// top row, up goes to "done"; from the right column, right goes to the
/// unequipped area (this entry wins in the top-right cell).
pub open spec fn spec_grid_side_moves(c: CursorPosition) -> Option<
    Seq<(Direction, CursorPosition)>,
> {
    if c.x == 3 && 0 <= c.y < 4 {
        Some(seq![(Direction::Right, CursorPosition { x: 4, y: 0 })])
    } else if c.y == 0 && 0 <= c.x < 4 {
        Some(seq![(Direction::Up, done_cursor())])
    } else {
        None
    }
}

/// The special moves of the unequipped side: from its first column, left goes
/// back to the grid.
pub open spec fn spec_list_side_moves(c: CursorPosition, rows_max: int) -> Option<
    Seq<(Direction, CursorPosition)>,
> {
    if c.x == 4 && 0 <= c.y <= rows_max {
        Some(seq![(Direction::Left, CursorPosition { x: 3, y: 0 })])
    } else {
        None
    }
}

/// Where the cursor of the module-placing screen goes for `count` unequipped
/// modules.
pub open spec fn spec_pick_slot_cursor(c: CursorPosition, input: MenuInput, count: int) -> CursorPosition {
    if c.x < 4 {
        spec_cursor_with_moves(c, 0, 3, 3, input, spec_grid_side_moves(c))
    } else {
        let rows = unequipped_rows_max(count);
        spec_cursor_with_moves(c, 4, 9, rows as i32, input, spec_list_side_moves(c, rows))
    }
}

/// Adding an entry at the end of an override table makes it the one found for
/// its position and leaves the other positions as they were.
pub proof fn lemma_find_override_push(
    prev: Seq<CursorOverride>,
    next: Seq<CursorOverride>,
    position: CursorPosition,
    moves: Seq<(Direction, CursorPosition)>,
)
    requires
        next.len() == prev.len() + 1,
        forall|i: int| 0 <= i < prev.len() ==> next[i] == prev[i],
        next.last().position == position,
        next.last().moves@ == moves,
    ensures
        forall|c: CursorPosition|
            #[trigger] spec_find_override(next, c) == if c == position {
                Some(moves)
            } else {
                spec_find_override(prev, c)
            },
{
    assert(next.drop_last() =~= prev);
}

/// The move found in a one-entry list.
pub proof fn lemma_find_single_move(
    direction: Direction,
    target: CursorPosition,
    pressed: Direction,
)
    ensures
        spec_find_move(seq![(direction, target)], pressed) == if pressed == direction {
            Some(target)
        } else {
            None
        },
{
    let s = seq![(direction, target)];
    assert(s.drop_last() =~= Seq::<(Direction, CursorPosition)>::empty());
    assert(s.last() == (direction, target));
    assert(spec_find_move(Seq::<(Direction, CursorPosition)>::empty(), pressed) is None);
}

/// The ordinary step, when it moves the cursor at all, lands inside the
/// range; otherwise it leaves the cursor where it was.
pub proof fn lemma_wrapped_step_in_range(
    c: CursorPosition,
    min_x: i32,
    max_x: i32,
    max_y: i32,
    input: MenuInput,
)
    requires
        min_x <= max_x,
        0 <= max_y,
    ensures
        ({
            let n = spec_wrapped_step(c, min_x, max_x, max_y, input);
            ||| n == c
            ||| (min_x <= n.x <= max_x && 0 <= n.y <= max_y)
        }),
        (min_x <= c.x <= max_x && 0 <= c.y <= max_y) ==> ({
            let n = spec_wrapped_step(c, min_x, max_x, max_y, input);
            min_x <= n.x <= max_x && 0 <= n.y <= max_y
        }),
{
}

fn single_move(direction: Direction, target: CursorPosition) -> (moves: Vec<
    (Direction, CursorPosition),
>)
    ensures
        moves@ == seq![(direction, target)],
{
    let mut moves: Vec<(Direction, CursorPosition)> = Vec::new();
    moves.push((direction, target));
    proof {
        assert(moves@ =~= seq![(direction, target)]);
    }
    moves
}

fn grid_side_overrides() -> (ovs: Vec<CursorOverride>)
    ensures
        forall|c: CursorPosition| spec_find_override(ovs@, c) == spec_grid_side_moves(c),
{
    let mut ovs: Vec<CursorOverride> = Vec::new();
    let mut x: i32 = 0;
    while x < 4
        invariant
            0 <= x <= 4,
            forall|c: CursorPosition|
                spec_find_override(ovs@, c) == if c.y == 0 && 0 <= c.x < x {
                    Some(seq![(Direction::Up, done_cursor())])
                } else {
                    None::<Seq<(Direction, CursorPosition)>>
                },
        decreases 4 - x,
    {
        let ghost prev = ovs@;
        let moves = single_move(Direction::Up, CursorPosition { x: 0, y: -1 });
        let ghost mv = moves@;
        ovs.push(CursorOverride { position: CursorPosition { x, y: 0 }, moves });
        proof {
            lemma_find_override_push(prev, ovs@, at(x, 0), mv);
        }
        x = x + 1;
    }
    let mut y: i32 = 0;
    while y < 4
        invariant
            0 <= y <= 4,
            forall|c: CursorPosition|
                spec_find_override(ovs@, c) == if c.x == 3 && 0 <= c.y < y {
                    Some(seq![(Direction::Right, CursorPosition { x: 4, y: 0 })])
                } else if c.y == 0 && 0 <= c.x < 4 {
                    Some(seq![(Direction::Up, done_cursor())])
                } else {
                    None::<Seq<(Direction, CursorPosition)>>
                },
        decreases 4 - y,
    {
        let ghost prev = ovs@;
        let moves = single_move(Direction::Right, CursorPosition { x: 4, y: 0 });
        let ghost mv = moves@;
        ovs.push(CursorOverride { position: CursorPosition { x: 3, y }, moves });
        proof {
            lemma_find_override_push(prev, ovs@, at(3, y), mv);
        }
        y = y + 1;
    }
    ovs
}

fn list_side_overrides(rows_max: i32) -> (ovs: Vec<CursorOverride>)
    requires
        0 <= rows_max < i32::MAX,
    ensures
        forall|c: CursorPosition|
            spec_find_override(ovs@, c) == spec_list_side_moves(c, rows_max as int),
{
    let mut ovs: Vec<CursorOverride> = Vec::new();
    let mut y: i32 = 0;
    while y < rows_max + 1
        invariant
            0 <= y <= rows_max + 1,
            rows_max < i32::MAX,
            forall|c: CursorPosition|
                spec_find_override(ovs@, c) == if c.x == 4 && 0 <= c.y < y {
                    Some(seq![(Direction::Left, CursorPosition { x: 3, y: 0 })])
                } else {
                    None::<Seq<(Direction, CursorPosition)>>
                },
        decreases rows_max + 1 - y,
    {
        let ghost prev = ovs@;
        let moves = single_move(Direction::Left, CursorPosition { x: 3, y: 0 });
        let ghost mv = moves@;
        ovs.push(CursorOverride { position: CursorPosition { x: 4, y }, moves });
        proof {
            lemma_find_override_push(prev, ovs@, at(4, y), mv);
        }
        y = y + 1;
    }
    ovs
}

/// What a frame of the module-placing screen produces (see
/// [`inventory_pick_slot`]).
pub open spec fn pick_slot_outcome(
    cursor_position: CursorPosition,
    input: MenuInput,
    currently_holding: Option<WeaponModuleKind>,
    old_grid: Seq<Option<WeaponModuleKind>>,
    old_list: Seq<WeaponModuleKind>,
    menus: Seq<GameMenu>,
    update: Option<InventoryUpdateData>,
) -> bool {
    {
            let count = old_list.len() as int;
            let c = spec_pick_slot_cursor(cursor_position, input, count);
            &&& valid_pick_cursor(c, count)
            &&& (input.confirm && c != done_cursor() && c.x < 4) ==> {
                &&& update is None
                &&& menus.len() == 1
                &&& menus[0].cursor_position == c
                &&& menus[0].kind matches GameMenuKind::InventoryPickSlot(held, data) && {
                    &&& held == old_grid[cell_index(c.x as int, c.y as int)]
                    &&& data.equipped_modules@ == old_grid.update(
                        cell_index(c.x as int, c.y as int),
                        currently_holding,
                    )
                    &&& data.unequipped_modules@ == old_list
                }
            }
            &&& (input.confirm && c != done_cursor() && c.x >= 4) ==> {
                let index = c.x - 4 + c.y * 5;
                &&& update is None
                &&& menus.len() == 1
                &&& menus[0].cursor_position == c
                &&& menus[0].kind matches GameMenuKind::InventoryPickSlot(held, data) && {
                    &&& data.equipped_modules@ == old_grid
                    &&& index < count ==> held == Some(old_list[index])
                        && data.unequipped_modules@ == old_list.take(index) + held_seq(
                        currently_holding,
                    ) + old_list.skip(index + 1)
                    &&& index >= count ==> held is None && data.unequipped_modules@ == old_list
                        + held_seq(currently_holding)
                }
            }
            &&& (input.confirm && c == done_cursor()) ==> {
                &&& menus.len() == 0
                &&& update matches Some(data) && data.equipped_modules@ == old_grid
                    && data.unequipped_modules@ == old_list + held_seq(currently_holding)
            }
            &&& !input.confirm ==> {
                &&& update is None
                &&& menus.len() == 1
                &&& menus[0].cursor_position == c
                &&& menus[0].kind matches GameMenuKind::InventoryPickSlot(held, data) && held
                    == currently_holding && data.equipped_modules@ == old_grid
                    && data.unequipped_modules@ == old_list
            }
            &&& menus.len() == 1 ==> (menus[0].kind matches GameMenuKind::InventoryPickSlot(
                held,
                data,
            ) && inventory_multiset(data.equipped_modules@, data.unequipped_modules@, held)
                == inventory_multiset(old_grid, old_list, currently_holding) && valid_pick_cursor(
                menus[0].cursor_position,
                data.unequipped_modules@.len() as int,
            ))
            &&& update matches Some(data) ==> inventory_multiset(
                data.equipped_modules@,
                data.unequipped_modules@,
                None,
            ) == inventory_multiset(old_grid, old_list, currently_holding)
        }
}

/// One frame of the module-placing screen. `holding` is the module in hand.
/// Confirming on a grid cell or an unequipped slot swaps the hand with its
/// content (an empty hand empties the slot; a slot past the end of the list
/// takes the hand's module at the end of the list); confirming on "done" leaves
/// the screen and hands back the edited inventory with the held module put
/// at the end of the list. No module is ever created or lost.
#[verifier::rlimit(60)]
#[verifier::spinoff_prover]
pub fn inventory_pick_slot(
    cursor_position: CursorPosition,
    input: &MenuInput,
    currently_holding: Option<WeaponModuleKind>,
    inventory_update: InventoryUpdateData,
) -> (result: (Vec<GameMenu>, Option<InventoryUpdateData>))
    requires
        inventory_multiset(
            inventory_update.equipped_modules@,
            inventory_update.unequipped_modules@,
            currently_holding,
        ).len() + 10 <= i32::MAX,
        valid_pick_cursor(cursor_position, inventory_update.unequipped_modules@.len() as int),
    ensures
        pick_slot_outcome(
            cursor_position,
            *input,
            currently_holding,
            inventory_update.equipped_modules@,
            inventory_update.unequipped_modules@,
            result.0@,
            result.1,
        ),
{
    proof {
        lemma_list_len_within_inventory(
            inventory_update.equipped_modules@,
            inventory_update.unequipped_modules@,
            currently_holding,
        );
    }
    let count_usize = inventory_update.unequipped_modules.len();
    let count: i32 = count_usize as i32;
    let rows_max: i32 = count / INVENTORY_WRAP_WIDTH + 1;
    proof {
        assert(rows_max as int == unequipped_rows_max(count as int));
    }
    let c = if cursor_position.x < 4 {
        let ovs = grid_side_overrides();
        handle_cursor_movement(cursor_position, 0, 3, 3, input, Some(&ovs))
    } else {
        let ovs = list_side_overrides(rows_max);
        handle_cursor_movement(cursor_position, 4, 9, rows_max, input, Some(&ovs))
    };
    proof {
        assert(c == spec_pick_slot_cursor(cursor_position, *input, count as int));
        lemma_pick_slot_cursor_valid(cursor_position, *input, count as int);
    }
    let ghost old_grid = inventory_update.equipped_modules@;
    let ghost old_list = inventory_update.unequipped_modules@;
    if input.confirm && c != (CursorPosition { x: 0, y: -1 }) {
        if c.x < 4 {
            let InventoryUpdateData { mut equipped_modules, unequipped_modules } = inventory_update;
            let held = equipped_modules.get(c.x as usize, c.y as usize);
            equipped_modules.set(c.x as usize, c.y as usize, currently_holding);
            proof {
                lemma_grid_multiset_update(
                    old_grid,
                    cell_index(c.x as int, c.y as int),
                    currently_holding,
                );
                let i = cell_index(c.x as int, c.y as int);
                assert(held == old_grid[i]);
                assert(equipped_modules@ == old_grid.update(i, currently_holding));
                assert forall|v: WeaponModuleKind| #[trigger] inventory_multiset(equipped_modules@, old_list, held).count(v) == inventory_multiset(old_grid, old_list, currently_holding).count(v) by {
                    assert(grid_multiset(old_grid.update(i, currently_holding)).add(held_multiset(old_grid[i])).count(v) == grid_multiset(old_grid).add(held_multiset(currently_holding)).count(v));
                }
                assert(inventory_multiset(equipped_modules@, old_list, held) =~= inventory_multiset(
                    old_grid,
                    old_list,
                    currently_holding,
                ));
            }
            let mut menus: Vec<GameMenu> = Vec::new();
            menus.push(
                Menu {
                    cursor_position: c,
                    kind: GameMenuKind::InventoryPickSlot(
                        held,
                        InventoryUpdateData { equipped_modules, unequipped_modules },
                    ),
                },
            );
            return (menus, None);
        } else {
            let index: i32 = c.x - 4 + c.y * 5;
            let index_usize = index as usize;
            let InventoryUpdateData { equipped_modules, unequipped_modules } = inventory_update;
            let (held, list) = if index_usize < count_usize {
                let held = unequipped_modules[index_usize];
                let list = replace_with_held(&unequipped_modules, index_usize, currently_holding);
                proof {
                    lemma_modules_multiset_replace(old_list, index as int, currently_holding);
                }
                (Some(held), list)
            } else {
                let list = append_held(&unequipped_modules, currently_holding);
                proof {
                    lemma_modules_multiset_concat(old_list, held_seq(currently_holding));
                    lemma_held_seq_multiset(currently_holding);
                }
                (None, list)
            };
            proof {
                assert(index_usize < count_usize ==> held == Some(old_list[index as int]));
                assert(index_usize < count_usize ==> list@ == old_list.take(index as int) + held_seq(currently_holding) + old_list.skip(index + 1));
                assert forall|v: WeaponModuleKind| #[trigger] inventory_multiset(old_grid, list@, held).count(v) == inventory_multiset(old_grid, old_list, currently_holding).count(v) by {
                    if index_usize < count_usize {
                        assert(modules_multiset(list@).add(Multiset::singleton(old_list[index as int])).count(v) == modules_multiset(old_list).add(held_multiset(currently_holding)).count(v));
                    } else {
                        assert(modules_multiset(list@) == modules_multiset(old_list).add(modules_multiset(held_seq(currently_holding))));
                    }
                }
                assert(inventory_multiset(old_grid, list@, held) =~= inventory_multiset(
                    old_grid,
                    old_list,
                    currently_holding,
                ));
                lemma_list_edit_keeps_cursor_valid(c, old_list.len() as int, list@.len() as int, index as int);
            }
            let mut menus: Vec<GameMenu> = Vec::new();
            menus.push(
                Menu {
                    cursor_position: c,
                    kind: GameMenuKind::InventoryPickSlot(
                        held,
                        InventoryUpdateData { equipped_modules, unequipped_modules: list },
                    ),
                },
            );
            return (menus, None);
        }
    }
    if input.confirm {
        let InventoryUpdateData { equipped_modules, unequipped_modules } = inventory_update;
        let list = append_held(&unequipped_modules, currently_holding);
        proof {
            lemma_modules_multiset_concat(old_list, held_seq(currently_holding));
            lemma_held_seq_multiset(currently_holding);
            assert forall|v: WeaponModuleKind| #[trigger] inventory_multiset(old_grid, list@, None).count(v) == inventory_multiset(old_grid, old_list, currently_holding).count(v) by {
                assert(modules_multiset(list@) == modules_multiset(old_list).add(modules_multiset(held_seq(currently_holding))));
            }
            assert(inventory_multiset(old_grid, list@, None) =~= inventory_multiset(old_grid, old_list, currently_holding));
        }
        return (Vec::new(), Some(InventoryUpdateData { equipped_modules, unequipped_modules: list }));
    }
    let mut menus: Vec<GameMenu> = Vec::new();
    menus.push(
        Menu {
            cursor_position: c,
            kind: GameMenuKind::InventoryPickSlot(currently_holding, inventory_update),
        },
    );
    (menus, None)
}

/// The cursor of the module-placing screen never leaves the valid places.
pub proof fn lemma_pick_slot_cursor_valid(c: CursorPosition, input: MenuInput, count: int)
    requires
        valid_pick_cursor(c, count),
        0 <= count,
        count + 10 <= i32::MAX,
    ensures
        valid_pick_cursor(spec_pick_slot_cursor(c, input, count), count),
{
    let rows = unequipped_rows_max(count);
    let dirs = spec_menu_directions(input);
    if c.x < 4 {
        lemma_wrapped_step_in_range(c, 0, 3, 3, input);
        if dirs.len() > 0 {
            lemma_find_single_move(Direction::Right, at(4, 0), dirs[0]);
            lemma_find_single_move(Direction::Up, done_cursor(), dirs[0]);
        }
        if dirs.len() > 1 {
            lemma_find_single_move(Direction::Right, at(4, 0), dirs[1]);
            lemma_find_single_move(Direction::Up, done_cursor(), dirs[1]);
        }
    } else {
        lemma_wrapped_step_in_range(c, 4, 9, rows as i32, input);
        if dirs.len() > 0 {
            lemma_find_single_move(Direction::Left, at(3, 0), dirs[0]);
        }
        if dirs.len() > 1 {
            lemma_find_single_move(Direction::Left, at(3, 0), dirs[1]);
        }
    }
}

/// Editing the unequipped list at the cursor's slot keeps the cursor in the
/// unequipped area of the edited list.
pub proof fn lemma_list_edit_keeps_cursor_valid(
    c: CursorPosition,
    old_count: int,
    new_count: int,
    index: int,
)
    requires
        4 <= c.x <= 9,
        0 <= c.y <= unequipped_rows_max(old_count),
        index == c.x - 4 + c.y * 5,
        0 <= old_count,
        index < old_count ==> new_count >= old_count - 1,
        index >= old_count ==> new_count >= old_count,
    ensures
        valid_pick_cursor(c, new_count),
{
    if index < old_count {
        assert(c.y * 5 <= index);
        assert(c.y <= (old_count - 1) / 5) by (nonlinear_arith)
            requires c.y * 5 <= index, index < old_count, 0 <= c.y;
        assert((old_count - 1) / 5 <= new_count / 5) by (nonlinear_arith)
            requires new_count >= old_count - 1, old_count >= 1;
    } else {
        assert(old_count / 5 <= new_count / 5) by (nonlinear_arith)
            requires new_count >= old_count, old_count >= 0;
    }
}


/// The cursor after a frame of a menu with no special moves.
fn step_cursor(
    cursor: CursorPosition,
    min_x: i32,
    max_x: i32,
    max_y: i32,
    input: &MenuInput,
) -> (next: CursorPosition)
    requires
        i32::MIN < cursor.x < i32::MAX,
        i32::MIN < cursor.y < i32::MAX,
        min_x <= max_x,
        0 <= max_y,
    ensures
        next == spec_wrapped_step(cursor, min_x, max_x, max_y, *input),
        next == cursor || (min_x <= next.x <= max_x && 0 <= next.y <= max_y),
        (min_x <= cursor.x <= max_x && 0 <= cursor.y <= max_y) ==> (min_x <= next.x <= max_x && 0
            <= next.y <= max_y),
{
    proof {
        lemma_wrapped_step_in_range(cursor, min_x, max_x, max_y, *input);
    }
    handle_cursor_movement(cursor, min_x, max_x, max_y, input, None)
}

fn one_menu<K>(cursor_position: CursorPosition, kind: K) -> (menus: Vec<Menu<K>>)
    ensures
        menus@.len() == 1,
        menus@[0].cursor_position == cursor_position,
        menus@[0].kind == kind,
{
    let mut menus: Vec<Menu<K>> = Vec::new();
    menus.push(Menu { kind, cursor_position });
    menus
}

fn two_menus<K>(first: Menu<K>, second: Menu<K>) -> (menus: Vec<Menu<K>>)
    ensures
        menus@ == seq![first, second],
{
    let mut menus: Vec<Menu<K>> = Vec::new();
    menus.push(first);
    menus.push(second);
    proof {
        assert(menus@ =~= seq![first, second]);
    }
    menus
}

/// What a frame of the pause menu produces.
pub open spec fn pause_main_outcome(
    cursor_position: CursorPosition,
    input: MenuInput,
    menus: Seq<GameMenu>,
    quit: Option<QuitDecision>,
) -> bool {
    let c = spec_wrapped_step(cursor_position, 0, 0, 2, input);
    &&& c.x == 0 && 0 <= c.y <= 2
    &&& !input.confirm ==> menus.len() == 1 && menus[0].cursor_position == c
        && menus[0].kind is PauseMain && quit is None
    &&& (input.confirm && c.y == 0) ==> menus.len() == 0 && quit is None
    &&& (input.confirm && c.y == 1) ==> menus.len() == 2 && menus[0].cursor_position == at(0, 0)
        && menus[0].kind is PauseLoadSave && menus[1].cursor_position == c
        && menus[1].kind is PauseMain && quit is None
    &&& (input.confirm && c.y == 2) ==> (menus.len() == 0 && (quit matches Some(
        QuitDecision::ToMainMenu,
    )))
}

/// One frame of the pause menu (entries: back to the game, load a save, quit
/// to the main menu).
pub fn pause_main(cursor_position: CursorPosition, input: &MenuInput) -> (result: (
    Vec<GameMenu>,
    Option<QuitDecision>,
))
    requires
        cursor_position.x == 0,
        0 <= cursor_position.y <= 2,
    ensures
        pause_main_outcome(cursor_position, *input, result.0@, result.1),
{
    let c = step_cursor(cursor_position, 0, 0, 2, input);
    if !input.confirm {
        return (one_menu(c, GameMenuKind::PauseMain), None);
    }
    if c.y == 0 {
        (Vec::new(), None)
    } else if c.y == 1 {
        (
            two_menus(
                Menu { cursor_position: CursorPosition { x: 0, y: 0 }, kind: GameMenuKind::PauseLoadSave },
                Menu { cursor_position: c, kind: GameMenuKind::PauseMain },
            ),
            None,
        )
    } else {
        (Vec::new(), Some(QuitDecision::ToMainMenu))
    }
}

/// The save chosen on a save list: the entry under `c`, whose first row is the
/// "back" entry.
fn chosen_save(c: CursorPosition, saves: &Vec<String>) -> (chosen: Option<String>)
    requires
        1 <= c.y <= saves@.len(),
    ensures
        chosen == Some(saves@[c.y - 1]),
{
    let index = (c.y - 1) as usize;
    Some(saves[index].clone())
}

/// What a frame of a save list produces: `shown` is whether the list stays
/// open, `chosen` the save picked, if any.
pub open spec fn save_list_outcome(
    cursor_position: CursorPosition,
    input: MenuInput,
    saves: Seq<String>,
    shown: Option<CursorPosition>,
    chosen: Option<String>,
) -> bool {
    let c = spec_wrapped_step(cursor_position, 0, 0, saves.len() as i32, input);
    &&& c.x == 0 && 0 <= c.y <= saves.len()
    &&& !input.confirm ==> shown == Some(c) && chosen is None
    &&& (input.confirm && c.y == 0) ==> shown is None && chosen is None
    &&& (input.confirm && c.y > 0) ==> shown is None && chosen == Some(saves[c.y - 1])
}

/// The position of the only menu of a one-menu list, if the list has one menu.
pub open spec fn single_cursor<K>(menus: Seq<Menu<K>>) -> Option<CursorPosition> {
    if menus.len() == 1 {
        Some(menus[0].cursor_position)
    } else {
        None
    }
}

/// One frame of the in-game list of saves; the first row goes back.
pub fn pause_load_game(
    cursor_position: CursorPosition,
    input: &MenuInput,
    available_saves: &Vec<String>,
) -> (result: (Vec<GameMenu>, Option<String>))
    requires
        available_saves@.len() < i32::MAX,
        cursor_position.x == 0,
        0 <= cursor_position.y <= available_saves@.len(),
    ensures
        result.0@.len() <= 1,
        forall|i: int| 0 <= i < result.0@.len() ==> #[trigger] result.0@[i].kind is PauseLoadSave,
        save_list_outcome(
            cursor_position,
            *input,
            available_saves@,
            single_cursor(result.0@),
            result.1,
        ),
{
    let count = available_saves.len() as i32;
    let c = step_cursor(cursor_position, 0, 0, count, input);
    if !input.confirm {
        return (one_menu(c, GameMenuKind::PauseLoadSave), None);
    }
    if c.y == 0 {
        return (Vec::new(), None);
    }
    (Vec::new(), chosen_save(c, available_saves))
}

/// One frame of the main menu's list of saves; the first row goes back.
pub fn menu_load_game(
    cursor_position: CursorPosition,
    input: &MenuInput,
    available_saves: &Vec<String>,
) -> (result: (Vec<MainMenu>, Option<String>))
    requires
        available_saves@.len() < i32::MAX,
        cursor_position.x == 0,
        0 <= cursor_position.y <= available_saves@.len(),
    ensures
        result.0@.len() <= 1,
        forall|i: int| 0 <= i < result.0@.len() ==> #[trigger] result.0@[i].kind is MainLoadSave,
        save_list_outcome(
            cursor_position,
            *input,
            available_saves@,
            single_cursor(result.0@),
            result.1,
        ),
{
    let count = available_saves.len() as i32;
    let c = step_cursor(cursor_position, 0, 0, count, input);
    if !input.confirm {
        return (one_menu(c, MainMenuKind::MainLoadSave), None);
    }
    if c.y == 0 {
        return (Vec::new(), None);
    }
    (Vec::new(), chosen_save(c, available_saves))
}

/// What a frame of the main menu produces. With the "continue" entry the
/// rows are continue, new game, load; without it, new game, load.
pub open spec fn menu_main_outcome(
    cursor_position: CursorPosition,
    input: MenuInput,
    saves: Seq<String>,
    include_continue: bool,
    menus: Seq<MainMenu>,
    load: Option<SaveToLoad>,
) -> bool {
    let last_row: i32 = if include_continue { 2 } else { 1 };
    let c = spec_wrapped_step(cursor_position, 0, 0, last_row, input);
    let row_new: i32 = if include_continue { 1 } else { 0 };
    &&& (c == cursor_position || (c.x == 0 && 0 <= c.y <= last_row))
    &&& !input.confirm ==> (menus.len() == 1 && menus[0].cursor_position == c && menus[0].kind
        == MainMenuKind::Main(include_continue) && load is None)
    &&& (input.confirm && include_continue && c.y == 0) ==> (menus.len() == 0 && (load matches Some(
        SaveToLoad::SaveData(name),
    ) && name@ == spec_most_recent(names_view(saves))))
    &&& (input.confirm && c.y == row_new) ==> (menus.len() == 0 && (load matches Some(
        SaveToLoad::Initial,
    )))
    &&& (input.confirm && c.y == last_row) ==> (menus.len() == 2 && menus[0].cursor_position == at(
        0,
        0,
    ) && menus[0].kind == MainMenuKind::MainLoadSave && menus[1].cursor_position == c
        && menus[1].kind == MainMenuKind::Main(include_continue) && load is None)
}

/// One frame of the main menu.
pub fn menu_main(
    cursor_position: CursorPosition,
    available_saves: &Vec<String>,
    input: &MenuInput,
    should_include_continue_option: bool,
) -> (result: (Vec<MainMenu>, Option<SaveToLoad>))
    requires
        i32::MIN < cursor_position.x < i32::MAX,
        i32::MIN < cursor_position.y < i32::MAX,
        input.confirm ==> ({
            let c = spec_wrapped_step(
                cursor_position,
                0,
                0,
                if should_include_continue_option { 2 } else { 1 },
                *input,
            );
            c.x == 0 && 0 <= c.y <= (if should_include_continue_option { 2int } else { 1int })
        }),
    ensures
        menu_main_outcome(
            cursor_position,
            *input,
            available_saves@,
            should_include_continue_option,
            result.0@,
            result.1,
        ),
{
    let last_row: i32 = if should_include_continue_option { 2 } else { 1 };
    let c = step_cursor(cursor_position, 0, 0, last_row, input);
    if !input.confirm {
        return (one_menu(c, MainMenuKind::Main(should_include_continue_option)), None);
    }
    let row_new: i32 = if should_include_continue_option { 1 } else { 0 };
    if should_include_continue_option && c.y == 0 {
        let most_recent = most_recent_save(available_saves);
        return (Vec::new(), Some(SaveToLoad::SaveData(most_recent)));
    }
    if c.y == row_new {
        return (Vec::new(), Some(SaveToLoad::Initial));
    }
    (
        two_menus(
            Menu { cursor_position: CursorPosition { x: 0, y: 0 }, kind: MainMenuKind::MainLoadSave },
            Menu { cursor_position: c, kind: MainMenuKind::Main(should_include_continue_option) },
        ),
        None,
    )
}

/// What a frame of the inventory screen produces.
pub open spec fn inventory_main_outcome(
    cursor_position: CursorPosition,
    input: MenuInput,
    grid: Seq<Option<WeaponModuleKind>>,
    unequipped: Seq<WeaponModuleKind>,
    menus: Seq<GameMenu>,
) -> bool {
    let c = spec_wrapped_step(cursor_position, 0, 1, 0, input);
    &&& c.y == 0 && 0 <= c.x <= 1
    &&& (input.confirm && c.x == 0) ==> (menus.len() == 2 && menus[1].cursor_position == c
        && menus[1].kind is InventoryMain && menus[0].cursor_position == at(0, 0) && (
    menus[0].kind matches GameMenuKind::InventoryPickSlot(held, data) && held is None
        && data.equipped_modules@ == grid && data.unequipped_modules@ == unequipped))
    &&& (input.confirm && c.x == 1) ==> menus.len() == 0
    &&& !input.confirm ==> menus.len() == 1 && menus[0].cursor_position == c
        && menus[0].kind is InventoryMain
}

/// One frame of the inventory screen (entries: edit, close).
pub fn inventory_main(
    cursor_position: CursorPosition,
    input: &MenuInput,
    unequipped_modules: &Vec<WeaponModuleKind>,
    equipped_modules: EquippedModules,
) -> (menus: Vec<GameMenu>)
    requires
        cursor_position.y == 0,
        0 <= cursor_position.x <= 1,
    ensures
        inventory_main_outcome(
            cursor_position,
            *input,
            equipped_modules@,
            unequipped_modules@,
            menus@,
        ),
{
    let c = step_cursor(cursor_position, 0, 1, 0, input);
    if c.x == 0 && input.confirm {
        return two_menus(
            Menu {
                cursor_position: CursorPosition { x: 0, y: 0 },
                kind: GameMenuKind::InventoryPickSlot(
                    None,
                    InventoryUpdateData {
                        equipped_modules,
                        unequipped_modules: copy_modules(unequipped_modules),
                    },
                ),
            },
            Menu { cursor_position: c, kind: GameMenuKind::InventoryMain },
        );
    }
    if c.x == 1 && input.confirm {
        return Vec::new();
    }
    one_menu(c, GameMenuKind::InventoryMain)
}

/// What a frame of the "save here?" question produces.
pub open spec fn save_confirm_outcome(
    cursor_position: CursorPosition,
    input: MenuInput,
    id: i32,
    menus: Seq<GameMenu>,
    confirmed: Option<i32>,
) -> bool {
    let c = spec_wrapped_step(cursor_position, 0, 1, 0, input);
    &&& c.y == 0 && 0 <= c.x <= 1
    &&& !input.confirm ==> (menus.len() == 1 && menus[0].cursor_position == c && menus[0].kind
        == GameMenuKind::SaveConfirm(id) && confirmed is None)
    &&& (input.confirm && c.x == 0) ==> menus.len() == 0 && confirmed is None
    &&& (input.confirm && c.x == 1) ==> menus.len() == 0 && confirmed == Some(id)
}

/// One frame of the "save here?" question (entries: no, yes); confirming yes
/// hands back the save point's id.
pub fn save_confirm(cursor_position: CursorPosition, input: &MenuInput, id: i32) -> (result: (
    Vec<GameMenu>,
    Option<i32>,
))
    requires
        cursor_position.y == 0,
        0 <= cursor_position.x <= 1,
    ensures
        save_confirm_outcome(cursor_position, *input, id, result.0@, result.1),
{
    let c = step_cursor(cursor_position, 0, 1, 0, input);
    if !input.confirm {
        return (one_menu(c, GameMenuKind::SaveConfirm(id)), None);
    }
    if c.x == 0 {
        (Vec::new(), None)
    } else {
        (Vec::new(), Some(id))
    }
}

/// What a frame of the "module found" notice produces.
pub open spec fn module_pickup_outcome(
    input: MenuInput,
    kind: WeaponModuleKind,
    grid: Seq<Option<WeaponModuleKind>>,
    unequipped: Seq<WeaponModuleKind>,
    menus: Seq<GameMenu>,
) -> bool {
    &&& input.confirm ==> (menus.len() == 2 && menus[1].cursor_position == at(0, 0)
        && menus[1].kind is InventoryMain && menus[0].cursor_position == at(0, 0) && (
    menus[0].kind matches GameMenuKind::InventoryPickSlot(held, data) && held is None
        && data.equipped_modules@ == grid && data.unequipped_modules@ == unequipped))
    &&& !input.confirm ==> menus.len() == 1 && menus[0].cursor_position == at(0, 0)
        && menus[0].kind == GameMenuKind::ModulePickupConfirm(kind)
}

/// One frame of the "module found" notice: confirming opens the
/// module-placing screen over the inventory screen.
pub fn module_pickup_confirm(
    input: &MenuInput,
    weapon_module_kind: WeaponModuleKind,
    inventory_update: InventoryUpdateData,
) -> (menus: Vec<GameMenu>)
    ensures
        module_pickup_outcome(
            *input,
            weapon_module_kind,
            inventory_update.equipped_modules@,
            inventory_update.unequipped_modules@,
            menus@,
        ),
{
    if input.confirm {
        two_menus(
            Menu {
                cursor_position: CursorPosition { x: 0, y: 0 },
                kind: GameMenuKind::InventoryPickSlot(None, inventory_update),
            },
            Menu { cursor_position: CursorPosition { x: 0, y: 0 }, kind: GameMenuKind::InventoryMain },
        )
    } else {
        one_menu(
            CursorPosition { x: 0, y: 0 },
            GameMenuKind::ModulePickupConfirm(weapon_module_kind),
        )
    }
}

/// What a frame of the "ability found" notice produces.
pub open spec fn ability_pickup_outcome(
    input: MenuInput,
    ability_type: MapAbilityType,
    menus: Seq<GameMenu>,
) -> bool {
    &&& input.confirm ==> menus.len() == 0
    &&& !input.confirm ==> menus.len() == 1 && menus[0].cursor_position == at(0, 0)
        && menus[0].kind == GameMenuKind::AbilityPickupConfirm(ability_type)
}

/// One frame of the "ability found" notice, closed by confirming.
pub fn ability_pickup_confirm(input: &MenuInput, ability_type: MapAbilityType) -> (menus: Vec<
    GameMenu,
>)
    ensures
        ability_pickup_outcome(*input, ability_type, menus@),
{
    if input.confirm {
        Vec::new()
    } else {
        one_menu(CursorPosition { x: 0, y: 0 }, GameMenuKind::AbilityPickupConfirm(ability_type))
    }
}

/// What a frame of the game-over screen produces.
pub open spec fn game_over_outcome(
    input: MenuInput,
    menus: Seq<GameMenu>,
    quit: Option<QuitDecision>,
) -> bool {
    &&& input.confirm ==> (menus.len() == 0 && (quit matches Some(QuitDecision::ToMainMenu)))
    &&& !input.confirm ==> quit is None && menus.len() == 1 && menus[0].cursor_position == at(0, 0)
        && menus[0].kind is GameOver
}

/// One frame of the game-over screen; confirming returns to the main menu.
pub fn game_over(input: &MenuInput) -> (result: (Option<QuitDecision>, Vec<GameMenu>))
    ensures
        game_over_outcome(*input, result.1@, result.0),
{
    if input.confirm {
        (Some(QuitDecision::ToMainMenu), Vec::new())
    } else {
        (None, one_menu(CursorPosition { x: 0, y: 0 }, GameMenuKind::GameOver))
    }
}

/// Lines a terminal shows at once before it scrolls.
pub const TERMINAL_DISPLAY_LINES_BEFORE_SCROLL: i32 = 20;

/// The number of line breaks in a text.
pub open spec fn newline_count(s: Seq<char>) -> nat
    decreases s.len(),
{
    if s.len() == 0 {
        0
    } else {
        newline_count(s.drop_last()) + if s.last() == '\n' {
            1nat
        } else {
            0nat
        }
    }
}

/// The number of lines of a text: one more than its line breaks.
pub fn line_count(text: &str) -> (lines: usize)
    requires
        text@.len() < usize::MAX,
    ensures
        lines == newline_count(text@) + 1,
{
    let n = text.unicode_len();
    let mut i: usize = 0;
    let mut breaks: usize = 0;
    while i < n
        invariant
            n == text@.len(),
            n < usize::MAX,
            i <= n,
            breaks == newline_count(text@.take(i as int)),
            breaks <= i,
        decreases n - i,
    {
        let c = text.get_char(i);
        proof {
            let t = text@.take(i + 1);
            assert(t.drop_last() =~= text@.take(i as int));
            assert(t.last() == c);
        }
        if c == '\n' {
            breaks = breaks + 1;
        }
        i = i + 1;
    }
    proof {
        assert(text@.take(i as int) =~= text@);
    }
    breaks + 1
}

/// The last row the cursor of a terminal can scroll to.
pub open spec fn terminal_scroll_max(content: Seq<char>) -> int {
    let lines = newline_count(content) + 1;
    if lines - 20 > 0 {
        lines - 20
    } else {
        0
    }
}

/// What a frame of a terminal's text produces.
pub open spec fn terminal_show_outcome(
    cursor_position: CursorPosition,
    input: MenuInput,
    terminal: Rc<Terminal>,
    menus: Seq<GameMenu>,
) -> bool {
    &&& input.confirm ==> menus.len() == 0
    &&& !input.confirm ==> menus.len() == 1 && menus[0].cursor_position == spec_wrapped_step(
        cursor_position,
        0,
        0,
        terminal_scroll_max(terminal.content@) as i32,
        input,
    ) && menus[0].kind == GameMenuKind::TerminalShow(terminal)
}

/// One frame of a terminal's text, scrolled by up and down and closed by
/// confirming.
pub fn terminal_show(
    cursor_position: CursorPosition,
    input: &MenuInput,
    terminal: Rc<Terminal>,
) -> (menus: Vec<GameMenu>)
    requires
        i32::MIN < cursor_position.x < i32::MAX,
        i32::MIN < cursor_position.y < i32::MAX,
        terminal.content@.len() < i32::MAX,
    ensures
        terminal_show_outcome(cursor_position, *input, terminal, menus@),
{
    if input.confirm {
        return Vec::new();
    }
    let lines = line_count(terminal.content.as_str());
    proof {
        assert(newline_count(terminal.content@) <= terminal.content@.len()) by {
            lemma_newline_count_bound(terminal.content@);
        }
    }
    let lines_i32 = lines as i32;
    let scrollable: i32 = if lines_i32 - TERMINAL_DISPLAY_LINES_BEFORE_SCROLL > 0 {
        lines_i32 - TERMINAL_DISPLAY_LINES_BEFORE_SCROLL
    } else {
        0
    };
    let c = step_cursor(cursor_position, 0, 0, scrollable, input);
    one_menu(c, GameMenuKind::TerminalShow(terminal))
}

/// A text has no more line breaks than characters.
pub proof fn lemma_newline_count_bound(s: Seq<char>)
    ensures
        newline_count(s) <= s.len(),
    decreases s.len(),
{
    if s.len() > 0 {
        lemma_newline_count_bound(s.drop_last());
    }
}


/// The cursor of an in-game menu stands where its screen can handle it, and
/// its contents are within the machine's limits.
pub open spec fn game_menu_ok(menu: GameMenu, saves_count: int) -> bool {
    let c = menu.cursor_position;
    match menu.kind {
        GameMenuKind::PauseMain => c.x == 0 && 0 <= c.y <= 2,
        GameMenuKind::PauseLoadSave => c.x == 0 && 0 <= c.y <= saves_count,
        GameMenuKind::InventoryMain => c.y == 0 && 0 <= c.x <= 1,
        GameMenuKind::SaveConfirm(_) => c.y == 0 && 0 <= c.x <= 1,
        GameMenuKind::InventoryPickSlot(held, data) => valid_pick_cursor(
            c,
            data.unequipped_modules@.len() as int,
        ) && inventory_multiset(data.equipped_modules@, data.unequipped_modules@, held).len() + 10
            <= i32::MAX,
        GameMenuKind::TerminalShow(terminal) => i32::MIN < c.x < i32::MAX && i32::MIN < c.y
            < i32::MAX && terminal.content@.len() < i32::MAX,
        _ => true,
    }
}

/// What one frame of in-game menu handling hands to the rest of the game.
pub struct NextMenuUpdate {
    pub menus: Vec<GameMenu>,
    pub inventory_update: Option<InventoryUpdateData>,
    pub save_point_confirmed_id: Option<i32>,
    pub save_to_load: Option<SaveToLoad>,
    pub quit_decision: Option<QuitDecision>,
}

/// Some direction, confirm or cancel was pressed.
pub open spec fn any_menu_press(input: MenuInput) -> bool {
    input.up || input.down || input.left || input.right || input.confirm || input.cancel
}

/// The save named by a decision to load one, if it is such a decision.
pub open spec fn loaded_save(quit: Option<QuitDecision>) -> Option<String> {
    match quit {
        Some(QuitDecision::LoadSave(name)) => Some(name),
        _ => None,
    }
}

/// What one frame of the topmost in-game menu produces.
pub open spec fn next_menus_outcome(
    current: GameMenu,
    input: MenuInput,
    unequipped: Seq<WeaponModuleKind>,
    grid: Seq<Option<WeaponModuleKind>>,
    saves: Seq<String>,
    next: NextMenuUpdate,
) -> bool {
    let c = current.cursor_position;
    let menus = next.menus@;
    if !any_menu_press(input) {
        &&& menus == seq![current]
        &&& next.inventory_update is None
        &&& next.save_point_confirmed_id is None
        &&& next.save_to_load is None
        &&& next.quit_decision is None
    } else if input.cancel {
        &&& menus.len() == 0
        &&& next.save_point_confirmed_id is None
        &&& next.save_to_load is None
        &&& next.quit_decision is None
        &&& match current.kind {
            GameMenuKind::InventoryPickSlot(held, data) => next.inventory_update matches Some(u)
                && u.equipped_modules@ == data.equipped_modules@ && u.unequipped_modules@
                == data.unequipped_modules@ + held_seq(held),
            _ => next.inventory_update is None,
        }
    } else {
        &&& next.save_to_load is None
        &&& (current.kind !is InventoryPickSlot ==> next.inventory_update is None)
        &&& (current.kind !is SaveConfirm ==> next.save_point_confirmed_id is None)
        &&& match current.kind {
            GameMenuKind::PauseMain => pause_main_outcome(c, input, menus, next.quit_decision),
            GameMenuKind::PauseLoadSave => {
                &&& next.quit_decision is Some ==> loaded_save(next.quit_decision) is Some
                &&& forall|i: int| 0 <= i < menus.len() ==> #[trigger] menus[i].kind is PauseLoadSave
                &&& menus.len() <= 1
                &&& save_list_outcome(
                    c,
                    input,
                    saves,
                    single_cursor(menus),
                    loaded_save(next.quit_decision),
                )
            },
            GameMenuKind::InventoryMain => next.quit_decision is None && inventory_main_outcome(
                c,
                input,
                grid,
                unequipped,
                menus,
            ),
            GameMenuKind::InventoryPickSlot(held, data) => next.quit_decision is None
                && pick_slot_outcome(
                c,
                input,
                held,
                data.equipped_modules@,
                data.unequipped_modules@,
                menus,
                next.inventory_update,
            ),
            GameMenuKind::SaveConfirm(id) => next.quit_decision is None && save_confirm_outcome(
                c,
                input,
                id,
                menus,
                next.save_point_confirmed_id,
            ),
            GameMenuKind::ModulePickupConfirm(kind) => next.quit_decision is None
                && module_pickup_outcome(input, kind, grid, unequipped, menus),
            GameMenuKind::AbilityPickupConfirm(ability) => next.quit_decision is None
                && ability_pickup_outcome(input, ability, menus),
            GameMenuKind::GameOver => game_over_outcome(input, menus, next.quit_decision),
            GameMenuKind::TerminalShow(terminal) => next.quit_decision is None
                && terminal_show_outcome(c, input, terminal, menus),
        }
    }
}

/// One frame of the topmost in-game menu. Cancelling closes it (a module in
/// hand goes back to the unequipped list); otherwise the screen handles the
/// input. Every menu it opens again stands where its screen can handle it.
#[verifier::rlimit(80)]
#[verifier::spinoff_prover]
pub fn next_menus(
    current_menu: GameMenu,
    input: &MenuInput,
    unequipped_modules: &Vec<WeaponModuleKind>,
    equipped_modules: EquippedModules,
    available_saves: &Vec<String>,
) -> (next: NextMenuUpdate)
    requires
        game_menu_ok(current_menu, available_saves@.len() as int),
        available_saves@.len() < i32::MAX,
        inventory_multiset(equipped_modules@, unequipped_modules@, None).len() + 10 <= i32::MAX,
    ensures
        next_menus_outcome(
            current_menu,
            *input,
            unequipped_modules@,
            equipped_modules@,
            available_saves@,
            next,
        ),
        forall|i: int|
            0 <= i < next.menus@.len() ==> game_menu_ok(
                #[trigger] next.menus@[i],
                available_saves@.len() as int,
            ),
        current_menu.kind matches GameMenuKind::InventoryPickSlot(held, data) ==> (
        next.inventory_update matches Some(u) ==> inventory_multiset(
            u.equipped_modules@,
            u.unequipped_modules@,
            None,
        ) == inventory_multiset(data.equipped_modules@, data.unequipped_modules@, held)),
{
    let ghost saves_count = available_saves@.len() as int;
    if !(input.up || input.down || input.left || input.right || input.confirm || input.cancel) {
        let mut menus: Vec<GameMenu> = Vec::new();
        let ghost current = current_menu;
        menus.push(current_menu);
        proof {
            assert(menus@ =~= seq![current]);
        }
        return NextMenuUpdate {
            menus,
            inventory_update: None,
            save_point_confirmed_id: None,
            save_to_load: None,
            quit_decision: None,
        };
    }
    let c = current_menu.cursor_position;
    if input.cancel {
        let inventory_update = match current_menu.kind {
            GameMenuKind::InventoryPickSlot(held, data) => {
                let InventoryUpdateData { equipped_modules: grid, unequipped_modules: list } = data;
                let appended = append_held(&list, held);
                proof {
                    lemma_modules_multiset_concat(list@, held_seq(held));
                    lemma_held_seq_multiset(held);
                    assert forall|v: WeaponModuleKind| #[trigger] inventory_multiset(grid@, appended@, None).count(v) == inventory_multiset(grid@, list@, held).count(v) by {
                        assert(modules_multiset(appended@) == modules_multiset(list@).add(modules_multiset(held_seq(held))));
                    }
                    assert(inventory_multiset(grid@, appended@, None) =~= inventory_multiset(grid@, list@, held));
                }
                Some(InventoryUpdateData { equipped_modules: grid, unequipped_modules: appended })
            },
            _ => None,
        };
        return NextMenuUpdate {
            menus: Vec::new(),
            inventory_update,
            save_point_confirmed_id: None,
            save_to_load: None,
            quit_decision: None,
        };
    }
    match current_menu.kind {
        GameMenuKind::PauseMain => {
            let (menus, quit_decision) = pause_main(c, input);
            NextMenuUpdate {
                menus,
                inventory_update: None,
                save_point_confirmed_id: None,
                save_to_load: None,
                quit_decision,
            }
        },
        GameMenuKind::PauseLoadSave => {
            let (menus, chosen) = pause_load_game(c, input, available_saves);
            let quit_decision = match chosen {
                Some(name) => Some(QuitDecision::LoadSave(name)),
                None => None,
            };
            NextMenuUpdate {
                menus,
                inventory_update: None,
                save_point_confirmed_id: None,
                save_to_load: None,
                quit_decision,
            }
        },
        GameMenuKind::InventoryMain => {
            let menus = inventory_main(c, input, unequipped_modules, equipped_modules);
            NextMenuUpdate {
                menus,
                inventory_update: None,
                save_point_confirmed_id: None,
                save_to_load: None,
                quit_decision: None,
            }
        },
        GameMenuKind::InventoryPickSlot(held, data) => {
            let (menus, inventory_update) = inventory_pick_slot(c, input, held, data);
            NextMenuUpdate {
                menus,
                inventory_update,
                save_point_confirmed_id: None,
                save_to_load: None,
                quit_decision: None,
            }
        },
        GameMenuKind::SaveConfirm(id) => {
            let (menus, save_point_confirmed_id) = save_confirm(c, input, id);
            NextMenuUpdate {
                menus,
                inventory_update: None,
                save_point_confirmed_id,
                save_to_load: None,
                quit_decision: None,
            }
        },
        GameMenuKind::ModulePickupConfirm(kind) => {
            let menus = module_pickup_confirm(
                input,
                kind,
                InventoryUpdateData {
                    equipped_modules,
                    unequipped_modules: copy_modules(unequipped_modules),
                },
            );
            NextMenuUpdate {
                menus,
                inventory_update: None,
                save_point_confirmed_id: None,
                save_to_load: None,
                quit_decision: None,
            }
        },
        GameMenuKind::AbilityPickupConfirm(ability) => {
            let menus = ability_pickup_confirm(input, ability);
            NextMenuUpdate {
                menus,
                inventory_update: None,
                save_point_confirmed_id: None,
                save_to_load: None,
                quit_decision: None,
            }
        },
        GameMenuKind::GameOver => {
            let (quit_decision, menus) = game_over(input);
            NextMenuUpdate {
                menus,
                inventory_update: None,
                save_point_confirmed_id: None,
                save_to_load: None,
                quit_decision,
            }
        },
        GameMenuKind::TerminalShow(terminal) => {
            let ghost t = terminal;
            let menus = terminal_show(c, input, terminal);
            proof {
                lemma_newline_count_bound(t.content@);
                assert(0 <= terminal_scroll_max(t.content@) <= t.content@.len());
                lemma_wrapped_step_in_range(c, 0, 0, terminal_scroll_max(t.content@) as i32, *input);
            }
            NextMenuUpdate {
                menus,
                inventory_update: None,
                save_point_confirmed_id: None,
                save_to_load: None,
                quit_decision: None,
            }
        },
    }
}


/// The cursor of a main-menu screen stands where the screen can handle it.
pub open spec fn main_menu_ok(menu: MainMenu, saves_count: int) -> bool {
    let c = menu.cursor_position;
    match menu.kind {
        MainMenuKind::Main(include_continue) => c.x == 0 && 0 <= c.y <= (if include_continue {
            2int
        } else {
            1int
        }),
        MainMenuKind::MainLoadSave => c.x == 0 && 0 <= c.y <= saves_count,
        MainMenuKind::MainLoadSaveConfirm => false,
    }
}

/// What one frame of main-menu handling hands to the rest of the program.
pub struct NextMainMenuUpdate {
    pub menus: Vec<MainMenu>,
    pub save_to_load: Option<SaveToLoad>,
}

/// The decision to load a named save, if `chosen` names one.
pub open spec fn load_named(chosen: Option<String>) -> Option<SaveToLoad> {
    match chosen {
        Some(name) => Some(SaveToLoad::SaveData(name)),
        None => None,
    }
}

/// What one frame of the topmost main-menu screen produces.
pub open spec fn next_main_menus_outcome(
    current_menu: MainMenu,
    input: MenuInput,
    available_saves: Seq<String>,
    next: NextMainMenuUpdate,
) -> bool {
    &&& (!any_menu_press(input) ==> next.menus@ == seq![current_menu] && next.save_to_load is None)
    &&& (any_menu_press(input) ==> match current_menu.kind {
            MainMenuKind::Main(include_continue) => menu_main_outcome(
                current_menu.cursor_position,
                input,
                available_saves,
                include_continue,
                next.menus@,
                next.save_to_load,
            ),
            _ => {
                &&& next.menus@.len() <= 1
                &&& forall|i: int|
                    0 <= i < next.menus@.len() ==> #[trigger] next.menus@[i].kind
                        == MainMenuKind::MainLoadSave
                &&& exists|chosen: Option<String>|
                    {
                        &&& next.save_to_load == load_named(chosen)
                        &&& save_list_outcome(
                            current_menu.cursor_position,
                            input,
                            available_saves,
                            single_cursor(next.menus@),
                            chosen,
                        )
                    }
            },
        })
}

/// One frame of the topmost main-menu screen; with no press the screen stays
/// as it is.
pub fn next_main_menus(
    current_menu: MainMenu,
    input: &MenuInput,
    available_saves: &Vec<String>,
) -> (next: NextMainMenuUpdate)
    requires
        main_menu_ok(current_menu, available_saves@.len() as int),
        available_saves@.len() < i32::MAX,
    ensures
        next_main_menus_outcome(current_menu, *input, available_saves@, next),
        forall|i: int|
            0 <= i < next.menus@.len() ==> main_menu_ok(
                #[trigger] next.menus@[i],
                available_saves@.len() as int,
            ),
{
    if !(input.up || input.down || input.left || input.right || input.confirm || input.cancel) {
        let mut menus: Vec<MainMenu> = Vec::new();
        let ghost current = current_menu;
        menus.push(current_menu);
        proof {
            assert(menus@ =~= seq![current]);
        }
        return NextMainMenuUpdate { menus, save_to_load: None };
    }
    let c = current_menu.cursor_position;
    match current_menu.kind {
        MainMenuKind::Main(include_continue) => {
            let (menus, save_to_load) = menu_main(c, available_saves, input, include_continue);
            NextMainMenuUpdate { menus, save_to_load }
        },
        _ => {
            let (menus, chosen) = menu_load_game(c, input, available_saves);
            let ghost g = chosen;
            let save_to_load = match chosen {
                Some(name) => Some(SaveToLoad::SaveData(name)),
                None => None,
            };
            proof {
                assert(save_to_load == load_named(g));
            }
            NextMainMenuUpdate { menus, save_to_load }
        },
    }
}

/// What the game reports to the menus when none is open.
pub struct OpenMenuFacts {
    pub player_destroyed: bool,
    pub save_point_contact: Option<i32>,
    pub save_point_contact_last_frame: Option<i32>,
    pub terminal_contact: Option<Rc<Terminal>>,
    pub terminal_contact_last_frame: Option<Rc<Terminal>>,
    pub new_abilities: Vec<MapAbilityType>,
    pub new_weapon_modules: Vec<WeaponModuleKind>,
}

/// A menu at the top-left cursor position.
pub open spec fn fresh(kind: GameMenuKind) -> GameMenu {
    Menu { kind, cursor_position: at(0, 0) }
}

/// The notices for the abilities picked up, in order.
pub open spec fn ability_notices(abilities: Seq<MapAbilityType>) -> Seq<GameMenu> {
    abilities.map_values(|a: MapAbilityType| fresh(GameMenuKind::AbilityPickupConfirm(a)))
}

/// The notices for the modules picked up, in order.
pub open spec fn module_notices(modules: Seq<WeaponModuleKind>) -> Seq<GameMenu> {
    modules.map_values(|m: WeaponModuleKind| fresh(GameMenuKind::ModulePickupConfirm(m)))
}

/// The menus that open when none is open: the game-over screen if the player
/// is destroyed; otherwise, in this order, the save question when a save point
/// is newly touched, a terminal's text when a terminal is newly touched, the
/// inventory, the pause menu, and a notice for each ability and module picked
/// up.
pub open spec fn spec_open_menu(facts: OpenMenuFacts, input: MenuInput) -> Seq<GameMenu> {
    if facts.player_destroyed {
        seq![fresh(GameMenuKind::GameOver)]
    } else {
        let save: Seq<GameMenu> = match facts.save_point_contact {
            Some(id) => if facts.save_point_contact_last_frame is None {
                seq![fresh(GameMenuKind::SaveConfirm(id))]
            } else {
                Seq::empty()
            },
            None => Seq::empty(),
        };
        let terminal: Seq<GameMenu> = match facts.terminal_contact {
            Some(t) => if facts.terminal_contact_last_frame is None {
                seq![fresh(GameMenuKind::TerminalShow(t))]
            } else {
                Seq::empty()
            },
            None => Seq::empty(),
        };
        let inventory: Seq<GameMenu> = if input.inventory {
            seq![fresh(GameMenuKind::InventoryMain)]
        } else {
            Seq::empty()
        };
        let pause: Seq<GameMenu> = if input.pause {
            seq![fresh(GameMenuKind::PauseMain)]
        } else {
            Seq::empty()
        };
        save + terminal + inventory + pause + ability_notices(facts.new_abilities@)
            + module_notices(facts.new_weapon_modules@)
    }
}

/// The menus that open this frame when none is open (see [`spec_open_menu`]).
pub fn open_menu(input: &MenuInput, facts: OpenMenuFacts) -> (menus: Vec<GameMenu>)
    requires
        facts.terminal_contact matches Some(t) ==> t.content@.len() < i32::MAX,
    ensures
        menus@ == spec_open_menu(facts, *input),
        forall|i: int| 0 <= i < menus@.len() ==> game_menu_ok(#[trigger] menus@[i], 0),
{
    let ghost f = facts;
    let mut menus: Vec<GameMenu> = Vec::new();
    if facts.player_destroyed {
        menus.push(Menu { kind: GameMenuKind::GameOver, cursor_position: CursorPosition { x: 0, y: 0 } });
        proof {
            assert(menus@ =~= spec_open_menu(f, *input));
        }
        return menus;
    }
    let OpenMenuFacts {
        player_destroyed: _,
        save_point_contact,
        save_point_contact_last_frame,
        terminal_contact,
        terminal_contact_last_frame,
        new_abilities,
        new_weapon_modules,
    } = facts;
    if let Some(id) = save_point_contact {
        if save_point_contact_last_frame.is_none() {
            menus.push(fresh_menu(GameMenuKind::SaveConfirm(id)));
        }
    }
    if let Some(t) = terminal_contact {
        if terminal_contact_last_frame.is_none() {
            menus.push(fresh_menu(GameMenuKind::TerminalShow(t)));
        }
    }
    if input.inventory {
        menus.push(fresh_menu(GameMenuKind::InventoryMain));
    }
    if input.pause {
        menus.push(fresh_menu(GameMenuKind::PauseMain));
    }
    let ghost head = menus@;
    let mut i: usize = 0;
    while i < new_abilities.len()
        invariant
            i <= new_abilities@.len(),
            menus@ == head + ability_notices(new_abilities@.take(i as int)),
        decreases new_abilities@.len() - i,
    {
        menus.push(fresh_menu(GameMenuKind::AbilityPickupConfirm(new_abilities[i])));
        i = i + 1;
        proof {
            assert(ability_notices(new_abilities@.take(i as int)) =~= ability_notices(
                new_abilities@.take(i - 1),
            ).push(fresh(GameMenuKind::AbilityPickupConfirm(new_abilities@[i - 1]))));
        }
    }
    proof {
        assert(new_abilities@.take(i as int) =~= new_abilities@);
    }
    let ghost middle = menus@;
    let mut j: usize = 0;
    while j < new_weapon_modules.len()
        invariant
            j <= new_weapon_modules@.len(),
            menus@ == middle + module_notices(new_weapon_modules@.take(j as int)),
        decreases new_weapon_modules@.len() - j,
    {
        menus.push(fresh_menu(GameMenuKind::ModulePickupConfirm(new_weapon_modules[j])));
        j = j + 1;
        proof {
            assert(module_notices(new_weapon_modules@.take(j as int)) =~= module_notices(
                new_weapon_modules@.take(j - 1),
            ).push(fresh(GameMenuKind::ModulePickupConfirm(new_weapon_modules@[j - 1]))));
        }
    }
    proof {
        assert(new_weapon_modules@.take(j as int) =~= new_weapon_modules@);
        assert(menus@ =~= spec_open_menu(f, *input));
    }
    menus
}

fn fresh_menu(kind: GameMenuKind) -> (menu: GameMenu)
    ensures
        menu == fresh(kind),
{
    Menu { kind, cursor_position: CursorPosition { x: 0, y: 0 } }
}


/// The state of the buttons that the menus read, in one frame.
#[derive(Clone, Copy, Debug)]
pub struct MenuButtons {
    pub menu_up: bool,
    pub menu_down: bool,
    pub menu_left: bool,
    pub menu_right: bool,
    pub menu_confirm: bool,
    pub menu_cancel: bool,
    pub firing: bool,
    pub inventory: bool,
    pub pause: bool,
}

/// The menu input of a frame: a press counts in the frame in which the
/// button goes down. Cancel is the inventory or the cancel button, confirm the
/// fire or the confirm button.
pub fn menu_input(now: &MenuButtons, last: &MenuButtons) -> (input: MenuInput)
    ensures
        input.up == (now.menu_up && !last.menu_up),
        input.down == (now.menu_down && !last.menu_down),
        input.left == (now.menu_left && !last.menu_left),
        input.right == (now.menu_right && !last.menu_right),
        input.cancel == ((now.inventory && !last.inventory) || (now.menu_cancel
            && !last.menu_cancel)),
        input.confirm == ((now.firing && !last.firing) || (now.menu_confirm && !last.menu_confirm)),
        input.pause == (now.pause && !last.pause),
        input.inventory == (now.inventory && !last.inventory),
{
    MenuInput {
        up: now.menu_up && !last.menu_up,
        down: now.menu_down && !last.menu_down,
        right: now.menu_right && !last.menu_right,
        left: now.menu_left && !last.menu_left,
        cancel: (now.inventory && !last.inventory) || (now.menu_cancel && !last.menu_cancel),
        confirm: (now.firing && !last.firing) || (now.menu_confirm && !last.menu_confirm),
        pause: now.pause && !last.pause,
        inventory: now.inventory && !last.inventory,
    }
}

/// The menus that are open, topmost first, and what the last frame of menu
/// handling decided.
pub struct MenuSystem {
    pub active_menus: Vec<GameMenu>,
    pub active_main_menus: Vec<MainMenu>,
    pub inventory_update: Option<InventoryUpdateData>,
    pub save_point_confirmed_id: Option<i32>,
    pub save_to_load: Option<SaveToLoad>,
    pub quit_decision: Option<QuitDecision>,
}

/// Every open menu stands where its screen can handle it.
pub open spec fn menu_system_ok(system: MenuSystem, saves_count: int) -> bool {
    &&& forall|i: int|
        0 <= i < system.active_menus@.len() ==> game_menu_ok(
            #[trigger] system.active_menus@[i],
            saves_count,
        )
    &&& forall|i: int|
        0 <= i < system.active_main_menus@.len() ==> main_menu_ok(
            #[trigger] system.active_main_menus@[i],
            saves_count,
        )
}

impl MenuSystem {
    /// The menus at the start of the program: the main menu, with a
    /// "continue" entry when there are saves.
    pub fn start_main(has_saves: bool) -> (system: MenuSystem)
        ensures
            system.active_menus@.len() == 0,
            system.active_main_menus@ == seq![Menu { kind: MainMenuKind::Main(has_saves), cursor_position: at(0, 0) }],
            system.inventory_update is None,
            system.save_point_confirmed_id is None,
            system.save_to_load is None,
            system.quit_decision is None,
            forall|n: int| n >= 0 ==> menu_system_ok(system, n),
    {
        let mut active_main_menus: Vec<MainMenu> = Vec::new();
        active_main_menus.push(
            Menu { kind: MainMenuKind::Main(has_saves), cursor_position: CursorPosition { x: 0, y: 0 } },
        );
        proof {
            assert(active_main_menus@ =~= seq![Menu { kind: MainMenuKind::Main(has_saves), cursor_position: at(0, 0) }]);
        }
        MenuSystem {
            active_menus: Vec::new(),
            active_main_menus,
            inventory_update: None,
            save_point_confirmed_id: None,
            save_to_load: None,
            quit_decision: None,
        }
    }

    /// The menus at the start of a game: none open.
    pub fn start_game() -> (system: MenuSystem)
        ensures
            system.active_menus@.len() == 0,
            system.active_main_menus@.len() == 0,
            system.inventory_update is None,
            system.save_point_confirmed_id is None,
            system.save_to_load is None,
            system.quit_decision is None,
            forall|n: int| menu_system_ok(system, n),
    {
        MenuSystem {
            active_menus: Vec::new(),
            active_main_menus: Vec::new(),
            inventory_update: None,
            save_point_confirmed_id: None,
            save_to_load: None,
            quit_decision: None,
        }
    }

    /// One frame of the in-game menus: the topmost open menu handles the
    /// input and what it opens is put in its place; with no menu open, the
    /// menus that the game's events ask for are opened. Every open menu keeps
    /// standing where its screen can handle it.
    pub fn run_game(
        self,
        input: &MenuInput,
        unequipped_modules: &Vec<WeaponModuleKind>,
        equipped_modules: EquippedModules,
        available_saves: &Vec<String>,
        facts: OpenMenuFacts,
    ) -> (next: MenuSystem)
        requires
            menu_system_ok(self, available_saves@.len() as int),
            available_saves@.len() < i32::MAX,
            inventory_multiset(equipped_modules@, unequipped_modules@, None).len() + 10
                <= i32::MAX,
            facts.terminal_contact matches Some(t) ==> t.content@.len() < i32::MAX,
        ensures
            menu_system_ok(next, available_saves@.len() as int),
            next.active_main_menus@.len() == 0,
            next.save_to_load is None,
            self.active_menus@.len() == 0 ==> {
                &&& next.active_menus@ == spec_open_menu(facts, *input)
                &&& next.inventory_update is None
                &&& next.save_point_confirmed_id is None
                &&& next.quit_decision is None
            },
            self.active_menus@.len() > 0 ==> exists|update: NextMenuUpdate|
                {
                    &&& next_menus_outcome(
                        self.active_menus@[0],
                        *input,
                        unequipped_modules@,
                        equipped_modules@,
                        available_saves@,
                        update,
                    )
                    &&& next.active_menus@ == update.menus@ + self.active_menus@.skip(1)
                    &&& next.inventory_update == update.inventory_update
                    &&& next.save_point_confirmed_id == update.save_point_confirmed_id
                    &&& next.quit_decision == update.quit_decision
                },
    {
        let MenuSystem { active_menus, .. } = self;
        let ghost old_menus = active_menus@;
        let ghost saves_count = available_saves@.len() as int;
        if active_menus.len() == 0 {
            let menus = open_menu(input, facts);
            return MenuSystem {
                active_menus: menus,
                active_main_menus: Vec::new(),
                inventory_update: None,
                save_point_confirmed_id: None,
                save_to_load: None,
                quit_decision: None,
            };
        }
        let mut rest = active_menus;
        let top = rest.remove(0);
        proof {
            assert(rest@ =~= old_menus.skip(1));
            assert(game_menu_ok(old_menus[0], saves_count));
        }
        let update = next_menus(top, input, unequipped_modules, equipped_modules, available_saves);
        let ghost u = update;
        let NextMenuUpdate {
            menus,
            inventory_update,
            save_point_confirmed_id,
            save_to_load: _,
            quit_decision,
        } = update;
        let mut stack = menus;
        let ghost opened = stack@;
        let ghost tail = rest@;
        while rest.len() > 0
            invariant
                stack@ + rest@ == opened + tail,
                tail == old_menus.skip(1),
                forall|k: int| 0 <= k < opened.len() ==> game_menu_ok(#[trigger] opened[k], saves_count),
                forall|k: int| 0 <= k < old_menus.len() ==> game_menu_ok(#[trigger] old_menus[k], saves_count),
            decreases rest@.len(),
        {
            let ghost before_stack = stack@;
            let ghost before_rest = rest@;
            let m = rest.remove(0);
            stack.push(m);
            proof {
                assert(stack@ + rest@ =~= before_stack + before_rest);
            }
        }
        proof {
            assert(rest@ =~= Seq::<GameMenu>::empty());
            assert(stack@ =~= opened + tail);
            assert forall|k: int| 0 <= k < stack@.len() implies game_menu_ok(#[trigger] stack@[k], saves_count) by {
                if k >= opened.len() {
                    assert(stack@[k] == tail[k - opened.len()]);
                    assert(tail[k - opened.len()] == old_menus[k - opened.len() + 1]);
                }
            }
        }
        MenuSystem {
            active_menus: stack,
            active_main_menus: Vec::new(),
            inventory_update,
            save_point_confirmed_id,
            save_to_load: None,
            quit_decision,
        }
    }
}


impl MenuSystem {
    /// One frame of the main menu: the topmost screen handles the input and
    /// what it opens is put in its place.
    pub fn run_main(self, input: &MenuInput, available_saves: &Vec<String>) -> (next: MenuSystem)
        requires
            menu_system_ok(self, available_saves@.len() as int),
            self.active_main_menus@.len() > 0,
            available_saves@.len() < i32::MAX,
        ensures
            menu_system_ok(next, available_saves@.len() as int),
            next.active_menus@.len() == 0,
            next.inventory_update is None,
            next.save_point_confirmed_id is None,
            next.quit_decision is None,
            exists|update: NextMainMenuUpdate|
                {
                    &&& next_main_menus_outcome(
                        self.active_main_menus@[0],
                        *input,
                        available_saves@,
                        update,
                    )
                    &&& next.active_main_menus@ == update.menus@ + self.active_main_menus@.skip(1)
                    &&& next.save_to_load == update.save_to_load
                },
    {
        let MenuSystem { active_main_menus, .. } = self;
        let ghost old_menus = active_main_menus@;
        let ghost saves_count = available_saves@.len() as int;
        let mut rest = active_main_menus;
        let top = rest.remove(0);
        proof {
            assert(rest@ =~= old_menus.skip(1));
            assert(main_menu_ok(old_menus[0], saves_count));
        }
        let update = next_main_menus(top, input, available_saves);
        let ghost u = update;
        let NextMainMenuUpdate { menus, save_to_load } = update;
        let mut stack = menus;
        let ghost opened = stack@;
        let ghost tail = rest@;
        while rest.len() > 0
            invariant
                stack@ + rest@ == opened + tail,
                tail == old_menus.skip(1),
                forall|k: int| 0 <= k < opened.len() ==> main_menu_ok(#[trigger] opened[k], saves_count),
                forall|k: int| 0 <= k < old_menus.len() ==> main_menu_ok(#[trigger] old_menus[k], saves_count),
            decreases rest@.len(),
        {
            let ghost before_stack = stack@;
            let ghost before_rest = rest@;
            let m = rest.remove(0);
            stack.push(m);
            proof {
                assert(stack@ + rest@ =~= before_stack + before_rest);
            }
        }
        proof {
            assert(rest@ =~= Seq::<MainMenu>::empty());
            assert(stack@ =~= opened + tail);
            assert forall|k: int| 0 <= k < stack@.len() implies main_menu_ok(#[trigger] stack@[k], saves_count) by {
                if k >= opened.len() {
                    assert(stack@[k] == tail[k - opened.len()]);
                    assert(tail[k - opened.len()] == old_menus[k - opened.len() + 1]);
                }
            }
        }
        MenuSystem {
            active_menus: Vec::new(),
            active_main_menus: stack,
            inventory_update: None,
            save_point_confirmed_id: None,
            save_to_load,
            quit_decision: None,
        }
    }
}


/// With no direction pressed the cursor stays where it is.
pub proof fn law_cursor_still_without_press(
    cursor: CursorPosition,
    min_x: i32,
    max_x: i32,
    max_y: i32,
    input: MenuInput,
    overrides: Option<Seq<CursorOverride>>,
)
    requires
        !input.up && !input.down && !input.left && !input.right,
    ensures
        spec_cursor_after(cursor, min_x, max_x, max_y, input, overrides) == cursor,
{
    assert(spec_menu_directions(input) =~= Seq::<Direction>::empty());
}

/// Without special moves, a cursor inside its range stays inside it.
pub proof fn law_cursor_stays_in_range(
    cursor: CursorPosition,
    min_x: i32,
    max_x: i32,
    max_y: i32,
    input: MenuInput,
)
    requires
        min_x <= cursor.x <= max_x,
        0 <= cursor.y <= max_y,
    ensures
        ({
            let n = spec_cursor_after(cursor, min_x, max_x, max_y, input, None);
            min_x <= n.x <= max_x && 0 <= n.y <= max_y
        }),
{
    lemma_wrapped_step_in_range(cursor, min_x, max_x, max_y, input);
}

/// Pressing down on the last row goes to the first, and pressing up on the
/// first row goes to the last.
pub proof fn law_cursor_wraps_vertically(
    cursor: CursorPosition,
    min_x: i32,
    max_x: i32,
    max_y: i32,
    input: MenuInput,
)
    requires
        min_x <= cursor.x <= max_x,
        0 <= max_y,
        !input.left && !input.right,
        input.up != input.down,
    ensures
        (input.down && cursor.y == max_y) ==> spec_cursor_after(
            cursor,
            min_x,
            max_x,
            max_y,
            input,
            None,
        ) == at(cursor.x, 0),
        (input.up && cursor.y == 0) ==> spec_cursor_after(cursor, min_x, max_x, max_y, input, None)
            == at(cursor.x, max_y),
{
}

} // verus!

verus! {

/// Picking up and putting down at the same grid cell gives the inventory
/// back: confirming twice on a cell of the equip grid, without moving,
/// leaves the grid, the list and the hand as they were before.
pub proof fn law_grid_swap_twice_restores(
    c: CursorPosition,
    input: MenuInput,
    holding: Option<WeaponModuleKind>,
    grid: Seq<Option<WeaponModuleKind>>,
    list: Seq<WeaponModuleKind>,
    first: Seq<GameMenu>,
    first_update: Option<InventoryUpdateData>,
    second: Seq<GameMenu>,
    second_update: Option<InventoryUpdateData>,
)
    requires
        input.confirm,
        !input.up && !input.down && !input.left && !input.right,
        0 <= c.x < 4,
        0 <= c.y < 4,
        grid.len() == 16,
        pick_slot_outcome(c, input, holding, grid, list, first, first_update),
        first.len() == 1,
        first[0].kind matches GameMenuKind::InventoryPickSlot(held, data) && pick_slot_outcome(
            first[0].cursor_position,
            input,
            held,
            data.equipped_modules@,
            data.unequipped_modules@,
            second,
            second_update,
        ),
    ensures
        second.len() == 1,
        second[0].cursor_position == c,
        second[0].kind matches GameMenuKind::InventoryPickSlot(held, data) && held == holding
            && data.equipped_modules@ == grid && data.unequipped_modules@ == list,
{
    let count = list.len() as int;
    assert(spec_grid_side_moves(c) matches Some(m) ==> spec_cursor_with_moves(c, 0, 3, 3, input, Some(m)) == c);
    assert(spec_pick_slot_cursor(c, input, count) == c);
    if let GameMenuKind::InventoryPickSlot(held, data) = first[0].kind {
        assert(first[0].cursor_position == c);
        assert(spec_pick_slot_cursor(c, input, data.unequipped_modules@.len() as int) == c);
        let i = cell_index(c.x as int, c.y as int);
        assert(data.equipped_modules@ == grid.update(i, holding));
        assert(grid.update(i, holding).update(i, grid[i]) =~= grid);
    }
}

} // verus!

verus! {

/// One frame of the module-placing screen: the cursor, the input, the
/// module in hand, the grid and the list it started from, and the menus and
/// update it produced.
pub type PickSlotFrame = (
    CursorPosition,
    MenuInput,
    Option<WeaponModuleKind>,
    Seq<Option<WeaponModuleKind>>,
    Seq<WeaponModuleKind>,
    Seq<GameMenu>,
    Option<InventoryUpdateData>,
);

/// The frame is one that [`inventory_pick_slot`] can produce.
pub open spec fn pick_frame_ok(f: PickSlotFrame) -> bool {
    pick_slot_outcome(f.0, f.1, f.2, f.3, f.4, f.5, f.6)
}

/// Frame `b` continues from the screen that frame `a` left open.
pub open spec fn pick_frames_chained(a: PickSlotFrame, b: PickSlotFrame) -> bool {
    &&& a.5.len() == 1
    &&& a.5[0].kind matches GameMenuKind::InventoryPickSlot(held, data) && {
        &&& b.0 == a.5[0].cursor_position
        &&& b.2 == held
        &&& b.3 == data.equipped_modules@
        &&& b.4 == data.unequipped_modules@
    }
}

/// Editing the inventory neither creates nor loses a module, over a whole
/// session: however many frames the module-placing screen stays open, the
/// modules on screen and in hand are those it was opened with, and the
/// inventory it hands back when it closes holds exactly those modules.
pub proof fn law_editing_session_keeps_every_module(frames: Seq<PickSlotFrame>)
    requires
        frames.len() > 0,
        forall|i: int| 0 <= i < frames.len() ==> pick_frame_ok(#[trigger] frames[i]),
        forall|i: int| 0 <= i < frames.len() - 1 ==> pick_frames_chained(#[trigger] frames[i], frames[i + 1]),
    ensures
        forall|i: int|
            0 <= i < frames.len() ==> inventory_multiset(#[trigger] frames[i].3, frames[i].4, frames[i].2)
                == inventory_multiset(frames[0].3, frames[0].4, frames[0].2),
        frames.last().6 matches Some(d) ==> inventory_multiset(
            d.equipped_modules@,
            d.unequipped_modules@,
            None,
        ) == inventory_multiset(frames[0].3, frames[0].4, frames[0].2),
    decreases frames.len(),
{
    let start = inventory_multiset(frames[0].3, frames[0].4, frames[0].2);
    if frames.len() > 1 {
        let rest = frames.drop_last();
        assert forall|i: int| 0 <= i < rest.len() implies pick_frame_ok(#[trigger] rest[i]) by {
            assert(rest[i] == frames[i]);
        }
        assert forall|i: int| 0 <= i < rest.len() - 1 implies pick_frames_chained(#[trigger] rest[i], rest[i + 1]) by {
            assert(rest[i] == frames[i] && rest[i + 1] == frames[i + 1]);
        }
        law_editing_session_keeps_every_module(rest);
        let n = frames.len() - 1;
        let prev = frames[n - 1];
        assert(rest[n - 1] == prev);
        assert(pick_frame_ok(prev));
        assert(pick_frames_chained(prev, frames[n]));
        assert forall|i: int| 0 <= i < frames.len() implies inventory_multiset(
            #[trigger] frames[i].3,
            frames[i].4,
            frames[i].2,
        ) == start by {
            if i < n {
                assert(rest[i] == frames[i]);
            }
        }
    }
}

} // verus!
