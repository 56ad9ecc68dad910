use vstd::prelude::*;

verus! {

/// The kinds of module that can sit in the inventory and in the equip grid.
#[derive(Clone, Copy, Debug, PartialEq, Eq, Structural)]
pub enum WeaponModuleKind {
    Plasma,
    Missile,
    Front2Slot,
    FortyFiveSlot,
    SideSlot,
    MirrorSlot,
    DoubleDamage75Freq,
    DoubleFreq75Damage,
}

/// The four sides of a grid cell, and the four directions of menu input.
#[derive(Clone, Copy, Debug, PartialEq, Eq, Structural, Hash)]
pub enum Direction {
    Up,
    Down,
    Left,
    Right,
}

/// Width of the equip grid, in cells.
pub const EQUIP_SLOTS_WIDTH: i32 = 4;

/// Height of the equip grid, in cells.
pub const EQUIP_SLOTS_HEIGHT: i32 = 4;

/// The modules that are carried but not equipped, in inventory order.
pub type UnequippedModules = Vec<WeaponModuleKind>;

/// Position of the cell `(x, y)` of the equip grid in its row-by-row storage.
pub open spec fn cell_index(x: int, y: int) -> int {
    x + y * 4
}

/// The equip grid: four rows of four cells, each empty or holding a module.
/// The cell in column `x` and row `y` is `cells[x + 4 * y]`.
#[derive(Clone, Copy)]
pub struct EquippedModules {
    pub cells: [Option<WeaponModuleKind>; 16],
}

impl View for EquippedModules {
    type V = Seq<Option<WeaponModuleKind>>;

    open spec fn view(&self) -> Seq<Option<WeaponModuleKind>> {
        self.cells@
    }
}

impl EquippedModules {
    /// A grid with no module in it.
    pub fn empty() -> (grid: EquippedModules)
        ensures
            grid@.len() == 16,
            forall|i: int| 0 <= i < 16 ==> grid@[i] is None,
    {
        EquippedModules { cells: [None; 16] }
    }

    /// The content of the cell in column `x` and row `y`.
    pub fn get(&self, x: usize, y: usize) -> (cell: Option<WeaponModuleKind>)
        requires
            x < 4,
            y < 4,
        ensures
            cell == self@[cell_index(x as int, y as int)],
    {
        self.cells[x + y * 4]
    }

    /// Puts `cell` into column `x`, row `y`.
    pub fn set(&mut self, x: usize, y: usize, cell: Option<WeaponModuleKind>)
        requires
            x < 4,
            y < 4,
        ensures
            final(self)@ == old(self)@.update(cell_index(x as int, y as int), cell),
    {
        self.cells[x + y * 4] = cell;
    }
}


/// What a module is: a weapon (a generator of projectiles), or a modifier
/// that attaches on the given side of its cell to the neighbour there.
#[derive(Clone, Copy, Debug, PartialEq, Eq, Structural)]
pub enum WeaponModule {
    Generator(WeaponModuleKind),
    Modulator(WeaponModuleKind, Direction),
}

/// The side on which a modifier attaches; weapons attach nowhere.
pub open spec fn attachment(kind: WeaponModuleKind) -> Option<Direction> {
    match kind {
        WeaponModuleKind::Plasma => None,
        WeaponModuleKind::Missile => None,
        WeaponModuleKind::Front2Slot => Some(Direction::Down),
        WeaponModuleKind::FortyFiveSlot => Some(Direction::Down),
        WeaponModuleKind::SideSlot => Some(Direction::Down),
        WeaponModuleKind::MirrorSlot => Some(Direction::Down),
        WeaponModuleKind::DoubleDamage75Freq => Some(Direction::Left),
        WeaponModuleKind::DoubleFreq75Damage => Some(Direction::Right),
    }
}

/// Whether a module kind is a weapon or a modifier, and where a modifier
/// attaches.
pub fn weapon_module_from_kind(kind: &WeaponModuleKind) -> (module: WeaponModule)
    ensures
        attachment(*kind) is None ==> module == WeaponModule::Generator(*kind),
        attachment(*kind) matches Some(side) ==> module == WeaponModule::Modulator(*kind, side),
{
    match *kind {
        WeaponModuleKind::Plasma => WeaponModule::Generator(WeaponModuleKind::Plasma),
        WeaponModuleKind::Missile => WeaponModule::Generator(WeaponModuleKind::Missile),
        WeaponModuleKind::Front2Slot => WeaponModule::Modulator(
            WeaponModuleKind::Front2Slot,
            Direction::Down,
        ),
        WeaponModuleKind::FortyFiveSlot => WeaponModule::Modulator(
            WeaponModuleKind::FortyFiveSlot,
            Direction::Down,
        ),
        WeaponModuleKind::SideSlot => WeaponModule::Modulator(
            WeaponModuleKind::SideSlot,
            Direction::Down,
        ),
        WeaponModuleKind::MirrorSlot => WeaponModule::Modulator(
            WeaponModuleKind::MirrorSlot,
            Direction::Down,
        ),
        WeaponModuleKind::DoubleDamage75Freq => WeaponModule::Modulator(
            WeaponModuleKind::DoubleDamage75Freq,
            Direction::Left,
        ),
        WeaponModuleKind::DoubleFreq75Damage => WeaponModule::Modulator(
            WeaponModuleKind::DoubleFreq75Damage,
            Direction::Right,
        ),
    }
}

/// The module in column `x`, row `y`; nothing outside the grid.
pub open spec fn module_at(g: Seq<Option<WeaponModuleKind>>, x: int, y: int) -> Option<
    WeaponModuleKind,
> {
    if 0 <= x < 4 && 0 <= y < 4 {
        g[cell_index(x, y)]
    } else {
        None
    }
}

/// The cell `(x, y)` holds a modifier attached on side `side`.
pub open spec fn feeds(g: Seq<Option<WeaponModuleKind>>, x: int, y: int, side: Direction) -> bool {
    module_at(g, x, y) matches Some(k) && attachment(k) == Some(side)
}

/// The modifiers contributed through the neighbour `(x, y)` attached on side
/// `side`: its own modifier, then those attached to it (`sub`).
pub open spec fn branch(
    g: Seq<Option<WeaponModuleKind>>,
    x: int,
    y: int,
    side: Direction,
    sub: Seq<WeaponModuleKind>,
) -> Seq<WeaponModuleKind> {
    if feeds(g, x, y, side) {
        seq![module_at(g, x, y)->0] + sub
    } else {
        Seq::empty()
    }
}

/// The modifiers applied, in order, to what the cell `(x, y)` produces,
/// following attachments at most `fuel` cells deep: first those attached from
/// below, then from above, from the right and from the left, each neighbour's
/// own modifier before the ones attached to it.
pub open spec fn modulator_chain(g: Seq<Option<WeaponModuleKind>>, x: int, y: int, fuel: nat) -> Seq<
    WeaponModuleKind,
>
    decreases fuel,
{
    if fuel == 0 {
        Seq::empty()
    } else {
        let f = (fuel - 1) as nat;
        branch(g, x, y + 1, Direction::Up, modulator_chain(g, x, y + 1, f)) + branch(
            g,
            x,
            y - 1,
            Direction::Down,
            modulator_chain(g, x, y - 1, f),
        ) + branch(g, x + 1, y, Direction::Left, modulator_chain(g, x + 1, y, f)) + branch(
            g,
            x - 1,
            y,
            Direction::Right,
            modulator_chain(g, x - 1, y, f),
        )
    }
}

/// How deep attachments are followed: every cell of the grid.
pub const CHAIN_DEPTH: u32 = 16;

fn branch_of(
    grid: &EquippedModules,
    x: usize,
    y: usize,
    side: Direction,
    fuel: u32,
) -> (modules: Vec<WeaponModuleKind>)
    requires
        x < 4,
        y < 4,
    ensures
        modules@ == branch(grid@, x as int, y as int, side, modulator_chain(grid@, x as int, y as int, fuel as nat)),
    decreases fuel, 1nat,
{
    match grid.get(x, y) {
        Some(kind) => {
            if let WeaponModule::Modulator(k, attached) = weapon_module_from_kind(&kind) {
                if attached == side {
                    let mut modules: Vec<WeaponModuleKind> = Vec::new();
                    modules.push(k);
                    let mut rest = chain_of(grid, x, y, fuel);
                    modules.append(&mut rest);
                    proof {
                        assert(modules@ =~= seq![k] + modulator_chain(grid@, x as int, y as int, fuel as nat));
                    }
                    return modules;
                }
            }
            Vec::new()
        },
        None => Vec::new(),
    }
}

fn chain_of(grid: &EquippedModules, x: usize, y: usize, fuel: u32) -> (modules: Vec<
    WeaponModuleKind,
>)
    requires
        x < 4,
        y < 4,
    ensures
        modules@ == modulator_chain(grid@, x as int, y as int, fuel as nat),
    decreases fuel, 0nat,
{
    if fuel == 0 {
        return Vec::new();
    }
    let f = fuel - 1;
    let mut modules: Vec<WeaponModuleKind> = if y < 3 {
        branch_of(grid, x, y + 1, Direction::Up, f)
    } else {
        Vec::new()
    };
    let mut up = if y > 0 {
        branch_of(grid, x, y - 1, Direction::Down, f)
    } else {
        Vec::new()
    };
    let mut right = if x < 3 {
        branch_of(grid, x + 1, y, Direction::Left, f)
    } else {
        Vec::new()
    };
    let mut left = if x > 0 {
        branch_of(grid, x - 1, y, Direction::Right, f)
    } else {
        Vec::new()
    };
    modules.append(&mut up);
    modules.append(&mut right);
    modules.append(&mut left);
    proof {
        let g = grid@;
        let fx = f as nat;
        let xi = x as int;
        let yi = y as int;
        assert(y >= 3 ==> branch(g, xi, yi + 1, Direction::Up, modulator_chain(g, xi, yi + 1, fx)) =~= Seq::<WeaponModuleKind>::empty());
        assert(y == 0 ==> branch(g, xi, yi - 1, Direction::Down, modulator_chain(g, xi, yi - 1, fx)) =~= Seq::<WeaponModuleKind>::empty());
        assert(x >= 3 ==> branch(g, xi + 1, yi, Direction::Left, modulator_chain(g, xi + 1, yi, fx)) =~= Seq::<WeaponModuleKind>::empty());
        assert(x == 0 ==> branch(g, xi - 1, yi, Direction::Right, modulator_chain(g, xi - 1, yi, fx)) =~= Seq::<WeaponModuleKind>::empty());
        assert(modules@ =~= modulator_chain(g, xi, yi, fuel as nat));
    }
    modules
}

/// A weapon to be built: the weapon module and the modifiers applied to it,
/// in order.
pub struct WeaponPlan {
    pub generator: WeaponModuleKind,
    pub modulators: Vec<WeaponModuleKind>,
}

/// The weapons of the first `n` cells, in storage order (row by row).
pub open spec fn spec_weapon_plans(g: Seq<Option<WeaponModuleKind>>, n: int) -> Seq<
    (WeaponModuleKind, Seq<WeaponModuleKind>),
>
    decreases n,
{
    if n <= 0 {
        Seq::empty()
    } else {
        let rest = spec_weapon_plans(g, n - 1);
        let i = n - 1;
        match g[i] {
            Some(k) => if attachment(k) is None {
                rest.push((k, modulator_chain(g, i % 4, i / 4, 16)))
            } else {
                rest
            },
            None => rest,
        }
    }
}

/// The plans as plain values.
pub open spec fn plans_view(plans: Seq<WeaponPlan>) -> Seq<(WeaponModuleKind, Seq<WeaponModuleKind>)> {
    plans.map_values(|p: WeaponPlan| (p.generator, p.modulators@))
}

/// The weapons that the equip grid builds: one for each weapon module, taken
/// row by row, with the modifiers attached to it directly or through other
/// modifiers.
pub fn build_weapons(equipped_modules: &EquippedModules) -> (plans: Vec<WeaponPlan>)
    ensures
        plans_view(plans@) == spec_weapon_plans(equipped_modules@, 16),
{
    let mut plans: Vec<WeaponPlan> = Vec::new();
    let mut i: usize = 0;
    while i < 16
        invariant
            i <= 16,
            plans_view(plans@) == spec_weapon_plans(equipped_modules@, i as int),
        decreases 16 - i,
    {
        let x = i % 4;
        let y = i / 4;
        proof {
            assert(cell_index(x as int, y as int) == i);
        }
        let ghost before = plans@;
        match equipped_modules.get(x, y) {
            Some(kind) => {
                if let WeaponModule::Generator(k) = weapon_module_from_kind(&kind) {
                    let modulators = chain_of(equipped_modules, x, y, CHAIN_DEPTH);
                    plans.push(WeaponPlan { generator: k, modulators });
                    proof {
                        assert(plans@.drop_last() =~= before);
                        assert(plans_view(plans@) =~= plans_view(before).push((k, modulators@)));
                    }
                }
            },
            None => {},
        }
        i = i + 1;
    }
    plans
}


/// The neighbour of `(x, y)` on side `side`.
pub open spec fn neighbour(c: (int, int), side: Direction) -> (int, int) {
    match side {
        Direction::Up => (c.0, c.1 - 1),
        Direction::Down => (c.0, c.1 + 1),
        Direction::Left => (c.0 - 1, c.1),
        Direction::Right => (c.0 + 1, c.1),
    }
}

/// The modifier in cell `q` is attached to cell `p`.
pub open spec fn attached_to(g: Seq<Option<WeaponModuleKind>>, q: (int, int), p: (int, int)) -> bool {
    module_at(g, q.0, q.1) matches Some(k) && attachment(k) matches Some(side) && neighbour(q, side)
        == p
}

/// The cell holds no modifier.
pub open spec fn holds_no_modifier(g: Seq<Option<WeaponModuleKind>>, c: (int, int)) -> bool {
    match module_at(g, c.0, c.1) {
        Some(k) => attachment(k) is None,
        None => true,
    }
}

/// A chain of attachments ending in a cell without a modifier: each cell's
/// modifier is attached to the cell before it.
pub open spec fn attachment_path(g: Seq<Option<WeaponModuleKind>>, path: Seq<(int, int)>) -> bool {
    &&& path.len() >= 1
    &&& 0 <= path[0].0 < 4 && 0 <= path[0].1 < 4
    &&& holds_no_modifier(g, path[0])
    &&& forall|i: int| 1 <= i < path.len() ==> #[trigger] attached_to(g, path[i], path[i - 1])
}

/// A chain of attachments never visits a cell twice: each modifier is
/// attached to one cell only, and the chain starts at a cell without one.
pub proof fn lemma_attachment_path_distinct(g: Seq<Option<WeaponModuleKind>>, path: Seq<(int, int)>)
    requires
        attachment_path(g, path),
    ensures
        path.no_duplicates(),
    decreases path.len(),
{
    if path.len() > 1 {
        let prefix = path.drop_last();
        assert forall|i: int| 1 <= i < prefix.len() implies #[trigger] attached_to(
            g,
            prefix[i],
            prefix[i - 1],
        ) by {
            assert(attached_to(g, path[i], path[i - 1]));
        }
        lemma_attachment_path_distinct(g, prefix);
        let n = path.len() - 1;
        assert forall|i: int, j: int|
            0 <= i < path.len() && 0 <= j < path.len() && i != j implies path[i] != path[j] by {
            if i < n && j < n {
                assert(prefix[i] == path[i] && prefix[j] == path[j]);
            } else {
                let k = if i == n { j } else { i };
                if path[k] == path[n] {
                    assert(attached_to(g, path[n], path[n - 1]));
                    if k == 0 {
                    } else {
                        assert(attached_to(g, path[k], path[k - 1]));
                        assert(path[k - 1] == path[n - 1]);
                        assert(prefix[k - 1] == prefix[n - 1]);
                    }
                }
            }
        }
    }
}

/// A chain of attachments has at most as many cells as the grid.
pub proof fn lemma_attachment_path_len(g: Seq<Option<WeaponModuleKind>>, path: Seq<(int, int)>)
    requires
        attachment_path(g, path),
    ensures
        path.len() <= 16,
{
    lemma_attachment_path_distinct(g, path);
    assert forall|i: int| 0 <= i < path.len() implies 0 <= #[trigger] path[i].0 < 4 && 0 <= path[i].1
        < 4 by {
        if i > 0 {
            assert(attached_to(g, path[i], path[i - 1]));
        }
    }
    let idx = path.map_values(|c: (int, int)| c.0 + 4 * c.1);
    assert forall|i: int, j: int| 0 <= i < idx.len() && 0 <= j < idx.len() && i != j implies idx[i]
        != idx[j] by {
        assert(path[i] != path[j]);
        assert(0 <= path[i].0 < 4 && 0 <= path[j].0 < 4);
    }
    assert(idx.no_duplicates());
    idx.unique_seq_to_set();
    vstd::set_lib::lemma_int_range(0, 16);
    assert forall|v: int| idx.to_set().contains(v) implies vstd::set_lib::set_int_range(0, 16).contains(v) by {
        assert(idx.contains(v));
        let i = choose|i: int| 0 <= i < idx.len() && idx[i] == v;
        assert(0 <= path[i].0 < 4 && 0 <= path[i].1 < 4);
    }
    vstd::set_lib::lemma_len_subset(idx.to_set(), vstd::set_lib::set_int_range(0, 16));
}


/// Extending a chain of attachments by a neighbour attached to its last cell
/// gives a chain of attachments.
pub proof fn lemma_attachment_path_push(
    g: Seq<Option<WeaponModuleKind>>,
    path: Seq<(int, int)>,
    q: (int, int),
)
    requires
        attachment_path(g, path),
        attached_to(g, q, path.last()),
    ensures
        attachment_path(g, path.push(q)),
{
    let ext = path.push(q);
    assert forall|i: int| 1 <= i < ext.len() implies #[trigger] attached_to(g, ext[i], ext[i - 1]) by {
        if i < path.len() {
            assert(ext[i] == path[i] && ext[i - 1] == path[i - 1]);
            assert(attached_to(g, path[i], path[i - 1]));
        }
    }
}

/// Once the fuel covers the cells that a chain of attachments can still
/// reach, more fuel changes nothing.
pub proof fn lemma_chain_fuel_settles(
    g: Seq<Option<WeaponModuleKind>>,
    path: Seq<(int, int)>,
    f1: nat,
    f2: nat,
)
    requires
        attachment_path(g, path),
        f1 + path.len() >= 17,
        f2 + path.len() >= 17,
    ensures
        modulator_chain(g, path.last().0, path.last().1, f1) == modulator_chain(
            g,
            path.last().0,
            path.last().1,
            f2,
        ),
    decreases 17 - path.len(),
{
    lemma_attachment_path_len(g, path);
    let p = path.last();
    let x = p.0;
    let y = p.1;
    let g1 = (f1 - 1) as nat;
    let g2 = (f2 - 1) as nat;
    if feeds(g, x, y + 1, Direction::Up) {
        lemma_attachment_path_push(g, path, (x, y + 1));
        lemma_chain_fuel_settles(g, path.push((x, y + 1)), g1, g2);
    }
    if feeds(g, x, y - 1, Direction::Down) {
        lemma_attachment_path_push(g, path, (x, y - 1));
        lemma_chain_fuel_settles(g, path.push((x, y - 1)), g1, g2);
    }
    if feeds(g, x + 1, y, Direction::Left) {
        lemma_attachment_path_push(g, path, (x + 1, y));
        lemma_chain_fuel_settles(g, path.push((x + 1, y)), g1, g2);
    }
    if feeds(g, x - 1, y, Direction::Right) {
        lemma_attachment_path_push(g, path, (x - 1, y));
        lemma_chain_fuel_settles(g, path.push((x - 1, y)), g1, g2);
    }
}

/// The modifiers of a weapon are found in full: following attachments
/// deeper than the sixteen cells of the grid adds nothing, because a chain
/// of attachments never comes back to a cell.
pub proof fn law_weapon_chain_complete(g: Seq<Option<WeaponModuleKind>>, x: int, y: int, fuel: nat)
    requires
        0 <= x < 4,
        0 <= y < 4,
        holds_no_modifier(g, (x, y)),
        fuel >= 16,
    ensures
        modulator_chain(g, x, y, fuel) == modulator_chain(g, x, y, 16),
{
    lemma_chain_fuel_settles(g, seq![(x, y)], fuel, 16);
}


/// The cell `i` (in storage order) holds a weapon module.
pub open spec fn is_weapon_cell(g: Seq<Option<WeaponModuleKind>>, i: int) -> bool {
    g[i] matches Some(k) && attachment(k) is None
}

/// How many of the first `n` cells hold a weapon module.
pub open spec fn weapons_before(g: Seq<Option<WeaponModuleKind>>, n: int) -> int
    decreases n,
{
    if n <= 0 {
        0
    } else {
        weapons_before(g, n - 1) + if is_weapon_cell(g, n - 1) { 1int } else { 0int }
    }
}

proof fn lemma_weapons_before_monotone(g: Seq<Option<WeaponModuleKind>>, i: int, n: int)
    requires
        0 <= i <= n,
    ensures
        weapons_before(g, i) <= weapons_before(g, n),
    decreases n - i,
{
    if i < n {
        lemma_weapons_before_monotone(g, i, n - 1);
    }
}

/// The plans of the first `n` cells: one for each weapon module among them,
/// the one of cell `i` at the position given by the weapons before it.
proof fn lemma_plans_by_cell(g: Seq<Option<WeaponModuleKind>>, n: int)
    requires
        0 <= n <= 16,
        g.len() == 16,
    ensures
        spec_weapon_plans(g, n).len() == weapons_before(g, n),
        forall|i: int|
            0 <= i < n && #[trigger] is_weapon_cell(g, i) ==> spec_weapon_plans(g, n)[weapons_before(
                g,
                i,
            )] == (g[i]->0, modulator_chain(g, i % 4, i / 4, 16)),
    decreases n,
{
    if n > 0 {
        lemma_plans_by_cell(g, n - 1);
        let prev = spec_weapon_plans(g, n - 1);
        let cur = spec_weapon_plans(g, n);
        if is_weapon_cell(g, n - 1) {
            assert(cur == prev.push((g[n - 1]->0, modulator_chain(g, (n - 1) % 4, (n - 1) / 4, 16))));
        } else {
            assert(cur == prev);
        }
        assert forall|i: int|
            0 <= i < n && #[trigger] is_weapon_cell(g, i) implies spec_weapon_plans(g, n)[weapons_before(
                g,
                i,
            )] == (g[i]->0, modulator_chain(g, i % 4, i / 4, 16)) by {
            lemma_weapons_before_monotone(g, 0, i);
            if i < n - 1 {
                assert(weapons_before(g, i + 1) == weapons_before(g, i) + 1);
                lemma_weapons_before_monotone(g, i + 1, n - 1);
                assert(prev[weapons_before(g, i)] == (g[i]->0, modulator_chain(g, i % 4, i / 4, 16)));
                assert(cur[weapons_before(g, i)] == prev[weapons_before(g, i)]);
            } else {
                assert(i == n - 1);
                assert(cur[prev.len() as int] == (g[i]->0, modulator_chain(g, i % 4, i / 4, 16)));
            }
        }
    }
}

proof fn lemma_concat_contains(a: Seq<WeaponModuleKind>, b: Seq<WeaponModuleKind>, m: WeaponModuleKind)
    ensures
        a.contains(m) ==> (a + b).contains(m),
        b.contains(m) ==> (a + b).contains(m),
{
    if a.contains(m) {
        let k = choose|k: int| 0 <= k < a.len() && a[k] == m;
        assert((a + b)[k] == m);
    }
    if b.contains(m) {
        let k = choose|k: int| 0 <= k < b.len() && b[k] == m;
        assert((a + b)[a.len() + k] == m);
    }
}

/// Following attachments from a cell with enough depth reaches the
/// modifier at the far end of any chain of attachments.
proof fn lemma_chain_reaches(g: Seq<Option<WeaponModuleKind>>, path: Seq<(int, int)>, fuel: nat)
    requires
        path.len() >= 2,
        forall|i: int| 1 <= i < path.len() ==> attached_to(g, #[trigger] path[i], path[i - 1]),
        fuel + 1 >= path.len(),
    ensures
        modulator_chain(g, path[0].0, path[0].1, fuel).contains(
            module_at(g, path.last().0, path.last().1)->0,
        ),
    decreases path.len(),
{
    let x = path[0].0;
    let y = path[0].1;
    let p1 = path[1];
    assert(attached_to(g, path[1], path[0]));
    let k1 = module_at(g, p1.0, p1.1)->0;
    let side = attachment(k1)->0;
    let f = (fuel - 1) as nat;
    let target = module_at(g, path.last().0, path.last().1)->0;
    let sub = modulator_chain(g, p1.0, p1.1, f);
    if path.len() > 2 {
        let rest = path.drop_first();
        assert forall|i: int| 1 <= i < rest.len() implies attached_to(g, #[trigger] rest[i], rest[i - 1]) by {
            assert(rest[i] == path[i + 1] && rest[i - 1] == path[i]);
            assert(attached_to(g, path[i + 1], path[(i + 1) - 1]));
        }
        lemma_chain_reaches(g, rest, f);
        assert(rest.last() == path.last());
        assert(sub.contains(target));
    }
    let b = branch(g, p1.0, p1.1, side, sub);
    assert(feeds(g, p1.0, p1.1, side));
    assert(b == seq![k1] + sub);
    assert(b.contains(target)) by {
        if path.len() == 2 {
            assert(b[0] == target);
        } else {
            lemma_concat_contains(seq![k1], sub, target);
        }
    }
    let b1 = branch(g, x, y + 1, Direction::Up, modulator_chain(g, x, y + 1, f));
    let b2 = branch(g, x, y - 1, Direction::Down, modulator_chain(g, x, y - 1, f));
    let b3 = branch(g, x + 1, y, Direction::Left, modulator_chain(g, x + 1, y, f));
    let b4 = branch(g, x - 1, y, Direction::Right, modulator_chain(g, x - 1, y, f));
    assert(modulator_chain(g, x, y, fuel) == b1 + b2 + b3 + b4);
    match side {
        Direction::Up => {
            assert(b1 == b);
            lemma_concat_contains(b1, b2, target);
            lemma_concat_contains(b1 + b2, b3, target);
            lemma_concat_contains(b1 + b2 + b3, b4, target);
        },
        Direction::Down => {
            assert(b2 == b);
            lemma_concat_contains(b1, b2, target);
            lemma_concat_contains(b1 + b2, b3, target);
            lemma_concat_contains(b1 + b2 + b3, b4, target);
        },
        Direction::Left => {
            assert(b3 == b);
            lemma_concat_contains(b1 + b2, b3, target);
            lemma_concat_contains(b1 + b2 + b3, b4, target);
        },
        Direction::Right => {
            assert(b4 == b);
            lemma_concat_contains(b1 + b2 + b3, b4, target);
        },
    }
}

/// Every modifier attached to a weapon, directly or through a chain of
/// other modifiers of any length, is among the modifiers of that weapon's
/// plan. The plans come in cell order, so the plan of the weapon in cell
/// `i` is the one after the plans of the weapons in the cells before it.
pub proof fn law_weapon_gets_every_attached_modifier(
    g: Seq<Option<WeaponModuleKind>>,
    path: Seq<(int, int)>,
)
    requires
        g.len() == 16,
        attachment_path(g, path),
        path.len() >= 2,
        module_at(g, path[0].0, path[0].1) is Some,
    ensures
        ({
            let i = cell_index(path[0].0, path[0].1);
            let plans = spec_weapon_plans(g, 16);
            let j = weapons_before(g, i);
            &&& 0 <= j < plans.len()
            &&& plans[j].0 == g[i]->0
            &&& plans[j].1.contains(module_at(g, path.last().0, path.last().1)->0)
        }),
{
    let x = path[0].0;
    let y = path[0].1;
    let i = cell_index(x, y);
    assert(0 <= i < 16);
    assert(i % 4 == x && i / 4 == y) by {
        if y == 0 {
        } else if y == 1 {
        } else if y == 2 {
        } else {
        }
    }
    assert(is_weapon_cell(g, i));
    lemma_plans_by_cell(g, 16);
    assert(weapons_before(g, i + 1) == weapons_before(g, i) + 1);
    lemma_weapons_before_monotone(g, i + 1, 16);
    lemma_weapons_before_monotone(g, 0, i);
    assert(spec_weapon_plans(g, 16)[weapons_before(g, i)] == (g[i]->0, modulator_chain(g, x, y, 16)));
    lemma_attachment_path_len(g, path);
    assert forall|k: int| 1 <= k < path.len() implies attached_to(g, #[trigger] path[k], path[k - 1]) by {
        assert(attached_to(g, path[k], path[k - 1]));
    }
    lemma_chain_reaches(g, path, 16);
}

/// The places around the player from which projectiles leave.
#[derive(Clone, Copy, Debug, PartialEq, Eq, Structural, Hash)]
pub enum SlotPosition {
    FrontAhead,
    FrontDoubleLeft,
    FrontDoubleRight,
    Front45Left,
    Front45Right,
    SideLeft,
    SideRight,
    BackAhead,
    BackDoubleLeft,
    BackDoubleRight,
    Back45Left,
    Back45Right,
}

/// The slot facing the other way: front and back swap, side slots have none.
pub open spec fn spec_reversed_slot(slot: SlotPosition) -> Option<SlotPosition> {
    match slot {
        SlotPosition::Back45Left => Some(SlotPosition::Front45Left),
        SlotPosition::Back45Right => Some(SlotPosition::Front45Right),
        SlotPosition::BackAhead => Some(SlotPosition::FrontAhead),
        SlotPosition::BackDoubleLeft => Some(SlotPosition::FrontDoubleLeft),
        SlotPosition::BackDoubleRight => Some(SlotPosition::FrontDoubleRight),
        SlotPosition::Front45Left => Some(SlotPosition::Back45Left),
        SlotPosition::Front45Right => Some(SlotPosition::Back45Right),
        SlotPosition::FrontAhead => Some(SlotPosition::BackAhead),
        SlotPosition::FrontDoubleLeft => Some(SlotPosition::BackDoubleLeft),
        SlotPosition::FrontDoubleRight => Some(SlotPosition::BackDoubleRight),
        SlotPosition::SideLeft => None,
        SlotPosition::SideRight => None,
    }
}

/// The slot facing the other way, if there is one (see [`spec_reversed_slot`]).
pub fn reversed_slot_position(slot: SlotPosition) -> (reversed: Option<SlotPosition>)
    ensures
        reversed == spec_reversed_slot(slot),
{
    match slot {
        SlotPosition::Back45Left => Some(SlotPosition::Front45Left),
        SlotPosition::Back45Right => Some(SlotPosition::Front45Right),
        SlotPosition::BackAhead => Some(SlotPosition::FrontAhead),
        SlotPosition::BackDoubleLeft => Some(SlotPosition::FrontDoubleLeft),
        SlotPosition::BackDoubleRight => Some(SlotPosition::FrontDoubleRight),
        SlotPosition::Front45Left => Some(SlotPosition::Back45Left),
        SlotPosition::Front45Right => Some(SlotPosition::Back45Right),
        SlotPosition::FrontAhead => Some(SlotPosition::BackAhead),
        SlotPosition::FrontDoubleLeft => Some(SlotPosition::BackDoubleLeft),
        SlotPosition::FrontDoubleRight => Some(SlotPosition::BackDoubleRight),
        SlotPosition::SideLeft => None,
        SlotPosition::SideRight => None,
    }
}

/// Reversing a slot twice gives it back, and no slot is its own reverse.
pub proof fn law_reversed_slot_involution(slot: SlotPosition)
    ensures
        spec_reversed_slot(slot) matches Some(r) ==> r != slot && spec_reversed_slot(r) == Some(
            slot,
        ),
{
}

/// The slots a modifier opens: two for each of the slot modifiers, none for
/// the others.
pub open spec fn spec_slots_added(kind: WeaponModuleKind) -> Seq<SlotPosition> {
    match kind {
        WeaponModuleKind::Front2Slot => seq![SlotPosition::FrontDoubleLeft, SlotPosition::FrontDoubleRight],
        WeaponModuleKind::FortyFiveSlot => seq![SlotPosition::Front45Left, SlotPosition::Front45Right],
        WeaponModuleKind::SideSlot => seq![SlotPosition::SideLeft, SlotPosition::SideRight],
        _ => Seq::empty(),
    }
}

/// The slots a modifier opens (see [`spec_slots_added`]).
pub fn slots_added_by(kind: WeaponModuleKind) -> (slots: Vec<SlotPosition>)
    ensures
        slots@ == spec_slots_added(kind),
{
    let mut slots: Vec<SlotPosition> = Vec::new();
    match kind {
        WeaponModuleKind::Front2Slot => {
            slots.push(SlotPosition::FrontDoubleLeft);
            slots.push(SlotPosition::FrontDoubleRight);
        },
        WeaponModuleKind::FortyFiveSlot => {
            slots.push(SlotPosition::Front45Left);
            slots.push(SlotPosition::Front45Right);
        },
        WeaponModuleKind::SideSlot => {
            slots.push(SlotPosition::SideLeft);
            slots.push(SlotPosition::SideRight);
        },
        _ => {},
    }
    proof {
        assert(slots@ =~= spec_slots_added(kind));
    }
    slots
}


/// The slots opened by each modifier in turn, in order (a slot may come
/// more than once; the weapon keeps them as a set).
pub open spec fn spec_plan_slots(modulators: Seq<WeaponModuleKind>) -> Seq<SlotPosition>
    decreases modulators.len(),
{
    if modulators.len() == 0 {
        Seq::empty()
    } else {
        spec_plan_slots(modulators.drop_last()) + spec_slots_added(modulators.last())
    }
}

/// The slots that the modifiers of a weapon open, and whether one of them
/// mirrors the weapon to fire backwards too.
pub fn plan_slots(modulators: &Vec<WeaponModuleKind>) -> (slots: (Vec<SlotPosition>, bool))
    ensures
        slots.0@ == spec_plan_slots(modulators@),
        slots.1 <==> modulators@.contains(WeaponModuleKind::MirrorSlot),
{
    let mut list: Vec<SlotPosition> = Vec::new();
    let mut reversed = false;
    let mut i: usize = 0;
    while i < modulators.len()
        invariant
            i <= modulators.len(),
            list@ == spec_plan_slots(modulators@.take(i as int)),
            reversed <==> modulators@.take(i as int).contains(WeaponModuleKind::MirrorSlot),
        decreases modulators.len() - i,
    {
        let kind = modulators[i];
        let mut added = slots_added_by(kind);
        list.append(&mut added);
        if kind == WeaponModuleKind::MirrorSlot {
            reversed = true;
        }
        proof {
            let before = modulators@.take(i as int);
            let after = modulators@.take(i + 1);
            assert(after.drop_last() =~= before);
            assert(after.last() == kind);
            assert(after.contains(WeaponModuleKind::MirrorSlot) <==> (before.contains(
                WeaponModuleKind::MirrorSlot,
            ) || kind == WeaponModuleKind::MirrorSlot)) by {
                if kind == WeaponModuleKind::MirrorSlot {
                    assert(after[i as int] == kind);
                }
                if before.contains(WeaponModuleKind::MirrorSlot) {
                    let j = choose|j: int| 0 <= j < before.len() && before[j] == WeaponModuleKind::MirrorSlot;
                    assert(after[j] == before[j]);
                }
                if after.contains(WeaponModuleKind::MirrorSlot) {
                    let j = choose|j: int| 0 <= j < after.len() && after[j] == WeaponModuleKind::MirrorSlot;
                    if j < i {
                        assert(before[j] == after[j]);
                    }
                }
            }
        }
        i = i + 1;
    }
    assert(modulators@.take(modulators.len() as int) =~= modulators@);
    (list, reversed)
}

/// Each slot followed by its reverse, where it has one.
pub open spec fn spec_mirrored(slots: Seq<SlotPosition>) -> Seq<SlotPosition>
    decreases slots.len(),
{
    if slots.len() == 0 {
        Seq::empty()
    } else {
        spec_mirrored(slots.drop_last()) + match spec_reversed_slot(slots.last()) {
            Some(r) => seq![slots.last(), r],
            None => seq![slots.last()],
        }
    }
}

/// The slots of a mirrored weapon: each slot and its reverse.
pub fn mirrored_slots(slots: &Vec<SlotPosition>) -> (mirrored: Vec<SlotPosition>)
    ensures
        mirrored@ == spec_mirrored(slots@),
{
    let mut mirrored: Vec<SlotPosition> = Vec::new();
    let mut i: usize = 0;
    while i < slots.len()
        invariant
            i <= slots.len(),
            mirrored@ == spec_mirrored(slots@.take(i as int)),
        decreases slots.len() - i,
    {
        let slot = slots[i];
        mirrored.push(slot);
        match reversed_slot_position(slot) {
            Some(r) => mirrored.push(r),
            None => {},
        }
        proof {
            let after = slots@.take(i + 1);
            assert(after.drop_last() =~= slots@.take(i as int));
            assert(after.last() == slot);
        }
        i = i + 1;
    }
    assert(slots@.take(slots.len() as int) =~= slots@);
    mirrored
}

/// A mirrored weapon fires both ways: the mirrored slots hold every slot of
/// the weapon and the reverse of each slot that has one, and nothing else.
pub proof fn law_mirrored_slots_fire_both_ways(slots: Seq<SlotPosition>)
    ensures
        forall|s: SlotPosition| #[trigger] spec_mirrored(slots).contains(s) <==> (slots.contains(s)
            || exists|i: int| 0 <= i < slots.len() && spec_reversed_slot(slots[i]) == Some(s)),
    decreases slots.len(),
{
    if slots.len() > 0 {
        let rest = slots.drop_last();
        law_mirrored_slots_fire_both_ways(rest);
        let last = slots.last();
        let tail: Seq<SlotPosition> = match spec_reversed_slot(last) {
            Some(r) => seq![last, r],
            None => seq![last],
        };
        assert(spec_mirrored(slots) == spec_mirrored(rest) + tail);
        assert forall|s: SlotPosition| #[trigger] spec_mirrored(slots).contains(s) <==> (slots.contains(s)
            || exists|i: int| 0 <= i < slots.len() && spec_reversed_slot(slots[i]) == Some(s)) by {
            let m = spec_mirrored(rest);
            if spec_mirrored(slots).contains(s) {
                let k = choose|k: int| 0 <= k < spec_mirrored(slots).len() && spec_mirrored(slots)[k] == s;
                if k < m.len() {
                    assert(m[k] == s);
                    assert(m.contains(s));
                    if rest.contains(s) {
                        let j = choose|j: int| 0 <= j < rest.len() && rest[j] == s;
                        assert(slots[j] == s);
                    } else {
                        let j = choose|j: int| 0 <= j < rest.len() && spec_reversed_slot(rest[j]) == Some(s);
                        assert(slots[j] == rest[j]);
                    }
                } else if k == m.len() {
                    assert(slots[slots.len() - 1] == s);
                } else {
                    assert(spec_reversed_slot(slots[slots.len() - 1]) == Some(s));
                }
            }
            if slots.contains(s) {
                let j = choose|j: int| 0 <= j < slots.len() && slots[j] == s;
                if j < rest.len() {
                    assert(rest[j] == s);
                    assert(m.contains(s));
                    let k = choose|k: int| 0 <= k < m.len() && m[k] == s;
                    assert(spec_mirrored(slots)[k] == s);
                } else {
                    assert(spec_mirrored(slots)[m.len() as int] == s);
                }
            }
            if exists|i: int| 0 <= i < slots.len() && spec_reversed_slot(slots[i]) == Some(s) {
                let j = choose|j: int| 0 <= j < slots.len() && spec_reversed_slot(slots[j]) == Some(s);
                if j < rest.len() {
                    assert(spec_reversed_slot(rest[j]) == Some(s));
                    assert(m.contains(s));
                    let k = choose|k: int| 0 <= k < m.len() && m[k] == s;
                    assert(spec_mirrored(slots)[k] == s);
                } else {
                    assert(spec_mirrored(slots)[m.len() as int + 1] == s);
                }
            }
        }
    }
}


/// The set of slots a weapon fires from, kept in a persistent hash trie set
/// of the rpds crate.
#[verifier::external_body]
pub struct SlotSet {
    set: rpds::HashTrieSet<SlotPosition>,
}

/// The slots a slot set holds.
pub uninterp spec fn slot_set_contents(set: SlotSet) -> Set<SlotPosition>;

impl SlotSet {
    /// Calls rpds' `HashTrieSet::new`: a set that holds nothing.
    #[verifier::external_body]
    fn empty() -> (set: SlotSet)
        ensures
            slot_set_contents(set) == Set::<SlotPosition>::empty(),
    {
        SlotSet { set: rpds::HashTrieSet::new() }
    }

    /// Calls rpds' `HashTrieSet::insert`, which returns a new set holding
    /// the old one's slots and `slot` and leaves the old one unchanged.
    #[verifier::external_body]
    fn insert(&self, slot: SlotPosition) -> (set: SlotSet)
        ensures
            slot_set_contents(set) == slot_set_contents(*self).insert(slot),
    {
        SlotSet { set: self.set.insert(slot) }
    }

    /// Collects rpds' `HashTrieSet::iter`: each slot of the set once, in an
    /// order that the contract leaves open (it follows the hashes).
    #[verifier::external_body]
    fn elements(&self) -> (slots: Vec<SlotPosition>)
        ensures
            slots@.to_set() == slot_set_contents(*self),
            slots@.no_duplicates(),
    {
        self.set.iter().cloned().collect()
    }
}

/// The slots a weapon fires from before any mirroring: those its modifiers
/// open, or straight ahead when they open none.
pub open spec fn spec_front_slots(modulators: Seq<WeaponModuleKind>) -> Seq<SlotPosition> {
    if spec_plan_slots(modulators).len() == 0 {
        seq![SlotPosition::FrontAhead]
    } else {
        spec_plan_slots(modulators)
    }
}

/// The slot set of a weapon with the given modifiers: the slots its
/// modifiers open; with a mirror modifier among them, every slot it fires
/// from (straight ahead when no modifier opens one) together with its
/// reverse. An empty set stands for firing straight ahead.
pub open spec fn spec_weapon_slots(modulators: Seq<WeaponModuleKind>) -> Set<SlotPosition> {
    if modulators.contains(WeaponModuleKind::MirrorSlot) {
        spec_mirrored(spec_front_slots(modulators)).to_set()
    } else {
        spec_plan_slots(modulators).to_set()
    }
}

/// The slot set of a weapon with the given modifiers (see
/// [`spec_weapon_slots`]).
pub fn weapon_slot_set(modulators: &Vec<WeaponModuleKind>) -> (set: SlotSet)
    ensures
        slot_set_contents(set) == spec_weapon_slots(modulators@),
{
    let (planned, reversed) = plan_slots(modulators);
    let slots = if reversed {
        if planned.len() == 0 {
            let mut ahead: Vec<SlotPosition> = Vec::new();
            ahead.push(SlotPosition::FrontAhead);
            proof {
                assert(ahead@ =~= spec_front_slots(modulators@));
            }
            mirrored_slots(&ahead)
        } else {
            mirrored_slots(&planned)
        }
    } else {
        planned
    };
    let mut set = SlotSet::empty();
    let mut i: usize = 0;
    assert(slots@.take(0).to_set() =~= Set::<SlotPosition>::empty());
    while i < slots.len()
        invariant
            i <= slots.len(),
            slot_set_contents(set) == slots@.take(i as int).to_set(),
        decreases slots.len() - i,
    {
        let slot = slots[i];
        set = set.insert(slot);
        proof {
            let before = slots@.take(i as int);
            let after = slots@.take(i + 1);
            assert(after =~= before.push(slot));
            before.lemma_push_to_set_commute(slot);
        }
        i = i + 1;
    }
    assert(slots@.take(slots.len() as int) =~= slots@);
    set
}

/// A weapon with a mirror modifier fires both ways: every slot it would fire
/// from without the mirror (straight ahead when its modifiers open none) is
/// in its slot set, and so is the reverse of each such slot.
pub proof fn law_mirrored_weapon_fires_both_ways(modulators: Seq<WeaponModuleKind>, slot: SlotPosition)
    requires
        modulators.contains(WeaponModuleKind::MirrorSlot),
        spec_front_slots(modulators).contains(slot),
    ensures
        spec_weapon_slots(modulators).contains(slot),
        spec_reversed_slot(slot) matches Some(r) ==> spec_weapon_slots(modulators).contains(r),
{
    let front = spec_front_slots(modulators);
    law_mirrored_slots_fire_both_ways(front);
    assert(spec_mirrored(front).contains(slot));
    let j = choose|j: int| 0 <= j < front.len() && front[j] == slot;
    if let Some(r) = spec_reversed_slot(slot) {
        assert(spec_reversed_slot(front[j]) == Some(r));
        assert(spec_mirrored(front).contains(r));
    }
}

/// The slots a weapon fires from: those of its set, each once, or straight
/// ahead if the set is empty.
pub fn firing_slots(set: &SlotSet) -> (firing: Vec<SlotPosition>)
    ensures
        slot_set_contents(*set).is_empty() ==> firing@ == seq![SlotPosition::FrontAhead],
        !slot_set_contents(*set).is_empty() ==> firing@.to_set() == slot_set_contents(*set)
            && firing@.no_duplicates(),
{
    let slots = set.elements();
    if slots.len() == 0 {
        proof {
            assert(slots@ =~= Seq::<SlotPosition>::empty());
            assert(slots@.to_set() =~= Set::<SlotPosition>::empty());
        }
        let mut firing: Vec<SlotPosition> = Vec::new();
        firing.push(SlotPosition::FrontAhead);
        firing
    } else {
        proof {
            assert(slots@.to_set().contains(slots@[0]));
        }
        slots
    }
}

/// The modules picked up this frame, as they join the spare area.
pub open spec fn picked_up_kinds(picked_up: Seq<(i32, WeaponModuleKind)>) -> Seq<WeaponModuleKind> {
    picked_up.map_values(|p: (i32, WeaponModuleKind)| p.1)
}

/// The pickups of this frame, as they are remembered: the map they lay on and
/// their id there.
pub open spec fn picked_up_items(map_name: String, picked_up: Seq<(i32, WeaponModuleKind)>) -> Seq<
    (String, i32),
> {
    picked_up.map_values(|p: (i32, WeaponModuleKind)| (map_name, p.0))
}

/// Puts the modules picked up this frame at the end of the spare modules, and
/// records each pickup, with the map `map_name` it lay on, as acquired.
pub fn add_picked_up_modules(
    unequipped_modules: &mut Vec<WeaponModuleKind>,
    acquired_items: &mut Vec<(String, i32)>,
    map_name: &String,
    picked_up: &Vec<(i32, WeaponModuleKind)>,
)
    ensures
        final(unequipped_modules)@ == old(unequipped_modules)@ + picked_up_kinds(picked_up@),
        final(acquired_items)@ == old(acquired_items)@ + picked_up_items(*map_name, picked_up@),
{
    let ghost modules0 = unequipped_modules@;
    let ghost items0 = acquired_items@;
    let mut i: usize = 0;
    while i < picked_up.len()
        invariant
            i <= picked_up@.len(),
            unequipped_modules@ == modules0 + picked_up_kinds(picked_up@.take(i as int)),
            acquired_items@ == items0 + picked_up_items(*map_name, picked_up@.take(i as int)),
        decreases picked_up@.len() - i,
    {
        let (id, kind) = picked_up[i];
        unequipped_modules.push(kind);
        acquired_items.push((map_name.clone(), id));
        proof {
            let t = picked_up@.take(i + 1);
            assert(t =~= picked_up@.take(i as int).push(picked_up@[i as int]));
            assert(picked_up_kinds(t) =~= picked_up_kinds(picked_up@.take(i as int)).push(kind));
            assert(picked_up_items(*map_name, t) =~= picked_up_items(
                *map_name,
                picked_up@.take(i as int),
            ).push((*map_name, id)));
        }
        i = i + 1;
    }
    proof {
        assert(picked_up@.take(i as int) =~= picked_up@);
    }
}

} // verus!
