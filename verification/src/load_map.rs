use vstd::prelude::*;
use crate::ecs::Id;

verus! {

/// The abilities that a pickup on the map can grant.
#[derive(Clone, Copy, Debug, PartialEq, Eq, Structural)]
pub enum MapAbilityType {
    Boost,
    Chain,
}

/// Tile codes of the collider layer.
pub const EMPTY: i32 = 0;
pub const WALL_COLLIDER: i32 = 1;
pub const WALL_DESTRUCTIBLE: i32 = 2;
pub const WALL_DAMAGING: i32 = 3;

/// A tile layer of a map: `width` by `height` tile codes, row by row from
/// the top.
pub struct ColliderLayer {
    pub data: Vec<i32>,
    pub height: i32,
    pub width: i32,
    pub name: String,
}

/// The kinds of wall a collider tile can be.
#[derive(Clone, Copy, Debug, PartialEq, Eq, Structural)]
pub enum WallKind {
    /// A plain wall.
    Solid,
    /// A wall that breaks when it takes damage.
    Destructible,
    /// A wall that hurts what touches it.
    Damaging,
}

/// A wall of the collider layer: its position in the layer's data, its
/// column, its row counted upwards with the bottom row as one, and its
/// kind. Its centre is half a tile right of its column and half a tile
/// below its row.
#[derive(Clone, Copy, Debug, PartialEq, Eq, Structural)]
pub struct WallTile {
    pub index: i32,
    pub column: i32,
    pub row: i32,
    pub kind: WallKind,
}

/// Every code of the collider layer means something: empty or a wall.
pub open spec fn known_tile(code: i32) -> bool {
    EMPTY <= code <= WALL_DAMAGING
}

/// The wall a tile code stands for, if any.
pub open spec fn wall_kind(code: i32) -> Option<WallKind> {
    if code == WALL_COLLIDER {
        Some(WallKind::Solid)
    } else if code == WALL_DESTRUCTIBLE {
        Some(WallKind::Destructible)
    } else if code == WALL_DAMAGING {
        Some(WallKind::Damaging)
    } else {
        None
    }
}

/// The column of the tile at `index`, and its row counted upwards with the
/// bottom row of a `height`-row layer as one.
pub open spec fn spec_tile_cell(index: int, width: int, height: int) -> (int, int) {
    (index % width, height - index / width)
}

/// The column and upward row of the tile at `index` in a layer of the
/// given size; the physics side places the tile's centre at
/// `(column + 0.5, row - 0.5)` tiles.
pub fn translation_vector_from_index(index: i32, width: i32, height: i32) -> (cell: (i32, i32))
    requires
        index >= 0,
        width > 0,
        i32::MIN <= height - index / width,
    ensures
        (cell.0 as int, cell.1 as int) == spec_tile_cell(index as int, width as int, height as int),
{
    (index % width, height - index / width)
}

/// Each wall of the layer, in the order of the data, with its cell.
pub open spec fn is_wall_of(tile: WallTile, data: Seq<i32>, width: int, height: int) -> bool {
    &&& 0 <= tile.index < data.len()
    &&& wall_kind(data[tile.index as int]) == Some(tile.kind)
    &&& (tile.column as int, tile.row as int) == spec_tile_cell(tile.index as int, width, height)
}

impl ColliderLayer {
    /// The walls of the layer, in the order of its data: one for each tile
    /// whose code is a wall, none for the empty tiles.
    pub fn into(&self) -> (walls: Vec<WallTile>)
        requires
            self.width > 0,
            self.data.len() <= i32::MAX,
            forall|i: int| 0 <= i < self.data.len() ==> known_tile(#[trigger] self.data[i]),
            i32::MIN <= self.height - (self.data.len() as int) / (self.width as int),
        ensures
            forall|k: int|
                0 <= k < walls.len() ==> is_wall_of(
                    #[trigger] walls[k],
                    self.data@,
                    self.width as int,
                    self.height as int,
                ),
            forall|k: int, l: int| 0 <= k < l < walls.len() ==> walls[k].index < walls[l].index,
            forall|i: int|
                0 <= i < self.data.len() && #[trigger] wall_kind(self.data[i]) is Some ==> exists|
                    k: int,
                | 0 <= k < walls.len() && #[trigger] walls[k].index == i,
    {
        let mut walls: Vec<WallTile> = Vec::new();
        let mut i: usize = 0;
        while i < self.data.len()
            invariant
                i <= self.data.len(),
                self.data.len() <= i32::MAX,
                self.width > 0,
                i32::MIN <= self.height - (self.data.len() as int) / (self.width as int),
                forall|k: int|
                    0 <= k < walls.len() ==> is_wall_of(
                        #[trigger] walls[k],
                        self.data@,
                        self.width as int,
                        self.height as int,
                    ) && walls[k].index < i,
                forall|k: int, l: int| 0 <= k < l < walls.len() ==> walls[k].index < walls[l].index,
                forall|j: int|
                    0 <= j < i && #[trigger] wall_kind(self.data[j]) is Some ==> exists|k: int|
                        0 <= k < walls.len() && #[trigger] walls[k].index == j,
            decreases self.data.len() - i,
        {
            let code = self.data[i];
            let index = i as i32;
            let kind = if code == WALL_COLLIDER {
                Some(WallKind::Solid)
            } else if code == WALL_DESTRUCTIBLE {
                Some(WallKind::Destructible)
            } else if code == WALL_DAMAGING {
                Some(WallKind::Damaging)
            } else {
                None
            };
            match kind {
                Some(kind) => {
                    proof {
                        vstd::arithmetic::div_mod::lemma_div_is_ordered(
                            index as int,
                            self.data.len() as int,
                            self.width as int,
                        );
                    }
                    let (column, row) = translation_vector_from_index(index, self.width, self.height);
                    let ghost before = walls@;
                    walls.push(WallTile { index, column, row, kind });
                    proof {
                        assert(walls[before.len() as int].index == i);
                        assert forall|j: int|
                            0 <= j <= i && #[trigger] wall_kind(self.data[j]) is Some implies exists|
                                k: int,
                            | 0 <= k < walls.len() && #[trigger] walls[k].index == j by {
                            if j < i {
                                let k = choose|k: int| 0 <= k < before.len() && #[trigger] before[k].index == j;
                                assert(walls[k].index == j);
                            } else {
                                assert(walls[before.len() as int].index == j);
                            }
                        }
                    }
                },
                None => {},
            }
            i = i + 1;
        }
        walls
    }
}

/// The first layer with the given name, if there is one.
pub fn layer_named<'a>(layers: &'a Vec<ColliderLayer>, name: &String) -> (found: Option<&'a ColliderLayer>)
    ensures
        match found {
            Some(layer) => exists|i: int|
                0 <= i < layers.len() && *layer == layers[i] && layers[i].name@ == name@ && forall|
                    j: int,
                | 0 <= j < i ==> #[trigger] layers[j].name@ != name@,
            None => forall|j: int| 0 <= j < layers.len() ==> #[trigger] layers[j].name@ != name@,
        },
{
    let mut i: usize = 0;
    while i < layers.len()
        invariant
            i <= layers.len(),
            forall|j: int| 0 <= j < i ==> #[trigger] layers[j].name@ != name@,
        decreases layers.len() - i,
    {
        if layers[i].name == *name {
            return Some(&layers[i]);
        }
        i = i + 1;
    }
    None
}


/// The enemies that a map can place, by the names the map editor uses.
#[derive(Clone, Copy, Debug, PartialEq, Eq, Structural)]
pub enum MapEnemyName {
    Goblin,
    Imp,
    Aranea,
    AraneaQueen,
    Defender,
    Seeker,
    SeekerGenerator,
    Sniper,
    SniperGenerator,
    LaserGate,
}

/// A custom property of an enemy placed on a map: the egg an aranea
/// guards, or the mark that its destruction is remembered.
#[derive(Clone, Copy, Debug, PartialEq, Eq, Structural)]
pub enum MapEnemySpawnProperty {
    AraneaEggId(i32),
    PersistDestruction,
}

/// The enemy to spawn, with the egg it guards for the araneae.
#[derive(Clone, Copy, Debug, PartialEq, Eq, Structural)]
pub enum EnemySpawnEnemy {
    Goblin,
    Imp,
    Aranea(Id),
    AraneaQueen(Id),
    Defender,
    Seeker,
    SeekerGenerator,
    Sniper,
    SniperGenerator,
    LaserGate,
}

/// How a placed enemy is remembered across visits: its id on the map, and
/// whether its destruction is kept.
#[derive(Clone, Copy, Debug, PartialEq, Eq, Structural)]
pub struct EnemySpawnPersist {
    pub id: Id,
    pub persist_destruction: bool,
}

/// The value of the first egg property among the properties, if any.
pub open spec fn first_egg_id(properties: Seq<MapEnemySpawnProperty>) -> Option<i32>
    decreases properties.len(),
{
    if properties.len() == 0 {
        None
    } else {
        match properties[0] {
            MapEnemySpawnProperty::AraneaEggId(id) => Some(id),
            _ => first_egg_id(properties.drop_first()),
        }
    }
}

pub open spec fn egg_id_of(properties: Option<Seq<MapEnemySpawnProperty>>) -> Option<i32> {
    match properties {
        Some(p) => first_egg_id(p),
        None => None,
    }
}

/// The enemy a map entry stands for, given the egg it guards (only the
/// araneae use it).
pub open spec fn spec_spawn_enemy(name: MapEnemyName, egg: i32) -> EnemySpawnEnemy {
    match name {
        MapEnemyName::Goblin => EnemySpawnEnemy::Goblin,
        MapEnemyName::Imp => EnemySpawnEnemy::Imp,
        MapEnemyName::Aranea => EnemySpawnEnemy::Aranea(Id { id: egg }),
        MapEnemyName::AraneaQueen => EnemySpawnEnemy::AraneaQueen(Id { id: egg }),
        MapEnemyName::Defender => EnemySpawnEnemy::Defender,
        MapEnemyName::Seeker => EnemySpawnEnemy::Seeker,
        MapEnemyName::SeekerGenerator => EnemySpawnEnemy::SeekerGenerator,
        MapEnemyName::Sniper => EnemySpawnEnemy::Sniper,
        MapEnemyName::SniperGenerator => EnemySpawnEnemy::SniperGenerator,
        MapEnemyName::LaserGate => EnemySpawnEnemy::LaserGate,
    }
}

pub open spec fn needs_egg(name: MapEnemyName) -> bool {
    name == MapEnemyName::Aranea || name == MapEnemyName::AraneaQueen
}

pub open spec fn view_properties(
    properties: &Option<Vec<MapEnemySpawnProperty>>,
) -> Option<Seq<MapEnemySpawnProperty>> {
    match properties {
        Some(p) => Some(p@),
        None => None,
    }
}

/// Whether a map entry of this name must name the egg it guards.
pub fn needs_egg_id(name: MapEnemyName) -> (needed: bool)
    ensures
        needed == needs_egg(name),
{
    match name {
        MapEnemyName::Aranea | MapEnemyName::AraneaQueen => true,
        _ => false,
    }
}

/// The first egg property of an entry.
pub fn find_egg_id(properties: &Option<Vec<MapEnemySpawnProperty>>) -> (egg: Option<i32>)
    ensures
        egg == egg_id_of(view_properties(properties)),
{
    match properties {
        None => None,
        Some(list) => {
            let mut i: usize = 0;
            assert(view_properties(properties) == Some(list@));
            assert(list@.subrange(0, list.len() as int) =~= list@);
            while i < list.len()
                invariant
                    i <= list.len(),
                    view_properties(properties) == Some(list@),
                    first_egg_id(list@) == first_egg_id(list@.subrange(i as int, list.len() as int)),
                decreases list.len() - i,
            {
                assert(list@.subrange(i as int, list.len() as int).drop_first()
                    =~= list@.subrange(i + 1, list.len() as int));
                assert(list@.subrange(i as int, list.len() as int)[0] == list[i as int]);
                match list[i] {
                    MapEnemySpawnProperty::AraneaEggId(id) => {
                        assert(first_egg_id(list@.subrange(i as int, list.len() as int)) == Some(id));
                        return Some(id);
                    },
                    MapEnemySpawnProperty::PersistDestruction => {},
                }
                i = i + 1;
            }
            assert(list@.subrange(i as int, list.len() as int).len() == 0);
            None
        },
    }
}

/// The enemy that a map entry named `name` with the given properties
/// spawns. An aranea or aranea queen must name the egg it guards: the map
/// format has no such entry without one.
pub fn spawn_enemy(name: MapEnemyName, properties: &Option<Vec<MapEnemySpawnProperty>>) -> (enemy: EnemySpawnEnemy)
    requires
        !(needs_egg(name) && egg_id_of(view_properties(properties)) is None),
    ensures
        spawned_name(enemy) == name,
        enemy == spec_spawn_enemy(
            name,
            match egg_id_of(view_properties(properties)) {
                Some(id) => id,
                None => 0,
            },
        ),
{
    let egg = find_egg_id(properties);
    match name {
        MapEnemyName::Goblin => EnemySpawnEnemy::Goblin,
        MapEnemyName::Imp => EnemySpawnEnemy::Imp,
        MapEnemyName::Aranea => EnemySpawnEnemy::Aranea(Id { id: egg.unwrap() }),
        MapEnemyName::AraneaQueen => EnemySpawnEnemy::AraneaQueen(Id { id: egg.unwrap() }),
        MapEnemyName::Defender => EnemySpawnEnemy::Defender,
        MapEnemyName::Seeker => EnemySpawnEnemy::Seeker,
        MapEnemyName::SeekerGenerator => EnemySpawnEnemy::SeekerGenerator,
        MapEnemyName::Sniper => EnemySpawnEnemy::Sniper,
        MapEnemyName::SniperGenerator => EnemySpawnEnemy::SniperGenerator,
        MapEnemyName::LaserGate => EnemySpawnEnemy::LaserGate,
    }
}

/// The map name of the enemy an entry spawns: each enemy carries the name
/// it has on the map.
pub open spec fn spawned_name(enemy: EnemySpawnEnemy) -> MapEnemyName {
    match enemy {
        EnemySpawnEnemy::Goblin => MapEnemyName::Goblin,
        EnemySpawnEnemy::Imp => MapEnemyName::Imp,
        EnemySpawnEnemy::Aranea(_) => MapEnemyName::Aranea,
        EnemySpawnEnemy::AraneaQueen(_) => MapEnemyName::AraneaQueen,
        EnemySpawnEnemy::Defender => MapEnemyName::Defender,
        EnemySpawnEnemy::Seeker => MapEnemyName::Seeker,
        EnemySpawnEnemy::SeekerGenerator => MapEnemyName::SeekerGenerator,
        EnemySpawnEnemy::Sniper => MapEnemyName::Sniper,
        EnemySpawnEnemy::SniperGenerator => MapEnemyName::SniperGenerator,
        EnemySpawnEnemy::LaserGate => MapEnemyName::LaserGate,
    }
}

/// Each map enemy name spawns the enemy of the same name: the spawned
/// enemy's name is the entry's name, so two different names never spawn
/// the same kind of enemy; and an aranea or aranea queen guards the egg
/// whose id its entry gives.
pub proof fn law_spawn_keeps_the_name(name: MapEnemyName, other: MapEnemyName, egg: i32, other_egg: i32)
    ensures
        spawned_name(spec_spawn_enemy(name, egg)) == name,
        name != other ==> spec_spawn_enemy(name, egg) != spec_spawn_enemy(other, other_egg),
        name == MapEnemyName::Aranea ==> spec_spawn_enemy(name, egg) == EnemySpawnEnemy::Aranea(Id { id: egg }),
        name == MapEnemyName::AraneaQueen ==> spec_spawn_enemy(name, egg)
            == EnemySpawnEnemy::AraneaQueen(Id { id: egg }),
{
}

/// How the map entry with id `id` and the given properties is remembered:
/// its destruction is kept if any property says so.
pub fn spawn_persist(id: i32, properties: &Option<Vec<MapEnemySpawnProperty>>) -> (persist: EnemySpawnPersist)
    ensures
        persist.id == (Id { id }),
        persist.persist_destruction <==> (properties matches Some(list) && exists|i: int|
            0 <= i < list.len() && list[i] == MapEnemySpawnProperty::PersistDestruction),
{
    let persist_destruction = match properties {
        None => false,
        Some(list) => {
            let mut found = false;
            let mut i: usize = 0;
            while i < list.len()
                invariant
                    i <= list.len(),
                    found <==> exists|j: int|
                        0 <= j < i && list[j] == MapEnemySpawnProperty::PersistDestruction,
                decreases list.len() - i,
            {
                if list[i] == MapEnemySpawnProperty::PersistDestruction {
                    found = true;
                }
                i = i + 1;
            }
            found
        },
    };
    EnemySpawnPersist { id: Id { id }, persist_destruction }
}

} // verus!
