use longinus::ecs::Id;
use longinus::load_map::{
    find_egg_id, layer_named, needs_egg_id, spawn_enemy, spawn_persist, translation_vector_from_index, ColliderLayer,
    EnemySpawnEnemy, MapEnemyName, MapEnemySpawnProperty, WallKind, WallTile,
};

fn layer(name: &str, data: Vec<i32>, width: i32, height: i32) -> ColliderLayer {
    ColliderLayer { data, height, width, name: name.to_string() }
}

#[test]
fn tile_cell_counts_rows_from_the_bottom() {
    assert_eq!(translation_vector_from_index(0, 4, 3), (0, 3));
    assert_eq!(translation_vector_from_index(5, 4, 3), (1, 2));
    assert_eq!(translation_vector_from_index(11, 4, 3), (3, 1));
}

#[test]
fn collider_layer_lists_its_walls_in_order() {
    let l = layer("Colliders", vec![0, 1, 0, 2, 3, 0], 3, 2);
    let walls = ColliderLayer::into(&l);
    assert_eq!(
        walls,
        vec![
            WallTile { index: 1, column: 1, row: 2, kind: WallKind::Solid },
            WallTile { index: 3, column: 0, row: 1, kind: WallKind::Destructible },
            WallTile { index: 4, column: 1, row: 1, kind: WallKind::Damaging },
        ]
    );
}

#[test]
fn empty_collider_layer_has_no_walls() {
    assert!(ColliderLayer::into(&layer("Colliders", vec![0, 0, 0, 0], 2, 2)).is_empty());
    assert!(ColliderLayer::into(&layer("Colliders", vec![], 2, 0)).is_empty());
}

#[test]
fn layer_named_finds_the_first_match() {
    let layers = vec![
        layer("TilesBG", vec![9], 1, 1),
        layer("Colliders", vec![1], 1, 1),
        layer("Colliders", vec![2], 1, 1),
    ];
    let found = layer_named(&layers, &"Colliders".to_string()).unwrap();
    assert_eq!(found.data, vec![1]);
    assert!(layer_named(&layers, &"Tiles".to_string()).is_none());
}

#[test]
fn spawn_enemy_maps_names() {
    assert_eq!(spawn_enemy(MapEnemyName::Goblin, &None), EnemySpawnEnemy::Goblin);
    assert_eq!(spawn_enemy(MapEnemyName::LaserGate, &None), EnemySpawnEnemy::LaserGate);
    assert_eq!(
        spawn_enemy(MapEnemyName::SniperGenerator, &Some(vec![])),
        EnemySpawnEnemy::SniperGenerator
    );
}

#[test]
fn araneae_take_the_first_egg_id() {
    let properties = Some(vec![
        MapEnemySpawnProperty::PersistDestruction,
        MapEnemySpawnProperty::AraneaEggId(12),
        MapEnemySpawnProperty::AraneaEggId(13),
    ]);
    assert_eq!(
        spawn_enemy(MapEnemyName::Aranea, &properties),
        EnemySpawnEnemy::Aranea(Id { id: 12 })
    );
    assert_eq!(
        spawn_enemy(MapEnemyName::AraneaQueen, &properties),
        EnemySpawnEnemy::AraneaQueen(Id { id: 12 })
    );
}

#[test]
fn aranea_without_egg_is_detected() {
    assert!(needs_egg_id(MapEnemyName::Aranea));
    assert!(needs_egg_id(MapEnemyName::AraneaQueen));
    assert!(!needs_egg_id(MapEnemyName::Goblin));
    assert_eq!(find_egg_id(&None), None);
    assert_eq!(find_egg_id(&Some(vec![MapEnemySpawnProperty::PersistDestruction])), None);
    assert_eq!(
        find_egg_id(&Some(vec![MapEnemySpawnProperty::PersistDestruction, MapEnemySpawnProperty::AraneaEggId(4)])),
        Some(4)
    );
}

#[test]
fn persistence_follows_the_property() {
    let p = spawn_persist(5, &Some(vec![MapEnemySpawnProperty::AraneaEggId(1), MapEnemySpawnProperty::PersistDestruction]));
    assert_eq!(p.id, Id { id: 5 });
    assert!(p.persist_destruction);
    assert!(!spawn_persist(6, &Some(vec![MapEnemySpawnProperty::AraneaEggId(1)])).persist_destruction);
    assert!(!spawn_persist(7, &None).persist_destruction);
}
