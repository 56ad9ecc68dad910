use longinus::ecs::{
    ChainSegment, Component, ComponentSet, DestroyAfterFrames, DestroyOnCollision, Destroyed, Id,
    MapTransitionOnCollision, SaveMenuOnCollision, Terminal,
};

#[test]
fn new_component_set_holds_nothing() {
    let set: ComponentSet<&str> = ComponentSet::new();
    assert!(set.get(1).is_none());
    assert!(!set.contains(1));
}

#[test]
fn insert_then_get_gives_the_item() {
    let set = ComponentSet::new().insert(3, "save").insert(4, "destroyed");
    assert_eq!(set.get(3), Some(&"save"));
    assert_eq!(set.get(4), Some(&"destroyed"));
    assert!(set.get(5).is_none());
    assert!(set.contains(3));
}

#[test]
fn insert_keeps_the_first_item_of_a_kind() {
    let set = ComponentSet::new().insert(7, "first").insert(7, "second");
    assert_eq!(set.get(7), Some(&"first"));
}

#[test]
fn with_replaces_the_item_of_a_kind() {
    let set = ComponentSet::new().insert(7, "first").with(7, "second");
    assert_eq!(set.get(7), Some(&"second"));
}

#[test]
fn with_keeps_other_kinds() {
    let set = ComponentSet::new().insert(1, 10).insert(2, 20).with(1, 11);
    assert_eq!(set.get(1), Some(&11));
    assert_eq!(set.get(2), Some(&20));
}

#[test]
fn with_on_an_absent_kind_adds_it() {
    let set = ComponentSet::new().insert(1, 10).with(6, 60);
    assert_eq!(set.get(6), Some(&60));
    assert_eq!(set.get(1), Some(&10));
}

#[test]
fn component_kinds_are_distinct() {
    let kinds = [
        DestroyOnCollision::kind(),
        MapTransitionOnCollision::kind(),
        SaveMenuOnCollision::kind(),
        Destroyed::kind(),
        ChainSegment::kind(),
        DestroyAfterFrames::kind(),
        Id::kind(),
        Terminal::kind(),
    ];
    assert_eq!(kinds, [1, 2, 3, 4, 5, 6, 7, 8]);
}

#[test]
fn components_stored_by_their_kind() {
    let set = ComponentSet::new()
        .insert(DestroyAfterFrames::kind(), DestroyAfterFrames { frames: 30 })
        .insert(Destroyed::kind(), DestroyAfterFrames { frames: 1 });
    assert_eq!(set.get(DestroyAfterFrames::kind()).map(|c| c.frames), Some(30));
    let set = set.with(DestroyAfterFrames::kind(), DestroyAfterFrames { frames: 29 });
    assert_eq!(set.get(DestroyAfterFrames::kind()).map(|c| c.frames), Some(29));
    assert_eq!(set.get(Destroyed::kind()).map(|c| c.frames), Some(1));
}

#[test]
fn a_sequence_of_calls_keeps_the_last_with_else_the_first_insert() {
    let set = ComponentSet::new()
        .insert(1, "a")
        .with(1, "b")
        .insert(1, "c")
        .insert(2, "x")
        .insert(2, "y")
        .with(3, "p")
        .with(3, "q")
        .insert(3, "r");
    assert_eq!(set.get(1), Some(&"b"));
    assert_eq!(set.get(2), Some(&"x"));
    assert_eq!(set.get(3), Some(&"q"));
    assert!(set.get(4).is_none());
}
