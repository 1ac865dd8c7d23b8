use my_engine::ecs::{Component, Entity, Scene};

#[derive(Debug)]
struct TestComponent {
    value: i32,
}

impl Component<TestComponent> for TestComponent {
    fn tag() -> u64 {
        1
    }

    fn stored(self) -> TestComponent {
        self
    }

    fn recovered(c: TestComponent) -> Option<TestComponent> {
        Some(c)
    }

    fn lemma_recover_stored(_x: TestComponent) {}

    fn kind() -> u64 {
        1
    }

    fn into_stored(self) -> TestComponent {
        self
    }

    fn downcast_ref(c: &TestComponent) -> Option<&TestComponent> {
        Some(c)
    }

    fn downcast_mut(c: &mut TestComponent) -> Option<&mut TestComponent> {
        Some(c)
    }
}

#[test]
fn test_entity_components() {
    let mut entity: Entity<TestComponent> = Entity::new(0, "Test".to_string());
    entity.add_component(TestComponent { value: 42 });

    assert!(entity.has_component::<TestComponent>());
    assert_eq!(entity.get_component::<TestComponent>().unwrap().value, 42);
}

#[test]
fn test_scene() {
    let mut scene: Scene<TestComponent> = Scene::new("Test Scene".to_string());
    let id = scene.create_entity("TestEntity".to_string());

    assert_eq!(scene.entity_count(), 1);
    assert!(scene.get_entity(id).is_some());
}

#[derive(Debug, Clone, Copy, PartialEq)]
struct Position {
    x: i32,
    y: i32,
}

#[derive(Debug, Clone, Copy, PartialEq)]
struct Marker;

/// Component store of the tests below: one variant per component type.
#[derive(Debug)]
enum Stored {
    Position(Position),
    Marker(Marker),
}

impl Component<Stored> for Position {
    fn tag() -> u64 {
        10
    }

    fn stored(self) -> Stored {
        Stored::Position(self)
    }

    fn recovered(c: Stored) -> Option<Position> {
        match c {
            Stored::Position(p) => Some(p),
            _ => None,
        }
    }

    fn lemma_recover_stored(_x: Position) {}

    fn kind() -> u64 {
        10
    }

    fn into_stored(self) -> Stored {
        Stored::Position(self)
    }

    fn downcast_ref(c: &Stored) -> Option<&Position> {
        match c {
            Stored::Position(p) => Some(p),
            _ => None,
        }
    }

    fn downcast_mut(c: &mut Stored) -> Option<&mut Position> {
        match c {
            Stored::Position(p) => Some(p),
            _ => None,
        }
    }
}

impl Component<Stored> for Marker {
    fn tag() -> u64 {
        20
    }

    fn stored(self) -> Stored {
        Stored::Marker(self)
    }

    fn recovered(c: Stored) -> Option<Marker> {
        match c {
            Stored::Marker(m) => Some(m),
            _ => None,
        }
    }

    fn lemma_recover_stored(_x: Marker) {}

    fn kind() -> u64 {
        20
    }

    fn into_stored(self) -> Stored {
        Stored::Marker(self)
    }

    fn downcast_ref(c: &Stored) -> Option<&Marker> {
        match c {
            Stored::Marker(m) => Some(m),
            _ => None,
        }
    }

    fn downcast_mut(c: &mut Stored) -> Option<&mut Marker> {
        match c {
            Stored::Marker(m) => Some(m),
            _ => None,
        }
    }
}

/// A component type that claims the tag of `Position` but is not stored as one.
#[derive(Debug)]
struct Impostor;

impl Component<Stored> for Impostor {
    fn tag() -> u64 {
        10
    }

    fn stored(self) -> Stored {
        Stored::Marker(Marker)
    }

    fn recovered(_c: Stored) -> Option<Impostor> {
        None
    }

    fn lemma_recover_stored(_x: Impostor) {}

    fn kind() -> u64 {
        10
    }

    fn into_stored(self) -> Stored {
        Stored::Marker(Marker)
    }

    fn downcast_ref(_c: &Stored) -> Option<&Impostor> {
        None
    }

    fn downcast_mut(_c: &mut Stored) -> Option<&mut Impostor> {
        None
    }
}

#[test]
fn ids_strictly_increase_across_removals() {
    let mut scene: Scene<Stored> = Scene::new("ids".to_string());
    let a = scene.create_entity("a".to_string());
    let b = scene.create_entity("b".to_string());
    assert!(scene.remove_entity(b));
    assert!(scene.remove_entity(a));
    let c = scene.create_entity("c".to_string());
    let d = scene.create_entity("d".to_string());
    assert_eq!((a, b, c, d), (0, 1, 2, 3));
    assert_eq!(scene.entity_count(), 2);
}

#[test]
fn second_component_of_a_type_replaces_the_first() {
    let mut e: Entity<Stored> = Entity::new(7, "e".to_string());
    e.add_component(Position { x: 1, y: 2 });
    e.add_component(Position { x: 3, y: 4 });
    assert_eq!(e.get_component::<Position>(), Some(&Position { x: 3, y: 4 }));
    assert!(!e.has_component::<Marker>());
}

#[test]
fn remove_entity_succeeds_once() {
    let mut scene: Scene<Stored> = Scene::new("s".to_string());
    let id = scene.create_entity("x".to_string());
    assert!(scene.remove_entity(id));
    assert!(!scene.remove_entity(id));
    assert!(scene.get_entity(id).is_none());
    assert!(!scene.remove_entity(99));
}

#[test]
fn active_entities_follow_the_flag_at_once() {
    let mut scene: Scene<Stored> = Scene::new("s".to_string());
    let a = scene.create_entity("a".to_string());
    let b = scene.create_entity("b".to_string());
    scene.get_entity_mut(a).unwrap().set_active(false);
    let active: Vec<u64> = scene.active_entities().iter().map(|e| e.id()).collect();
    assert_eq!(active, vec![b]);
    assert_eq!(scene.entities().len(), 2);
    scene.get_entity_mut(a).unwrap().set_active(true);
    let active: Vec<u64> = scene.active_entities().iter().map(|e| e.id()).collect();
    assert_eq!(active, vec![a, b]);
}

#[test]
fn marker_on_one_of_three_entities() {
    let mut scene: Scene<Stored> = Scene::new("s".to_string());
    let _a = scene.create_entity("A".to_string());
    let b = scene.create_entity("B".to_string());
    let _c = scene.create_entity("C".to_string());
    scene.get_entity_mut(b).unwrap().add_component(Marker);
    assert_eq!(scene.find_entities_with::<Marker>(), vec![b]);
    assert_eq!(scene.entity_count(), 3);
    assert!(scene.remove_entity(b));
    assert_eq!(scene.entity_count(), 2);
    assert!(scene.find_entities_with::<Marker>().is_empty());
}

#[test]
fn component_lookup_fails_closed_on_a_foreign_tag() {
    let mut e: Entity<Stored> = Entity::new(0, "e".to_string());
    e.add_component(Position { x: 5, y: 6 });
    assert!(!e.has_component::<Impostor>());
    assert!(e.get_component::<Impostor>().is_none());
    assert!(e.get_component_mut::<Impostor>().is_none());
    assert!(!e.remove_component::<Impostor>());
    assert_eq!(e.get_component::<Position>(), Some(&Position { x: 5, y: 6 }));
}

#[test]
fn component_changed_in_place() {
    let mut e: Entity<Stored> = Entity::new(0, "e".to_string());
    assert!(e.get_component_mut::<Position>().is_none());
    e.add_component(Position { x: 0, y: 0 });
    e.get_component_mut::<Position>().unwrap().x = 9;
    assert_eq!(e.get_component::<Position>(), Some(&Position { x: 9, y: 0 }));
}

#[test]
fn remove_component_reports_presence() {
    let mut e: Entity<Stored> = Entity::new(0, "e".to_string());
    e.add_component(Marker);
    e.add_component(Position { x: 1, y: 1 });
    assert!(e.remove_component::<Marker>());
    assert!(!e.remove_component::<Marker>());
    assert!(!e.has_component::<Marker>());
    assert!(e.has_component::<Position>());
}

#[test]
fn entity_accessors() {
    let mut e: Entity<Stored> = Entity::new(12, "Player".to_string());
    assert_eq!(e.id(), 12);
    assert_eq!(e.name(), "Player");
    assert!(e.is_active());
    e.set_active(false);
    assert!(!e.is_active());
}

#[test]
fn clear_restarts_ids() {
    let mut scene: Scene<Stored> = Scene::new("Level".to_string());
    assert_eq!(scene.name(), "Level");
    scene.create_entity("a".to_string());
    scene.create_entity("b".to_string());
    scene.clear();
    assert_eq!(scene.entity_count(), 0);
    assert_eq!(scene.create_entity("c".to_string()), 0);
}

#[test]
fn entities_in_ascending_id_order() {
    let mut scene: Scene<Stored> = Scene::new("s".to_string());
    for name in ["a", "b", "c", "d"] {
        scene.create_entity(name.to_string());
    }
    scene.remove_entity(1);
    let names: Vec<&str> = scene.entities().iter().map(|e| e.name()).collect();
    assert_eq!(names, vec!["a", "c", "d"]);
}

#[test]
fn entities_changed_through_entities_mut() {
    let mut scene: Scene<Stored> = Scene::new("s".to_string());
    let a = scene.create_entity("a".to_string());
    let b = scene.create_entity("b".to_string());
    for e in scene.entities_mut() {
        e.add_component(Marker);
    }
    assert_eq!(scene.find_entities_with::<Marker>(), vec![a, b]);
    assert!(scene.find_entities_with::<Position>().is_empty());
}

#[test]
fn default_scene_is_named() {
    let mut scene: Scene<Stored> = Scene::default();
    assert_eq!(scene.name(), "Default Scene");
    assert_eq!(scene.entity_count(), 0);
    assert_eq!(scene.create_entity("first".to_string()), 0);
}
