use simple_ecs::{ComponentAccess, Components, Entity, System, World};

#[allow(non_upper_case_globals)]
const positions_MASK: u32 = 1 << 1;
#[allow(non_upper_case_globals)]
const speeds_MASK: u32 = 1 << 2;
#[allow(non_upper_case_globals)]
const targets_MASK: u32 = 1 << 3;

#[derive(Clone, Copy, PartialEq, PartialOrd, Default)]
struct Vector2 {
    x: f32,
    y: f32,
}

#[derive(Clone, PartialEq, Default)]
pub struct Speed {
    val: Vector2,
}

#[derive(Clone, PartialEq, Default)]
pub struct Position {
    val: Vector2,
}

#[derive(Clone, PartialEq, Default)]
pub struct Target {
    val: Option<Entity>,
}

pub struct EntityData {
    speeds: Vec<Speed>,
    positions: Vec<Position>,
    targets: Vec<Target>,
}

impl Components for EntityData {
    fn slots(&self) -> usize {
        self.speeds.len()
    }

    fn new() -> EntityData {
        EntityData { speeds: Vec::new(), positions: Vec::new(), targets: Vec::new() }
    }

    fn extend(&mut self) {
        self.speeds.push(Default::default());
        self.positions.push(Default::default());
        self.targets.push(Default::default());
    }
}

impl ComponentAccess<EntityData> for Speed {
    fn spec_mask() -> u32 {
        speeds_MASK
    }
    fn column(comps: &EntityData) -> &Vec<Speed> {
        &comps.speeds
    }
    fn mask() -> u32 {
        speeds_MASK
    }
    fn get_data(comps: &EntityData) -> &Vec<Speed> {
        &comps.speeds
    }
    fn get_data_mut(comps: &mut EntityData) -> &mut Vec<Speed> {
        &mut comps.speeds
    }
    fn store_at(mut data: EntityData, index: usize, value: Speed) -> EntityData {
        data.speeds[index] = value;
        data
    }
    fn entry_mut(comps: &mut EntityData, index: usize) -> &mut Speed {
        &mut comps.speeds[index]
    }
}

impl ComponentAccess<EntityData> for Position {
    fn spec_mask() -> u32 {
        positions_MASK
    }
    fn column(comps: &EntityData) -> &Vec<Position> {
        &comps.positions
    }
    fn mask() -> u32 {
        positions_MASK
    }
    fn get_data(comps: &EntityData) -> &Vec<Position> {
        &comps.positions
    }
    fn get_data_mut(comps: &mut EntityData) -> &mut Vec<Position> {
        &mut comps.positions
    }
    fn store_at(mut data: EntityData, index: usize, value: Position) -> EntityData {
        data.positions[index] = value;
        data
    }
    fn entry_mut(comps: &mut EntityData, index: usize) -> &mut Position {
        &mut comps.positions[index]
    }
}

impl ComponentAccess<EntityData> for Target {
    fn spec_mask() -> u32 {
        targets_MASK
    }
    fn column(comps: &EntityData) -> &Vec<Target> {
        &comps.targets
    }
    fn mask() -> u32 {
        targets_MASK
    }
    fn get_data(comps: &EntityData) -> &Vec<Target> {
        &comps.targets
    }
    fn get_data_mut(comps: &mut EntityData) -> &mut Vec<Target> {
        &mut comps.targets
    }
    fn store_at(mut data: EntityData, index: usize, value: Target) -> EntityData {
        data.targets[index] = value;
        data
    }
    fn entry_mut(comps: &mut EntityData, index: usize) -> &mut Target {
        &mut comps.targets[index]
    }
}

#[derive(Clone, PartialEq)]
struct TestSystem;

impl System<EntityData, ()> for TestSystem {
    fn process(&mut self, interested: Vec<Entity>, world: &mut World<EntityData, ()>) {
        let mut count = 0;
        for e in interested.iter() {
            assert!(world.has::<Speed>(&e));
            assert!(world.has::<Position>(&e));
            count += 1;
        }
        assert_eq!(count, 5);
    }

    fn spec_entity_mask(&self) -> u32 {
        0 | speeds_MASK | positions_MASK
    }

    fn get_entity_mask(&self) -> u32 {
        0 | speeds_MASK | positions_MASK
    }
}

#[derive(Clone, PartialEq)]
struct TestSystem2;

impl System<EntityData, ()> for TestSystem2 {
    fn process(&mut self, interested: Vec<Entity>, world: &mut World<EntityData, ()>) {
        for e in interested.iter() {
            world.delete_entity(e);
            let entity = world.add_entity();
            world.add(&entity, Target { val: None });
            break;
        }
    }

    fn spec_entity_mask(&self) -> u32 {
        0 | speeds_MASK | positions_MASK
    }

    fn get_entity_mask(&self) -> u32 {
        0 | speeds_MASK | positions_MASK
    }
}

#[test]
fn tests_test_id_recycle() {
    let mut ecs: World<EntityData, ()> = World::new(());
    let mut systems: Vec<TestSystem> = Vec::new();
    let entity1 = ecs.add_entity();
    let entity2 = ecs.add_entity();

    assert!(ecs.entity_valid(&entity1));
    assert!(ecs.entity_valid(&entity2));

    ecs.delete_entity(&entity1);
    ecs.update(&mut systems);

    assert!(!ecs.entity_valid(&entity1));
    assert!(ecs.entity_valid(&entity2));

    let entity3 = ecs.add_entity();

    assert!(!ecs.entity_valid(&entity1));
    assert!(ecs.entity_valid(&entity2));
    assert!(ecs.entity_valid(&entity3));
    assert_eq!(entity3.version(), 1);
}

#[test]
fn tests_test_invalidation() {
    let mut ecs: World<EntityData, ()> = World::new(());
    let mut systems: Vec<TestSystem> = Vec::new();
    let entity1 = ecs.add_entity();
    let entity2 = ecs.add_entity();
    let entity1dup = entity1;

    assert!(ecs.entity_valid(&entity1dup));
    assert!(ecs.entity_valid(&entity1));
    assert!(ecs.entity_valid(&entity2));

    ecs.delete_entity(&entity1);
    ecs.update(&mut systems);

    assert!(!ecs.entity_valid(&entity1));
    assert!(!ecs.entity_valid(&entity1dup));
    assert!(ecs.entity_valid(&entity2));
}

#[test]
fn tests_component_add() {
    let mut ecs: World<EntityData, ()> = World::new(());
    let mut systems: Vec<TestSystem> = Vec::new();
    let entity1 = ecs.add_entity();

    assert!(!ecs.has::<Speed>(&entity1));
    ecs.add(&entity1, Speed { val: Vector2 { x: 0.0, y: 1.0 } });
    assert!(ecs.has::<Speed>(&entity1));
    ecs.update(&mut systems);
}

#[test]
fn tests_component_remove() {
    let mut ecs: World<EntityData, ()> = World::new(());
    let mut systems: Vec<TestSystem> = Vec::new();
    let entity1 = ecs.add_entity();

    assert!(!ecs.has::<Speed>(&entity1));
    assert!(!ecs.has::<Position>(&entity1));

    ecs.add(&entity1, Speed { val: Vector2 { x: 0.0, y: 1.0 } });

    assert!(ecs.has::<Speed>(&entity1));
    assert!(!ecs.has::<Position>(&entity1));

    ecs.add(&entity1, Position { val: Vector2 { x: 0.0, y: 1.0 } });

    assert!(ecs.has::<Speed>(&entity1));
    assert!(ecs.has::<Position>(&entity1));

    ecs.remove::<Speed>(&entity1);
    assert!(!ecs.has::<Speed>(&entity1));
    assert!(ecs.has::<Position>(&entity1));
    ecs.update(&mut systems);
}

#[test]
fn tests_component_remove_with_entity() {
    let mut ecs: World<EntityData, ()> = World::new(());
    let mut systems: Vec<TestSystem> = Vec::new();
    let entity1 = ecs.add_entity();
    ecs.add(&entity1, Speed { val: Vector2 { x: 0.0, y: 1.0 } });
    ecs.add(&entity1, Position { val: Vector2 { x: 0.0, y: 1.0 } });
    ecs.update(&mut systems);
    ecs.delete_entity(&entity1);

    let entity2 = ecs.add_entity();
    assert!(!ecs.has::<Speed>(&entity2));
    assert!(!ecs.has::<Position>(&entity2));
    ecs.update(&mut systems);
}

#[test]
fn tests_system_filter() {
    let mut ecs: World<EntityData, ()> = World::new(());
    let mut systems: Vec<TestSystem> = Vec::new();
    systems.push(TestSystem);

    for _ in 0..4 {
        let entity1 = ecs.add_entity();
        ecs.add(&entity1, Speed { val: Vector2 { x: 0.0, y: 1.0 } });
        ecs.add(&entity1, Position { val: Vector2 { x: 0.0, y: 1.0 } });
        ecs.add_entity();
    }

    let entity2 = ecs.add_entity();
    ecs.add(&entity2, Speed { val: Vector2 { x: 0.0, y: 1.0 } });

    let entity3 = ecs.add_entity();
    ecs.add(&entity3, Position { val: Vector2 { x: 0.0, y: 1.0 } });

    let entity4 = ecs.add_entity();
    ecs.add(&entity4, Position { val: Vector2 { x: 0.0, y: 1.0 } });
    ecs.add(&entity4, Target { val: None });

    let entity5 = ecs.add_entity();
    ecs.add(&entity5, Target { val: None });

    let entity6 = ecs.add_entity();
    ecs.add(&entity6, Target { val: None });
    ecs.add(&entity6, Speed { val: Vector2 { x: 0.0, y: 1.0 } });
    ecs.add(&entity6, Position { val: Vector2 { x: 0.0, y: 1.0 } });

    ecs.update(&mut systems);
    ecs.update(&mut systems);
}

#[test]
fn tests_system_add_remove_entities() {
    let mut ecs: World<EntityData, ()> = World::new(());
    let mut systems: Vec<TestSystem2> = Vec::new();
    systems.push(TestSystem2);

    for _ in 0..4 {
        let entity1 = ecs.add_entity();
        ecs.add(&entity1, Speed { val: Vector2 { x: 0.0, y: 1.0 } });
        ecs.add(&entity1, Position { val: Vector2 { x: 0.0, y: 1.0 } });
        ecs.add_entity();
    }

    let entity2 = ecs.add_entity();
    ecs.add(&entity2, Speed { val: Vector2 { x: 0.0, y: 1.0 } });

    let entity3 = ecs.add_entity();
    ecs.add(&entity3, Position { val: Vector2 { x: 0.0, y: 1.0 } });

    let entity4 = ecs.add_entity();
    ecs.add(&entity4, Position { val: Vector2 { x: 0.0, y: 1.0 } });
    ecs.add(&entity4, Target { val: None });

    let entity5 = ecs.add_entity();
    ecs.add(&entity5, Target { val: None });

    let entity6 = ecs.add_entity();
    ecs.add(&entity6, Target { val: None });
    ecs.add(&entity6, Speed { val: Vector2 { x: 0.0, y: 1.0 } });
    ecs.add(&entity6, Position { val: Vector2 { x: 0.0, y: 1.0 } });

    for _ in 0..12 {
        ecs.update(&mut systems);
    }

    for e in ecs.entities().iter() {
        if ecs.entity_valid(&e) {
            let success = !ecs.has::<Position>(&e) || !ecs.has::<Speed>(&e);
            assert!(success);
        }
    }
}
