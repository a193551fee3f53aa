use deeper_physics::sweep::{has_keeper, has_owner, is_live};
use deeper_physics::{
    garbage, ArenaIndex, BodyHandle, ColliderHandle, Command, Components, EntityRow, ShapeKind,
    Sweep,
};
use legion::{Entity, World};

fn key(slot: usize) -> ArenaIndex {
    ArenaIndex { slot, generation: 1 }
}

fn body(slot: usize) -> Option<BodyHandle> {
    Some(BodyHandle(key(slot)))
}

fn collider(slot: usize) -> Option<ColliderHandle> {
    Some(ColliderHandle { index: key(slot), shape: ShapeKind::Circle })
}

fn entities(count: usize) -> Vec<Entity> {
    let mut world = World::default();
    (0..count).map(|_| world.push(())).collect()
}

fn row(entity: Entity, body_handle: Option<BodyHandle>, collider_handle: Option<ColliderHandle>) -> EntityRow {
    EntityRow { entity, components: Components { body_handle, collider_handle, ..Components::empty() } }
}

#[test]
fn settled_world_has_no_garbage() {
    let ids = entities(3);
    let rows = vec![row(ids[0], body(0), collider(0)), row(ids[1], body(1), None), row(ids[2], None, None)];
    let mut commands = Vec::new();
    let sweep = garbage(&rows, &vec![key(0), key(1)], &vec![key(0)], &mut commands);
    assert_eq!(sweep, Sweep { bodies: Vec::new(), colliders: Vec::new() });
    assert!(commands.is_empty());
}

#[test]
fn orphans_are_released() {
    let ids = entities(1);
    let rows = vec![row(ids[0], body(1), collider(4))];
    let mut commands = Vec::new();
    let sweep =
        garbage(&rows, &vec![key(0), key(1), key(2)], &vec![key(3), key(4), key(5)], &mut commands);
    assert_eq!(sweep.bodies, vec![key(0), key(2)]);
    assert_eq!(sweep.colliders, vec![key(3), key(5)]);
    assert!(commands.is_empty());
}

#[test]
fn key_of_another_generation_is_another_key() {
    let ids = entities(1);
    let rows = vec![row(ids[0], body(1), None)];
    let stale = ArenaIndex { slot: 1, generation: 2 };
    let mut commands = Vec::new();
    let sweep = garbage(&rows, &vec![stale], &Vec::new(), &mut commands);
    assert_eq!(sweep.bodies, vec![stale]);
    assert_eq!(commands, vec![Command::RemoveBodyHandle(ids[0])]);
}

#[test]
fn handles_that_name_nothing_are_taken_off() {
    let ids = entities(3);
    let rows = vec![row(ids[0], body(0), collider(0)), row(ids[1], body(1), collider(1)), row(ids[2], body(2), None)];
    let mut commands = vec![Command::RemoveColliderHandle(ids[2])];
    let sweep = garbage(&rows, &vec![key(0), key(1)], &vec![key(0)], &mut commands);
    assert_eq!(sweep, Sweep { bodies: Vec::new(), colliders: Vec::new() });
    assert_eq!(
        commands,
        vec![
            Command::RemoveColliderHandle(ids[2]),
            Command::RemoveColliderHandle(ids[1]),
            Command::RemoveBodyHandle(ids[2]),
        ]
    );
}

#[test]
fn collider_of_a_lost_body_is_released_and_taken_off() {
    let ids = entities(2);
    let rows = vec![row(ids[0], body(0), collider(0)), row(ids[1], None, collider(1))];
    let mut commands = Vec::new();
    let sweep = garbage(&rows, &Vec::new(), &vec![key(0), key(1)], &mut commands);
    assert_eq!(sweep.bodies, Vec::new());
    assert_eq!(sweep.colliders, vec![key(0), key(1)]);
    assert_eq!(
        commands,
        vec![
            Command::RemoveBodyHandle(ids[0]),
            Command::RemoveColliderHandle(ids[0]),
            Command::RemoveColliderHandle(ids[1]),
        ]
    );
}

#[test]
fn empty_store_makes_every_backend_resource_an_orphan() {
    let mut commands = Vec::new();
    let sweep = garbage(&Vec::new(), &vec![key(0), key(1)], &vec![key(2)], &mut commands);
    assert_eq!(sweep.bodies, vec![key(0), key(1)]);
    assert_eq!(sweep.colliders, vec![key(2)]);
    assert!(commands.is_empty());
}

#[test]
fn liveness_ownership_and_keeping() {
    let ids = entities(2);
    let rows = vec![row(ids[0], body(0), collider(5)), row(ids[1], body(1), collider(6))];
    let live = vec![key(0), key(3)];
    assert!(is_live(&live, key(0)));
    assert!(is_live(&live, key(3)));
    assert!(!is_live(&live, key(1)));
    assert!(!is_live(&Vec::new(), key(0)));
    assert!(has_owner(&rows, key(0)));
    assert!(has_owner(&rows, key(1)));
    assert!(!has_owner(&rows, key(5)));
    assert!(has_keeper(&rows, &live, key(5)));
    assert!(!has_keeper(&rows, &live, key(6)));
    assert!(!has_keeper(&rows, &live, key(0)));
}
