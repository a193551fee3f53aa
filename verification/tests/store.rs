use deeper_physics::store::{apply_command, read_components};
use deeper_physics::{
    flush_command_buffer, snapshot, Acceleration, ArenaIndex, BodyHandle, CircleCollider,
    ColliderHandle, Command, Components, DisabledBody, DynamicBody, EntityRow, Force,
    Orientation, Position, Scalar, ShapeKind, Speed, SquareCollider, StaticBody, Vec2, Velocity,
};
use legion::{Entity, EntityStore, World};

fn scalar(x: f32) -> Scalar {
    Scalar::from_bits(x.to_bits())
}

fn vec2(x: f32, y: f32) -> Vec2 {
    Vec2::new(scalar(x), scalar(y))
}

fn row_of(rows: &[EntityRow], entity: Entity) -> Components {
    let found: Vec<&EntityRow> = rows.iter().filter(|row| row.entity == entity).collect();
    assert_eq!(found.len(), 1);
    found[0].components
}

fn body(slot: usize) -> BodyHandle {
    BodyHandle(ArenaIndex { slot, generation: 0 })
}

fn collider(slot: usize, shape: ShapeKind) -> ColliderHandle {
    ColliderHandle { index: ArenaIndex { slot, generation: 7 }, shape }
}

#[test]
fn snapshot_of_an_empty_world_is_empty() {
    let world = World::default();
    assert!(snapshot(&world).is_empty());
}

#[test]
fn snapshot_lists_every_entity_once() {
    let mut world = World::default();
    let a = world.push((Position(vec2(1.0, 2.0)),));
    let b = world.push((Position(vec2(3.0, 4.0)), Velocity(vec2(5.0, 6.0))));
    let c = world.push(());
    let d = world.push((StaticBody, Position(vec2(0.0, 0.0))));
    let rows = snapshot(&world);
    assert_eq!(rows.len(), 4);
    for entity in [a, b, c, d] {
        row_of(&rows, entity);
    }
}

#[test]
fn snapshot_reads_every_component() {
    let mut world = World::default();
    let entity = world.push((
        Position(vec2(1.0, 2.0)),
        Velocity(vec2(3.0, 4.0)),
        Orientation(scalar(5.0)),
        Speed(scalar(6.0)),
        Acceleration(scalar(7.0)),
        Force(vec2(8.0, 9.0)),
        DynamicBody { mass: scalar(10.0) },
    ));
    {
        let mut entry = world.entry(entity).unwrap();
        entry.add_component(StaticBody);
        entry.add_component(DisabledBody);
        entry.add_component(CircleCollider { radius: scalar(11.0) });
        entry.add_component(SquareCollider { side_length: scalar(12.0) });
        entry.add_component(body(13));
        entry.add_component(collider(14, ShapeKind::Square));
    }
    let rows = snapshot(&world);
    assert_eq!(
        row_of(&rows, entity),
        Components {
            position: Some(Position(vec2(1.0, 2.0))),
            velocity: Some(Velocity(vec2(3.0, 4.0))),
            orientation: Some(Orientation(scalar(5.0))),
            speed: Some(Speed(scalar(6.0))),
            acceleration: Some(Acceleration(scalar(7.0))),
            force: Some(Force(vec2(8.0, 9.0))),
            dynamic_body: Some(DynamicBody { mass: scalar(10.0) }),
            static_body: Some(StaticBody),
            disabled_body: Some(DisabledBody),
            circle_collider: Some(CircleCollider { radius: scalar(11.0) }),
            square_collider: Some(SquareCollider { side_length: scalar(12.0) }),
            body_handle: Some(body(13)),
            collider_handle: Some(collider(14, ShapeKind::Square)),
        }
    );
}

#[test]
fn snapshot_of_a_bare_entity_is_empty_components() {
    let mut world = World::default();
    let entity = world.push(());
    assert_eq!(row_of(&snapshot(&world), entity), Components::empty());
}

#[test]
fn snapshot_does_not_see_later_changes() {
    let mut world = World::default();
    let entity = world.push((Position(vec2(1.0, 2.0)),));
    let rows = snapshot(&world);
    apply_command(&mut world, Command::SetPosition(entity, Position(vec2(9.0, 9.0))));
    assert_eq!(row_of(&rows, entity).position, Some(Position(vec2(1.0, 2.0))));
    assert_eq!(row_of(&snapshot(&world), entity).position, Some(Position(vec2(9.0, 9.0))));
}

#[test]
fn add_body_handle_adds_and_replaces() {
    let mut world = World::default();
    let entity = world.push((StaticBody,));
    let other = world.push((StaticBody,));
    apply_command(&mut world, Command::AddBodyHandle(entity, body(1)));
    let rows = snapshot(&world);
    assert_eq!(
        row_of(&rows, entity),
        Components { static_body: Some(StaticBody), body_handle: Some(body(1)), ..Components::empty() }
    );
    assert_eq!(
        row_of(&rows, other),
        Components { static_body: Some(StaticBody), ..Components::empty() }
    );
    apply_command(&mut world, Command::AddBodyHandle(entity, body(2)));
    assert_eq!(row_of(&snapshot(&world), entity).body_handle, Some(body(2)));
    assert_eq!(world.entry_ref(entity).unwrap().get_component::<BodyHandle>(), Ok(&body(2)));
}

#[test]
fn remove_body_handle_removes_only_that() {
    let mut world = World::default();
    let entity = world.push((StaticBody, body(1), collider(2, ShapeKind::Circle)));
    apply_command(&mut world, Command::RemoveBodyHandle(entity));
    assert_eq!(
        row_of(&snapshot(&world), entity),
        Components {
            static_body: Some(StaticBody),
            collider_handle: Some(collider(2, ShapeKind::Circle)),
            ..Components::empty()
        }
    );
    apply_command(&mut world, Command::RemoveBodyHandle(entity));
    assert_eq!(row_of(&snapshot(&world), entity).body_handle, None);
}

#[test]
fn collider_handle_commands_add_replace_and_remove() {
    let mut world = World::default();
    let entity = world.push((body(1),));
    apply_command(&mut world, Command::AddColliderHandle(entity, collider(3, ShapeKind::Circle)));
    assert_eq!(
        row_of(&snapshot(&world), entity).collider_handle,
        Some(collider(3, ShapeKind::Circle))
    );
    apply_command(&mut world, Command::AddColliderHandle(entity, collider(4, ShapeKind::Square)));
    assert_eq!(
        row_of(&snapshot(&world), entity),
        Components {
            body_handle: Some(body(1)),
            collider_handle: Some(collider(4, ShapeKind::Square)),
            ..Components::empty()
        }
    );
    apply_command(&mut world, Command::RemoveColliderHandle(entity));
    assert_eq!(
        row_of(&snapshot(&world), entity),
        Components { body_handle: Some(body(1)), ..Components::empty() }
    );
}

#[test]
fn kinematic_commands_set_their_component() {
    let mut world = World::default();
    let entity = world.push((
        Position(vec2(0.0, 0.0)),
        Velocity(vec2(0.0, 0.0)),
        Orientation(scalar(0.0)),
    ));
    apply_command(&mut world, Command::SetPosition(entity, Position(vec2(1.0, 2.0))));
    apply_command(&mut world, Command::SetVelocity(entity, Velocity(vec2(3.0, 4.0))));
    apply_command(&mut world, Command::SetOrientation(entity, Orientation(scalar(5.0))));
    assert_eq!(
        row_of(&snapshot(&world), entity),
        Components {
            position: Some(Position(vec2(1.0, 2.0))),
            velocity: Some(Velocity(vec2(3.0, 4.0))),
            orientation: Some(Orientation(scalar(5.0))),
            ..Components::empty()
        }
    );
}

#[test]
fn command_for_a_removed_entity_changes_nothing() {
    let mut world = World::default();
    let entity = world.push((StaticBody,));
    let gone = world.push((StaticBody,));
    assert!(world.remove(gone));
    for command in [
        Command::AddBodyHandle(gone, body(1)),
        Command::RemoveBodyHandle(gone),
        Command::AddColliderHandle(gone, collider(1, ShapeKind::Circle)),
        Command::RemoveColliderHandle(gone),
        Command::SetPosition(gone, Position(vec2(1.0, 1.0))),
        Command::SetVelocity(gone, Velocity(vec2(1.0, 1.0))),
        Command::SetOrientation(gone, Orientation(scalar(1.0))),
    ] {
        assert_eq!(command.entity(), gone);
        apply_command(&mut world, command);
    }
    let rows = snapshot(&world);
    assert_eq!(rows.len(), 1);
    assert_eq!(
        row_of(&rows, entity),
        Components { static_body: Some(StaticBody), ..Components::empty() }
    );
}

#[test]
fn flush_applies_commands_in_order_and_empties_the_buffer() {
    let mut world = World::default();
    let a = world.push((StaticBody,));
    let b = world.push((StaticBody, body(5)));
    let mut commands = vec![
        Command::AddBodyHandle(a, body(1)),
        Command::RemoveBodyHandle(b),
        Command::AddBodyHandle(a, body(2)),
        Command::AddBodyHandle(b, body(3)),
        Command::RemoveBodyHandle(b),
    ];
    flush_command_buffer(&mut world, &mut commands);
    assert!(commands.is_empty());
    let rows = snapshot(&world);
    assert_eq!(rows.len(), 2);
    assert_eq!(row_of(&rows, a).body_handle, Some(body(2)));
    assert_eq!(row_of(&rows, b).body_handle, None);
}

#[test]
fn flush_of_an_empty_buffer_changes_nothing() {
    let mut world = World::default();
    let entity = world.push((StaticBody, body(5)));
    let before = snapshot(&world);
    let mut commands = Vec::new();
    flush_command_buffer(&mut world, &mut commands);
    assert_eq!(row_of(&snapshot(&world), entity), row_of(&before, entity));
}

#[test]
fn components_of_one_entity_are_read() {
    let mut world = World::default();
    let entity = world.push((StaticBody, Position(vec2(1.0, 2.0)), body(3)));
    let gone = world.push((StaticBody,));
    assert!(world.remove(gone));
    assert_eq!(
        read_components(&world, entity),
        Some(Components {
            static_body: Some(StaticBody),
            position: Some(Position(vec2(1.0, 2.0))),
            body_handle: Some(body(3)),
            ..Components::empty()
        })
    );
    assert_eq!(read_components(&world, gone), None);
}

#[test]
fn tags_can_be_added_by_command() {
    let mut world = World::default();
    let entity = world.push((Position(vec2(1.0, 2.0)),));
    apply_command(&mut world, Command::AddDynamicBody(entity, DynamicBody { mass: scalar(3.0) }));
    apply_command(&mut world, Command::AddAcceleration(entity, Acceleration(scalar(4.0))));
    apply_command(&mut world, Command::AddDynamicBody(entity, DynamicBody { mass: scalar(5.0) }));
    assert_eq!(
        read_components(&world, entity),
        Some(Components {
            position: Some(Position(vec2(1.0, 2.0))),
            dynamic_body: Some(DynamicBody { mass: scalar(5.0) }),
            acceleration: Some(Acceleration(scalar(4.0))),
            ..Components::empty()
        })
    );
}
