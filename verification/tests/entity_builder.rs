use deeper_physics::{
    snapshot, validate_physics_entities, Acceleration, Components, DynamicBody, EntityBuilder,
    EntityRow, Orientation, Position, Scalar, StaticBody, Vec2, Velocity,
};
use legion::{Entity, World};

fn scalar(x: f32) -> Scalar {
    Scalar::from_bits(x.to_bits())
}

fn vec2(x: f32, y: f32) -> Vec2 {
    Vec2::new(scalar(x), scalar(y))
}

fn components_of(world: &World, entity: Entity) -> Components {
    let rows = snapshot(world);
    let found: Vec<&EntityRow> = rows.iter().filter(|row| row.entity == entity).collect();
    assert_eq!(found.len(), 1);
    found[0].components
}

#[test]
fn new_entity_carries_nothing_until_it_is_built() {
    let mut world = World::default();
    let builder = EntityBuilder::new(&mut world).position(vec2(1.0, 2.0));
    let entity = builder.entity();
    assert!(world.contains(entity));
    assert_eq!(components_of(&world, entity), Components::empty());
    assert_eq!(builder.build(&mut world), entity);
    assert_eq!(
        components_of(&world, entity),
        Components { position: Some(Position(vec2(1.0, 2.0))), ..Components::empty() }
    );
}

#[test]
fn built_entity_has_every_staged_component() {
    let mut world = World::default();
    let other = world.push((StaticBody, Position(vec2(9.0, 9.0))));
    let entity = EntityBuilder::new(&mut world)
        .position(vec2(1.0, 2.0))
        .velocity(vec2(3.0, 4.0))
        .orientation(scalar(90.0))
        .dynamic_body(scalar(2.0))
        .agent(Acceleration(scalar(5.0)))
        .build(&mut world);
    assert_eq!(
        components_of(&world, entity),
        Components {
            position: Some(Position(vec2(1.0, 2.0))),
            velocity: Some(Velocity(vec2(3.0, 4.0))),
            orientation: Some(Orientation(scalar(90.0))),
            dynamic_body: Some(DynamicBody { mass: scalar(2.0) }),
            acceleration: Some(Acceleration(scalar(5.0))),
            ..Components::empty()
        }
    );
    assert_eq!(
        components_of(&world, other),
        Components {
            static_body: Some(StaticBody),
            position: Some(Position(vec2(9.0, 9.0))),
            ..Components::empty()
        }
    );
    assert_eq!(validate_physics_entities(&snapshot(&world)), Ok(()));
}

#[test]
fn component_staged_twice_has_its_last_value() {
    let mut world = World::default();
    let entity = EntityBuilder::new(&mut world)
        .position(vec2(1.0, 2.0))
        .position(vec2(3.0, 4.0))
        .build(&mut world);
    assert_eq!(components_of(&world, entity).position, Some(Position(vec2(3.0, 4.0))));
}

#[test]
fn two_builders_build_two_entities() {
    let mut world = World::default();
    let first = EntityBuilder::new(&mut world).dynamic_body(scalar(1.0));
    let second = EntityBuilder::new(&mut world).velocity(vec2(1.0, 1.0));
    assert_ne!(first.entity(), second.entity());
    let a = first.build(&mut world);
    let b = second.build(&mut world);
    assert_eq!(world.len(), 2);
    assert_eq!(components_of(&world, a).dynamic_body, Some(DynamicBody { mass: scalar(1.0) }));
    assert_eq!(components_of(&world, a).velocity, None);
    assert_eq!(components_of(&world, b).velocity, Some(Velocity(vec2(1.0, 1.0))));
}

#[test]
fn fresh_position_and_velocity_are_zero() {
    assert_eq!(Position::new(), Position(vec2(0.0, 0.0)));
    assert_eq!(Velocity::new(), Velocity(vec2(0.0, 0.0)));
}
