use deeper_physics::{
    snapshot, validate_physics_entities, Acceleration, BodyKind, ComponentKind, DisabledBody,
    DynamicBody, Fault, Force, Orientation, Position, Scalar, Speed, StaticBody, Vec2, Velocity,
    Violation,
};
use legion::World;

fn scalar(x: f32) -> Scalar {
    Scalar::from_bits(x.to_bits())
}

fn vec2(x: f32, y: f32) -> Vec2 {
    Vec2::new(scalar(x), scalar(y))
}

fn violation_of(world: &World) -> Option<Violation> {
    validate_physics_entities(&snapshot(world)).err()
}

#[test]
fn dynamic_body_without_velocity_is_rejected() {
    let mut world = World::default();
    let entity = world.push((
        DynamicBody { mass: scalar(1.0) },
        Position(vec2(0.0, 0.0)),
        Orientation(scalar(0.0)),
    ));
    let rows = snapshot(&world);
    let violation = validate_physics_entities(&rows).unwrap_err();
    assert_eq!(
        violation,
        Violation {
            entity,
            body: BodyKind::Dynamic,
            fault: Fault::Missing(ComponentKind::Velocity),
        }
    );
    assert_eq!(violation.message(), "missing Velocity in DynamicBody");
}

#[test]
fn static_body_with_velocity_is_rejected() {
    let mut world = World::default();
    let entity = world.push((StaticBody, Position(vec2(1.0, 2.0)), Velocity(vec2(0.0, 0.0))));
    let rows = snapshot(&world);
    let violation = validate_physics_entities(&rows).unwrap_err();
    assert_eq!(
        violation,
        Violation {
            entity,
            body: BodyKind::Static,
            fault: Fault::Forbidden(ComponentKind::Velocity),
        }
    );
    assert_eq!(violation.message(), "StaticBody can't have a Velocity component");
}

#[test]
fn well_formed_world_passes_validation() {
    let mut world = World::default();
    world.push((
        DynamicBody { mass: scalar(2.0) },
        Position(vec2(0.0, 0.0)),
        Velocity(vec2(1.0, 0.0)),
        Orientation(scalar(90.0)),
        Speed(scalar(3.0)),
        Acceleration(scalar(1.0)),
    ));
    world.push((StaticBody, Position(vec2(4.0, 4.0)), Orientation(scalar(0.0))));
    world.push((DisabledBody,));
    world.push((Velocity(vec2(1.0, 1.0)),));
    world.push(());
    assert_eq!(validate_physics_entities(&snapshot(&world)), Ok(()));
}

#[test]
fn empty_world_passes_validation() {
    let world = World::default();
    assert_eq!(validate_physics_entities(&snapshot(&world)), Ok(()));
}

#[test]
fn dynamic_body_without_position_is_rejected() {
    let mut world = World::default();
    let entity = world.push((
        DynamicBody { mass: scalar(1.0) },
        Velocity(vec2(0.0, 0.0)),
        Orientation(scalar(0.0)),
    ));
    let violation = violation_of(&world).unwrap();
    assert_eq!(violation.entity, entity);
    assert_eq!(violation.body, BodyKind::Dynamic);
    assert_eq!(violation.fault, Fault::Missing(ComponentKind::Position));
    assert_eq!(violation.message(), "missing Position in DynamicBody");
}

#[test]
fn dynamic_body_without_orientation_is_rejected() {
    let mut world = World::default();
    let entity = world.push((
        DynamicBody { mass: scalar(1.0) },
        Position(vec2(0.0, 0.0)),
        Velocity(vec2(0.0, 0.0)),
    ));
    let violation = violation_of(&world).unwrap();
    assert_eq!(violation.entity, entity);
    assert_eq!(violation.fault, Fault::Missing(ComponentKind::Orientation));
    assert_eq!(violation.message(), "missing Orientation in DynamicBody");
}

#[test]
fn dynamic_body_that_is_also_static_is_rejected() {
    let mut world = World::default();
    let entity = world.push((
        DynamicBody { mass: scalar(1.0) },
        StaticBody,
        Position(vec2(0.0, 0.0)),
        Velocity(vec2(0.0, 0.0)),
        Orientation(scalar(0.0)),
    ));
    let violation = violation_of(&world).unwrap();
    assert_eq!(
        violation,
        Violation {
            entity,
            body: BodyKind::Dynamic,
            fault: Fault::Forbidden(ComponentKind::StaticBody),
        }
    );
    assert_eq!(violation.message(), "DynamicBody can't have a StaticBody component");
}

#[test]
fn dynamic_body_that_is_also_disabled_is_rejected() {
    let mut world = World::default();
    let entity = world.push((
        DynamicBody { mass: scalar(1.0) },
        DisabledBody,
        Position(vec2(0.0, 0.0)),
        Velocity(vec2(0.0, 0.0)),
        Orientation(scalar(0.0)),
    ));
    let violation = violation_of(&world).unwrap();
    assert_eq!(
        violation,
        Violation {
            entity,
            body: BodyKind::Dynamic,
            fault: Fault::Forbidden(ComponentKind::DisabledBody),
        }
    );
}

#[test]
fn missing_component_is_reported_before_a_forbidden_one() {
    let mut world = World::default();
    world.push((DynamicBody { mass: scalar(1.0) }, StaticBody, Position(vec2(0.0, 0.0))));
    let violation = violation_of(&world).unwrap();
    assert_eq!(violation.body, BodyKind::Dynamic);
    assert_eq!(violation.fault, Fault::Missing(ComponentKind::Velocity));
}

#[test]
fn static_body_without_position_is_rejected() {
    let mut world = World::default();
    let entity = world.push((StaticBody,));
    let violation = violation_of(&world).unwrap();
    assert_eq!(
        violation,
        Violation {
            entity,
            body: BodyKind::Static,
            fault: Fault::Missing(ComponentKind::Position),
        }
    );
    assert_eq!(violation.message(), "missing Position in StaticBody");
}

#[test]
fn static_body_with_speed_is_rejected() {
    let mut world = World::default();
    world.push((StaticBody, Position(vec2(0.0, 0.0)), Speed(scalar(1.0))));
    let violation = violation_of(&world).unwrap();
    assert_eq!(violation.fault, Fault::Forbidden(ComponentKind::Speed));
    assert_eq!(violation.message(), "StaticBody can't have a Speed component");
}

#[test]
fn static_body_with_acceleration_is_rejected() {
    let mut world = World::default();
    world.push((StaticBody, Position(vec2(0.0, 0.0)), Acceleration(scalar(1.0))));
    let violation = violation_of(&world).unwrap();
    assert_eq!(violation.fault, Fault::Forbidden(ComponentKind::Acceleration));
    assert_eq!(violation.message(), "StaticBody can't have a Acceleration component");
}

#[test]
fn static_body_with_force_is_rejected() {
    let mut world = World::default();
    world.push((StaticBody, Position(vec2(0.0, 0.0)), Force(vec2(0.0, 1.0))));
    let violation = violation_of(&world).unwrap();
    assert_eq!(violation.fault, Fault::Forbidden(ComponentKind::Force));
    assert_eq!(violation.message(), "StaticBody can't have a Force component");
}

#[test]
fn dynamic_bodies_are_checked_before_static_ones() {
    let mut world = World::default();
    world.push((StaticBody, Position(vec2(0.0, 0.0)), Velocity(vec2(0.0, 0.0))));
    let dynamic = world.push((DynamicBody { mass: scalar(1.0) },));
    world.push((StaticBody,));
    let violation = violation_of(&world).unwrap();
    assert_eq!(
        violation,
        Violation {
            entity: dynamic,
            body: BodyKind::Dynamic,
            fault: Fault::Missing(ComponentKind::Position),
        }
    );
}

#[test]
fn disabled_body_needs_nothing() {
    let mut world = World::default();
    world.push((DisabledBody, Velocity(vec2(1.0, 1.0)), Force(vec2(1.0, 1.0))));
    assert_eq!(violation_of(&world), None);
}
