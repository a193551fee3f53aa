use deeper_physics::{
    begin_tick, end_body_pass, end_collider_pass, end_tick, run_sweep, snapshot, ArenaIndex,
    BodyDescriptor, BodyHandle, BodyReading, BodyRequest, CircleCollider, ColliderRequest,
    Components, DynamicBody, EntityRow, KinematicState, KinematicUpdate, Orientation, Position,
    Scalar, Shape, SquareCollider, StaticBody, Vec2, Velocity,
};
use legion::{Entity, World};
use nphysics2d::algebra::{Force2, ForceType};
use nphysics2d::force_generator::DefaultForceGeneratorSet;
use nphysics2d::joint::DefaultJointConstraintSet;
use nphysics2d::nalgebra::{Isometry2, Vector2};
use nphysics2d::ncollide2d::shape::{Ball, Cuboid, ShapeHandle};
use nphysics2d::object::{
    Body, BodyPartHandle, BodyStatus, ColliderDesc, DefaultBodyHandle, DefaultBodySet,
    DefaultColliderSet, RigidBodyDesc,
};
use nphysics2d::world::{DefaultGeometricalWorld, DefaultMechanicalWorld};

fn scalar(x: f32) -> Scalar {
    Scalar::from_bits(x.to_bits())
}

fn number(x: Scalar) -> f32 {
    f32::from_bits(x.to_bits())
}

fn vec2(x: f32, y: f32) -> Vec2 {
    Vec2::new(scalar(x), scalar(y))
}

fn key_of(handle: DefaultBodyHandle) -> ArenaIndex {
    let (slot, generation) = handle.into_raw_parts();
    ArenaIndex { slot, generation }
}

fn handle_of(key: ArenaIndex) -> DefaultBodyHandle {
    DefaultBodyHandle::from_raw_parts(key.slot, key.generation)
}

fn components_of(world: &World, entity: Entity) -> Components {
    let rows = snapshot(world);
    let found: Vec<&EntityRow> = rows.iter().filter(|row| row.entity == entity).collect();
    assert_eq!(found.len(), 1);
    found[0].components
}

struct Physics {
    mechanical_world: DefaultMechanicalWorld<f32>,
    geometrical_world: DefaultGeometricalWorld<f32>,
    bodies: DefaultBodySet<f32>,
    colliders: DefaultColliderSet<f32>,
    joint_constraints: DefaultJointConstraintSet<f32>,
    force_generators: DefaultForceGeneratorSet<f32>,
    push: Vector2<f32>,
}

fn physics() -> Physics {
    Physics {
        mechanical_world: DefaultMechanicalWorld::new(Vector2::new(0.0, 0.0)),
        geometrical_world: DefaultGeometricalWorld::new(),
        bodies: DefaultBodySet::new(),
        colliders: DefaultColliderSet::new(),
        joint_constraints: DefaultJointConstraintSet::new(),
        force_generators: DefaultForceGeneratorSet::new(),
        push: Vector2::new(0.0, 0.0),
    }
}

fn insert_body(physics: &mut Physics, request: &BodyRequest) -> Option<ArenaIndex> {
    let body = match request.descriptor {
        BodyDescriptor::Dynamic { mass, gravity_enabled } => RigidBodyDesc::<f32>::new()
            .status(BodyStatus::Dynamic)
            .gravity_enabled(gravity_enabled)
            .mass(number(mass)),
        BodyDescriptor::Static => RigidBodyDesc::<f32>::new().status(BodyStatus::Static),
        BodyDescriptor::Disabled => RigidBodyDesc::<f32>::new().status(BodyStatus::Disabled),
    };
    let place = match request.position {
        Some(position) => Vector2::new(number(position.0.x), number(position.0.y)),
        None => Vector2::new(0.0, 0.0),
    };
    let angle = match request.orientation {
        Some(orientation) => number(orientation.0).to_radians(),
        None => 0.0,
    };
    Some(key_of(physics.bodies.insert(body.position(Isometry2::new(place, angle)).build())))
}

fn insert_collider(physics: &mut Physics, request: &ColliderRequest) -> Option<ArenaIndex> {
    if let Some(old) = request.replaces {
        physics.colliders.remove(handle_of(old.index));
    }
    let shape = match request.shape {
        Shape::Ball { radius } => ShapeHandle::new(Ball::new(number(radius))),
        Shape::Square { side_length } => {
            let half = number(side_length) / 2.0;
            ShapeHandle::new(Cuboid::new(Vector2::new(half, half)))
        },
    };
    let collider =
        ColliderDesc::<f32>::new(shape).build(BodyPartHandle(handle_of(request.body.0), 0));
    Some(key_of(physics.colliders.insert(collider)))
}

fn set_kinematic_state(physics: &mut Physics, update: &KinematicUpdate) {
    if let Some(body) = physics.bodies.rigid_body_mut(handle_of(update.handle.0)) {
        let position = Vector2::new(number(update.state.position.x), number(update.state.position.y));
        body.set_position(Isometry2::new(position, number(update.state.orientation).to_radians()));
        body.set_linear_velocity(Vector2::new(
            number(update.state.velocity.x),
            number(update.state.velocity.y),
        ));
    }
}

fn readings(physics: &Physics) -> Vec<BodyReading> {
    let mut readings = Vec::new();
    for (handle, _) in physics.bodies.iter() {
        if let Some(body) = physics.bodies.rigid_body(handle) {
            let at = body.position();
            let linear = body.velocity().linear;
            readings.push(BodyReading {
                handle: BodyHandle(key_of(handle)),
                state: KinematicState {
                    position: vec2(at.translation.vector.x, at.translation.vector.y),
                    velocity: vec2(linear.x, linear.y),
                    orientation: scalar(at.rotation.angle().to_degrees()),
                },
            });
        }
    }
    readings
}

fn run_tick(world: &mut World, physics: &mut Physics) -> Vec<Entity> {
    let pass = match begin_tick(world) {
        Ok(pass) => pass,
        Err(violation) => panic!("{}", violation.message()),
    };
    let replies: Vec<Option<ArenaIndex>> =
        pass.requests().iter().map(|request| insert_body(physics, request)).collect();
    let bodies = end_body_pass(pass, world, &replies);
    for handle in &bodies.released {
        physics.bodies.remove(handle_of(handle.0));
    }
    let replies: Vec<Option<ArenaIndex>> =
        bodies.next.requests().iter().map(|request| insert_collider(physics, request)).collect();
    let colliders = end_collider_pass(bodies.next, world, &replies);
    for handle in &colliders.released {
        physics.colliders.remove(handle_of(handle.index));
    }
    let live_bodies: Vec<ArenaIndex> =
        physics.bodies.iter().map(|(handle, _)| key_of(handle)).collect();
    let live_colliders: Vec<ArenaIndex> =
        physics.colliders.iter().map(|(handle, _)| key_of(handle)).collect();
    let swept = run_sweep(colliders.next, world, &live_bodies, &live_colliders);
    for key in &swept.release.bodies {
        physics.bodies.remove(handle_of(*key));
    }
    for key in &swept.release.colliders {
        physics.colliders.remove(handle_of(*key));
    }
    for update in &swept.updates {
        set_kinematic_state(physics, update);
        if let Some(body) = physics.bodies.rigid_body_mut(handle_of(update.handle.0)) {
            body.apply_force(0, &Force2::linear(physics.push), ForceType::Force, true);
        }
    }
    physics.mechanical_world.step(
        &mut physics.geometrical_world,
        &mut physics.bodies,
        &mut physics.colliders,
        &mut physics.joint_constraints,
        &mut physics.force_generators,
    );
    end_tick(swept.next, world, &readings(physics))
}

fn speed(world: &World, entity: Entity) -> f32 {
    let velocity = components_of(world, entity).velocity.unwrap().0;
    (number(velocity.x).powi(2) + number(velocity.y).powi(2)).sqrt()
}

#[test]
fn constant_force_speeds_a_dynamic_body_up_steadily() {
    let mut world = World::default();
    let mut physics = physics();
    physics.push = Vector2::new(4.0, 0.0);
    let entity = world.push((
        DynamicBody { mass: scalar(2.0) },
        Position(vec2(0.0, 0.0)),
        Velocity(vec2(0.0, 0.0)),
        Orientation(scalar(0.0)),
    ));
    let timestep = physics.mechanical_world.timestep();
    assert!((timestep - 1.0 / 60.0).abs() < 1.0e-6);
    let mut last = 0.0;
    let mut ticks = 0;
    while ticks < 30 {
        assert!(run_tick(&mut world, &mut physics).is_empty());
        ticks += 1;
        let now = speed(&world, entity);
        assert!(now > last);
        let expected = (4.0 / 2.0) * ticks as f32 * timestep;
        assert!((now - expected).abs() < 1.0e-3 * expected.max(1.0));
        last = now;
    }
    assert!((last - 1.0).abs() < 1.0e-3);
    let position = components_of(&world, entity).position.unwrap().0;
    assert!(number(position.x) > 0.0);
    assert_eq!(number(position.y), 0.0);
}

#[test]
fn backend_leaves_a_static_body_where_the_store_has_it() {
    let mut world = World::default();
    let mut physics = physics();
    physics.push = Vector2::new(4.0, 4.0);
    let fixed = world.push((StaticBody, Position(vec2(3.0, -2.0))));
    let moving = world.push((
        DynamicBody { mass: scalar(1.0) },
        Position(vec2(0.0, 0.0)),
        Velocity(vec2(1.0, 0.0)),
        Orientation(scalar(0.0)),
    ));
    let mut ticks = 0;
    while ticks < 10 {
        run_tick(&mut world, &mut physics);
        assert_eq!(components_of(&world, fixed).position, Some(Position(vec2(3.0, -2.0))));
        ticks += 1;
    }
    assert!(number(components_of(&world, moving).position.unwrap().0.x) > 0.1);
}

#[test]
fn bodies_and_colliders_are_built_as_described() {
    let mut world = World::default();
    let mut physics = physics();
    let round = world.push((
        DynamicBody { mass: scalar(2.0) },
        Position(vec2(0.0, 0.0)),
        Velocity(vec2(0.0, 0.0)),
        Orientation(scalar(0.0)),
        CircleCollider { radius: scalar(1.5) },
    ));
    let boxy = world.push((
        StaticBody,
        Position(vec2(10.0, 10.0)),
        SquareCollider { side_length: scalar(2.0) },
    ));
    run_tick(&mut world, &mut physics);
    let round_now = components_of(&world, round);
    let boxy_now = components_of(&world, boxy);

    let body = physics.bodies.rigid_body(handle_of(round_now.body_handle.unwrap().0)).unwrap();
    assert_eq!(body.status(), BodyStatus::Dynamic);
    assert!(!body.gravity_enabled());
    assert_eq!(physics.bodies.rigid_body(handle_of(boxy_now.body_handle.unwrap().0)).unwrap().status(), BodyStatus::Static);

    let fixed = physics.bodies.rigid_body(handle_of(boxy_now.body_handle.unwrap().0)).unwrap();
    assert_eq!(fixed.position().translation.vector, Vector2::new(10.0, 10.0));

    let ball = physics.colliders.get(handle_of(round_now.collider_handle.unwrap().index)).unwrap();
    assert_eq!(ball.shape().as_shape::<Ball<f32>>().unwrap().radius, 1.5);
    assert_eq!(key_of(ball.body()), round_now.body_handle.unwrap().0);
    let cuboid = physics.colliders.get(handle_of(boxy_now.collider_handle.unwrap().index)).unwrap();
    assert_eq!(
        cuboid.shape().as_shape::<Cuboid<f32>>().unwrap().half_extents,
        Vector2::new(1.0, 1.0)
    );
    assert_eq!(key_of(cuboid.body()), boxy_now.body_handle.unwrap().0);
}

#[test]
fn switching_shape_never_leaves_two_colliders() {
    let mut world = World::default();
    let mut physics = physics();
    let entity = world.push((
        StaticBody,
        Position(vec2(0.0, 0.0)),
        CircleCollider { radius: scalar(1.0) },
    ));
    run_tick(&mut world, &mut physics);
    let old = components_of(&world, entity).collider_handle.unwrap();
    assert_eq!(physics.colliders.iter().count(), 1);
    {
        let mut entry = world.entry(entity).unwrap();
        entry.remove_component::<CircleCollider>();
        entry.add_component(SquareCollider { side_length: scalar(2.0) });
    }
    run_tick(&mut world, &mut physics);
    let new = components_of(&world, entity).collider_handle.unwrap();
    assert_ne!(new, old);
    assert_eq!(physics.colliders.iter().count(), 1);
    assert!(physics.colliders.get(handle_of(old.index)).is_none());
    let cuboid = physics.colliders.get(handle_of(new.index)).unwrap();
    assert_eq!(
        cuboid.shape().as_shape::<Cuboid<f32>>().unwrap().half_extents,
        Vector2::new(1.0, 1.0)
    );
}

#[test]
fn removing_the_tag_releases_the_body_in_the_backend() {
    let mut world = World::default();
    let mut physics = physics();
    let entity = world.push((
        StaticBody,
        Position(vec2(0.0, 0.0)),
        CircleCollider { radius: scalar(1.0) },
    ));
    run_tick(&mut world, &mut physics);
    assert_eq!(physics.bodies.iter().count(), 1);
    world.entry(entity).unwrap().remove_component::<StaticBody>();
    run_tick(&mut world, &mut physics);
    assert_eq!(physics.bodies.iter().count(), 0);
    assert_eq!(physics.colliders.iter().count(), 0);
    assert_eq!(components_of(&world, entity).body_handle, None);
    assert_eq!(components_of(&world, entity).collider_handle, None);
}
