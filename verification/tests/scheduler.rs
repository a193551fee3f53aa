use deeper_physics::{add_physics_systems, Stage};

#[test]
fn pipeline_has_the_fixed_order() {
    let mut schedule = Vec::new();
    add_physics_systems(&mut schedule);
    assert_eq!(
        schedule,
        vec![
            Stage::ValidatePhysicsEntities,
            Stage::MakeBodyHandles,
            Stage::RemoveBodyHandles,
            Stage::FlushCommandBuffer,
            Stage::MakeColliderHandles,
            Stage::RemoveColliderHandles,
            Stage::FlushCommandBuffer,
            Stage::Garbage,
            Stage::EntityWorldToPhysicsWorld,
            Stage::StepPhysicsWorld,
            Stage::PhysicsWorldToEntityWorld,
        ]
    );
}

#[test]
fn pipeline_has_eleven_stages() {
    let mut schedule = Vec::new();
    add_physics_systems(&mut schedule);
    assert_eq!(schedule.len(), 11);
    assert_eq!(schedule.iter().filter(|stage| **stage == Stage::FlushCommandBuffer).count(), 2);
}

#[test]
fn pipeline_is_appended_to_what_is_scheduled() {
    let mut schedule = vec![Stage::StepPhysicsWorld, Stage::Garbage];
    add_physics_systems(&mut schedule);
    assert_eq!(schedule.len(), 13);
    assert_eq!(schedule[0], Stage::StepPhysicsWorld);
    assert_eq!(schedule[1], Stage::Garbage);
    assert_eq!(schedule[2], Stage::ValidatePhysicsEntities);
    assert_eq!(schedule[12], Stage::PhysicsWorldToEntityWorld);
    add_physics_systems(&mut schedule);
    assert_eq!(schedule.len(), 24);
    assert_eq!(schedule[13], Stage::ValidatePhysicsEntities);
}

#[test]
fn a_barrier_follows_each_group_that_settles_handles() {
    let mut schedule = Vec::new();
    add_physics_systems(&mut schedule);
    let mut pending = false;
    for stage in schedule {
        if stage == Stage::FlushCommandBuffer {
            pending = false;
        } else {
            if stage == Stage::MakeColliderHandles
                || stage == Stage::Garbage
                || stage == Stage::EntityWorldToPhysicsWorld
                || stage == Stage::PhysicsWorldToEntityWorld
            {
                assert!(!pending);
            }
            if stage.stages_commands() {
                pending = true;
            }
        }
    }
    assert!(!pending);
}

#[test]
fn stages_that_leave_commands_for_a_barrier() {
    assert!(Stage::MakeBodyHandles.stages_commands());
    assert!(Stage::RemoveBodyHandles.stages_commands());
    assert!(Stage::MakeColliderHandles.stages_commands());
    assert!(Stage::RemoveColliderHandles.stages_commands());
    assert!(!Stage::Garbage.stages_commands());
    assert!(!Stage::PhysicsWorldToEntityWorld.stages_commands());
    assert!(!Stage::ValidatePhysicsEntities.stages_commands());
    assert!(!Stage::FlushCommandBuffer.stages_commands());
    assert!(!Stage::EntityWorldToPhysicsWorld.stages_commands());
    assert!(!Stage::StepPhysicsWorld.stages_commands());
}

#[test]
fn stages_that_read_the_store() {
    assert!(Stage::ValidatePhysicsEntities.reads_store());
    assert!(Stage::Garbage.reads_store());
    assert!(Stage::EntityWorldToPhysicsWorld.reads_store());
    assert!(Stage::PhysicsWorldToEntityWorld.reads_store());
    assert!(!Stage::FlushCommandBuffer.reads_store());
    assert!(!Stage::StepPhysicsWorld.reads_store());
}
