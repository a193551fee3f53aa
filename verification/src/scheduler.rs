//! The stages of a tick and their fixed order.

use vstd::prelude::*;

verus! {

/// The stages of a tick.
#[derive(Clone, Copy, Debug, PartialEq, Eq, Structural)]
pub enum Stage {
    /// Hold every physics entity to the rule of its body tag.
    ValidatePhysicsEntities,
    /// Ask for a body for each entity that has a body tag and no handle.
    MakeBodyHandles,
    /// Release the body of each entity that has a handle and no body tag.
    RemoveBodyHandles,
    /// The barrier: apply what the stages before it have left for it.
    FlushCommandBuffer,
    /// Ask for a collider for each entity that is owed one.
    MakeColliderHandles,
    /// Release the collider of each entity that is owed none.
    RemoveColliderHandles,
    /// Release what the backend holds for no entity, and take off the
    /// handles that name nothing. The stage applies this itself.
    Garbage,
    /// Push the kinematic state of the dynamic bodies into the backend.
    EntityWorldToPhysicsWorld,
    /// Advance the backend by one fixed timestep.
    StepPhysicsWorld,
    /// Pull the kinematic state of the dynamic bodies back. The stage
    /// applies this itself.
    PhysicsWorldToEntityWorld,
}

/// The eleven stages of a tick in their fixed order. A barrier follows each
/// of the two groups of stages that settle handles, so that the next stage
/// sees the handles settled.
pub open spec fn physics_pipeline() -> Seq<Stage> {
    seq![
        Stage::ValidatePhysicsEntities,
        Stage::MakeBodyHandles,
        Stage::RemoveBodyHandles,
        Stage::FlushCommandBuffer,
        Stage::MakeColliderHandles,
        Stage::RemoveColliderHandles,
        Stage::FlushCommandBuffer,
        Stage::Garbage,
        Stage::EntityWorldToPhysicsWorld,
        Stage::StepPhysicsWorld,
        Stage::PhysicsWorldToEntityWorld,
    ]
}

impl Stage {
    /// The stage leaves commands for the next barrier to apply.
    pub open spec fn stages_commands_spec(self) -> bool {
        match self {
            Stage::MakeBodyHandles
            | Stage::RemoveBodyHandles
            | Stage::MakeColliderHandles
            | Stage::RemoveColliderHandles => true,
            _ => false,
        }
    }

    /// The stage reads the store.
    pub open spec fn reads_store_spec(self) -> bool {
        match self {
            Stage::FlushCommandBuffer | Stage::StepPhysicsWorld => false,
            _ => true,
        }
    }

    #[verifier::when_used_as_spec(stages_commands_spec)]
    pub fn stages_commands(self) -> (r: bool)
        ensures
            r == self.stages_commands_spec(),
    {
        match self {
            Stage::MakeBodyHandles
            | Stage::RemoveBodyHandles
            | Stage::MakeColliderHandles
            | Stage::RemoveColliderHandles => true,
            _ => false,
        }
    }

    #[verifier::when_used_as_spec(reads_store_spec)]
    pub fn reads_store(self) -> (r: bool)
        ensures
            r == self.reads_store_spec(),
    {
        match self {
            Stage::FlushCommandBuffer | Stage::StepPhysicsWorld => false,
            _ => true,
        }
    }
}

/// Appends the eleven stages of a tick to a schedule, in their fixed order:
/// validate, make body handles, remove body handles, barrier, make collider
/// handles, remove collider handles, barrier, sweep, push, step, pull.
pub fn add_physics_systems(schedule: &mut Vec<Stage>)
    ensures
        final(schedule)@ == old(schedule)@ + physics_pipeline(),
        final(schedule)@.len() == old(schedule)@.len() + 11,
{
    schedule.push(Stage::ValidatePhysicsEntities);
    schedule.push(Stage::MakeBodyHandles);
    schedule.push(Stage::RemoveBodyHandles);
    schedule.push(Stage::FlushCommandBuffer);
    schedule.push(Stage::MakeColliderHandles);
    schedule.push(Stage::RemoveColliderHandles);
    schedule.push(Stage::FlushCommandBuffer);
    schedule.push(Stage::Garbage);
    schedule.push(Stage::EntityWorldToPhysicsWorld);
    schedule.push(Stage::StepPhysicsWorld);
    schedule.push(Stage::PhysicsWorldToEntityWorld);
    assert(schedule@ =~= old(schedule)@ + physics_pipeline());
}

/// In the pipeline no stage reads the store while commands are waiting:
/// between a stage that leaves commands for a barrier and the next stage that
/// reads the store and is not one of its own group, there is a barrier. So
/// body handles are settled before colliders are asked for, and all handles
/// are settled before anything is swept, pushed, stepped or pulled. The
/// pipeline begins with validation and ends with the pull-back.
pub proof fn pipeline_is_ordered()
    ensures
        physics_pipeline().len() == 11,
        forall|i: int, j: int|
            0 <= i < j < physics_pipeline().len() && physics_pipeline()[i].stages_commands_spec()
                && physics_pipeline()[j].reads_store_spec() && same_group(i, j) == false
                ==> exists|b: int| i < b < j && physics_pipeline()[b] == Stage::FlushCommandBuffer,
        physics_pipeline()[0] == Stage::ValidatePhysicsEntities,
        physics_pipeline().last() == Stage::PhysicsWorldToEntityWorld,
{
    let pipeline = physics_pipeline();
    assert forall|i: int, j: int|
        0 <= i < j < pipeline.len() && pipeline[i].stages_commands_spec()
            && pipeline[j].reads_store_spec() && same_group(i, j) == false implies exists|b: int|
        i < b < j && pipeline[b] == Stage::FlushCommandBuffer by {
        if i <= 2 {
            assert(pipeline[3] == Stage::FlushCommandBuffer);
            if j < 3 {
                assert(same_group(i, j)) by {
                    assert forall|b: int| i <= b <= j implies #[trigger] physics_pipeline()[b]
                        != Stage::FlushCommandBuffer by {}
                }
            }
        } else {
            assert(pipeline[6] == Stage::FlushCommandBuffer);
            if j < 6 {
                assert(same_group(i, j)) by {
                    assert forall|b: int| i <= b <= j implies #[trigger] physics_pipeline()[b]
                        != Stage::FlushCommandBuffer by {}
                }
            }
        }
    }
}

/// Two places of the pipeline lie in the same group of stages: no barrier
/// stands between them. The stages of a group read the same snapshot.
pub open spec fn same_group(i: int, j: int) -> bool {
    forall|b: int| i <= b <= j ==> #[trigger] physics_pipeline()[b] != Stage::FlushCommandBuffer
}

} // verus!
