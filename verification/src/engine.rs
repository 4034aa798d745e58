//! What this crate takes on trust from `rapier2d`: its types, and the few
//! operations on its body and collider sets that the world needs.

use vstd::prelude::*;
use vstd::multiset::Multiset;
use rapier2d::dynamics::{CCDSolver, JointSet, RigidBody, RigidBodyHandle, RigidBodySet};
use rapier2d::geometry::{BroadPhase, Collider, ColliderSet, NarrowPhase};
use rapier2d::pipeline::PhysicsPipeline;
use crate::handle::BodyHandle;

verus! {

/// `rapier2d::dynamics::RigidBodySet`, opaque.
#[verifier::external_type_specification]
#[verifier::external_body]
pub struct ExRigidBodySet(rapier2d::dynamics::RigidBodySet);

/// `rapier2d::geometry::ColliderSet`, opaque.
#[verifier::external_type_specification]
#[verifier::external_body]
pub struct ExColliderSet(rapier2d::geometry::ColliderSet);

/// `rapier2d::dynamics::JointSet`, opaque.
#[verifier::external_type_specification]
#[verifier::external_body]
pub struct ExJointSet(rapier2d::dynamics::JointSet);

/// `rapier2d::pipeline::PhysicsPipeline`, opaque.
#[verifier::external_type_specification]
#[verifier::external_body]
pub struct ExPhysicsPipeline(rapier2d::pipeline::PhysicsPipeline);

/// `rapier2d::geometry::BroadPhase`, opaque.
#[verifier::external_type_specification]
#[verifier::external_body]
pub struct ExBroadPhase(rapier2d::geometry::BroadPhase);

/// `rapier2d::geometry::NarrowPhase`, opaque.
#[verifier::external_type_specification]
#[verifier::external_body]
pub struct ExNarrowPhase(rapier2d::geometry::NarrowPhase);

/// `rapier2d::dynamics::CCDSolver`, opaque.
#[verifier::external_type_specification]
#[verifier::external_body]
pub struct ExCCDSolver(rapier2d::dynamics::CCDSolver);

/// `rapier2d::dynamics::RigidBody`, opaque.
#[verifier::external_type_specification]
#[verifier::external_body]
pub struct ExRigidBody(rapier2d::dynamics::RigidBody);

/// `rapier2d::geometry::Collider`, opaque.
#[verifier::external_type_specification]
#[verifier::external_body]
pub struct ExCollider(rapier2d::geometry::Collider);

/// The handles of the bodies that a body set holds.
pub uninterp spec fn body_handles(bodies: RigidBodySet) -> Set<BodyHandle>;

/// For each collider that a collider set holds, the body it hangs on.
pub uninterp spec fn collider_parents(colliders: ColliderSet) -> Multiset<BodyHandle>;

/// `PhysicsPipeline::new`: a pipeline with empty work buffers. Nothing is
/// claimed of it.
pub assume_specification[ PhysicsPipeline::new ]() -> (pipeline: PhysicsPipeline);

/// `BroadPhase::new`: an empty broad phase. Nothing is claimed of it.
pub assume_specification[ BroadPhase::new ]() -> (broad_phase: BroadPhase);

/// `NarrowPhase::new`: an empty narrow phase. Nothing is claimed of it.
pub assume_specification[ NarrowPhase::new ]() -> (narrow_phase: NarrowPhase);

/// `JointSet::new`: an empty joint set. Nothing is claimed of it.
pub assume_specification[ JointSet::new ]() -> (joints: JointSet);

/// `CCDSolver::new`: a fresh solver. Nothing is claimed of it.
pub assume_specification[ CCDSolver::new ]() -> (ccd: CCDSolver);

/// `RigidBodySet::new`: the set it returns holds no body.
#[verifier::external_body]
pub(crate) fn new_body_set() -> (bodies: RigidBodySet)
    ensures
        body_handles(bodies) == Set::<BodyHandle>::empty(),
{
    RigidBodySet::new()
}

/// `ColliderSet::new`: the set it returns holds no collider.
#[verifier::external_body]
pub(crate) fn new_collider_set() -> (colliders: ColliderSet)
    ensures
        collider_parents(colliders) == Multiset::<BodyHandle>::empty(),
{
    ColliderSet::new()
}

/// `RigidBodySet::insert`: the body goes into a slot that was free, so its
/// handle named no body of the set before; every other body stays.
#[verifier::external_body]
pub(crate) fn insert_body(bodies: &mut RigidBodySet, body: RigidBody) -> (handle: BodyHandle)
    ensures
        !body_handles(*old(bodies)).contains(handle),
        body_handles(*final(bodies)) == body_handles(*old(bodies)).insert(handle),
{
    let (index, generation) = bodies.insert(body).into_raw_parts();
    BodyHandle { index, generation }
}

/// `ColliderSet::insert`: hangs the collider on the body `parent`, which has
/// to be in `bodies` (the call panics otherwise). No body is added or removed,
/// and the colliders that were there keep their bodies.
#[verifier::external_body]
pub(crate) fn attach_collider(
    colliders: &mut ColliderSet,
    collider: Collider,
    parent: BodyHandle,
    bodies: &mut RigidBodySet,
)
    requires
        body_handles(*old(bodies)).contains(parent),
    ensures
        body_handles(*final(bodies)) == body_handles(*old(bodies)),
        collider_parents(*final(colliders)) == collider_parents(*old(colliders)).insert(parent),
{
    let parent = RigidBodyHandle::from_raw_parts(parent.index, parent.generation);
    colliders.insert(collider, parent, bodies);
}

/// `RigidBodySet::get`: hands out the body that the handle names, and
/// nothing exactly when the handle names no body of the set.
#[verifier::external_body]
pub(crate) fn get_body(bodies: &RigidBodySet, handle: BodyHandle) -> (body: Option<&RigidBody>)
    ensures
        body.is_some() == body_handles(*bodies).contains(handle),
{
    bodies.get(RigidBodyHandle::from_raw_parts(handle.index, handle.generation))
}

} // verus!
