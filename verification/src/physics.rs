use vstd::prelude::*;
use vstd::multiset::Multiset;
use rapier2d::dynamics::{CCDSolver, JointSet, RigidBody, RigidBodySet};
use rapier2d::geometry::{BroadPhase, Collider, ColliderSet, NarrowPhase};
use rapier2d::pipeline::PhysicsPipeline;
use crate::engine::{
    attach_collider, body_handles, collider_parents, get_body, insert_body, new_body_set,
    new_collider_set,
};
use crate::error::WorldError;
use crate::handle::BodyHandle;

verus! {

/// A body together with the one collider that will hang on it.
pub struct BodyParts {
    pub body: RigidBody,
    pub collider: Collider,
}

/// The whole state of one simulated world: its bodies and colliders, and the
/// working state of the phases that advance it.
pub struct PhysicsState {
    pub pipeline: PhysicsPipeline,
    pub broad_phase: BroadPhase,
    pub narrow_phase: NarrowPhase,
    pub bodies: RigidBodySet,
    pub colliders: ColliderSet,
    pub joints: JointSet,
    pub ccd: CCDSolver,
}

impl PhysicsState {
    /// The handles of the bodies in the world.
    pub open spec fn handles(&self) -> Set<BodyHandle> {
        body_handles(self.bodies)
    }

    /// For each collider in the world, the body it hangs on.
    pub open spec fn parents(&self) -> Multiset<BodyHandle> {
        collider_parents(self.colliders)
    }

    /// Every body carries exactly one collider, and no collider hangs on a
    /// body that is not in the world.
    pub open spec fn wf(&self) -> bool {
        forall|h: BodyHandle|
            #[trigger] self.parents().count(h) == (if self.handles().contains(h) {
                1nat
            } else {
                0nat
            })
    }

    /// `after` is `before` with one more body, which carries one collider and
    /// has the handle `handle`, a handle that named no body of `before`.
    pub open spec fn added(before: &Self, after: &Self, handle: BodyHandle) -> bool {
        &&& !before.handles().contains(handle)
        &&& after.handles() == before.handles().insert(handle)
        &&& after.parents() == before.parents().insert(handle)
    }

    /// A world without bodies.
    pub fn new() -> (world: Self)
        ensures
            world.handles() == Set::<BodyHandle>::empty(),
            world.parents() == Multiset::<BodyHandle>::empty(),
            world.wf(),
    {
        Self {
            pipeline: PhysicsPipeline::new(),
            broad_phase: BroadPhase::new(),
            narrow_phase: NarrowPhase::new(),
            bodies: new_body_set(),
            colliders: new_collider_set(),
            joints: JointSet::new(),
            ccd: CCDSolver::new(),
        }
    }

    /// Puts a body that is to stay where it is into the world, with its
    /// collider.
    pub fn add_static(&mut self, parts: BodyParts)
        ensures
            exists|handle: BodyHandle| Self::added(old(self), final(self), handle),
            old(self).wf() ==> final(self).wf(),
    {
        let handle = self.insert(parts);
        assert(Self::added(old(self), self, handle));
    }

    /// Puts a moving box into the world, with its collider, and returns the
    /// handle under which it can be found from now on.
    pub fn add_box(&mut self, parts: BodyParts) -> (handle: BodyHandle)
        ensures
            Self::added(old(self), final(self), handle),
            old(self).wf() ==> final(self).wf(),
    {
        self.insert(parts)
    }

    fn insert(&mut self, parts: BodyParts) -> (handle: BodyHandle)
        ensures
            Self::added(old(self), final(self), handle),
            old(self).wf() ==> final(self).wf(),
    {
        let handle = insert_body(&mut self.bodies, parts.body);
        attach_collider(&mut self.colliders, parts.collider, handle, &mut self.bodies);
        handle
    }

    /// Whether the handle names a body of the world.
    pub fn contains(&self, handle: BodyHandle) -> (found: bool)
        ensures
            found == self.handles().contains(handle),
    {
        get_body(&self.bodies, handle).is_some()
    }

    /// The body that the handle names.
    pub fn body(&self, handle: BodyHandle) -> (found: Result<&RigidBody, WorldError>)
        ensures
            found is Ok <==> self.handles().contains(handle),
            found is Err ==> found == Err::<&RigidBody, WorldError>(WorldError::BodyNotFound),
    {
        match get_body(&self.bodies, handle) {
            Some(body) => Ok(body),
            None => Err(WorldError::BodyNotFound),
        }
    }

    /// Adding a body keeps a well-formed world well formed: the new body
    /// carries its one collider, and the others keep theirs.
    pub proof fn lemma_added_keeps_wf(before: Self, after: Self, handle: BodyHandle)
        requires
            before.wf(),
            Self::added(&before, &after, handle),
        ensures
            after.wf(),
    {
    }

    /// A handle is handed out once: a body added later gets a handle that
    /// differs from that of a body added earlier, and the earlier body is
    /// still in the world.
    pub proof fn lemma_later_handle_differs(
        first: Self,
        second: Self,
        third: Self,
        earlier: BodyHandle,
        later: BodyHandle,
    )
        requires
            Self::added(&first, &second, earlier),
            Self::added(&second, &third, later),
        ensures
            earlier != later,
            third.handles().contains(earlier),
            third.handles().contains(later),
    {
    }
}

} // verus!