//! The controller: it owns the world and the list that pairs each spawned box
//! with its visual node, and it says what a frame consists of.

use vstd::prelude::*;
use crate::error::WorldError;
use crate::handle::BodyHandle;
use crate::naming::{box_name, box_name_spec, lemma_box_names_distinct};
use crate::physics::{BodyParts, PhysicsState};

verus! {

/// Whether the boundary of the world has been put up yet.
#[derive(Clone, Copy, Debug, PartialEq, Eq, Structural)]
pub enum ControllerState {
    Uninitialized,
    Running,
}

/// One thing to do in a frame.
#[derive(Clone, Copy, Debug, PartialEq, Eq, Structural)]
pub enum FrameAction {
    /// Spawn a box where the pointer is.
    Spawn,
    /// Advance the world by one step.
    Step,
    /// Copy the pose of every spawned box onto its visual node.
    Sync,
}

/// A spawned box: the handle of its body, and the visual node that shows it.
/// The node itself belongs to whoever made it.
pub struct SpawnRecord<N> {
    pub handle: BodyHandle,
    pub node: N,
}

/// What a successful spawn hands back.
pub struct Spawned {
    /// The handle of the new body.
    pub handle: BodyHandle,
    /// The identifier that the new visual node is to carry.
    pub name: String,
}

/// The controller of one world. `N` is whatever refers to a visual node.
pub struct RapierWorld2D<N> {
    physics: PhysicsState,
    state: ControllerState,
    boxes: Vec<SpawnRecord<N>>,
}

/// The actions of one frame, in the order in which they happen: a spawn if
/// one was asked for, then one step of the world, then the copying of poses.
pub open spec fn frame_plan(spawn_trigger: bool) -> Seq<FrameAction> {
    if spawn_trigger {
        seq![FrameAction::Spawn, FrameAction::Step, FrameAction::Sync]
    } else {
        seq![FrameAction::Step, FrameAction::Sync]
    }
}

/// Whatever the trigger, a frame advances the world exactly once; a spawn, if
/// there is one, comes before the step, and the copying of poses comes after
/// it and ends the frame.
pub proof fn lemma_frame_order(spawn_trigger: bool)
    ensures
        frame_plan(spawn_trigger).filter(|a: FrameAction| a == FrameAction::Step).len() == 1,
        frame_plan(spawn_trigger).last() == FrameAction::Sync,
        frame_plan(spawn_trigger)[frame_plan(spawn_trigger).len() - 2] == FrameAction::Step,
        frame_plan(spawn_trigger).contains(FrameAction::Spawn) <==> spawn_trigger,
        spawn_trigger ==> frame_plan(spawn_trigger)[0] == FrameAction::Spawn,
{
    let is_step = |a: FrameAction| a == FrameAction::Step;
    let plan = frame_plan(spawn_trigger);
    reveal_with_fuel(Seq::filter, 4);
    if spawn_trigger {
        assert(plan.drop_last() == seq![FrameAction::Spawn, FrameAction::Step]);
        assert(plan.drop_last().drop_last() == seq![FrameAction::Spawn]);
        assert(plan.drop_last().drop_last().drop_last() == Seq::<FrameAction>::empty());
        assert(plan.filter(is_step) == seq![FrameAction::Step]);
        assert(plan[0] == FrameAction::Spawn);
    } else {
        assert(plan.drop_last() == seq![FrameAction::Step]);
        assert(plan.drop_last().drop_last() == Seq::<FrameAction>::empty());
        assert(plan.filter(is_step) == seq![FrameAction::Step]);
        assert(!plan.contains(FrameAction::Spawn));
    }
}

impl<N> RapierWorld2D<N> {
    /// The records of the spawned boxes, oldest first.
    pub closed spec fn records(&self) -> Seq<SpawnRecord<N>> {
        self.boxes@
    }

    /// The state the controller is in.
    pub closed spec fn current_state(&self) -> ControllerState {
        self.state
    }

    /// The world that the controller owns.
    pub closed spec fn world(&self) -> PhysicsState {
        self.physics
    }

    /// Whether some record carries the handle.
    pub open spec fn tracks(&self, handle: BodyHandle) -> bool {
        exists|i: int| 0 <= i < self.records().len() && #[trigger] self.records()[i].handle == handle
    }

    /// The record at `i` is the oldest one that carries the handle.
    pub open spec fn first_with(&self, i: int, handle: BodyHandle) -> bool {
        &&& 0 <= i < self.records().len()
        &&& self.records()[i].handle == handle
        &&& forall|j: int| 0 <= j < i ==> (#[trigger] self.records()[j]).handle != handle
    }

    /// Every record names a body of the world.
    pub open spec fn records_in_world(&self) -> bool {
        forall|i: int|
            0 <= i < self.records().len() ==> self.world().handles().contains(
                #[trigger] self.records()[i].handle,
            )
    }

    /// No two records name the same body.
    pub open spec fn records_distinct(&self) -> bool {
        forall|i: int, j: int|
            0 <= i < j < self.records().len() ==> (#[trigger] self.records()[i]).handle != (
            #[trigger] self.records()[j]).handle
    }

    /// The world is well formed, every record names a body of it, and no two
    /// records name the same body.
    pub open spec fn wf(&self) -> bool {
        &&& self.world().wf()
        &&& self.records_in_world()
        &&& self.records_distinct()
    }

    /// `after` is `before` with the three bodies `floor`, `left` and `right`
    /// added, each with its collider.
    pub open spec fn walled(
        before: &PhysicsState,
        after: &PhysicsState,
        floor: BodyHandle,
        left: BodyHandle,
        right: BodyHandle,
    ) -> bool {
        &&& !before.handles().contains(floor)
        &&& !before.handles().contains(left)
        &&& !before.handles().contains(right)
        &&& floor != left
        &&& floor != right
        &&& left != right
        &&& after.handles() == before.handles().insert(floor).insert(left).insert(right)
        &&& after.parents() == before.parents().insert(floor).insert(left).insert(right)
    }

    /// One successful spawn leads from `before` to `after`: the world has
    /// one more body, the list has one more record at its end, which pairs
    /// that body with `node`, and the identifier handed back counts the
    /// records that were there before.
    pub open spec fn spawn_step(before: &Self, after: &Self, node: N, spawned: Spawned) -> bool {
        &&& after.current_state() == before.current_state()
        &&& spawned.name@ == box_name_spec(before.records().len())
        &&& PhysicsState::added(&before.world(), &after.world(), spawned.handle)
        &&& after.records() == before.records().push(
            SpawnRecord { handle: spawned.handle, node },
        )
    }

    /// A controller with an empty world and no spawned box.
    pub fn new() -> (controller: Self)
        ensures
            controller.current_state() == ControllerState::Uninitialized,
            controller.records() == Seq::<SpawnRecord<N>>::empty(),
            controller.world().handles() == Set::<BodyHandle>::empty(),
            controller.wf(),
    {
        Self { physics: PhysicsState::new(), state: ControllerState::Uninitialized, boxes: Vec::new() }
    }

    /// Puts up the boundary of the world: the floor, the left wall and the
    /// right wall, in this order. From then on the controller is running.
    pub fn _ready(&mut self, floor: BodyParts, left_wall: BodyParts, right_wall: BodyParts)
        ensures
            final(self).current_state() == ControllerState::Running,
            final(self).records() == old(self).records(),
            exists|a: BodyHandle, b: BodyHandle, c: BodyHandle|
                Self::walled(&old(self).world(), &final(self).world(), a, b, c),
            old(self).wf() ==> final(self).wf(),
    {
        let ghost before = self.physics;
        self.physics.add_static(floor);
        let ghost with_floor = self.physics;
        self.physics.add_static(left_wall);
        let ghost with_left = self.physics;
        self.physics.add_static(right_wall);
        let ghost with_right = self.physics;
        self.state = ControllerState::Running;
        proof {
            let a = choose|h: BodyHandle| PhysicsState::added(&before, &with_floor, h);
            let b = choose|h: BodyHandle| PhysicsState::added(&with_floor, &with_left, h);
            let c = choose|h: BodyHandle| PhysicsState::added(&with_left, &with_right, h);
            assert(Self::walled(&old(self).world(), &self.world(), a, b, c));
            if old(self).wf() {
                assert(with_floor.wf() && with_left.wf());
                assert(self.records() == old(self).records());
            }
        }
    }

    /// The world that the controller owns.
    pub fn physics(&self) -> (world: &PhysicsState)
        ensures
            *world == self.world(),
    {
        &self.physics
    }

    /// The world that the controller owns, to advance it. The records and
    /// the state stay as they are whatever is done to the world.
    pub fn physics_mut(&mut self) -> (world: &mut PhysicsState)
        ensures
            *world == old(self).world(),
            final(self).world() == *final(world),
            final(self).records() == old(self).records(),
            final(self).current_state() == old(self).current_state(),
    {
        &mut self.physics
    }

    /// The state the controller is in.
    pub fn state(&self) -> (state: ControllerState)
        ensures
            state == self.current_state(),
    {
        self.state
    }

    /// How many boxes have been spawned.
    pub fn len(&self) -> (n: usize)
        ensures
            n == self.records().len(),
    {
        self.boxes.len()
    }

    /// What this frame consists of.
    pub fn _process(&self, spawn_trigger: bool) -> (plan: Vec<FrameAction>)
        ensures
            plan@ == frame_plan(spawn_trigger),
    {
        let mut plan: Vec<FrameAction> = Vec::new();
        if spawn_trigger {
            plan.push(FrameAction::Spawn);
        }
        plan.push(FrameAction::Step);
        plan.push(FrameAction::Sync);
        plan
    }

    /// Spawns a box: puts its body into the world and records it together
    /// with its visual node. Without a node nothing is spawned and nothing
    /// changes.
    pub fn spawn(&mut self, parts: BodyParts, node: Option<N>) -> (spawned: Result<
        Spawned,
        WorldError,
    >)
        ensures
            final(self).current_state() == old(self).current_state(),
            node is None ==> {
                &&& spawned == Err::<Spawned, WorldError>(WorldError::AssetLoadError)
                &&& final(self).records() == old(self).records()
                &&& final(self).world().handles() == old(self).world().handles()
                &&& final(self).world().parents() == old(self).world().parents()
            },
            node is Some ==> spawned is Ok && Self::spawn_step(
                old(self),
                final(self),
                node->Some_0,
                spawned->Ok_0,
            ),
            old(self).wf() ==> final(self).wf(),
    {
        match node {
            None => Err(WorldError::AssetLoadError),
            Some(node) => {
                let name = box_name(self.boxes.len());
                let handle = self.physics.add_box(parts);
                self.boxes.push(SpawnRecord { handle, node });
                let spawned = Spawned { handle, name };
                proof {
                    assert(Self::spawn_step(old(self), self, node, spawned));
                    if old(self).wf() {
                        Self::lemma_spawn_keeps_wf(*old(self), *self, node, spawned);
                    }
                }
                Ok(spawned)
            },
        }
    }

    /// The records whose poses are to be copied onto their nodes, oldest
    /// first. Fails when a record names a body that the world does not hold.
    pub fn update_boxes(&self) -> (records: Result<&Vec<SpawnRecord<N>>, WorldError>)
        ensures
            records is Ok <==> self.records_in_world(),
            records is Ok ==> records->Ok_0@ == self.records(),
            records is Err ==> records->Err_0 == WorldError::BodyNotFound,
            self.wf() ==> records is Ok,
    {
        let mut i: usize = 0;
        while i < self.boxes.len()
            invariant
                i <= self.boxes.len(),
                forall|k: int|
                    0 <= k < i ==> self.physics.handles().contains(
                        #[trigger] self.records()[k].handle,
                    ),
            decreases self.boxes.len() - i,
        {
            if !self.physics.contains(self.boxes[i].handle) {
                assert(!self.world().handles().contains(self.records()[i as int].handle));
                return Err(WorldError::BodyNotFound);
            }
            i += 1;
        }
        Ok(&self.boxes)
    }

    /// The visual node of the box whose body the handle names: the list read
    /// as a table keyed by handle. Should several records carry the handle,
    /// which a well-formed controller rules out, the oldest one answers.
    pub fn node_of(&self, handle: BodyHandle) -> (node: Option<&N>)
        ensures
            node is Some <==> self.tracks(handle),
            node is Some ==> exists|i: int|
                #[trigger] self.first_with(i, handle) && self.records()[i].node == *node->Some_0,
    {
        let mut i: usize = 0;
        while i < self.boxes.len()
            invariant
                i <= self.boxes.len(),
                forall|j: int| 0 <= j < i ==> (#[trigger] self.records()[j]).handle != handle,
            decreases self.boxes.len() - i,
        {
            if self.boxes[i].handle == handle {
                assert(self.first_with(i as int, handle));
                return Some(&self.boxes[i].node);
            }
            i += 1;
        }
        None
    }

    /// A successful spawn keeps a well-formed controller well formed: the
    /// new record names a body of the world, and a body that no older record
    /// names.
    pub proof fn lemma_spawn_keeps_wf(before: Self, after: Self, node: N, spawned: Spawned)
        requires
            before.wf(),
            Self::spawn_step(&before, &after, node, spawned),
        ensures
            after.wf(),
    {
        let old_records = before.records();
        let new_records = after.records();
        assert forall|i: int| 0 <= i < old_records.len() implies new_records[i]
            == old_records[i] by {}
        assert forall|i: int| 0 <= i < new_records.len() implies after.world().handles().contains(
            #[trigger] new_records[i].handle,
        ) by {
            if i < old_records.len() {
                assert(before.world().handles().contains(old_records[i].handle));
            }
        }
        assert forall|i: int, j: int| 0 <= i < j < new_records.len() implies (
        #[trigger] new_records[i]).handle != (#[trigger] new_records[j]).handle by {
            assert(before.world().handles().contains(old_records[i].handle));
            if j < old_records.len() {
                assert(old_records[i].handle != old_records[j].handle);
            }
        }
    }

    /// Whatever is done to the world between two calls, a well-formed
    /// controller stays well formed as long as the world holds the same
    /// bodies and colliders afterwards: well-formedness does not look at
    /// where the bodies are.
    pub proof fn lemma_same_bodies_keep_wf(before: Self, after: Self)
        requires
            before.wf(),
            after.records() == before.records(),
            after.world().handles() == before.world().handles(),
            after.world().parents() == before.world().parents(),
        ensures
            after.wf(),
    {
    }

    /// Spawning boxes one after another into a controller without boxes:
    /// `trace` holds the controller before the first spawn and after each
    /// one, `nodes` the nodes handed in and `results` what came back. Then
    /// the controller holds as many records as spawns succeeded, the boxes
    /// got the identifiers `box_0`, `box_1`, ... in this order, no two of
    /// them the same, each record carries the handle its spawn handed back,
    /// and a controller that was well formed at the start has stayed so, so
    /// that no two records share a handle.
    pub proof fn lemma_spawn_sequence(trace: Seq<Self>, nodes: Seq<N>, results: Seq<Spawned>)
        requires
            trace.len() == nodes.len() + 1,
            results.len() == nodes.len(),
            trace[0].records().len() == 0,
            forall|k: int|
                0 <= k < nodes.len() ==> Self::spawn_step(
                    &#[trigger] trace[k],
                    &trace[k + 1],
                    nodes[k],
                    results[k],
                ),
        ensures
            forall|k: int| 0 <= k < trace.len() ==> (#[trigger] trace[k]).records().len() == k,
            forall|k: int|
                0 <= k < results.len() ==> (#[trigger] results[k]).name@ == box_name_spec(k as nat),
            forall|i: int, j: int|
                0 <= i < j < results.len() ==> (#[trigger] results[i]).name@ != (
                #[trigger] results[j]).name@,
            forall|k: int, i: int|
                0 <= i < k < trace.len() ==> (#[trigger] trace[k].records()[i]).handle
                    == results[i].handle,
            trace[0].wf() ==> forall|k: int| 0 <= k < trace.len() ==> (#[trigger] trace[k]).wf(),
    {
        Self::lemma_spawn_prefix(trace, nodes, results, nodes.len() as int);
        assert forall|i: int, j: int| 0 <= i < j < results.len() implies (
        #[trigger] results[i]).name@ != (#[trigger] results[j]).name@ by {
            assert(trace[i].records().len() == i);
            assert(trace[j].records().len() == j);
            assert(Self::spawn_step(&trace[i], &trace[i + 1], nodes[i], results[i]));
            assert(Self::spawn_step(&trace[j], &trace[j + 1], nodes[j], results[j]));
            lemma_box_names_distinct(i as nat, j as nat);
        }
        assert forall|k: int| 0 <= k < results.len() implies (#[trigger] results[k]).name@
            == box_name_spec(k as nat) by {
            assert(trace[k].records().len() == k);
            assert(Self::spawn_step(&trace[k], &trace[k + 1], nodes[k], results[k]));
        }
    }

    proof fn lemma_spawn_prefix(trace: Seq<Self>, nodes: Seq<N>, results: Seq<Spawned>, n: int)
        requires
            trace.len() == nodes.len() + 1,
            results.len() == nodes.len(),
            trace[0].records().len() == 0,
            0 <= n <= nodes.len(),
            forall|k: int|
                0 <= k < nodes.len() ==> Self::spawn_step(
                    &#[trigger] trace[k],
                    &trace[k + 1],
                    nodes[k],
                    results[k],
                ),
        ensures
            forall|k: int| 0 <= k <= n ==> (#[trigger] trace[k]).records().len() == k,
            forall|k: int, i: int|
                0 <= i < k <= n ==> (#[trigger] trace[k].records()[i]).handle == results[i].handle,
            trace[0].wf() ==> forall|k: int| 0 <= k <= n ==> (#[trigger] trace[k]).wf(),
        decreases n,
    {
        if n > 0 {
            Self::lemma_spawn_prefix(trace, nodes, results, n - 1);
            let before = trace[n - 1];
            let after = trace[n];
            assert(Self::spawn_step(&before, &trace[n - 1 + 1], nodes[n - 1], results[n - 1]));
            assert(before.records().len() == n - 1);
            assert(after.records().len() == n);
            assert forall|i: int| 0 <= i < n implies (#[trigger] after.records()[i]).handle
                == results[i].handle by {
                if i < n - 1 {
                    assert(before.records()[i].handle == results[i].handle);
                }
            }
            if trace[0].wf() {
                assert(before.wf());
                Self::lemma_spawn_keeps_wf(before, after, nodes[n - 1], results[n - 1]);
            }
        }
    }
}

} // verus!