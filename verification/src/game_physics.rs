use crate::collision::{base_groups, flying_groups, ground_groups, groups_interact, Groups};
use crate::game::{Branch, Game, PlayerAction};
use crate::world::{
    attach_collider, body_handles, collider_groups, enable_ccd, insert_body, remove_body,
    set_body_linvel, set_body_translation, step_world, BodyHandle, Vector3, World,
};
use rapier3d::dynamics::{RigidBody, RigidBodySet};
use rapier3d::geometry::{Collider, ColliderSet};
use std::collections::VecDeque;
use vstd::prelude::*;

verus! {

/// One log in the physics world: its body and what grows on it.
#[derive(Debug, Clone, Copy, PartialEq, Eq, Structural)]
pub struct PhysicsLog {
    pub handle: BodyHandle,
    pub branch: Branch,
}

/// A rigid body with its collider, ready to be put into a world.
#[derive(Clone)]
pub struct BodyParts {
    pub body: RigidBody,
    pub collider: Collider,
}

/// Where a body is put and how fast it moves from there.
#[derive(Clone)]
pub struct Motion {
    pub translation: Vector3,
    pub linvel: Vector3,
}

/// All that a physics world of the game is made from.
#[derive(Clone)]
pub struct PhysicsSetup {
    /// The ground the logs fall on.
    pub ground: BodyParts,
    /// The log at the base of the tree, at rest.
    pub base: BodyParts,
    pub gravity: Vector3,
    /// Place and velocity of the base log at rest.
    pub rest: Motion,
    /// Place and velocity of the base log right after a chop, when the
    /// tree comes down by one level.
    pub drop: Motion,
}

/// How many flying logs a world keeps where nothing else is asked for.
pub const FLYING_LOG_CAP: usize = 10;

/// How far from the origin, in units of the world, a flying log can be
/// seen: one that is further away is to be marked as far.
pub const SIGHT_RANGE: u32 = 5;

/// The mathematical content of a [`GamePhysics`].
pub struct PhysicsView {
    /// The body of the ground.
    pub ground: BodyHandle,
    /// The log at the base of the tree.
    pub base: PhysicsLog,
    /// The logs that fly, oldest first.
    pub flying: Seq<PhysicsLog>,
    /// How many flying logs are kept at most.
    pub cap: nat,
    /// The handles of all bodies of the world.
    pub bodies: Set<BodyHandle>,
    /// For each collider of the world, the body it is tied to and its
    /// collision groups.
    pub groups: Set<(BodyHandle, Groups)>,
}

/// The handles of the given logs.
pub open spec fn handles_of(logs: Seq<PhysicsLog>) -> Set<BodyHandle> {
    Set::new(|h: BodyHandle| exists|i: int| 0 <= i < logs.len() && (#[trigger] logs[i]).handle == h)
}

/// The ground, the base log and the flying logs are all different bodies.
pub open spec fn distinct_bodies(
    ground: BodyHandle,
    base: BodyHandle,
    logs: Seq<PhysicsLog>,
) -> bool {
    &&& ground != base
    &&& forall|i: int|
        0 <= i < logs.len() ==> (#[trigger] logs[i]).handle != ground && logs[i].handle != base
    &&& forall|i: int, j: int|
        0 <= i < j < logs.len() ==> (#[trigger] logs[i]).handle != (#[trigger] logs[j]).handle
}

/// The bodies that a world with these logs has: the ground, the base log
/// and one for each flying log.
pub open spec fn bodies_of(ground: BodyHandle, base: BodyHandle, logs: Seq<PhysicsLog>) -> Set<
    BodyHandle,
> {
    handles_of(logs).insert(base).insert(ground)
}

/// The colliders that a world with these logs has: one for the ground,
/// one for the base log and one for each flying log, each with the groups
/// of its kind.
pub open spec fn groups_of(ground: BodyHandle, base: BodyHandle, logs: Seq<PhysicsLog>) -> Set<
    (BodyHandle, Groups),
> {
    Set::new(
        |tied: (BodyHandle, Groups)|
            {
                ||| tied == (ground, ground_groups())
                ||| tied == (base, base_groups())
                ||| handles_of(logs).contains(tied.0) && tied.1 == flying_groups()
            },
    )
}

/// The logs and the world agree: every log has a body of its own, the
/// world holds no other body, and each body has one collider, with the
/// collision groups of its kind.
pub open spec fn valid_physics(v: PhysicsView) -> bool {
    &&& distinct_bodies(v.ground, v.base.handle, v.flying)
    &&& v.bodies == bodies_of(v.ground, v.base.handle, v.flying)
    &&& v.groups == groups_of(v.ground, v.base.handle, v.flying)
}

/// Whether the log at position `i` is marked as far away.
pub open spec fn is_far(far: Seq<bool>, i: int) -> bool {
    0 <= i < far.len() && far[i]
}

/// The logs that are not marked as far away, in their order.
pub open spec fn near_logs(logs: Seq<PhysicsLog>, far: Seq<bool>) -> Seq<PhysicsLog>
    decreases logs.len(),
{
    if logs.len() == 0 {
        Seq::empty()
    } else if is_far(far, logs.len() - 1) {
        near_logs(logs.drop_last(), far)
    } else {
        near_logs(logs.drop_last(), far).push(logs.last())
    }
}

/// The newest `cap` of the logs, or all of them where they are fewer.
pub open spec fn newest(logs: Seq<PhysicsLog>, cap: nat) -> Seq<PhysicsLog> {
    if logs.len() > cap {
        logs.skip(logs.len() - cap)
    } else {
        logs
    }
}

/// The physics with a new body `spawned` thrown in as a flying log.
pub open spec fn after_throw(v: PhysicsView, spawned: BodyHandle, branch: Branch) -> PhysicsView {
    let flying = v.flying.push(PhysicsLog { handle: spawned, branch });
    PhysicsView {
        ground: v.ground,
        base: v.base,
        flying,
        cap: v.cap,
        bodies: bodies_of(v.ground, v.base.handle, flying),
        groups: groups_of(v.ground, v.base.handle, flying),
    }
}

/// The physics after a chop. The log that was at the base flies off as the
/// new body `spawned`, behind the logs that fly already; the base log takes
/// the branch `front` of the lowest level of the tree; the flying logs
/// that `far` marks, each by its position among them, leave; and of the
/// rest the newest `cap` stay.
pub open spec fn after_chop(
    v: PhysicsView,
    front: Branch,
    far: Seq<bool>,
    spawned: BodyHandle,
) -> PhysicsView {
    let thrown = PhysicsLog { handle: spawned, branch: v.base.branch };
    let flying = newest(near_logs(v.flying.push(thrown), far), v.cap);
    PhysicsView {
        ground: v.ground,
        base: PhysicsLog { handle: v.base.handle, branch: front },
        flying,
        cap: v.cap,
        bodies: bodies_of(v.ground, v.base.handle, flying),
        groups: groups_of(v.ground, v.base.handle, flying),
    }
}

/// The physics after a reset: a bare base log and nothing in flight.
pub open spec fn after_reset(v: PhysicsView) -> PhysicsView {
    PhysicsView {
        ground: v.ground,
        base: PhysicsLog { handle: v.base.handle, branch: Branch::Clear },
        flying: Seq::empty(),
        cap: v.cap,
        bodies: bodies_of(v.ground, v.base.handle, Seq::empty()),
        groups: groups_of(v.ground, v.base.handle, Seq::empty()),
    }
}

/// The side to which a chopped log flies, as the sign of its velocity
/// across the screen: a chop from the left sends it to the right.
pub open spec fn throw_sign(action: PlayerAction) -> int {
    match action {
        PlayerAction::ChopLeft => 1,
        PlayerAction::ChopRight => -1,
    }
}

/// The side to which the log of a chop flies.
pub fn throw_direction(action: PlayerAction) -> (sign: i32)
    ensures
        sign == throw_sign(action),
{
    match action {
        PlayerAction::ChopLeft => 1,
        PlayerAction::ChopRight => -1,
    }
}

/// Where an object of the scene stands.
#[derive(Debug, Clone, Copy, PartialEq, Eq, Structural)]
pub enum Placement {
    /// On the tree, this many levels above the base log.
    Level(usize),
    /// Wherever the body with this handle is.
    Body(BodyHandle),
}

/// One object of the scene: which kind of log, and where.
#[derive(Debug, Clone, Copy, PartialEq, Eq, Structural)]
pub struct SceneLog {
    pub branch: Branch,
    pub placement: Placement,
}

/// The scene of a tree and the flying logs: the levels of the tree from
/// the lowest up, then the flying logs from the oldest on.
pub open spec fn scene_of(track: Seq<Branch>, flying: Seq<PhysicsLog>) -> Seq<SceneLog> {
    Seq::new(
        track.len(),
        |i: int| SceneLog { branch: track[i], placement: Placement::Level(i as usize) },
    ) + Seq::new(
        flying.len(),
        |i: int| SceneLog { branch: flying[i].branch, placement: Placement::Body(flying[i].handle) },
    )
}

/// The physics of the chopped logs: a world of rigid bodies, the log at
/// the base of the tree, and the logs that fly away from it.
pub struct GamePhysics {
    ground: BodyHandle,
    base_log: PhysicsLog,
    flying_logs: VecDeque<PhysicsLog>,
    cap: usize,
    rest: Motion,
    drop: Motion,
    world: World,
}

impl View for GamePhysics {
    type V = PhysicsView;

    closed spec fn view(&self) -> PhysicsView {
        PhysicsView {
            ground: self.ground,
            base: self.base_log,
            flying: self.flying_logs@,
            cap: self.cap as nat,
            bodies: self.world.handles(),
            groups: self.world.groups(),
        }
    }
}

impl GamePhysics {
    /// The logs and the world agree.
    pub open spec fn wf(&self) -> bool {
        valid_physics(self@)
    }

    /// Builds the world: the ground and the base log, each with the
    /// collision groups of its kind, and nothing in flight. Of the flying
    /// logs the newest `cap` are kept.
    pub fn new(setup: PhysicsSetup, cap: usize) -> (physics: GamePhysics)
        ensures
            physics.wf(),
            physics@.flying == Seq::<PhysicsLog>::empty(),
            physics@.base.branch == Branch::Clear,
            physics@.bodies == bodies_of(physics@.ground, physics@.base.handle, Seq::empty()),
            physics@.groups == groups_of(physics@.ground, physics@.base.handle, Seq::empty()),
            physics@.cap == cap,
    {
        let mut world = World::new(setup.gravity);
        let ground = insert_body(&mut world, setup.ground.body);
        attach_collider(&mut world, setup.ground.collider, ground, Groups::ground());
        let log_handle = insert_body(&mut world, setup.base.body);
        attach_collider(&mut world, setup.base.collider, log_handle, Groups::base());
        let base_log = PhysicsLog { handle: log_handle, branch: Branch::Clear };
        let physics = GamePhysics {
            ground,
            base_log,
            flying_logs: VecDeque::new(),
            cap,
            rest: setup.rest,
            drop: setup.drop,
            world,
        };
        proof {
            lemma_no_logs_no_handles();
            assert(physics@.bodies =~= bodies_of(ground, log_handle, Seq::empty()));
            assert(physics@.groups =~= groups_of(ground, log_handle, Seq::empty()));
        }
        physics
    }

    /// Puts the base log back to rest without a branch, and takes every
    /// flying log out of the world.
    pub fn reset(&mut self)
        requires
            old(self).wf(),
        ensures
            final(self).wf(),
            final(self)@ == after_reset(old(self)@),
    {
        set_body_translation(&mut self.world, self.base_log.handle, &self.rest.translation);
        set_body_linvel(&mut self.world, self.base_log.handle, &self.rest.linvel);
        self.base_log.branch = Branch::Clear;
        while self.flying_logs.len() > 0
            invariant
                self.wf(),
                self@.ground == old(self)@.ground,
                self@.base == (PhysicsLog {
                    handle: old(self)@.base.handle,
                    branch: Branch::Clear,
                }),
                self@.cap == old(self)@.cap,
            decreases self.flying_logs.len(),
        {
            self.remove_log(0);
        }
        assert(self@.flying =~= Seq::empty());
    }

    fn update_base_log(&mut self, branch: Branch)
        requires
            old(self).wf(),
        ensures
            final(self).wf(),
            final(self)@ == (PhysicsView {
                base: PhysicsLog { handle: old(self)@.base.handle, branch },
                ..old(self)@
            }),
    {
        set_body_translation(&mut self.world, self.base_log.handle, &self.drop.translation);
        set_body_linvel(&mut self.world, self.base_log.handle, &self.drop.linvel);
        self.base_log.branch = branch;
    }

    /// Throws a new log with the given body and branch into the world. The
    /// body gets continuous collision detection, so that it does not pass
    /// through the ground, and its collider the groups of a flying log.
    pub fn add_new_flying_log(&mut self, parts: BodyParts, branch: Branch)
        requires
            old(self).wf(),
        ensures
            final(self).wf(),
            final(self)@.flying.len() == old(self)@.flying.len() + 1,
            !old(self)@.bodies.contains(final(self)@.flying.last().handle),
            final(self)@ == after_throw(old(self)@, final(self)@.flying.last().handle, branch),
    {
        let mut log_body = parts.body;
        enable_ccd(&mut log_body);
        let log_handle = insert_body(&mut self.world, log_body);
        attach_collider(&mut self.world, parts.collider, log_handle, Groups::flying());
        let log = PhysicsLog { handle: log_handle, branch };
        self.flying_logs.push_back(log);
        proof {
            lemma_handles_of_push(old(self)@.flying, log);
            assert(self@.bodies =~= bodies_of(self@.ground, self@.base.handle, self@.flying));
            assert(self@.groups =~= groups_of(self@.ground, self@.base.handle, self@.flying));
        }
    }

    /// Takes the flying log at position `i` out of the queue and its body
    /// out of the world.
    fn remove_log(&mut self, i: usize)
        requires
            old(self).wf(),
            i < old(self)@.flying.len(),
        ensures
            final(self).wf(),
            final(self)@ == (PhysicsView {
                flying: old(self)@.flying.remove(i as int),
                bodies: bodies_of(
                    old(self)@.ground,
                    old(self)@.base.handle,
                    old(self)@.flying.remove(i as int),
                ),
                groups: groups_of(
                    old(self)@.ground,
                    old(self)@.base.handle,
                    old(self)@.flying.remove(i as int),
                ),
                ..old(self)@
            }),
    {
        let log = self.flying_logs[i];
        proof {
            assert(handles_of(self@.flying).contains(self@.flying[i as int].handle));
        }
        self.flying_logs.remove(i);
        remove_body(&mut self.world, log.handle);
        proof {
            lemma_handles_of_remove(old(self)@.flying, i as int);
            assert(self@.bodies =~= bodies_of(self@.ground, self@.base.handle, self@.flying));
            assert(self@.groups =~= groups_of(self@.ground, self@.base.handle, self@.flying));
        }
    }

    /// Follows a chop that the game has just taken, so call it after the
    /// game's update.
    ///
    /// The log that was at the base flies off with the body `debris`,
    /// behind the logs that fly already; the base log is put one level up,
    /// falling, with the branch of the game's lowest level. Then the flying
    /// logs that `far` marks, each by its position among them, leave the
    /// world, and so do the oldest as long as more than the cap are left.
    pub fn update(&mut self, game: &Game, debris: BodyParts, far: &Vec<bool>)
        requires
            old(self).wf(),
            game.wf(),
        ensures
            final(self).wf(),
            exists|spawned: BodyHandle|
                !old(self)@.bodies.contains(spawned) && final(self)@ == #[trigger] after_chop(
                    old(self)@,
                    game@.track[0],
                    far@,
                    spawned,
                ),
    {
        let old_branch = self.base_log.branch;
        let new_branch = game.front();
        self.add_new_flying_log(debris, old_branch);
        self.update_base_log(new_branch);
        let ghost thrown = self@.flying;
        let ghost spawned = thrown.last().handle;

        let count = self.flying_logs.len();
        let mut seen: usize = 0;
        let mut kept: usize = 0;
        while seen < count
            invariant
                self.wf(),
                count == thrown.len(),
                seen <= count,
                kept <= seen,
                self@.flying == near_logs(thrown.take(seen as int), far@) + thrown.skip(seen as int),
                kept == near_logs(thrown.take(seen as int), far@).len(),
                self@.ground == old(self)@.ground,
                self@.base == (PhysicsLog { handle: old(self)@.base.handle, branch: new_branch }),
                self@.cap == old(self)@.cap,
            decreases count - seen,
        {
            proof {
                let before = near_logs(thrown.take(seen as int), far@);
                assert(thrown.take(seen + 1).drop_last() =~= thrown.take(seen as int));
                assert(thrown.take(seen + 1).last() == thrown[seen as int]);
                assert(self@.flying[kept as int] == thrown.skip(seen as int)[0]);
                assert(self@.flying.remove(kept as int) =~= before + thrown.skip(seen + 1));
                assert(self@.flying =~= before.push(thrown[seen as int]) + thrown.skip(seen + 1));
            }
            if seen < far.len() && far[seen] {
                self.remove_log(kept);
            } else {
                kept += 1;
            }
            seen += 1;
        }
        let ghost near = self@.flying;
        proof {
            assert(thrown.take(count as int) =~= thrown);
            assert(near =~= near_logs(thrown, far@));
        }
        while self.flying_logs.len() > self.cap
            invariant
                self.wf(),
                near.len() >= self@.flying.len(),
                self@.flying.len() >= self@.cap || self@.flying.len() == near.len(),
                self@.flying == near.skip(near.len() - self@.flying.len()),
                self@.ground == old(self)@.ground,
                self@.base == (PhysicsLog { handle: old(self)@.base.handle, branch: new_branch }),
                self@.cap == old(self)@.cap,
            decreases self.flying_logs.len(),
        {
            proof {
                let left = self@.flying;
                assert(left.remove(0) =~= near.skip(near.len() - (left.len() - 1)));
            }
            self.remove_log(0);
        }
        proof {
            assert(near.skip(0) =~= near);
            assert(self@.flying == newest(near, self@.cap));
            assert(self@ == after_chop(old(self)@, game@.track[0], far@, spawned));
        }
    }

    /// Advances the world by one time step. No log is gained or lost.
    pub fn step(&mut self)
        requires
            old(self).wf(),
        ensures
            final(self).wf(),
            final(self)@ == old(self)@,
    {
        step_world(&mut self.world);
    }

    /// The scene to draw: the tree of the game, level by level, and then
    /// every flying log at the place of its body.
    pub fn make_scene(&self, game: &Game) -> (scene: Vec<SceneLog>)
        requires
            game.wf(),
        ensures
            scene@ == scene_of(game@.track, self@.flying),
    {
        let mut scene: Vec<SceneLog> = Vec::new();
        let tree = game.tree();
        let mut i: usize = 0;
        while i < tree.len()
            invariant
                i <= tree.len(),
                tree@ == game@.track,
                scene@ == scene_of(game@.track, self@.flying).take(i as int),
            decreases tree.len() - i,
        {
            scene.push(SceneLog { branch: tree[i], placement: Placement::Level(i) });
            proof {
                let whole = scene_of(game@.track, self@.flying);
                assert(scene@ =~= whole.take(i + 1));
            }
            i += 1;
        }
        let levels = tree.len();
        let mut k: usize = 0;
        while k < self.flying_logs.len()
            invariant
                k <= self.flying_logs.len(),
                levels == game@.track.len(),
                scene@ == scene_of(game@.track, self@.flying).take(levels + k),
            decreases self.flying_logs.len() - k,
        {
            let log = self.flying_logs[k];
            scene.push(SceneLog { branch: log.branch, placement: Placement::Body(log.handle) });
            proof {
                let whole = scene_of(game@.track, self@.flying);
                assert(scene@ =~= whole.take(levels + k + 1));
            }
            k += 1;
        }
        proof {
            let whole = scene_of(game@.track, self@.flying);
            assert(whole.take(whole.len() as int) =~= whole);
        }
        scene
    }

    /// The log at the base of the tree.
    pub fn base_log(&self) -> (log: PhysicsLog)
        ensures
            log == self@.base,
    {
        self.base_log
    }

    /// The flying logs, oldest first.
    pub fn flying_logs(&self) -> (logs: &VecDeque<PhysicsLog>)
        ensures
            logs@ == self@.flying,
    {
        &self.flying_logs
    }

    /// How many flying logs are kept at most.
    pub fn cap(&self) -> (cap: usize)
        ensures
            cap == self@.cap,
    {
        self.cap
    }

    /// The body of the ground.
    pub fn ground(&self) -> (ground: BodyHandle)
        ensures
            ground == self@.ground,
    {
        self.ground
    }

    /// The bodies of the world, to read the poses of the logs from.
    pub fn bodies(&self) -> (bodies: &RigidBodySet)
        ensures
            body_handles(*bodies) == self@.bodies,
    {
        self.world.bodies()
    }

    /// The colliders of the world.
    pub fn colliders(&self) -> (colliders: &ColliderSet)
        ensures
            collider_groups(*colliders) == self@.groups,
    {
        self.world.colliders()
    }
}

/// No logs have no handles.
pub proof fn lemma_no_logs_no_handles()
    ensures
        handles_of(Seq::empty()) == Set::<BodyHandle>::empty(),
{
    assert(handles_of(Seq::empty()) =~= Set::<BodyHandle>::empty());
}

/// One log more has one handle more.
pub proof fn lemma_handles_of_push(logs: Seq<PhysicsLog>, log: PhysicsLog)
    ensures
        handles_of(logs.push(log)) == handles_of(logs).insert(log.handle),
{
    let more = logs.push(log);
    assert forall|h: BodyHandle| handles_of(more).contains(h) <==> handles_of(logs).insert(
        log.handle,
    ).contains(h) by {
        if handles_of(more).contains(h) {
            let i = choose|i: int| 0 <= i < more.len() && (#[trigger] more[i]).handle == h;
            if i < logs.len() {
                assert(logs[i].handle == h);
            }
        }
        if handles_of(logs).contains(h) {
            let i = choose|i: int| 0 <= i < logs.len() && (#[trigger] logs[i]).handle == h;
            assert(more[i].handle == h);
        }
        if h == log.handle {
            assert(more[logs.len() as int].handle == h);
        }
    }
    assert(handles_of(more) =~= handles_of(logs).insert(log.handle));
}

/// Where no two logs share a handle, one log less has one handle less.
pub proof fn lemma_handles_of_remove(logs: Seq<PhysicsLog>, i: int)
    requires
        0 <= i < logs.len(),
        forall|a: int, b: int|
            0 <= a < b < logs.len() ==> (#[trigger] logs[a]).handle != (#[trigger] logs[b]).handle,
    ensures
        handles_of(logs.remove(i)) == handles_of(logs).remove(logs[i].handle),
{
    let less = logs.remove(i);
    assert forall|h: BodyHandle| handles_of(less).contains(h) <==> handles_of(logs).remove(
        logs[i].handle,
    ).contains(h) by {
        if handles_of(less).contains(h) {
            let k = choose|k: int| 0 <= k < less.len() && (#[trigger] less[k]).handle == h;
            if k < i {
                assert(logs[k].handle == h);
            } else {
                assert(logs[k + 1].handle == h);
            }
        }
        if handles_of(logs).contains(h) && h != logs[i].handle {
            let k = choose|k: int| 0 <= k < logs.len() && (#[trigger] logs[k]).handle == h;
            if k < i {
                assert(less[k].handle == h);
            } else {
                assert(less[k - 1].handle == h);
            }
        }
    }
    assert(handles_of(less) =~= handles_of(logs).remove(logs[i].handle));
}

/// In a valid world the logs touch the ground and nothing else: of two
/// colliders that are tied to different bodies, the two touch just when
/// one of them is the collider of the ground.
pub proof fn lemma_logs_touch_only_the_ground_in_world(
    v: PhysicsView,
    one: (BodyHandle, Groups),
    other: (BodyHandle, Groups),
)
    requires
        valid_physics(v),
        v.groups.contains(one),
        v.groups.contains(other),
        one.0 != other.0,
    ensures
        groups_interact(one.1, other.1) <==> (one.0 == v.ground || other.0 == v.ground),
{
    crate::collision::lemma_logs_touch_only_the_ground();
    crate::collision::lemma_groups_interact_is_symmetric(one.1, other.1);
    if handles_of(v.flying).contains(v.ground) {
        let i = choose|i: int| 0 <= i < v.flying.len() && (#[trigger] v.flying[i]).handle == v.ground;
    }
    if handles_of(v.flying).contains(v.base.handle) {
        let i = choose|i: int|
            0 <= i < v.flying.len() && (#[trigger] v.flying[i]).handle == v.base.handle;
    }
}

/// In a valid world every body has exactly one collider: the groups a
/// body's collider has are fixed by what the body is.
pub proof fn lemma_one_collider_for_each_body(
    v: PhysicsView,
    one: (BodyHandle, Groups),
    other: (BodyHandle, Groups),
)
    requires
        valid_physics(v),
        v.groups.contains(one),
        v.groups.contains(other),
        one.0 == other.0,
    ensures
        one == other,
        v.bodies.contains(one.0),
{
    if handles_of(v.flying).contains(v.ground) {
        let i = choose|i: int| 0 <= i < v.flying.len() && (#[trigger] v.flying[i]).handle == v.ground;
    }
    if handles_of(v.flying).contains(v.base.handle) {
        let i = choose|i: int|
            0 <= i < v.flying.len() && (#[trigger] v.flying[i]).handle == v.base.handle;
    }
}

/// Logs with handles of their own have as many handles as they are.
pub proof fn lemma_handles_of_distinct_logs(logs: Seq<PhysicsLog>)
    requires
        forall|a: int, b: int|
            0 <= a < b < logs.len() ==> (#[trigger] logs[a]).handle != (#[trigger] logs[b]).handle,
    ensures
        handles_of(logs).finite(),
        handles_of(logs).len() == logs.len(),
    decreases logs.len(),
{
    if logs.len() == 0 {
        lemma_no_logs_no_handles();
        assert(logs =~= Seq::empty());
    } else {
        let front = logs.drop_last();
        lemma_handles_of_distinct_logs(front);
        lemma_handles_of_push(front, logs.last());
        assert(front.push(logs.last()) =~= logs);
        if handles_of(front).contains(logs.last().handle) {
            let i = choose|i: int| 0 <= i < front.len() && (#[trigger] front[i]).handle == logs.last().handle;
            assert(logs[i].handle == logs[logs.len() - 1].handle);
        }
    }
}

/// A valid world holds one body for the ground, one for the base log and
/// one for each flying log: no body is left behind.
pub proof fn lemma_world_holds_no_stray_body(v: PhysicsView)
    requires
        valid_physics(v),
    ensures
        v.bodies.finite(),
        v.bodies.len() == v.flying.len() + 2,
{
    lemma_handles_of_distinct_logs(v.flying);
    if handles_of(v.flying).contains(v.base.handle) {
        let i = choose|i: int| 0 <= i < v.flying.len() && (#[trigger] v.flying[i]).handle == v.base.handle;
    }
    if handles_of(v.flying).insert(v.base.handle).contains(v.ground) {
        let i = choose|i: int| 0 <= i < v.flying.len() && (#[trigger] v.flying[i]).handle == v.ground;
    }
}

/// A log that is kept as near is one of the logs, and one that is not
/// marked as far away.
pub proof fn lemma_near_logs_are_unmarked(logs: Seq<PhysicsLog>, far: Seq<bool>, k: int)
    requires
        0 <= k < near_logs(logs, far).len(),
    ensures
        exists|i: int|
            0 <= i < logs.len() && !is_far(far, i) && #[trigger] logs[i] == near_logs(logs, far)[k],
    decreases logs.len(),
{
    if logs.len() > 0 {
        let before = near_logs(logs.drop_last(), far);
        if k < before.len() {
            lemma_near_logs_are_unmarked(logs.drop_last(), far, k);
            let i = choose|i: int|
                0 <= i < logs.drop_last().len() && !is_far(far, i) && #[trigger] logs.drop_last()[i]
                    == before[k];
            assert(logs[i] == near_logs(logs, far)[k]);
        } else {
            assert(logs[logs.len() - 1] == near_logs(logs, far)[k]);
        }
    }
}

/// Logs with handles of their own keep them when the far ones are taken out.
pub proof fn lemma_near_logs_stay_distinct(logs: Seq<PhysicsLog>, far: Seq<bool>)
    requires
        forall|a: int, b: int|
            0 <= a < b < logs.len() ==> (#[trigger] logs[a]).handle != (#[trigger] logs[b]).handle,
    ensures
        forall|a: int, b: int|
            0 <= a < b < near_logs(logs, far).len() ==> (#[trigger] near_logs(logs, far)[a]).handle
                != (#[trigger] near_logs(logs, far)[b]).handle,
    decreases logs.len(),
{
    if logs.len() > 0 {
        let front = logs.drop_last();
        let near = near_logs(logs, far);
        lemma_near_logs_stay_distinct(front, far);
        assert forall|a: int, b: int| 0 <= a < b < near.len() implies (#[trigger] near[a]).handle
            != (#[trigger] near[b]).handle by {
            if b < near_logs(front, far).len() {
                assert(near[a] == near_logs(front, far)[a]);
                assert(near[b] == near_logs(front, far)[b]);
            } else {
                lemma_near_logs_are_unmarked(front, far, a);
                let i = choose|i: int|
                    0 <= i < front.len() && !is_far(far, i) && #[trigger] front[i] == near_logs(
                        front,
                        far,
                    )[a];
                assert(logs[i] == near[a]);
                assert(logs[logs.len() - 1] == near[b]);
            }
        }
    }
}

/// A chop leaves a valid world valid, whichever new body the engine makes
/// for the log that flies off.
pub proof fn lemma_chop_keeps_physics_valid(
    v: PhysicsView,
    front: Branch,
    far: Seq<bool>,
    spawned: BodyHandle,
)
    requires
        valid_physics(v),
        !v.bodies.contains(spawned),
    ensures
        valid_physics(after_chop(v, front, far, spawned)),
{
    let thrown = v.flying.push(PhysicsLog { handle: spawned, branch: v.base.branch });
    let near = near_logs(thrown, far);
    let left = after_chop(v, front, far, spawned).flying;
    let skipped: int = if near.len() > v.cap {
        near.len() - v.cap
    } else {
        0
    };
    assert forall|i: int| 0 <= i < v.flying.len() implies v.bodies.contains(
        (#[trigger] v.flying[i]).handle,
    ) by {
        assert(handles_of(v.flying).contains(v.flying[i].handle));
    }
    assert forall|a: int, b: int| 0 <= a < b < thrown.len() implies (#[trigger] thrown[a]).handle
        != (#[trigger] thrown[b]).handle by {
        if b < v.flying.len() {
            assert(thrown[a] == v.flying[a] && thrown[b] == v.flying[b]);
        } else {
            assert(thrown[a] == v.flying[a]);
        }
    }
    lemma_near_logs_stay_distinct(thrown, far);
    assert forall|k: int| 0 <= k < left.len() implies (#[trigger] left[k]).handle != v.ground
        && left[k].handle != v.base.handle by {
        assert(left[k] == near[k + skipped]);
        lemma_near_logs_are_unmarked(thrown, far, k + skipped);
        let i = choose|i: int|
            0 <= i < thrown.len() && !is_far(far, i) && #[trigger] thrown[i] == near[k + skipped];
        if i < v.flying.len() {
            assert(thrown[i] == v.flying[i]);
        }
    }
    assert forall|a: int, b: int| 0 <= a < b < left.len() implies (#[trigger] left[a]).handle
        != (#[trigger] left[b]).handle by {
        assert(left[a] == near[a + skipped]);
        assert(left[b] == near[b + skipped]);
    }
}

/// A chop leaves at most as many flying logs as the cap allows, and with
/// them at most that many bodies beside the ground and the base log.
pub proof fn lemma_chop_respects_cap(v: PhysicsView, front: Branch, far: Seq<bool>, spawned: BodyHandle)
    ensures
        after_chop(v, front, far, spawned).flying.len() <= v.cap,
        after_chop(v, front, far, spawned).cap == v.cap,
{
}

/// What a chop brings to the physics: the branch of the level that has
/// come down, the marks of the logs that are far, and the new body that
/// the engine makes for the log that flies off.
pub struct Chop {
    pub front: Branch,
    pub far: Seq<bool>,
    pub spawned: BodyHandle,
}

/// The physics after a sequence of chops.
pub open spec fn after_chops(v: PhysicsView, chops: Seq<Chop>) -> PhysicsView
    decreases chops.len(),
{
    if chops.len() == 0 {
        v
    } else {
        let before = after_chops(v, chops.drop_last());
        after_chop(before, chops.last().front, chops.last().far, chops.last().spawned)
    }
}

/// Each chop of the sequence gets a body that the world does not hold yet.
pub open spec fn bodies_are_new(v: PhysicsView, chops: Seq<Chop>) -> bool
    decreases chops.len(),
{
    chops.len() > 0 ==> bodies_are_new(v, chops.drop_last()) && !after_chops(
        v,
        chops.drop_last(),
    ).bodies.contains(chops.last().spawned)
}

/// After any sequence of chops, the flying logs are no more than the cap
/// allows. (Before the first chop they are as many as they were.)
pub proof fn lemma_chops_respect_cap(v: PhysicsView, chops: Seq<Chop>)
    ensures
        after_chops(v, chops).cap == v.cap,
        chops.len() > 0 || v.flying.len() <= v.cap ==> after_chops(v, chops).flying.len() <= v.cap,
    decreases chops.len(),
{
    if chops.len() > 0 {
        lemma_chops_respect_cap(v, chops.drop_last());
    }
}

/// After any sequence of chops, a valid world is valid: every log has a
/// body of its own and the world holds no other body, so that it holds at
/// most as many bodies as the cap allows beside the ground and the base log.
pub proof fn lemma_chops_keep_physics_valid(v: PhysicsView, chops: Seq<Chop>)
    requires
        valid_physics(v),
        bodies_are_new(v, chops),
    ensures
        valid_physics(after_chops(v, chops)),
        after_chops(v, chops).bodies.finite(),
        chops.len() > 0 ==> after_chops(v, chops).bodies.len() <= v.cap + 2,
    decreases chops.len(),
{
    if chops.len() > 0 {
        let before = after_chops(v, chops.drop_last());
        lemma_chops_keep_physics_valid(v, chops.drop_last());
        lemma_chop_keeps_physics_valid(
            before,
            chops.last().front,
            chops.last().far,
            chops.last().spawned,
        );
        lemma_chops_respect_cap(v, chops);
    }
    lemma_world_holds_no_stray_body(after_chops(v, chops));
}

/// A flying log that is marked as far away is gone after the chop: it is
/// no flying log any more, and its body has left the world.
pub proof fn lemma_chop_removes_far_logs(
    v: PhysicsView,
    front: Branch,
    far: Seq<bool>,
    spawned: BodyHandle,
    i: int,
)
    requires
        valid_physics(v),
        !v.bodies.contains(spawned),
        0 <= i < v.flying.len(),
        is_far(far, i),
    ensures
        !handles_of(after_chop(v, front, far, spawned).flying).contains(v.flying[i].handle),
        !after_chop(v, front, far, spawned).bodies.contains(v.flying[i].handle),
{
    let thrown = v.flying.push(PhysicsLog { handle: spawned, branch: v.base.branch });
    let near = near_logs(thrown, far);
    let left = after_chop(v, front, far, spawned).flying;
    let gone = v.flying[i].handle;
    assert(v.bodies.contains(gone)) by {
        assert(handles_of(v.flying).contains(gone));
    }
    if handles_of(left).contains(gone) {
        let k = choose|k: int| 0 <= k < left.len() && (#[trigger] left[k]).handle == gone;
        let n = if near.len() > v.cap {
            near.len() - v.cap + k
        } else {
            k
        };
        assert(near[n] == left[k]);
        lemma_near_logs_are_unmarked(thrown, far, n);
        let j = choose|j: int|
            0 <= j < thrown.len() && !is_far(far, j) && #[trigger] thrown[j] == near[n];
        if j < v.flying.len() {
            assert(v.flying[j].handle == v.flying[i].handle);
        }
    }
}

/// A reset forgets what flew and what grew on the base log: two worlds
/// with the same ground, base body and cap are the same after it. To reset
/// twice is to reset once.
pub proof fn lemma_reset_is_canonical(v: PhysicsView, w: PhysicsView)
    requires
        v.ground == w.ground,
        v.base.handle == w.base.handle,
        v.cap == w.cap,
    ensures
        after_reset(v) == after_reset(w),
        after_reset(after_reset(v)) == after_reset(v),
        after_reset(v).flying.len() == 0,
        after_reset(v).base.branch == Branch::Clear,
{
}

} // verus!
