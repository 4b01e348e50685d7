use rapier3d::dynamics::{
    CCDSolver, IntegrationParameters, IslandManager, JointSet, RigidBody, RigidBodyHandle,
    RigidBodySet,
};
use crate::collision::Groups;
use rapier3d::geometry::{BroadPhase, Collider, ColliderSet, InteractionGroups, NarrowPhase};
use rapier3d::pipeline::PhysicsPipeline;
use vstd::prelude::*;

verus! {

/// The set of rigid bodies of the physics engine. Opaque here: what the
/// library knows of one is [`body_handles`].
#[verifier::external_type_specification]
#[verifier::external_body]
pub struct ExRigidBodySet(RigidBodySet);

/// A rigid body as the engine builds it. Carried through, never read.
#[verifier::external_type_specification]
#[verifier::external_body]
pub struct ExRigidBody(RigidBody);

/// The set of colliders of the physics engine. Carried through, never read.
#[verifier::external_type_specification]
#[verifier::external_body]
pub struct ExColliderSet(ColliderSet);

/// A collider as the engine builds it. Carried through, never read.
#[verifier::external_type_specification]
#[verifier::external_body]
pub struct ExCollider(Collider);

/// The engine's record of which bodies are awake. Carried through, never read.
#[verifier::external_type_specification]
#[verifier::external_body]
pub struct ExIslandManager(IslandManager);

/// The engine's set of joints. Carried through, never read.
#[verifier::external_type_specification]
#[verifier::external_body]
pub struct ExJointSet(JointSet);

/// The engine's solver for continuous collision detection. Carried through, never read.
#[verifier::external_type_specification]
#[verifier::external_body]
pub struct ExCcdSolver(CCDSolver);

/// The engine's time step and solver settings. Carried through, never read.
#[verifier::external_type_specification]
#[verifier::external_body]
pub struct ExIntegrationParameters(IntegrationParameters);

/// The engine's broad phase. Carried through, never read.
#[verifier::external_type_specification]
#[verifier::external_body]
pub struct ExBroadPhase(BroadPhase);

/// The engine's narrow phase. Carried through, never read.
#[verifier::external_type_specification]
#[verifier::external_body]
pub struct ExNarrowPhase(NarrowPhase);

/// The engine's stepping pipeline. Carried through, never read.
#[verifier::external_type_specification]
#[verifier::external_body]
pub struct ExPhysicsPipeline(PhysicsPipeline);

/// The matrix type of `nalgebra`, of which the engine's vectors are made.
/// Carried through, never read.
#[verifier::external_type_specification]
#[verifier::external_body]
#[verifier::reject_recursive_types(T)]
#[verifier::reject_recursive_types(R)]
#[verifier::reject_recursive_types(C)]
#[verifier::reject_recursive_types(S)]
pub struct ExMatrix<T, R, C, S>(nalgebra::Matrix<T, R, C, S>);

/// A dimension of `nalgebra` that is known when the program is built.
#[verifier::external_type_specification]
#[verifier::external_body]
pub struct ExConst<const N: usize>(nalgebra::Const<N>);

/// The array in which `nalgebra` stores a matrix of known dimensions.
#[verifier::external_type_specification]
#[verifier::external_body]
#[verifier::reject_recursive_types(T)]
pub struct ExArrayStorage<T, const R: usize, const C: usize>(nalgebra::ArrayStorage<T, R, C>);

/// The derived `Clone` of the engine's rigid body. Nothing is claimed of the copy.
pub assume_specification[ <RigidBody as Clone>::clone ](body: &RigidBody) -> (copy: RigidBody)
;

/// The derived `Clone` of the engine's collider. Nothing is claimed of the copy.
pub assume_specification[ <Collider as Clone>::clone ](collider: &Collider) -> (copy: Collider)
;

/// The derived `Clone` of `nalgebra`'s matrix. Nothing is claimed of the copy.
pub assume_specification<T, R, C, S>[ <nalgebra::Matrix<T, R, C, S> as Clone>::clone ](
    matrix: &nalgebra::Matrix<T, R, C, S>,
) -> (copy: nalgebra::Matrix<T, R, C, S>) where T: Clone, R: Clone, C: Clone, S: Clone
;

/// A vector of the engine: a position, a velocity, or gravity.
pub type Vector3 = rapier3d::math::Vector<rapier3d::math::Real>;

/// The handle of a rigid body, as the two numbers the engine makes it of.
#[derive(Debug, Clone, Copy, PartialEq, Eq, Structural)]
pub struct BodyHandle {
    /// The slot of the body in the engine's arena.
    pub index: u32,
    /// The generation of the slot at the time the body was put in.
    pub generation: u32,
}

/// The handles of the bodies that a set holds: those for which the set's
/// `contains` answers true.
pub uninterp spec fn body_handles(bodies: RigidBodySet) -> Set<BodyHandle>;

/// What the colliders of a set are tied to and what they may touch: for
/// each collider of the set that is tied to a body, the pair of the
/// body's handle and the collider's collision groups.
pub uninterp spec fn collider_groups(colliders: ColliderSet) -> Set<(BodyHandle, Groups)>;

/// A physics world: the bodies, their colliders and what the engine needs
/// to step them.
pub struct World {
    pub(crate) bodies: RigidBodySet,
    pub(crate) colliders: ColliderSet,
    pub(crate) gravity: Vector3,
    pub(crate) integration_parameters: IntegrationParameters,
    pub(crate) physics_pipeline: PhysicsPipeline,
    pub(crate) islands: IslandManager,
    pub(crate) broad_phase: BroadPhase,
    pub(crate) narrow_phase: NarrowPhase,
    pub(crate) joints: JointSet,
    pub(crate) ccd_solver: CCDSolver,
}

impl World {
    /// The handles of the bodies in this world.
    pub open(crate) spec fn handles(&self) -> Set<BodyHandle> {
        body_handles(self.bodies)
    }

    /// What the colliders in this world are tied to and what they may touch.
    pub open(crate) spec fn groups(&self) -> Set<(BodyHandle, Groups)> {
        collider_groups(self.colliders)
    }

    /// An empty world under the given gravity.
    pub(crate) fn new(gravity: Vector3) -> (world: World)
        ensures
            world.handles() == Set::<BodyHandle>::empty(),
            world.groups() == Set::<(BodyHandle, Groups)>::empty(),
    {
        World {
            bodies: new_body_set(),
            colliders: new_collider_set(),
            gravity,
            integration_parameters: IntegrationParameters::default(),
            physics_pipeline: PhysicsPipeline::new(),
            islands: IslandManager::new(),
            broad_phase: BroadPhase::new(),
            narrow_phase: NarrowPhase::new(),
            joints: JointSet::new(),
            ccd_solver: CCDSolver::new(),
        }
    }

    /// The bodies of this world, to read their poses from.
    pub fn bodies(&self) -> (bodies: &RigidBodySet)
        ensures
            body_handles(*bodies) == self.handles(),
    {
        &self.bodies
    }

    /// The colliders of this world.
    pub fn colliders(&self) -> (colliders: &ColliderSet)
        ensures
            collider_groups(*colliders) == self.groups(),
    {
        &self.colliders
    }
}

/// An empty set of bodies: `RigidBodySet::new`. The contract claims that
/// the set holds no body.
#[verifier::external_body]
fn new_body_set() -> (bodies: RigidBodySet)
    ensures
        body_handles(bodies) == Set::<BodyHandle>::empty(),
{
    RigidBodySet::new()
}

/// An empty set of colliders: `ColliderSet::new`. The contract claims that
/// the set holds no collider.
#[verifier::external_body]
fn new_collider_set() -> (colliders: ColliderSet)
    ensures
        collider_groups(colliders) == Set::<(BodyHandle, Groups)>::empty(),
{
    ColliderSet::new()
}

/// The engine's default time step and solver settings. Nothing is claimed of them.
pub assume_specification[ <IntegrationParameters as Default>::default ]() -> (parameters:
    IntegrationParameters)
;

/// `PhysicsPipeline::new` makes a stepping pipeline. Nothing is claimed of it.
pub assume_specification[ PhysicsPipeline::new ]() -> (pipeline: PhysicsPipeline)
;

/// `IslandManager::new` makes an empty island manager. Nothing is claimed of it.
pub assume_specification[ IslandManager::new ]() -> (islands: IslandManager)
;

/// `BroadPhase::new` makes an empty broad phase. Nothing is claimed of it.
pub assume_specification[ BroadPhase::new ]() -> (broad_phase: BroadPhase)
;

/// `NarrowPhase::new` makes an empty narrow phase. Nothing is claimed of it.
pub assume_specification[ NarrowPhase::new ]() -> (narrow_phase: NarrowPhase)
;

/// `JointSet::new` makes an empty set of joints. Nothing is claimed of it.
pub assume_specification[ JointSet::new ]() -> (joints: JointSet)
;

/// `CCDSolver::new` makes a solver for continuous collision detection.
/// Nothing is claimed of it.
pub assume_specification[ CCDSolver::new ]() -> (solver: CCDSolver)
;

/// Switches continuous collision detection on for a body:
/// `RigidBody::enable_ccd`. Nothing is claimed of the body afterwards.
#[verifier::external_body]
pub(crate) fn enable_ccd(body: &mut RigidBody) {
    body.enable_ccd(true);
}

/// Puts a body into the world: `RigidBodySet::insert`.
///
/// The contract claims that the handle that comes back was not in the set
/// before (the arena hands out a slot that was free), that the set
/// afterwards holds it beside all that it held, and that the colliders
/// are not touched.
#[verifier::external_body]
pub(crate) fn insert_body(world: &mut World, body: RigidBody) -> (handle: BodyHandle)
    ensures
        !body_handles(old(world).bodies).contains(handle),
        body_handles(final(world).bodies) == body_handles(old(world).bodies).insert(handle),
        collider_groups(final(world).colliders) == collider_groups(old(world).colliders),
{
    let (index, generation) = world.bodies.insert(body).into_raw_parts();
    BodyHandle { index, generation }
}

/// Gives a collider its collision groups, puts it into the world and ties
/// it to a body: `Collider::set_collision_groups`, with the groups that
/// `InteractionGroups::new` makes of the two bit sets, and then
/// `ColliderSet::insert_with_parent`.
///
/// The engine panics where the parent is not in the set of bodies, so the
/// contract asks for it. It claims that the set of bodies holds the same
/// handles afterwards, and that the colliders are those of before and this
/// one, tied to the parent with the groups given.
#[verifier::external_body]
pub(crate) fn attach_collider(
    world: &mut World,
    collider: Collider,
    parent: BodyHandle,
    groups: Groups,
)
    requires
        body_handles(old(world).bodies).contains(parent),
    ensures
        body_handles(final(world).bodies) == body_handles(old(world).bodies),
        collider_groups(final(world).colliders) == collider_groups(old(world).colliders).insert(
            (parent, groups),
        ),
{
    let mut collider = collider;
    collider.set_collision_groups(InteractionGroups::new(groups.memberships, groups.filter));
    let parent = RigidBodyHandle::from_raw_parts(parent.index, parent.generation);
    world.colliders.insert_with_parent(collider, parent, &mut world.bodies);
}

/// Takes a body, with its colliders and joints, out of the world:
/// `RigidBodySet::remove`.
///
/// The contract asks for a body of the world. It claims that the set of
/// bodies afterwards holds what it held but for this handle, and that the
/// colliders are those of before that are tied to another body.
#[verifier::external_body]
pub(crate) fn remove_body(world: &mut World, handle: BodyHandle)
    requires
        body_handles(old(world).bodies).contains(handle),
    ensures
        body_handles(final(world).bodies) == body_handles(old(world).bodies).remove(handle),
        collider_groups(final(world).colliders) == collider_groups(old(world).colliders).filter(
            |tied: (BodyHandle, Groups)| tied.0 != handle,
        ),
{
    let handle = RigidBodyHandle::from_raw_parts(handle.index, handle.generation);
    world.bodies.remove(handle, &mut world.islands, &mut world.colliders, &mut world.joints);
}

/// Moves a body to a place: `RigidBody::set_translation` on the body that
/// `RigidBodySet::get_mut` finds, waking it up.
///
/// The contract asks for a handle of the set, since the body is unwrapped,
/// and claims that the set holds the same handles afterwards and that the
/// colliders are not touched.
#[verifier::external_body]
pub(crate) fn set_body_translation(world: &mut World, handle: BodyHandle, translation: &Vector3)
    requires
        body_handles(old(world).bodies).contains(handle),
    ensures
        body_handles(final(world).bodies) == body_handles(old(world).bodies),
        collider_groups(final(world).colliders) == collider_groups(old(world).colliders),
{
    let handle = RigidBodyHandle::from_raw_parts(handle.index, handle.generation);
    world.bodies.get_mut(handle).unwrap().set_translation(*translation, true);
}

/// Gives a body a linear velocity: `RigidBody::set_linvel` on the body that
/// `RigidBodySet::get_mut` finds, waking it up.
///
/// The contract asks for a handle of the set, since the body is unwrapped,
/// and claims that the set holds the same handles afterwards and that the
/// colliders are not touched.
#[verifier::external_body]
pub(crate) fn set_body_linvel(world: &mut World, handle: BodyHandle, linvel: &Vector3)
    requires
        body_handles(old(world).bodies).contains(handle),
    ensures
        body_handles(final(world).bodies) == body_handles(old(world).bodies),
        collider_groups(final(world).colliders) == collider_groups(old(world).colliders),
{
    let handle = RigidBodyHandle::from_raw_parts(handle.index, handle.generation);
    world.bodies.get_mut(handle).unwrap().set_linvel(*linvel, true);
}

/// Advances the world by one time step: `PhysicsPipeline::step`, without
/// hooks and without an event handler.
///
/// The contract claims that a step neither adds a body nor removes one,
/// and that it leaves each collider tied to its body with its groups: the
/// step reaches the two sets only through traits that can neither add nor
/// remove an entry, and that let it read, but not write, a collider's
/// parent and groups.
#[verifier::external_body]
pub(crate) fn step_world(world: &mut World)
    ensures
        body_handles(final(world).bodies) == body_handles(old(world).bodies),
        collider_groups(final(world).colliders) == collider_groups(old(world).colliders),
{
    world.physics_pipeline.step(
        &world.gravity,
        &world.integration_parameters,
        &mut world.islands,
        &mut world.broad_phase,
        &mut world.narrow_phase,
        &mut world.bodies,
        &mut world.colliders,
        &mut world.joints,
        &mut world.ccd_solver,
        &(),
        &(),
    );
}

} // verus!
