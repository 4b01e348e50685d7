use vstd::prelude::*;

verus! {

/// Membership bit of the ground in the collision groups.
pub const GROUND_GROUP: u32 = 0b1;

/// Membership bit of the logs that fly away.
pub const FLYING_GROUP: u32 = 0b10;

/// Membership bit of the log at the base of the tree.
pub const BASE_GROUP: u32 = 0b100;

/// What a body belongs to and what it may touch, as two bit sets.
#[derive(Debug, Clone, Copy, PartialEq, Eq, Structural)]
pub struct Groups {
    pub memberships: u32,
    pub filter: u32,
}

/// Two bodies touch where each belongs to a group that the other admits.
pub open spec fn groups_interact(a: Groups, b: Groups) -> bool {
    (a.memberships & b.filter) != 0 && (b.memberships & a.filter) != 0
}

/// The groups of the ground: it admits the base log and the flying logs.
pub open spec fn ground_groups() -> Groups {
    Groups { memberships: GROUND_GROUP, filter: BASE_GROUP | FLYING_GROUP }
}

/// The groups of the base log: it admits the ground only.
pub open spec fn base_groups() -> Groups {
    Groups { memberships: BASE_GROUP, filter: GROUND_GROUP }
}

/// The groups of a flying log: it admits the ground only.
pub open spec fn flying_groups() -> Groups {
    Groups { memberships: FLYING_GROUP, filter: GROUND_GROUP }
}

impl Groups {
    /// The groups of the ground.
    pub fn ground() -> (groups: Groups)
        ensures
            groups == ground_groups(),
    {
        Groups { memberships: GROUND_GROUP, filter: BASE_GROUP | FLYING_GROUP }
    }

    /// The groups of the base log.
    pub fn base() -> (groups: Groups)
        ensures
            groups == base_groups(),
    {
        Groups { memberships: BASE_GROUP, filter: GROUND_GROUP }
    }

    /// The groups of a flying log.
    pub fn flying() -> (groups: Groups)
        ensures
            groups == flying_groups(),
    {
        Groups { memberships: FLYING_GROUP, filter: GROUND_GROUP }
    }

    /// Whether bodies of these two groups touch.
    pub fn interacts(self, other: Groups) -> (touch: bool)
        ensures
            touch == groups_interact(self, other),
    {
        (self.memberships & other.filter) != 0 && (other.memberships & self.filter) != 0
    }
}

/// The collision groups keep the logs apart: the ground touches the base
/// log and the flying logs, and no log touches another log.
pub proof fn lemma_logs_touch_only_the_ground()
    ensures
        groups_interact(ground_groups(), base_groups()),
        groups_interact(ground_groups(), flying_groups()),
        !groups_interact(base_groups(), base_groups()),
        !groups_interact(base_groups(), flying_groups()),
        !groups_interact(flying_groups(), flying_groups()),
        !groups_interact(ground_groups(), ground_groups()),
{
    assert(0b1u32 & 0b1u32 != 0) by (bit_vector);
    assert(0b10u32 & (0b100u32 | 0b10u32) != 0) by (bit_vector);
    assert(0b100u32 & (0b100u32 | 0b10u32) != 0) by (bit_vector);
    assert(0b100u32 & 0b1u32 == 0) by (bit_vector);
    assert(0b10u32 & 0b1u32 == 0) by (bit_vector);
    assert(0b1u32 & (0b100u32 | 0b10u32) == 0) by (bit_vector);
}

/// Whether two bodies touch does not depend on which of them is asked.
pub proof fn lemma_groups_interact_is_symmetric(a: Groups, b: Groups)
    ensures
        groups_interact(a, b) == groups_interact(b, a),
{
}

} // verus!
