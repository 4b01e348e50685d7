use lumber::collision::{Groups, BASE_GROUP, FLYING_GROUP, GROUND_GROUP};
use rapier3d::geometry::InteractionGroups;

#[test]
fn groups_are_three_different_bits() {
    assert_eq!(GROUND_GROUP, 1);
    assert_eq!(FLYING_GROUP, 2);
    assert_eq!(BASE_GROUP, 4);
}

#[test]
fn policy_groups_are_as_configured() {
    assert_eq!(Groups::ground(), Groups { memberships: 1, filter: 6 });
    assert_eq!(Groups::base(), Groups { memberships: 4, filter: 1 });
    assert_eq!(Groups::flying(), Groups { memberships: 2, filter: 1 });
}

#[test]
fn logs_touch_the_ground_and_nothing_else() {
    let ground = Groups::ground();
    let base = Groups::base();
    let flying = Groups::flying();
    assert!(ground.interacts(base));
    assert!(base.interacts(ground));
    assert!(ground.interacts(flying));
    assert!(flying.interacts(ground));
    assert!(!base.interacts(base));
    assert!(!base.interacts(flying));
    assert!(!flying.interacts(base));
    assert!(!flying.interacts(flying));
}

#[test]
fn interaction_agrees_with_the_engine() {
    let all = [
        Groups::ground(),
        Groups::base(),
        Groups::flying(),
        Groups { memberships: 0, filter: 0 },
        Groups { memberships: u32::MAX, filter: u32::MAX },
        Groups { memberships: 0b1010, filter: 0b0101 },
    ];
    for a in all {
        for b in all {
            let engine = InteractionGroups::new(a.memberships, a.filter)
                .test(InteractionGroups::new(b.memberships, b.filter));
            assert_eq!(a.interacts(b), engine);
        }
    }
}
