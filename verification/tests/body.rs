use joint_model::body::{RigidBodyHandle, RigidBodySet, RigidBodyType};

#[test]
fn handles_of_removed_bodies_stay_dead() {
    let mut set = RigidBodySet::new();
    let a = set.insert(RigidBodyType::Fixed);
    let b = set.insert(RigidBodyType::Dynamic);
    assert_ne!(a, b);
    assert!(set.contains(a));
    assert_eq!(set.get(b), Some(RigidBodyType::Dynamic));
    assert_eq!(set.take(a), Some(RigidBodyType::Fixed));
    assert!(!set.contains(a));
    assert_eq!(set.take(a), None);
    // The slot is used again, under a new generation.
    let c = set.insert(RigidBodyType::Dynamic);
    assert_eq!(c.into_raw_parts(), (0, 1));
    assert_ne!(c, a);
    assert!(!set.contains(a));
    assert_eq!(set.get(a), None);
    assert_eq!(set.get(c), Some(RigidBodyType::Dynamic));
    assert!(set.contains(b));
}

#[test]
fn unknown_handles_are_absent() {
    let mut set = RigidBodySet::new();
    let a = set.insert(RigidBodyType::Dynamic);
    assert_eq!(a, RigidBodyHandle::from_raw_parts(0, 0));
    assert!(!set.contains(RigidBodyHandle::from_raw_parts(0, 1)));
    assert!(!set.contains(RigidBodyHandle::from_raw_parts(1, 0)));
    assert_eq!(set.take(RigidBodyHandle::from_raw_parts(5, 0)), None);
    assert!(set.contains(a));
}
