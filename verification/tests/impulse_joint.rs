use joint_model::arena::{Arena, Index};
use joint_model::axes_mask::JointAxesMask;
use joint_model::body::{RigidBodySet, RigidBodyType};
use joint_model::generic_joint::GenericJoint;
use joint_model::impulse_joint::{ImpulseJoint, ImpulseJointSet};
use joint_model::math::Real;
use joint_model::spring_joint::SpringJoint;

#[test]
fn pairwise_joints_are_stored_under_handles() {
    let mut bodies = RigidBodySet::new();
    let a = bodies.insert(RigidBodyType::Fixed);
    let b = bodies.insert(RigidBodyType::Dynamic);
    let spring: GenericJoint = SpringJoint::new(
        Real::from_bits(2.0f32.to_bits()),
        Real::from_bits(50.0f32.to_bits()),
        Real::from_bits(5.0f32.to_bits()),
    )
    .into();
    let mut joints = ImpulseJointSet::new();
    let first = joints.insert(a, b, spring);
    let second = joints.insert(b, a, GenericJoint::new(JointAxesMask::locked_fixed_axes()));
    assert_ne!(first, second);
    assert_eq!(joints.get(first), Some(ImpulseJoint { body1: a, body2: b, data: spring }));
    assert!(joints.contains(second));
    let hinge = GenericJoint::new(JointAxesMask::locked_revolute_axes());
    assert!(joints.set_data(second, hinge));
    assert_eq!(joints.get(second), Some(ImpulseJoint { body1: b, body2: a, data: hinge }));
    assert_eq!(joints.remove(first), Some(ImpulseJoint { body1: a, body2: b, data: spring }));
    assert_eq!(joints.remove(first), None);
    assert_eq!(joints.get(first), None);
    assert!(!joints.set_data(first, hinge));
    let third = joints.insert(a, b, hinge);
    assert_ne!(third, first);
    assert_eq!(third.0.index, first.0.index);
    assert!(!joints.contains(first));
    assert!(joints.contains(third));
}

#[test]
fn arena_slots_change_generation_on_reuse() {
    let mut arena: Arena<u8> = Arena::new();
    let a = arena.insert(10);
    let b = arena.insert(20);
    assert_eq!(a, Index::from_raw_parts(0, 0));
    assert_eq!(b.into_raw_parts(), (1, 0));
    assert_eq!(arena.remove(a), Some(10));
    assert_eq!(arena.get(a), None);
    let c = arena.insert(30);
    assert_eq!(c, Index::from_raw_parts(0, 1));
    assert_eq!(arena.get(a), None);
    assert_eq!(arena.get(c), Some(30));
    assert!(arena.set(b, 21));
    assert!(!arena.set(a, 11));
    assert_eq!(arena.get(b), Some(21));
    assert!(!arena.contains(Index::from_raw_parts(7, 0)));
}
