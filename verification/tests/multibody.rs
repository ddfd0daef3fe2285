use joint_model::axes_mask::JointAxesMask;
use joint_model::axis::JointAxis;
use joint_model::body::{RigidBodyHandle, RigidBodySet, RigidBodyType};
use joint_model::generic_joint::{GenericJoint, GenericJointBuilder};
use joint_model::math::{Point, Real};
use joint_model::motor::{JointMotor, MotorModel};
use joint_model::multibody::{MultibodyEdge, MultibodyJointHandle, MultibodyJointSet};

fn scalar(x: f32) -> Real {
    Real::from_bits(x.to_bits())
}

fn point(x: f32, y: f32, z: f32) -> Point {
    Point::new(scalar(x), scalar(y), scalar(z))
}

fn ball_joint() -> GenericJoint {
    GenericJointBuilder::new(JointAxesMask::locked_spherical_axes())
        .local_anchor1(point(0.0, 0.25, 0.0))
        .local_anchor2(point(0.0, -0.25, 0.0))
        .build()
}

fn bodies(count: usize) -> (RigidBodySet, Vec<RigidBodyHandle>) {
    let mut set = RigidBodySet::new();
    let mut handles = Vec::new();
    for i in 0..count {
        let body_type = if i == 0 { RigidBodyType::Fixed } else { RigidBodyType::Dynamic };
        handles.push(set.insert(body_type));
    }
    (set, handles)
}

#[test]
fn hinge_with_position_motor_reads_back() {
    let mut bodies = RigidBodySet::new();
    let root = bodies.insert(RigidBodyType::Fixed);
    let child = bodies.insert(RigidBodyType::Dynamic);
    let quarter_pi = std::f32::consts::FRAC_PI_4;
    let joint = GenericJointBuilder::new(JointAxesMask::locked_revolute_axes())
        .local_anchor1(point(0.0, 0.25, 0.0))
        .local_anchor2(point(-0.25, 0.0, 0.0))
        .motor_position(JointAxis::AngX, scalar(quarter_pi), scalar(1000.0), scalar(200.0))
        .build();
    let mut joints = MultibodyJointSet::new();
    let handle = joints.insert(&bodies, root, child, joint, true).expect("a new edge");
    assert_eq!(handle, MultibodyJointHandle(child));
    let edge = joints.get(handle).expect("the edge");
    assert_eq!(edge.parent, root);
    assert_eq!(edge.child, child);
    assert!(edge.merge_as_single_body);
    assert!(edge.self_contacts_enabled);
    let motor = edge.joint.motor(JointAxis::AngX).expect("the motor");
    assert_eq!(f32::from_bits(motor.target_pos.to_bits()), quarter_pi);
    assert_eq!(f32::from_bits(motor.stiffness.to_bits()), 1000.0);
    assert_eq!(f32::from_bits(motor.damping.to_bits()), 200.0);
    assert_eq!(
        motor,
        JointMotor {
            target_vel: scalar(0.0),
            target_pos: scalar(quarter_pi),
            stiffness: scalar(1000.0),
            damping: scalar(200.0),
            max_force: scalar(f32::MAX),
            model: MotorModel::AccelerationBased,
        }
    );
    assert!(!edge.joint.is_locked(JointAxis::AngX));
    for axis in [JointAxis::X, JointAxis::Y, JointAxis::Z, JointAxis::AngY, JointAxis::AngZ] {
        assert!(edge.joint.is_locked(axis));
        assert_eq!(edge.joint.motor(axis), None);
    }
    assert_eq!(edge.joint.local_anchor1(), point(0.0, 0.25, 0.0));
    assert_eq!(edge.joint.local_anchor2(), point(-0.25, 0.0, 0.0));
    assert_eq!(edge.joint, joint);
    assert_eq!(edge.joint.validate(), Ok(()));
    assert_eq!(bodies.get(root), Some(RigidBodyType::Fixed));
    assert_eq!(bodies.get(child), Some(RigidBodyType::Dynamic));
}

#[test]
fn insert_rejects_cycle_and_leaves_forest_unchanged() {
    let (set, h) = bodies(3);
    let mut joints = MultibodyJointSet::new();
    assert!(joints.insert(&set, h[0], h[1], ball_joint(), true).is_some());
    assert!(joints.insert(&set, h[1], h[2], ball_joint(), true).is_some());
    let before = joints.edge_count();
    assert_eq!(before, 2);
    let walk = joints.walk(h[0]);
    // The root would become a descendant of itself.
    assert_eq!(joints.insert(&set, h[2], h[0], ball_joint(), true), None);
    assert_eq!(joints.insert(&set, h[1], h[0], ball_joint(), true), None);
    // A body cannot hang under itself.
    assert_eq!(joints.insert(&set, h[1], h[1], ball_joint(), true), None);
    assert_eq!(joints.edge_count(), before);
    assert_eq!(joints.walk(h[0]), walk);
    assert_eq!(joints.parent_of(h[0]), None);
    assert_eq!(joints.parent_of(h[1]), Some(h[0]));
    assert_eq!(joints.parent_of(h[2]), Some(h[1]));
}

#[test]
fn insert_rejects_second_parent_and_keeps_first_edge() {
    let (set, h) = bodies(3);
    let mut joints = MultibodyJointSet::new();
    let first = GenericJointBuilder::new(JointAxesMask::locked_revolute_axes()).build();
    let handle = joints.insert(&set, h[0], h[1], first, false).unwrap();
    let edge = joints.get(handle);
    assert_eq!(joints.insert(&set, h[2], h[1], ball_joint(), true), None);
    assert_eq!(joints.get(handle), edge);
    assert_eq!(
        edge,
        Some(MultibodyEdge {
            parent: h[0],
            child: h[1],
            joint: first,
            merge_as_single_body: false,
            self_contacts_enabled: true,
        })
    );
    assert_eq!(joints.edge_count(), 1);
    assert!(!joints.contains_body(h[2]));
}

#[test]
fn insert_rejects_unknown_bodies() {
    let (mut set, h) = bodies(2);
    let stranger = RigidBodyHandle::from_raw_parts(17, 0);
    let mut joints = MultibodyJointSet::new();
    assert_eq!(joints.insert(&set, h[0], stranger, ball_joint(), true), None);
    assert_eq!(joints.insert(&set, stranger, h[1], ball_joint(), true), None);
    assert_eq!(set.take(h[1]), Some(RigidBodyType::Dynamic));
    assert_eq!(joints.insert(&set, h[0], h[1], ball_joint(), true), None);
    assert_eq!(joints.edge_count(), 0);
    assert_eq!(joints.multibody_count(), 0);
}

#[test]
fn self_contacts_are_scoped_to_one_multibody() {
    let (set, h) = bodies(6);
    let mut joints = MultibodyJointSet::new();
    let quiet = GenericJointBuilder::new(JointAxesMask::locked_spherical_axes())
        .contacts_enabled(false)
        .build();
    let a1 = joints.insert(&set, h[0], h[1], ball_joint(), true).unwrap();
    let a2 = joints.insert(&set, h[1], h[2], quiet, true).unwrap();
    let b1 = joints.insert(&set, h[3], h[4], ball_joint(), true).unwrap();
    let b2 = joints.insert(&set, h[3], h[5], quiet, true).unwrap();
    assert_eq!(joints.multibody_count(), 2);
    assert!(joints.set_self_contacts_enabled(b1, false));
    for handle in [a1, a2] {
        assert!(joints.get(handle).unwrap().self_contacts_enabled);
    }
    for handle in [b1, b2] {
        assert!(!joints.get(handle).unwrap().self_contacts_enabled);
    }
    assert_eq!(joints.self_contacts_enabled(h[0]), Some(true));
    assert_eq!(joints.self_contacts_enabled(h[3]), Some(false));
    // The flags of the joints themselves are untouched.
    assert!(joints.get(a1).unwrap().joint.contacts_enabled());
    assert!(!joints.get(a2).unwrap().joint.contacts_enabled());
    assert!(joints.get(b1).unwrap().joint.contacts_enabled());
    assert!(!joints.get(b2).unwrap().joint.contacts_enabled());
    assert_eq!(joints.get(b1).unwrap().joint, ball_joint());
    // A handle that stands for no edge changes nothing.
    assert!(!joints.set_self_contacts_enabled(MultibodyJointHandle(h[0]), false));
    assert_eq!(joints.self_contacts_enabled(h[0]), Some(true));
}

#[test]
fn insert_merges_multibodies_in_walking_order() {
    let (set, h) = bodies(6);
    let mut joints = MultibodyJointSet::new();
    // Two separate trees: 0 -> 1 -> 2 and 3 -> {4, 5}.
    joints.insert(&set, h[0], h[1], ball_joint(), true).unwrap();
    joints.insert(&set, h[1], h[2], ball_joint(), true).unwrap();
    let b1 = joints.insert(&set, h[3], h[4], ball_joint(), true).unwrap();
    joints.insert(&set, h[3], h[5], ball_joint(), true).unwrap();
    assert!(joints.set_self_contacts_enabled(b1, false));
    assert_eq!(joints.walk(h[4]), Some(vec![h[3], h[4], h[5]]));
    // Hang the second tree under a leaf of the first.
    let bridge = joints.insert(&set, h[2], h[3], ball_joint(), false).unwrap();
    assert_eq!(joints.multibody_count(), 1);
    assert_eq!(joints.edge_count(), 5);
    assert_eq!(joints.walk(h[5]), Some(vec![h[0], h[1], h[2], h[3], h[4], h[5]]));
    assert_eq!(joints.parent_of(h[3]), Some(h[2]));
    assert_eq!(joints.parent_of(h[4]), Some(h[3]));
    assert_eq!(joints.parent_of(h[5]), Some(h[3]));
    assert_eq!(joints.parent_of(h[2]), Some(h[1]));
    for body in &h {
        assert_eq!(joints.root_of(*body), Some(h[0]));
        // The merged multibody keeps the flag of the parent's multibody.
        assert_eq!(joints.self_contacts_enabled(*body), Some(true));
    }
    assert!(!joints.get(bridge).unwrap().merge_as_single_body);
    // Now every body of the old second tree is a descendant of the root.
    assert_eq!(joints.insert(&set, h[5], h[0], ball_joint(), true), None);
}

#[test]
fn insert_under_a_fresh_parent_puts_the_parent_first() {
    let (set, h) = bodies(4);
    let mut joints = MultibodyJointSet::new();
    let first = joints.insert(&set, h[1], h[2], ball_joint(), true).unwrap();
    joints.insert(&set, h[2], h[3], ball_joint(), true).unwrap();
    assert!(joints.set_self_contacts_enabled(first, false));
    joints.insert(&set, h[0], h[1], ball_joint(), true).unwrap();
    assert_eq!(joints.walk(h[3]), Some(vec![h[0], h[1], h[2], h[3]]));
    assert_eq!(joints.root_of(h[3]), Some(h[0]));
    assert_eq!(joints.parent_of(h[3]), Some(h[2]));
    assert_eq!(joints.self_contacts_enabled(h[3]), Some(true));
    assert_eq!(joints.multibody_count(), 1);
}

#[test]
fn queries_on_absent_bodies_return_nothing() {
    let (set, h) = bodies(3);
    let mut joints = MultibodyJointSet::new();
    joints.insert(&set, h[0], h[1], ball_joint(), true).unwrap();
    assert_eq!(joints.get(MultibodyJointHandle(h[2])), None);
    assert_eq!(joints.get(MultibodyJointHandle(h[0])), None);
    assert_eq!(joints.parent_of(h[2]), None);
    assert_eq!(joints.root_of(h[2]), None);
    assert_eq!(joints.walk(h[2]), None);
    assert_eq!(joints.self_contacts_enabled(h[2]), None);
    assert!(!joints.contains_body(h[2]));
    assert!(joints.contains_body(h[0]));
}

#[test]
fn remove_takes_the_subtree_and_keeps_the_rest() {
    let (set, h) = bodies(7);
    let mut joints = MultibodyJointSet::new();
    // 0 -> 1 -> {2 -> 3, 4}, 0 -> 5 -> 6
    joints.insert(&set, h[0], h[1], ball_joint(), true).unwrap();
    let cut = joints.insert(&set, h[1], h[2], ball_joint(), false).unwrap();
    joints.insert(&set, h[0], h[5], ball_joint(), true).unwrap();
    joints.insert(&set, h[2], h[3], ball_joint(), true).unwrap();
    joints.insert(&set, h[1], h[4], ball_joint(), true).unwrap();
    let last = GenericJointBuilder::new(JointAxesMask::locked_prismatic_axes())
        .limits(JointAxis::X, [scalar(-1.0), scalar(1.0)])
        .build();
    let kept = joints.insert(&set, h[5], h[6], last, true).unwrap();
    assert_eq!(joints.walk(h[0]), Some(vec![h[0], h[1], h[2], h[5], h[3], h[4], h[6]]));
    assert_eq!(joints.edge_count(), 6);

    let removed = joints.remove(cut).expect("the removed edge");
    assert_eq!(removed.parent, h[1]);
    assert_eq!(removed.child, h[2]);
    assert!(!removed.merge_as_single_body);
    assert_eq!(joints.edge_count(), 4);
    assert_eq!(joints.walk(h[0]), Some(vec![h[0], h[1], h[5], h[4], h[6]]));
    assert!(!joints.contains_body(h[2]));
    assert!(!joints.contains_body(h[3]));
    assert_eq!(joints.parent_of(h[1]), Some(h[0]));
    assert_eq!(joints.parent_of(h[4]), Some(h[1]));
    assert_eq!(joints.parent_of(h[5]), Some(h[0]));
    assert_eq!(joints.parent_of(h[6]), Some(h[5]));
    assert_eq!(joints.get(kept).unwrap().joint, last);
    // The handle is stale now.
    assert_eq!(joints.get(cut), None);
    assert_eq!(joints.remove(cut), None);
    assert_eq!(joints.edge_count(), 4);
    // The removed bodies can be hung again.
    assert!(joints.insert(&set, h[6], h[2], ball_joint(), true).is_some());
    assert_eq!(joints.walk(h[2]), Some(vec![h[0], h[1], h[5], h[4], h[6], h[2]]));
}

#[test]
fn remove_of_the_last_edge_removes_the_multibody() {
    let (set, h) = bodies(4);
    let mut joints = MultibodyJointSet::new();
    let first = joints.insert(&set, h[0], h[1], ball_joint(), true).unwrap();
    joints.insert(&set, h[1], h[2], ball_joint(), true).unwrap();
    let other = joints.insert(&set, h[3], h[2], ball_joint(), true);
    assert_eq!(other, None);
    assert!(joints.remove(first).is_some());
    assert_eq!(joints.multibody_count(), 0);
    assert_eq!(joints.edge_count(), 0);
    for body in &h {
        assert!(!joints.contains_body(*body));
    }
    assert_eq!(joints.root_of(h[0]), None);
}

#[test]
fn remove_multibody_leaves_other_multibodies() {
    let (set, h) = bodies(5);
    let mut joints = MultibodyJointSet::new();
    joints.insert(&set, h[0], h[1], ball_joint(), true).unwrap();
    let b = joints.insert(&set, h[2], h[3], ball_joint(), true).unwrap();
    joints.insert(&set, h[3], h[4], ball_joint(), true).unwrap();
    assert!(joints.set_self_contacts_enabled(b, false));
    assert!(joints.remove_multibody(h[1]));
    assert!(!joints.remove_multibody(h[1]));
    assert_eq!(joints.multibody_count(), 1);
    assert_eq!(joints.walk(h[4]), Some(vec![h[2], h[3], h[4]]));
    assert_eq!(joints.self_contacts_enabled(h[4]), Some(false));
    assert_eq!(joints.edge_count(), 2);
    joints.clear();
    assert_eq!(joints.edge_count(), 0);
    assert!(!joints.contains_body(h[2]));
}

#[test]
fn removing_a_body_removes_its_joints() {
    let (mut set, h) = bodies(5);
    let mut joints = MultibodyJointSet::new();
    joints.insert(&set, h[0], h[1], ball_joint(), true).unwrap();
    joints.insert(&set, h[1], h[2], ball_joint(), true).unwrap();
    joints.insert(&set, h[3], h[4], ball_joint(), true).unwrap();
    // A body in the middle: its subtree leaves the forest with it.
    assert_eq!(set.remove(h[1], &mut joints), Some(RigidBodyType::Dynamic));
    assert!(!set.contains(h[1]));
    assert!(set.contains(h[2]));
    assert_eq!(joints.multibody_count(), 1);
    assert!(!joints.contains_body(h[0]));
    assert!(!joints.contains_body(h[2]));
    // A root: its whole multibody goes.
    assert_eq!(set.remove(h[3], &mut joints), Some(RigidBodyType::Dynamic));
    assert_eq!(joints.multibody_count(), 0);
    assert!(set.contains(h[4]));
    // A stale handle changes nothing.
    assert_eq!(set.remove(h[3], &mut joints), None);
    assert_eq!(joints.insert(&set, h[0], h[3], ball_joint(), true), None);
    assert!(joints.insert(&set, h[0], h[4], ball_joint(), true).is_some());
}
