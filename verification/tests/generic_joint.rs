use joint_model::axes_mask::JointAxesMask;
use joint_model::axis::JointAxis;
use joint_model::error::JointError;
use joint_model::generic_joint::{GenericJoint, GenericJointBuilder};
use joint_model::math::{Point, Real};
use joint_model::motor::{JointLimits, JointMotor, MotorModel};

const AXES: [JointAxis; 6] = [
    JointAxis::X,
    JointAxis::Y,
    JointAxis::Z,
    JointAxis::AngX,
    JointAxis::AngY,
    JointAxis::AngZ,
];

fn scalar(x: f32) -> Real {
    Real::from_bits(x.to_bits())
}

fn point(x: f32, y: f32, z: f32) -> Point {
    Point::new(scalar(x), scalar(y), scalar(z))
}

#[test]
fn fresh_joint_has_identity_defaults() {
    let joint = GenericJoint::new(JointAxesMask::empty());
    for axis in AXES {
        assert!(!joint.is_locked(axis));
        assert!(!joint.is_coupled(axis));
        assert_eq!(joint.motor(axis), None);
        assert_eq!(joint.motor_model(axis), None);
        assert_eq!(joint.limits(axis), None);
    }
    assert!(joint.locked_axes().is_empty());
    assert!(joint.coupled_axes().is_empty());
    assert!(joint.motor_axes().is_empty());
    assert!(joint.limit_axes().is_empty());
    assert!(joint.contacts_enabled());
    assert_eq!(joint.local_anchor1(), Point::origin());
    assert_eq!(joint.local_anchor2(), Point::origin());
    assert_eq!(joint, GenericJoint::default());
    assert_eq!(joint, GenericJointBuilder::new(JointAxesMask::empty()).build());
    assert_eq!(joint.validate(), Ok(()));
    assert_eq!(
        JointMotor::default(),
        JointMotor {
            target_vel: scalar(0.0),
            target_pos: scalar(0.0),
            stiffness: scalar(0.0),
            damping: scalar(0.0),
            max_force: scalar(f32::MAX),
            model: MotorModel::AccelerationBased,
        }
    );
    assert_eq!(
        JointLimits::default(),
        JointLimits { min: scalar(f32::MIN), max: scalar(f32::MAX) }
    );
    assert_eq!(MotorModel::default(), MotorModel::AccelerationBased);
}

#[test]
fn fresh_joint_locks_what_it_was_made_with() {
    let joint = GenericJoint::new(JointAxesMask::locked_revolute_axes());
    for axis in AXES {
        assert_eq!(joint.is_locked(axis), axis != JointAxis::AngX);
    }
    assert_eq!(joint.locked_axes(), JointAxesMask::locked_revolute_axes());
}

#[test]
fn setting_an_anchor_twice_equals_setting_it_once() {
    let mut once = GenericJoint::new(JointAxesMask::lin_axes());
    once.set_local_anchor1(point(1.0, 2.0, 3.0));
    let mut twice = GenericJoint::new(JointAxesMask::lin_axes());
    twice.set_local_anchor1(point(1.0, 2.0, 3.0)).set_local_anchor1(point(1.0, 2.0, 3.0));
    assert_eq!(once, twice);
    once.set_local_anchor2(point(-1.0, 0.0, 0.5));
    twice.set_local_anchor2(point(-1.0, 0.0, 0.5)).set_local_anchor2(point(-1.0, 0.0, 0.5));
    assert_eq!(once, twice);
    assert_eq!(twice.local_anchor1(), point(1.0, 2.0, 3.0));
    assert_eq!(twice.local_anchor2(), point(-1.0, 0.0, 0.5));
    assert_ne!(once, GenericJoint::new(JointAxesMask::lin_axes()));
}

#[test]
fn setters_chain_and_mirror_the_builder() {
    let mut joint = GenericJoint::new(JointAxesMask::empty());
    joint
        .lock_axes(JointAxesMask::lin_axes())
        .set_contacts_enabled(false)
        .set_local_anchor1(point(0.0, 1.0, 0.0))
        .set_local_anchor2(point(0.0, -1.0, 0.0))
        .set_coupled_axes(JointAxesMask::ang_axes())
        .set_limits(JointAxis::AngY, [scalar(-0.5), scalar(0.5)])
        .set_motor_position(JointAxis::AngX, scalar(1.5), scalar(10.0), scalar(2.0))
        .set_motor_model(JointAxis::AngX, MotorModel::ForceBased)
        .set_motor_velocity(JointAxis::AngZ, scalar(3.0), scalar(100.0))
        .set_motor_max_force(JointAxis::AngX, scalar(7.0));
    let built = GenericJointBuilder::new(JointAxesMask::empty())
        .locked_axes(JointAxesMask::lin_axes())
        .contacts_enabled(false)
        .local_anchor1(point(0.0, 1.0, 0.0))
        .local_anchor2(point(0.0, -1.0, 0.0))
        .coupled_axes(JointAxesMask::ang_axes())
        .limits(JointAxis::AngY, [scalar(-0.5), scalar(0.5)])
        .motor_position(JointAxis::AngX, scalar(1.5), scalar(10.0), scalar(2.0))
        .motor_model(JointAxis::AngX, MotorModel::ForceBased)
        .motor_velocity(JointAxis::AngZ, scalar(3.0), scalar(100.0))
        .motor_max_force(JointAxis::AngX, scalar(7.0))
        .build();
    assert_eq!(joint, built);
    let converted: GenericJoint = GenericJointBuilder(built).into();
    assert_eq!(converted, built);
    assert!(!joint.contacts_enabled());
    assert_eq!(joint.locked_axes(), JointAxesMask::lin_axes());
    assert_eq!(joint.coupled_axes(), JointAxesMask::ang_axes());
    assert_eq!(
        joint.limits(JointAxis::AngY),
        Some(JointLimits { min: scalar(-0.5), max: scalar(0.5) })
    );
    assert_eq!(joint.limits(JointAxis::AngX), None);
    assert_eq!(
        joint.motor(JointAxis::AngX),
        Some(JointMotor {
            target_vel: scalar(0.0),
            target_pos: scalar(1.5),
            stiffness: scalar(10.0),
            damping: scalar(2.0),
            max_force: scalar(7.0),
            model: MotorModel::ForceBased,
        })
    );
    assert_eq!(
        joint.motor(JointAxis::AngZ),
        Some(JointMotor {
            target_vel: scalar(3.0),
            target_pos: scalar(0.0),
            stiffness: scalar(0.0),
            damping: scalar(0.0),
            max_force: scalar(100.0),
            model: MotorModel::AccelerationBased,
        })
    );
    assert_eq!(joint.motor(JointAxis::AngY), None);
    assert_eq!(joint.motor_axes().bits(), 0b101000);
    assert_eq!(joint.validate(), Ok(()));
}

#[test]
fn switching_a_motor_model_leaves_other_axes_alone() {
    let mut joint = GenericJointBuilder::new(JointAxesMask::empty())
        .set_motor(JointAxis::X, scalar(1.0), scalar(2.0), scalar(3.0), scalar(4.0))
        .set_motor(JointAxis::Y, scalar(5.0), scalar(6.0), scalar(7.0), scalar(8.0))
        .limits(JointAxis::X, [scalar(0.0), scalar(9.0)])
        .build();
    let before = joint;
    joint.set_motor_model(JointAxis::X, MotorModel::ForceBased);
    assert_eq!(joint.motor_model(JointAxis::X), Some(MotorModel::ForceBased));
    assert_eq!(
        joint.motor(JointAxis::X),
        Some(JointMotor { model: MotorModel::ForceBased, ..before.motor(JointAxis::X).unwrap() })
    );
    for axis in AXES {
        if axis != JointAxis::X {
            assert_eq!(joint.motor(axis), before.motor(axis));
        }
        assert_eq!(joint.limits(axis), before.limits(axis));
        assert_eq!(joint.is_locked(axis), before.is_locked(axis));
    }
    // The model of an axis without a motor can be set, and shows once the
    // motor is switched on.
    joint.set_motor_model(JointAxis::Z, MotorModel::ForceBased);
    assert_eq!(joint.motor_model(JointAxis::Z), None);
    joint.set_motor_velocity(JointAxis::Z, scalar(1.0), scalar(2.0));
    assert_eq!(joint.motor_model(JointAxis::Z), Some(MotorModel::ForceBased));
    joint.set_motor_model(JointAxis::X, MotorModel::AccelerationBased);
    assert_eq!(joint.motor(JointAxis::X), before.motor(JointAxis::X));
}

#[test]
fn locking_and_coupling_single_axes() {
    let mut joint = GenericJoint::new(JointAxesMask::empty());
    joint.set_locked(JointAxis::Y, true).set_locked(JointAxis::AngZ, true);
    assert_eq!(joint.locked_axes().bits(), 0b100010);
    joint.set_locked(JointAxis::Y, false).set_locked(JointAxis::X, false);
    assert_eq!(joint.locked_axes().bits(), 0b100000);
    joint.set_coupled(JointAxis::X, true).set_coupled(JointAxis::Z, true);
    assert!(joint.is_coupled(JointAxis::X));
    assert!(!joint.is_coupled(JointAxis::Y));
    joint.set_coupled(JointAxis::X, false);
    assert_eq!(joint.coupled_axes().bits(), 0b000100);
    joint.lock_axes(JointAxesMask::lin_axes());
    assert_eq!(joint.locked_axes().bits(), 0b100111);
}

#[test]
fn validate_reports_the_first_fault() {
    let mut joint = GenericJoint::new(JointAxesMask::locked_revolute_axes());
    joint.set_motor_position(JointAxis::AngX, scalar(0.5), scalar(1.0), scalar(1.0));
    assert_eq!(joint.validate(), Ok(()));
    // An acceleration-based motor on a locked axis.
    joint.set_motor_position(JointAxis::AngY, scalar(0.5), scalar(1.0), scalar(1.0));
    assert_eq!(joint.validate(), Err(JointError::MotorOnLockedAxis { axis: JointAxis::AngY }));
    joint.set_motor_model(JointAxis::AngY, MotorModel::ForceBased);
    assert_eq!(joint.validate(), Ok(()));
    // Unusable numbers, written into the table directly.
    joint.motors[JointAxis::AngX.index()].target_pos = scalar(f32::NAN);
    joint.motors[JointAxis::AngY.index()].stiffness = scalar(-1.0);
    assert_eq!(joint.validate(), Err(JointError::InvalidMotor { axis: JointAxis::AngX }));
    joint.motors[JointAxis::AngX.index()].target_pos = scalar(0.0);
    assert_eq!(joint.validate(), Err(JointError::InvalidMotor { axis: JointAxis::AngY }));
    // A motor that is switched off is not looked at.
    joint.motors[JointAxis::Z.index()].damping = scalar(f32::INFINITY);
    joint.motors[JointAxis::AngY.index()].stiffness = scalar(1.0);
    assert_eq!(joint.validate(), Ok(()));
    assert!(!joint.motors[JointAxis::Z.index()].is_valid());
    assert!(joint.motors[JointAxis::AngY.index()].is_valid());
    let mut negative_force = JointMotor::default();
    negative_force.max_force = scalar(-1.0);
    assert!(!negative_force.is_valid());
    negative_force.max_force = scalar(f32::INFINITY);
    assert!(negative_force.is_valid());
}
