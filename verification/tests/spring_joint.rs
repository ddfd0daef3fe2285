use joint_model::axes_mask::JointAxesMask;
use joint_model::axis::JointAxis;
use joint_model::error::JointError;
use joint_model::generic_joint::GenericJoint;
use joint_model::math::{Point, Real};
use joint_model::motor::{JointMotor, MotorModel};
use joint_model::spring_joint::{SpringJoint, SpringJointBuilder};

fn scalar(x: f32) -> Real {
    Real::from_bits(x.to_bits())
}

fn point(x: f32, y: f32, z: f32) -> Point {
    Point::new(scalar(x), scalar(y), scalar(z))
}

#[test]
fn spring_round_trip_shows_configuration() {
    let joint: GenericJoint = SpringJointBuilder::new(scalar(2.0), scalar(50.0), scalar(5.0))
        .build()
        .into();
    assert_eq!(joint.coupled_axes, JointAxesMask::lin_axes());
    assert!(joint.locked_axes.is_empty());
    assert_eq!(joint.coupled_axes.bits(), 0b000111);
    let motor = joint.motor(JointAxis::X).expect("the spring motor");
    assert_eq!(
        motor,
        JointMotor {
            target_vel: scalar(0.0),
            target_pos: scalar(2.0),
            stiffness: scalar(50.0),
            damping: scalar(5.0),
            max_force: scalar(f32::MAX),
            model: MotorModel::ForceBased,
        }
    );
    assert_eq!(f32::from_bits(motor.target_pos.to_bits()), 2.0);
    assert_eq!(f32::from_bits(motor.stiffness.to_bits()), 50.0);
    assert_eq!(f32::from_bits(motor.damping.to_bits()), 5.0);
    for axis in [JointAxis::Y, JointAxis::Z, JointAxis::AngX, JointAxis::AngY, JointAxis::AngZ] {
        assert_eq!(joint.motor(axis), None);
    }
    for index in 0..6 {
        let axis = JointAxis::from_index(index).unwrap();
        assert_eq!(joint.limits(axis), None);
        assert!(!joint.is_locked(axis));
        assert_eq!(joint.is_coupled(axis), index < 3);
    }
    assert_eq!(joint.local_anchor1(), Point::origin());
    assert_eq!(joint.local_anchor2(), Point::origin());
    assert!(joint.contacts_enabled());
    assert_eq!(joint.validate(), Ok(()));
}

#[test]
fn spring_builder_keeps_anchors_contacts_and_model() {
    let built = SpringJointBuilder::new(scalar(0.5), scalar(10.0), scalar(1.0))
        .local_anchor1(point(1.0, 2.0, 3.0))
        .local_anchor2(point(-1.0, 0.0, 0.25))
        .contacts_enabled(false)
        .spring_model(MotorModel::AccelerationBased)
        .build();
    assert_eq!(built.local_anchor1(), point(1.0, 2.0, 3.0));
    assert_eq!(built.local_anchor2(), point(-1.0, 0.0, 0.25));
    assert!(!built.contacts_enabled());
    assert_eq!(built.data().motor_model(JointAxis::X), Some(MotorModel::AccelerationBased));
    let generic: GenericJoint = built.into();
    assert_eq!(generic, *built.data());
    let direct: GenericJoint = SpringJointBuilder(built).into();
    assert_eq!(direct, generic);
}

#[test]
fn spring_setters_chain_and_match_builder() {
    let mut joint = SpringJoint::new(scalar(2.0), scalar(50.0), scalar(5.0));
    joint
        .set_contacts_enabled(false)
        .set_local_anchor1(point(0.0, 1.0, 0.0))
        .set_local_anchor2(point(0.0, -1.0, 0.0))
        .set_spring_model(MotorModel::AccelerationBased);
    let built = SpringJointBuilder::new(scalar(2.0), scalar(50.0), scalar(5.0))
        .contacts_enabled(false)
        .local_anchor1(point(0.0, 1.0, 0.0))
        .local_anchor2(point(0.0, -1.0, 0.0))
        .spring_model(MotorModel::AccelerationBased)
        .build();
    assert_eq!(joint, built);
    assert_ne!(joint, SpringJoint::new(scalar(2.0), scalar(50.0), scalar(5.0)));
}

#[test]
fn spring_with_zero_rest_length_is_accepted() {
    let joint = SpringJoint::try_new(scalar(0.0), scalar(0.0), scalar(0.0)).unwrap();
    assert_eq!(joint.data().motor(JointAxis::X).unwrap().target_pos, scalar(0.0));
    assert!(SpringJoint::try_new(scalar(-0.0), scalar(1.0), scalar(1.0)).is_ok());
}

#[test]
fn spring_rejects_unusable_numbers() {
    assert_eq!(
        SpringJoint::try_new(scalar(f32::NAN), scalar(1.0), scalar(1.0)),
        Err(JointError::NonFiniteRestLength)
    );
    assert_eq!(
        SpringJoint::try_new(scalar(f32::INFINITY), scalar(1.0), scalar(1.0)),
        Err(JointError::NonFiniteRestLength)
    );
    assert_eq!(
        SpringJoint::try_new(scalar(-1.0), scalar(1.0), scalar(1.0)),
        Err(JointError::NegativeRestLength)
    );
    assert_eq!(
        SpringJoint::try_new(scalar(1.0), scalar(-1.0), scalar(1.0)),
        Err(JointError::InvalidStiffness)
    );
    assert_eq!(
        SpringJoint::try_new(scalar(1.0), scalar(f32::INFINITY), scalar(1.0)),
        Err(JointError::InvalidStiffness)
    );
    assert_eq!(
        SpringJoint::try_new(scalar(1.0), scalar(1.0), scalar(f32::NAN)),
        Err(JointError::InvalidDamping)
    );
    assert_eq!(
        SpringJointBuilder::try_new(scalar(-2.0), scalar(-1.0), scalar(-1.0)).map(|b| b.build()),
        Err(JointError::NegativeRestLength)
    );
    assert_eq!(
        SpringJointBuilder::try_new(scalar(2.0), scalar(50.0), scalar(5.0)).map(|b| b.build()),
        Ok(SpringJoint::new(scalar(2.0), scalar(50.0), scalar(5.0)))
    );
}
