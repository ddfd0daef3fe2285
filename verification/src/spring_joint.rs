//! The spring joint: a generic joint that pulls two bodies to a rest
//! distance from each other.

use crate::axes_mask::JointAxesMask;
use crate::axis::JointAxis;
use crate::error::JointError;
use crate::generic_joint::{GenericJoint, GenericJointBuilder};
use crate::math::{Point, Real};
use crate::motor::{JointMotor, MotorModel};
use vstd::prelude::*;
use vstd::std_specs::cmp::PartialEqSpecImpl;
use vstd::std_specs::convert::{FromSpec, FromSpecImpl};

verus! {

/// A spring between two bodies.
///
/// It is a generic joint and nothing more: no axis is locked, the three
/// translations are coupled into one radial distance, and a position motor on
/// the first translation drives that distance to the rest length.
#[derive(Clone, Copy, Debug)]
pub struct SpringJoint {
    /// The underlying joint data.
    pub data: GenericJoint,
}

impl PartialEq for SpringJoint {
    fn eq(&self, other: &Self) -> (r: bool) {
        self.data == other.data
    }
}

impl Eq for SpringJoint {

}

impl PartialEqSpecImpl for SpringJoint {
    open spec fn obeys_eq_spec() -> bool {
        true
    }

    open spec fn eq_spec(&self, other: &Self) -> bool {
        *self == *other
    }
}

impl SpringJoint {
    /// The motor of a spring: it drives the radial distance to the rest
    /// length with the given stiffness and damping, as a force-based motor
    /// whose force is not bounded.
    pub open spec fn spring_motor(rest_length: Real, stiffness: Real, damping: Real) -> JointMotor {
        JointMotor {
            target_vel: Real::spec_zero(),
            target_pos: rest_length,
            stiffness,
            damping,
            max_force: Real::spec_max_value(),
            model: MotorModel::ForceBased,
        }
    }

    /// The spring with the given rest length, stiffness and damping: a fresh
    /// joint without locked axes, with the three translations coupled and
    /// the spring motor on the first translation.
    pub open spec fn spec_new(rest_length: Real, stiffness: Real, damping: Real) -> SpringJoint {
        let fresh = GenericJoint::spec_new(JointAxesMask::of(Set::empty()));
        SpringJoint {
            data: GenericJoint {
                coupled_axes: JointAxesMask::of(JointAxesMask::linear_axes()),
                motor_axes: JointAxesMask::of(set![JointAxis::X]),
                motors: vstd::array::spec_array_update(
                    fresh.motors,
                    0,
                    SpringJoint::spring_motor(rest_length, stiffness, damping),
                ),
                ..fresh
            },
        }
    }

    /// What is wrong with the numbers of a spring, if anything: the first of
    /// a rest length that is not finite, a rest length that is negative, a
    /// stiffness that is not finite or negative, and such a damping.
    pub open spec fn parameter_fault(rest_length: Real, stiffness: Real, damping: Real) -> Option<
        JointError,
    > {
        if !rest_length.spec_is_finite() {
            Some(JointError::NonFiniteRestLength)
        } else if !rest_length.spec_is_non_negative() {
            Some(JointError::NegativeRestLength)
        } else if !(stiffness.spec_is_finite() && stiffness.spec_is_non_negative()) {
            Some(JointError::InvalidStiffness)
        } else if !(damping.spec_is_finite() && damping.spec_is_non_negative()) {
            Some(JointError::InvalidDamping)
        } else {
            None
        }
    }

    /// The spring with contacts between its two bodies switched on or off.
    pub open spec fn with_contacts_enabled(self, enabled: bool) -> SpringJoint {
        SpringJoint { data: self.data.with_contacts_enabled(enabled) }
    }

    /// The spring with its first anchor moved.
    pub open spec fn with_local_anchor1(self, anchor1: Point) -> SpringJoint {
        SpringJoint { data: self.data.with_local_anchor1(anchor1) }
    }

    /// The spring with its second anchor moved.
    pub open spec fn with_local_anchor2(self, anchor2: Point) -> SpringJoint {
        SpringJoint { data: self.data.with_local_anchor2(anchor2) }
    }

    /// The spring with the force model of its motor replaced.
    pub open spec fn with_spring_model(self, model: MotorModel) -> SpringJoint {
        SpringJoint { data: self.data.with_motor_model(JointAxis::X, model) }
    }

    /// Creates a spring with the given rest length, stiffness and damping.
    ///
    /// None of the three may be negative, infinite or not a number.
    pub fn new(rest_length: Real, stiffness: Real, damping: Real) -> (joint: Self)
        requires
            SpringJoint::parameter_fault(rest_length, stiffness, damping) is None,
        ensures
            joint == SpringJoint::spec_new(rest_length, stiffness, damping),
    {
        let data = GenericJointBuilder::new(JointAxesMask::empty()).coupled_axes(
            JointAxesMask::lin_axes(),
        ).motor_position(JointAxis::X, rest_length, stiffness, damping).motor_model(
            JointAxis::X,
            MotorModel::ForceBased,
        ).build();
        proof {
            let expected = SpringJoint::spec_new(rest_length, stiffness, damping).data;
            use_type_invariant(&data.locked_axes);
            use_type_invariant(&data.coupled_axes);
            use_type_invariant(&data.motor_axes);
            JointAxesMask::lemma_of_view(Set::empty());
            data.locked_axes.lemma_is_of(Set::empty());
            data.coupled_axes.lemma_is_of(JointAxesMask::linear_axes());
            JointAxesMask::lemma_of_view(JointAxesMask::of(Set::empty())@.insert(JointAxis::X));
            assert(data.motor_axes@ =~= set![JointAxis::X]);
            data.motor_axes.lemma_is_of(set![JointAxis::X]);
            assert(data.motors =~= expected.motors);
        }
        SpringJoint { data }
    }

    /// Creates a spring with the given rest length, stiffness and damping,
    /// or reports which of them is unusable.
    pub fn try_new(rest_length: Real, stiffness: Real, damping: Real) -> (r: Result<
        Self,
        JointError,
    >)
        ensures
            r == match SpringJoint::parameter_fault(rest_length, stiffness, damping) {
                Some(fault) => Err::<SpringJoint, JointError>(fault),
                None => Ok(SpringJoint::spec_new(rest_length, stiffness, damping)),
            },
    {
        if !rest_length.is_finite() {
            Err(JointError::NonFiniteRestLength)
        } else if !rest_length.is_non_negative() {
            Err(JointError::NegativeRestLength)
        } else if !(stiffness.is_finite() && stiffness.is_non_negative()) {
            Err(JointError::InvalidStiffness)
        } else if !(damping.is_finite() && damping.is_non_negative()) {
            Err(JointError::InvalidDamping)
        } else {
            Ok(SpringJoint::new(rest_length, stiffness, damping))
        }
    }

    /// The underlying generic joint.
    pub fn data(&self) -> (data: &GenericJoint)
        ensures
            *data == self.data,
    {
        &self.data
    }

    /// Are contacts between the attached rigid-bodies enabled?
    pub fn contacts_enabled(&self) -> (enabled: bool)
        ensures
            enabled == self.data.contacts_enabled,
    {
        self.data.contacts_enabled
    }

    /// Sets whether contacts between the attached rigid-bodies are enabled.
    pub fn set_contacts_enabled(&mut self, enabled: bool) -> (ret: &mut Self)
        ensures
            *ret == old(self).with_contacts_enabled(enabled),
            *final(self) == *final(ret),
    {
        self.data.set_contacts_enabled(enabled);
        self
    }

    /// The joint's anchor, expressed in the local-space of the first rigid-body.
    #[must_use]
    pub fn local_anchor1(&self) -> (anchor: Point)
        ensures
            anchor == self.data.local_anchor1,
    {
        self.data.local_anchor1()
    }

    /// Sets the joint's anchor, expressed in the local-space of the first rigid-body.
    pub fn set_local_anchor1(&mut self, anchor1: Point) -> (ret: &mut Self)
        ensures
            *ret == old(self).with_local_anchor1(anchor1),
            *final(self) == *final(ret),
    {
        self.data.set_local_anchor1(anchor1);
        self
    }

    /// The joint's anchor, expressed in the local-space of the second rigid-body.
    #[must_use]
    pub fn local_anchor2(&self) -> (anchor: Point)
        ensures
            anchor == self.data.local_anchor2,
    {
        self.data.local_anchor2()
    }

    /// Sets the joint's anchor, expressed in the local-space of the second rigid-body.
    pub fn set_local_anchor2(&mut self, anchor2: Point) -> (ret: &mut Self)
        ensures
            *ret == old(self).with_local_anchor2(anchor2),
            *final(self) == *final(ret),
    {
        self.data.set_local_anchor2(anchor2);
        self
    }

    /// Set the spring-like model used by the motor to reach the desired target velocity and position.
    pub fn set_spring_model(&mut self, model: MotorModel) -> (ret: &mut Self)
        ensures
            *ret == old(self).with_spring_model(model),
            *final(self) == *final(ret),
    {
        self.data.set_motor_model(JointAxis::X, model);
        self
    }
}

impl From<SpringJoint> for GenericJoint {
    fn from(joint: SpringJoint) -> (data: GenericJoint) {
        joint.data
    }
}

impl FromSpecImpl<SpringJoint> for GenericJoint {
    open spec fn obeys_from_spec() -> bool {
        true
    }

    open spec fn from_spec(joint: SpringJoint) -> GenericJoint {
        joint.data
    }
}

/// Create spring joints using the builder pattern.
#[derive(Clone, Copy, Debug)]
pub struct SpringJointBuilder(pub SpringJoint);

impl PartialEq for SpringJointBuilder {
    fn eq(&self, other: &Self) -> (r: bool) {
        self.0 == other.0
    }
}

impl Eq for SpringJointBuilder {

}

impl PartialEqSpecImpl for SpringJointBuilder {
    open spec fn obeys_eq_spec() -> bool {
        true
    }

    open spec fn eq_spec(&self, other: &Self) -> bool {
        *self == *other
    }
}

impl SpringJointBuilder {
    /// Creates a new builder for spring joints.
    ///
    /// None of the three numbers may be negative, infinite or not a number.
    pub fn new(rest_length: Real, stiffness: Real, damping: Real) -> (builder: Self)
        requires
            SpringJoint::parameter_fault(rest_length, stiffness, damping) is None,
        ensures
            builder.0 == SpringJoint::spec_new(rest_length, stiffness, damping),
    {
        SpringJointBuilder(SpringJoint::new(rest_length, stiffness, damping))
    }

    /// Creates a new builder for spring joints, or reports which of the
    /// three numbers is unusable.
    pub fn try_new(rest_length: Real, stiffness: Real, damping: Real) -> (r: Result<
        Self,
        JointError,
    >)
        ensures
            r == match SpringJoint::parameter_fault(rest_length, stiffness, damping) {
                Some(fault) => Err::<SpringJointBuilder, JointError>(fault),
                None => Ok(
                    SpringJointBuilder(SpringJoint::spec_new(rest_length, stiffness, damping)),
                ),
            },
    {
        match SpringJoint::try_new(rest_length, stiffness, damping) {
            Ok(joint) => Ok(SpringJointBuilder(joint)),
            Err(fault) => Err(fault),
        }
    }

    /// Sets whether contacts between the attached rigid-bodies are enabled.
    #[must_use]
    pub fn contacts_enabled(self, enabled: bool) -> (builder: Self)
        ensures
            builder.0 == self.0.with_contacts_enabled(enabled),
    {
        let mut joint = self.0;
        joint.set_contacts_enabled(enabled);
        SpringJointBuilder(joint)
    }

    /// Sets the joint's anchor, expressed in the local-space of the first rigid-body.
    #[must_use]
    pub fn local_anchor1(self, anchor1: Point) -> (builder: Self)
        ensures
            builder.0 == self.0.with_local_anchor1(anchor1),
    {
        let mut joint = self.0;
        joint.set_local_anchor1(anchor1);
        SpringJointBuilder(joint)
    }

    /// Sets the joint's anchor, expressed in the local-space of the second rigid-body.
    #[must_use]
    pub fn local_anchor2(self, anchor2: Point) -> (builder: Self)
        ensures
            builder.0 == self.0.with_local_anchor2(anchor2),
    {
        let mut joint = self.0;
        joint.set_local_anchor2(anchor2);
        SpringJointBuilder(joint)
    }

    /// Set the spring-like model used by the motor to reach the desired target velocity and position.
    #[must_use]
    pub fn spring_model(self, model: MotorModel) -> (builder: Self)
        ensures
            builder.0 == self.0.with_spring_model(model),
    {
        let mut joint = self.0;
        joint.set_spring_model(model);
        SpringJointBuilder(joint)
    }

    /// Builds the spring joint.
    #[must_use]
    pub fn build(self) -> (joint: SpringJoint)
        ensures
            joint == self.0,
    {
        self.0
    }
}

impl From<SpringJointBuilder> for GenericJoint {
    fn from(builder: SpringJointBuilder) -> (data: GenericJoint) {
        builder.0.data
    }
}

impl FromSpecImpl<SpringJointBuilder> for GenericJoint {
    open spec fn obeys_from_spec() -> bool {
        true
    }

    open spec fn from_spec(builder: SpringJointBuilder) -> GenericJoint {
        builder.0.data
    }
}

/// A spring that was built and turned into a generic joint shows exactly
/// what it was configured with: both anchors, the contacts flag, the three
/// translations coupled, no locked axis, no limit, and on the first
/// translation alone a position motor whose target is the rest length, with
/// the given stiffness and damping and the force model that was chosen last.
pub proof fn lemma_spring_round_trip(
    rest_length: Real,
    stiffness: Real,
    damping: Real,
    anchor1: Point,
    anchor2: Point,
    contacts: bool,
    model: MotorModel,
    axis: JointAxis,
)
    ensures
        ({
            let built = SpringJoint::spec_new(rest_length, stiffness, damping).with_local_anchor1(
                anchor1,
            ).with_local_anchor2(anchor2).with_contacts_enabled(contacts).with_spring_model(model);
            let joint: GenericJoint = FromSpec::from_spec(built);
            &&& joint.local_anchor1 == anchor1
            &&& joint.local_anchor2 == anchor2
            &&& joint.contacts_enabled == contacts
            &&& joint.coupled_axes@ == JointAxesMask::linear_axes()
            &&& joint.locked_axes@ == Set::<JointAxis>::empty()
            &&& joint.spec_limits(axis) is None
            &&& joint.spec_motor(axis) == if axis == JointAxis::X {
                Some(
                    JointMotor {
                        model,
                        ..SpringJoint::spring_motor(rest_length, stiffness, damping)
                    },
                )
            } else {
                None
            }
        }),
        ({
            let plain: GenericJoint = FromSpec::from_spec(
                SpringJoint::spec_new(rest_length, stiffness, damping),
            );
            &&& plain.local_anchor1 == Point::spec_origin()
            &&& plain.local_anchor2 == Point::spec_origin()
            &&& plain.contacts_enabled
            &&& plain.spec_motor(JointAxis::X) == Some(
                SpringJoint::spring_motor(rest_length, stiffness, damping),
            )
        }),
{
    JointAxesMask::lemma_of_view(Set::empty());
    JointAxesMask::lemma_of_view(JointAxesMask::linear_axes());
    JointAxesMask::lemma_of_view(set![JointAxis::X]);
    JointAxis::lemma_index_round_trip(axis, 0);
}

} // verus!
