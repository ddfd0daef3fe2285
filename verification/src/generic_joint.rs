//! The generic joint: the one representation that every named joint reduces
//! to.

use crate::axes_mask::JointAxesMask;
use crate::axis::JointAxis;
use crate::error::JointError;
use crate::math::{Point, Real};
use crate::motor::{JointLimits, JointMotor, MotorModel};
use vstd::prelude::*;
use vstd::std_specs::cmp::PartialEqSpecImpl;

verus! {

/// A joint between two bodies, as a set of locked, limited, motorised and
/// coupled axes.
///
/// Both anchors are given in the frame of the body they belong to, so a
/// joint says nothing of where the bodies are: it carries no reference to
/// them either. Bit `i` of each mask and entry `i` of each table belong to
/// the axis of ordinal `i`.
#[derive(Clone, Copy, Debug)]
pub struct GenericJoint {
    /// Where the joint is attached to the first body, in that body's frame.
    pub local_anchor1: Point,
    /// Where the joint is attached to the second body, in that body's frame.
    pub local_anchor2: Point,
    /// The axes along which the two bodies cannot move relative to each other.
    pub locked_axes: JointAxesMask,
    /// The axes whose entry in `limits` is in force.
    pub limit_axes: JointAxesMask,
    /// The axes whose entry in `motors` is in force.
    pub motor_axes: JointAxesMask,
    /// The axes whose limits and motors act on their combined value.
    pub coupled_axes: JointAxesMask,
    /// The limits of each axis, by the ordinal of the axis.
    pub limits: [JointLimits; 6],
    /// The motor of each axis, by the ordinal of the axis.
    pub motors: [JointMotor; 6],
    /// Whether the two attached bodies may still collide with each other.
    pub contacts_enabled: bool,
}

/// Whether two tables of limits hold the same entries.
fn limits_tables_equal(a: &[JointLimits; 6], b: &[JointLimits; 6]) -> (r: bool)
    ensures
        r == (*a == *b),
{
    let mut i: usize = 0;
    while i < 6
        invariant
            i <= 6,
            forall|j: int| 0 <= j < i ==> a[j] == b[j],
        decreases 6 - i,
    {
        if a[i] != b[i] {
            return false;
        }
        i += 1;
    }
    assert(*a =~= *b);
    true
}

/// Whether two tables of motors hold the same entries.
fn motors_tables_equal(a: &[JointMotor; 6], b: &[JointMotor; 6]) -> (r: bool)
    ensures
        r == (*a == *b),
{
    let mut i: usize = 0;
    while i < 6
        invariant
            i <= 6,
            forall|j: int| 0 <= j < i ==> a[j] == b[j],
        decreases 6 - i,
    {
        if a[i] != b[i] {
            return false;
        }
        i += 1;
    }
    assert(*a =~= *b);
    true
}

impl PartialEq for GenericJoint {
    /// Two joints are equal when all their fields are.
    fn eq(&self, other: &Self) -> (r: bool) {
        self.local_anchor1 == other.local_anchor1 && self.local_anchor2 == other.local_anchor2
            && self.locked_axes == other.locked_axes && self.limit_axes == other.limit_axes
            && self.motor_axes == other.motor_axes && self.coupled_axes == other.coupled_axes
            && limits_tables_equal(&self.limits, &other.limits) && motors_tables_equal(
            &self.motors,
            &other.motors,
        ) && self.contacts_enabled == other.contacts_enabled
    }
}

impl Eq for GenericJoint {

}

impl PartialEqSpecImpl for GenericJoint {
    open spec fn obeys_eq_spec() -> bool {
        true
    }

    open spec fn eq_spec(&self, other: &Self) -> bool {
        *self == *other
    }
}

impl GenericJoint {
    /// The joint that locks the given axes and nothing else: anchors at the
    /// origin of each body, no limit, no motor, no coupling, contacts
    /// enabled.
    pub open spec fn spec_new(locked_axes: JointAxesMask) -> GenericJoint {
        GenericJoint {
            local_anchor1: Point::spec_origin(),
            local_anchor2: Point::spec_origin(),
            locked_axes,
            limit_axes: JointAxesMask::of(Set::empty()),
            motor_axes: JointAxesMask::of(Set::empty()),
            coupled_axes: JointAxesMask::of(Set::empty()),
            limits: [
                JointLimits::spec_default(),
                JointLimits::spec_default(),
                JointLimits::spec_default(),
                JointLimits::spec_default(),
                JointLimits::spec_default(),
                JointLimits::spec_default(),
            ],
            motors: [
                JointMotor::spec_default(),
                JointMotor::spec_default(),
                JointMotor::spec_default(),
                JointMotor::spec_default(),
                JointMotor::spec_default(),
                JointMotor::spec_default(),
            ],
            contacts_enabled: true,
        }
    }

    /// The four masks of the joint set no bit above the sixth. This holds of
    /// every joint that executable code can hold.
    pub open spec fn masks_well_formed(self) -> bool {
        &&& self.locked_axes.well_formed()
        &&& self.limit_axes.well_formed()
        &&& self.motor_axes.well_formed()
        &&& self.coupled_axes.well_formed()
    }

    /// The axis is locked.
    pub open spec fn spec_is_locked(self, axis: JointAxis) -> bool {
        self.locked_axes@.contains(axis)
    }

    /// The axis is coupled with the other coupled axes.
    pub open spec fn spec_is_coupled(self, axis: JointAxis) -> bool {
        self.coupled_axes@.contains(axis)
    }

    /// The limits of the axis, if it is limited.
    pub open spec fn spec_limits(self, axis: JointAxis) -> Option<JointLimits> {
        if self.limit_axes@.contains(axis) {
            Some(self.limits[axis.spec_index()])
        } else {
            None
        }
    }

    /// The motor of the axis, if it has one.
    pub open spec fn spec_motor(self, axis: JointAxis) -> Option<JointMotor> {
        if self.motor_axes@.contains(axis) {
            Some(self.motors[axis.spec_index()])
        } else {
            None
        }
    }

    /// The force model of the motor of the axis, if it has one.
    pub open spec fn spec_motor_model(self, axis: JointAxis) -> Option<MotorModel> {
        if self.motor_axes@.contains(axis) {
            Some(self.motors[axis.spec_index()].model)
        } else {
            None
        }
    }

    /// The joint with its first anchor moved.
    pub open spec fn with_local_anchor1(self, anchor1: Point) -> GenericJoint {
        GenericJoint { local_anchor1: anchor1, ..self }
    }

    /// The joint with its second anchor moved.
    pub open spec fn with_local_anchor2(self, anchor2: Point) -> GenericJoint {
        GenericJoint { local_anchor2: anchor2, ..self }
    }

    /// The joint with contacts between its two bodies switched on or off.
    pub open spec fn with_contacts_enabled(self, enabled: bool) -> GenericJoint {
        GenericJoint { contacts_enabled: enabled, ..self }
    }

    /// The joint with the given axes locked too.
    pub open spec fn with_locked_axes(self, axes: JointAxesMask) -> GenericJoint {
        GenericJoint { locked_axes: JointAxesMask::of(self.locked_axes@.union(axes@)), ..self }
    }

    /// The joint with one axis locked or freed.
    pub open spec fn with_locked(self, axis: JointAxis, locked: bool) -> GenericJoint {
        GenericJoint {
            locked_axes: JointAxesMask::of(
                if locked {
                    self.locked_axes@.insert(axis)
                } else {
                    self.locked_axes@.remove(axis)
                },
            ),
            ..self
        }
    }

    /// The joint with exactly the given axes coupled.
    pub open spec fn with_coupled_axes(self, axes: JointAxesMask) -> GenericJoint {
        GenericJoint { coupled_axes: axes, ..self }
    }

    /// The joint with one axis coupled or uncoupled.
    pub open spec fn with_coupled(self, axis: JointAxis, coupled: bool) -> GenericJoint {
        GenericJoint {
            coupled_axes: JointAxesMask::of(
                if coupled {
                    self.coupled_axes@.insert(axis)
                } else {
                    self.coupled_axes@.remove(axis)
                },
            ),
            ..self
        }
    }

    /// The joint with one axis limited to the range from `min` to `max`.
    pub open spec fn with_limits(self, axis: JointAxis, min: Real, max: Real) -> GenericJoint {
        GenericJoint {
            limit_axes: JointAxesMask::of(self.limit_axes@.insert(axis)),
            limits: vstd::array::spec_array_update(
                self.limits,
                axis.spec_index(),
                JointLimits { min, max },
            ),
            ..self
        }
    }

    /// The joint with the force model of one motor replaced. The motor is
    /// neither switched on nor off.
    pub open spec fn with_motor_model(self, axis: JointAxis, model: MotorModel) -> GenericJoint {
        GenericJoint {
            motors: vstd::array::spec_array_update(
                self.motors,
                axis.spec_index(),
                JointMotor { model, ..self.motors[axis.spec_index()] },
            ),
            ..self
        }
    }

    /// The joint with the largest force of one motor replaced. The motor is
    /// neither switched on nor off.
    pub open spec fn with_motor_max_force(self, axis: JointAxis, max_force: Real) -> GenericJoint {
        GenericJoint {
            motors: vstd::array::spec_array_update(
                self.motors,
                axis.spec_index(),
                JointMotor { max_force, ..self.motors[axis.spec_index()] },
            ),
            ..self
        }
    }

    /// The joint with the motor of one axis switched on and given both
    /// targets and both gains. Its force model and its largest force stay.
    pub open spec fn with_motor(
        self,
        axis: JointAxis,
        target_pos: Real,
        target_vel: Real,
        stiffness: Real,
        damping: Real,
    ) -> GenericJoint {
        GenericJoint {
            motor_axes: JointAxesMask::of(self.motor_axes@.insert(axis)),
            motors: vstd::array::spec_array_update(
                self.motors,
                axis.spec_index(),
                JointMotor {
                    target_vel,
                    target_pos,
                    stiffness,
                    damping,
                    ..self.motors[axis.spec_index()]
                },
            ),
            ..self
        }
    }

    /// The joint with the motor of one axis switched on and driving the axis
    /// to a position: the target velocity is zero.
    pub open spec fn with_motor_position(
        self,
        axis: JointAxis,
        target_pos: Real,
        stiffness: Real,
        damping: Real,
    ) -> GenericJoint {
        self.with_motor(axis, target_pos, Real::spec_zero(), stiffness, damping)
    }

    /// The joint with the motor of one axis switched on and driving the axis
    /// to a velocity with a bounded force: the stiffness is zero, so that no
    /// position is tracked. Target position, damping and force model stay.
    pub open spec fn with_motor_velocity(
        self,
        axis: JointAxis,
        target_vel: Real,
        max_force: Real,
    ) -> GenericJoint {
        GenericJoint {
            motor_axes: JointAxesMask::of(self.motor_axes@.insert(axis)),
            motors: vstd::array::spec_array_update(
                self.motors,
                axis.spec_index(),
                JointMotor {
                    target_vel,
                    stiffness: Real::spec_zero(),
                    max_force,
                    ..self.motors[axis.spec_index()]
                },
            ),
            ..self
        }
    }

    /// What is wrong with one axis, if anything: a motor that is switched on
    /// with unusable numbers, or else an acceleration-based motor that is
    /// switched on while the axis is locked.
    pub open spec fn axis_fault(self, axis: JointAxis) -> Option<JointError> {
        let motor = self.motors[axis.spec_index()];
        if !self.motor_axes@.contains(axis) {
            None
        } else if !motor.spec_is_valid() {
            Some(JointError::InvalidMotor { axis })
        } else if self.locked_axes@.contains(axis) && motor.model == MotorModel::AccelerationBased {
            Some(JointError::MotorOnLockedAxis { axis })
        } else {
            None
        }
    }

    /// The fault of the first faulty axis whose ordinal is `index` or more.
    pub open spec fn first_fault_from(self, index: int) -> Option<JointError>
        decreases 6 - index,
    {
        match JointAxis::spec_from_index(index) {
            None => None,
            Some(axis) => match self.axis_fault(axis) {
                Some(fault) => Some(fault),
                None => self.first_fault_from(index + 1),
            },
        }
    }

    /// No axis of the joint has a fault.
    pub open spec fn spec_is_valid(self) -> bool {
        forall|axis: JointAxis| self.axis_fault(axis) is None
    }

    /// Creates the joint that locks the given axes and nothing else.
    pub fn new(locked_axes: JointAxesMask) -> (joint: GenericJoint)
        ensures
            joint == GenericJoint::spec_new(locked_axes),
    {
        let empty = JointAxesMask::empty();
        proof {
            use_type_invariant(&empty);
            empty.lemma_is_of(Set::empty());
        }
        let limits = JointLimits::default();
        let motor = JointMotor::default();
        GenericJoint {
            local_anchor1: Point::origin(),
            local_anchor2: Point::origin(),
            locked_axes,
            limit_axes: empty,
            motor_axes: empty,
            coupled_axes: empty,
            limits: [limits, limits, limits, limits, limits, limits],
            motors: [motor, motor, motor, motor, motor, motor],
            contacts_enabled: true,
        }
    }

    /// The anchor on the first body, in that body's frame.
    pub fn local_anchor1(&self) -> (anchor: Point)
        ensures
            anchor == self.local_anchor1,
    {
        self.local_anchor1
    }

    /// Moves the anchor on the first body.
    pub fn set_local_anchor1(&mut self, anchor1: Point) -> (ret: &mut Self)
        ensures
            *ret == old(self).with_local_anchor1(anchor1),
            *final(self) == *final(ret),
    {
        self.local_anchor1 = anchor1;
        self
    }

    /// The anchor on the second body, in that body's frame.
    pub fn local_anchor2(&self) -> (anchor: Point)
        ensures
            anchor == self.local_anchor2,
    {
        self.local_anchor2
    }

    /// Moves the anchor on the second body.
    pub fn set_local_anchor2(&mut self, anchor2: Point) -> (ret: &mut Self)
        ensures
            *ret == old(self).with_local_anchor2(anchor2),
            *final(self) == *final(ret),
    {
        self.local_anchor2 = anchor2;
        self
    }

    /// Whether the two attached bodies may collide with each other.
    pub fn contacts_enabled(&self) -> (enabled: bool)
        ensures
            enabled == self.contacts_enabled,
    {
        self.contacts_enabled
    }

    /// Switches contacts between the two attached bodies on or off.
    pub fn set_contacts_enabled(&mut self, enabled: bool) -> (ret: &mut Self)
        ensures
            *ret == old(self).with_contacts_enabled(enabled),
            *final(self) == *final(ret),
    {
        self.contacts_enabled = enabled;
        self
    }

    /// The locked axes.
    pub fn locked_axes(&self) -> (axes: JointAxesMask)
        ensures
            axes == self.locked_axes,
    {
        self.locked_axes
    }

    /// Whether the axis is locked.
    #[verifier::when_used_as_spec(spec_is_locked)]
    pub fn is_locked(self, axis: JointAxis) -> (locked: bool)
        ensures
            locked == self.spec_is_locked(axis),
    {
        self.locked_axes.contains_axis(axis)
    }

    /// Locks the given axes, besides those that are locked already.
    pub fn lock_axes(&mut self, axes: JointAxesMask) -> (ret: &mut Self)
        ensures
            *ret == old(self).with_locked_axes(axes),
            *final(self) == *final(ret),
    {
        let locked = self.locked_axes.union(axes);
        proof {
            use_type_invariant(&locked);
            locked.lemma_is_of(self.locked_axes@.union(axes@));
        }
        self.locked_axes = locked;
        self
    }

    /// Locks or frees one axis.
    pub fn set_locked(&mut self, axis: JointAxis, locked: bool) -> (ret: &mut Self)
        ensures
            *ret == old(self).with_locked(axis, locked),
            *final(self) == *final(ret),
    {
        self.locked_axes = mask_with(self.locked_axes, axis, locked);
        self
    }

    /// The coupled axes.
    pub fn coupled_axes(&self) -> (axes: JointAxesMask)
        ensures
            axes == self.coupled_axes,
    {
        self.coupled_axes
    }

    /// Whether the axis is coupled with the other coupled axes.
    #[verifier::when_used_as_spec(spec_is_coupled)]
    pub fn is_coupled(self, axis: JointAxis) -> (coupled: bool)
        ensures
            coupled == self.spec_is_coupled(axis),
    {
        self.coupled_axes.contains_axis(axis)
    }

    /// Couples exactly the given axes.
    pub fn set_coupled_axes(&mut self, axes: JointAxesMask) -> (ret: &mut Self)
        ensures
            *ret == old(self).with_coupled_axes(axes),
            *final(self) == *final(ret),
    {
        self.coupled_axes = axes;
        self
    }

    /// Couples or uncouples one axis.
    pub fn set_coupled(&mut self, axis: JointAxis, coupled: bool) -> (ret: &mut Self)
        ensures
            *ret == old(self).with_coupled(axis, coupled),
            *final(self) == *final(ret),
    {
        self.coupled_axes = mask_with(self.coupled_axes, axis, coupled);
        self
    }

    /// The axes that carry a limit.
    pub fn limit_axes(&self) -> (axes: JointAxesMask)
        ensures
            axes == self.limit_axes,
    {
        self.limit_axes
    }

    /// The limits of the axis, if it is limited.
    #[verifier::when_used_as_spec(spec_limits)]
    pub fn limits(self, axis: JointAxis) -> (limits: Option<JointLimits>)
        ensures
            limits == self.spec_limits(axis),
    {
        if self.limit_axes.contains_axis(axis) {
            Some(self.limits[axis.index()])
        } else {
            None
        }
    }

    /// Limits one axis to the range from `limits[0]` to `limits[1]`.
    pub fn set_limits(&mut self, axis: JointAxis, limits: [Real; 2]) -> (ret: &mut Self)
        ensures
            *ret == old(self).with_limits(axis, limits[0], limits[1]),
            *final(self) == *final(ret),
    {
        let i: usize = axis.index();
        self.limit_axes = mask_with(self.limit_axes, axis, true);
        self.limits[i] = JointLimits { min: limits[0], max: limits[1] };
        self
    }

    /// The axes that carry a motor.
    pub fn motor_axes(&self) -> (axes: JointAxesMask)
        ensures
            axes == self.motor_axes,
    {
        self.motor_axes
    }

    /// The motor of the axis, if it has one.
    #[verifier::when_used_as_spec(spec_motor)]
    pub fn motor(self, axis: JointAxis) -> (motor: Option<JointMotor>)
        ensures
            motor == self.spec_motor(axis),
    {
        if self.motor_axes.contains_axis(axis) {
            Some(self.motors[axis.index()])
        } else {
            None
        }
    }

    /// The force model of the motor of the axis, if it has one.
    #[verifier::when_used_as_spec(spec_motor_model)]
    pub fn motor_model(self, axis: JointAxis) -> (model: Option<MotorModel>)
        ensures
            model == self.spec_motor_model(axis),
    {
        if self.motor_axes.contains_axis(axis) {
            Some(self.motors[axis.index()].model)
        } else {
            None
        }
    }

    /// Replaces the force model of the motor of one axis. No other axis and
    /// no other number of that motor changes, and the motor is neither
    /// switched on nor off.
    pub fn set_motor_model(&mut self, axis: JointAxis, model: MotorModel) -> (ret: &mut Self)
        ensures
            *ret == old(self).with_motor_model(axis, model),
            *final(self) == *final(ret),
    {
        let i: usize = axis.index();
        self.motors[i].model = model;
        self
    }

    /// Replaces the largest force of the motor of one axis.
    pub fn set_motor_max_force(&mut self, axis: JointAxis, max_force: Real) -> (ret: &mut Self)
        requires
            max_force.is_non_negative(),
        ensures
            *ret == old(self).with_motor_max_force(axis, max_force),
            *final(self) == *final(ret),
    {
        let i: usize = axis.index();
        self.motors[i].max_force = max_force;
        self
    }

    /// Switches the motor of one axis on and gives it both targets and both
    /// gains.
    pub fn set_motor(
        &mut self,
        axis: JointAxis,
        target_pos: Real,
        target_vel: Real,
        stiffness: Real,
        damping: Real,
    ) -> (ret: &mut Self)
        requires
            target_pos.is_finite(),
            target_vel.is_finite(),
            stiffness.is_finite(),
            stiffness.is_non_negative(),
            damping.is_finite(),
            damping.is_non_negative(),
        ensures
            *ret == old(self).with_motor(axis, target_pos, target_vel, stiffness, damping),
            *final(self) == *final(ret),
    {
        let i: usize = axis.index();
        let motor = self.motors[i];
        self.motor_axes = mask_with(self.motor_axes, axis, true);
        self.motors[i] = JointMotor {
            target_vel,
            target_pos,
            stiffness,
            damping,
            max_force: motor.max_force,
            model: motor.model,
        };
        self
    }

    /// Switches the motor of one axis on and lets it drive the axis to a
    /// position, with the given stiffness and damping.
    pub fn set_motor_position(
        &mut self,
        axis: JointAxis,
        target_pos: Real,
        stiffness: Real,
        damping: Real,
    ) -> (ret: &mut Self)
        requires
            target_pos.is_finite(),
            stiffness.is_finite(),
            stiffness.is_non_negative(),
            damping.is_finite(),
            damping.is_non_negative(),
        ensures
            *ret == old(self).with_motor_position(axis, target_pos, stiffness, damping),
            *final(self) == *final(ret),
    {
        self.set_motor(axis, target_pos, Real::zero(), stiffness, damping)
    }

    /// Switches the motor of one axis on and lets it drive the axis to a
    /// velocity, with a force of at most `max_force`.
    pub fn set_motor_velocity(&mut self, axis: JointAxis, target_vel: Real, max_force: Real) -> (ret:
        &mut Self)
        requires
            target_vel.is_finite(),
            max_force.is_non_negative(),
        ensures
            *ret == old(self).with_motor_velocity(axis, target_vel, max_force),
            *final(self) == *final(ret),
    {
        let i: usize = axis.index();
        let motor = self.motors[i];
        self.motor_axes = mask_with(self.motor_axes, axis, true);
        self.motors[i] = JointMotor {
            target_vel,
            target_pos: motor.target_pos,
            stiffness: Real::zero(),
            damping: motor.damping,
            max_force,
            model: motor.model,
        };
        self
    }

    /// What is wrong with one axis, if anything.
    fn check_axis(&self, axis: JointAxis) -> (fault: Option<JointError>)
        ensures
            fault == self.axis_fault(axis),
    {
        let motor = self.motors[axis.index()];
        if !self.motor_axes.contains_axis(axis) {
            None
        } else if !motor.is_valid() {
            Some(JointError::InvalidMotor { axis })
        } else if self.locked_axes.contains_axis(axis) && motor.model
            == MotorModel::AccelerationBased {
            Some(JointError::MotorOnLockedAxis { axis })
        } else {
            None
        }
    }

    /// Looks for a fault in the joint, axis by axis in the order of their
    /// ordinals, and reports the first one.
    pub fn validate(&self) -> (r: Result<(), JointError>)
        ensures
            r is Ok <==> self.spec_is_valid(),
            r == match self.first_fault_from(0) {
                Some(fault) => Err::<(), JointError>(fault),
                None => Ok(()),
            },
    {
        let mut i: usize = 6;
        let mut found: Option<JointError> = None;
        while i > 0
            invariant
                i <= 6,
                found == self.first_fault_from(i as int),
            decreases i,
        {
            i -= 1;
            let axis = match JointAxis::from_index(i) {
                Some(axis) => axis,
                None => JointAxis::X,
            };
            match self.check_axis(axis) {
                Some(fault) => {
                    found = Some(fault);
                },
                None => {},
            }
        }
        proof {
            self.lemma_first_fault(0);
        }
        match found {
            Some(fault) => Err(fault),
            None => Ok(()),
        }
    }

    /// The first fault from an ordinal on is absent exactly when no axis of
    /// that ordinal or more has a fault, and is else the fault of an axis of
    /// that ordinal or more before which no axis has one.
    pub proof fn lemma_first_fault(self, index: int)
        requires
            0 <= index,
        ensures
            self.first_fault_from(index) is None <==> forall|axis: JointAxis|
                axis.spec_index() >= index ==> self.axis_fault(axis) is None,
            self.first_fault_from(index) matches Some(fault) ==> exists|axis: JointAxis|
                axis.spec_index() >= index && #[trigger] self.axis_fault(axis) == Some(fault)
                    && forall|before: JointAxis|
                    index <= before.spec_index() < axis.spec_index() ==> self.axis_fault(before)
                        is None,
        decreases 6 - index,
    {
        if index < 6 {
            self.lemma_first_fault(index + 1);
            let axis = JointAxis::spec_from_index(index).unwrap();
            JointAxis::lemma_index_round_trip(axis, index);
            assert forall|other: JointAxis| other.spec_index() >= index implies other == axis
                || other.spec_index() >= index + 1 by {
                JointAxis::lemma_index_round_trip(other, index);
            }
            if self.axis_fault(axis) is None {
                if let Some(fault) = self.first_fault_from(index + 1) {
                    let witness = choose|w: JointAxis|
                        w.spec_index() >= index + 1 && #[trigger] self.axis_fault(w) == Some(
                            fault,
                        ) && forall|before: JointAxis|
                            index + 1 <= before.spec_index() < w.spec_index() ==> self.axis_fault(
                                before,
                            ) is None;
                    assert(self.axis_fault(witness) == Some(fault));
                }
            } else {
                assert(self.axis_fault(axis) == self.first_fault_from(index));
            }
        } else {
            assert forall|axis: JointAxis| axis.spec_index() >= index implies self.axis_fault(
                axis,
            ) is None by {
                JointAxis::lemma_index_round_trip(axis, index);
            }
        }
    }

    /// A joint that was just made has no motor, no limit and no coupled
    /// axis, allows contacts, is attached at the origin of both bodies, and
    /// locks exactly the axes it was made with: with none, every axis is
    /// free.
    pub proof fn lemma_new_joint(locked_axes: JointAxesMask, axis: JointAxis)
        ensures
            GenericJoint::spec_new(locked_axes).spec_is_locked(axis) == locked_axes@.contains(
                axis,
            ),
            locked_axes@ == Set::<JointAxis>::empty() ==> !GenericJoint::spec_new(
                locked_axes,
            ).spec_is_locked(axis),
            GenericJoint::spec_new(locked_axes).spec_motor(axis) is None,
            GenericJoint::spec_new(locked_axes).spec_motor_model(axis) is None,
            GenericJoint::spec_new(locked_axes).spec_limits(axis) is None,
            !GenericJoint::spec_new(locked_axes).spec_is_coupled(axis),
            GenericJoint::spec_new(locked_axes).coupled_axes@ == Set::<JointAxis>::empty(),
            GenericJoint::spec_new(locked_axes).contacts_enabled,
            GenericJoint::spec_new(locked_axes).local_anchor1 == Point::spec_origin(),
            GenericJoint::spec_new(locked_axes).local_anchor2 == Point::spec_origin(),
            GenericJoint::spec_new(locked_axes).spec_is_valid(),
    {
        JointAxesMask::lemma_of_view(Set::empty());
    }

    /// Moving an anchor to the same point twice gives the joint that moving
    /// it there once gives.
    pub proof fn lemma_set_anchor_twice(self, anchor: Point)
        ensures
            self.with_local_anchor1(anchor).with_local_anchor1(anchor) == self.with_local_anchor1(
                anchor,
            ),
            self.with_local_anchor2(anchor).with_local_anchor2(anchor) == self.with_local_anchor2(
                anchor,
            ),
    {
    }

    /// Locking or freeing one axis changes whether that axis is locked, and
    /// nothing else that can be read from the joint.
    pub proof fn lemma_with_locked(self, axis: JointAxis, locked: bool, other: JointAxis)
        ensures
            self.with_locked(axis, locked).spec_is_locked(other) == if other == axis {
                locked
            } else {
                self.spec_is_locked(other)
            },
            self.with_locked(axis, locked).spec_is_coupled(other) == self.spec_is_coupled(other),
            self.with_locked(axis, locked).spec_limits(other) == self.spec_limits(other),
            self.with_locked(axis, locked).spec_motor(other) == self.spec_motor(other),
    {
        JointAxesMask::lemma_of_view(self.locked_axes@.insert(axis));
        JointAxesMask::lemma_of_view(self.locked_axes@.remove(axis));
    }

    /// Coupling or uncoupling one axis changes whether that axis is coupled,
    /// and nothing else that can be read from the joint.
    pub proof fn lemma_with_coupled(self, axis: JointAxis, coupled: bool, other: JointAxis)
        ensures
            self.with_coupled(axis, coupled).spec_is_coupled(other) == if other == axis {
                coupled
            } else {
                self.spec_is_coupled(other)
            },
            self.with_coupled(axis, coupled).spec_is_locked(other) == self.spec_is_locked(other),
            self.with_coupled(axis, coupled).spec_limits(other) == self.spec_limits(other),
            self.with_coupled(axis, coupled).spec_motor(other) == self.spec_motor(other),
    {
        JointAxesMask::lemma_of_view(self.coupled_axes@.insert(axis));
        JointAxesMask::lemma_of_view(self.coupled_axes@.remove(axis));
    }

    /// Limiting one axis gives that axis the new range and leaves the limits
    /// of every other axis, and all motors and locks, as they were.
    pub proof fn lemma_with_limits(self, axis: JointAxis, min: Real, max: Real, other: JointAxis)
        ensures
            self.with_limits(axis, min, max).spec_limits(other) == if other == axis {
                Some(JointLimits { min, max })
            } else {
                self.spec_limits(other)
            },
            self.with_limits(axis, min, max).spec_motor(other) == self.spec_motor(other),
            self.with_limits(axis, min, max).spec_is_locked(other) == self.spec_is_locked(other),
            self.with_limits(axis, min, max).spec_is_coupled(other) == self.spec_is_coupled(
                other,
            ),
    {
        JointAxesMask::lemma_of_view(self.limit_axes@.insert(axis));
        JointAxis::lemma_index_round_trip(axis, other.spec_index());
        JointAxis::lemma_index_round_trip(other, axis.spec_index());
    }

    /// Replacing the force model of one motor changes that model only: the
    /// other numbers of that motor, whether it is switched on, and every
    /// other axis stay as they were.
    pub proof fn lemma_with_motor_model(self, axis: JointAxis, model: MotorModel, other: JointAxis)
        ensures
            self.with_motor_model(axis, model).spec_motor(other) == if other == axis {
                match self.spec_motor(axis) {
                    Some(motor) => Some(JointMotor { model, ..motor }),
                    None => None,
                }
            } else {
                self.spec_motor(other)
            },
            self.with_motor_model(axis, model).spec_limits(other) == self.spec_limits(other),
            self.with_motor_model(axis, model).spec_is_locked(other) == self.spec_is_locked(other),
            self.with_motor_model(axis, model).spec_is_coupled(other) == self.spec_is_coupled(
                other,
            ),
    {
        JointAxis::lemma_index_round_trip(axis, other.spec_index());
        JointAxis::lemma_index_round_trip(other, axis.spec_index());
    }

    /// Setting a motor switches the motor of that axis on with the given
    /// targets and gains, keeps its force model and its largest force, and
    /// leaves every other axis as it was.
    pub proof fn lemma_with_motor(
        self,
        axis: JointAxis,
        target_pos: Real,
        target_vel: Real,
        stiffness: Real,
        damping: Real,
        other: JointAxis,
    )
        ensures
            self.with_motor(axis, target_pos, target_vel, stiffness, damping).spec_motor(other)
                == if other == axis {
                Some(
                    JointMotor {
                        target_vel,
                        target_pos,
                        stiffness,
                        damping,
                        max_force: self.motors[axis.spec_index()].max_force,
                        model: self.motors[axis.spec_index()].model,
                    },
                )
            } else {
                self.spec_motor(other)
            },
            self.with_motor(axis, target_pos, target_vel, stiffness, damping).spec_limits(other)
                == self.spec_limits(other),
            self.with_motor(axis, target_pos, target_vel, stiffness, damping).spec_is_locked(other)
                == self.spec_is_locked(other),
            self.with_motor(axis, target_pos, target_vel, stiffness, damping).spec_is_coupled(
                other,
            ) == self.spec_is_coupled(other),
    {
        JointAxesMask::lemma_of_view(self.motor_axes@.insert(axis));
        JointAxis::lemma_index_round_trip(axis, other.spec_index());
        JointAxis::lemma_index_round_trip(other, axis.spec_index());
    }

    /// Setting a velocity motor switches the motor of that axis on with the
    /// given target velocity and largest force and no stiffness, and leaves
    /// every other axis as it was.
    pub proof fn lemma_with_motor_velocity(
        self,
        axis: JointAxis,
        target_vel: Real,
        max_force: Real,
        other: JointAxis,
    )
        ensures
            self.with_motor_velocity(axis, target_vel, max_force).spec_motor(other) == if other
                == axis {
                Some(
                    JointMotor {
                        target_vel,
                        target_pos: self.motors[axis.spec_index()].target_pos,
                        stiffness: Real::spec_zero(),
                        damping: self.motors[axis.spec_index()].damping,
                        max_force,
                        model: self.motors[axis.spec_index()].model,
                    },
                )
            } else {
                self.spec_motor(other)
            },
            self.with_motor_velocity(axis, target_vel, max_force).spec_limits(other)
                == self.spec_limits(other),
            self.with_motor_velocity(axis, target_vel, max_force).spec_is_locked(other)
                == self.spec_is_locked(other),
            self.with_motor_velocity(axis, target_vel, max_force).spec_is_coupled(other)
                == self.spec_is_coupled(other),
    {
        JointAxesMask::lemma_of_view(self.motor_axes@.insert(axis));
        JointAxis::lemma_index_round_trip(axis, other.spec_index());
        JointAxis::lemma_index_round_trip(other, axis.spec_index());
    }
}

impl Default for GenericJoint {
    fn default() -> (joint: GenericJoint)
        ensures
            joint == GenericJoint::spec_new(JointAxesMask::of(Set::empty())),
    {
        let empty = JointAxesMask::empty();
        proof {
            use_type_invariant(&empty);
            empty.lemma_is_of(Set::empty());
        }
        GenericJoint::new(empty)
    }
}

/// Configures a generic joint step by step: every step takes the builder and
/// gives the next one.
#[derive(Clone, Copy, Debug)]
pub struct GenericJointBuilder(pub GenericJoint);

impl PartialEq for GenericJointBuilder {
    fn eq(&self, other: &Self) -> (r: bool) {
        self.0 == other.0
    }
}

impl Eq for GenericJointBuilder {

}

impl PartialEqSpecImpl for GenericJointBuilder {
    open spec fn obeys_eq_spec() -> bool {
        true
    }

    open spec fn eq_spec(&self, other: &Self) -> bool {
        *self == *other
    }
}

impl GenericJointBuilder {
    /// Starts from the joint that locks the given axes and nothing else.
    pub fn new(locked_axes: JointAxesMask) -> (builder: Self)
        ensures
            builder.0 == GenericJoint::spec_new(locked_axes),
    {
        GenericJointBuilder(GenericJoint::new(locked_axes))
    }

    /// Locks the given axes too.
    pub fn locked_axes(self, axes: JointAxesMask) -> (builder: Self)
        ensures
            builder.0 == self.0.with_locked_axes(axes),
    {
        let mut joint = self.0;
        joint.lock_axes(axes);
        GenericJointBuilder(joint)
    }

    /// Switches contacts between the two attached bodies on or off.
    pub fn contacts_enabled(self, enabled: bool) -> (builder: Self)
        ensures
            builder.0 == self.0.with_contacts_enabled(enabled),
    {
        let mut joint = self.0;
        joint.set_contacts_enabled(enabled);
        GenericJointBuilder(joint)
    }

    /// Moves the anchor on the first body.
    pub fn local_anchor1(self, anchor1: Point) -> (builder: Self)
        ensures
            builder.0 == self.0.with_local_anchor1(anchor1),
    {
        let mut joint = self.0;
        joint.set_local_anchor1(anchor1);
        GenericJointBuilder(joint)
    }

    /// Moves the anchor on the second body.
    pub fn local_anchor2(self, anchor2: Point) -> (builder: Self)
        ensures
            builder.0 == self.0.with_local_anchor2(anchor2),
    {
        let mut joint = self.0;
        joint.set_local_anchor2(anchor2);
        GenericJointBuilder(joint)
    }

    /// Limits one axis to the range from `limits[0]` to `limits[1]`.
    pub fn limits(self, axis: JointAxis, limits: [Real; 2]) -> (builder: Self)
        ensures
            builder.0 == self.0.with_limits(axis, limits[0], limits[1]),
    {
        let mut joint = self.0;
        joint.set_limits(axis, limits);
        GenericJointBuilder(joint)
    }

    /// Couples exactly the given axes.
    pub fn coupled_axes(self, axes: JointAxesMask) -> (builder: Self)
        ensures
            builder.0 == self.0.with_coupled_axes(axes),
    {
        let mut joint = self.0;
        joint.set_coupled_axes(axes);
        GenericJointBuilder(joint)
    }

    /// Replaces the force model of the motor of one axis.
    pub fn motor_model(self, axis: JointAxis, model: MotorModel) -> (builder: Self)
        ensures
            builder.0 == self.0.with_motor_model(axis, model),
    {
        let mut joint = self.0;
        joint.set_motor_model(axis, model);
        GenericJointBuilder(joint)
    }

    /// Switches the motor of one axis on and lets it drive the axis to a
    /// velocity, with a force of at most `max_force`.
    pub fn motor_velocity(self, axis: JointAxis, target_vel: Real, max_force: Real) -> (builder:
        Self)
        requires
            target_vel.is_finite(),
            max_force.is_non_negative(),
        ensures
            builder.0 == self.0.with_motor_velocity(axis, target_vel, max_force),
    {
        let mut joint = self.0;
        joint.set_motor_velocity(axis, target_vel, max_force);
        GenericJointBuilder(joint)
    }

    /// Switches the motor of one axis on and lets it drive the axis to a
    /// position, with the given stiffness and damping.
    pub fn motor_position(
        self,
        axis: JointAxis,
        target_pos: Real,
        stiffness: Real,
        damping: Real,
    ) -> (builder: Self)
        requires
            target_pos.is_finite(),
            stiffness.is_finite(),
            stiffness.is_non_negative(),
            damping.is_finite(),
            damping.is_non_negative(),
        ensures
            builder.0 == self.0.with_motor_position(axis, target_pos, stiffness, damping),
    {
        let mut joint = self.0;
        joint.set_motor_position(axis, target_pos, stiffness, damping);
        GenericJointBuilder(joint)
    }

    /// Switches the motor of one axis on and gives it both targets and both
    /// gains.
    pub fn set_motor(
        self,
        axis: JointAxis,
        target_pos: Real,
        target_vel: Real,
        stiffness: Real,
        damping: Real,
    ) -> (builder: Self)
        requires
            target_pos.is_finite(),
            target_vel.is_finite(),
            stiffness.is_finite(),
            stiffness.is_non_negative(),
            damping.is_finite(),
            damping.is_non_negative(),
        ensures
            builder.0 == self.0.with_motor(axis, target_pos, target_vel, stiffness, damping),
    {
        let mut joint = self.0;
        joint.set_motor(axis, target_pos, target_vel, stiffness, damping);
        GenericJointBuilder(joint)
    }

    /// Replaces the largest force of the motor of one axis.
    pub fn motor_max_force(self, axis: JointAxis, max_force: Real) -> (builder: Self)
        requires
            max_force.is_non_negative(),
        ensures
            builder.0 == self.0.with_motor_max_force(axis, max_force),
    {
        let mut joint = self.0;
        joint.set_motor_max_force(axis, max_force);
        GenericJointBuilder(joint)
    }

    /// The configured joint.
    pub fn build(self) -> (joint: GenericJoint)
        ensures
            joint == self.0,
    {
        self.0
    }
}

impl From<GenericJointBuilder> for GenericJoint {
    fn from(builder: GenericJointBuilder) -> (joint: GenericJoint) {
        builder.0
    }
}

impl vstd::std_specs::convert::FromSpecImpl<GenericJointBuilder> for GenericJoint {
    open spec fn obeys_from_spec() -> bool {
        true
    }

    open spec fn from_spec(builder: GenericJointBuilder) -> GenericJoint {
        builder.0
    }
}

/// The mask with one axis added or taken out.
fn mask_with(mask: JointAxesMask, axis: JointAxis, present: bool) -> (r: JointAxesMask)
    ensures
        r == JointAxesMask::of(
            if present {
                mask@.insert(axis)
            } else {
                mask@.remove(axis)
            },
        ),
{
    let one = JointAxesMask::from_axis(axis);
    if present {
        let r = mask.union(one);
        proof {
            use_type_invariant(&r);
            assert(r@ =~= mask@.insert(axis));
            r.lemma_is_of(mask@.insert(axis));
        }
        r
    } else {
        let r = mask.difference(one);
        proof {
            use_type_invariant(&r);
            assert(r@ =~= mask@.remove(axis));
            r.lemma_is_of(mask@.remove(axis));
        }
        r
    }
}

} // verus!
