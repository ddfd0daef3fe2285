//! Motors and limits of a single joint axis.

use crate::math::Real;
use vstd::prelude::*;

verus! {

/// How the motor of an axis turns its gains into a force.
#[derive(Clone, Copy, Debug, PartialEq, Eq, Hash, Structural)]
pub enum MotorModel {
    /// The motor commands the kinematics of the axis directly: its gains do
    /// not depend on the masses of the attached bodies.
    AccelerationBased,
    /// The motor acts as a physical spring and damper that produces a
    /// bounded force.
    ForceBased,
}

impl Default for MotorModel {
    fn default() -> (model: MotorModel)
        ensures
            model == MotorModel::AccelerationBased,
    {
        MotorModel::AccelerationBased
    }
}

/// The actuator of one joint axis.
#[derive(Clone, Copy, Debug, PartialEq, Eq, Hash, Structural)]
pub struct JointMotor {
    /// The velocity that the motor drives the axis to.
    pub target_vel: Real,
    /// The position that the motor drives the axis to.
    pub target_pos: Real,
    /// The gain on the position error.
    pub stiffness: Real,
    /// The gain on the velocity error.
    pub damping: Real,
    /// The largest force that the motor may apply.
    pub max_force: Real,
    /// The force model of the motor.
    pub model: MotorModel,
}

impl JointMotor {
    /// The motor of an axis that was never given one: no target, no gain, an
    /// unbounded force, acceleration-based.
    pub open spec fn spec_default() -> JointMotor {
        JointMotor {
            target_vel: Real::spec_zero(),
            target_pos: Real::spec_zero(),
            stiffness: Real::spec_zero(),
            damping: Real::spec_zero(),
            max_force: Real::spec_max_value(),
            model: MotorModel::AccelerationBased,
        }
    }

    /// The numbers of the motor are usable: both targets are finite, both
    /// gains are finite and not negative, and the largest force is not
    /// negative.
    pub open spec fn spec_is_valid(self) -> bool {
        &&& self.target_vel.spec_is_finite()
        &&& self.target_pos.spec_is_finite()
        &&& self.stiffness.spec_is_finite()
        &&& self.stiffness.spec_is_non_negative()
        &&& self.damping.spec_is_finite()
        &&& self.damping.spec_is_non_negative()
        &&& self.max_force.spec_is_non_negative()
    }

    /// Whether the numbers of the motor are usable.
    #[verifier::when_used_as_spec(spec_is_valid)]
    pub fn is_valid(self) -> (r: bool)
        ensures
            r == self.spec_is_valid(),
    {
        self.target_vel.is_finite() && self.target_pos.is_finite() && self.stiffness.is_finite()
            && self.stiffness.is_non_negative() && self.damping.is_finite()
            && self.damping.is_non_negative() && self.max_force.is_non_negative()
    }
}

impl Default for JointMotor {
    fn default() -> (motor: JointMotor)
        ensures
            motor == JointMotor::spec_default(),
    {
        JointMotor {
            target_vel: Real::zero(),
            target_pos: Real::zero(),
            stiffness: Real::zero(),
            damping: Real::zero(),
            max_force: Real::max_value(),
            model: MotorModel::AccelerationBased,
        }
    }
}

/// The range that a limited joint axis may move in.
#[derive(Clone, Copy, Debug, PartialEq, Eq, Hash, Structural)]
pub struct JointLimits {
    /// The smallest value of the axis.
    pub min: Real,
    /// The largest value of the axis.
    pub max: Real,
}

impl JointLimits {
    /// The widest range: from the smallest finite scalar to the largest.
    pub open spec fn spec_default() -> JointLimits {
        JointLimits { min: Real::spec_min_value(), max: Real::spec_max_value() }
    }
}

impl Default for JointLimits {
    fn default() -> (limits: JointLimits)
        ensures
            limits == JointLimits::spec_default(),
    {
        JointLimits { min: Real::min_value(), max: Real::max_value() }
    }
}

} // verus!
