//! What can be wrong with the numbers and the axes of a joint.

use crate::axis::JointAxis;
use vstd::prelude::*;

verus! {

/// A fault in the configuration of a joint.
#[derive(Clone, Copy, Debug, PartialEq, Eq, Hash, Structural)]
pub enum JointError {
    /// The rest length of a spring is infinite or not a number.
    NonFiniteRestLength,
    /// The rest length of a spring is negative.
    NegativeRestLength,
    /// The stiffness of a spring is negative, infinite or not a number.
    InvalidStiffness,
    /// The damping of a spring is negative, infinite or not a number.
    InvalidDamping,
    /// The motor of the axis holds a target that is not finite, a gain that
    /// is negative or not finite, or a largest force that is negative.
    InvalidMotor { axis: JointAxis },
    /// The axis is locked and carries an acceleration-based motor, which
    /// cannot act together with a hard constraint.
    MotorOnLockedAxis { axis: JointAxis },
}

} // verus!
