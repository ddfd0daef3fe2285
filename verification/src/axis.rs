//! The six degrees of freedom of a joint, and sets of them.

use vstd::prelude::*;

verus! {

/// One of the six degrees of freedom between two bodies: a translation along
/// or a rotation about one of the three axes of the joint's frame.
#[derive(Clone, Copy, Debug, PartialEq, Eq, Hash, Structural)]
pub enum JointAxis {
    /// Translation along the first axis.
    X,
    /// Translation along the second axis.
    Y,
    /// Translation along the third axis.
    Z,
    /// Rotation about the first axis.
    AngX,
    /// Rotation about the second axis.
    AngY,
    /// Rotation about the third axis.
    AngZ,
}

impl JointAxis {
    /// The ordinal of the axis: its slot in every per-axis table.
    pub open spec fn spec_index(self) -> int {
        match self {
            JointAxis::X => 0,
            JointAxis::Y => 1,
            JointAxis::Z => 2,
            JointAxis::AngX => 3,
            JointAxis::AngY => 4,
            JointAxis::AngZ => 5,
        }
    }

    /// The axis with the given ordinal, if there is one.
    pub open spec fn spec_from_index(index: int) -> Option<JointAxis> {
        if index == 0 {
            Some(JointAxis::X)
        } else if index == 1 {
            Some(JointAxis::Y)
        } else if index == 2 {
            Some(JointAxis::Z)
        } else if index == 3 {
            Some(JointAxis::AngX)
        } else if index == 4 {
            Some(JointAxis::AngY)
        } else if index == 5 {
            Some(JointAxis::AngZ)
        } else {
            None
        }
    }

    /// The bit that stands for the axis in a mask: bit number `spec_index`.
    pub open spec fn spec_bit(self) -> u8 {
        match self {
            JointAxis::X => 1,
            JointAxis::Y => 2,
            JointAxis::Z => 4,
            JointAxis::AngX => 8,
            JointAxis::AngY => 16,
            JointAxis::AngZ => 32,
        }
    }

    /// The axis is one of the three translations.
    pub open spec fn spec_is_linear(self) -> bool {
        self.spec_index() < 3
    }

    /// The axis is one of the three rotations.
    pub open spec fn spec_is_angular(self) -> bool {
        self.spec_index() >= 3
    }

    /// The ordinal of the axis: its slot in every per-axis table.
    pub fn index(self) -> (i: usize)
        ensures
            i == self.spec_index(),
            i < 6,
    {
        match self {
            JointAxis::X => 0,
            JointAxis::Y => 1,
            JointAxis::Z => 2,
            JointAxis::AngX => 3,
            JointAxis::AngY => 4,
            JointAxis::AngZ => 5,
        }
    }

    /// The axis with the given ordinal, if there is one.
    pub fn from_index(index: usize) -> (axis: Option<JointAxis>)
        ensures
            axis == JointAxis::spec_from_index(index as int),
    {
        if index == 0 {
            Some(JointAxis::X)
        } else if index == 1 {
            Some(JointAxis::Y)
        } else if index == 2 {
            Some(JointAxis::Z)
        } else if index == 3 {
            Some(JointAxis::AngX)
        } else if index == 4 {
            Some(JointAxis::AngY)
        } else if index == 5 {
            Some(JointAxis::AngZ)
        } else {
            None
        }
    }

    /// The bit that stands for the axis in a mask.
    #[verifier::when_used_as_spec(spec_bit)]
    pub fn bit(self) -> (b: u8)
        ensures
            b == self.spec_bit(),
    {
        match self {
            JointAxis::X => 1,
            JointAxis::Y => 2,
            JointAxis::Z => 4,
            JointAxis::AngX => 8,
            JointAxis::AngY => 16,
            JointAxis::AngZ => 32,
        }
    }

    /// Whether the axis is one of the three translations.
    #[verifier::when_used_as_spec(spec_is_linear)]
    pub fn is_linear(self) -> (r: bool)
        ensures
            r == self.spec_is_linear(),
    {
        self.index() < 3
    }

    /// Whether the axis is one of the three rotations.
    #[verifier::when_used_as_spec(spec_is_angular)]
    pub fn is_angular(self) -> (r: bool)
        ensures
            r == self.spec_is_angular(),
    {
        self.index() >= 3
    }

    /// Ordinals and axes correspond one to one: every axis is found again
    /// from its ordinal, and the ordinals are exactly `0` to `5`.
    pub proof fn lemma_index_round_trip(axis: JointAxis, index: int)
        ensures
            JointAxis::spec_from_index(axis.spec_index()) == Some(axis),
            0 <= axis.spec_index() < 6,
            JointAxis::spec_from_index(index) is Some <==> 0 <= index < 6,
            JointAxis::spec_from_index(index) matches Some(a) ==> a.spec_index() == index,
    {
    }

    /// The bit of an axis is two to the power of its ordinal, so distinct
    /// axes have distinct bits and every bit lies below `64`.
    pub proof fn lemma_bit_of_index(axis: JointAxis)
        ensures
            axis.spec_bit() == vstd::arithmetic::power2::pow2(axis.spec_index() as nat),
            0 < axis.spec_bit() < 64,
    {
        vstd::arithmetic::power2::lemma2_to64();
    }
}

} // verus!
