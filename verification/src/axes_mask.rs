//! Sets of joint axes, packed into one byte.

use crate::axis::JointAxis;
use vstd::prelude::*;

verus! {

/// The bits of all six axes.
pub const ALL_BITS: u8 = 0x3F;

/// A set of joint axes: bit `i` is set when the axis of ordinal `i` belongs
/// to the set. No bit above the sixth is ever set.
///
/// The same type marks the locked axes of a joint, its coupled axes, and the
/// axes that carry a limit or a motor.
#[derive(Clone, Copy, Debug, PartialEq, Eq, Hash, Structural)]
pub struct JointAxesMask {
    bits: u8,
}

impl View for JointAxesMask {
    type V = Set<JointAxis>;

    closed spec fn view(&self) -> Set<JointAxis> {
        Set::new(|axis: JointAxis| self.bits & axis.spec_bit() != 0)
    }
}

/// `bit` is the bit of one axis.
spec fn single(bit: u8) -> bool {
    bit == 1 || bit == 2 || bit == 4 || bit == 8 || bit == 16 || bit == 32
}

/// The bit of an axis that is present, else no bit.
spec fn bit_if(present: bool, bit: u8) -> u8 {
    if present {
        bit
    } else {
        0
    }
}

/// How the bit of one axis fares under the bitwise operations.
proof fn lemma_bit_ops(a: u8, b: u8, m: u8)
    by (bit_vector)
    requires
        m == 1 || m == 2 || m == 4 || m == 8 || m == 16 || m == 32,
    ensures
        ((a | b) & m != 0) == (a & m != 0 || b & m != 0),
        ((a & b) & m != 0) == (a & m != 0 && b & m != 0),
        ((a & !b) & m != 0) == (a & m != 0 && b & m == 0),
        ((a ^ b) & m != 0) == ((a & m != 0) != (b & m != 0)),
        ((!a & 0x3F) & m != 0) == (a & m == 0),
        ((a & 0x3F) & m != 0) == (a & m != 0),
        m & m != 0,
        0u8 & m == 0,
        0x3Fu8 & m != 0,
{
}

/// The bitwise operations set no bit above the sixth.
proof fn lemma_bit_bounds(a: u8, b: u8)
    by (bit_vector)
    requires
        a <= 0x3F,
        b <= 0x3F,
    ensures
        a | b <= 0x3F,
        a & b <= 0x3F,
        a & !b <= 0x3F,
        a ^ b <= 0x3F,
        !a & 0x3F <= 0x3F,
{
}

/// Two bytes that agree on the six bits of the axes are the same byte.
proof fn lemma_bit_extensional(a: u8, b: u8)
    by (bit_vector)
    requires
        a <= 0x3F,
        b <= 0x3F,
        (a & 1 != 0) == (b & 1 != 0),
        (a & 2 != 0) == (b & 2 != 0),
        (a & 4 != 0) == (b & 4 != 0),
        (a & 8 != 0) == (b & 8 != 0),
        (a & 16 != 0) == (b & 16 != 0),
        (a & 32 != 0) == (b & 32 != 0),
    ensures
        a == b,
{
}

/// Inclusion, overlap and emptiness of two bytes, bit by bit.
proof fn lemma_bit_relations(a: u8, b: u8)
    by (bit_vector)
    requires
        a <= 0x3F,
        b <= 0x3F,
    ensures
        (a & b == b) == ((b & 1 != 0 ==> a & 1 != 0) && (b & 2 != 0 ==> a & 2 != 0) && (b & 4 != 0
            ==> a & 4 != 0) && (b & 8 != 0 ==> a & 8 != 0) && (b & 16 != 0 ==> a & 16 != 0) && (b
            & 32 != 0 ==> a & 32 != 0)),
        (a & b != 0) == ((b & 1 != 0 && a & 1 != 0) || (b & 2 != 0 && a & 2 != 0) || (b & 4 != 0
            && a & 4 != 0) || (b & 8 != 0 && a & 8 != 0) || (b & 16 != 0 && a & 16 != 0) || (b
            & 32 != 0 && a & 32 != 0)),
        (a == 0) == (a & 1 == 0 && a & 2 == 0 && a & 4 == 0 && a & 8 == 0 && a & 16 == 0 && a & 32
            == 0),
{
}

/// The byte made of six optional bits holds exactly the bits that are present.
proof fn lemma_bit_sum(b0: u8, b1: u8, b2: u8, b3: u8, b4: u8, b5: u8)
    by (bit_vector)
    requires
        b0 == 0 || b0 == 1,
        b1 == 0 || b1 == 2,
        b2 == 0 || b2 == 4,
        b3 == 0 || b3 == 8,
        b4 == 0 || b4 == 16,
        b5 == 0 || b5 == 32,
    ensures
        (b0 | b1 | b2 | b3 | b4 | b5) <= 0x3F,
        ((b0 | b1 | b2 | b3 | b4 | b5) & 1 != 0) == (b0 != 0),
        ((b0 | b1 | b2 | b3 | b4 | b5) & 2 != 0) == (b1 != 0),
        ((b0 | b1 | b2 | b3 | b4 | b5) & 4 != 0) == (b2 != 0),
        ((b0 | b1 | b2 | b3 | b4 | b5) & 8 != 0) == (b3 != 0),
        ((b0 | b1 | b2 | b3 | b4 | b5) & 16 != 0) == (b4 != 0),
        ((b0 | b1 | b2 | b3 | b4 | b5) & 32 != 0) == (b5 != 0),
{
}

/// The bits of the named masks.
proof fn lemma_bit_constants()
    by (bit_vector)
    ensures
        7u8 & 1 != 0 && 7u8 & 2 != 0 && 7u8 & 4 != 0 && 7u8 & 8 == 0 && 7u8 & 16 == 0 && 7u8 & 32
            == 0,
        56u8 & 1 == 0 && 56u8 & 2 == 0 && 56u8 & 4 == 0 && 56u8 & 8 != 0 && 56u8 & 16 != 0 && 56u8
            & 32 != 0,
        55u8 & 1 != 0 && 55u8 & 2 != 0 && 55u8 & 4 != 0 && 55u8 & 8 == 0 && 55u8 & 16 != 0 && 55u8
            & 32 != 0,
        62u8 & 1 == 0 && 62u8 & 2 != 0 && 62u8 & 4 != 0 && 62u8 & 8 != 0 && 62u8 & 16 != 0 && 62u8
            & 32 != 0,
{
}

/// The bits of two axes overlap only where the axes are the same.
proof fn lemma_bit_single(m: u8, n: u8)
    by (bit_vector)
    requires
        m == 1 || m == 2 || m == 4 || m == 8 || m == 16 || m == 32,
        n == 1 || n == 2 || n == 4 || n == 8 || n == 16 || n == 32,
    ensures
        (m & n != 0) == (m == n),
{
}

impl JointAxesMask {
    /// No bit above those of the six axes is set.
    #[verifier::type_invariant]
    pub closed spec fn well_formed(self) -> bool {
        self.bits <= ALL_BITS
    }

    /// The byte that holds the set.
    pub closed spec fn spec_bits(self) -> u8 {
        self.bits
    }

    /// The mask of a set of axes.
    pub closed spec fn of(axes: Set<JointAxis>) -> JointAxesMask {
        JointAxesMask {
            bits: bit_if(axes.contains(JointAxis::X), 1) | bit_if(axes.contains(JointAxis::Y), 2)
                | bit_if(axes.contains(JointAxis::Z), 4) | bit_if(
                axes.contains(JointAxis::AngX),
                8,
            ) | bit_if(axes.contains(JointAxis::AngY), 16) | bit_if(
                axes.contains(JointAxis::AngZ),
                32,
            ),
        }
    }

    /// The three translations.
    pub open spec fn linear_axes() -> Set<JointAxis> {
        set![JointAxis::X, JointAxis::Y, JointAxis::Z]
    }

    /// The three rotations.
    pub open spec fn angular_axes() -> Set<JointAxis> {
        set![JointAxis::AngX, JointAxis::AngY, JointAxis::AngZ]
    }

    /// Membership of each axis, written out on the byte of the mask.
    proof fn lemma_members(self)
        ensures
            self@.contains(JointAxis::X) == (self.bits & 1 != 0),
            self@.contains(JointAxis::Y) == (self.bits & 2 != 0),
            self@.contains(JointAxis::Z) == (self.bits & 4 != 0),
            self@.contains(JointAxis::AngX) == (self.bits & 8 != 0),
            self@.contains(JointAxis::AngY) == (self.bits & 16 != 0),
            self@.contains(JointAxis::AngZ) == (self.bits & 32 != 0),
            forall|axis: JointAxis|
                #[trigger] self@.contains(axis) == (self.bits & axis.spec_bit() != 0),
            forall|axis: JointAxis| single(#[trigger] axis.spec_bit()),
    {
        assert(JointAxis::X.spec_bit() == 1);
        assert(JointAxis::Y.spec_bit() == 2);
        assert(JointAxis::Z.spec_bit() == 4);
        assert(JointAxis::AngX.spec_bit() == 8);
        assert(JointAxis::AngY.spec_bit() == 16);
        assert(JointAxis::AngZ.spec_bit() == 32);
    }

    /// An axis belongs to a mask exactly when its bit is set in the byte of
    /// the mask.
    pub proof fn lemma_view_bits(self, axis: JointAxis)
        ensures
            self@.contains(axis) == (self.spec_bits() & axis.spec_bit() != 0),
            self.well_formed() == (self.spec_bits() <= ALL_BITS),
    {
    }

    /// Every set of axes has a mask, and the mask holds exactly that set.
    pub proof fn lemma_of_view(axes: Set<JointAxis>)
        ensures
            JointAxesMask::of(axes)@ == axes,
            JointAxesMask::of(axes).well_formed(),
    {
        let b0 = bit_if(axes.contains(JointAxis::X), 1);
        let b1 = bit_if(axes.contains(JointAxis::Y), 2);
        let b2 = bit_if(axes.contains(JointAxis::Z), 4);
        let b3 = bit_if(axes.contains(JointAxis::AngX), 8);
        let b4 = bit_if(axes.contains(JointAxis::AngY), 16);
        let b5 = bit_if(axes.contains(JointAxis::AngZ), 32);
        lemma_bit_sum(b0, b1, b2, b3, b4, b5);
        assert forall|axis: JointAxis| JointAxesMask::of(axes)@.contains(axis) == axes.contains(
            axis,
        ) by {
            assert(JointAxesMask::of(axes).bits == (b0 | b1 | b2 | b3 | b4 | b5));
        }
        assert(JointAxesMask::of(axes)@ =~= axes);
    }

    /// Two masks that hold the same axes are the same mask.
    pub proof fn lemma_same_axes(self, other: JointAxesMask)
        requires
            self.well_formed(),
            other.well_formed(),
            self@ == other@,
        ensures
            self == other,
    {
        self.lemma_members();
        other.lemma_members();
        lemma_bit_extensional(self.bits, other.bits);
    }

    /// A mask that holds a given set of axes is the mask of that set.
    pub proof fn lemma_is_of(self, axes: Set<JointAxis>)
        requires
            self.well_formed(),
            self@ == axes,
        ensures
            self == JointAxesMask::of(axes),
    {
        JointAxesMask::lemma_of_view(axes);
        self.lemma_same_axes(JointAxesMask::of(axes));
    }

    /// A mask is the mask of the set it holds.
    pub proof fn lemma_of_inverse(self)
        requires
            self.well_formed(),
        ensures
            JointAxesMask::of(self@) == self,
    {
        JointAxesMask::lemma_of_view(self@);
        JointAxesMask::of(self@).lemma_same_axes(self);
    }

    /// The mask without any axis.
    pub fn empty() -> (r: JointAxesMask)
        ensures
            r@ == Set::<JointAxis>::empty(),
    {
        let r = JointAxesMask { bits: 0 };
        proof {
            r.lemma_members();
            assert forall|axis: JointAxis| !r@.contains(axis) by {
                lemma_bit_ops(0, 0, axis.spec_bit());
            }
        }
        r
    }

    /// The mask of all six axes.
    pub fn all() -> (r: JointAxesMask)
        ensures
            r@ == Set::<JointAxis>::full(),
    {
        let r = JointAxesMask { bits: ALL_BITS };
        proof {
            r.lemma_members();
            assert forall|axis: JointAxis| r@.contains(axis) by {
                lemma_bit_ops(0, 0, axis.spec_bit());
            }
        }
        r
    }

    /// The mask of the three translations.
    pub fn lin_axes() -> (r: JointAxesMask)
        ensures
            r@ == JointAxesMask::linear_axes(),
    {
        let r = JointAxesMask { bits: 7 };
        proof {
            r.lemma_members();
            lemma_bit_constants();
        }
        r
    }

    /// The mask of the three rotations.
    pub fn ang_axes() -> (r: JointAxesMask)
        ensures
            r@ == JointAxesMask::angular_axes(),
    {
        let r = JointAxesMask { bits: 56 };
        proof {
            r.lemma_members();
            lemma_bit_constants();
        }
        r
    }

    /// The axes that a hinge locks: every axis but the rotation about the
    /// first axis.
    pub fn locked_revolute_axes() -> (r: JointAxesMask)
        ensures
            r@ == Set::<JointAxis>::full().remove(JointAxis::AngX),
    {
        let r = JointAxesMask { bits: 55 };
        proof {
            r.lemma_members();
            lemma_bit_constants();
        }
        r
    }

    /// The axes that a slider locks: every axis but the translation along
    /// the first axis.
    pub fn locked_prismatic_axes() -> (r: JointAxesMask)
        ensures
            r@ == Set::<JointAxis>::full().remove(JointAxis::X),
    {
        let r = JointAxesMask { bits: 62 };
        proof {
            r.lemma_members();
            lemma_bit_constants();
        }
        r
    }

    /// The axes that a weld locks: all six.
    pub fn locked_fixed_axes() -> (r: JointAxesMask)
        ensures
            r@ == Set::<JointAxis>::full(),
    {
        JointAxesMask::all()
    }

    /// The axes that a ball joint locks: the three translations.
    pub fn locked_spherical_axes() -> (r: JointAxesMask)
        ensures
            r@ == JointAxesMask::linear_axes(),
    {
        JointAxesMask::lin_axes()
    }

    /// The mask of one axis.
    pub fn from_axis(axis: JointAxis) -> (r: JointAxesMask)
        ensures
            r@ == set![axis],
    {
        let r = JointAxesMask { bits: axis.bit() };
        proof {
            r.lemma_members();
            assert forall|other: JointAxis| r@.contains(other) == (other == axis) by {
                lemma_bit_single(axis.spec_bit(), other.spec_bit());
            }
        }
        r
    }

    /// The mask held in a byte, if the byte sets no bit above the sixth.
    pub fn from_bits(bits: u8) -> (r: Option<JointAxesMask>)
        ensures
            r is Some <==> bits <= ALL_BITS,
            r matches Some(mask) ==> mask.spec_bits() == bits,
    {
        if bits <= ALL_BITS {
            Some(JointAxesMask { bits })
        } else {
            None
        }
    }

    /// The mask held in the six low bits of a byte.
    pub fn from_bits_truncate(bits: u8) -> (r: JointAxesMask)
        ensures
            forall|axis: JointAxis| r@.contains(axis) == (bits & axis.spec_bit() != 0),
            bits <= ALL_BITS ==> r.spec_bits() == bits,
    {
        assert(bits & 0x3F <= 0x3F) by (bit_vector);
        assert(bits <= 0x3F ==> bits & 0x3F == bits) by (bit_vector);
        let r = JointAxesMask { bits: bits & ALL_BITS };
        proof {
            r.lemma_members();
            assert forall|axis: JointAxis| r@.contains(axis) == (bits & axis.spec_bit() != 0) by {
                lemma_bit_ops(bits, 0, axis.spec_bit());
            }
        }
        r
    }

    /// The byte that holds the set.
    pub fn bits(self) -> (bits: u8)
        ensures
            bits == self.spec_bits(),
            bits <= ALL_BITS,
    {
        proof {
            use_type_invariant(&self);
        }
        self.bits
    }

    /// Whether the mask holds no axis.
    pub fn is_empty(self) -> (r: bool)
        ensures
            r == (self@ == Set::<JointAxis>::empty()),
    {
        proof {
            use_type_invariant(&self);
            self.lemma_members();
            lemma_bit_relations(self.bits, self.bits);
            if self.bits != 0 {
                assert(self@ != Set::<JointAxis>::empty()) by {
                    if self@ =~= Set::<JointAxis>::empty() {
                        assert(!self@.contains(JointAxis::X));
                        assert(!self@.contains(JointAxis::Y));
                        assert(!self@.contains(JointAxis::Z));
                        assert(!self@.contains(JointAxis::AngX));
                        assert(!self@.contains(JointAxis::AngY));
                        assert(!self@.contains(JointAxis::AngZ));
                    }
                }
            } else {
                assert forall|axis: JointAxis| !self@.contains(axis) by {
                    lemma_bit_ops(0, 0, axis.spec_bit());
                }
                assert(self@ =~= Set::<JointAxis>::empty());
            }
        }
        self.bits == 0
    }

    /// Whether the mask holds all six axes.
    pub fn is_all(self) -> (r: bool)
        ensures
            r == (self@ == Set::<JointAxis>::full()),
    {
        proof {
            use_type_invariant(&self);
            self.lemma_members();
            if self.bits == ALL_BITS {
                assert forall|axis: JointAxis| self@.contains(axis) by {
                    lemma_bit_ops(0, 0, axis.spec_bit());
                }
                assert(self@ =~= Set::<JointAxis>::full());
            } else {
                if self@ == Set::<JointAxis>::full() {
                    let full = JointAxesMask { bits: ALL_BITS };
                    full.lemma_members();
                    assert forall|axis: JointAxis| full@.contains(axis) by {
                        lemma_bit_ops(0, 0, axis.spec_bit());
                    }
                    assert(full@ =~= self@);
                    self.lemma_same_axes(full);
                }
            }
        }
        self.bits == ALL_BITS
    }

    /// The axis belongs to the mask.
    pub fn contains_axis(self, axis: JointAxis) -> (r: bool)
        ensures
            r == self@.contains(axis),
    {
        proof {
            self.lemma_members();
        }
        self.bits & axis.bit() != 0
    }

    /// Every axis of `other` belongs to the mask.
    pub fn contains(self, other: JointAxesMask) -> (r: bool)
        ensures
            r == other@.subset_of(self@),
    {
        proof {
            use_type_invariant(&self);
            use_type_invariant(&other);
            self.lemma_members();
            other.lemma_members();
            lemma_bit_relations(self.bits, other.bits);
            if self.bits & other.bits == other.bits {
                assert forall|axis: JointAxis| other@.contains(axis) implies self@.contains(
                    axis,
                ) by {
                    match axis {
                        JointAxis::X => {},
                        JointAxis::Y => {},
                        JointAxis::Z => {},
                        JointAxis::AngX => {},
                        JointAxis::AngY => {},
                        JointAxis::AngZ => {},
                    }
                }
            }
        }
        self.bits & other.bits == other.bits
    }

    /// Some axis belongs to both masks.
    pub fn intersects(self, other: JointAxesMask) -> (r: bool)
        ensures
            r == !self@.disjoint(other@),
    {
        proof {
            use_type_invariant(&self);
            use_type_invariant(&other);
            self.lemma_members();
            other.lemma_members();
            lemma_bit_relations(self.bits, other.bits);
            if self.bits & other.bits == 0 {
                assert forall|axis: JointAxis| self@.contains(axis) implies !other@.contains(
                    axis,
                ) by {
                    match axis {
                        JointAxis::X => {},
                        JointAxis::Y => {},
                        JointAxis::Z => {},
                        JointAxis::AngX => {},
                        JointAxis::AngY => {},
                        JointAxis::AngZ => {},
                    }
                }
            }
        }
        self.bits & other.bits != 0
    }

    /// The axes of either mask.
    pub fn union(self, other: JointAxesMask) -> (r: JointAxesMask)
        ensures
            r@ == self@.union(other@),
    {
        proof {
            use_type_invariant(&self);
            use_type_invariant(&other);
            lemma_bit_bounds(self.bits, other.bits);
        }
        let r = JointAxesMask { bits: self.bits | other.bits };
        proof {
            self.lemma_members();
            other.lemma_members();
            r.lemma_members();
            assert forall|axis: JointAxis| r@.contains(axis) == (self@.contains(axis)
                || other@.contains(axis)) by {
                lemma_bit_ops(self.bits, other.bits, axis.spec_bit());
            }
        }
        r
    }

    /// The axes of both masks.
    pub fn intersection(self, other: JointAxesMask) -> (r: JointAxesMask)
        ensures
            r@ == self@.intersect(other@),
    {
        proof {
            use_type_invariant(&self);
            use_type_invariant(&other);
            lemma_bit_bounds(self.bits, other.bits);
        }
        let r = JointAxesMask { bits: self.bits & other.bits };
        proof {
            self.lemma_members();
            other.lemma_members();
            r.lemma_members();
            assert forall|axis: JointAxis| r@.contains(axis) == (self@.contains(axis)
                && other@.contains(axis)) by {
                lemma_bit_ops(self.bits, other.bits, axis.spec_bit());
            }
        }
        r
    }

    /// The axes of the mask that do not belong to `other`.
    pub fn difference(self, other: JointAxesMask) -> (r: JointAxesMask)
        ensures
            r@ == self@.difference(other@),
    {
        proof {
            use_type_invariant(&self);
            use_type_invariant(&other);
            lemma_bit_bounds(self.bits, other.bits);
        }
        let r = JointAxesMask { bits: self.bits & !other.bits };
        proof {
            self.lemma_members();
            other.lemma_members();
            r.lemma_members();
            assert forall|axis: JointAxis| r@.contains(axis) == (self@.contains(axis)
                && !other@.contains(axis)) by {
                lemma_bit_ops(self.bits, other.bits, axis.spec_bit());
            }
        }
        r
    }

    /// The axes that do not belong to the mask.
    pub fn complement(self) -> (r: JointAxesMask)
        ensures
            r@ == self@.complement(),
    {
        proof {
            use_type_invariant(&self);
            lemma_bit_bounds(self.bits, self.bits);
        }
        let r = JointAxesMask { bits: !self.bits & ALL_BITS };
        proof {
            self.lemma_members();
            r.lemma_members();
            assert forall|axis: JointAxis| r@.contains(axis) == !self@.contains(axis) by {
                lemma_bit_ops(self.bits, self.bits, axis.spec_bit());
            }
        }
        r
    }

    /// Adds the axes of `other` to the mask.
    pub fn insert(&mut self, other: JointAxesMask)
        ensures
            final(self)@ == old(self)@.union(other@),
    {
        *self = self.union(other);
    }

    /// Takes the axes of `other` out of the mask.
    pub fn remove(&mut self, other: JointAxesMask)
        ensures
            final(self)@ == old(self)@.difference(other@),
    {
        *self = self.difference(other);
    }

    /// Adds the axes of `other` to the mask, or takes them out of it.
    pub fn set(&mut self, other: JointAxesMask, value: bool)
        ensures
            final(self)@ == if value {
                old(self)@.union(other@)
            } else {
                old(self)@.difference(other@)
            },
    {
        if value {
            self.insert(other);
        } else {
            self.remove(other);
        }
    }
}

impl From<JointAxis> for JointAxesMask {
    fn from(axis: JointAxis) -> (r: JointAxesMask) {
        let r = JointAxesMask::from_axis(axis);
        proof {
            use_type_invariant(&r);
            JointAxesMask::lemma_of_view(set![axis]);
            r.lemma_same_axes(JointAxesMask::of(set![axis]));
        }
        r
    }
}

impl vstd::std_specs::convert::FromSpecImpl<JointAxis> for JointAxesMask {
    open spec fn obeys_from_spec() -> bool {
        true
    }

    open spec fn from_spec(axis: JointAxis) -> JointAxesMask {
        JointAxesMask::of(set![axis])
    }
}

} // verus!
