//! Equality and order of floating-point numbers, on the bits of their
//! encodings.

use crate::value::Float;
use core::cmp::Ordering;
use vstd::prelude::*;
use vstd::std_specs::cmp::{PartialEqSpecImpl, PartialOrdSpecImpl};

verus! {

impl Float {
    /// The bits below the sign bit: the exponent field and the fraction.
    pub open spec fn magnitude(self) -> int {
        match self {
            Float::F32(bits) => bits as int % 0x8000_0000,
            Float::F64(bits) => bits as int % 0x8000_0000_0000_0000,
        }
    }

    /// Whether the sign bit is set.
    pub open spec fn negative(self) -> bool {
        match self {
            Float::F32(bits) => bits >= 0x8000_0000,
            Float::F64(bits) => bits >= 0x8000_0000_0000_0000,
        }
    }

    /// Whether the number is a NaN: its exponent field is all ones and its
    /// fraction is not zero.
    pub open spec fn nan(self) -> bool {
        match self {
            Float::F32(_) => self.magnitude() > 0x7f80_0000,
            Float::F64(_) => self.magnitude() > 0x7ff0_0000_0000_0000,
        }
    }

    /// The place of a number that is no NaN among the numbers of its
    /// precision: the magnitude, negated under a set sign bit. The two zeros
    /// share the place 0, and of two numbers the smaller has the smaller
    /// place.
    pub open spec fn rank(self) -> int {
        if self.negative() {
            -self.magnitude()
        } else {
            self.magnitude()
        }
    }
}

/// The rank of the number of single precision with the bits `bits`, unless
/// it is a NaN.
fn single_rank(bits: u32) -> (rank: Option<i64>)
    ensures
        match rank {
            Some(r) => !Float::F32(bits).nan() && r == Float::F32(bits).rank(),
            None => Float::F32(bits).nan(),
        },
{
    let magnitude = bits & 0x7fff_ffffu32;
    assert(magnitude == bits % 0x8000_0000u32 && ((bits >> 31u32) == 1u32 <==> bits
        >= 0x8000_0000u32)) by (bit_vector)
        requires
            magnitude == bits & 0x7fff_ffffu32,
    ;
    if magnitude > 0x7f80_0000u32 {
        None
    } else if bits >> 31u32 == 1u32 {
        Some(-(magnitude as i64))
    } else {
        Some(magnitude as i64)
    }
}

/// The rank of the number of double precision with the bits `bits`, unless
/// it is a NaN.
fn double_rank(bits: u64) -> (rank: Option<i64>)
    ensures
        match rank {
            Some(r) => !Float::F64(bits).nan() && r == Float::F64(bits).rank(),
            None => Float::F64(bits).nan(),
        },
{
    let magnitude = bits & 0x7fff_ffff_ffff_ffffu64;
    assert(magnitude == bits % 0x8000_0000_0000_0000u64 && ((bits >> 63u64) == 1u64 <==> bits
        >= 0x8000_0000_0000_0000u64)) by (bit_vector)
        requires
            magnitude == bits & 0x7fff_ffff_ffff_ffffu64,
    ;
    if magnitude > 0x7ff0_0000_0000_0000u64 {
        None
    } else if bits >> 63u64 == 1u64 {
        Some(-(magnitude as i64))
    } else {
        Some(magnitude as i64)
    }
}

/// Whether two numbers are equal: they have one precision, neither is a NaN
/// and their ranks are the same.
pub open spec fn same_float(a: Float, b: Float) -> bool {
    match (a, b) {
        (Float::F32(_), Float::F32(_)) => !a.nan() && !b.nan() && a.rank() == b.rank(),
        (Float::F64(_), Float::F64(_)) => !a.nan() && !b.nan() && a.rank() == b.rank(),
        _ => false,
    }
}

/// The order of two numbers of one precision by their ranks: none if either
/// is a NaN.
pub open spec fn order_by_rank(a: Float, b: Float) -> Option<Ordering> {
    if a.nan() || b.nan() {
        None
    } else if a.rank() < b.rank() {
        Some(Ordering::Less)
    } else if a.rank() == b.rank() {
        Some(Ordering::Equal)
    } else {
        Some(Ordering::Greater)
    }
}

fn order_ranks(a: Option<i64>, b: Option<i64>) -> (order: Option<Ordering>)
    ensures
        order == match (a, b) {
            (Some(x), Some(y)) => if x < y {
                Some(Ordering::Less)
            } else if x == y {
                Some(Ordering::Equal)
            } else {
                Some(Ordering::Greater)
            },
            _ => None,
        },
{
    match (a, b) {
        (Some(x), Some(y)) => if x < y {
            Some(Ordering::Less)
        } else if x == y {
            Some(Ordering::Equal)
        } else {
            Some(Ordering::Greater)
        },
        _ => None,
    }
}

impl PartialEq for Float {
    fn eq(&self, other: &Float) -> (equal: bool) {
        match (*self, *other) {
            (Float::F32(a), Float::F32(b)) => match (single_rank(a), single_rank(b)) {
                (Some(x), Some(y)) => x == y,
                _ => false,
            },
            (Float::F64(a), Float::F64(b)) => match (double_rank(a), double_rank(b)) {
                (Some(x), Some(y)) => x == y,
                _ => false,
            },
            _ => false,
        }
    }
}

impl PartialEqSpecImpl for Float {
    open spec fn obeys_eq_spec() -> bool {
        true
    }

    open spec fn eq_spec(&self, other: &Float) -> bool {
        same_float(*self, *other)
    }
}

impl PartialOrd for Float {
    fn partial_cmp(&self, other: &Float) -> (order: Option<Ordering>) {
        match (*self, *other) {
            (Float::F32(a), Float::F32(b)) => order_ranks(single_rank(a), single_rank(b)),
            (Float::F64(a), Float::F64(b)) => order_ranks(double_rank(a), double_rank(b)),
            (Float::F32(_), Float::F64(_)) => Some(Ordering::Less),
            (Float::F64(_), Float::F32(_)) => Some(Ordering::Greater),
        }
    }
}

impl PartialOrdSpecImpl for Float {
    open spec fn obeys_partial_cmp_spec() -> bool {
        true
    }

    /// Numbers of one precision stand in the order of their ranks, and a NaN
    /// stands in no order. A number of single precision comes before one of
    /// double precision.
    open spec fn partial_cmp_spec(&self, other: &Float) -> Option<Ordering> {
        match (*self, *other) {
            (Float::F32(_), Float::F32(_)) => order_by_rank(*self, *other),
            (Float::F64(_), Float::F64(_)) => order_by_rank(*self, *other),
            (Float::F32(_), Float::F64(_)) => Some(Ordering::Less),
            (Float::F64(_), Float::F32(_)) => Some(Ordering::Greater),
        }
    }
}

} // verus!
