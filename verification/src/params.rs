//! The parameters that shape a tree, and their valid ranges.
//!
//! The branch angle and the base length are binary32 numbers and are held as
//! their bit patterns; `crate::binary32` says what the patterns stand for.
//! Whatever is handed in, a NaN included, what is kept lies in range.
use vstd::prelude::*;
use vstd::arithmetic::power2::*;
use crate::binary32;

verus! {

pub const MIN_ITERATIONS: i32 = 1;

pub const MAX_ITERATIONS: i32 = 15;

pub const DEFAULT_ITERATIONS: i32 = 5;

/// 5 degrees.
pub const MIN_ANGLE: u32 = 0x40a0_0000;

/// 60 degrees.
pub const MAX_ANGLE: u32 = 0x4270_0000;

/// 25 degrees.
pub const DEFAULT_ANGLE: u32 = 0x41c8_0000;

/// 20 surface units.
pub const MIN_LENGTH: u32 = 0x41a0_0000;

/// 200 surface units.
pub const MAX_LENGTH: u32 = 0x4348_0000;

/// 100 surface units.
pub const DEFAULT_LENGTH: u32 = 0x42c8_0000;

/// The parameters of a tree.
#[derive(Clone, Copy, Debug, PartialEq, Eq, Structural)]
pub struct FractalParams {
    /// Number of generations.
    pub iterations: i32,
    /// Degrees by which a branch turns away from its parent, as binary32
    /// bits.
    pub angle: u32,
    /// Length of the trunk in surface units, as binary32 bits.
    pub length: u32,
}

/// An integer brought into the range from `MIN_ITERATIONS` to
/// `MAX_ITERATIONS`.
pub open spec fn clamped_iterations(iterations: int) -> int {
    if iterations < MIN_ITERATIONS {
        MIN_ITERATIONS as int
    } else if iterations > MAX_ITERATIONS {
        MAX_ITERATIONS as int
    } else {
        iterations
    }
}

/// Whether a pattern is a number between `lo` and `hi` times 1.
pub open spec fn is_between(bits: u32, lo: int, hi: int) -> bool {
    !binary32::is_nan(bits) && lo * binary32::one() <= binary32::value(bits) <= hi
        * binary32::one()
}

/// A pattern brought into the interval from `lo` to `hi`: a number below the
/// interval becomes `lo`, a number above it becomes `hi`, a number within it
/// stays. A NaN is no number and has no nearest bound; it becomes `lo`.
pub open spec fn confined(bits: u32, lo: u32, hi: u32) -> u32 {
    if binary32::is_nan(bits) {
        lo
    } else {
        binary32::clamped(bits, lo, hi)
    }
}

/// Brings an iteration count into the range from `MIN_ITERATIONS` to
/// `MAX_ITERATIONS`.
pub fn clamp_iterations(iterations: i32) -> (r: i32)
    ensures
        r == clamped_iterations(iterations as int),
{
    if iterations < MIN_ITERATIONS {
        MIN_ITERATIONS
    } else if iterations > MAX_ITERATIONS {
        MAX_ITERATIONS
    } else {
        iterations
    }
}

/// Brings a pattern into the interval from `lo` to `hi`; a NaN becomes `lo`.
/// The result is always a number of the interval.
pub fn confine(bits: u32, lo: u32, hi: u32) -> (r: u32)
    requires
        !binary32::is_nan(lo),
        !binary32::is_nan(hi),
        binary32::value(lo) <= binary32::value(hi),
    ensures
        r == confined(bits, lo, hi),
        !binary32::is_nan(r),
        binary32::value(lo) <= binary32::value(r) <= binary32::value(hi),
{
    if binary32::is_nan_bits(bits) {
        lo
    } else {
        binary32::clamp(bits, lo, hi)
    }
}

impl FractalParams {
    /// The parameters with each field brought into its range on its own. An
    /// angle or a length that is a NaN becomes the lower bound of its range.
    pub open spec fn clamped(self) -> FractalParams {
        FractalParams {
            iterations: clamped_iterations(self.iterations as int) as i32,
            angle: confined(self.angle, MIN_ANGLE, MAX_ANGLE),
            length: confined(self.length, MIN_LENGTH, MAX_LENGTH),
        }
    }

    /// Every field lies in its range: from 1 to 15 generations, an angle
    /// that is a number from 5 to 60, a length that is a number from 20 to
    /// 200.
    pub open spec fn in_range(self) -> bool {
        &&& MIN_ITERATIONS <= self.iterations <= MAX_ITERATIONS
        &&& is_between(self.angle, 5, 60)
        &&& is_between(self.length, 20, 200)
    }

    /// Brings each field into its range: what lies below the range becomes
    /// its lower bound, what lies above becomes its upper bound, and an angle
    /// or a length that is a NaN becomes its lower bound. Nothing is ever
    /// refused.
    pub fn clamp(self) -> (r: FractalParams)
        ensures
            r == self.clamped(),
            r.in_range(),
    {
        proof {
            lemma_bounds();
        }
        FractalParams {
            iterations: clamp_iterations(self.iterations),
            angle: confine(self.angle, MIN_ANGLE, MAX_ANGLE),
            length: confine(self.length, MIN_LENGTH, MAX_LENGTH),
        }
    }
}

impl Default for FractalParams {
    /// 5 generations, 25 degrees, 100 surface units.
    fn default() -> (r: FractalParams)
        ensures
            r == (FractalParams {
                iterations: DEFAULT_ITERATIONS,
                angle: DEFAULT_ANGLE,
                length: DEFAULT_LENGTH,
            }),
            r.in_range(),
    {
        proof {
            lemma_bounds();
        }
        FractalParams {
            iterations: DEFAULT_ITERATIONS,
            angle: DEFAULT_ANGLE,
            length: DEFAULT_LENGTH,
        }
    }
}

/// What the bounds and the defaults stand for: 5, 60 and 25 degrees; 20, 200
/// and 100 surface units.
pub proof fn lemma_bounds()
    ensures
        is_between(MIN_ANGLE, 5, 5),
        is_between(MAX_ANGLE, 60, 60),
        is_between(DEFAULT_ANGLE, 25, 25),
        is_between(MIN_LENGTH, 20, 20),
        is_between(MAX_LENGTH, 200, 200),
        is_between(DEFAULT_LENGTH, 100, 100),
{
    lemma2_to64();
    lemma_pow2_pos(149);
    binary32::lemma_normal_value(MIN_ANGLE, 129, 0x20_0000, 5, 21);
    binary32::lemma_normal_value(MAX_ANGLE, 132, 0x70_0000, 60, 18);
    binary32::lemma_normal_value(DEFAULT_ANGLE, 131, 0x48_0000, 25, 19);
    binary32::lemma_normal_value(MIN_LENGTH, 131, 0x20_0000, 20, 19);
    binary32::lemma_normal_value(MAX_LENGTH, 134, 0x48_0000, 200, 16);
    binary32::lemma_normal_value(DEFAULT_LENGTH, 133, 0x48_0000, 100, 17);
}

/// Clamped parameters are in range whatever was handed in, a NaN included;
/// parameters in range are left as they are; and every number is clamped as
/// a number.
pub proof fn lemma_clamped_in_range(p: FractalParams)
    ensures
        p.clamped().in_range(),
        p.in_range() ==> p.clamped() == p,
        p.clamped().clamped() == p.clamped(),
        !binary32::is_nan(p.angle) ==> p.clamped().angle == binary32::clamped(
            p.angle,
            MIN_ANGLE,
            MAX_ANGLE,
        ),
        !binary32::is_nan(p.length) ==> p.clamped().length == binary32::clamped(
            p.length,
            MIN_LENGTH,
            MAX_LENGTH,
        ),
        binary32::is_nan(p.angle) ==> p.clamped().angle == MIN_ANGLE,
        binary32::is_nan(p.length) ==> p.clamped().length == MIN_LENGTH,
{
    lemma_bounds();
}

} // verus!
