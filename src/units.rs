//! Lengths in yards and meters, each held as an integer count of thousandths
//! of its unit.
use vstd::prelude::*;

verus! {

/// Yards per meter, scaled by 10^5: the conversion factor is 1.09361.
pub const YARDS_PER_METER_E5: u128 = 109_361;

/// The scale of `YARDS_PER_METER_E5`.
pub const CONVERSION_SCALE: u128 = 100_000;

/// Thousandths of a yard in one yard.
pub const MILLI_PER_UNIT: usize = 1000;

/// Milli-meters for a length of `my` milli-yards: the exact quotient by
/// 1.09361, truncated toward zero.
pub open spec fn milli_meters_of(my: nat) -> nat {
    (my * 100_000) / 109_361
}

/// Milli-yards for a length of `mm` milli-meters: the exact product with
/// 1.09361, truncated toward zero.
pub open spec fn milli_yards_of(mm: nat) -> nat {
    (mm * 109_361) / 100_000
}

/// A length in meters, held as milli-meters.
#[derive(Clone, Copy, Debug, PartialEq, Eq, Structural)]
pub struct Meters(pub usize);

/// A length in yards, held as milli-yards.
#[derive(Clone, Copy, Debug, PartialEq, Eq, PartialOrd, Ord, Hash, Structural)]
pub struct Yards(pub usize);

impl Meters {
    /// The same length in yards, truncated toward zero to a whole milli-yard.
    pub fn to_yards(self) -> (r: Yards)
        requires
            milli_yards_of(self.0 as nat) <= usize::MAX,
        ensures
            r.0 == milli_yards_of(self.0 as nat),
    {
        let p: u128 = (self.0 as u128) * YARDS_PER_METER_E5;
        Yards((p / CONVERSION_SCALE) as usize)
    }
}

impl Yards {
    /// `val` whole yards.
    pub fn new(val: usize) -> (r: Yards)
        requires
            val * 1000 <= usize::MAX,
        ensures
            r.0 == val * 1000,
    {
        Yards(val * MILLI_PER_UNIT)
    }

    /// The same length in meters, truncated toward zero to a whole
    /// milli-meter.
    pub fn to_meters(self) -> (r: Meters)
        ensures
            r.0 == milli_meters_of(self.0 as nat),
    {
        let p: u128 = (self.0 as u128) * CONVERSION_SCALE;
        let q: u128 = p / YARDS_PER_METER_E5;
        proof {
            lemma_milli_meters_bounded(self.0 as nat);
        }
        Meters(q as usize)
    }

    /// The distance between two lengths.
    pub fn abs_diff(self, other: Yards) -> (r: Yards)
        ensures
            r.0 == abs_diff_spec(self.0 as int, other.0 as int),
    {
        if self.0 >= other.0 {
            Yards(self.0 - other.0)
        } else {
            Yards(other.0 - self.0)
        }
    }
}

/// `|a - b|`.
pub open spec fn abs_diff_spec(a: int, b: int) -> int {
    if a >= b {
        a - b
    } else {
        b - a
    }
}

/// Converting to meters never makes a length longer.
pub proof fn lemma_milli_meters_bounded(my: nat)
    ensures
        milli_meters_of(my) <= my,
{
    assert((my * 100_000) / 109_361 <= my) by (nonlinear_arith);
}

/// A whole number of yards `n` converts to the milli-meter count that is
/// `n * 1000 / 1.09361` truncated toward zero: the largest `mm` with
/// `mm * 1.09361 <= n * 1000`.
pub proof fn lemma_whole_yards_to_meters(n: nat)
    ensures
        milli_meters_of(n * 1000) * 109_361 <= n * 1000 * 100_000,
        n * 1000 * 100_000 < (milli_meters_of(n * 1000) + 1) * 109_361,
{
    let x = n * 1000 * 100_000;
    assert(n * 1000 * 100_000 == (n * 1000) * 100_000) by (nonlinear_arith);
    vstd::arithmetic::div_mod::lemma_fundamental_div_mod(x as int, 109_361);
    vstd::arithmetic::div_mod::lemma_mod_bound(x as int, 109_361);
}

} // verus!
