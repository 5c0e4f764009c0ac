//! Exact fixed-point numbers used for calibrated meter readings.
//!
//! A reading is stored as a count of millionths of a unit, so six decimal
//! digits of a telegram field and the usual integer multipliers are carried
//! exactly, and the counter filter's comparisons are exact rational
//! comparisons rather than approximations.

use vstd::math::abs;
use vstd::prelude::*;

verus! {

/// Fixed-point units per whole unit: values carry six decimal digits.
pub const MICROS_PER_UNIT: i64 = 1_000_000;

/// An exact fixed-point number with six fractional decimal digits.
///
/// The mathematical value is `micros / 1_000_000`; the view of a `Value` is
/// its count of millionths, an integer.
#[derive(Clone, Copy, Debug, PartialEq, Eq, Structural)]
pub struct Value {
    micros: i64,
}

impl View for Value {
    type V = int;

    closed spec fn view(&self) -> int {
        self.micros as int
    }
}

/// The product of two fixed-point values in millionths, truncated toward
/// zero: `a` and `b` are counts of millionths, so the exact product must be
/// scaled back down by one million.
pub open spec fn scaled_product(a: int, b: int) -> int {
    let mag = (abs(a) * abs(b)) as int / (MICROS_PER_UNIT as int);
    if (a < 0) <==> (b < 0) {
        mag
    } else {
        -mag
    }
}

/// Whether an integer count of millionths fits in a `Value`.
///
/// The symmetric bound leaves out `i64::MIN`, so every representable value
/// can also be negated.
pub open spec fn fits_value(v: int) -> bool {
    -(i64::MAX as int) <= v <= i64::MAX as int
}

impl Value {
    /// Builds the value of `micros` millionths of a unit.
    pub fn from_micros(micros: i64) -> (r: Value)
        ensures
            r@ == micros as int,
    {
        Value { micros }
    }

    /// The value as a count of millionths of a unit.
    pub fn micros(&self) -> (r: i64)
        ensures
            r as int == self@,
    {
        self.micros
    }

    /// Multiplies two fixed-point values exactly, truncating the result
    /// toward zero at the sixth fractional digit; `None` exactly when the
    /// product does not fit.
    pub fn checked_scale_mul(self, other: Value) -> (r: Option<Value>)
        ensures
            r matches Some(v) ==> v@ == scaled_product(self@, other@),
            r is Some <==> fits_value(scaled_product(self@, other@)),
    {
        let a: u128 = if self.micros < 0 {
            (-(self.micros as i128)) as u128
        } else {
            self.micros as u128
        };
        let b: u128 = if other.micros < 0 {
            (-(other.micros as i128)) as u128
        } else {
            other.micros as u128
        };
        proof {
            assert(a * b <= 0x8000_0000_0000_0000u128 * 0x8000_0000_0000_0000u128)
                by (nonlinear_arith)
                requires
                    a <= 0x8000_0000_0000_0000u128,
                    b <= 0x8000_0000_0000_0000u128,
            ;
        }
        let mag: u128 = (a * b) / (MICROS_PER_UNIT as u128);
        if mag > i64::MAX as u128 {
            assert(!fits_value(scaled_product(self@, other@)));
            None
        } else {
            let m = mag as i64;
            let negative = (self.micros < 0) != (other.micros < 0);
            let micros: i64 = if negative {
                -m
            } else {
                m
            };
            assert(micros as int == scaled_product(self@, other@));
            Some(Value { micros })
        }
    }
}

} // verus!
