//! Exact parsing of ASCII decimal literals from telegram fields.
//!
//! A telegram field such as `0000123.45` is parsed as an exact decimal: an
//! optional sign, integer digits, and at most one decimal point followed by
//! fraction digits. The result is a [`Value`] in millionths of a unit;
//! fraction digits beyond the sixth are truncated toward zero. A field that
//! is not such a literal, or whose value does not fit, yields `None`.

use crate::value::{fits_value, Value, MICROS_PER_UNIT};
use vstd::prelude::*;

verus! {

pub const BYTE_PLUS: u8 = 43;

pub const BYTE_MINUS: u8 = 45;

pub const BYTE_DOT: u8 = 46;

pub const BYTE_ZERO: u8 = 48;

pub const BYTE_NINE: u8 = 57;

/// Whether `b` is an ASCII decimal digit.
pub open spec fn is_ascii_digit(b: u8) -> bool {
    BYTE_ZERO <= b <= BYTE_NINE
}

pub open spec fn all_ascii_digits(s: Seq<u8>) -> bool {
    forall|j: int| 0 <= j < s.len() ==> is_ascii_digit(#[trigger] s[j])
}

/// The integer denoted by a sequence of ASCII digits, most significant
/// digit first.
pub open spec fn digits_value(s: Seq<u8>) -> int
    decreases s.len(),
{
    if s.len() == 0 {
        0
    } else {
        digits_value(s.drop_last()) * 10 + (s.last() - BYTE_ZERO)
    }
}

pub open spec fn pow10(n: nat) -> int
    decreases n,
{
    if n == 0 {
        1
    } else {
        10 * pow10((n - 1) as nat)
    }
}

/// The signless part of a decimal literal: everything after a leading sign.
pub open spec fn decimal_body(s: Seq<u8>) -> Seq<u8> {
    if s.len() > 0 && (s[0] == BYTE_PLUS || s[0] == BYTE_MINUS) {
        s.drop_first()
    } else {
        s
    }
}

pub open spec fn decimal_is_negative(s: Seq<u8>) -> bool {
    s.len() > 0 && s[0] == BYTE_MINUS
}

/// Index of the first decimal point of `s`, or `s.len()` when there is none.
pub open spec fn dot_position(s: Seq<u8>) -> int
    decreases s.len(),
{
    if s.len() == 0 {
        0
    } else if s[0] == BYTE_DOT {
        0
    } else {
        1 + dot_position(s.drop_first())
    }
}

/// The digits before the decimal point.
pub open spec fn integer_digits(s: Seq<u8>) -> Seq<u8> {
    decimal_body(s).take(dot_position(decimal_body(s)))
}

/// The digits after the decimal point, empty when there is no point.
pub open spec fn fraction_digits(s: Seq<u8>) -> Seq<u8> {
    let body = decimal_body(s);
    let d = dot_position(body);
    if d == body.len() {
        Seq::empty()
    } else {
        body.skip(d + 1)
    }
}

/// A decimal literal: an optional sign, then digits with at most one
/// decimal point and at least one digit overall.
pub open spec fn is_decimal(s: Seq<u8>) -> bool {
    &&& all_ascii_digits(integer_digits(s))
    &&& all_ascii_digits(fraction_digits(s))
    &&& integer_digits(s).len() + fraction_digits(s).len() >= 1
}

/// The value in millionths contributed by the fraction digits: the first
/// six of them, padded with zeros on the right.
pub open spec fn fraction_micros(fr: Seq<u8>) -> int {
    if fr.len() >= 6 {
        digits_value(fr.take(6))
    } else {
        digits_value(fr) * pow10((6 - fr.len()) as nat)
    }
}

/// The exact value of a decimal literal in millionths of a unit, truncated
/// toward zero beyond the sixth fraction digit.
pub open spec fn decimal_micros(s: Seq<u8>) -> int {
    let mag = digits_value(integer_digits(s)) * (MICROS_PER_UNIT as int) + fraction_micros(
        fraction_digits(s),
    );
    if decimal_is_negative(s) {
        -mag
    } else {
        mag
    }
}

proof fn lemma_digits_value_nonneg(s: Seq<u8>)
    requires
        all_ascii_digits(s),
    ensures
        digits_value(s) >= 0,
    decreases s.len(),
{
    if s.len() > 0 {
        assert(all_ascii_digits(s.drop_last()));
        lemma_digits_value_nonneg(s.drop_last());
    }
}

proof fn lemma_digits_value_bound(s: Seq<u8>)
    requires
        all_ascii_digits(s),
    ensures
        0 <= digits_value(s) < pow10(s.len()),
    decreases s.len(),
{
    if s.len() == 0 {
    } else {
        assert(all_ascii_digits(s.drop_last()));
        lemma_digits_value_bound(s.drop_last());
    }
}

proof fn lemma_pow10_pos(n: nat)
    ensures
        pow10(n) >= 1,
    decreases n,
{
    if n > 0 {
        lemma_pow10_pos((n - 1) as nat);
    }
}

proof fn lemma_pow10_adds(a: nat, b: nat)
    ensures
        pow10(a) * pow10(b) == pow10(a + b),
    decreases a,
{
    if a > 0 {
        lemma_pow10_adds((a - 1) as nat, b);
        assert((10 * pow10((a - 1) as nat)) * pow10(b) == 10 * (pow10((a - 1) as nat) * pow10(
            b,
        ))) by (nonlinear_arith);
    }
}

proof fn lemma_dot_position_le_len(s: Seq<u8>)
    ensures
        0 <= dot_position(s) <= s.len(),
    decreases s.len(),
{
    if s.len() > 0 && s[0] != BYTE_DOT {
        lemma_dot_position_le_len(s.drop_first());
    }
}

proof fn lemma_dot_position_ge(s: Seq<u8>, k: int)
    requires
        0 <= k <= s.len(),
        forall|j: int| 0 <= j < k ==> s[j] != BYTE_DOT,
    ensures
        dot_position(s) >= k,
    decreases k,
{
    lemma_dot_position_le_len(s);
    if k > 0 {
        assert(forall|j: int| 0 <= j < k - 1 ==> s.drop_first()[j] == s[j + 1]);
        lemma_dot_position_ge(s.drop_first(), k - 1);
        assert(s[0] != BYTE_DOT);
        assert(dot_position(s) == 1 + dot_position(s.drop_first()));
    }
}

proof fn lemma_dot_position_hit(s: Seq<u8>)
    ensures
        dot_position(s) == s.len() || (0 <= dot_position(s) < s.len() && s[dot_position(s)]
            == BYTE_DOT),
    decreases s.len(),
{
    lemma_dot_position_le_len(s);
    if s.len() > 0 && s[0] != BYTE_DOT {
        lemma_dot_position_hit(s.drop_first());
    }
}

proof fn lemma_dot_position_eq(s: Seq<u8>, k: int)
    requires
        0 <= k < s.len(),
        forall|j: int| 0 <= j < k ==> s[j] != BYTE_DOT,
        s[k] == BYTE_DOT,
    ensures
        dot_position(s) == k,
    decreases k,
{
    if k > 0 {
        assert(forall|j: int| 0 <= j < k - 1 ==> s.drop_first()[j] == s[j + 1]);
        lemma_dot_position_eq(s.drop_first(), k - 1);
    }
}

/// Parses an ASCII decimal literal into an exact fixed-point value.
///
/// Returns `Some` exactly when `bytes` is a decimal literal whose value in
/// millionths of a unit fits a [`Value`]; fraction digits beyond the sixth
/// are truncated toward zero.
#[verifier::rlimit(100)]
pub fn parse_decimal(bytes: &[u8]) -> (r: Option<Value>)
    ensures
        r is Some <==> is_decimal(bytes@) && fits_value(decimal_micros(bytes@)),
        r matches Some(v) ==> v@ == decimal_micros(bytes@),
{
    let n = bytes.len();
    let mut i: usize = 0;
    let mut negative = false;
    if n > 0 && (bytes[0] == BYTE_PLUS || bytes[0] == BYTE_MINUS) {
        negative = bytes[0] == BYTE_MINUS;
        i = 1;
    }
    let body_start = i;
    let ghost body = decimal_body(bytes@);
    proof {
        assert(body =~= bytes@.skip(body_start as int));
        assert(negative == decimal_is_negative(bytes@));
    }
    // Integer digits: accumulate exactly, and once the value can no longer
    // fit, only remember that it is too large.
    let mut acc: u128 = 0;
    let mut too_large = false;
    while i < n && BYTE_ZERO <= bytes[i] && bytes[i] <= BYTE_NINE
        invariant
            body_start <= i <= n,
            body_start <= 1,
            n == bytes@.len(),
            body == bytes@.skip(body_start as int),
            all_ascii_digits(bytes@.subrange(body_start as int, i as int)),
            !too_large ==> acc == digits_value(bytes@.subrange(body_start as int, i as int))
                && acc <= i64::MAX as u128,
            too_large ==> digits_value(bytes@.subrange(body_start as int, i as int)) > i64::MAX
                as int,
        decreases n - i,
    {
        let d = bytes[i];
        proof {
            let pre = bytes@.subrange(body_start as int, i as int);
            let post = bytes@.subrange(body_start as int, i as int + 1);
            assert(post.drop_last() =~= pre);
            assert(post.last() == d);
            lemma_digits_value_nonneg(pre);
        }
        if !too_large {
            let next = acc * 10 + (d - BYTE_ZERO) as u128;
            if next > i64::MAX as u128 {
                too_large = true;
                acc = 0;
            } else {
                acc = next;
            }
        }
        i += 1;
    }
    let int_end = i;
    let ghost int_digits_seen = bytes@.subrange(body_start as int, int_end as int);
    proof {
        lemma_dot_position_le_len(body);
        lemma_dot_position_ge(body, int_end - body_start);
    }
    // Fraction digits: at most the first six contribute.
    let mut facc: u64 = 0;
    let mut frac_len: usize = 0;
    if int_end < n {
        if bytes[int_end] != BYTE_DOT {
            proof {
                // A character that is neither digit nor point makes the
                // integer digits of the literal non-numeric.
                lemma_dot_position_hit(body);
                let k = int_end - body_start;
                let d = dot_position(body);
                assert(body[k] == bytes@[int_end as int]);
                assert(d > k);
                assert(integer_digits(bytes@)[k] == body[k]);
                assert(!is_ascii_digit(integer_digits(bytes@)[k]));
            }
            return None;
        }
        proof {
            lemma_dot_position_eq(body, int_end - body_start);
        }
        i = int_end + 1;
        let frac_start = i;
        while i < n && BYTE_ZERO <= bytes[i] && bytes[i] <= BYTE_NINE
            invariant
                frac_start <= i <= n,
                n == bytes@.len(),
                all_ascii_digits(bytes@.subrange(frac_start as int, i as int)),
                i - frac_start <= 6 ==> facc == digits_value(
                    bytes@.subrange(frac_start as int, i as int),
                ) && facc < pow10((i - frac_start) as nat),
                i - frac_start > 6 ==> facc == digits_value(
                    bytes@.subrange(frac_start as int, frac_start as int + 6),
                ),
                facc < 1_000_000,
            decreases n - i,
        {
            let d = bytes[i];
            proof {
                let pre = bytes@.subrange(frac_start as int, i as int);
                let post = bytes@.subrange(frac_start as int, i as int + 1);
                assert(post.drop_last() =~= pre);
                assert(post.last() == d);
                reveal_with_fuel(pow10, 8);
            }
            if i - frac_start < 6 {
                facc = facc * 10 + (d - BYTE_ZERO) as u64;
            } else {
                proof {
                    let six = bytes@.subrange(frac_start as int, frac_start as int + 6);
                    let post = bytes@.subrange(frac_start as int, i as int + 1);
                    assert(six =~= post.subrange(0, 6));
                }
            }
            i += 1;
        }
        proof {
            assert(fraction_digits(bytes@) =~= bytes@.subrange(frac_start as int, n as int));
        }
        if i < n {
            proof {
                // The fraction digits run to the end of the literal, so a
                // trailing non-digit makes them non-numeric.
                assert(!is_ascii_digit(fraction_digits(bytes@)[i - frac_start]));
            }
            return None;
        }
        frac_len = n - frac_start;
    } else {
        proof {
            assert(dot_position(body) == body.len());
            assert(fraction_digits(bytes@) =~= Seq::<u8>::empty());
        }
    }
    let int_len = int_end - body_start;
    proof {
        assert(integer_digits(bytes@) =~= int_digits_seen);
    }
    if int_len == 0 && frac_len == 0 {
        return None;
    }
    proof {
        assert(is_decimal(bytes@));
        reveal_with_fuel(pow10, 8);
    }
    // Scale the fraction digits up to exactly six places.
    let scaled_frac: u64 = if frac_len >= 6 {
        proof {
            let six = fraction_digits(bytes@).take(6);
            assert(six =~= bytes@.subrange(
                (int_end + 1) as int,
                (int_end + 1) as int + 6,
            ));
        }
        facc
    } else {
        let mut scale: u64 = 1;
        let mut k: usize = 0;
        while k < 6 - frac_len
            invariant
                0 <= k <= 6 - frac_len,
                frac_len < 6,
                scale == pow10(k as nat),
                scale <= 1_000_000,
            decreases 6 - frac_len - k,
        {
            proof {
                reveal_with_fuel(pow10, 8);
            }
            scale = scale * 10;
            k += 1;
        }
        proof {
            lemma_pow10_adds(frac_len as nat, (6 - frac_len) as nat);
            lemma_digits_value_nonneg(fraction_digits(bytes@));
            lemma_digits_value_bound(fraction_digits(bytes@));
            assert(facc * scale < 1_000_000) by (nonlinear_arith)
                requires
                    facc < pow10(frac_len as nat),
                    0 <= facc,
                    scale == pow10((6 - frac_len) as nat),
                    scale >= 1,
                    pow10(frac_len as nat) * pow10((6 - frac_len) as nat) == 1_000_000,
            ;
            assert(facc * scale == fraction_micros(fraction_digits(bytes@)));
        }
        facc * scale
    };
    proof {
        lemma_digits_value_nonneg(integer_digits(bytes@));
        assert(0 <= fraction_micros(fraction_digits(bytes@)) < 1_000_000) by {
            if fraction_digits(bytes@).len() >= 6 {
                lemma_digits_value_bound(fraction_digits(bytes@).take(6));
                reveal_with_fuel(pow10, 8);
                assert(all_ascii_digits(fraction_digits(bytes@).take(6)));
            } else {
                lemma_digits_value_bound(fraction_digits(bytes@));
                lemma_pow10_adds(
                    fraction_digits(bytes@).len() as nat,
                    (6 - fraction_digits(bytes@).len()) as nat,
                );
                lemma_pow10_pos((6 - fraction_digits(bytes@).len()) as nat);
                reveal_with_fuel(pow10, 8);
                assert(digits_value(fraction_digits(bytes@)) * pow10(
                    (6 - fraction_digits(bytes@).len()) as nat,
                ) < 1_000_000) by (nonlinear_arith)
                    requires
                        0 <= digits_value(fraction_digits(bytes@)) < pow10(
                            fraction_digits(bytes@).len() as nat,
                        ),
                        pow10((6 - fraction_digits(bytes@).len()) as nat) >= 1,
                        pow10(fraction_digits(bytes@).len() as nat) * pow10(
                            (6 - fraction_digits(bytes@).len()) as nat,
                        ) == 1_000_000,
                ;
            }
        }
    }
    if too_large {
        proof {
            let iv = digits_value(integer_digits(bytes@));
            assert(iv * 1_000_000 >= iv) by (nonlinear_arith)
                requires
                    iv >= 0,
            ;
            assert(!fits_value(decimal_micros(bytes@)));
        }
        return None;
    }
    proof {
        assert(acc * (MICROS_PER_UNIT as u128) <= (i64::MAX as u128) * 1_000_000)
            by (nonlinear_arith)
            requires
                acc <= i64::MAX as u128,
        ;
    }
    let mag: u128 = acc * (MICROS_PER_UNIT as u128) + scaled_frac as u128;
    if mag > i64::MAX as u128 {
        proof {
            assert(!fits_value(decimal_micros(bytes@)));
        }
        return None;
    }
    let m = mag as i64;
    let micros: i64 = if negative {
        -m
    } else {
        m
    };
    proof {
        assert(micros as int == decimal_micros(bytes@));
    }
    Some(Value::from_micros(micros))
}

} // verus!
