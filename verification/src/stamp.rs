//! Fresh identifiers and capture timestamps for assembled measurements.

use vstd::prelude::*;

verus! {

/// Relies on uuid::Uuid::now_v7 and its Display form: the hyphenated text
/// of a UUID is 36 characters. The identifier itself depends on the clock
/// and on randomness, so nothing else is promised of it.
#[verifier::external_body]
pub(crate) fn new_time_ordered_id() -> (r: String)
    ensures
        r@.len() == 36,
{
    uuid::Uuid::now_v7().to_string()
}

/// Relies on uuid::Uuid::new_v4 and its Display form: the hyphenated text
/// of a UUID is 36 characters. The identifier itself is random, so nothing
/// else is promised of it.
#[verifier::external_body]
pub(crate) fn new_random_id() -> (r: String)
    ensures
        r@.len() == 36,
{
    uuid::Uuid::new_v4().to_string()
}

/// Relies on chrono::Utc::now: the current UTC instant as microseconds
/// since the Unix epoch. The reading depends on the system clock, so
/// nothing is promised of it.
#[verifier::external_body]
pub(crate) fn current_unix_micros() -> i64 {
    chrono::Utc::now().timestamp_micros()
}

} // verus!
