use vstd::prelude::*;

verus! {

/// Relies on chrono's `Utc::now` (with `DateTime::timestamp_millis`): the
/// current UTC time as milliseconds since the Unix epoch. The value depends
/// on the clock, so nothing is promised of it.
#[verifier::external_body]
pub(crate) fn now_utc_millis() -> i64 {
    chrono::Utc::now().timestamp_millis()
}

/// Relies on uuid's `Uuid::new_v4` (with `Uuid::as_u128`): a freshly drawn
/// random identifier, carried as its 128-bit value. The value is random, so
/// nothing is promised of it.
#[verifier::external_body]
pub(crate) fn fresh_machine_id() -> u128 {
    uuid::Uuid::new_v4().as_u128()
}

/// Relies on num_cpus' `get`: the number of logical processors, which its
/// documentation promises is always at least one. Machine-dependent beyond
/// that.
#[verifier::external_body]
pub(crate) fn logical_core_count() -> (n: usize)
    ensures
        n >= 1,
{
    num_cpus::get()
}

} // verus!
