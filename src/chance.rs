use vstd::prelude::*;

verus! {

/// Relies on fastrand::usize: a value drawn uniformly from `0..n`; the call
/// panics on an empty range, which `requires` leaves out.
#[verifier::external_body]
pub(crate) fn random_below(n: usize) -> (r: usize)
    requires
        n > 0,
    ensures
        r < n,
{
    fastrand::usize(..n)
}

/// Relies on fastrand::i32: a value drawn uniformly from `lo..=hi`; the call
/// panics on an empty range, which `requires` leaves out.
#[verifier::external_body]
pub(crate) fn random_between(lo: i32, hi: i32) -> (r: i32)
    requires
        lo <= hi,
    ensures
        lo <= r <= hi,
{
    fastrand::i32(lo..=hi)
}

} // verus!
