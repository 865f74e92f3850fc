//! Numbers that are drawn in turn.
use vstd::prelude::*;

verus! {

/// The number after `n`. The largest is followed by zero.
pub open spec fn after(n: u64) -> u64 {
    if n < u64::MAX {
        (n + 1) as u64
    } else {
        0
    }
}

/// Draws the number after `n`.
pub fn following(n: u64) -> (r: u64)
    ensures
        r == after(n),
{
    if n < u64::MAX {
        n + 1
    } else {
        0
    }
}

/// The number that is drawn `n` draws after `first`.
pub open spec fn drawn(first: u64, n: nat) -> u64
    decreases n,
{
    if n == 0 {
        first
    } else {
        after(drawn(first, (n - 1) as nat))
    }
}

/// What a drawn number is.
pub proof fn drawn_is(first: u64, n: nat)
    ensures
        drawn(first, n) == (first + n) % 0x1_0000_0000_0000_0000,
    decreases n,
{
    if n > 0 {
        drawn_is(first, (n - 1) as nat);
    }
}

/// Numbers that are drawn fewer than 2^64 draws apart differ.
pub proof fn drawn_numbers_differ(first: u64, i: nat, j: nat)
    requires
        i < j < i + 0x1_0000_0000_0000_0000,
    ensures
        drawn(first, i) != drawn(first, j),
{
    drawn_is(first, i);
    drawn_is(first, j);
}

} // verus!
