//! Thread-count hint: a positive default worker count derived from the
//! host's logical and physical core counts.

use vstd::prelude::*;

verus! {

/// Relies on num_cpus::get: the number of logical cores the host reports.
/// Nothing is assumed of the value; the hint clamps it itself.
#[verifier::external_body]
fn logical_cpus() -> (n: usize) {
    num_cpus::get()
}

/// Relies on num_cpus::get_physical: the number of physical cores the host
/// reports. Nothing is assumed of the value; the hint clamps it itself.
#[verifier::external_body]
fn physical_cpus() -> (n: usize) {
    num_cpus::get_physical()
}

/// The worker count derived from a logical and a physical core count:
/// the larger of the two, and never less than 1.
pub open spec fn hint_spec(logical: nat, physical: nat) -> nat {
    if logical >= physical {
        if logical == 0 {
            1
        } else {
            logical
        }
    } else {
        physical
    }
}

/// Combines the two core counts into the worker-count hint.
pub fn hint_from(logical: usize, physical: usize) -> (n: usize)
    ensures
        n == hint_spec(logical as nat, physical as nat),
        n >= 1,
{
    let mut n: usize = logical;
    if n < physical {
        n = physical;
    }
    if n == 0 {
        n = 1;
    }
    n
}

/// The process-wide default worker count: the larger of the logical and
/// physical core counts, and at least 1 whatever the host reports.
pub fn cpus() -> (n: usize)
    ensures
        n >= 1,
{
    let logical = logical_cpus();
    let physical = physical_cpus();
    hint_from(logical, physical)
}

} // verus!
