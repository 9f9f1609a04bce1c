//! Numbers with invariants.

use vstd::prelude::*;
use crate::text::{is_power_of_two, power_of_two};

verus! {

/// A power of two that is greater than one.
#[derive(Copy, Clone, Debug, PartialEq, Eq, Structural, Hash)]
pub struct NonZeroPow2Usize(usize);

impl NonZeroPow2Usize {
    /// `n` is a power of two greater than one.
    pub open spec fn is_valid(n: nat) -> bool {
        1 < n && is_power_of_two(n)
    }

    #[verifier::type_invariant]
    spec fn inv(self) -> bool {
        Self::is_valid(self.0 as nat)
    }

    /// The number.
    pub closed spec fn value(self) -> usize {
        self.0
    }

    /// The number `n`, if it is a power of two greater than one.
    pub fn new(n: usize) -> (res: Option<Self>)
        ensures
            res is Some <==> Self::is_valid(n as nat),
            res matches Some(v) ==> v.value() == n,
    {
        if 1 < n && power_of_two(n) {
            Some(NonZeroPow2Usize(n))
        } else {
            None
        }
    }

    /// The number.
    pub fn get(&self) -> (res: usize)
        ensures
            res == self.value(),
            Self::is_valid(res as nat),
    {
        proof {
            use_type_invariant(self);
        }
        self.0
    }
}

} // verus!
