//! How long to spin for a lock.
use vstd::arithmetic::power2::pow2;
use vstd::prelude::*;
#[allow(unused_imports)]
use crate::time::min;

verus! {

/// The longest that is spun between two attempts is two to this power.
pub const MAX_SPIN: u32 = 6;

/// Counts the attempts to take a lock, to spin twice as long after each.
pub struct Backoff {
    spin: u32,
}

impl View for Backoff {
    type V = nat;

    closed spec fn view(&self) -> nat {
        self.spin as nat
    }
}

impl Backoff {
    #[verifier::type_invariant]
    spec fn bounded(&self) -> bool {
        self.spin <= MAX_SPIN
    }

    /// Before the first attempt.
    pub fn new() -> (r: Self)
        ensures
            r@ == 0,
    {
        Backoff { spin: 0 }
    }

    /// How many times to spin after an attempt that failed.
    pub fn rounds(&mut self) -> (r: u32)
        ensures
            r == pow2(old(self)@),
            final(self)@ == min(old(self)@ as int + 1, MAX_SPIN as int),
    {
        proof {
            use_type_invariant(&*self);
            vstd::arithmetic::power2::lemma2_to64();
        }
        let spin = self.spin;
        let rounds = 1u32 << spin;
        assert(rounds == pow2(spin as nat)) by {
            vstd::bits::lemma_u32_shl_is_mul(1, spin);
        }
        self.spin = if spin < MAX_SPIN {
            spin + 1
        } else {
            MAX_SPIN
        };
        rounds
    }
}

} // verus!
