//! The protocol fee: a per-million rate applied to an issued amount,
//! always rounded up.
use sp_arithmetic::{PerThing, Permill};
use vstd::prelude::*;

use crate::Balance;

verus! {

/// Parts per million that make a whole.
pub const ONE_MILLION: u32 = 1_000_000;

/// `a * b / d`, rounded up.
pub open spec fn mul_div_ceil(a: int, b: int, d: int) -> int {
    (a * b + d - 1) / d
}

/// A fee rate in parts per million, never above the whole.
#[derive(Clone, Copy, Debug, PartialEq, Eq)]
pub struct FeeRate {
    parts: u32,
}

impl FeeRate {
    #[verifier::type_invariant]
    pub open spec fn within_whole(self) -> bool {
        self.wf()
    }

    pub closed spec fn spec_parts(self) -> nat {
        self.parts as nat
    }

    pub open spec fn wf(self) -> bool {
        self.spec_parts() <= ONE_MILLION
    }

    /// A rate of `parts` per million; anything above a million saturates
    /// at the whole.
    pub fn from_parts(parts: u32) -> (r: FeeRate)
        ensures
            r.wf(),
            r.spec_parts() == if parts <= ONE_MILLION { parts as nat } else { ONE_MILLION as nat },
    {
        if parts <= ONE_MILLION {
            FeeRate { parts }
        } else {
            FeeRate { parts: ONE_MILLION }
        }
    }

    /// A rate of `percent` per hundred, saturating at the whole.
    pub fn from_percent(percent: u32) -> (r: FeeRate)
        ensures
            r.wf(),
            r.spec_parts() == if percent <= 100 { percent as nat * 10_000 } else { ONE_MILLION as nat },
    {
        if percent <= 100 {
            FeeRate { parts: percent * 10_000 }
        } else {
            FeeRate { parts: ONE_MILLION }
        }
    }

    pub fn parts(&self) -> (r: u32)
        ensures
            r == self.spec_parts(),
            self.wf(),
    {
        proof {
            use_type_invariant(self);
        }
        self.parts
    }
}

/// The fee that `rate` takes from `amount`: the exact product, rounded up.
pub open spec fn fee_of(rate: FeeRate, amount: Balance) -> int {
    mul_div_ceil(amount as int, rate.spec_parts() as int, ONE_MILLION as int)
}

/// Relies on `sp_arithmetic::Permill::from_parts` and `PerThing::mul_ceil`:
/// `parts` per million of `amount`, rounded up, computed without overflow.
#[verifier::external_body]
fn permill_mul_ceil(parts: u32, amount: u128) -> (r: u128)
    requires
        parts <= ONE_MILLION,
    ensures
        r == mul_div_ceil(amount as int, parts as int, ONE_MILLION as int),
{
    Permill::from_parts(parts).mul_ceil(amount)
}

proof fn lemma_fee_within_amount(amount: int, parts: int)
    requires
        0 <= amount,
        0 <= parts <= ONE_MILLION,
    ensures
        0 <= mul_div_ceil(amount, parts, ONE_MILLION as int) <= amount,
{
    assert(0 <= amount * parts <= amount * 1_000_000) by (nonlinear_arith)
        requires
            0 <= amount,
            0 <= parts <= 1_000_000,
    ;
}

/// Splits `amount` into the fee that `rate` takes (rounded up) and the net
/// amount that remains.
pub fn split_fee(rate: FeeRate, amount: Balance) -> (r: (Balance, Balance))
    ensures
        rate.wf(),
        r.0 == fee_of(rate, amount),
        r.0 + r.1 == amount,
{
    proof {
        use_type_invariant(&rate);
        lemma_fee_within_amount(amount as int, rate.spec_parts() as int);
    }
    let fee = permill_mul_ceil(rate.parts(), amount);
    (fee, amount - fee)
}

} // verus!
