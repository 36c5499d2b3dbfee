use vstd::prelude::*;

use crate::errors::CallError;

verus! {

/// The largest representable gas amount; a saturated cost can never be
/// afforded by any real gas limit below it.
pub const GAS_SATURATED: u64 = 0xffff_ffff_ffff_ffff;

/// A versioned pricing table mapping operation categories to fixed or
/// size-scaled costs. It is externally supplied configuration: the engine
/// never derives prices at runtime, since differing schedules would cause
/// consensus divergence.
#[derive(Clone, Copy, Debug, PartialEq, Eq, Structural)]
pub struct PriceList {
    /// Flat cost of opening any inter-actor send.
    pub send_base: u64,
    /// Additional flat cost when a send transfers a nonzero value.
    pub send_transfer_funds: u64,
    /// Flat cost of implicitly creating a receiver that does not exist yet.
    pub create_actor: u64,
    /// Flat cost of invoking a method on the receiver's code.
    pub method_invocation: u64,
    /// Size-scaled cost per byte of parameters handed to an invocation.
    pub invocation_per_param_byte: u64,
    /// Flat cost of writing the current actor's private state root.
    pub state_write: u64,
}

/// `base + per * len`, saturated at the largest representable gas amount.
pub open spec fn scaled_cost(base: u64, per: u64, len: u64) -> u64 {
    if base + per * len > GAS_SATURATED {
        GAS_SATURATED
    } else {
        (base + per * len) as u64
    }
}

impl PriceList {
    /// Cost of invoking a method with `param_len` bytes of parameters.
    pub open spec fn spec_invocation_cost(self, param_len: u64) -> u64 {
        scaled_cost(self.method_invocation, self.invocation_per_param_byte, param_len)
    }

    /// Computes the size-scaled invocation cost without overflow.
    pub fn invocation_cost(&self, param_len: u64) -> (r: u64)
        ensures
            r == self.spec_invocation_cost(param_len),
    {
        let base = self.method_invocation;
        let per = self.invocation_per_param_byte;
        proof {
            vstd::arithmetic::mul::lemma_mul_upper_bound(
                per as int,
                GAS_SATURATED as int,
                param_len as int,
                GAS_SATURATED as int,
            );
        }
        let total: u128 = base as u128 + (per as u128) * (param_len as u128);
        if total > GAS_SATURATED as u128 {
            GAS_SATURATED
        } else {
            total as u64
        }
    }
}

/// The per-message gas meter: cumulative use never exceeds the limit, and a
/// charge is applied before the priced operation proceeds.
#[derive(Clone, Copy, Debug, PartialEq, Eq, Structural)]
pub struct GasTracker {
    /// The message's gas limit; fixed for the tracker's lifetime.
    pub gas_limit: u64,
    /// Gas consumed so far.
    pub gas_used: u64,
}

impl GasTracker {
    /// Cumulative use stays within the limit.
    pub open spec fn wf(self) -> bool {
        self.gas_used <= self.gas_limit
    }

    /// A fresh tracker for one top-level message.
    pub fn new(gas_limit: u64) -> (r: GasTracker)
        ensures
            r.gas_limit == gas_limit,
            r.gas_used == 0,
            r.wf(),
    {
        GasTracker { gas_limit, gas_used: 0 }
    }

    /// Gas still available to this message.
    pub fn remaining(&self) -> (r: u64)
        requires
            self.wf(),
        ensures
            r == self.gas_limit - self.gas_used,
    {
        self.gas_limit - self.gas_used
    }

    /// Deducts `amount` before the priced operation executes. When the
    /// charge cannot be afforded the tracker is exhausted to the limit and
    /// the operation must not proceed, so an unaffordable operation never
    /// produces partial effects.
    pub fn charge(&mut self, amount: u64) -> (r: Result<(), CallError>)
        requires
            old(self).wf(),
        ensures
            final(self).wf(),
            final(self).gas_limit == old(self).gas_limit,
            final(self).gas_used >= old(self).gas_used,
            r is Ok <==> old(self).gas_used + amount <= old(self).gas_limit,
            r is Ok ==> final(self).gas_used == old(self).gas_used + amount,
            r is Err ==> r == Err::<(), CallError>(CallError::OutOfGas)
                && final(self).gas_used == final(self).gas_limit,
    {
        if amount <= self.gas_limit - self.gas_used {
            self.gas_used = self.gas_used + amount;
            Ok(())
        } else {
            self.gas_used = self.gas_limit;
            Err(CallError::OutOfGas)
        }
    }
}

} // verus!
