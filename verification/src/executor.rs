//! The message executor: validates an inbound message against the sender's
//! record, prepays the maximum gas cost, opens the root call through the
//! kernel, settles fees, and produces the receipt.
//!
//! A validation failure rejects the message at zero cost and zero state
//! effect. An applied message always transitions the tree: the sender's
//! sequence advances, the base-fee portion of the gas bill is credited to
//! the burnt-funds actor, the premium portion to the block producer, and the
//! unused remainder refunded, whatever the root call's outcome.

use vstd::prelude::*;

use crate::codec::{ApplyResult, Message, SpecMessage};
use crate::errors::{
    CallError, ValidationError, EXIT_OK, EXIT_SYS_FATAL, EXIT_SYS_LIMIT_EXCEEDED,
    EXIT_SYS_OUT_OF_GAS, EXIT_SYS_UNKNOWN_CODE,
};
use crate::gas::GasTracker;
use crate::kernel::{bare_send_cost, send, ExecConfig};
use crate::registry::{Registry, ACCOUNT_ACTOR_CODE_ID};
use crate::state_tree::{lookup, root_of, ActorState, SpecActorEntry, SpecActorState, StateTree};

verus! {

/// Address of the account that accumulates burnt fees; crediting it takes
/// value out of circulation.
pub const BURNT_FUNDS_ADDR: u64 = 99;

/// Chain-supplied, reproducible context for one message application; the
/// engine consults no other source of nondeterminism.
#[derive(Clone, Copy, Debug, PartialEq, Eq, Structural)]
pub struct ChainContext {
    /// The epoch the message executes in.
    pub epoch: u64,
    /// The network base fee per gas unit; this portion of the bill is burnt.
    pub base_fee: u64,
    /// The block producer credited with the gas premium.
    pub miner: u64,
}

/// The maximum the sender must be able to pay for gas up front.
pub open spec fn spec_prepay(m: SpecMessage) -> int {
    m.gas_fee_cap * m.gas_limit
}

/// The burnt portion of the gas bill.
pub open spec fn spec_burn(ctx: ChainContext, used: u64) -> int {
    ctx.base_fee * used
}

/// The block producer's portion of the gas bill.
pub open spec fn spec_tip(m: SpecMessage, used: u64) -> int {
    m.gas_premium * used
}

/// The rejection a message receives before execution, if any.
pub open spec fn spec_validate(
    s: Seq<SpecActorEntry>,
    ctx: ChainContext,
    m: SpecMessage,
) -> Option<ValidationError> {
    if lookup(s, m.from) is None {
        Some(ValidationError::SenderNotFound)
    } else {
        let snd = lookup(s, m.from)->0;
        if m.sequence != snd.sequence || snd.sequence == 0xffff_ffff_ffff_ffffu64 {
            Some(ValidationError::InvalidNonce)
        } else if ctx.base_fee + m.gas_premium > m.gas_fee_cap {
            Some(ValidationError::FeeCapTooLow)
        } else if (snd.balance as int) < spec_prepay(m) {
            Some(ValidationError::InsufficientFunds)
        } else {
            None
        }
    }
}

/// A balance after a credit, saturated at the largest representable value.
pub open spec fn credited(balance: u128, amount: u128) -> u128 {
    if balance + amount > u128::MAX {
        u128::MAX
    } else {
        (balance + amount) as u128
    }
}

/// The record an address holds after a settlement credit: an existing actor
/// keeps its fields with the amount added to its balance; an absent one
/// becomes a fresh account holding the amount.
pub open spec fn spec_settled(prev: Option<SpecActorState>, amount: u128) -> SpecActorState {
    match prev {
        None => SpecActorState {
            code: ACCOUNT_ACTOR_CODE_ID,
            head: Seq::empty(),
            balance: amount,
            sequence: 0,
        },
        Some(a) => SpecActorState { balance: credited(a.balance, amount), ..a },
    }
}

/// Credits a settlement amount, creating a fresh account when the address
/// is unbound.
fn settle_credit(tree: &mut StateTree, addr: u64, amount: u128)
    requires
        old(tree).wf(),
    ensures
        final(tree).wf(),
        forall|b: u64|
            lookup(final(tree)@, b) == if b == addr {
                Some(spec_settled(lookup(old(tree)@, addr), amount))
            } else {
                lookup(old(tree)@, b)
            },
{
    let exists = match tree.get_actor(addr) {
        Some(a) => Some(a.balance),
        None => None,
    };
    match exists {
        Some(bal) => {
            if amount <= u128::MAX - bal {
                match tree.credit(addr, amount) {
                    Ok(()) => {},
                    Err(()) => { proof { assert(false); } },
                }
            } else {
                match tree.credit(addr, u128::MAX - bal) {
                    Ok(()) => {},
                    Err(()) => { proof { assert(false); } },
                }
            }
        },
        None => {
            tree.set_actor(
                addr,
                ActorState { code: ACCOUNT_ACTOR_CODE_ID, head: Vec::new(), balance: amount, sequence: 0 },
            );
        },
    }
}

/// Products of 64-bit quantities stay representable in 128 bits.
proof fn lemma_u64_mul_fits(x: u64, y: u64)
    ensures
        x * y <= u128::MAX,
{
    vstd::arithmetic::mul::lemma_mul_upper_bound(
        x as int,
        0xffff_ffff_ffff_ffffu64 as int,
        y as int,
        0xffff_ffff_ffff_ffffu64 as int,
    );
}

/// The gas bill never exceeds the prepaid amount.
proof fn lemma_settlement_bound(base_fee: u64, premium: u64, fee_cap: u64, used: u64, limit: u64)
    requires
        base_fee + premium <= fee_cap,
        used <= limit,
    ensures
        base_fee * used + premium * used <= fee_cap * limit,
{
    assert(base_fee * used + premium * used <= fee_cap * limit) by (nonlinear_arith)
        requires
            base_fee + premium <= fee_cap,
            used <= limit,
    ;
}

/// Applies one message to the tree and produces its receipt.
///
/// The transition is a pure function of the tree, the message and the chain
/// context. A rejected message leaves the tree untouched; an applied one
/// advances the sender's sequence and settles fees even when the root call
/// fails, while the failed call's own mutations are discarded.
#[verifier::rlimit(100)]
pub fn apply(
    tree: &mut StateTree,
    reg: &Registry,
    cfg: ExecConfig,
    ctx: ChainContext,
    msg: &Message,
) -> (r: Result<ApplyResult, ValidationError>)
    requires
        old(tree).wf(),
        reg.wf(),
        cfg.wf(),
    ensures
        final(tree).wf(),
        r is Err <==> spec_validate(old(tree)@, ctx, msg@) is Some,
        r matches Err(e) ==> Some(e) == spec_validate(old(tree)@, ctx, msg@)
            && final(tree)@ == old(tree)@,
        r matches Ok(res) ==> res.gas_used <= msg.gas_limit,
        r matches Ok(res) ==> res.state_root@ == root_of(final(tree)@),
        r matches Ok(res) ==> (lookup(final(tree)@, msg.from) matches Some(snd2)
            && snd2.sequence == lookup(old(tree)@, msg.from)->0.sequence + 1),
        r matches Ok(res) ==> ((res.exit_code != EXIT_OK && msg.from != ctx.miner
            && msg.from != BURNT_FUNDS_ADDR && ctx.miner != BURNT_FUNDS_ADDR)
            ==> (lookup(final(tree)@, BURNT_FUNDS_ADDR)
                    == Some(spec_settled(
                        lookup(old(tree)@, BURNT_FUNDS_ADDR),
                        spec_burn(ctx, res.gas_used) as u128,
                    ))
                && lookup(final(tree)@, ctx.miner)
                    == Some(spec_settled(
                        lookup(old(tree)@, ctx.miner),
                        spec_tip(msg@, res.gas_used) as u128,
                    ))
                && lookup(final(tree)@, msg.from)
                    == Some(SpecActorState {
                        sequence: (lookup(old(tree)@, msg.from)->0.sequence + 1) as u64,
                        balance: (lookup(old(tree)@, msg.from)->0.balance
                            - spec_burn(ctx, res.gas_used) - spec_tip(msg@, res.gas_used)) as u128,
                        ..lookup(old(tree)@, msg.from)->0
                    })
                && (forall|b: u64|
                    b != msg.from && b != ctx.miner && b != BURNT_FUNDS_ADDR
                        ==> lookup(final(tree)@, b) == lookup(old(tree)@, b)))),
        (spec_validate(old(tree)@, ctx, msg@) is None && msg.method == 0
            && msg.from != msg.to && lookup(old(tree)@, msg.to) is Some
            && msg.value + spec_prepay(msg@) <= lookup(old(tree)@, msg.from)->0.balance
            && lookup(old(tree)@, msg.to)->0.balance + msg.value <= u128::MAX
            && bare_send_cost(cfg.price, msg.value) <= msg.gas_limit
            && 1 <= cfg.max_depth
            && msg.from != ctx.miner && msg.from != BURNT_FUNDS_ADDR
            && msg.to != ctx.miner && msg.to != BURNT_FUNDS_ADDR
            && ctx.miner != BURNT_FUNDS_ADDR)
            ==> (r matches Ok(res) && res.exit_code == EXIT_OK
                && res.gas_used == bare_send_cost(cfg.price, msg.value)
                && lookup(final(tree)@, msg.to)
                    == Some(SpecActorState {
                        balance: (lookup(old(tree)@, msg.to)->0.balance + msg.value) as u128,
                        ..lookup(old(tree)@, msg.to)->0
                    })
                && lookup(final(tree)@, msg.from)
                    == Some(SpecActorState {
                        sequence: (lookup(old(tree)@, msg.from)->0.sequence + 1) as u64,
                        balance: (lookup(old(tree)@, msg.from)->0.balance - msg.value
                            - spec_burn(ctx, res.gas_used) - spec_tip(msg@, res.gas_used)) as u128,
                        ..lookup(old(tree)@, msg.from)->0
                    })),
{
    let (sender_balance, sender_seq): (u128, u64) = match tree.get_actor(msg.from) {
        Some(a) => (a.balance, a.sequence),
        None => { return Err(ValidationError::SenderNotFound); },
    };
    if msg.sequence != sender_seq || sender_seq == u64::MAX {
        return Err(ValidationError::InvalidNonce);
    }
    if (ctx.base_fee as u128) + (msg.gas_premium as u128) > (msg.gas_fee_cap as u128) {
        return Err(ValidationError::FeeCapTooLow);
    }
    proof {
        lemma_u64_mul_fits(msg.gas_fee_cap, msg.gas_limit);
    }
    let prepay: u128 = (msg.gas_fee_cap as u128) * (msg.gas_limit as u128);
    if sender_balance < prepay {
        return Err(ValidationError::InsufficientFunds);
    }
    match tree.debit(msg.from, prepay) {
        Ok(()) => {},
        Err(()) => {
            proof { assert(false); }
            return Err(ValidationError::InsufficientFunds);
        },
    }
    tree.set_sequence(msg.from, sender_seq + 1);
    let mut gas = GasTracker::new(msg.gas_limit);
    let outcome = send(
        tree, &mut gas, reg, cfg, 1, msg.from, msg.to, msg.method, msg.value, &msg.params, false,
    );
    let (exit_code, return_data): (u32, Vec<u8>) = match outcome {
        Ok(rec) => (rec.exit_code, rec.return_data),
        Err(CallError::OutOfGas) => (EXIT_SYS_OUT_OF_GAS, Vec::new()),
        Err(CallError::DepthExceeded) => (EXIT_SYS_LIMIT_EXCEEDED, Vec::new()),
        Err(CallError::UnknownActorCode) => (EXIT_SYS_UNKNOWN_CODE, Vec::new()),
        Err(CallError::Fatal) => (EXIT_SYS_FATAL, Vec::new()),
    };
    let used: u64 = gas.gas_used;
    proof {
        lemma_u64_mul_fits(ctx.base_fee, used);
        lemma_u64_mul_fits(msg.gas_premium, used);
        lemma_settlement_bound(
            ctx.base_fee, msg.gas_premium, msg.gas_fee_cap, used, msg.gas_limit,
        );
    }
    let burn_amt: u128 = (ctx.base_fee as u128) * (used as u128);
    let tip_amt: u128 = (msg.gas_premium as u128) * (used as u128);
    let refund: u128 = prepay - burn_amt - tip_amt;
    settle_credit(tree, BURNT_FUNDS_ADDR, burn_amt);
    settle_credit(tree, ctx.miner, tip_amt);
    settle_credit(tree, msg.from, refund);
    let state_root = tree.flush();
    Ok(ApplyResult { exit_code, return_data, gas_used: used, state_root })
}

} // verus!
