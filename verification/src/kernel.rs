//! The invocation kernel: opens nested actor-to-actor calls, checkpoints the
//! state tree for rollback, meters every priced operation, and dispatches to
//! the capability the receiver's code identifier resolves to.
//!
//! A call either succeeds and keeps its mutations, fails at the actor level
//! and discards exactly its own mutations, or fails the whole chain up to
//! the paying boundary; gas consumed up to a failure is never refunded.

use vstd::prelude::*;

use crate::codec::push_u64;
use crate::errors::{CallError, EXIT_INSUFFICIENT_FUNDS, EXIT_OK, EXIT_READ_ONLY_VIOLATION};
use crate::gas::{GasTracker, PriceList};
use crate::registry::{ActorKind, Registry, ScriptOp, ACCOUNT_ACTOR_CODE_ID};
use crate::state_tree::{lookup, root_of, ActorState, SpecActorState, StateTree};

verus! {

/// Engine configuration fixed for a whole message application.
#[derive(Clone, Copy, Debug, PartialEq, Eq, Structural)]
pub struct ExecConfig {
    /// The externally supplied pricing table.
    pub price: PriceList,
    /// The maximum allowed call depth.
    pub max_depth: u64,
}

impl ExecConfig {
    /// The depth bound leaves room for the depth counter to step past it.
    pub open spec fn wf(self) -> bool {
        self.max_depth < 0xffff_ffff_ffff_ffffu64
    }
}

/// The outcome one call hands to its caller.
#[derive(Debug, PartialEq, Eq)]
pub struct Receipt {
    /// Zero on success; a defined failure category otherwise.
    pub exit_code: u32,
    /// Bytes returned to the caller.
    pub return_data: Vec<u8>,
}

/// Gas consumed by a bare value transfer.
pub open spec fn bare_send_cost(p: PriceList, value: u128) -> int {
    p.send_base + if value > 0 {
        p.send_transfer_funds as int
    } else {
        0int
    }
}

/// Opens one call: charges the send, resolves or implicitly creates the
/// receiver, performs the value transfer, dispatches the method, and on any
/// failure of the call rolls the tree back to the checkpoint taken here.
///
/// An `Err` fails the caller as well; an `Ok` with nonzero exit code is an
/// actor-level failure the caller may tolerate. Either way the failed call's
/// mutations are fully discarded, and gas already consumed is retained.
pub fn send(
    tree: &mut StateTree,
    gas: &mut GasTracker,
    reg: &Registry,
    cfg: ExecConfig,
    depth: u64,
    caller: u64,
    to: u64,
    method: u64,
    value: u128,
    params: &Vec<u8>,
    read_only: bool,
) -> (r: Result<Receipt, CallError>)
    requires
        old(tree).wf(),
        old(gas).wf(),
        reg.wf(),
        cfg.wf(),
    ensures
        final(tree).wf(),
        final(gas).wf(),
        final(gas).gas_limit == old(gas).gas_limit,
        final(gas).gas_used >= old(gas).gas_used,
        forall|b: u64|
            #![trigger lookup(old(tree)@, b)]
            lookup(old(tree)@, b) matches Some(a) ==> (lookup(final(tree)@, b) matches Some(a2)
                && a2.sequence == a.sequence && a2.code == a.code),
        r is Err ==> final(tree)@ == old(tree)@
            && root_of(final(tree)@) == root_of(old(tree)@),
        r matches Ok(rec) && rec.exit_code != EXIT_OK ==> final(tree)@ == old(tree)@
            && root_of(final(tree)@) == root_of(old(tree)@),
        r == Err::<Receipt, CallError>(CallError::OutOfGas) ==> final(gas).gas_used
            == final(gas).gas_limit,
        depth > cfg.max_depth ==> r == Err::<Receipt, CallError>(CallError::DepthExceeded)
            && *final(gas) == *old(gas),
        (depth <= cfg.max_depth && method == 0 && !read_only && caller != to
            && lookup(old(tree)@, caller) is Some && lookup(old(tree)@, to) is Some
            && value <= lookup(old(tree)@, caller)->0.balance
            && lookup(old(tree)@, to)->0.balance + value <= u128::MAX
            && old(gas).gas_used + bare_send_cost(cfg.price, value) <= old(gas).gas_limit)
            ==> (r matches Ok(rec) && rec.exit_code == EXIT_OK
                && final(gas).gas_used == old(gas).gas_used + bare_send_cost(cfg.price, value)
                && (forall|b: u64|
                    lookup(final(tree)@, b) == if b == caller {
                        Some(SpecActorState {
                            balance: (lookup(old(tree)@, caller)->0.balance - value) as u128,
                            ..lookup(old(tree)@, caller)->0
                        })
                    } else if b == to {
                        Some(SpecActorState {
                            balance: (lookup(old(tree)@, to)->0.balance + value) as u128,
                            ..lookup(old(tree)@, to)->0
                        })
                    } else {
                        lookup(old(tree)@, b)
                    })),
    decreases cfg.max_depth + 1 - depth, 1int,
{
    if depth > cfg.max_depth {
        return Err(CallError::DepthExceeded);
    }
    match gas.charge(cfg.price.send_base) {
        Ok(()) => {},
        Err(e) => { return Err(e); },
    }
    if value > 0 {
        match gas.charge(cfg.price.send_transfer_funds) {
            Ok(()) => {},
            Err(e) => { return Err(e); },
        }
    }
    let checkpoint = tree.snapshot();
    let receiver_code: u64 = match tree.get_actor(to) {
        Some(a) => a.code,
        None => {
            if read_only {
                return Ok(Receipt { exit_code: EXIT_READ_ONLY_VIOLATION, return_data: Vec::new() });
            }
            match gas.charge(cfg.price.create_actor) {
                Ok(()) => {},
                Err(e) => { return Err(e); },
            }
            tree.set_actor(
                to,
                ActorState {
                    code: ACCOUNT_ACTOR_CODE_ID,
                    head: Vec::new(),
                    balance: 0,
                    sequence: 0,
                },
            );
            ACCOUNT_ACTOR_CODE_ID
        },
    };
    if value > 0 {
        if read_only {
            tree.restore(checkpoint);
            return Ok(Receipt { exit_code: EXIT_READ_ONLY_VIOLATION, return_data: Vec::new() });
        }
        match tree.get_actor(caller) {
            Some(_) => {},
            None => {
                tree.restore(checkpoint);
                return Err(CallError::Fatal);
            },
        }
        match tree.debit(caller, value) {
            Ok(()) => {},
            Err(()) => {
                tree.restore(checkpoint);
                return Ok(Receipt {
                    exit_code: EXIT_INSUFFICIENT_FUNDS,
                    return_data: Vec::new(),
                });
            },
        }
        match tree.credit(to, value) {
            Ok(()) => {},
            Err(()) => {
                tree.restore(checkpoint);
                return Err(CallError::Fatal);
            },
        }
    }
    if method == 0 {
        return Ok(Receipt { exit_code: EXIT_OK, return_data: Vec::new() });
    }
    let icost = cfg.price.invocation_cost(params.len() as u64);
    match gas.charge(icost) {
        Ok(()) => {},
        Err(e) => {
            tree.restore(checkpoint);
            return Err(e);
        },
    }
    match reg.resolve(receiver_code) {
        None => {
            tree.restore(checkpoint);
            Err(CallError::UnknownActorCode)
        },
        Some(kind) => match kind {
            ActorKind::Account => Ok(Receipt { exit_code: EXIT_OK, return_data: Vec::new() }),
            ActorKind::Scripted(program) => {
                match run_program(tree, gas, reg, cfg, depth, to, program, read_only) {
                    Ok(exit) => {
                        if exit == EXIT_OK {
                            Ok(Receipt { exit_code: EXIT_OK, return_data: Vec::new() })
                        } else {
                            tree.restore(checkpoint);
                            Ok(Receipt { exit_code: exit, return_data: Vec::new() })
                        }
                    },
                    Err(e) => {
                        tree.restore(checkpoint);
                        Err(e)
                    },
                }
            },
        },
    }
}

/// Runs a scripted actor's stored program against the kernel's syscall
/// surface: explicit gas charges, scoped state writes, and nested sends.
///
/// Returns the call's exit code, or the error that fails the whole chain.
/// The caller rolls back this call's mutations whenever the result is not a
/// plain success.
fn run_program(
    tree: &mut StateTree,
    gas: &mut GasTracker,
    reg: &Registry,
    cfg: ExecConfig,
    depth: u64,
    self_addr: u64,
    program: &Vec<ScriptOp>,
    read_only: bool,
) -> (r: Result<u32, CallError>)
    requires
        old(tree).wf(),
        old(gas).wf(),
        reg.wf(),
        cfg.wf(),
        depth <= cfg.max_depth,
        lookup(old(tree)@, self_addr) is Some,
    ensures
        final(tree).wf(),
        final(gas).wf(),
        final(gas).gas_limit == old(gas).gas_limit,
        final(gas).gas_used >= old(gas).gas_used,
        forall|b: u64|
            #![trigger lookup(old(tree)@, b)]
            lookup(old(tree)@, b) matches Some(a) ==> (lookup(final(tree)@, b) matches Some(a2)
                && a2.sequence == a.sequence && a2.code == a.code),
        r == Err::<u32, CallError>(CallError::OutOfGas) ==> final(gas).gas_used
            == final(gas).gas_limit,
    decreases cfg.max_depth + 1 - depth, 0int,
{
    let n = program.len();
    let mut i: usize = 0;
    while i < n
        invariant
            tree.wf(),
            gas.wf(),
            reg.wf(),
            cfg.wf(),
            depth <= cfg.max_depth,
            gas.gas_limit == old(gas).gas_limit,
            gas.gas_used >= old(gas).gas_used,
            forall|b: u64|
                #![trigger lookup(old(tree)@, b)]
                lookup(old(tree)@, b) matches Some(a) ==> (lookup(tree@, b) matches Some(a2)
                    && a2.sequence == a.sequence && a2.code == a.code),
            lookup(tree@, self_addr) is Some,
            n == program@.len(),
            i <= n,
        decreases n - i,
    {
        let op = program[i];
        match op {
            ScriptOp::ChargeGas { amount } => {
                match gas.charge(amount) {
                    Ok(()) => {},
                    Err(e) => { return Err(e); },
                }
            },
            ScriptOp::SetState { word } => {
                if read_only {
                    return Ok(EXIT_READ_ONLY_VIOLATION);
                }
                match gas.charge(cfg.price.state_write) {
                    Ok(()) => {},
                    Err(e) => { return Err(e); },
                }
                let mut h: Vec<u8> = Vec::new();
                push_u64(&mut h, word);
                tree.set_head(self_addr, h);
            },
            ScriptOp::Send { to, method, value, read_only: ro } => {
                let nested_params: Vec<u8> = Vec::new();
                let ro2 = read_only || ro;
                match send(
                    tree, gas, reg, cfg, depth + 1, self_addr, to, method, value,
                    &nested_params, ro2,
                ) {
                    Ok(_) => {},
                    Err(e) => { return Err(e); },
                }
            },
            ScriptOp::Abort { code } => {
                if code == EXIT_OK {
                    return Ok(1u32);
                } else {
                    return Ok(code);
                }
            },
        }
        i = i + 1;
    }
    Ok(EXIT_OK)
}

} // verus!
