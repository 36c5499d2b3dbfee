use fvm_core::codec::Message;
use fvm_core::errors::{
    ValidationError, EXIT_OK, EXIT_SYS_LIMIT_EXCEEDED, EXIT_SYS_OUT_OF_GAS, EXIT_SYS_UNKNOWN_CODE,
};
use fvm_core::executor::{apply, ChainContext, BURNT_FUNDS_ADDR};
use fvm_core::gas::{GasTracker, PriceList};
use fvm_core::kernel::ExecConfig;
use fvm_core::registry::{ActorKind, Registry, ScriptOp, ACCOUNT_ACTOR_CODE_ID};
use fvm_core::state_tree::{ActorState, StateTree};

const SENDER: u64 = 1;
const RECEIVER: u64 = 2;
const CONTRACT: u64 = 10;
const HELPER: u64 = 11;
const MINER: u64 = 77;
const SCRIPT_CODE_A: u64 = 100;
const SCRIPT_CODE_B: u64 = 101;

fn price() -> PriceList {
    PriceList {
        send_base: 10,
        send_transfer_funds: 5,
        create_actor: 7,
        method_invocation: 20,
        invocation_per_param_byte: 1,
        state_write: 3,
    }
}

fn config() -> ExecConfig {
    ExecConfig { price: price(), max_depth: 32 }
}

fn context() -> ChainContext {
    ChainContext { epoch: 0, base_fee: 2, miner: MINER }
}

fn account(balance: u128, sequence: u64) -> ActorState {
    ActorState { code: ACCOUNT_ACTOR_CODE_ID, head: Vec::new(), balance, sequence }
}

fn base_registry() -> Registry {
    let mut reg = Registry::new();
    reg.register(ACCOUNT_ACTOR_CODE_ID, ActorKind::Account, false).unwrap();
    reg
}

fn transfer_message(to: u64, value: u128, sequence: u64) -> Message {
    Message {
        version: 0,
        from: SENDER,
        to,
        sequence,
        value,
        method: 0,
        params: Vec::new(),
        gas_limit: 1000,
        gas_fee_cap: 4,
        gas_premium: 1,
    }
}

fn balance_of(tree: &StateTree, addr: u64) -> u128 {
    tree.get_actor(addr).expect("actor must exist").balance
}

#[test]
fn gas_tracker_charges_and_exhausts() {
    let mut gas = GasTracker::new(10);
    assert!(gas.charge(4).is_ok());
    assert_eq!(gas.gas_used, 4);
    assert_eq!(gas.remaining(), 6);
    assert!(gas.charge(7).is_err());
    assert_eq!(gas.gas_used, 10);
}

#[test]
fn invocation_cost_is_size_scaled() {
    let p = price();
    assert_eq!(p.invocation_cost(0), 20);
    assert_eq!(p.invocation_cost(6), 26);
    let huge = PriceList { invocation_per_param_byte: u64::MAX, ..p };
    assert_eq!(huge.invocation_cost(u64::MAX), u64::MAX);
}

#[test]
fn transfer_success() {
    // Sender with expected sequence 5 transfers 100 units with ample funds.
    let mut tree = StateTree::new();
    tree.set_actor(SENDER, account(10_000, 5));
    tree.set_actor(RECEIVER, account(500, 0));
    let reg = base_registry();
    let msg = transfer_message(RECEIVER, 100, 5);
    let res = apply(&mut tree, &reg, config(), context(), &msg).unwrap();

    assert_eq!(res.exit_code, EXIT_OK);
    // One send charge plus one transfer charge.
    assert_eq!(res.gas_used, 15);
    assert!(res.gas_used <= msg.gas_limit);
    // Fees: base fee 2 and premium 1 per unit of gas used.
    assert_eq!(balance_of(&tree, SENDER), 10_000 - 100 - 3 * 15);
    assert_eq!(balance_of(&tree, RECEIVER), 600);
    assert_eq!(balance_of(&tree, MINER), 15);
    assert_eq!(balance_of(&tree, BURNT_FUNDS_ADDR), 30);
    assert_eq!(tree.get_actor(SENDER).unwrap().sequence, 6);
    assert_eq!(res.state_root, tree.flush());
}

#[test]
fn transfer_rejected_when_prepay_unaffordable() {
    // Same shape, but the balance cannot prepay gas_fee_cap * gas_limit.
    let mut tree = StateTree::new();
    tree.set_actor(SENDER, account(3_999, 5));
    tree.set_actor(RECEIVER, account(500, 0));
    let reg = base_registry();
    let msg = transfer_message(RECEIVER, 100, 5);
    let res = apply(&mut tree, &reg, config(), context(), &msg);

    assert_eq!(res.unwrap_err(), ValidationError::InsufficientFunds);
    assert_eq!(balance_of(&tree, SENDER), 3_999);
    assert_eq!(balance_of(&tree, RECEIVER), 500);
    assert_eq!(tree.get_actor(SENDER).unwrap().sequence, 5);
    assert!(tree.get_actor(MINER).is_none());
}

#[test]
fn wrong_nonce_is_rejected_without_state_change() {
    let mut tree = StateTree::new();
    tree.set_actor(SENDER, account(10_000, 5));
    tree.set_actor(RECEIVER, account(500, 0));
    let reg = base_registry();
    let msg = transfer_message(RECEIVER, 100, 6);
    let res = apply(&mut tree, &reg, config(), context(), &msg);

    assert_eq!(res.unwrap_err(), ValidationError::InvalidNonce);
    assert_eq!(balance_of(&tree, SENDER), 10_000);
    assert_eq!(tree.get_actor(SENDER).unwrap().sequence, 5);
}

#[test]
fn unknown_sender_is_rejected() {
    let mut tree = StateTree::new();
    let reg = base_registry();
    let msg = transfer_message(RECEIVER, 100, 0);
    let res = apply(&mut tree, &reg, config(), context(), &msg);
    assert_eq!(res.unwrap_err(), ValidationError::SenderNotFound);
}

#[test]
fn low_fee_cap_is_rejected() {
    let mut tree = StateTree::new();
    tree.set_actor(SENDER, account(10_000, 5));
    let reg = base_registry();
    let mut msg = transfer_message(RECEIVER, 100, 5);
    msg.gas_fee_cap = 2; // below base fee 2 + premium 1
    let res = apply(&mut tree, &reg, config(), context(), &msg);
    assert_eq!(res.unwrap_err(), ValidationError::FeeCapTooLow);
    assert_eq!(balance_of(&tree, SENDER), 10_000);
}

#[test]
fn transfer_to_missing_receiver_creates_account() {
    let mut tree = StateTree::new();
    tree.set_actor(SENDER, account(10_000, 0));
    let reg = base_registry();
    let msg = transfer_message(42, 250, 0);
    let res = apply(&mut tree, &reg, config(), context(), &msg).unwrap();

    assert_eq!(res.exit_code, EXIT_OK);
    // Send, transfer and creation charges.
    assert_eq!(res.gas_used, 22);
    let created = tree.get_actor(42).unwrap();
    assert_eq!(created.code, ACCOUNT_ACTOR_CODE_ID);
    assert_eq!(created.balance, 250);
    assert_eq!(created.sequence, 0);
}

#[test]
fn nested_send_exhausting_gas_rolls_back_and_consumes_limit() {
    // The contract's program performs one nested send; the gas limit covers
    // everything but the nested transfer charge.
    let mut tree = StateTree::new();
    tree.set_actor(SENDER, account(100_000, 5));
    tree.set_actor(RECEIVER, account(500, 0));
    tree.set_actor(
        CONTRACT,
        ActorState { code: SCRIPT_CODE_A, head: Vec::new(), balance: 50, sequence: 0 },
    );
    let mut reg = base_registry();
    reg.register(
        SCRIPT_CODE_A,
        ActorKind::Scripted(vec![ScriptOp::Send {
            to: RECEIVER,
            method: 0,
            value: 10,
            read_only: false,
        }]),
        false,
    )
    .unwrap();
    let mut msg = transfer_message(CONTRACT, 0, 5);
    msg.method = 1;
    // Root send 10 + invocation 20 + nested send 10 leaves 2 of 42, short of
    // the nested transfer charge 5.
    msg.gas_limit = 42;
    let res = apply(&mut tree, &reg, config(), context(), &msg).unwrap();

    assert_eq!(res.exit_code, EXIT_SYS_OUT_OF_GAS);
    assert_eq!(res.gas_used, 42);
    assert_eq!(res.gas_used, msg.gas_limit);
    // Every effect of the root call and the nested send is discarded.
    assert_eq!(balance_of(&tree, RECEIVER), 500);
    assert_eq!(balance_of(&tree, CONTRACT), 50);
    // The message itself still transitioned the tree: nonce and fees.
    assert_eq!(tree.get_actor(SENDER).unwrap().sequence, 6);
    assert_eq!(balance_of(&tree, SENDER), 100_000 - 3 * 42);
    assert_eq!(balance_of(&tree, MINER), 42);
    assert_eq!(balance_of(&tree, BURNT_FUNDS_ADDR), 84);
}

#[test]
fn unbounded_recursion_fails_at_depth_limit() {
    // The contract sends to itself forever; the depth bound stops it.
    let mut tree = StateTree::new();
    tree.set_actor(SENDER, account(100_000, 0));
    tree.set_actor(
        CONTRACT,
        ActorState { code: SCRIPT_CODE_A, head: Vec::new(), balance: 0, sequence: 0 },
    );
    let mut reg = base_registry();
    reg.register(
        SCRIPT_CODE_A,
        ActorKind::Scripted(vec![ScriptOp::Send {
            to: CONTRACT,
            method: 1,
            value: 0,
            read_only: false,
        }]),
        false,
    )
    .unwrap();
    let mut msg = transfer_message(CONTRACT, 0, 0);
    msg.method = 1;
    msg.gas_limit = 10_000;
    let cfg = ExecConfig { price: price(), max_depth: 3 };
    let res = apply(&mut tree, &reg, cfg, context(), &msg).unwrap();

    assert_eq!(res.exit_code, EXIT_SYS_LIMIT_EXCEEDED);
    // Three frames each charged a send and an invocation before the bound.
    assert_eq!(res.gas_used, 90);
    // Rolled back to the pre-state, bar the nonce and the gas bill.
    assert_eq!(balance_of(&tree, CONTRACT), 0);
    assert_eq!(tree.get_actor(SENDER).unwrap().sequence, 1);
    assert_eq!(balance_of(&tree, SENDER), 100_000 - 3 * 90);
}

#[test]
fn unknown_code_aborts_message() {
    let mut tree = StateTree::new();
    tree.set_actor(SENDER, account(100_000, 0));
    tree.set_actor(
        CONTRACT,
        ActorState { code: 555, head: Vec::new(), balance: 9, sequence: 0 },
    );
    let reg = base_registry();
    let mut msg = transfer_message(CONTRACT, 0, 0);
    msg.method = 1;
    let res = apply(&mut tree, &reg, config(), context(), &msg).unwrap();

    assert_eq!(res.exit_code, EXIT_SYS_UNKNOWN_CODE);
    assert_eq!(res.gas_used, 30);
    assert_eq!(balance_of(&tree, CONTRACT), 9);
    assert_eq!(tree.get_actor(SENDER).unwrap().sequence, 1);
}

#[test]
fn nested_abort_rolls_back_only_the_nested_call() {
    // The contract writes state, makes a nested send to an aborting helper,
    // then writes state again; only the helper's call is discarded.
    let mut tree = StateTree::new();
    tree.set_actor(SENDER, account(100_000, 0));
    tree.set_actor(
        CONTRACT,
        ActorState { code: SCRIPT_CODE_A, head: Vec::new(), balance: 50, sequence: 0 },
    );
    tree.set_actor(
        HELPER,
        ActorState { code: SCRIPT_CODE_B, head: Vec::new(), balance: 20, sequence: 0 },
    );
    let mut reg = base_registry();
    reg.register(
        SCRIPT_CODE_A,
        ActorKind::Scripted(vec![
            ScriptOp::SetState { word: 7 },
            ScriptOp::Send { to: HELPER, method: 1, value: 5, read_only: false },
            ScriptOp::SetState { word: 9 },
        ]),
        false,
    )
    .unwrap();
    reg.register(
        SCRIPT_CODE_B,
        ActorKind::Scripted(vec![ScriptOp::Abort { code: 13 }]),
        false,
    )
    .unwrap();
    let mut msg = transfer_message(CONTRACT, 0, 0);
    msg.method = 1;
    let res = apply(&mut tree, &reg, config(), context(), &msg).unwrap();

    assert_eq!(res.exit_code, EXIT_OK);
    // The helper's transfer was rolled back with its call.
    assert_eq!(balance_of(&tree, CONTRACT), 50);
    assert_eq!(balance_of(&tree, HELPER), 20);
    assert!(tree.get_actor(HELPER).unwrap().head.is_empty());
    // The contract's own writes survive; the second write is the last.
    assert_eq!(tree.get_actor(CONTRACT).unwrap().head, vec![0, 0, 0, 0, 0, 0, 0, 9]);
}

#[test]
fn read_only_flag_blocks_descendant_state_writes() {
    let mut tree = StateTree::new();
    tree.set_actor(SENDER, account(100_000, 0));
    tree.set_actor(
        CONTRACT,
        ActorState { code: SCRIPT_CODE_A, head: Vec::new(), balance: 50, sequence: 0 },
    );
    tree.set_actor(
        HELPER,
        ActorState { code: SCRIPT_CODE_B, head: Vec::new(), balance: 20, sequence: 0 },
    );
    let mut reg = base_registry();
    reg.register(
        SCRIPT_CODE_A,
        ActorKind::Scripted(vec![ScriptOp::Send {
            to: HELPER,
            method: 1,
            value: 0,
            read_only: true,
        }]),
        false,
    )
    .unwrap();
    reg.register(
        SCRIPT_CODE_B,
        ActorKind::Scripted(vec![ScriptOp::SetState { word: 4 }]),
        false,
    )
    .unwrap();
    let mut msg = transfer_message(CONTRACT, 0, 0);
    msg.method = 1;
    let res = apply(&mut tree, &reg, config(), context(), &msg).unwrap();

    // The helper failed with a read-only violation; the parent tolerated it.
    assert_eq!(res.exit_code, EXIT_OK);
    assert!(tree.get_actor(HELPER).unwrap().head.is_empty());
    assert_eq!(balance_of(&tree, HELPER), 20);
}

#[test]
fn transfer_exceeding_balance_fails_at_actor_level() {
    // Prepay succeeds, but the transferred value exceeds what is left.
    let mut tree = StateTree::new();
    tree.set_actor(SENDER, account(5_000, 5));
    tree.set_actor(RECEIVER, account(500, 0));
    let reg = base_registry();
    let msg = transfer_message(RECEIVER, 2_000, 5);
    let res = apply(&mut tree, &reg, config(), context(), &msg).unwrap();

    assert_eq!(res.exit_code, fvm_core::errors::EXIT_INSUFFICIENT_FUNDS);
    assert_eq!(res.gas_used, 15);
    assert_eq!(balance_of(&tree, RECEIVER), 500);
    // The sender still pays the gas bill and the nonce advances.
    assert_eq!(balance_of(&tree, SENDER), 5_000 - 3 * 15);
    assert_eq!(tree.get_actor(SENDER).unwrap().sequence, 6);
}

#[test]
fn receiver_balance_overflow_is_fatal() {
    let mut tree = StateTree::new();
    tree.set_actor(SENDER, account(10_000, 0));
    tree.set_actor(RECEIVER, account(u128::MAX - 5, 0));
    let reg = base_registry();
    let msg = transfer_message(RECEIVER, 10, 0);
    let res = apply(&mut tree, &reg, config(), context(), &msg).unwrap();

    assert_eq!(res.exit_code, fvm_core::errors::EXIT_SYS_FATAL);
    assert_eq!(balance_of(&tree, RECEIVER), u128::MAX - 5);
    assert_eq!(tree.get_actor(SENDER).unwrap().sequence, 1);
}

#[test]
fn root_abort_surfaces_its_exit_code_and_rolls_back() {
    let mut tree = StateTree::new();
    tree.set_actor(SENDER, account(100_000, 0));
    tree.set_actor(
        CONTRACT,
        ActorState { code: SCRIPT_CODE_A, head: Vec::new(), balance: 0, sequence: 0 },
    );
    let mut reg = base_registry();
    reg.register(
        SCRIPT_CODE_A,
        ActorKind::Scripted(vec![
            ScriptOp::SetState { word: 6 },
            ScriptOp::Abort { code: 13 },
        ]),
        false,
    )
    .unwrap();
    let mut msg = transfer_message(CONTRACT, 0, 0);
    msg.method = 1;
    let res = apply(&mut tree, &reg, config(), context(), &msg).unwrap();

    assert_eq!(res.exit_code, 13);
    // The aborted call's own write is discarded.
    assert!(tree.get_actor(CONTRACT).unwrap().head.is_empty());
    assert_eq!(tree.get_actor(SENDER).unwrap().sequence, 1);
}

#[test]
fn state_root_is_deterministic() {
    let build = || {
        let mut tree = StateTree::new();
        tree.set_actor(SENDER, account(10_000, 5));
        tree.set_actor(RECEIVER, account(500, 0));
        let reg = base_registry();
        let msg = transfer_message(RECEIVER, 100, 5);
        let res = apply(&mut tree, &reg, config(), context(), &msg).unwrap();
        (res, tree.flush())
    };
    let (res1, root1) = build();
    let (res2, root2) = build();
    assert_eq!(res1.state_root, root1);
    assert_eq!(res1.state_root, res2.state_root);
    assert_eq!(root1, root2);
}
