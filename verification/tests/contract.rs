//! Tests of the single-receiver distributor contract.

use buttcoin_distributor::contract::{
    claim_buttcoin, get_receivable_contract_rewards, handle, init, query, query_pending_rewards,
    set_receivable_smart_contract, viewing_key_registration, ReceivableDistributorState,
};
use buttcoin_distributor::error::Error;
use buttcoin_distributor::msg::{
    ButtcoinDistributorHandleMsg, ButtcoinDistributorQueryAnswer, ButtcoinDistributorQueryMsg,
    InitMsg, YieldOptimizerReceiveMsg,
};
use buttcoin_distributor::state::SecretContract;

fn mock_buttcoin() -> SecretContract {
    SecretContract {
        address: "buttcoincontractaddress".to_string(),
        contract_hash: "buttcoincontracthash".to_string(),
    }
}

fn mock_viewing_key() -> String {
    "viewing_key".to_string()
}

fn mock_yield_optimizer_smart_contract() -> SecretContract {
    SecretContract {
        address: "yieldoptimizersmartcontractaddress".to_string(),
        contract_hash: "yieldoptimizersmartcontracthash".to_string(),
    }
}

fn init_helper() -> ReceivableDistributorState {
    init(InitMsg {
        buttcoin: mock_buttcoin(),
        end_block: 12,
        release_per_block: 34,
        starting_block: 11,
        viewing_key: mock_viewing_key(),
    })
}

#[test]
fn test_query_config() {
    let state = init_helper();
    let res = query(&state, ButtcoinDistributorQueryMsg::Config {}).unwrap();
    match res {
        ButtcoinDistributorQueryAnswer::Config {
            buttcoin,
            end_block,
            last_update_block,
            receivable_smart_contract,
            release_per_block,
            starting_block,
            viewing_key,
        } => {
            assert_eq!(buttcoin, mock_buttcoin());
            assert_eq!(end_block, 12);
            assert_eq!(last_update_block, 11);
            assert_eq!(receivable_smart_contract, None);
            assert_eq!(release_per_block, 34);
            assert_eq!(starting_block, 11);
            assert_eq!(viewing_key, mock_viewing_key());
        }
        _ => panic!("unexpected error"),
    }
}

#[test]
fn test_viewing_key_registration_names_key_and_token() {
    let state = init_helper();
    let registration = viewing_key_registration(&state);
    assert_eq!(registration.token, mock_buttcoin());
    assert_eq!(registration.key, mock_viewing_key());
}

#[test]
fn test_pending_rewards_before_any_elapsed_block() {
    let state = init_helper();
    let res = query_pending_rewards(&state, 11).unwrap();
    assert_eq!(res, ButtcoinDistributorQueryAnswer::Pending { amount: 0 });
    let res = query_pending_rewards(&state, 5).unwrap();
    assert_eq!(res, ButtcoinDistributorQueryAnswer::Pending { amount: 0 });
}

#[test]
fn test_pending_rewards_capped_at_end_block() {
    let state = init_helper();
    // one block elapses between 11 and the end block 12; later blocks add nothing
    let res = query_pending_rewards(&state, 12).unwrap();
    assert_eq!(res, ButtcoinDistributorQueryAnswer::Pending { amount: 34 });
    let res = query_pending_rewards(&state, 100).unwrap();
    assert_eq!(res, ButtcoinDistributorQueryAnswer::Pending { amount: 34 });
}

#[test]
fn test_rewards_overflow_is_reported() {
    let state = init(InitMsg {
        buttcoin: mock_buttcoin(),
        end_block: 10,
        release_per_block: u128::MAX,
        starting_block: 0,
        viewing_key: mock_viewing_key(),
    });
    assert_eq!(
        get_receivable_contract_rewards(3, &state),
        Err(Error::ArithmeticOverflow)
    );
    assert_eq!(get_receivable_contract_rewards(1, &state), Ok(u128::MAX));
}

#[test]
fn test_set_receivable_smart_contract_only_once() {
    let mut state = init_helper();
    let first = set_receivable_smart_contract(&mut state, mock_yield_optimizer_smart_contract());
    assert!(first.is_ok());
    assert_eq!(
        state.receivable_smart_contract,
        Some(mock_yield_optimizer_smart_contract())
    );
    let second = set_receivable_smart_contract(&mut state, mock_buttcoin());
    assert_eq!(second, Err(Error::AlreadyInitializedOnce));
    assert_eq!(
        state.receivable_smart_contract,
        Some(mock_yield_optimizer_smart_contract())
    );
}

#[test]
fn test_claim_by_stranger_transfers_zero_and_changes_nothing() {
    let mut state = init_helper();
    set_receivable_smart_contract(&mut state, mock_yield_optimizer_smart_contract()).unwrap();
    let before = state.clone();
    let sender = "someoneelse".to_string();
    let outcome = claim_buttcoin(&mut state, &sender, 12, None).unwrap();
    let transfer = outcome.transfer.unwrap();
    assert_eq!(transfer.recipient, sender);
    assert_eq!(transfer.amount, 0);
    assert_eq!(state, before);
}

#[test]
fn test_claim_by_receivable_pays_and_settles() {
    let mut state = init_helper();
    set_receivable_smart_contract(&mut state, mock_yield_optimizer_smart_contract()).unwrap();
    let sender = mock_yield_optimizer_smart_contract().address;
    let outcome = claim_buttcoin(&mut state, &sender, 12, None).unwrap();
    let transfer = outcome.transfer.unwrap();
    assert_eq!(transfer.recipient, sender);
    assert_eq!(transfer.amount, 34);
    assert_eq!(state.last_update_block, 12);
    // a second claim at the same height finds nothing left
    let outcome = claim_buttcoin(&mut state, &sender, 12, None).unwrap();
    assert_eq!(outcome.transfer.unwrap().amount, 0);
}

#[test]
fn test_claim_threads_hook_through() {
    let mut state = init_helper();
    set_receivable_smart_contract(&mut state, mock_yield_optimizer_smart_contract()).unwrap();
    let sender = mock_yield_optimizer_smart_contract().address;
    let hook = vec![1u8, 2, 3];
    let outcome = handle(
        &mut state,
        &sender,
        12,
        ButtcoinDistributorHandleMsg::ClaimButtcoin {
            hook: Some(hook.clone()),
        },
    )
    .unwrap();
    let transfer = outcome.transfer.unwrap();
    match transfer.receive_msg {
        YieldOptimizerReceiveMsg::DepositButtcoin { hook: h } => {
            assert_eq!(h, Some(hook));
        }
    }
}

#[test]
fn test_handle_dispatches_set_receivable() {
    let mut state = init_helper();
    let outcome = handle(
        &mut state,
        &"anyone".to_string(),
        11,
        ButtcoinDistributorHandleMsg::SetReceivableSmartContract {
            receivable_smart_contract: mock_yield_optimizer_smart_contract(),
        },
    )
    .unwrap();
    assert!(outcome.transfer.is_none());
    assert_eq!(
        state.receivable_smart_contract,
        Some(mock_yield_optimizer_smart_contract())
    );
}
