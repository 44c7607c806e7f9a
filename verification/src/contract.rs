//! The single-receiver distributor: a linear release between a starting and
//! an end block, claimable by one receivable smart contract that is bound
//! once and never changed.
//!
//! This variant is one instance of the general accrual engine: its pending
//! rewards equal `emitted` over the one-unit schedule made of its
//! `end_block` and `release_per_block` (see
//! [`lemma_pending_matches_engine`]).
//!
//! Unlike the weighted controller and the vault, this variant stores no
//! admin identity, so it also carries no circuit breaker: there is nobody
//! who could be entitled to throw it.  Its only guarded operation is the
//! one-time binding of the receivable contract.

use vstd::prelude::*;

use crate::accrual::{emitted_from, emitted_result_spec, emitted_spec};
use crate::error::Error;
use crate::msg::{
    ButtcoinDistributorHandleAnswer, ButtcoinDistributorHandleMsg, ButtcoinDistributorQueryAnswer,
    ButtcoinDistributorQueryMsg, ButtcoinDistributorResponseStatus, HandleOutcome, InitMsg,
    TransferInstruction, ViewingKeyRegistration, YieldOptimizerReceiveMsg,
};
use crate::state::{ScheduleUnit, SecretContract};

verus! {

/// The stored state of the single-receiver distributor.
#[derive(Clone, Debug, PartialEq)]
pub struct ReceivableDistributorState {
    pub buttcoin: SecretContract,
    pub end_block: u64,
    pub last_update_block: u64,
    pub receivable_smart_contract: Option<SecretContract>,
    pub release_per_block: u128,
    pub starting_block: u64,
    pub viewing_key: String,
}

/// The linear release seen as a one-unit emission schedule.
pub open spec fn singleton_schedule(st: ReceivableDistributorState) -> Seq<ScheduleUnit> {
    seq![ScheduleUnit { end_block: st.end_block, release_per_block: st.release_per_block }]
}

/// The rewards pending between the last settlement and `block`: the elapsed
/// blocks, capped at `end_block`, times the release rate.
pub open spec fn pending_rewards_spec(block: int, st: ReceivableDistributorState) -> int {
    if block <= st.last_update_block {
        0
    } else {
        let capped = if block <= st.end_block {
            block
        } else {
            st.end_block as int
        };
        if capped > st.last_update_block {
            (capped - st.last_update_block) * st.release_per_block
        } else {
            0
        }
    }
}

/// What the pending-rewards computation returns: the exact amount, or an
/// overflow report when it does not fit in 128 bits.
pub open spec fn pending_result_spec(block: int, st: ReceivableDistributorState) -> Result<
    u128,
    Error,
> {
    if pending_rewards_spec(block, st) > u128::MAX {
        Err(Error::ArithmeticOverflow)
    } else {
        Ok(pending_rewards_spec(block, st) as u128)
    }
}

/// The single-receiver release is one instance of the general engine: its
/// pending rewards equal `emitted` over the one-unit schedule.
pub proof fn lemma_pending_matches_engine(block: int, st: ReceivableDistributorState)
    ensures
        pending_rewards_spec(block, st) == emitted_spec(
            st.last_update_block as int,
            block,
            singleton_schedule(st),
        ),
{
    let s = singleton_schedule(st);
    let l = st.last_update_block as int;
    assert(s.len() == 1);
    assert(s[0] == (ScheduleUnit {
        end_block: st.end_block,
        release_per_block: st.release_per_block,
    }));
    assert(emitted_from(l, block, s, 1) == 0);
    if l < block && st.end_block > l {
        let seg_end = if block <= st.end_block {
            block
        } else {
            st.end_block as int
        };
        assert(emitted_from(seg_end, block, s, 1) == 0);
    }
}

/// Instantiates the distributor: accrual starts at `starting_block`, the
/// receivable contract is unset.  Instantiation also owes the host one
/// outbound call, spelled out by [`viewing_key_registration`].
pub fn init(msg: InitMsg) -> (st: ReceivableDistributorState)
    ensures
        st.buttcoin == msg.buttcoin,
        st.end_block == msg.end_block,
        st.last_update_block == msg.starting_block,
        st.receivable_smart_contract is None,
        st.release_per_block == msg.release_per_block,
        st.starting_block == msg.starting_block,
        st.viewing_key == msg.viewing_key,
{
    ReceivableDistributorState {
        buttcoin: msg.buttcoin,
        end_block: msg.end_block,
        last_update_block: msg.starting_block,
        receivable_smart_contract: None,
        release_per_block: msg.release_per_block,
        starting_block: msg.starting_block,
        viewing_key: msg.viewing_key,
    }
}

/// The registration that instantiation owes the host: the stored viewing
/// key is to be set with the stored reward token, so the distributor can
/// later read its own token balance.
pub fn viewing_key_registration(state: &ReceivableDistributorState) -> (r: ViewingKeyRegistration)
    ensures
        r.token == state.buttcoin,
        r.key == state.viewing_key,
{
    ViewingKeyRegistration { token: state.buttcoin.duplicate(), key: state.viewing_key.clone() }
}

/// The rewards accrued to the receivable contract from its last settlement
/// up to `block`.  Blocks beyond `end_block` earn nothing; an overflow is
/// reported, not wrapped.
pub fn get_receivable_contract_rewards(block: u64, state: &ReceivableDistributorState) -> (r:
    Result<u128, Error>)
    ensures
        r == pending_result_spec(block as int, *state),
        r == emitted_result_spec(
            state.last_update_block as int,
            block as int,
            singleton_schedule(*state),
        ),
{
    proof {
        lemma_pending_matches_engine(block as int, *state);
    }
    if block > state.last_update_block {
        let capped = if block > state.end_block {
            state.end_block
        } else {
            block
        };
        if capped > state.last_update_block {
            let span = (capped - state.last_update_block) as u128;
            match span.checked_mul(state.release_per_block) {
                Some(v) => Ok(v),
                None => Err(Error::ArithmeticOverflow),
            }
        } else {
            Ok(0)
        }
    } else {
        Ok(0)
    }
}

/// Answers the `Config` query: every stored field, as stored.
pub fn query_config(state: &ReceivableDistributorState) -> (r: ButtcoinDistributorQueryAnswer)
    ensures
        r == (ButtcoinDistributorQueryAnswer::Config {
            buttcoin: state.buttcoin,
            end_block: state.end_block,
            last_update_block: state.last_update_block,
            receivable_smart_contract: state.receivable_smart_contract,
            release_per_block: state.release_per_block,
            starting_block: state.starting_block,
            viewing_key: state.viewing_key,
        }),
{
    let receivable = match &state.receivable_smart_contract {
        Some(c) => Some(c.duplicate()),
        None => None,
    };
    ButtcoinDistributorQueryAnswer::Config {
        buttcoin: state.buttcoin.duplicate(),
        end_block: state.end_block,
        last_update_block: state.last_update_block,
        receivable_smart_contract: receivable,
        release_per_block: state.release_per_block,
        starting_block: state.starting_block,
        viewing_key: state.viewing_key.clone(),
    }
}

/// Answers the `Pending` query: the rewards that would be claimable at
/// `block`.
pub fn query_pending_rewards(state: &ReceivableDistributorState, block: u64) -> (r: Result<
    ButtcoinDistributorQueryAnswer,
    Error,
>)
    ensures
        r is Ok <==> pending_result_spec(block as int, *state) is Ok,
        r is Ok ==> r->Ok_0 == (ButtcoinDistributorQueryAnswer::Pending {
            amount: pending_result_spec(block as int, *state)->Ok_0,
        }),
        r is Err ==> r->Err_0 == pending_result_spec(block as int, *state)->Err_0,
{
    match get_receivable_contract_rewards(block, state) {
        Ok(amount) => Ok(ButtcoinDistributorQueryAnswer::Pending { amount }),
        Err(e) => Err(e),
    }
}

/// Settles the receivable contract's claim.  When the sender is the
/// registered receivable contract, the pending rewards are computed and the
/// settlement block advances to `block_height`; any other sender gets a
/// zero-amount transfer and no state change.  Either way the transfer goes
/// back to the sender, re-emitting the opaque hook untouched.
pub fn claim_buttcoin(
    state: &mut ReceivableDistributorState,
    sender: &String,
    block_height: u64,
    hook: Option<Vec<u8>>,
) -> (r: Result<HandleOutcome, Error>)
    ensures
        ({
            let is_receivable = old(state).receivable_smart_contract is Some && old(state).receivable_smart_contract->0.address@ == sender@;
            if is_receivable {
                match pending_result_spec(block_height as int, *old(state)) {
                    Ok(v) => {
                        &&& r is Ok
                        &&& r->Ok_0.transfer == Some(
                            (TransferInstruction {
                                recipient: *sender,
                                amount: v,
                                receive_msg: YieldOptimizerReceiveMsg::DepositButtcoin { hook },
                            }),
                        )
                        &&& r->Ok_0.answer == (ButtcoinDistributorHandleAnswer::ClaimButtcoin {
                            status: ButtcoinDistributorResponseStatus::Success,
                        })
                        &&& *final(state) == (ReceivableDistributorState {
                            last_update_block: block_height,
                            ..*old(state)
                        })
                    },
                    Err(e) => {
                        &&& r == Err::<HandleOutcome, Error>(e)
                        &&& *final(state) == *old(state)
                    },
                }
            } else {
                &&& r is Ok
                &&& r->Ok_0.transfer == Some(
                    (TransferInstruction {
                        recipient: *sender,
                        amount: 0,
                        receive_msg: YieldOptimizerReceiveMsg::DepositButtcoin { hook },
                    }),
                )
                &&& r->Ok_0.answer == (ButtcoinDistributorHandleAnswer::ClaimButtcoin {
                    status: ButtcoinDistributorResponseStatus::Success,
                })
                &&& *final(state) == *old(state)
            }
        }),
{
    let is_receivable = match &state.receivable_smart_contract {
        Some(c) => *sender == c.address,
        None => false,
    };
    let amount: u128 = if is_receivable {
        let a = match get_receivable_contract_rewards(block_height, state) {
            Ok(a) => a,
            Err(e) => {
                return Err(e);
            },
        };
        state.last_update_block = block_height;
        a
    } else {
        0
    };
    Ok(HandleOutcome {
        transfer: Some(TransferInstruction {
            recipient: sender.clone(),
            amount,
            receive_msg: YieldOptimizerReceiveMsg::DepositButtcoin { hook },
        }),
        answer: ButtcoinDistributorHandleAnswer::ClaimButtcoin {
            status: ButtcoinDistributorResponseStatus::Success,
        },
    })
}

/// Binds the receivable smart contract.  A one-time binding: every attempt
/// after the first is rejected and changes nothing.
pub fn set_receivable_smart_contract(
    state: &mut ReceivableDistributorState,
    receivable_smart_contract: SecretContract,
) -> (r: Result<HandleOutcome, Error>)
    ensures
        old(state).receivable_smart_contract is Some ==> r == Err::<HandleOutcome, Error>(
            Error::AlreadyInitializedOnce,
        ) && *final(state) == *old(state),
        old(state).receivable_smart_contract is None ==> {
            &&& r is Ok
            &&& r->Ok_0.transfer is None
            &&& r->Ok_0.answer == (ButtcoinDistributorHandleAnswer::SetReceivableSmartContract {
                status: ButtcoinDistributorResponseStatus::Success,
            })
            &&& *final(state) == (ReceivableDistributorState {
                receivable_smart_contract: Some(receivable_smart_contract),
                ..*old(state)
            })
        },
{
    if state.receivable_smart_contract.is_some() {
        return Err(Error::AlreadyInitializedOnce);
    }
    state.receivable_smart_contract = Some(receivable_smart_contract);
    Ok(HandleOutcome {
        transfer: None,
        answer: ButtcoinDistributorHandleAnswer::SetReceivableSmartContract {
            status: ButtcoinDistributorResponseStatus::Success,
        },
    })
}

/// Dispatches a state-changing message to the operation it names.
pub fn handle(
    state: &mut ReceivableDistributorState,
    sender: &String,
    block_height: u64,
    msg: ButtcoinDistributorHandleMsg,
) -> (r: Result<HandleOutcome, Error>)
    ensures
        msg matches ButtcoinDistributorHandleMsg::ClaimButtcoin { hook } ==> ({
            let is_receivable = old(state).receivable_smart_contract is Some && old(state).receivable_smart_contract->0.address@ == sender@;
            if is_receivable {
                match pending_result_spec(block_height as int, *old(state)) {
                    Ok(v) => {
                        &&& r is Ok
                        &&& r->Ok_0.transfer == Some(
                            (TransferInstruction {
                                recipient: *sender,
                                amount: v,
                                receive_msg: YieldOptimizerReceiveMsg::DepositButtcoin { hook },
                            }),
                        )
                        &&& r->Ok_0.answer == (ButtcoinDistributorHandleAnswer::ClaimButtcoin {
                            status: ButtcoinDistributorResponseStatus::Success,
                        })
                        &&& *final(state) == (ReceivableDistributorState {
                            last_update_block: block_height,
                            ..*old(state)
                        })
                    },
                    Err(e) => {
                        &&& r == Err::<HandleOutcome, Error>(e)
                        &&& *final(state) == *old(state)
                    },
                }
            } else {
                &&& r is Ok
                &&& r->Ok_0.transfer == Some(
                    (TransferInstruction {
                        recipient: *sender,
                        amount: 0,
                        receive_msg: YieldOptimizerReceiveMsg::DepositButtcoin { hook },
                    }),
                )
                &&& r->Ok_0.answer == (ButtcoinDistributorHandleAnswer::ClaimButtcoin {
                    status: ButtcoinDistributorResponseStatus::Success,
                })
                &&& *final(state) == *old(state)
            }
        }),
        msg matches ButtcoinDistributorHandleMsg::SetReceivableSmartContract {
            receivable_smart_contract,
        } ==> {
            &&& old(state).receivable_smart_contract is Some ==> r == Err::<HandleOutcome, Error>(
                Error::AlreadyInitializedOnce,
            ) && *final(state) == *old(state)
            &&& old(state).receivable_smart_contract is None ==> r is Ok && r->Ok_0.transfer
                is None && r->Ok_0.answer == (
            ButtcoinDistributorHandleAnswer::SetReceivableSmartContract {
                status: ButtcoinDistributorResponseStatus::Success,
            }) && *final(state) == (ReceivableDistributorState {
                receivable_smart_contract: Some(receivable_smart_contract),
                ..*old(state)
            })
        },
{
    match msg {
        ButtcoinDistributorHandleMsg::ClaimButtcoin { hook } => claim_buttcoin(
            state,
            sender,
            block_height,
            hook,
        ),
        ButtcoinDistributorHandleMsg::SetReceivableSmartContract { receivable_smart_contract } =>
            set_receivable_smart_contract(state, receivable_smart_contract),
    }
}

/// Dispatches a read-only query to the answer it asks for.
pub fn query(state: &ReceivableDistributorState, msg: ButtcoinDistributorQueryMsg) -> (r: Result<
    ButtcoinDistributorQueryAnswer,
    Error,
>)
    ensures
        msg is Config ==> r == Ok::<ButtcoinDistributorQueryAnswer, Error>(
            (ButtcoinDistributorQueryAnswer::Config {
                buttcoin: state.buttcoin,
                end_block: state.end_block,
                last_update_block: state.last_update_block,
                receivable_smart_contract: state.receivable_smart_contract,
                release_per_block: state.release_per_block,
                starting_block: state.starting_block,
                viewing_key: state.viewing_key,
            }),
        ),
        msg matches ButtcoinDistributorQueryMsg::Pending { block } ==> ({
            &&& r is Ok <==> pending_result_spec(block as int, *state) is Ok
            &&& r is Ok ==> r->Ok_0 == (ButtcoinDistributorQueryAnswer::Pending {
                amount: pending_result_spec(block as int, *state)->Ok_0,
            })
            &&& r is Err ==> r->Err_0 == pending_result_spec(block as int, *state)->Err_0
        }),
{
    match msg {
        ButtcoinDistributorQueryMsg::Config {} => Ok(query_config(state)),
        ButtcoinDistributorQueryMsg::Pending { block } => query_pending_rewards(state, block),
    }
}

} // verus!
