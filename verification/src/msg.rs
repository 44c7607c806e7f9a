//! The messages the distributor accepts and the answers it returns, as
//! plain values.  The host environment is responsible for their wire
//! encoding; an opaque hook payload travels as raw bytes and is never
//! inspected here.

use vstd::prelude::*;

use crate::state::SecretContract;

verus! {

/// The data the distributor is instantiated with.
#[derive(Clone, Debug, PartialEq)]
pub struct InitMsg {
    pub buttcoin: SecretContract,
    pub end_block: u64,
    pub starting_block: u64,
    pub release_per_block: u128,
    pub viewing_key: String,
}

/// The state-changing operations.
#[derive(Clone, Debug, PartialEq)]
pub enum ButtcoinDistributorHandleMsg {
    ClaimButtcoin { hook: Option<Vec<u8>> },
    SetReceivableSmartContract { receivable_smart_contract: SecretContract },
}

/// What a state-changing operation reports back.
#[derive(Clone, Debug, PartialEq)]
pub enum ButtcoinDistributorHandleAnswer {
    ClaimButtcoin { status: ButtcoinDistributorResponseStatus },
    SetReceivableSmartContract { status: ButtcoinDistributorResponseStatus },
}

/// The read-only queries.
#[derive(Clone, Debug, PartialEq)]
pub enum ButtcoinDistributorQueryMsg {
    Config {},
    Pending { block: u64 },
}

/// What a query returns.
#[derive(Clone, Debug, PartialEq)]
pub enum ButtcoinDistributorQueryAnswer {
    Config {
        buttcoin: SecretContract,
        end_block: u64,
        last_update_block: u64,
        receivable_smart_contract: Option<SecretContract>,
        release_per_block: u128,
        starting_block: u64,
        viewing_key: String,
    },
    Pending {
        amount: u128,
    },
}

/// Whether a handle operation succeeded.
#[derive(Clone, Copy, Debug, PartialEq, Eq, Structural)]
pub enum ButtcoinDistributorResponseStatus {
    Success,
    Failure,
}

/// The follow-up actions a yield optimizer can ask for after its claim, as
/// carried inside a hook payload.
#[derive(Clone, Debug, PartialEq)]
pub enum YieldOptimizerDepositButtcoinHookMsg {
    ContinueDepositAfterButtcoinClaimed { depositer: String, incentivized_token_amount: u128 },
    ContinueWithdrawalAfterButtcoinClaimed { withdrawer: String, shares_amount: u128 },
}

/// The receive-callback a reward transfer carries to its recipient.
#[derive(Clone, Debug, PartialEq)]
pub enum YieldOptimizerReceiveMsg {
    DepositButtcoin { hook: Option<Vec<u8>> },
}

/// One outbound reward transfer: send `amount` to `recipient`, delivering
/// `receive_msg` with it.
#[derive(Clone, Debug, PartialEq)]
pub struct TransferInstruction {
    pub recipient: String,
    pub amount: u128,
    pub receive_msg: YieldOptimizerReceiveMsg,
}

/// What a handle operation hands back to the host: an outbound transfer to
/// execute, if any, and the answer to report.
#[derive(Clone, Debug, PartialEq)]
pub struct HandleOutcome {
    pub transfer: Option<TransferInstruction>,
    pub answer: ButtcoinDistributorHandleAnswer,
}

/// The one-time registration the host must submit when the distributor is
/// instantiated: set `key` as the viewing key with the reward token.
#[derive(Clone, Debug, PartialEq)]
pub struct ViewingKeyRegistration {
    pub token: SecretContract,
    pub key: String,
}

} // verus!
