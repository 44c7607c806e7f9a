//! Share-based vault accounting: deposits mint shares against the pool
//! value, withdrawals burn them for a proportional slice.
//!
//! All share math is unsigned integer with floor division; remainders are
//! not reconciled, so rounding dust stays in the pool.  The pool value is
//! never stored: the host queries the idle balance, the balance deployed to
//! the yield source and the unclaimed yield, and passes them in as observed
//! at the start of the call.

use vstd::prelude::*;

use crate::error::Error;

verus! {

/// The vault's stored state: the outstanding shares, its admin, the fee in
/// basis points skimmed from observed unclaimed yield, and the circuit
/// breaker.
#[derive(Clone, Debug, PartialEq)]
pub struct Vault {
    pub total_shares: u128,
    pub admin: String,
    pub fee_bps: u16,
    pub stopped: bool,
}

/// What a deposit instructs the host to do: the minted shares go to the
/// depositor, the fee goes to the admin, and the deposited amount itself is
/// forwarded to the yield source.
#[derive(Clone, Copy, Debug, PartialEq, Eq, Structural)]
pub struct DepositOutcome {
    pub shares_minted: u128,
    pub fee: u128,
}

/// What a withdrawal instructs the host to do: transfer `amount_owed` to
/// the withdrawer and the fee to the admin.
#[derive(Clone, Copy, Debug, PartialEq, Eq, Structural)]
pub struct WithdrawOutcome {
    pub amount_owed: u128,
    pub fee: u128,
}

/// The pool value backing the shares: idle balance plus balance deployed to
/// the yield source plus unclaimed yield.
pub open spec fn pool_value_spec(unstaked: int, deployed: int, unclaimed: int) -> int {
    unstaked + deployed + unclaimed
}

/// The pool value a deposit is priced against: the pool as observed, minus
/// the incoming amount when the observed balances already reflect it.
/// Whether they do is the host's explicit choice, passed in as a flag.
pub open spec fn deposit_pool_before(
    amount: int,
    unstaked: int,
    deployed: int,
    unclaimed: int,
    balance_includes_deposit: bool,
) -> int {
    pool_value_spec(unstaked, deployed, unclaimed) - if balance_includes_deposit {
        amount
    } else {
        0
    }
}

/// The shares a deposit mints: the full amount for the first deposit, else
/// the amount priced at the current shares-per-pool-value ratio, floored.
pub open spec fn shares_minted_spec(amount: int, total_shares: int, pool_before: int) -> int {
    if total_shares == 0 {
        amount
    } else {
        amount * total_shares / pool_before
    }
}

/// The fee skimmed for the admin: `fee_bps` basis points of the unclaimed
/// yield observed during the call, independent of shares.
pub open spec fn fee_spec(unclaimed_yield: int, fee_bps: u16) -> int {
    unclaimed_yield * fee_bps / 10000
}

/// The raw value a burn is owed before clamping: its proportional slice of
/// the pool, priced over the shares outstanding before the burn.
pub open spec fn amount_owed_raw_spec(pool: int, shares_burned: int, total_before: int) -> int {
    if shares_burned == 0 {
        0
    } else {
        pool * shares_burned / total_before
    }
}

/// When some intermediate of the deposit math exceeds 128 bits.
pub open spec fn deposit_overflows(
    v: Vault,
    amount: int,
    unstaked: int,
    deployed: int,
    unclaimed: int,
    balance_includes_deposit: bool,
) -> bool {
    let pb = deposit_pool_before(amount, unstaked, deployed, unclaimed, balance_includes_deposit);
    ||| pool_value_spec(unstaked, deployed, unclaimed) > u128::MAX
    ||| pb < 0
    ||| (v.total_shares != 0 && amount * v.total_shares > u128::MAX)
    ||| v.total_shares + shares_minted_spec(amount, v.total_shares as int, pb) > u128::MAX
    ||| unclaimed * v.fee_bps > u128::MAX
}

/// When some intermediate of the withdrawal math exceeds 128 bits.
pub open spec fn withdraw_overflows(
    v: Vault,
    shares_burned: int,
    unstaked: int,
    deployed: int,
    unclaimed: int,
) -> bool {
    ||| pool_value_spec(unstaked, deployed, unclaimed) > u128::MAX
    ||| (shares_burned != 0 && pool_value_spec(unstaked, deployed, unclaimed) * shares_burned
        > u128::MAX)
    ||| unclaimed * v.fee_bps > u128::MAX
}

impl Vault {
    /// Creates the vault: no shares outstanding, breaker clear.
    pub fn new(admin: String, fee_bps: u16) -> (v: Vault)
        ensures
            v.total_shares == 0,
            v.admin == admin,
            v.fee_bps == fee_bps,
            !v.stopped,
    {
        Vault { total_shares: 0, admin, fee_bps, stopped: false }
    }

    /// Prices a deposit against the pool value before it and mints shares
    /// to the depositor: the full amount when no shares exist yet, else
    /// `amount * total_shares / pool_value_before`, floored.  A fee on the
    /// observed unclaimed yield is skimmed to the admin; the deposited
    /// amount itself is forwarded to the yield source.  On any error
    /// nothing changes.
    ///
    /// The caller must not price against an empty pool while shares are
    /// outstanding: that would divide by zero.
    pub fn deposit(
        &mut self,
        amount: u128,
        unstaked_balance: u128,
        balance_deployed_elsewhere: u128,
        unclaimed_yield: u128,
        balance_includes_deposit: bool,
    ) -> (r: Result<DepositOutcome, Error>)
        requires
            old(self).total_shares != 0 ==> deposit_pool_before(
                amount as int,
                unstaked_balance as int,
                balance_deployed_elsewhere as int,
                unclaimed_yield as int,
                balance_includes_deposit,
            ) != 0,
        ensures
            old(self).stopped ==> r == Err::<DepositOutcome, Error>(Error::ContractStopped)
                && *final(self) == *old(self),
            !old(self).stopped ==> ({
                let pb = deposit_pool_before(
                    amount as int,
                    unstaked_balance as int,
                    balance_deployed_elsewhere as int,
                    unclaimed_yield as int,
                    balance_includes_deposit,
                );
                if deposit_overflows(
                    *old(self),
                    amount as int,
                    unstaked_balance as int,
                    balance_deployed_elsewhere as int,
                    unclaimed_yield as int,
                    balance_includes_deposit,
                ) {
                    &&& r == Err::<DepositOutcome, Error>(Error::ArithmeticOverflow)
                    &&& *final(self) == *old(self)
                } else {
                    &&& r is Ok
                    &&& r->Ok_0.shares_minted == shares_minted_spec(
                        amount as int,
                        old(self).total_shares as int,
                        pb,
                    )
                    &&& r->Ok_0.fee == fee_spec(unclaimed_yield as int, old(self).fee_bps)
                    &&& final(self).total_shares == old(self).total_shares
                        + r->Ok_0.shares_minted
                    &&& final(self).admin == old(self).admin
                    &&& final(self).fee_bps == old(self).fee_bps
                    &&& final(self).stopped == old(self).stopped
                }
            }),
    {
        if self.stopped {
            return Err(Error::ContractStopped);
        }
        let partial = match unstaked_balance.checked_add(balance_deployed_elsewhere) {
            Some(v) => v,
            None => {
                return Err(Error::ArithmeticOverflow);
            },
        };
        let pool_sum = match partial.checked_add(unclaimed_yield) {
            Some(v) => v,
            None => {
                return Err(Error::ArithmeticOverflow);
            },
        };
        let pool_before = if balance_includes_deposit {
            if pool_sum < amount {
                return Err(Error::ArithmeticOverflow);
            }
            pool_sum - amount
        } else {
            pool_sum
        };
        let shares_minted = if self.total_shares == 0 {
            amount
        } else {
            let product = match amount.checked_mul(self.total_shares) {
                Some(v) => v,
                None => {
                    return Err(Error::ArithmeticOverflow);
                },
            };
            product / pool_before
        };
        let new_total = match self.total_shares.checked_add(shares_minted) {
            Some(v) => v,
            None => {
                return Err(Error::ArithmeticOverflow);
            },
        };
        let fee_product = match unclaimed_yield.checked_mul(self.fee_bps as u128) {
            Some(v) => v,
            None => {
                return Err(Error::ArithmeticOverflow);
            },
        };
        let fee = fee_product / 10000;
        self.total_shares = new_total;
        Ok(DepositOutcome { shares_minted, fee })
    }

    /// Burns `shares_burned` of the withdrawer's shares for their
    /// proportional slice of the pool, priced over the shares outstanding
    /// before the burn.  A withdrawal can never claim more than what is
    /// recoverable: the amount owed is clamped to the balance deployed
    /// elsewhere, and the shortfall is simply not paid.  The same fee as on
    /// deposit is skimmed to the admin.  On any error nothing changes.
    pub fn withdraw(
        &mut self,
        shares_burned: u128,
        unstaked_balance: u128,
        balance_deployed_elsewhere: u128,
        unclaimed_yield: u128,
    ) -> (r: Result<WithdrawOutcome, Error>)
        ensures
            old(self).stopped ==> r == Err::<WithdrawOutcome, Error>(Error::ContractStopped)
                && *final(self) == *old(self),
            !old(self).stopped && shares_burned > old(self).total_shares ==> r == Err::<
                WithdrawOutcome,
                Error,
            >(Error::InsufficientBalance) && *final(self) == *old(self),
            !old(self).stopped && shares_burned <= old(self).total_shares ==> ({
                let pool = pool_value_spec(
                    unstaked_balance as int,
                    balance_deployed_elsewhere as int,
                    unclaimed_yield as int,
                );
                let raw = amount_owed_raw_spec(
                    pool,
                    shares_burned as int,
                    old(self).total_shares as int,
                );
                if withdraw_overflows(
                    *old(self),
                    shares_burned as int,
                    unstaked_balance as int,
                    balance_deployed_elsewhere as int,
                    unclaimed_yield as int,
                ) {
                    &&& r == Err::<WithdrawOutcome, Error>(Error::ArithmeticOverflow)
                    &&& *final(self) == *old(self)
                } else {
                    &&& r is Ok
                    &&& r->Ok_0.amount_owed == if raw > balance_deployed_elsewhere {
                        balance_deployed_elsewhere as int
                    } else {
                        raw
                    }
                    &&& r->Ok_0.fee == fee_spec(unclaimed_yield as int, old(self).fee_bps)
                    &&& final(self).total_shares == old(self).total_shares - shares_burned
                    &&& final(self).admin == old(self).admin
                    &&& final(self).fee_bps == old(self).fee_bps
                    &&& final(self).stopped == old(self).stopped
                }
            }),
    {
        if self.stopped {
            return Err(Error::ContractStopped);
        }
        if shares_burned > self.total_shares {
            return Err(Error::InsufficientBalance);
        }
        let partial = match unstaked_balance.checked_add(balance_deployed_elsewhere) {
            Some(v) => v,
            None => {
                return Err(Error::ArithmeticOverflow);
            },
        };
        let pool = match partial.checked_add(unclaimed_yield) {
            Some(v) => v,
            None => {
                return Err(Error::ArithmeticOverflow);
            },
        };
        let raw = if shares_burned == 0 {
            0
        } else {
            let product = match pool.checked_mul(shares_burned) {
                Some(v) => v,
                None => {
                    return Err(Error::ArithmeticOverflow);
                },
            };
            product / self.total_shares
        };
        let fee_product = match unclaimed_yield.checked_mul(self.fee_bps as u128) {
            Some(v) => v,
            None => {
                return Err(Error::ArithmeticOverflow);
            },
        };
        let fee = fee_product / 10000;
        let amount_owed = if raw > balance_deployed_elsewhere {
            balance_deployed_elsewhere
        } else {
            raw
        };
        self.total_shares = self.total_shares - shares_burned;
        Ok(WithdrawOutcome { amount_owed, fee })
    }

    /// Replaces the admin identity.  Admin-only.
    pub fn change_admin(&mut self, caller: &String, new_admin: String) -> (r: Result<(), Error>)
        ensures
            old(self).stopped ==> r == Err::<(), Error>(Error::ContractStopped) && *final(self)
                == *old(self),
            !old(self).stopped && caller@ != old(self).admin@ ==> r == Err::<(), Error>(
                Error::Unauthorized,
            ) && *final(self) == *old(self),
            !old(self).stopped && caller@ == old(self).admin@ ==> r == Ok::<(), Error>(())
                && final(self).admin == new_admin && final(self).total_shares == old(self).total_shares && final(self).fee_bps == old(self).fee_bps && final(self).stopped
                == old(self).stopped,
    {
        if self.stopped {
            return Err(Error::ContractStopped);
        }
        if !(*caller == self.admin) {
            return Err(Error::Unauthorized);
        }
        self.admin = new_admin;
        Ok(())
    }

    /// Sets the circuit breaker.  Admin-only; rejected when already set.
    pub fn stop(&mut self, caller: &String) -> (r: Result<(), Error>)
        ensures
            old(self).stopped ==> r == Err::<(), Error>(Error::ContractStopped) && *final(self)
                == *old(self),
            !old(self).stopped && caller@ != old(self).admin@ ==> r == Err::<(), Error>(
                Error::Unauthorized,
            ) && *final(self) == *old(self),
            !old(self).stopped && caller@ == old(self).admin@ ==> r == Ok::<(), Error>(())
                && final(self).stopped && final(self).admin == old(self).admin && final(self).total_shares == old(self).total_shares && final(self).fee_bps == old(self).fee_bps,
    {
        if self.stopped {
            return Err(Error::ContractStopped);
        }
        if !(*caller == self.admin) {
            return Err(Error::Unauthorized);
        }
        self.stopped = true;
        Ok(())
    }

    /// Clears the circuit breaker.  Admin-only: the one operation a stopped
    /// vault accepts.
    pub fn resume(&mut self, caller: &String) -> (r: Result<(), Error>)
        ensures
            caller@ != old(self).admin@ ==> r == Err::<(), Error>(Error::Unauthorized) && *final(self) == *old(self),
            caller@ == old(self).admin@ ==> r == Ok::<(), Error>(()) && !final(self).stopped
                && final(self).admin == old(self).admin && final(self).total_shares == old(self).total_shares && final(self).fee_bps == old(self).fee_bps,
    {
        if !(*caller == self.admin) {
            return Err(Error::Unauthorized);
        }
        self.stopped = false;
        Ok(())
    }
}

} // verus!
