//! The distributor controller: weight changes, schedule changes and claims,
//! orchestrated over the registry and the accrual engine.
//!
//! Every operation either commits in full or returns an error and leaves the
//! whole state untouched.  The running `total_weight` always equals the sum
//! of the stored receiver weights.

use vstd::prelude::*;

use crate::accrual::{receiver_reward, receiver_reward_spec, reward_overflows, reward_result_spec};
use crate::error::Error;
use crate::registry::{
    find_receiver, lemma_map_at, lemma_map_domain, lemma_push_entry, lemma_update_entry,
    receivers_map, sum_weights, unique_addresses, ReceiverEntry,
};
use crate::state::{
    schedule_sorted, sort_schedule, units_ending_at, ReceivableContractSettings, ScheduleUnit,
    SecretContract, State, WeightInfo,
};

verus! {

/// One outbound payout instruction: send `amount` reward tokens to `to`.
/// An opaque hook payload, when present, is re-emitted with the transfer so
/// the recipient can chain a follow-up action; the library never inspects it.
#[derive(Clone, Debug, PartialEq)]
pub struct Payout {
    pub to: String,
    pub amount: u128,
    pub hook: Option<Vec<u8>>,
}

/// The weighted distributor contract: its stored configuration, the
/// receiver registry, and the circuit breaker.
#[derive(Debug)]
pub struct Distributor {
    pub state: State,
    pub receivers: Vec<ReceiverEntry>,
    pub stopped: bool,
}

/// The settings under which a receiver is settled: what is stored for it,
/// or — for a receiver referenced for the first time — weight zero as of the
/// current block.
pub open spec fn stored_or_default(
    m: Map<Seq<char>, ReceivableContractSettings>,
    a: Seq<char>,
    current_block: u64,
) -> ReceivableContractSettings {
    if m.contains_key(a) {
        m[a]
    } else {
        ReceivableContractSettings { weight: 0, last_update_block: current_block }
    }
}

/// What one run of `set_weights` does, computed over the registry map: the
/// updates are applied in list order, each receiver is settled under the
/// weight in force before its update, and the weight sums are accumulated
/// across the batch.
pub ghost struct WeightsOutcome {
    /// The registry after the batch.
    pub receivers: Map<Seq<char>, ReceivableContractSettings>,
    /// The payout instructions, in batch order: address and amount.
    pub payouts: Seq<(Seq<char>, u128)>,
    /// The sum of the settled receivers' previous weights.
    pub sum_old: int,
    /// The sum of the weights just assigned.
    pub sum_new: int,
    /// Whether some settlement overflowed 128-bit arithmetic.
    pub overflow: bool,
}

/// Applies a batch of weight updates, in order, to the registry map.
/// Each step settles the touched receiver under its previous weight (a
/// payout is recorded only when that weight is positive) and then stores
/// the new weight with `last_update_block = current_block`.
pub open spec fn weights_outcome(
    m: Map<Seq<char>, ReceivableContractSettings>,
    total_weight: int,
    s: Seq<ScheduleUnit>,
    current_block: u64,
    updates: Seq<WeightInfo>,
) -> WeightsOutcome
    decreases updates.len(),
{
    if updates.len() == 0 {
        WeightsOutcome {
            receivers: m,
            payouts: Seq::empty(),
            sum_old: 0,
            sum_new: 0,
            overflow: false,
        }
    } else {
        let prev = weights_outcome(m, total_weight, s, current_block, updates.drop_last());
        let u = updates.last();
        let st = stored_or_default(prev.receivers, u.address@, current_block);
        WeightsOutcome {
            receivers: prev.receivers.insert(
                u.address@,
                ReceivableContractSettings { weight: u.weight, last_update_block: current_block },
            ),
            payouts: if st.weight > 0 {
                prev.payouts.push(
                    (
                        u.address@,
                        receiver_reward_spec(current_block as int, total_weight, s, st) as u128,
                    ),
                )
            } else {
                prev.payouts
            },
            sum_old: prev.sum_old + st.weight,
            sum_new: prev.sum_new + u.weight,
            overflow: prev.overflow || (st.weight > 0 && reward_overflows(
                current_block as int,
                total_weight,
                s,
                st,
            )),
        }
    }
}

/// The returned payout list renders the modelled one: same order, same
/// addresses, same amounts, and no hook payloads.
pub open spec fn payouts_match(ps: Seq<Payout>, model: Seq<(Seq<char>, u128)>) -> bool {
    &&& ps.len() == model.len()
    &&& forall|i: int|
        0 <= i < ps.len() ==> (#[trigger] ps[i]).to@ == model[i].0 && ps[i].amount == model[i].1
            && ps[i].hook is None
}

/// If some prefix of the batch overflows, the whole batch does.
proof fn lemma_weights_outcome_overflow_monotone(
    m: Map<Seq<char>, ReceivableContractSettings>,
    total_weight: int,
    s: Seq<ScheduleUnit>,
    current_block: u64,
    updates: Seq<WeightInfo>,
    k: int,
)
    requires
        0 <= k <= updates.len(),
        weights_outcome(m, total_weight, s, current_block, updates.take(k)).overflow,
    ensures
        weights_outcome(m, total_weight, s, current_block, updates).overflow,
    decreases updates.len(),
{
    if k < updates.len() {
        assert(updates.drop_last().take(k) =~= updates.take(k));
        lemma_weights_outcome_overflow_monotone(
            m,
            total_weight,
            s,
            current_block,
            updates.drop_last(),
            k,
        );
    } else {
        assert(updates.take(k) =~= updates);
    }
}

/// An exact working copy of the registry entries.
fn clone_entries(v: &Vec<ReceiverEntry>) -> (r: Vec<ReceiverEntry>)
    ensures
        r@ == v@,
{
    let mut r: Vec<ReceiverEntry> = Vec::new();
    let mut i: usize = 0;
    while i < v.len()
        invariant
            i <= v@.len(),
            r@ == v@.subrange(0, i as int),
        decreases v@.len() - i,
    {
        r.push(ReceiverEntry { address: v[i].address.clone(), settings: v[i].settings });
        proof {
            assert(r@ =~= v@.subrange(0, i as int + 1));
        }
        i = i + 1;
    }
    proof {
        assert(v@.subrange(0, v@.len() as int) =~= v@);
    }
    r
}

impl Distributor {
    /// Well-formedness: receiver addresses are pairwise distinct, the stored
    /// total weight is exactly the sum of all receiver weights, and the
    /// schedule is sorted.  Every operation preserves this, so across any
    /// sequence of calls `total_weight` equals the sum of the current
    /// weights.
    pub open spec fn wf(self) -> bool {
        &&& unique_addresses(self.receivers@)
        &&& self.state.total_weight == sum_weights(self.receivers@)
        &&& schedule_sorted(self.state.release_schedule@)
    }

    /// The registry as a map from receiver address to settings.
    pub open spec fn receivers_view(self) -> Map<Seq<char>, ReceivableContractSettings> {
        receivers_map(self.receivers@)
    }

    /// True when everything but the receiver registry and the total weight
    /// is the same in both states.
    pub open spec fn same_except_registry(self, other: Distributor) -> bool {
        &&& self.state.admin == other.state.admin
        &&& self.state.buttcoin == other.state.buttcoin
        &&& self.state.release_schedule == other.state.release_schedule
        &&& self.state.viewing_key == other.state.viewing_key
        &&& self.stopped == other.stopped
    }

    /// Creates the distributor: no receivers, zero total weight, breaker
    /// clear, and the given schedule sorted into place.
    pub fn new(
        admin: String,
        buttcoin: SecretContract,
        viewing_key: String,
        release_schedule: Vec<ScheduleUnit>,
    ) -> (d: Distributor)
        ensures
            d.wf(),
            d.state.admin == admin,
            d.state.buttcoin == buttcoin,
            d.state.viewing_key == viewing_key,
            d.state.total_weight == 0,
            d.receivers@.len() == 0,
            !d.stopped,
            d.state.release_schedule@.to_multiset() == release_schedule@.to_multiset(),
            forall|k: u64|
                #[trigger] units_ending_at(d.state.release_schedule@, k) == units_ending_at(
                    release_schedule@,
                    k,
                ),
    {
        let mut schedule = release_schedule;
        sort_schedule(&mut schedule);
        Distributor {
            state: State {
                admin,
                buttcoin,
                release_schedule: schedule,
                total_weight: 0,
                viewing_key,
            },
            receivers: Vec::new(),
            stopped: false,
        }
    }

    /// Replaces the emission schedule wholesale, sorted by `end_block` with
    /// units of equal end block kept in their given order.  Admin-only; no
    /// receiver is settled and the registry is untouched, so an unsettled
    /// interval spanning the swap is computed under the new curve.
    pub fn set_schedule(&mut self, caller: &String, new_schedule: Vec<ScheduleUnit>) -> (r: Result<
        (),
        Error,
    >)
        requires
            old(self).wf(),
        ensures
            final(self).wf(),
            old(self).stopped ==> r == Err::<(), Error>(Error::ContractStopped) && *final(self)
                == *old(self),
            !old(self).stopped && caller@ != old(self).state.admin@ ==> r == Err::<(), Error>(
                Error::Unauthorized,
            ) && *final(self) == *old(self),
            !old(self).stopped && caller@ == old(self).state.admin@ ==> {
                &&& r == Ok::<(), Error>(())
                &&& schedule_sorted(final(self).state.release_schedule@)
                &&& final(self).state.release_schedule@.to_multiset()
                    == new_schedule@.to_multiset()
                &&& forall|k: u64|
                    #[trigger] units_ending_at(final(self).state.release_schedule@, k)
                        == units_ending_at(new_schedule@, k)
                &&& final(self).receivers == old(self).receivers
                &&& final(self).state.total_weight == old(self).state.total_weight
                &&& final(self).state.admin == old(self).state.admin
                &&& final(self).state.buttcoin == old(self).state.buttcoin
                &&& final(self).state.viewing_key == old(self).state.viewing_key
                &&& final(self).stopped == old(self).stopped
            },
    {
        if self.stopped {
            return Err(Error::ContractStopped);
        }
        if !(*caller == self.state.admin) {
            return Err(Error::Unauthorized);
        }
        let mut schedule = new_schedule;
        sort_schedule(&mut schedule);
        self.state.release_schedule = schedule;
        Ok(())
    }

    /// Replaces the admin identity.  Admin-only.
    pub fn change_admin(&mut self, caller: &String, new_admin: String) -> (r: Result<(), Error>)
        requires
            old(self).wf(),
        ensures
            final(self).wf(),
            old(self).stopped ==> r == Err::<(), Error>(Error::ContractStopped) && *final(self)
                == *old(self),
            !old(self).stopped && caller@ != old(self).state.admin@ ==> r == Err::<(), Error>(
                Error::Unauthorized,
            ) && *final(self) == *old(self),
            !old(self).stopped && caller@ == old(self).state.admin@ ==> {
                &&& r == Ok::<(), Error>(())
                &&& final(self).state.admin == new_admin
                &&& final(self).receivers == old(self).receivers
                &&& final(self).state.total_weight == old(self).state.total_weight
                &&& final(self).state.release_schedule == old(self).state.release_schedule
                &&& final(self).state.buttcoin == old(self).state.buttcoin
                &&& final(self).state.viewing_key == old(self).state.viewing_key
                &&& final(self).stopped == old(self).stopped
            },
    {
        if self.stopped {
            return Err(Error::ContractStopped);
        }
        if !(*caller == self.state.admin) {
            return Err(Error::Unauthorized);
        }
        self.state.admin = new_admin;
        Ok(())
    }

    /// Sets the circuit breaker.  Admin-only; rejected when already set.
    pub fn stop(&mut self, caller: &String) -> (r: Result<(), Error>)
        requires
            old(self).wf(),
        ensures
            final(self).wf(),
            old(self).stopped ==> r == Err::<(), Error>(Error::ContractStopped) && *final(self)
                == *old(self),
            !old(self).stopped && caller@ != old(self).state.admin@ ==> r == Err::<(), Error>(
                Error::Unauthorized,
            ) && *final(self) == *old(self),
            !old(self).stopped && caller@ == old(self).state.admin@ ==> r == Ok::<(), Error>(())
                && final(self).stopped && final(self).state == old(self).state
                && final(self).receivers == old(self).receivers,
    {
        if self.stopped {
            return Err(Error::ContractStopped);
        }
        if !(*caller == self.state.admin) {
            return Err(Error::Unauthorized);
        }
        self.stopped = true;
        Ok(())
    }

    /// Clears the circuit breaker.  Admin-only: the one operation a stopped
    /// contract accepts.
    pub fn resume(&mut self, caller: &String) -> (r: Result<(), Error>)
        requires
            old(self).wf(),
        ensures
            final(self).wf(),
            caller@ != old(self).state.admin@ ==> r == Err::<(), Error>(Error::Unauthorized)
                && *final(self) == *old(self),
            caller@ == old(self).state.admin@ ==> r == Ok::<(), Error>(()) && !final(self).stopped
                && final(self).state == old(self).state
                && final(self).receivers == old(self).receivers,
    {
        if !(*caller == self.state.admin) {
            return Err(Error::Unauthorized);
        }
        self.stopped = false;
        Ok(())
    }

    /// Applies a batch of weight updates, in list order.  Admin-only.
    ///
    /// Each touched receiver is first settled under the weight that was in
    /// force during the elapsed interval — never the new one — earning a
    /// payout instruction when that weight was positive; then its new weight
    /// is stored with `last_update_block = current_block`.  The total weight
    /// is adjusted once for the whole batch.  On any error (a stopped
    /// contract, a non-admin caller, or an arithmetic overflow) nothing at
    /// all is changed.
    ///
    /// On success the registry still satisfies `wf`, so `total_weight`
    /// equals the sum of the receivers' current weights after any sequence
    /// of such calls.
    pub fn set_weights(
        &mut self,
        caller: &String,
        current_block: u64,
        updates: &Vec<WeightInfo>,
    ) -> (r: Result<Vec<Payout>, Error>)
        requires
            old(self).wf(),
        ensures
            final(self).wf(),
            old(self).stopped ==> r == Err::<Vec<Payout>, Error>(Error::ContractStopped)
                && *final(self) == *old(self),
            !old(self).stopped && caller@ != old(self).state.admin@ ==> r == Err::<
                Vec<Payout>,
                Error,
            >(Error::Unauthorized) && *final(self) == *old(self),
            !old(self).stopped && caller@ == old(self).state.admin@ ==> ({
                let o = weights_outcome(
                    old(self).receivers_view(),
                    old(self).state.total_weight as int,
                    old(self).state.release_schedule@,
                    current_block,
                    updates@,
                );
                let total = old(self).state.total_weight + o.sum_new - o.sum_old;
                if o.overflow || total > u64::MAX || total < 0 {
                    &&& r == Err::<Vec<Payout>, Error>(Error::ArithmeticOverflow)
                    &&& *final(self) == *old(self)
                } else {
                    &&& r is Ok
                    &&& payouts_match(r->Ok_0@, o.payouts)
                    &&& final(self).receivers_view() == o.receivers
                    &&& final(self).state.total_weight == total
                    &&& final(self).same_except_registry(*old(self))
                }
            }),
    {
        if self.stopped {
            return Err(Error::ContractStopped);
        }
        if !(*caller == self.state.admin) {
            return Err(Error::Unauthorized);
        }
        let ghost m0 = self.receivers_view();
        let ghost tw0 = self.state.total_weight as int;
        let ghost sched0 = self.state.release_schedule@;
        let mut entries = clone_entries(&self.receivers);
        let mut payouts: Vec<Payout> = Vec::new();
        let mut sum_old: u128 = 0;
        let mut sum_new: u128 = 0;
        let mut k: usize = 0;
        proof {
            assert(updates@.take(0) =~= Seq::<WeightInfo>::empty());
        }
        while k < updates.len()
            invariant
                k <= updates@.len(),
                *self == *old(self),
                old(self).wf(),
                !old(self).stopped,
                m0 == old(self).receivers_view(),
                tw0 == old(self).state.total_weight as int,
                sched0 == old(self).state.release_schedule@,
                caller@ == old(self).state.admin@,
                unique_addresses(entries@),
                ({
                    let o = weights_outcome(m0, tw0, sched0, current_block, updates@.take(k as int));
                    &&& !o.overflow
                    &&& receivers_map(entries@) == o.receivers
                    &&& o.sum_old == sum_old
                    &&& o.sum_new == sum_new
                    &&& payouts_match(payouts@, o.payouts)
                    &&& tw0 + o.sum_new - o.sum_old == sum_weights(entries@)
                }),
                sum_old <= k as int * (u64::MAX as int),
                sum_new <= k as int * (u64::MAX as int),
            decreases updates@.len() - k,
        {
            let ghost o_k = weights_outcome(m0, tw0, sched0, current_block, updates@.take(k as int));
            proof {
                assert(updates@.take(k as int + 1).drop_last() =~= updates@.take(k as int));
                assert(updates@.take(k as int + 1).last() == updates@[k as int]);
            }
            let u = &updates[k];
            let idx = find_receiver(&entries, &u.address);
            let old_settings = match idx {
                Some(i) => {
                    proof {
                        lemma_map_at(entries@, i as int);
                    }
                    entries[i].settings
                },
                None => {
                    proof {
                        lemma_map_domain(entries@, u.address@);
                    }
                    ReceivableContractSettings { weight: 0, last_update_block: current_block }
                },
            };
            if old_settings.weight > 0 {
                let amount = match receiver_reward(
                    current_block,
                    self.state.total_weight,
                    &self.state.release_schedule,
                    &old_settings,
                ) {
                    Ok(a) => a,
                    Err(e) => {
                        proof {
                            lemma_weights_outcome_overflow_monotone(
                                m0,
                                tw0,
                                sched0,
                                current_block,
                                updates@,
                                k as int + 1,
                            );
                        }
                        return Err(e);
                    },
                };
                payouts.push(Payout { to: u.address.clone(), amount, hook: None });
            }
            let new_settings = ReceivableContractSettings {
                weight: u.weight,
                last_update_block: current_block,
            };
            match idx {
                Some(i) => {
                    let entry = ReceiverEntry {
                        address: entries[i].address.clone(),
                        settings: new_settings,
                    };
                    proof {
                        lemma_update_entry(entries@, i as int, entry);
                    }
                    entries[i] = entry;
                },
                None => {
                    let entry = ReceiverEntry { address: u.address.clone(), settings: new_settings };
                    proof {
                        lemma_push_entry(entries@, entry);
                    }
                    entries.push(entry);
                },
            }
            sum_old = sum_old + old_settings.weight as u128;
            sum_new = sum_new + u.weight as u128;
            k = k + 1;
        }
        proof {
            assert(updates@.take(updates@.len() as int) =~= updates@);
            vstd::arithmetic::mul::lemma_mul_inequality(
                k as int,
                u64::MAX as int,
                u64::MAX as int,
            );
        }
        let total_wide = (self.state.total_weight as u128) + sum_new;
        if total_wide < sum_old {
            return Err(Error::ArithmeticOverflow);
        }
        let total = total_wide - sum_old;
        if total > u64::MAX as u128 {
            return Err(Error::ArithmeticOverflow);
        }
        self.receivers = entries;
        self.state.total_weight = total as u64;
        Ok(payouts)
    }

    /// Settles one receiver as of `current_block` without changing its
    /// weight: when its stored weight is positive, the accrued reward is
    /// computed under that weight and returned as a payout instruction to
    /// the receiver (the opaque hook is threaded through untouched), and its
    /// `last_update_block` advances to `current_block` if a block has
    /// elapsed — it never moves backward.  A receiver with weight zero is
    /// left as it is — its settlement block only advances when a payout
    /// occurs — and a receiver never seen before is recorded with weight
    /// zero as of this block.
    pub fn claim(&mut self, receiver: &String, current_block: u64, hook: Option<Vec<u8>>) -> (r:
        Result<Option<Payout>, Error>)
        requires
            old(self).wf(),
        ensures
            final(self).wf(),
            old(self).stopped ==> r == Err::<Option<Payout>, Error>(Error::ContractStopped)
                && *final(self) == *old(self),
            !old(self).stopped ==> ({
                let m0 = old(self).receivers_view();
                let st = stored_or_default(m0, receiver@, current_block);
                let tw = old(self).state.total_weight as int;
                let sched = old(self).state.release_schedule@;
                if st.weight > 0 {
                    if reward_overflows(current_block as int, tw, sched, st) {
                        &&& r == Err::<Option<Payout>, Error>(Error::ArithmeticOverflow)
                        &&& *final(self) == *old(self)
                    } else {
                        &&& r is Ok
                        &&& r->Ok_0 is Some
                        &&& r->Ok_0->Some_0.to@ == receiver@
                        &&& Ok::<u128, Error>(r->Ok_0->Some_0.amount) == reward_result_spec(
                            current_block as int,
                            tw,
                            sched,
                            st,
                        )
                        &&& r->Ok_0->Some_0.hook == hook
                        &&& final(self).receivers_view() == if current_block
                            > st.last_update_block {
                            m0.insert(
                                receiver@,
                                (ReceivableContractSettings {
                                    weight: st.weight,
                                    last_update_block: current_block,
                                }),
                            )
                        } else {
                            m0
                        }
                        &&& final(self).state.total_weight == old(self).state.total_weight
                        &&& final(self).same_except_registry(*old(self))
                    }
                } else {
                    &&& r == Ok::<Option<Payout>, Error>(None)
                    &&& final(self).receivers_view() == if m0.contains_key(receiver@) {
                        m0
                    } else {
                        m0.insert(receiver@, st)
                    }
                    &&& final(self).state.total_weight == old(self).state.total_weight
                    &&& final(self).same_except_registry(*old(self))
                }
            }),
    {
        if self.stopped {
            return Err(Error::ContractStopped);
        }
        match find_receiver(&self.receivers, receiver) {
            Some(i) => {
                proof {
                    lemma_map_at(self.receivers@, i as int);
                }
                let st = self.receivers[i].settings;
                if st.weight == 0 {
                    return Ok(None);
                }
                let amount = match receiver_reward(
                    current_block,
                    self.state.total_weight,
                    &self.state.release_schedule,
                    &st,
                ) {
                    Ok(a) => a,
                    Err(e) => {
                        return Err(e);
                    },
                };
                // the settlement block only moves forward: a claim as of an
                // already-settled block pays zero and changes nothing
                if current_block > st.last_update_block {
                    let addr = self.receivers[i].address.clone();
                    let entry = ReceiverEntry {
                        address: addr,
                        settings: ReceivableContractSettings {
                            weight: st.weight,
                            last_update_block: current_block,
                        },
                    };
                    proof {
                        lemma_update_entry(self.receivers@, i as int, entry);
                    }
                    self.receivers[i] = entry;
                }
                Ok(Some(Payout { to: receiver.clone(), amount, hook }))
            },
            None => {
                proof {
                    lemma_map_domain(self.receivers@, receiver@);
                }
                let entry = ReceiverEntry {
                    address: receiver.clone(),
                    settings: ReceivableContractSettings {
                        weight: 0,
                        last_update_block: current_block,
                    },
                };
                proof {
                    lemma_push_entry(self.receivers@, entry);
                }
                self.receivers.push(entry);
                Ok(None)
            },
        }
    }

    /// The stored configuration.
    pub fn get_config(&self) -> (r: &State)
        ensures
            r == self.state,
    {
        &self.state
    }

    /// The stored weight of a receiver; zero when it was never registered.
    pub fn get_weight(&self, receiver: &String) -> (r: u64)
        requires
            self.wf(),
        ensures
            r == if self.receivers_view().contains_key(receiver@) {
                self.receivers_view()[receiver@].weight as int
            } else {
                0
            },
    {
        match find_receiver(&self.receivers, receiver) {
            Some(i) => {
                proof {
                    lemma_map_at(self.receivers@, i as int);
                }
                self.receivers[i].settings.weight
            },
            None => {
                proof {
                    lemma_map_domain(self.receivers@, receiver@);
                }
                0
            },
        }
    }

    /// The reward the receiver would be owed if it were settled at
    /// `as_of_block`.  Read-only: no settlement state changes, so repeated
    /// queries at the same block return the same amount.
    pub fn get_pending(&self, receiver: &String, as_of_block: u64) -> (r: Result<u128, Error>)
        requires
            self.wf(),
        ensures
            r == reward_result_spec(
                as_of_block as int,
                self.state.total_weight as int,
                self.state.release_schedule@,
                stored_or_default(self.receivers_view(), receiver@, as_of_block),
            ),
    {
        let settings = match find_receiver(&self.receivers, receiver) {
            Some(i) => {
                proof {
                    lemma_map_at(self.receivers@, i as int);
                }
                self.receivers[i].settings
            },
            None => {
                proof {
                    lemma_map_domain(self.receivers@, receiver@);
                }
                ReceivableContractSettings { weight: 0, last_update_block: as_of_block }
            },
        };
        receiver_reward(
            as_of_block,
            self.state.total_weight,
            &self.state.release_schedule,
            &settings,
        )
    }
}

} // verus!
