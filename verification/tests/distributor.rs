//! Tests of the weighted distributor controller: batched weight updates,
//! schedule replacement, claims and the circuit breaker.

use buttcoin_distributor::distributor::Distributor;
use buttcoin_distributor::error::Error;
use buttcoin_distributor::state::{ScheduleUnit, SecretContract, WeightInfo};

fn admin_address() -> String {
    "admin".to_string()
}

fn mock_token() -> SecretContract {
    SecretContract {
        address: "rewardtokenaddress".to_string(),
        contract_hash: "rewardtokenhash".to_string(),
    }
}

fn receiver_a() -> String {
    "receiveralpha".to_string()
}

fn receiver_b() -> String {
    "receiverbeta".to_string()
}

fn seg(end_block: u64, release_per_block: u128) -> ScheduleUnit {
    ScheduleUnit {
        end_block,
        release_per_block,
    }
}

fn weight_info(address: &str, weight: u64) -> WeightInfo {
    WeightInfo {
        address: address.to_string(),
        hash: "receiverhash".to_string(),
        weight,
    }
}

fn new_distributor(schedule: Vec<ScheduleUnit>) -> Distributor {
    Distributor::new(admin_address(), mock_token(), "viewing_key".to_string(), schedule)
}

#[test]
fn test_pending_after_schedule_replacement() {
    // a schedule is set, a receiver gets the whole weight at block 0, then
    // the schedule is replaced wholesale; pending one block later follows
    // the new curve: one block at rate 3000, full share
    let mut d = new_distributor(vec![seg(1000, 3000)]);
    let admin = admin_address();
    d.set_weights(&admin, 0, &vec![weight_info("receiveralpha", 123)])
        .unwrap();
    d.set_schedule(&admin, vec![seg(3000, 3000), seg(6000, 6000)])
        .unwrap();
    assert_eq!(d.get_pending(&receiver_a(), 1), Ok(3000));
}

#[test]
fn test_set_weights_rejects_non_admin() {
    let mut d = new_distributor(vec![seg(1000, 3000)]);
    let admin = admin_address();
    d.set_weights(&admin, 0, &vec![weight_info("receiveralpha", 5)])
        .unwrap();
    let weight_before = d.get_weight(&receiver_a());
    let stranger = "stranger".to_string();
    let r = d.set_weights(&stranger, 1, &vec![weight_info("receiveralpha", 99)]);
    assert_eq!(r, Err(Error::Unauthorized));
    assert_eq!(d.get_weight(&receiver_a()), weight_before);
    assert_eq!(d.get_config().total_weight, 5);
}

#[test]
fn test_set_schedule_rejects_non_admin() {
    let mut d = new_distributor(vec![seg(1000, 3000)]);
    let stranger = "stranger".to_string();
    let r = d.set_schedule(&stranger, vec![seg(9, 9)]);
    assert_eq!(r, Err(Error::Unauthorized));
    assert_eq!(d.get_config().release_schedule, vec![seg(1000, 3000)]);
}

#[test]
fn test_total_weight_is_sum_of_weights() {
    let mut d = new_distributor(vec![]);
    let admin = admin_address();
    d.set_weights(
        &admin,
        0,
        &vec![weight_info("receiveralpha", 2), weight_info("receiverbeta", 3)],
    )
    .unwrap();
    assert_eq!(d.get_config().total_weight, 5);
    d.set_weights(&admin, 1, &vec![weight_info("receiveralpha", 7)])
        .unwrap();
    assert_eq!(d.get_config().total_weight, 10);
    assert_eq!(d.get_weight(&receiver_a()), 7);
    assert_eq!(d.get_weight(&receiver_b()), 3);
}

#[test]
fn test_repeated_receiver_in_one_batch() {
    let mut d = new_distributor(vec![]);
    let admin = admin_address();
    d.set_weights(
        &admin,
        0,
        &vec![weight_info("receiveralpha", 7), weight_info("receiveralpha", 1)],
    )
    .unwrap();
    assert_eq!(d.get_weight(&receiver_a()), 1);
    assert_eq!(d.get_config().total_weight, 1);
}

#[test]
fn test_settlement_pays_under_old_weight() {
    // the reward for the elapsed interval is computed under the weight that
    // was in force, not the new one
    let mut d = new_distributor(vec![seg(1000, 100)]);
    let admin = admin_address();
    d.set_weights(&admin, 0, &vec![weight_info("receiveralpha", 100)])
        .unwrap();
    let payouts = d
        .set_weights(&admin, 10, &vec![weight_info("receiveralpha", 50)])
        .unwrap();
    assert_eq!(payouts.len(), 1);
    assert_eq!(payouts[0].to, receiver_a());
    assert_eq!(payouts[0].amount, 10 * 100);
    assert_eq!(d.get_weight(&receiver_a()), 50);
}

#[test]
fn test_first_registration_pays_nothing() {
    let mut d = new_distributor(vec![seg(1000, 100)]);
    let admin = admin_address();
    let payouts = d
        .set_weights(&admin, 5, &vec![weight_info("receiveralpha", 10)])
        .unwrap();
    assert!(payouts.is_empty());
}

#[test]
fn test_claim_pays_and_settles() {
    let mut d = new_distributor(vec![seg(1000, 100)]);
    let admin = admin_address();
    d.set_weights(&admin, 0, &vec![weight_info("receiveralpha", 100)])
        .unwrap();
    let payout = d.claim(&receiver_a(), 5, None).unwrap().unwrap();
    assert_eq!(payout.to, receiver_a());
    assert_eq!(payout.amount, 500);
    // the settlement advanced: an immediate second claim pays zero
    let payout = d.claim(&receiver_a(), 5, None).unwrap().unwrap();
    assert_eq!(payout.amount, 0);
}

#[test]
fn test_claim_threads_hook() {
    let mut d = new_distributor(vec![seg(1000, 100)]);
    let admin = admin_address();
    d.set_weights(&admin, 0, &vec![weight_info("receiveralpha", 100)])
        .unwrap();
    let payout = d
        .claim(&receiver_a(), 3, Some(vec![9u8, 8, 7]))
        .unwrap()
        .unwrap();
    assert_eq!(payout.hook, Some(vec![9u8, 8, 7]));
}

#[test]
fn test_claim_never_rewinds_settlement() {
    let mut d = new_distributor(vec![seg(1000, 100)]);
    let admin = admin_address();
    d.set_weights(&admin, 10, &vec![weight_info("receiveralpha", 100)])
        .unwrap();
    // a claim as of an earlier block pays zero and leaves the clock at 10
    let payout = d.claim(&receiver_a(), 5, None).unwrap().unwrap();
    assert_eq!(payout.amount, 0);
    assert_eq!(d.get_pending(&receiver_a(), 20), Ok(1000));
}

#[test]
fn test_consecutive_claims_sum_to_direct_settlement() {
    // full weight: claiming at 2, 5 and 9 pays in total exactly what one
    // claim at 9 would have paid
    let mut split = new_distributor(vec![seg(6, 10), seg(1000, 3)]);
    let mut direct = new_distributor(vec![seg(6, 10), seg(1000, 3)]);
    let admin = admin_address();
    split
        .set_weights(&admin, 0, &vec![weight_info("receiveralpha", 7)])
        .unwrap();
    direct
        .set_weights(&admin, 0, &vec![weight_info("receiveralpha", 7)])
        .unwrap();
    let mut paid: u128 = 0;
    for block in [2u64, 5, 9] {
        paid += split.claim(&receiver_a(), block, None).unwrap().unwrap().amount;
    }
    let one_shot = direct.claim(&receiver_a(), 9, None).unwrap().unwrap().amount;
    // (0,6] at 10 per block, (6,9] at 3 per block
    assert_eq!(one_shot, 60 + 9);
    assert_eq!(paid, one_shot);
}

#[test]
fn test_claim_by_unknown_receiver_pays_nothing() {
    let mut d = new_distributor(vec![seg(1000, 100)]);
    assert_eq!(d.claim(&receiver_a(), 5, None), Ok(None));
    assert_eq!(d.get_weight(&receiver_a()), 0);
}

#[test]
fn test_zero_weight_receiver_resumes_from_weight_grant() {
    // while its weight is zero a receiver's settlement block does not
    // advance by claiming; accrual resumes from the block the weight was
    // granted at, not from an older block
    let mut d = new_distributor(vec![seg(1000, 100)]);
    let admin = admin_address();
    d.set_weights(&admin, 0, &vec![weight_info("receiveralpha", 0)])
        .unwrap();
    assert_eq!(d.claim(&receiver_a(), 5, None), Ok(None));
    d.set_weights(&admin, 10, &vec![weight_info("receiveralpha", 100)])
        .unwrap();
    // rewards accrue only from block 10 on
    assert_eq!(d.get_pending(&receiver_a(), 15), Ok(500));
}

#[test]
fn test_set_weights_total_overflow_changes_nothing() {
    let mut d = new_distributor(vec![]);
    let admin = admin_address();
    d.set_weights(&admin, 0, &vec![weight_info("receiveralpha", u64::MAX)])
        .unwrap();
    let r = d.set_weights(&admin, 1, &vec![weight_info("receiverbeta", 1)]);
    assert_eq!(r, Err(Error::ArithmeticOverflow));
    assert_eq!(d.get_weight(&receiver_b()), 0);
    assert_eq!(d.get_config().total_weight, u64::MAX);
}

#[test]
fn test_set_weights_reward_overflow_changes_nothing() {
    let mut d = new_distributor(vec![seg(10, u128::MAX)]);
    let admin = admin_address();
    d.set_weights(&admin, 0, &vec![weight_info("receiveralpha", 1)])
        .unwrap();
    let r = d.set_weights(&admin, 3, &vec![weight_info("receiveralpha", 2)]);
    assert_eq!(r, Err(Error::ArithmeticOverflow));
    assert_eq!(d.get_weight(&receiver_a()), 1);
}

#[test]
fn test_stop_blocks_everything_but_resume() {
    let mut d = new_distributor(vec![seg(1000, 100)]);
    let admin = admin_address();
    d.set_weights(&admin, 0, &vec![weight_info("receiveralpha", 100)])
        .unwrap();
    d.stop(&admin).unwrap();
    assert_eq!(d.claim(&receiver_a(), 5, None), Err(Error::ContractStopped));
    assert_eq!(
        d.set_weights(&admin, 5, &vec![weight_info("receiveralpha", 1)]),
        Err(Error::ContractStopped)
    );
    assert_eq!(d.set_schedule(&admin, vec![]), Err(Error::ContractStopped));
    assert_eq!(d.stop(&admin), Err(Error::ContractStopped));
    d.resume(&admin).unwrap();
    assert!(d.claim(&receiver_a(), 5, None).is_ok());
}

#[test]
fn test_resume_rejects_non_admin() {
    let mut d = new_distributor(vec![]);
    let admin = admin_address();
    d.stop(&admin).unwrap();
    let stranger = "stranger".to_string();
    assert_eq!(d.resume(&stranger), Err(Error::Unauthorized));
    assert_eq!(d.resume(&admin), Ok(()));
}

#[test]
fn test_change_admin_hands_over_control() {
    let mut d = new_distributor(vec![]);
    let admin = admin_address();
    let next = "nextadmin".to_string();
    d.change_admin(&admin, next.clone()).unwrap();
    assert_eq!(
        d.set_weights(&admin, 0, &vec![weight_info("receiveralpha", 1)]),
        Err(Error::Unauthorized)
    );
    assert!(d.set_weights(&next, 0, &vec![weight_info("receiveralpha", 1)]).is_ok());
}

#[test]
fn test_schedule_is_sorted_on_replacement() {
    let mut d = new_distributor(vec![]);
    let admin = admin_address();
    d.set_schedule(&admin, vec![seg(3000, 6), seg(1000, 3)]).unwrap();
    assert_eq!(
        d.get_config().release_schedule,
        vec![seg(1000, 3), seg(3000, 6)]
    );
}
