//! Tests of the accrual engine: emission over block ranges and pro-rata
//! receiver rewards.

use buttcoin_distributor::accrual::{emitted, receiver_reward};
use buttcoin_distributor::error::Error;
use buttcoin_distributor::state::{sort_schedule, ReceivableContractSettings, ScheduleUnit};

fn unit(end_block: u64, release_per_block: u128) -> ScheduleUnit {
    ScheduleUnit {
        end_block,
        release_per_block,
    }
}

#[test]
fn test_emitted_single_segment() {
    let schedule = vec![unit(1000, 4000)];
    assert_eq!(emitted(0, 500, &schedule), Ok(2_000_000));
    assert_eq!(emitted(0, 1000, &schedule), Ok(4_000_000));
}

#[test]
fn test_emitted_empty_range_is_zero() {
    let schedule = vec![unit(1000, 4000), unit(2000, 7)];
    for b in [0u64, 1, 500, 1000, 5000] {
        assert_eq!(emitted(b, b, &schedule), Ok(0));
    }
    assert_eq!(emitted(700, 200, &schedule), Ok(0));
}

#[test]
fn test_emitted_multi_segment() {
    let schedule = vec![unit(1000, 3000), unit(3000, 6000)];
    // 1000 blocks at 3000, then 1000 blocks at 6000
    assert_eq!(emitted(0, 2000, &schedule), Ok(3_000_000 + 6_000_000));
    // starting inside the second segment
    assert_eq!(emitted(1500, 2000, &schedule), Ok(500 * 6000));
}

#[test]
fn test_emitted_tail_after_schedule_is_zero() {
    let schedule = vec![unit(1000, 3000)];
    assert_eq!(emitted(1000, 9999, &schedule), Ok(0));
    assert_eq!(emitted(900, 1100, &schedule), Ok(100 * 3000));
}

#[test]
fn test_emitted_empty_schedule() {
    let schedule: Vec<ScheduleUnit> = vec![];
    assert_eq!(emitted(0, 1_000_000, &schedule), Ok(0));
}

#[test]
fn test_emitted_overflow_is_reported() {
    let schedule = vec![unit(10, u128::MAX)];
    assert_eq!(emitted(0, 2, &schedule), Err(Error::ArithmeticOverflow));
    assert_eq!(emitted(0, 1, &schedule), Ok(u128::MAX));
}

#[test]
fn test_receiver_reward_full_share() {
    // schedule [{end_block: 1000, rate: 4000}], weight 100 of 100, settled at 0
    let schedule = vec![unit(1000, 4000)];
    let receiver = ReceivableContractSettings {
        weight: 100,
        last_update_block: 0,
    };
    assert_eq!(receiver_reward(500, 100, &schedule, &receiver), Ok(2_000_000));
}

#[test]
fn test_receiver_reward_zero_total_weight() {
    let schedule = vec![unit(1000, 4000)];
    let receiver = ReceivableContractSettings {
        weight: 0,
        last_update_block: 0,
    };
    assert_eq!(receiver_reward(500, 0, &schedule, &receiver), Ok(0));
}

#[test]
fn test_receiver_reward_nothing_elapsed() {
    let schedule = vec![unit(1000, 4000)];
    let receiver = ReceivableContractSettings {
        weight: 100,
        last_update_block: 500,
    };
    assert_eq!(receiver_reward(500, 100, &schedule, &receiver), Ok(0));
    assert_eq!(receiver_reward(400, 100, &schedule, &receiver), Ok(0));
}

#[test]
fn test_receiver_reward_floors_quotient() {
    // one block at rate 3, half the weight: floor(3 * 1 / 2) == 1
    let schedule = vec![unit(10, 3)];
    let receiver = ReceivableContractSettings {
        weight: 1,
        last_update_block: 0,
    };
    assert_eq!(receiver_reward(1, 2, &schedule, &receiver), Ok(1));
}

#[test]
fn test_split_settlement_never_pays_more() {
    // settling at 1 and then at 2 drops each interval's remainder; the sum
    // stays at or below the one-shot settlement over (0, 2]
    let schedule = vec![unit(10, 3)];
    let at_0 = ReceivableContractSettings {
        weight: 1,
        last_update_block: 0,
    };
    let at_1 = ReceivableContractSettings {
        weight: 1,
        last_update_block: 1,
    };
    let split = receiver_reward(1, 2, &schedule, &at_0).unwrap()
        + receiver_reward(2, 2, &schedule, &at_1).unwrap();
    let direct = receiver_reward(2, 2, &schedule, &at_0).unwrap();
    assert_eq!(split, 2);
    assert_eq!(direct, 3);
    assert!(split <= direct);
}

#[test]
fn test_split_settlement_exact_with_full_weight() {
    let schedule = vec![unit(10, 3)];
    let at_0 = ReceivableContractSettings {
        weight: 2,
        last_update_block: 0,
    };
    let at_1 = ReceivableContractSettings {
        weight: 2,
        last_update_block: 1,
    };
    let split = receiver_reward(1, 2, &schedule, &at_0).unwrap()
        + receiver_reward(2, 2, &schedule, &at_1).unwrap();
    let direct = receiver_reward(2, 2, &schedule, &at_0).unwrap();
    assert_eq!(split, direct);
    assert_eq!(direct, 6);
}

#[test]
fn test_receiver_reward_is_idempotent() {
    let schedule = vec![unit(1000, 4000)];
    let receiver = ReceivableContractSettings {
        weight: 40,
        last_update_block: 100,
    };
    let first = receiver_reward(700, 120, &schedule, &receiver);
    let second = receiver_reward(700, 120, &schedule, &receiver);
    assert_eq!(first, second);
    assert_eq!(first, Ok(600 * 4000 * 40 / 120));
}

#[test]
fn test_sort_schedule_orders_by_end_block() {
    let mut schedule = vec![unit(3000, 6000), unit(1000, 3000), unit(2000, 1)];
    sort_schedule(&mut schedule);
    assert_eq!(
        schedule,
        vec![unit(1000, 3000), unit(2000, 1), unit(3000, 6000)]
    );
}

#[test]
fn test_sort_schedule_is_stable_on_equal_end_blocks() {
    // the sort is stable: units sharing an end block keep their relative
    // order, and the earlier one decides the rate in force up to that block
    let mut schedule = vec![unit(5, 1), unit(5, 2), unit(1, 9), unit(5, 3)];
    sort_schedule(&mut schedule);
    assert_eq!(
        schedule,
        vec![unit(1, 9), unit(5, 1), unit(5, 2), unit(5, 3)]
    );
    assert_eq!(emitted(1, 5, &schedule), Ok(4 * 1));
}
