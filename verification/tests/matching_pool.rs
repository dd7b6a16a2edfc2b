use agritrust::address::Address;
use agritrust::donor_reputation::{DonorReputationContract, DEFAULT_MIN_FUNDING_THRESHOLD};
use agritrust::matching_pool::{
    isqrt_fixed_point, MatchingError, MatchingPoolContract, FIXED_POINT_SCALE,
};

fn addr(n: u128) -> Address {
    Address { is_contract: false, key_high: 2, key_low: n }
}

#[test]
fn test_isqrt_fixed_point() {
    let input = 4 * FIXED_POINT_SCALE;
    let result = isqrt_fixed_point(input).unwrap();
    assert!((result - 2_000_000_000i128).abs() < FIXED_POINT_SCALE / 1000);

    let input = FIXED_POINT_SCALE;
    let result = isqrt_fixed_point(input).unwrap();
    assert!((result - 1_000_000_000i128).abs() < FIXED_POINT_SCALE / 1000);

    let result = isqrt_fixed_point(0).unwrap();
    assert_eq!(result, 0);
}

#[test]
fn isqrt_exact_values() {
    assert_eq!(isqrt_fixed_point(4 * FIXED_POINT_SCALE), Ok(2_000_000_000));
    assert_eq!(isqrt_fixed_point(FIXED_POINT_SCALE), Ok(1_000_000_000));
    assert_eq!(isqrt_fixed_point(1), Ok(1));
    assert_eq!(isqrt_fixed_point(2), Ok(1));
    assert_eq!(isqrt_fixed_point(3), Ok(1));
    assert_eq!(isqrt_fixed_point(4), Ok(2));
    assert_eq!(isqrt_fixed_point(15), Ok(3));
    assert_eq!(isqrt_fixed_point(24), Ok(4));
    assert_eq!(isqrt_fixed_point(25), Ok(5));
    assert_eq!(isqrt_fixed_point(99), Ok(9));
    assert_eq!(isqrt_fixed_point(i128::MAX), Ok(13_043_817_825_332_782_212));
    assert_eq!(isqrt_fixed_point(-1), Err(MatchingError::MathOverflow));
    assert_eq!(isqrt_fixed_point(i128::MIN), Err(MatchingError::MathOverflow));
}

fn pool_with_round(requires_sep12: bool) -> MatchingPoolContract {
    let mut pools = MatchingPoolContract::new();
    pools
        .initialize_pool(1, addr(100), addr(200), 1_000_000_000_000_000, 100, requires_sep12, 1, 1_000_000, 0)
        .unwrap();
    pools
}

#[test]
fn initialize_pool_validates_input() {
    let mut pools = MatchingPoolContract::new();
    assert_eq!(
        pools.initialize_pool(1, addr(100), addr(200), 0, 100, false, 1, 10, 0),
        Err(MatchingError::InvalidAmount)
    );
    assert_eq!(
        pools.initialize_pool(1, addr(100), addr(200), 10, 100, false, 0, 10, 0),
        Err(MatchingError::InvalidAmount)
    );
    assert_eq!(
        pools.initialize_pool(1, addr(100), addr(200), 10, u64::MAX, false, 1, 10, 5),
        Err(MatchingError::InvalidTimestamp)
    );
    assert_eq!(pools.get_pool(1), Err(MatchingError::PoolNotFound));
    pools.initialize_pool(1, addr(100), addr(200), 10, 100, false, 1, 10, 5).unwrap();
    let pool = pools.get_pool(1).unwrap();
    assert_eq!(pool.remaining_match_amount, 10);
    assert_eq!(pool.round_started_at, 5);
    assert_eq!(pool.round_ends_at, 105);
    assert!(pool.is_active);
    let round = pools.get_matching_round(1).unwrap();
    assert!(!round.is_finalized);
}

#[test]
fn donation_rules_are_enforced() {
    let reputation = DonorReputationContract::new();
    let mut pools = pool_with_round(true);
    let donor = addr(1);
    assert_eq!(pools.donate(&reputation, 9, 10, donor, 5, 0), Err(MatchingError::PoolNotFound));
    assert_eq!(pools.donate(&reputation, 1, 10, donor, 5, 101), Err(MatchingError::RoundNotActive));
    assert_eq!(pools.donate(&reputation, 1, 10, donor, 0, 0), Err(MatchingError::InvalidAmount));
    assert_eq!(
        pools.donate(&reputation, 1, 10, donor, 1_000_001, 0),
        Err(MatchingError::InvalidAmount)
    );
    assert_eq!(pools.donate(&reputation, 1, 10, donor, 5, 0), Err(MatchingError::Sep12NotVerified));
    assert!(!pools.is_sep12_verified(donor));
    pools.verify_sep12_identity(donor).unwrap();
    assert!(pools.is_sep12_verified(donor));
    let receipt = pools.donate(&reputation, 1, 10, donor, 5, 100).unwrap();
    assert_eq!(receipt.influenced_amount, 5);
    assert_eq!(receipt.influence_multiplier, FIXED_POINT_SCALE);
}

#[test]
fn donations_accumulate_weighted_by_reputation() {
    let mut reputation = DonorReputationContract::new();
    reputation.initialize(addr(1000)).unwrap();
    let trusted = addr(7);
    reputation.record_project_funded(trusted, 1, DEFAULT_MIN_FUNDING_THRESHOLD, 1, 0).unwrap();
    reputation.record_milestone_completed(1, 0, None, 0).unwrap();
    assert_eq!(reputation.calculate_influence(trusted), Ok(3 * FIXED_POINT_SCALE));

    let mut pools = pool_with_round(false);
    let plain = addr(8);
    pools.donate(&reputation, 1, 10, plain, 100, 1).unwrap();
    let receipt = pools.donate(&reputation, 1, 10, trusted, 100, 2).unwrap();
    assert_eq!(receipt.influenced_amount, 300);
    assert_eq!(receipt.influence_multiplier, 3 * FIXED_POINT_SCALE);
    pools.donate(&reputation, 1, 10, plain, 50, 3).unwrap();
    let c = pools.get_project_contributions(1, 10).unwrap();
    assert_eq!(c.total_contributions, 450);
    // Each donor counts once per project.
    assert_eq!(c.unique_donors, 2);
    assert_eq!(pools.get_project_contributions(1, 11), Err(MatchingError::ProjectNotFound));
}

#[test]
fn quadratic_matching_distributes_and_finalizes() {
    let reputation = DonorReputationContract::new();
    let mut pools = pool_with_round(false);
    pools.donate(&reputation, 1, 10, addr(1), 100, 10).unwrap();
    pools.donate(&reputation, 1, 20, addr(2), 400, 20).unwrap();
    let projects = vec![10u64, 20u64];
    assert_eq!(pools.calculate_matching(1, &projects, 100), Err(MatchingError::RoundNotActive));
    assert_eq!(
        pools.calculate_matching(1, &vec![10u64, 30u64], 101),
        Err(MatchingError::ProjectNotFound)
    );
    // A failed matching changes nothing.
    assert!(!pools.get_matching_round(1).unwrap().is_finalized);
    assert_eq!(pools.get_project_matched(1, 10), Err(MatchingError::ProjectNotFound));

    let distributed = pools.calculate_matching(1, &projects, 101).unwrap();
    assert_eq!(distributed, 172);
    assert_eq!(pools.get_project_matched(1, 10), Ok(57));
    assert_eq!(pools.get_project_matched(1, 20), Ok(115));
    let c = pools.get_project_contributions(1, 20).unwrap();
    assert_eq!(c.sqrt_sum_of_sqrt_donations, 20_000_000_000);
    assert_eq!(c.total_matched, 115);
    let pool = pools.get_pool(1).unwrap();
    assert_eq!(pool.remaining_match_amount, 1_000_000_000_000_000 - 172);
    let round = pools.get_matching_round(1).unwrap();
    assert!(round.is_finalized);
    assert_eq!(round.finalized_at, 101);
    assert_eq!(round.total_matched_distributed, 172);
    assert_eq!(round.project_count, 2);
    assert_eq!(
        pools.calculate_matching(1, &projects, 500),
        Err(MatchingError::RoundAlreadyFinalized)
    );

    assert_eq!(pools.distribute_matched_funds(1, 10), Ok(57));
    // Paid once: nothing is left to pay for the project.
    assert_eq!(pools.distribute_matched_funds(1, 10), Ok(0));
    // The matched amount itself stays readable.
    assert_eq!(pools.get_project_matched(1, 10), Ok(57));
    assert_eq!(pools.get_project_contributions(1, 10).unwrap().total_matched, 57);
    assert_eq!(pools.distribute_matched_funds(1, 99), Err(MatchingError::ProjectNotFound));
    assert_eq!(pools.distribute_matched_funds(2, 10), Err(MatchingError::PoolNotFound));
}

#[test]
fn matching_is_capped_by_remaining_pool() {
    let reputation = DonorReputationContract::new();
    let mut pools = MatchingPoolContract::new();
    pools.initialize_pool(3, addr(100), addr(200), 1, 10, false, 1, 1_000_000, 0).unwrap();
    pools.donate(&reputation, 3, 1, addr(1), 1_000_000, 0).unwrap();
    let distributed = pools.calculate_matching(3, &vec![1u64], 11).unwrap();
    assert!(distributed <= 1);
    assert_eq!(pools.get_pool(3).unwrap().remaining_match_amount, 1 - distributed);
}

#[test]
fn per_donor_maximum_covers_all_donations_to_a_project() {
    let reputation = DonorReputationContract::new();
    let mut pools = pool_with_round(false);
    let donor = addr(1);
    pools.donate(&reputation, 1, 10, donor, 600_000, 0).unwrap();
    // A second donation that would bring the total above the maximum is refused.
    assert_eq!(
        pools.donate(&reputation, 1, 10, donor, 500_000, 1),
        Err(MatchingError::DonationTooLarge)
    );
    assert_eq!(pools.get_project_contributions(1, 10).unwrap().total_contributions, 600_000);
    // Up to the maximum is accepted, and other projects have their own limit.
    pools.donate(&reputation, 1, 10, donor, 400_000, 2).unwrap();
    assert_eq!(
        pools.donate(&reputation, 1, 10, donor, 1, 3),
        Err(MatchingError::DonationTooLarge)
    );
    pools.donate(&reputation, 1, 11, donor, 1_000_000, 3).unwrap();
    assert_eq!(pools.get_project_contributions(1, 10).unwrap().total_contributions, 1_000_000);
}

#[test]
fn donation_checks_come_before_the_influence() {
    let mut reputation = DonorReputationContract::new();
    reputation.initialize(addr(1000)).unwrap();
    let donor = addr(7);
    reputation.record_project_funded(donor, 1, DEFAULT_MIN_FUNDING_THRESHOLD, 1, 0).unwrap();
    reputation.record_milestone_completed(1, 0, None, 0).unwrap();
    reputation.update_config(addr(1000), None, Some(i128::MAX), None, None).unwrap();
    assert!(!reputation.can_calculate_influence(donor));
    let pools = pool_with_round(false);
    // A donation that the pool refuses may be attempted: its error comes first.
    assert!(pools.can_donate(&reputation, 1, 10, donor, 0, 0));
    assert!(pools.can_donate(&reputation, 9, 10, donor, 5, 0));
    // One that passes the checks needs a computable influence.
    assert!(!pools.can_donate(&reputation, 1, 10, donor, 5, 0));
    assert!(pools.can_donate(&reputation, 1, 10, addr(8), 5, 0));
}

#[test]
fn donation_record_keeps_each_donation_amount() {
    let reputation = DonorReputationContract::new();
    let mut pools = pool_with_round(false);
    let donor = addr(1);
    pools.donate(&reputation, 1, 10, donor, 10, 4).unwrap();
    pools.donate(&reputation, 1, 10, donor, 10, 6).unwrap();
    let d = *pools.donations.get(&(1u64, 10u64, donor)).unwrap();
    assert_eq!(d.amount, 10);
    assert_eq!(d.donated_at, 6);
    assert_eq!(d.matched_amount, 0);
    assert_eq!(*pools.donor_totals.get(&(1u64, 10u64, donor)).unwrap(), 20);
}

#[test]
fn unverified_identity_is_reported_before_the_running_total() {
    let reputation = DonorReputationContract::new();
    let mut pools = pool_with_round(false);
    let donor = addr(1);
    pools.donate(&reputation, 1, 10, donor, 1_000_000, 0).unwrap();
    // The pool is set up again, now requiring SEP-12 identities.
    pools
        .initialize_pool(1, addr(100), addr(200), 1_000_000_000_000_000, 100, true, 1, 1_000_000, 0)
        .unwrap();
    assert_eq!(
        pools.donate(&reputation, 1, 10, donor, 1, 0),
        Err(MatchingError::Sep12NotVerified)
    );
    pools.verify_sep12_identity(donor).unwrap();
    assert_eq!(
        pools.donate(&reputation, 1, 10, donor, 1, 0),
        Err(MatchingError::DonationTooLarge)
    );
}
