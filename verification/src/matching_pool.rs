//! Quadratic-funding matching pools.
use crate::newton::{
    floor_sqrt, is_floor_sqrt, lemma_floor_sqrt, lemma_floor_sqrt_small, lemma_floor_sqrt_unique,
    lemma_step_bounds,
    newton_step,
};
use crate::address::Address;
use crate::compliance::flag_of;
use crate::donor_reputation::{
    trunc_div, DonorReputationContract, ReputationView, REPUTATION_SCALE,
};
use crate::table::Table;
use vstd::prelude::*;

verus! {

/// Fixed-point precision: 18 decimals for quadratic funding calculations.
pub const FIXED_POINT_SCALE: i128 = 1_000_000_000_000_000_000;

/// Basis points scale (100 = 1%).
pub const BASIS_POINTS: i128 = 10_000;

/// A matching pool and its donation round.
#[derive(Clone, Copy, Debug, PartialEq, Eq, Structural)]
pub struct MatchingPool {
    pub pool_id: u64,
    /// Admin with control over the pool.
    pub admin: Address,
    /// Token used for matching and donations.
    pub token: Address,
    /// Total amount available for matching.
    pub total_match_amount: i128,
    /// Amount still available for distribution.
    pub remaining_match_amount: i128,
    pub is_active: bool,
    pub round_started_at: u64,
    pub round_ends_at: u64,
    /// Whether donors need a verified SEP-12 identity.
    pub requires_sep12: bool,
    /// Minimum donation in token units.
    pub min_donation: i128,
    /// Maximum donation per donor per project.
    pub max_donation_per_donor: i128,
}

/// The latest donation of a donor to a project in a pool.
#[derive(Clone, Copy, Debug, PartialEq, Eq, Structural)]
pub struct Donation {
    pub pool_id: u64,
    pub project_id: u64,
    pub donor: Address,
    /// Amount donated, in token units.
    pub amount: i128,
    pub donated_at: u64,
    pub matched_amount: i128,
}

/// Contributions to one project in one pool.
#[derive(Clone, Copy, Debug, PartialEq, Eq, Structural)]
pub struct ProjectContribution {
    pub pool_id: u64,
    pub project_id: u64,
    /// Sum of the reputation-weighted donations.
    pub total_contributions: i128,
    /// Number of distinct donors.
    pub unique_donors: u32,
    /// Square root of the scaled contributions, as computed at matching time.
    pub sqrt_sum_of_sqrt_donations: i128,
    /// Matched amount of the project.
    pub total_matched: i128,
}

/// Status of a pool's matching round.
#[derive(Clone, Copy, Debug, PartialEq, Eq, Structural)]
pub struct MatchingRound {
    pub pool_id: u64,
    pub is_finalized: bool,
    pub finalized_at: u64,
    pub total_matched_distributed: i128,
    pub project_count: u32,
    pub donation_count: u32,
}

/// What a donation counted for: its weighted amount and the weight used.
#[derive(Clone, Copy, Debug, PartialEq, Eq, Structural)]
pub struct DonationReceipt {
    pub influenced_amount: i128,
    pub influence_multiplier: i128,
}

/// Errors of the matching pool.
#[derive(Clone, Copy, Debug, PartialEq, Eq, Structural)]
pub enum MatchingError {
    NotInitialized,
    NotAuthorized,
    PoolNotFound,
    PoolInactive,
    InvalidAmount,
    InsufficientMatchFunds,
    Sep12VerificationRequired,
    Sep12NotVerified,
    DonationTooSmall,
    DonationTooLarge,
    RoundNotActive,
    RoundAlreadyFinalized,
    ProjectNotFound,
    MathOverflow,
    InvalidTimestamp,
    UpdateAlreadyProcessed,
}

/// What `isqrt_fixed_point` returns: an error for negative input, otherwise
/// the integer square root.
pub open spec fn isqrt_result(n: int) -> Result<int, MatchingError> {
    if n < 0 {
        Err(MatchingError::MathOverflow)
    } else {
        Ok(floor_sqrt(n as nat) as int)
    }
}

/// Integer square root by Newton's method: starting above the root, the
/// estimate is improved until it no longer decreases. For every non-negative
/// input the result is the largest `r` with `r * r <= n`.
pub fn isqrt_fixed_point(n: i128) -> (res: Result<i128, MatchingError>)
    ensures
        match res {
            Ok(r) => isqrt_result(n as int) == Ok::<int, MatchingError>(r as int),
            Err(e) => isqrt_result(n as int) == Err::<int, MatchingError>(e),
        },
        n < 0 ==> res == Err::<i128, MatchingError>(MatchingError::MathOverflow),
        n >= 0 ==> (res matches Ok(r) && is_floor_sqrt(n as int, r as int)),
        res matches Ok(r) ==> 0 <= r < 0x10000000000000000,
{
    if n < 0 {
        return Err(MatchingError::MathOverflow);
    }
    proof {
        lemma_floor_sqrt(n as nat);
        lemma_floor_sqrt_small(n as int, floor_sqrt(n as nat) as int);
    }
    if n == 0 {
        return Ok(0);
    }
    let ghost s: int = floor_sqrt(n as nat) as int;
    assert(is_floor_sqrt(n as int, s));
    assert(s >= 1) by {
        if s == 0 {
            assert((s + 1) * (s + 1) == 1) by (nonlinear_arith)
                requires
                    s == 0,
            ;
        }
    }
    let mut x: i128 = if n / 2 >= 1 {
        n / 2
    } else {
        1
    };
    assert(x >= s) by {
        if n >= 4 {
            assert(s >= 2) by {
                if s <= 1 {
                    assert((s + 1) * (s + 1) <= 4) by (nonlinear_arith)
                        requires
                            0 <= s <= 1,
                    ;
                }
            }
            assert(2 * s <= s * s) by (nonlinear_arith)
                requires
                    s >= 2,
            ;
        } else {
            assert(s == 1) by {
                if s >= 2 {
                    assert(s * s >= 4) by (nonlinear_arith)
                        requires
                            s >= 2,
                    ;
                }
            }
        }
    }
    loop
        invariant
            n >= 1,
            is_floor_sqrt(n as int, s),
            1 <= s < 0x10000000000000000,
            s <= x <= 0x40000000000000000000000000000000,
        ensures
            x == s,
        decreases x,
    {
        proof {
            lemma_step_bounds(n as int, s, x as int);
        }
        let q = n / x;
        let y = (x + q) / 2;
        assert(y == newton_step(n as int, x as int));
        if y >= x {
            break;
        }
        x = y;
    }
    Ok(x)
}

/// The stored state of the matching pools, as maps.
#[verifier::ext_equal]
pub ghost struct MatchingView {
    pub pools: Map<u64, MatchingPool>,
    pub rounds: Map<u64, MatchingRound>,
    pub pool_donors: Map<u64, Seq<Address>>,
    pub pool_projects: Map<u64, Seq<u64>>,
    pub sep12_identities: Map<Address, bool>,
    pub donations: Map<(u64, u64, Address), Donation>,
    pub contributions: Map<(u64, u64), ProjectContribution>,
    pub matched: Map<(u64, u64), i128>,
    /// What each donor has given to each project of each pool.
    pub donor_totals: Map<(u64, u64, Address), i128>,
    /// Projects whose matched amount has been paid out.
    pub paid: Map<(u64, u64), bool>,
}

pub open spec fn in_i128(x: int) -> bool {
    i128::MIN <= x <= i128::MAX
}

/// The square root used for a project at matching time.
pub open spec fn project_sqrt(
    contributions: Map<(u64, u64), ProjectContribution>,
    pool_id: u64,
    project_id: u64,
) -> Result<int, MatchingError> {
    if !contributions.contains_key((pool_id, project_id)) {
        Err(MatchingError::ProjectNotFound)
    } else {
        let scaled = contributions[(pool_id, project_id)].total_contributions * FIXED_POINT_SCALE;
        if !in_i128(scaled) {
            Err(MatchingError::MathOverflow)
        } else {
            isqrt_result(scaled)
        }
    }
}

/// The square roots of the listed projects, or the first error met in list order.
pub open spec fn project_sqrts(
    contributions: Map<(u64, u64), ProjectContribution>,
    pool_id: u64,
    projects: Seq<u64>,
) -> Result<Seq<int>, MatchingError>
    decreases projects.len(),
{
    if projects.len() == 0 {
        Ok(Seq::empty())
    } else {
        match project_sqrts(contributions, pool_id, projects.drop_last()) {
            Err(e) => Err(e),
            Ok(v) => match project_sqrt(contributions, pool_id, projects.last()) {
                Err(e) => Err(e),
                Ok(x) => Ok(v.push(x)),
            },
        }
    }
}

/// The sum of `v`, failing if a running sum leaves `i128`.
pub open spec fn checked_sum(v: Seq<int>) -> Result<int, MatchingError>
    decreases v.len(),
{
    if v.len() == 0 {
        Ok(0)
    } else {
        match checked_sum(v.drop_last()) {
            Err(e) => Err(e),
            Ok(t) => if in_i128(t + v.last()) {
                Ok(t + v.last())
            } else {
                Err(MatchingError::MathOverflow)
            },
        }
    }
}

/// A project's matched amount: its share `sqrt / component` of the remaining pool.
pub open spec fn match_for(sqrt: int, remaining: i128, component: int) -> Result<int, MatchingError> {
    if component > 0 {
        let product = sqrt * remaining;
        if !in_i128(product) {
            Err(MatchingError::MathOverflow)
        } else {
            Ok(trunc_div(trunc_div(product, component), FIXED_POINT_SCALE as int))
        }
    } else {
        Ok(0)
    }
}

/// The matched amounts for the square roots `sqrts` and their checked total.
pub open spec fn match_amounts(sqrts: Seq<int>, remaining: i128, component: int) -> Result<
    (Seq<int>, int),
    MatchingError,
>
    decreases sqrts.len(),
{
    if sqrts.len() == 0 {
        Ok((Seq::empty(), 0))
    } else {
        match match_amounts(sqrts.drop_last(), remaining, component) {
            Err(e) => Err(e),
            Ok((amounts, total)) => match match_for(sqrts.last(), remaining, component) {
                Err(e) => Err(e),
                Ok(m) => if in_i128(total + m) {
                    Ok((amounts.push(m), total + m))
                } else {
                    Err(MatchingError::MathOverflow)
                },
            },
        }
    }
}

/// The contributions after writing the square roots and matched amounts of
/// the first `n` listed projects.
pub open spec fn commit_contributions(
    contributions: Map<(u64, u64), ProjectContribution>,
    pool_id: u64,
    projects: Seq<u64>,
    sqrts: Seq<int>,
    amounts: Seq<int>,
    n: int,
) -> Map<(u64, u64), ProjectContribution>
    decreases n,
{
    if n <= 0 {
        contributions
    } else {
        let before = commit_contributions(contributions, pool_id, projects, sqrts, amounts, n - 1);
        let key = (pool_id, projects[n - 1]);
        before.insert(
            key,
            ProjectContribution {
                sqrt_sum_of_sqrt_donations: sqrts[n - 1] as i128,
                total_matched: amounts[n - 1] as i128,
                ..before[key]
            },
        )
    }
}

/// The matched-amount entries after writing those of the first `n` listed projects.
pub open spec fn commit_matched(
    matched: Map<(u64, u64), i128>,
    pool_id: u64,
    projects: Seq<u64>,
    amounts: Seq<int>,
    n: int,
) -> Map<(u64, u64), i128>
    decreases n,
{
    if n <= 0 {
        matched
    } else {
        commit_matched(matched, pool_id, projects, amounts, n - 1).insert(
            (pool_id, projects[n - 1]),
            amounts[n - 1] as i128,
        )
    }
}

impl MatchingView {
    /// Whether `address` has a verified SEP-12 identity.
    pub open spec fn sep12_verified(self, address: Address) -> bool {
        flag_of(self.sep12_identities, address)
    }

    /// The state after `initialize_pool`, with its result.
    pub open spec fn initialize_pool_spec(
        self,
        pool_id: u64,
        admin: Address,
        token: Address,
        total_match_amount: i128,
        round_duration_secs: u64,
        requires_sep12: bool,
        min_donation: i128,
        max_donation_per_donor: i128,
        now: u64,
    ) -> (Self, Result<(), MatchingError>) {
        if total_match_amount <= 0 || min_donation <= 0 {
            (self, Err(MatchingError::InvalidAmount))
        } else if now + round_duration_secs > u64::MAX {
            (self, Err(MatchingError::InvalidTimestamp))
        } else {
            let pool = MatchingPool {
                pool_id,
                admin,
                token,
                total_match_amount,
                remaining_match_amount: total_match_amount,
                is_active: true,
                round_started_at: now,
                round_ends_at: (now + round_duration_secs) as u64,
                requires_sep12,
                min_donation,
                max_donation_per_donor,
            };
            let round = MatchingRound {
                pool_id,
                is_finalized: false,
                finalized_at: 0,
                total_matched_distributed: 0,
                project_count: 0,
                donation_count: 0,
            };
            (
                MatchingView {
                    pools: self.pools.insert(pool_id, pool),
                    rounds: self.rounds.insert(pool_id, round),
                    pool_donors: self.pool_donors.insert(pool_id, Seq::empty()),
                    pool_projects: self.pool_projects.insert(pool_id, Seq::empty()),
                    ..self
                },
                Ok(()),
            )
        }
    }

    /// Whether the project's matched amount has been paid out.
    pub open spec fn is_paid(self, pool_id: u64, project_id: u64) -> bool {
        self.paid.contains_key((pool_id, project_id)) && self.paid[(pool_id, project_id)]
    }

    /// What `donor` has given to the project in the pool so far.
    pub open spec fn donated_so_far(self, pool_id: u64, project_id: u64, donor: Address) -> int {
        if self.donor_totals.contains_key((pool_id, project_id, donor)) {
            self.donor_totals[(pool_id, project_id, donor)] as int
        } else {
            0
        }
    }

    /// The check of a donation against its pool, before any weighting: the
    /// donation and the donor's total to the project must stay within the
    /// pool's bounds.
    pub open spec fn donation_check(
        self,
        pool_id: u64,
        project_id: u64,
        donor: Address,
        amount: i128,
        now: u64,
    ) -> Result<(), MatchingError> {
        if !self.pools.contains_key(pool_id) {
            Err(MatchingError::PoolNotFound)
        } else {
            let pool = self.pools[pool_id];
            let total = self.donated_so_far(pool_id, project_id, donor) + amount;
            if !pool.is_active {
                Err(MatchingError::PoolInactive)
            } else if now > pool.round_ends_at {
                Err(MatchingError::RoundNotActive)
            } else if amount < pool.min_donation || amount > pool.max_donation_per_donor {
                Err(MatchingError::InvalidAmount)
            } else if pool.requires_sep12 && !self.sep12_verified(donor) {
                Err(MatchingError::Sep12NotVerified)
            } else if total > pool.max_donation_per_donor {
                Err(MatchingError::DonationTooLarge)
            } else if !in_i128(total) {
                Err(MatchingError::MathOverflow)
            } else {
                Ok(())
            }
        }
    }

    /// The contribution record of a project, or a fresh one.
    pub open spec fn contribution_or_new(self, pool_id: u64, project_id: u64) -> ProjectContribution {
        if self.contributions.contains_key((pool_id, project_id)) {
            self.contributions[(pool_id, project_id)]
        } else {
            ProjectContribution {
                pool_id,
                project_id,
                total_contributions: 0,
                unique_donors: 0,
                sqrt_sum_of_sqrt_donations: 0,
                total_matched: 0,
            }
        }
    }

    /// The donors of a pool.
    pub open spec fn donors_of(self, pool_id: u64) -> Seq<Address> {
        if self.pool_donors.contains_key(pool_id) {
            self.pool_donors[pool_id]
        } else {
            Seq::empty()
        }
    }

    /// The state after `donate`, with its result. The donor's influence
    /// multiplier weighs the donation (1x without a reputation); the donation
    /// is recorded, and the donor's running total to the project grows by it.
    pub open spec fn donate_spec(
        self,
        reputation: ReputationView,
        pool_id: u64,
        project_id: u64,
        donor: Address,
        amount: i128,
        now: u64,
    ) -> (Self, Result<DonationReceipt, MatchingError>) {
        match self.donation_check(pool_id, project_id, donor, amount, now) {
            Err(e) => (self, Err(e)),
            Ok(()) => {
                let multiplier: i128 = match reputation.influence_of(donor) {
                    Ok(m) => m,
                    Err(_) => FIXED_POINT_SCALE,
                };
                let product = amount * multiplier;
                if !in_i128(product) {
                    (self, Err(MatchingError::MathOverflow))
                } else {
                    let influenced = trunc_div(product, FIXED_POINT_SCALE as int);
                    let c = self.contribution_or_new(pool_id, project_id);
                    let is_new = !self.donations.contains_key((pool_id, project_id, donor));
                    let unique = if is_new {
                        c.unique_donors + 1
                    } else {
                        c.unique_donors as int
                    };
                    if !in_i128(c.total_contributions + influenced) {
                        (self, Err(MatchingError::MathOverflow))
                    } else if unique > u32::MAX {
                        (self, Err(MatchingError::MathOverflow))
                    } else {
                        let donors = self.donors_of(pool_id);
                        (
                            MatchingView {
                                donations: self.donations.insert(
                                    (pool_id, project_id, donor),
                                    Donation {
                                        pool_id,
                                        project_id,
                                        donor,
                                        amount,
                                        donated_at: now,
                                        matched_amount: 0,
                                    },
                                ),
                                contributions: self.contributions.insert(
                                    (pool_id, project_id),
                                    ProjectContribution {
                                        total_contributions: (c.total_contributions
                                            + influenced) as i128,
                                        unique_donors: unique as u32,
                                        ..c
                                    },
                                ),
                                donor_totals: self.donor_totals.insert(
                                    (pool_id, project_id, donor),
                                    (self.donated_so_far(pool_id, project_id, donor)
                                        + amount) as i128,
                                ),
                                pool_donors: if donors.contains(donor) {
                                    self.pool_donors
                                } else {
                                    self.pool_donors.insert(pool_id, donors.push(donor))
                                },
                                ..self
                            },
                            Ok(
                                DonationReceipt {
                                    influenced_amount: influenced as i128,
                                    influence_multiplier: multiplier,
                                },
                            ),
                        )
                    }
                }
            },
        }
    }

    /// The checks that open the matching computation.
    pub open spec fn matching_check(self, pool_id: u64, now: u64) -> Result<(), MatchingError> {
        if !self.pools.contains_key(pool_id) {
            Err(MatchingError::PoolNotFound)
        } else if now <= self.pools[pool_id].round_ends_at {
            Err(MatchingError::RoundNotActive)
        } else if !self.rounds.contains_key(pool_id) {
            Err(MatchingError::PoolNotFound)
        } else if self.rounds[pool_id].is_finalized {
            Err(MatchingError::RoundAlreadyFinalized)
        } else {
            Ok(())
        }
    }

    /// The state after `calculate_matching`, with its result: each listed
    /// project gets `sqrt(contributions) / sqrt(sum of those roots)` of the
    /// remaining pool, the total is capped at the remaining amount, and the
    /// round is finalized.
    pub open spec fn calculate_matching_spec(self, pool_id: u64, projects: Seq<u64>, now: u64) -> (
        Self,
        Result<i128, MatchingError>,
    ) {
        match self.matching_check(pool_id, now) {
            Err(e) => (self, Err(e)),
            Ok(()) => match project_sqrts(self.contributions, pool_id, projects) {
                Err(e) => (self, Err(e)),
                Ok(sqrts) => match checked_sum(sqrts) {
                    Err(e) => (self, Err(e)),
                    Ok(sum) => {
                        let component = (floor_sqrt(sum as nat) as int);
                        let pool = self.pools[pool_id];
                        match match_amounts(sqrts, pool.remaining_match_amount, component) {
                            Err(e) => (self, Err(e)),
                            Ok((amounts, total)) => {
                                let actual = if total <= pool.remaining_match_amount {
                                    total
                                } else {
                                    pool.remaining_match_amount as int
                                };
                                let remaining = pool.remaining_match_amount - actual;
                                if !in_i128(remaining) {
                                    (self, Err(MatchingError::MathOverflow))
                                } else {
                                    let round = self.rounds[pool_id];
                                    (
                                        MatchingView {
                                            pools: self.pools.insert(
                                                pool_id,
                                                MatchingPool {
                                                    remaining_match_amount: remaining as i128,
                                                    ..pool
                                                },
                                            ),
                                            rounds: self.rounds.insert(
                                                pool_id,
                                                MatchingRound {
                                                    is_finalized: true,
                                                    finalized_at: now,
                                                    total_matched_distributed: actual as i128,
                                                    project_count: projects.len() as u32,
                                                    ..round
                                                },
                                            ),
                                            contributions: commit_contributions(
                                                self.contributions,
                                                pool_id,
                                                projects,
                                                sqrts,
                                                amounts,
                                                projects.len() as int,
                                            ),
                                            matched: commit_matched(
                                                self.matched,
                                                pool_id,
                                                projects,
                                                amounts,
                                                projects.len() as int,
                                            ),
                                            ..self
                                        },
                                        Ok(actual as i128),
                                    )
                                }
                            },
                        }
                    },
                },
            },
        }
    }

    /// The state after `distribute_matched_funds`, with the amount to pay out:
    /// a positive matched amount is paid once, after which the project is
    /// marked paid and later distributions pay 0. The matched amount stays.
    pub open spec fn distribute_spec(self, pool_id: u64, project_id: u64) -> (
        Self,
        Result<i128, MatchingError>,
    ) {
        if !self.pools.contains_key(pool_id) {
            (self, Err(MatchingError::PoolNotFound))
        } else if !self.matched.contains_key((pool_id, project_id)) {
            (self, Err(MatchingError::ProjectNotFound))
        } else if self.matched[(pool_id, project_id)] <= 0 || self.is_paid(pool_id, project_id) {
            (self, Ok(0))
        } else {
            (
                MatchingView { paid: self.paid.insert((pool_id, project_id), true), ..self },
                Ok(self.matched[(pool_id, project_id)]),
            )
        }
    }
}

/// The quadratic matching component `sqrt(sum of square roots)`, failing
/// if the sum leaves `i128`.
pub open spec fn quadratic_component(sqrts: Seq<int>) -> Result<int, MatchingError> {
    match checked_sum(sqrts) {
        Err(e) => Err(e),
        Ok(sum) => isqrt_result(sum),
    }
}

pub open spec fn ints_of(v: Seq<i128>) -> Seq<int> {
    v.map_values(|x: i128| x as int)
}

/// Successful square roots exist for every listed project and are non-negative.
proof fn lemma_project_sqrts_ok(
    contributions: Map<(u64, u64), ProjectContribution>,
    pool_id: u64,
    projects: Seq<u64>,
    sqrts: Seq<int>,
)
    requires
        project_sqrts(contributions, pool_id, projects) == Ok::<Seq<int>, MatchingError>(sqrts),
    ensures
        sqrts.len() == projects.len(),
        forall|k: int|
            0 <= k < projects.len() ==> contributions.contains_key((pool_id, #[trigger] projects[k]))
                && project_sqrt(contributions, pool_id, projects[k]) == Ok::<int, MatchingError>(
                sqrts[k],
            ),
        forall|k: int| 0 <= k < sqrts.len() ==> #[trigger] sqrts[k] >= 0,
    decreases projects.len(),
{
    if projects.len() > 0 {
        let prev = project_sqrts(contributions, pool_id, projects.drop_last());
        let v = prev->Ok_0;
        lemma_project_sqrts_ok(contributions, pool_id, projects.drop_last(), v);
        let x = project_sqrt(contributions, pool_id, projects.last())->Ok_0;
        assert(sqrts == v.push(x));
        let key = (pool_id, projects.last());
        let scaled = contributions[key].total_contributions * FIXED_POINT_SCALE;
        lemma_isqrt_result_nonneg(scaled);
        assert forall|k: int|
            0 <= k < projects.len() implies contributions.contains_key((pool_id, #[trigger] projects[k]))
                && project_sqrt(contributions, pool_id, projects[k]) == Ok::<int, MatchingError>(
                sqrts[k],
            ) by {
            if k < projects.len() - 1 {
                assert(projects[k] == projects.drop_last()[k]);
            }
        }
    }
}

proof fn lemma_isqrt_result_nonneg(n: int)
    requires
        0 <= n <= i128::MAX,
    ensures
        isqrt_result(n) == Ok::<int, MatchingError>(floor_sqrt(n as nat) as int),
        0 <= floor_sqrt(n as nat) < 0x10000000000000000,
        is_floor_sqrt(n, floor_sqrt(n as nat) as int),
{
    lemma_floor_sqrt(n as nat);
    lemma_floor_sqrt_small(n, floor_sqrt(n as nat) as int);
}

/// Sums of non-negative values that succeed are non-negative.
proof fn lemma_checked_sum_nonneg(v: Seq<int>)
    requires
        forall|k: int| 0 <= k < v.len() ==> #[trigger] v[k] >= 0,
        checked_sum(v) is Ok,
    ensures
        checked_sum(v)->Ok_0 >= 0,
        checked_sum(v)->Ok_0 <= i128::MAX,
    decreases v.len(),
{
    if v.len() > 0 {
        assert(forall|k: int| 0 <= k < v.len() - 1 ==> v.drop_last()[k] == v[k]);
        lemma_checked_sum_nonneg(v.drop_last());
        assert(v.last() == v[v.len() - 1]);
    }
}

/// Quadratic funding matching: `sqrt(sum of the projects' square roots)`.
fn calculate_quadratic_matching_component(project_sqrts: &Vec<i128>) -> (r: Result<i128, MatchingError>)
    ensures
        match r {
            Ok(x) => quadratic_component(ints_of(project_sqrts@)) == Ok::<int, MatchingError>(x as int),
            Err(e) => quadratic_component(ints_of(project_sqrts@)) == Err::<int, MatchingError>(e),
        },
{
    let mut sum: i128 = 0;
    let mut i: usize = 0;
    let n = project_sqrts.len();
    let ghost v = ints_of(project_sqrts@);
    while i < n
        invariant
            n == project_sqrts@.len(),
            v == ints_of(project_sqrts@),
            i <= n,
            checked_sum(v.take(i as int)) == Ok::<int, MatchingError>(sum as int),
        decreases n - i,
    {
        let sqrt_val = project_sqrts[i];
        proof {
            assert(v.take(i + 1).drop_last() =~= v.take(i as int));
            assert(v.take(i + 1).last() == sqrt_val as int);
        }
        sum = match sum.checked_add(sqrt_val) {
            Some(t) => t,
            None => {
                proof {
                    lemma_checked_sum_prefix_err(v, i as int + 1);
                }
                return Err(MatchingError::MathOverflow);
            },
        };
        i = i + 1;
    }
    proof {
        assert(v.take(n as int) =~= v);
    }
    isqrt_fixed_point(sum)
}

/// A failing prefix makes the whole checked sum fail with the same error.
proof fn lemma_checked_sum_prefix_err(v: Seq<int>, i: int)
    requires
        0 <= i <= v.len(),
        checked_sum(v.take(i)) is Err,
    ensures
        checked_sum(v) == checked_sum(v.take(i)),
    decreases v.len() - i,
{
    if i < v.len() {
        assert(v.take(i + 1).drop_last() =~= v.take(i));
        lemma_checked_sum_prefix_err(v, i + 1);
    } else {
        assert(v.take(i) =~= v);
    }
}

/// The stored state of the matching pools.
pub struct MatchingPoolContract {
    pub pools: Table<u64, MatchingPool>,
    pub rounds: Table<u64, MatchingRound>,
    pub pool_donors: Table<u64, Vec<Address>>,
    pub pool_projects: Table<u64, Vec<u64>>,
    pub sep12_identities: Table<Address, bool>,
    pub donations: Table<(u64, u64, Address), Donation>,
    pub contributions: Table<(u64, u64), ProjectContribution>,
    pub matched: Table<(u64, u64), i128>,
    /// What each donor has given to each project of each pool.
    pub donor_totals: Table<(u64, u64, Address), i128>,
    /// Projects whose matched amount has been paid out.
    pub paid: Table<(u64, u64), bool>,
}

impl MatchingPoolContract {
    pub open spec fn view(self) -> MatchingView {
        MatchingView {
            pools: self.pools@,
            rounds: self.rounds@,
            pool_donors: self.pool_donors@.map_values(|v: Vec<Address>| v@),
            pool_projects: self.pool_projects@.map_values(|v: Vec<u64>| v@),
            sep12_identities: self.sep12_identities@,
            donations: self.donations@,
            contributions: self.contributions@,
            matched: self.matched@,
            donor_totals: self.donor_totals@,
            paid: self.paid@,
        }
    }

    /// Matching pools with empty storage.
    pub fn new() -> (c: Self)
        ensures
            c@ == (MatchingView {
                pools: Map::empty(),
                rounds: Map::empty(),
                pool_donors: Map::empty(),
                pool_projects: Map::empty(),
                sep12_identities: Map::empty(),
                donations: Map::empty(),
                contributions: Map::empty(),
                matched: Map::empty(),
                donor_totals: Map::empty(),
                paid: Map::empty(),
            }),
    {
        let c = MatchingPoolContract {
            pools: Table::new(),
            rounds: Table::new(),
            pool_donors: Table::new(),
            pool_projects: Table::new(),
            sep12_identities: Table::new(),
            donations: Table::new(),
            contributions: Table::new(),
            matched: Table::new(),
            donor_totals: Table::new(),
            paid: Table::new(),
        };
        assert(c@.pool_donors =~= Map::<u64, Seq<Address>>::empty());
        assert(c@.pool_projects =~= Map::<u64, Seq<u64>>::empty());
        c
    }

    fn read_pool(&self, pool_id: u64) -> (r: Result<MatchingPool, MatchingError>)
        ensures
            r == (if self@.pools.contains_key(pool_id) {
                Ok::<MatchingPool, MatchingError>(self@.pools[pool_id])
            } else {
                Err(MatchingError::PoolNotFound)
            }),
    {
        match self.pools.get(&pool_id) {
            Some(p) => Ok(*p),
            None => Err(MatchingError::PoolNotFound),
        }
    }

    /// Opens a pool with its donation round from `now` for `round_duration_secs`.
    /// An existing pool with the same id is replaced.
    pub fn initialize_pool(
        &mut self,
        pool_id: u64,
        admin: Address,
        token: Address,
        total_match_amount: i128,
        round_duration_secs: u64,
        requires_sep12: bool,
        min_donation: i128,
        max_donation_per_donor: i128,
        now: u64,
    ) -> (r: Result<(), MatchingError>)
        ensures
            (final(self)@, r) == old(self)@.initialize_pool_spec(
                pool_id,
                admin,
                token,
                total_match_amount,
                round_duration_secs,
                requires_sep12,
                min_donation,
                max_donation_per_donor,
                now,
            ),
    {
        if total_match_amount <= 0 || min_donation <= 0 {
            return Err(MatchingError::InvalidAmount);
        }
        let round_ends_at = match now.checked_add(round_duration_secs) {
            Some(t) => t,
            None => return Err(MatchingError::InvalidTimestamp),
        };
        let pool = MatchingPool {
            pool_id,
            admin,
            token,
            total_match_amount,
            remaining_match_amount: total_match_amount,
            is_active: true,
            round_started_at: now,
            round_ends_at,
            requires_sep12,
            min_donation,
            max_donation_per_donor,
        };
        self.pools.insert(pool_id, pool);
        let round = MatchingRound {
            pool_id,
            is_finalized: false,
            finalized_at: 0,
            total_matched_distributed: 0,
            project_count: 0,
            donation_count: 0,
        };
        self.rounds.insert(pool_id, round);
        self.pool_donors.insert(pool_id, Vec::new());
        self.pool_projects.insert(pool_id, Vec::new());
        assert(self@ =~= old(self)@.initialize_pool_spec(
            pool_id,
            admin,
            token,
            total_match_amount,
            round_duration_secs,
            requires_sep12,
            min_donation,
            max_donation_per_donor,
            now,
        ).0);
        Ok(())
    }

    /// Registers `donor`'s SEP-12 identity as verified.
    pub fn verify_sep12_identity(&mut self, donor: Address) -> (r: Result<(), MatchingError>)
        ensures
            r is Ok,
            final(self)@ == (MatchingView {
                sep12_identities: old(self)@.sep12_identities.insert(donor, true),
                ..old(self)@
            }),
    {
        self.sep12_identities.insert(donor, true);
        assert(self@ =~= (MatchingView {
            sep12_identities: old(self)@.sep12_identities.insert(donor, true),
            ..old(self)@
        }));
        Ok(())
    }

    /// Whether `address` has a verified SEP-12 identity.
    pub fn is_sep12_verified(&self, address: Address) -> (r: bool)
        ensures
            r == self@.sep12_verified(address),
    {
        match self.sep12_identities.get(&address) {
            Some(b) => *b,
            None => false,
        }
    }

    fn check_sep12_verification(&self, address: &Address, pool: &MatchingPool) -> (r: Result<
        (),
        MatchingError,
    >)
        ensures
            r == (if pool.requires_sep12 && !self@.sep12_verified(*address) {
                Err::<(), MatchingError>(MatchingError::Sep12NotVerified)
            } else {
                Ok(())
            }),
    {
        if pool.requires_sep12 {
            let verified = self.is_sep12_verified(*address);
            if !verified {
                return Err(MatchingError::Sep12NotVerified);
            }
        }
        Ok(())
    }

    /// Whether `donor` is among the pool's recorded donors.
    fn has_donor(&self, pool_id: u64, donor: &Address) -> (r: bool)
        ensures
            r == self@.donors_of(pool_id).contains(*donor),
    {
        match self.pool_donors.get(&pool_id) {
            Some(donors) => {
                let mut i: usize = 0;
                while i < donors.len()
                    invariant
                        i <= donors@.len(),
                        donors@ == self@.donors_of(pool_id),
                        forall|k: int| 0 <= k < i ==> donors@[k] != *donor,
                    decreases donors@.len() - i,
                {
                    if donors[i] == *donor {
                        return true;
                    }
                    i = i + 1;
                }
                false
            },
            None => false,
        }
    }

    /// The checks of a donation against its pool; on success, the donor's
    /// total to the project with this donation.
    fn check_donation(
        &self,
        pool_id: u64,
        project_id: u64,
        donor: Address,
        amount: i128,
        now: u64,
    ) -> (r: Result<i128, MatchingError>)
        ensures
            match r {
                Ok(t) => self@.donation_check(pool_id, project_id, donor, amount, now) is Ok && t
                    == self@.donated_so_far(pool_id, project_id, donor) + amount,
                Err(e) => self@.donation_check(pool_id, project_id, donor, amount, now) == Err::<
                    (),
                    MatchingError,
                >(e),
            },
    {
        let pool = self.read_pool(pool_id)?;
        if !pool.is_active {
            return Err(MatchingError::PoolInactive);
        }
        if now > pool.round_ends_at {
            return Err(MatchingError::RoundNotActive);
        }
        if amount < pool.min_donation || amount > pool.max_donation_per_donor {
            return Err(MatchingError::InvalidAmount);
        }
        self.check_sep12_verification(&donor, &pool)?;
        let previous: i128 = match self.donor_totals.get(&(pool_id, project_id, donor)) {
            Some(t) => *t,
            None => 0,
        };
        let donor_total: i128 = match previous.checked_add(amount) {
            Some(t) => {
                if t > pool.max_donation_per_donor {
                    return Err(MatchingError::DonationTooLarge);
                }
                t
            },
            None => {
                if amount > 0 {
                    return Err(MatchingError::DonationTooLarge);
                }
                return Err(MatchingError::MathOverflow);
            },
        };
        Ok(donor_total)
    }

    /// Whether `donate` with these arguments may be called: the donor's
    /// influence is computed only for a donation that passes the pool's
    /// checks, and must then stay within machine integers.
    pub fn can_donate(
        &self,
        reputation: &DonorReputationContract,
        pool_id: u64,
        project_id: u64,
        donor: Address,
        amount: i128,
        now: u64,
    ) -> (ok: bool)
        ensures
            ok == (self@.donation_check(pool_id, project_id, donor, amount, now) is Ok
                ==> reputation@.influence_defined(donor)),
    {
        match self.check_donation(pool_id, project_id, donor, amount, now) {
            Ok(_) => reputation.can_calculate_influence(donor),
            Err(_) => true,
        }
    }

    /// Processes a donation from `donor` to a project of a pool at `now`. The
    /// donation counts weighted by the donor's reputation influence (1x without
    /// a reputation); the caller transfers `amount` of the pool's token.
    pub fn donate(
        &mut self,
        reputation: &DonorReputationContract,
        pool_id: u64,
        project_id: u64,
        donor: Address,
        amount: i128,
        now: u64,
    ) -> (r: Result<DonationReceipt, MatchingError>)
        requires
            old(self)@.donation_check(pool_id, project_id, donor, amount, now) is Ok
                ==> reputation@.influence_defined(donor),
        ensures
            (final(self)@, r) == old(self)@.donate_spec(
                reputation@,
                pool_id,
                project_id,
                donor,
                amount,
                now,
            ),
    {
        let donor_total = self.check_donation(pool_id, project_id, donor, amount, now)?;
        let influence_multiplier = match reputation.calculate_influence(donor) {
            Ok(multiplier) => multiplier,
            Err(_) => FIXED_POINT_SCALE,
        };
        let product = match amount.checked_mul(influence_multiplier) {
            Some(p) => p,
            None => return Err(MatchingError::MathOverflow),
        };
        let influenced_amount = product / FIXED_POINT_SCALE;
        let key = (pool_id, project_id);
        let contributions: ProjectContribution = match self.contributions.get(&key) {
            Some(c) => *c,
            None => ProjectContribution {
                pool_id,
                project_id,
                total_contributions: 0,
                unique_donors: 0,
                sqrt_sum_of_sqrt_donations: 0,
                total_matched: 0,
            },
        };
        let is_new_donor = !self.donations.contains_key(&(pool_id, project_id, donor));
        let total_contributions = match contributions.total_contributions.checked_add(
            influenced_amount,
        ) {
            Some(t) => t,
            None => return Err(MatchingError::MathOverflow),
        };
        let unique_donors = if is_new_donor {
            match contributions.unique_donors.checked_add(1) {
                Some(u) => u,
                None => return Err(MatchingError::MathOverflow),
            }
        } else {
            contributions.unique_donors
        };
        let donor_exists = self.has_donor(pool_id, &donor);
        let ghost donors_before = self@.donors_of(pool_id);
        let donation = Donation {
            pool_id,
            project_id,
            donor,
            amount,
            donated_at: now,
            matched_amount: 0,
        };
        self.donations.insert((pool_id, project_id, donor), donation);
        self.donor_totals.insert((pool_id, project_id, donor), donor_total);
        let mut updated = contributions;
        updated.total_contributions = total_contributions;
        updated.unique_donors = unique_donors;
        self.contributions.insert(key, updated);
        if !donor_exists {
            let mut donors: Vec<Address> = match self.pool_donors.get(&pool_id) {
                Some(d) => copy_addresses(d),
                None => Vec::new(),
            };
            donors.push(donor);
            self.pool_donors.insert(pool_id, donors);
        }
        let receipt = DonationReceipt { influenced_amount, influence_multiplier };
        assert(self@ =~= old(self)@.donate_spec(
            reputation@,
            pool_id,
            project_id,
            donor,
            amount,
            now,
        ).0);
        Ok(receipt)
    }

    /// Computes the quadratic-funding match of each listed project after the
    /// donation round has ended, caps the total at the remaining pool and
    /// finalizes the round. Returns the amount distributed.
    pub fn calculate_matching(&mut self, pool_id: u64, projects: &Vec<u64>, now: u64) -> (r: Result<
        i128,
        MatchingError,
    >)
        requires
            projects@.len() <= u32::MAX,
        ensures
            (final(self)@, r) == old(self)@.calculate_matching_spec(pool_id, projects@, now),
    {
        let ghost old_view = self@;
        let mut pool = self.read_pool(pool_id)?;
        if now <= pool.round_ends_at {
            return Err(MatchingError::RoundNotActive);
        }
        let mut round: MatchingRound = match self.rounds.get(&pool_id) {
            Some(r) => *r,
            None => return Err(MatchingError::PoolNotFound),
        };
        if round.is_finalized {
            return Err(MatchingError::RoundAlreadyFinalized);
        }
        let n = projects.len();
        let ghost ps = projects@;
        let ghost contribs = self@.contributions;
        // Square roots of the scaled contributions of each listed project.
        let mut all_sqrt_donations: Vec<i128> = Vec::new();
        let mut j: usize = 0;
        proof {
            assert(ps.take(0) =~= Seq::<u64>::empty());
            assert(ints_of(all_sqrt_donations@) =~= Seq::<int>::empty());
        }
        while j < n
            invariant
                n == ps.len(),
                ps == projects@,
                contribs == self@.contributions,
                self@ == old_view,
                old_view == old(self)@,
                old_view.matching_check(pool_id, now) is Ok,
                j <= n,
                project_sqrts(contribs, pool_id, ps.take(j as int)) == Ok::<Seq<int>, MatchingError>(
                    ints_of(all_sqrt_donations@),
                ),
            decreases n - j,
        {
            let project_id = projects[j];
            proof {
                assert(ps.take(j + 1).drop_last() =~= ps.take(j as int));
                assert(ps.take(j + 1).last() == project_id);
            }
            let entry: ProjectContribution = match self.contributions.get(&(pool_id, project_id)) {
                Some(c) => *c,
                None => {
                    proof {
                        lemma_sqrts_prefix_err(contribs, pool_id, ps, j as int + 1);
                    }
                    return Err(MatchingError::ProjectNotFound);
                },
            };
            let scaled = match entry.total_contributions.checked_mul(FIXED_POINT_SCALE) {
                Some(v) => v,
                None => {
                    proof {
                        lemma_sqrts_prefix_err(contribs, pool_id, ps, j as int + 1);
                    }
                    return Err(MatchingError::MathOverflow);
                },
            };
            let sqrt_total = match isqrt_fixed_point(scaled) {
                Ok(x) => x,
                Err(e) => {
                    proof {
                        lemma_sqrts_prefix_err(contribs, pool_id, ps, j as int + 1);
                    }
                    return Err(e);
                },
            };
            let ghost prev = ints_of(all_sqrt_donations@);
            all_sqrt_donations.push(sqrt_total);
            proof {
                assert(ints_of(all_sqrt_donations@) =~= prev.push(sqrt_total as int));
            }
            j = j + 1;
        }
        proof {
            assert(ps.take(n as int) =~= ps);
        }
        let ghost sqrts = ints_of(all_sqrt_donations@);
        proof {
            lemma_project_sqrts_ok(contribs, pool_id, ps, sqrts);
        }
        // The quadratic matching component.
        let match_component = match calculate_quadratic_matching_component(&all_sqrt_donations) {
            Ok(c) => c,
            Err(e) => {
                proof {
                    if checked_sum(sqrts) is Ok {
                        lemma_checked_sum_nonneg(sqrts);
                    }
                }
                return Err(e);
            },
        };
        let ghost sum = checked_sum(sqrts)->Ok_0;
        proof {
            lemma_checked_sum_nonneg(sqrts);
            lemma_isqrt_result_nonneg(sum);
        }
        assert(match_component == (floor_sqrt(sum as nat) as int));
        // Proportional match of each project.
        let remaining = pool.remaining_match_amount;
        let mut amounts: Vec<i128> = Vec::new();
        let mut total_to_distribute: i128 = 0;
        let mut j: usize = 0;
        proof {
            assert(sqrts.take(0) =~= Seq::<int>::empty());
            assert(ints_of(amounts@) =~= Seq::<int>::empty());
        }
        while j < n
            invariant
                n == ps.len(),
                n == sqrts.len(),
                ps == projects@,
                sqrts == ints_of(all_sqrt_donations@),
                self@ == old_view,
                old_view == old(self)@,
                old_view.matching_check(pool_id, now) is Ok,
                project_sqrts(contribs, pool_id, ps) == Ok::<Seq<int>, MatchingError>(sqrts),
                contribs == old_view.contributions,
                checked_sum(sqrts) == Ok::<int, MatchingError>(sum),
                match_component == (floor_sqrt(sum as nat) as int),
                pool == old_view.pools[pool_id],
                remaining == pool.remaining_match_amount,
                match_component >= 0,
                j <= n,
                match_amounts(sqrts.take(j as int), remaining, match_component as int) == Ok::<
                    (Seq<int>, int),
                    MatchingError,
                >((ints_of(amounts@), total_to_distribute as int)),
            decreases n - j,
        {
            let sqrt_proj = all_sqrt_donations[j];
            proof {
                assert(sqrts.take(j + 1).drop_last() =~= sqrts.take(j as int));
                assert(sqrts.take(j + 1).last() == sqrt_proj as int);
            }
            let matched_amount: i128 = if match_component > 0 {
                match sqrt_proj.checked_mul(remaining) {
                    Some(p) => p / match_component / FIXED_POINT_SCALE,
                    None => {
                        proof {
                            assert(match_for(sqrt_proj as int, remaining, match_component as int)
                                == Err::<int, MatchingError>(MatchingError::MathOverflow));
                            assert(match_amounts(sqrts.take(j + 1), remaining, match_component as int)
                                == Err::<(Seq<int>, int), MatchingError>(MatchingError::MathOverflow));
                            lemma_amounts_prefix_err(sqrts, remaining, match_component as int, j as int + 1);
                        }
                        return Err(MatchingError::MathOverflow);
                    },
                }
            } else {
                0
            };
            total_to_distribute = match total_to_distribute.checked_add(matched_amount) {
                Some(t) => t,
                None => {
                    proof {
                        lemma_amounts_prefix_err(sqrts, remaining, match_component as int, j as int + 1);
                    }
                    return Err(MatchingError::MathOverflow);
                },
            };
            let ghost prev = ints_of(amounts@);
            amounts.push(matched_amount);
            proof {
                assert(ints_of(amounts@) =~= prev.push(matched_amount as int));
            }
            j = j + 1;
        }
        proof {
            assert(sqrts.take(n as int) =~= sqrts);
        }
        let ghost amount_ints = ints_of(amounts@);
        // Cap the distribution to the available pool.
        let actual_distribution = if total_to_distribute <= remaining {
            total_to_distribute
        } else {
            remaining
        };
        let new_remaining = match remaining.checked_sub(actual_distribution) {
            Some(v) => v,
            None => return Err(MatchingError::MathOverflow),
        };
        // Write the results.
        let mut j: usize = 0;
        proof {
            lemma_amounts_len(sqrts, remaining, match_component as int);
        }
        while j < n
            invariant
                n == ps.len(),
                ps == projects@,
                n == sqrts.len(),
                n == amount_ints.len(),
                sqrts == ints_of(all_sqrt_donations@),
                amount_ints == ints_of(amounts@),
                j <= n,
                forall|k: int|
                    0 <= k < ps.len() ==> contribs.contains_key((pool_id, #[trigger] ps[k])),
                self@ == (MatchingView {
                    contributions: commit_contributions(
                        contribs,
                        pool_id,
                        ps,
                        sqrts,
                        amount_ints,
                        j as int,
                    ),
                    matched: commit_matched(old_view.matched, pool_id, ps, amount_ints, j as int),
                    ..old_view
                }),
            decreases n - j,
        {
            let project_id = projects[j];
            let key = (pool_id, project_id);
            proof {
                lemma_commit_keeps_keys(contribs, pool_id, ps, sqrts, amount_ints, j as int);
                assert(contribs.contains_key((pool_id, ps[j as int])));
            }
            let mut entry: ProjectContribution = match self.contributions.get(&key) {
                Some(c) => *c,
                None => {
                    proof {
                        assert(false);
                    }
                    return Err(MatchingError::ProjectNotFound);
                },
            };
            entry.sqrt_sum_of_sqrt_donations = all_sqrt_donations[j];
            entry.total_matched = amounts[j];
            self.contributions.insert(key, entry);
            self.matched.insert(key, amounts[j]);
            j = j + 1;
            proof {
                assert(self@ =~= (MatchingView {
                    contributions: commit_contributions(
                        contribs,
                        pool_id,
                        ps,
                        sqrts,
                        amount_ints,
                        j as int,
                    ),
                    matched: commit_matched(old_view.matched, pool_id, ps, amount_ints, j as int),
                    ..old_view
                }));
            }
        }
        pool.remaining_match_amount = new_remaining;
        self.pools.insert(pool_id, pool);
        round.is_finalized = true;
        round.finalized_at = now;
        round.total_matched_distributed = actual_distribution;
        round.project_count = n as u32;
        self.rounds.insert(pool_id, round);
        proof {
            assert(self@ =~= old_view.calculate_matching_spec(pool_id, ps, now).0);
        }
        Ok(actual_distribution)
    }

    /// Returns the matched amount of a project for the caller to transfer to
    /// the project's recipient, and marks it paid: a positive amount is handed
    /// out once, and later calls return 0.
    pub fn distribute_matched_funds(&mut self, pool_id: u64, project_id: u64) -> (r: Result<
        i128,
        MatchingError,
    >)
        ensures
            (final(self)@, r) == old(self)@.distribute_spec(pool_id, project_id),
    {
        let _pool = self.read_pool(pool_id)?;
        let matched_amount: i128 = match self.matched.get(&(pool_id, project_id)) {
            Some(m) => *m,
            None => return Err(MatchingError::ProjectNotFound),
        };
        if matched_amount <= 0 {
            return Ok(0);
        }
        let already_paid = match self.paid.get(&(pool_id, project_id)) {
            Some(b) => *b,
            None => false,
        };
        if already_paid {
            return Ok(0);
        }
        self.paid.insert((pool_id, project_id), true);
        assert(self@ =~= old(self)@.distribute_spec(pool_id, project_id).0);
        Ok(matched_amount)
    }

    /// The matched amount of a project.
    pub fn get_project_matched(&self, pool_id: u64, project_id: u64) -> (r: Result<
        i128,
        MatchingError,
    >)
        ensures
            r == (if self@.matched.contains_key((pool_id, project_id)) {
                Ok::<i128, MatchingError>(self@.matched[(pool_id, project_id)])
            } else {
                Err(MatchingError::ProjectNotFound)
            }),
    {
        match self.matched.get(&(pool_id, project_id)) {
            Some(m) => Ok(*m),
            None => Err(MatchingError::ProjectNotFound),
        }
    }

    /// The contribution statistics of a project.
    pub fn get_project_contributions(&self, pool_id: u64, project_id: u64) -> (r: Result<
        ProjectContribution,
        MatchingError,
    >)
        ensures
            r == (if self@.contributions.contains_key((pool_id, project_id)) {
                Ok::<ProjectContribution, MatchingError>(self@.contributions[(pool_id, project_id)])
            } else {
                Err(MatchingError::ProjectNotFound)
            }),
    {
        match self.contributions.get(&(pool_id, project_id)) {
            Some(c) => Ok(*c),
            None => Err(MatchingError::ProjectNotFound),
        }
    }

    /// The status of a pool's matching round.
    pub fn get_matching_round(&self, pool_id: u64) -> (r: Result<MatchingRound, MatchingError>)
        ensures
            r == (if self@.rounds.contains_key(pool_id) {
                Ok::<MatchingRound, MatchingError>(self@.rounds[pool_id])
            } else {
                Err(MatchingError::PoolNotFound)
            }),
    {
        match self.rounds.get(&pool_id) {
            Some(r) => Ok(*r),
            None => Err(MatchingError::PoolNotFound),
        }
    }

    /// The configuration of a pool.
    pub fn get_pool(&self, pool_id: u64) -> (r: Result<MatchingPool, MatchingError>)
        ensures
            r == (if self@.pools.contains_key(pool_id) {
                Ok::<MatchingPool, MatchingError>(self@.pools[pool_id])
            } else {
                Err(MatchingError::PoolNotFound)
            }),
    {
        self.read_pool(pool_id)
    }
}

/// The matched amounts cover every square root.
proof fn lemma_amounts_len(sqrts: Seq<int>, remaining: i128, component: int)
    requires
        match_amounts(sqrts, remaining, component) is Ok,
    ensures
        match_amounts(sqrts, remaining, component)->Ok_0.0.len() == sqrts.len(),
    decreases sqrts.len(),
{
    if sqrts.len() > 0 {
        lemma_amounts_len(sqrts.drop_last(), remaining, component);
    }
}

/// A failing prefix makes the whole computation of matched amounts fail with the same error.
proof fn lemma_amounts_prefix_err(sqrts: Seq<int>, remaining: i128, component: int, i: int)
    requires
        0 <= i <= sqrts.len(),
        match_amounts(sqrts.take(i), remaining, component) is Err,
    ensures
        match_amounts(sqrts, remaining, component) == match_amounts(sqrts.take(i), remaining, component),
    decreases sqrts.len() - i,
{
    if i < sqrts.len() {
        assert(sqrts.take(i + 1).drop_last() =~= sqrts.take(i));
        lemma_amounts_prefix_err(sqrts, remaining, component, i + 1);
    } else {
        assert(sqrts.take(i) =~= sqrts);
    }
}

/// Writing matching results never removes a contribution record.
proof fn lemma_commit_keeps_keys(
    contributions: Map<(u64, u64), ProjectContribution>,
    pool_id: u64,
    projects: Seq<u64>,
    sqrts: Seq<int>,
    amounts: Seq<int>,
    n: int,
)
    ensures
        forall|key: (u64, u64)|
            #[trigger] contributions.contains_key(key) ==> commit_contributions(
                contributions,
                pool_id,
                projects,
                sqrts,
                amounts,
                n,
            ).contains_key(key),
    decreases n,
{
    if n > 0 {
        lemma_commit_keeps_keys(contributions, pool_id, projects, sqrts, amounts, n - 1);
    }
}

/// A copy of a list of addresses.
fn copy_addresses(v: &Vec<Address>) -> (r: Vec<Address>)
    ensures
        r@ == v@,
{
    let mut r: Vec<Address> = Vec::new();
    let mut i: usize = 0;
    while i < v.len()
        invariant
            i <= v@.len(),
            r@ == v@.take(i as int),
        decreases v@.len() - i,
    {
        r.push(v[i]);
        i = i + 1;
        assert(r@ =~= v@.take(i as int));
    }
    assert(v@.take(v@.len() as int) =~= v@);
    r
}

/// A failing prefix makes the whole computation of square roots fail with the same error.
proof fn lemma_sqrts_prefix_err(
    contributions: Map<(u64, u64), ProjectContribution>,
    pool_id: u64,
    projects: Seq<u64>,
    i: int,
)
    requires
        0 <= i <= projects.len(),
        project_sqrts(contributions, pool_id, projects.take(i)) is Err,
    ensures
        project_sqrts(contributions, pool_id, projects) == project_sqrts(
            contributions,
            pool_id,
            projects.take(i),
        ),
    decreases projects.len() - i,
{
    if i < projects.len() {
        assert(projects.take(i + 1).drop_last() =~= projects.take(i));
        lemma_sqrts_prefix_err(contributions, pool_id, projects, i + 1);
    } else {
        assert(projects.take(i) =~= projects);
    }
}

/// The square root routine computes integer square roots: for every
/// non-negative `i128` it returns the largest `r` with `r * r <= n`, and a
/// perfect square `k * k` gets exactly `k`.
pub proof fn law_isqrt_is_integer_sqrt(n: int, k: int)
    requires
        0 <= n <= i128::MAX,
        0 <= k,
    ensures
        isqrt_result(n) is Ok,
        ({
            let r = isqrt_result(n)->Ok_0;
            &&& 0 <= r
            &&& r * r <= n < (r + 1) * (r + 1)
            &&& n == k * k ==> r == k
        }),
{
    lemma_isqrt_result_nonneg(n);
    let r = floor_sqrt(n as nat) as int;
    if n == k * k {
        assert(k * k <= n < (k + 1) * (k + 1)) by (nonlinear_arith)
            requires
                n == k * k,
                k >= 0,
        ;
        lemma_floor_sqrt_unique(n, r, k);
    }
}

/// Matched amounts of non-negative roots from a non-negative pool are non-negative.
proof fn lemma_amounts_nonneg(sqrts: Seq<int>, remaining: i128, component: int)
    requires
        forall|k: int| 0 <= k < sqrts.len() ==> #[trigger] sqrts[k] >= 0,
        remaining >= 0,
        match_amounts(sqrts, remaining, component) is Ok,
    ensures
        match_amounts(sqrts, remaining, component)->Ok_0.1 >= 0,
    decreases sqrts.len(),
{
    if sqrts.len() > 0 {
        assert(forall|k: int| 0 <= k < sqrts.len() - 1 ==> sqrts.drop_last()[k] == sqrts[k]);
        lemma_amounts_nonneg(sqrts.drop_last(), remaining, component);
        let x = sqrts.last();
        assert(x == sqrts[sqrts.len() - 1]);
        if component > 0 {
            assert(x * remaining >= 0) by (nonlinear_arith)
                requires
                    x >= 0,
                    remaining >= 0,
            ;
            let q = (x * remaining) / component;
            assert(q >= 0) by (nonlinear_arith)
                requires
                    x * remaining >= 0,
                    component > 0,
                    q == (x * remaining) / component,
            ;
        }
    }
}

/// The matching distribution is capped by the pool: the amount distributed
/// never exceeds what remained, and exactly that amount leaves the pool.
/// For a pool that still holds funds, the distribution is non-negative and
/// the pool never goes negative.
pub proof fn law_matching_capped(v: MatchingView, pool_id: u64, projects: Seq<u64>, now: u64)
    requires
        v.calculate_matching_spec(pool_id, projects, now).1 is Ok,
    ensures
        ({
            let (w, r) = v.calculate_matching_spec(pool_id, projects, now);
            let d = r->Ok_0;
            let before = v.pools[pool_id].remaining_match_amount;
            &&& d <= before
            &&& w.pools[pool_id].remaining_match_amount == before - d
            &&& w.rounds[pool_id].is_finalized
            &&& w.rounds[pool_id].total_matched_distributed == d
            &&& before >= 0 ==> 0 <= d && w.pools[pool_id].remaining_match_amount >= 0
        }),
{
    let sqrts = project_sqrts(v.contributions, pool_id, projects)->Ok_0;
    lemma_project_sqrts_ok(v.contributions, pool_id, projects, sqrts);
    let before = v.pools[pool_id].remaining_match_amount;
    let sum = checked_sum(sqrts)->Ok_0;
    let component = (floor_sqrt(sum as nat) as int);
    if before >= 0 {
        lemma_amounts_nonneg(sqrts, before, component);
    }
}

/// A matching round is finalized once: after a successful matching, any
/// later matching of the same pool fails with `RoundAlreadyFinalized` and
/// changes nothing.
pub proof fn law_matching_once(
    v: MatchingView,
    pool_id: u64,
    projects: Seq<u64>,
    other_projects: Seq<u64>,
    now: u64,
    later: u64,
)
    requires
        v.calculate_matching_spec(pool_id, projects, now).1 is Ok,
        later >= now,
    ensures
        ({
            let w = v.calculate_matching_spec(pool_id, projects, now).0;
            w.calculate_matching_spec(pool_id, other_projects, later) == (
                w,
                Err::<i128, MatchingError>(MatchingError::RoundAlreadyFinalized),
            )
        }),
{
}

/// Donations are accepted only into an active pool during its round, within
/// the pool's donation bounds, from a verified identity when the pool
/// requires one, and with the donor's running total to the project within the
/// pool's per-donor maximum; an unverified identity is reported before an
/// exceeded total.
pub proof fn law_donation_rules(
    v: MatchingView,
    rep: ReputationView,
    pool_id: u64,
    project_id: u64,
    donor: Address,
    amount: i128,
    now: u64,
)
    requires
        v.donate_spec(rep, pool_id, project_id, donor, amount, now).1 is Ok,
    ensures
        v.pools.contains_key(pool_id),
        v.pools[pool_id].is_active,
        now <= v.pools[pool_id].round_ends_at,
        v.pools[pool_id].min_donation <= amount <= v.pools[pool_id].max_donation_per_donor,
        v.donated_so_far(pool_id, project_id, donor) + amount
            <= v.pools[pool_id].max_donation_per_donor,
        v.pools[pool_id].requires_sep12 ==> v.sep12_verified(donor),
{
}

/// The order of the donation checks: pool, activity, round, amount, identity,
/// then the running total. A donation that passes the amount check from an
/// unverified identity, in a pool that requires one, is refused with
/// `Sep12NotVerified` whatever the donor's running total.
pub proof fn law_identity_checked_before_total(
    v: MatchingView,
    rep: ReputationView,
    pool_id: u64,
    project_id: u64,
    donor: Address,
    amount: i128,
    now: u64,
)
    requires
        v.pools.contains_key(pool_id),
        v.pools[pool_id].is_active,
        now <= v.pools[pool_id].round_ends_at,
        v.pools[pool_id].min_donation <= amount <= v.pools[pool_id].max_donation_per_donor,
        v.pools[pool_id].requires_sep12,
        !v.sep12_verified(donor),
    ensures
        v.donate_spec(rep, pool_id, project_id, donor, amount, now) == (v, Err::<
            DonationReceipt,
            MatchingError,
        >(MatchingError::Sep12NotVerified)),
{
}

/// A donation is recorded with its own amount, adds its weighted amount to the
/// project's contributions and its amount to the donor's running total for the
/// project, counts the donor once per project, and a donor without a
/// reputation weighs 1x.
pub proof fn law_donation_accounting(
    v: MatchingView,
    rep: ReputationView,
    pool_id: u64,
    project_id: u64,
    donor: Address,
    amount: i128,
    now: u64,
)
    requires
        v.donate_spec(rep, pool_id, project_id, donor, amount, now).1 is Ok,
    ensures
        ({
            let (w, r) = v.donate_spec(rep, pool_id, project_id, donor, amount, now);
            let receipt = r->Ok_0;
            let before = v.contribution_or_new(pool_id, project_id);
            let after = w.contributions[(pool_id, project_id)];
            &&& after.total_contributions == before.total_contributions + receipt.influenced_amount
            &&& receipt.influenced_amount == trunc_div(
                amount * receipt.influence_multiplier,
                FIXED_POINT_SCALE as int,
            )
            &&& !rep.reputations.contains_key(donor) ==> receipt.influence_multiplier
                == FIXED_POINT_SCALE && receipt.influenced_amount == amount
            &&& after.unique_donors == before.unique_donors + (if v.donations.contains_key(
                (pool_id, project_id, donor),
            ) {
                0int
            } else {
                1int
            })
            &&& w.donations.contains_key((pool_id, project_id, donor))
            &&& w.donations[(pool_id, project_id, donor)] == (Donation {
                pool_id,
                project_id,
                donor,
                amount,
                donated_at: now,
                matched_amount: 0,
            })
            &&& w.donated_so_far(pool_id, project_id, donor) == v.donated_so_far(
                pool_id,
                project_id,
                donor,
            ) + amount
            &&& w.donors_of(pool_id).contains(donor)
        }),
{
    let (w, r) = v.donate_spec(rep, pool_id, project_id, donor, amount, now);
    if !rep.reputations.contains_key(donor) {
        let a = amount as int;
        if a >= 0 {
            assert((a * FIXED_POINT_SCALE) / (FIXED_POINT_SCALE as int) == a) by (nonlinear_arith)
                requires
                    a >= 0,
            ;
        } else {
            assert(-(a * FIXED_POINT_SCALE) == (-a) * FIXED_POINT_SCALE) by (nonlinear_arith);
            assert(((-a) * FIXED_POINT_SCALE) / (FIXED_POINT_SCALE as int) == -a) by (nonlinear_arith)
                requires
                    a < 0,
            ;
        }
    }
    let donors = v.donors_of(pool_id);
    if !donors.contains(donor) {
        assert(donors.push(donor)[donors.len() as int] == donor);
    }
}

/// Matched funds are paid once: a distribution hands out the project's
/// matched amount (when positive and not yet paid) and marks the project
/// paid, so a second distribution hands out 0; the matched amount itself is
/// kept, and in all no more than it is paid.
pub proof fn law_matched_paid_once(v: MatchingView, pool_id: u64, project_id: u64)
    requires
        v.distribute_spec(pool_id, project_id).1 is Ok,
    ensures
        ({
            let (w, r1) = v.distribute_spec(pool_id, project_id);
            let (x, r2) = w.distribute_spec(pool_id, project_id);
            let m = v.matched[(pool_id, project_id)];
            &&& r1->Ok_0 == (if m > 0 && !v.is_paid(pool_id, project_id) {
                m
            } else {
                0
            })
            &&& w.matched == v.matched
            &&& m > 0 ==> w.is_paid(pool_id, project_id)
            &&& r2 == Ok::<i128, MatchingError>(0)
            &&& x == w
            &&& r1->Ok_0 + r2->Ok_0 <= (if m > 0 {
                m as int
            } else {
                0
            })
        }),
{
}

/// Matching is monotone in contributions: within one matching (the same pool,
/// remaining amount and component), a project whose contributions are at
/// least those of another gets at least its square root and at least its
/// matched amount.
pub proof fn law_matching_monotone(
    contributions: Map<(u64, u64), ProjectContribution>,
    pool_id: u64,
    p1: u64,
    p2: u64,
    remaining: i128,
    component: int,
)
    requires
        contributions.contains_key((pool_id, p1)),
        contributions.contains_key((pool_id, p2)),
        0 <= contributions[(pool_id, p1)].total_contributions
            <= contributions[(pool_id, p2)].total_contributions,
        project_sqrt(contributions, pool_id, p2) is Ok,
        remaining >= 0,
        match_for(project_sqrt(contributions, pool_id, p2)->Ok_0, remaining, component) is Ok,
    ensures
        project_sqrt(contributions, pool_id, p1) is Ok,
        project_sqrt(contributions, pool_id, p1)->Ok_0 <= project_sqrt(
            contributions,
            pool_id,
            p2,
        )->Ok_0,
        match_for(project_sqrt(contributions, pool_id, p1)->Ok_0, remaining, component) is Ok,
        match_for(project_sqrt(contributions, pool_id, p1)->Ok_0, remaining, component)->Ok_0
            <= match_for(project_sqrt(contributions, pool_id, p2)->Ok_0, remaining, component)->Ok_0,
{
    let t1 = contributions[(pool_id, p1)].total_contributions as int;
    let t2 = contributions[(pool_id, p2)].total_contributions as int;
    let n1 = t1 * FIXED_POINT_SCALE;
    let n2 = t2 * FIXED_POINT_SCALE;
    assert(0 <= n1 <= n2) by (nonlinear_arith)
        requires
            0 <= t1 <= t2,
            n1 == t1 * FIXED_POINT_SCALE,
            n2 == t2 * FIXED_POINT_SCALE,
    ;
    lemma_isqrt_result_nonneg(n1);
    lemma_isqrt_result_nonneg(n2);
    let s1 = floor_sqrt(n1 as nat) as int;
    let s2 = floor_sqrt(n2 as nat) as int;
    if s1 > s2 {
        assert(s1 * s1 >= (s2 + 1) * (s2 + 1)) by (nonlinear_arith)
            requires
                s1 >= s2 + 1,
                s2 >= 0,
        ;
    }
    assert(s1 <= s2);
    if component > 0 {
        let r = remaining as int;
        assert(0 <= s1 * r <= s2 * r) by (nonlinear_arith)
            requires
                0 <= s1 <= s2,
                r >= 0,
        ;
        assert((s1 * r) / component <= (s2 * r) / component) by {
            vstd::arithmetic::div_mod::lemma_div_is_ordered(s1 * r, s2 * r, component);
        }
        assert((s1 * r) / component >= 0) by {
            vstd::arithmetic::div_mod::lemma_div_pos_is_pos(s1 * r, component);
        }
        assert(((s1 * r) / component) / (FIXED_POINT_SCALE as int) <= ((s2 * r) / component) / (
        FIXED_POINT_SCALE as int)) by {
            vstd::arithmetic::div_mod::lemma_div_is_ordered(
                (s1 * r) / component,
                (s2 * r) / component,
                FIXED_POINT_SCALE as int,
            );
        }
    }
}

/// Each matched amount is the share of its square root, and lies in `0..=i128::MAX`.
proof fn lemma_amounts_ok(sqrts: Seq<int>, remaining: i128, component: int)
    requires
        forall|k: int| 0 <= k < sqrts.len() ==> #[trigger] sqrts[k] >= 0,
        remaining >= 0,
        match_amounts(sqrts, remaining, component) is Ok,
    ensures
        match_amounts(sqrts, remaining, component)->Ok_0.0.len() == sqrts.len(),
        forall|k: int|
            0 <= k < sqrts.len() ==> {
                &&& match_for(#[trigger] sqrts[k], remaining, component) is Ok
                &&& match_amounts(sqrts, remaining, component)->Ok_0.0[k] == match_for(
                    sqrts[k],
                    remaining,
                    component,
                )->Ok_0
                &&& 0 <= match_amounts(sqrts, remaining, component)->Ok_0.0[k] <= i128::MAX
            },
    decreases sqrts.len(),
{
    if sqrts.len() > 0 {
        let front = sqrts.drop_last();
        assert(forall|k: int| 0 <= k < front.len() ==> front[k] == sqrts[k]);
        lemma_amounts_ok(front, remaining, component);
        let x = sqrts.last();
        assert(x == sqrts[sqrts.len() - 1]);
        let prev = match_amounts(front, remaining, component)->Ok_0;
        let m = match_for(x, remaining, component)->Ok_0;
        assert(match_amounts(sqrts, remaining, component)->Ok_0.0 == prev.0.push(m));
        if component > 0 {
            let product = x * remaining;
            assert(0 <= product) by (nonlinear_arith)
                requires
                    x >= 0,
                    remaining >= 0,
                    product == x * remaining,
            ;
            let q = product / component;
            assert(0 <= q <= product) by (nonlinear_arith)
                requires
                    product >= 0,
                    component > 0,
                    q == product / component,
            ;
            assert(0 <= q / FIXED_POINT_SCALE as int <= q) by (nonlinear_arith)
                requires
                    q >= 0,
            ;
        }
        assert forall|k: int| 0 <= k < sqrts.len() implies {
            &&& match_for(#[trigger] sqrts[k], remaining, component) is Ok
            &&& match_amounts(sqrts, remaining, component)->Ok_0.0[k] == match_for(
                sqrts[k],
                remaining,
                component,
            )->Ok_0
            &&& 0 <= match_amounts(sqrts, remaining, component)->Ok_0.0[k] <= i128::MAX
        } by {
            if k < sqrts.len() - 1 {
                assert(sqrts[k] == front[k]);
            }
        }
    }
}

/// Writing the matched amounts of listed projects, where a project listed
/// twice has the same amount each time, leaves each listed project with its amount.
proof fn lemma_commit_matched_values(
    matched: Map<(u64, u64), i128>,
    pool_id: u64,
    projects: Seq<u64>,
    amounts: Seq<int>,
    n: int,
)
    requires
        0 <= n <= projects.len(),
        n <= amounts.len(),
        forall|a: int, b: int|
            0 <= a < n && 0 <= b < n && projects[a] == projects[b] ==> amounts[a] == amounts[b],
    ensures
        forall|k: int|
            0 <= k < n ==> #[trigger] commit_matched(matched, pool_id, projects, amounts, n).contains_key(
                (pool_id, projects[k]),
            ) && commit_matched(matched, pool_id, projects, amounts, n)[(pool_id, projects[k])]
                == amounts[k] as i128,
    decreases n,
{
    if n > 0 {
        lemma_commit_matched_values(matched, pool_id, projects, amounts, n - 1);
        let last = projects[n - 1];
        assert forall|k: int| 0 <= k < n implies #[trigger] commit_matched(
            matched,
            pool_id,
            projects,
            amounts,
            n,
        ).contains_key((pool_id, projects[k])) && commit_matched(
            matched,
            pool_id,
            projects,
            amounts,
            n,
        )[(pool_id, projects[k])] == amounts[k] as i128 by {
            if projects[k] == last {
                assert(amounts[k] == amounts[n - 1]);
            } else {
                assert(commit_matched(matched, pool_id, projects, amounts, n - 1).contains_key(
                    (pool_id, projects[k]),
                ));
            }
        }
    }
}

/// Matching is monotone over a whole matching call: after a successful
/// `calculate_matching` of a pool that still held funds, any listed project is
/// matched a non-negative amount, and no more than a listed project whose
/// contributions are at least its own.
pub proof fn law_matching_monotone_in_round(
    v: MatchingView,
    pool_id: u64,
    projects: Seq<u64>,
    now: u64,
    i: int,
    j: int,
)
    requires
        v.calculate_matching_spec(pool_id, projects, now).1 is Ok,
        v.pools[pool_id].remaining_match_amount >= 0,
        0 <= i < projects.len(),
        0 <= j < projects.len(),
        v.contributions[(pool_id, projects[i])].total_contributions
            <= v.contributions[(pool_id, projects[j])].total_contributions,
    ensures
        ({
            let w = v.calculate_matching_spec(pool_id, projects, now).0;
            &&& w.matched.contains_key((pool_id, projects[i]))
            &&& w.matched.contains_key((pool_id, projects[j]))
            &&& 0 <= w.matched[(pool_id, projects[i])] <= w.matched[(pool_id, projects[j])]
        }),
{
    let sqrts = project_sqrts(v.contributions, pool_id, projects)->Ok_0;
    lemma_project_sqrts_ok(v.contributions, pool_id, projects, sqrts);
    let remaining = v.pools[pool_id].remaining_match_amount;
    let sum = checked_sum(sqrts)->Ok_0;
    let component = (floor_sqrt(sum as nat) as int);
    let amounts = match_amounts(sqrts, remaining, component)->Ok_0.0;
    lemma_amounts_ok(sqrts, remaining, component);
    let n = projects.len() as int;
    assert forall|a: int, b: int|
        0 <= a < n && 0 <= b < n && projects[a] == projects[b] implies amounts[a] == amounts[b] by {
        assert(project_sqrt(v.contributions, pool_id, projects[a]) == Ok::<int, MatchingError>(
            sqrts[a],
        ));
        assert(project_sqrt(v.contributions, pool_id, projects[b]) == Ok::<int, MatchingError>(
            sqrts[b],
        ));
        assert(match_for(sqrts[a], remaining, component) is Ok);
        assert(match_for(sqrts[b], remaining, component) is Ok);
    }
    lemma_commit_matched_values(v.matched, pool_id, projects, amounts, n);
    assert(project_sqrt(v.contributions, pool_id, projects[i]) == Ok::<int, MatchingError>(sqrts[i]));
    assert(project_sqrt(v.contributions, pool_id, projects[j]) == Ok::<int, MatchingError>(sqrts[j]));
    assert(match_for(sqrts[i], remaining, component) is Ok);
    assert(match_for(sqrts[j], remaining, component) is Ok);
    assert(sqrts[i] >= 0);
    let ti = v.contributions[(pool_id, projects[i])].total_contributions as int;
    assert(ti >= 0) by {
        let scaled = ti * FIXED_POINT_SCALE;
        assert(isqrt_result(scaled) is Ok);
        if ti < 0 {
            assert(scaled < 0) by (nonlinear_arith)
                requires
                    ti < 0,
                    scaled == ti * FIXED_POINT_SCALE,
            ;
        }
    }
    law_matching_monotone(v.contributions, pool_id, projects[i], projects[j], remaining, component);
}

/// A new pool holds exactly what it was opened with: after a successful
/// `initialize_pool`, the pool has the given id, administrator, token, match
/// amount (all of it remaining), donation bounds and SEP-12 requirement, is
/// active, and its round runs from `now` for the given duration, not yet
/// finalized and with nothing distributed. Opening succeeds exactly when the
/// amounts are positive and the round's end fits in a timestamp.
pub proof fn law_pool_opened_as_given(
    v: MatchingView,
    pool_id: u64,
    admin: Address,
    token: Address,
    total_match_amount: i128,
    round_duration_secs: u64,
    requires_sep12: bool,
    min_donation: i128,
    max_donation_per_donor: i128,
    now: u64,
)
    ensures
        ({
            let (w, r) = v.initialize_pool_spec(
                pool_id,
                admin,
                token,
                total_match_amount,
                round_duration_secs,
                requires_sep12,
                min_donation,
                max_donation_per_donor,
                now,
            );
            &&& (r is Ok) == (total_match_amount > 0 && min_donation > 0 && now
                + round_duration_secs <= u64::MAX)
            &&& r is Err ==> w == v
            &&& r is Ok ==> {
                let p = w.pools[pool_id];
                &&& w.pools.contains_key(pool_id)
                &&& p.pool_id == pool_id
                &&& p.admin == admin
                &&& p.token == token
                &&& p.total_match_amount == total_match_amount
                &&& p.remaining_match_amount == total_match_amount
                &&& p.is_active
                &&& p.round_started_at == now
                &&& p.round_ends_at == now + round_duration_secs
                &&& p.requires_sep12 == requires_sep12
                &&& p.min_donation == min_donation
                &&& p.max_donation_per_donor == max_donation_per_donor
                &&& w.rounds.contains_key(pool_id)
                &&& w.rounds[pool_id].pool_id == pool_id
                &&& !w.rounds[pool_id].is_finalized
                &&& w.rounds[pool_id].total_matched_distributed == 0
                &&& forall|q: u64| q != pool_id ==> w.pools.contains_key(q) == v.pools.contains_key(
                    q,
                ) && (v.pools.contains_key(q) ==> #[trigger] w.pools[q] == v.pools[q])
            }
        }),
{
}

/// Payouts of different projects are independent, and each project is paid
/// its own matched amount: paying one project leaves the payout of every other
/// project as it was, and a project with a positive matched amount that has no
/// payout recorded is paid exactly that amount.
pub proof fn law_payouts_per_project(v: MatchingView, pool_id: u64, project_id: u64, other: u64)
    requires
        project_id != other,
    ensures
        v.distribute_spec(pool_id, project_id).0.distribute_spec(pool_id, other).1
            == v.distribute_spec(pool_id, other).1,
        v.pools.contains_key(pool_id) && v.matched.contains_key((pool_id, project_id)) && v.matched[(
        pool_id,
        project_id,
        )] > 0 && !v.paid.contains_key((pool_id, project_id)) ==> v.distribute_spec(
            pool_id,
            project_id,
        ).1 == Ok::<i128, MatchingError>(v.matched[(pool_id, project_id)]),
{
}

/// A donor with a reputation weighs its donation by its influence: the
/// receipt's multiplier is `1x + score * (max - 1x) / 1x` (rounded towards
/// zero), capped at the maximum multiplier in force, for the donor's stored
/// score; a donor without a reputation weighs 1x. So under the default
/// configuration a donor at 50% (score 0.5) weighs 2x and one at 0% weighs 1x.
/// (For a donor whose influence stays within machine integers, as `donate`
/// requires of a donation that passes the pool's checks.)
pub proof fn law_donation_weighted_by_influence(
    v: MatchingView,
    rep: ReputationView,
    pool_id: u64,
    project_id: u64,
    donor: Address,
    amount: i128,
    now: u64,
)
    requires
        v.donate_spec(rep, pool_id, project_id, donor, amount, now).1 is Ok,
        rep.influence_defined(donor),
    ensures
        ({
            let receipt = v.donate_spec(rep, pool_id, project_id, donor, amount, now).1->Ok_0;
            let max = rep.config_in_force().max_multiplier as int;
            &&& rep.reputations.contains_key(donor) ==> {
                let score = rep.reputations[donor].reputation_score as int;
                let product = score * (max - REPUTATION_SCALE);
                let grown = REPUTATION_SCALE + (if product >= 0 {
                    product / (REPUTATION_SCALE as int)
                } else {
                    -((-product) / (REPUTATION_SCALE as int))
                });
                receipt.influence_multiplier == (if grown <= max {
                    grown
                } else {
                    max
                })
            }
            &&& !rep.reputations.contains_key(donor) ==> receipt.influence_multiplier
                == FIXED_POINT_SCALE
            &&& (rep.reputations.contains_key(donor) && rep.config is None
                && rep.reputations[donor].reputation_score == REPUTATION_SCALE / 2)
                ==> receipt.influence_multiplier == 2 * REPUTATION_SCALE
            &&& (rep.reputations.contains_key(donor) && rep.reputations[donor].reputation_score == 0
                && max >= REPUTATION_SCALE) ==> receipt.influence_multiplier == REPUTATION_SCALE
        }),
{
    if rep.reputations.contains_key(donor) && rep.config is None
        && rep.reputations[donor].reputation_score == REPUTATION_SCALE / 2 {
        assert((500_000_000_000_000_000int * 2_000_000_000_000_000_000int) / 1_000_000_000_000_000_000int
            == 1_000_000_000_000_000_000int);
    }
}

/// The plain sum of a sequence of integers.
pub open spec fn sum_of(v: Seq<int>) -> int
    decreases v.len(),
{
    if v.len() == 0 {
        0
    } else {
        sum_of(v.drop_last()) + v.last()
    }
}

/// A sum that stays within `i128` is the plain sum.
proof fn lemma_checked_sum_is_sum(v: Seq<int>)
    requires
        checked_sum(v) is Ok,
    ensures
        checked_sum(v)->Ok_0 == sum_of(v),
    decreases v.len(),
{
    if v.len() > 0 {
        lemma_checked_sum_is_sum(v.drop_last());
    }
}

/// The integer square root of a project's scaled contributions.
pub open spec fn root_of(contributions: Map<(u64, u64), ProjectContribution>, pool_id: u64, project_id: u64) -> int {
    floor_sqrt((contributions[(pool_id, project_id)].total_contributions * FIXED_POINT_SCALE) as nat)
        as int
}

/// Quadratic matching, stated from the contributions: after a successful
/// `calculate_matching` of a pool that still held funds, each listed project
/// `p` has the square root `r_p` of its scaled contributions stored, and is
/// matched `r_p * remaining / c / 1e18` (rounded down), where `c` is the
/// integer square root of the sum of the listed projects' roots and
/// `remaining` what the pool held; nothing when `c` is 0.
pub proof fn law_matching_amounts(
    v: MatchingView,
    pool_id: u64,
    projects: Seq<u64>,
    now: u64,
    k: int,
)
    requires
        v.calculate_matching_spec(pool_id, projects, now).1 is Ok,
        v.pools[pool_id].remaining_match_amount >= 0,
        0 <= k < projects.len(),
    ensures
        ({
            let w = v.calculate_matching_spec(pool_id, projects, now).0;
            let roots = Seq::new(
                projects.len(),
                |i: int| root_of(v.contributions, pool_id, projects[i]),
            );
            let c = floor_sqrt(sum_of(roots) as nat) as int;
            let r = root_of(v.contributions, pool_id, projects[k]);
            let remaining = v.pools[pool_id].remaining_match_amount as int;
            &&& w.matched.contains_key((pool_id, projects[k]))
            &&& w.matched[(pool_id, projects[k])] == (if c > 0 {
                (r * remaining / c) / (FIXED_POINT_SCALE as int)
            } else {
                0
            })
        }),
{
    let sqrts = project_sqrts(v.contributions, pool_id, projects)->Ok_0;
    lemma_project_sqrts_ok(v.contributions, pool_id, projects, sqrts);
    let remaining = v.pools[pool_id].remaining_match_amount;
    let sum = checked_sum(sqrts)->Ok_0;
    lemma_checked_sum_is_sum(sqrts);
    let component = (floor_sqrt(sum as nat) as int);
    let amounts = match_amounts(sqrts, remaining, component)->Ok_0.0;
    lemma_amounts_ok(sqrts, remaining, component);
    let n = projects.len() as int;
    let roots = Seq::new(projects.len(), |i: int| root_of(v.contributions, pool_id, projects[i]));
    assert forall|i: int| 0 <= i < n implies #[trigger] roots[i] == sqrts[i] by {
        assert(project_sqrt(v.contributions, pool_id, projects[i]) == Ok::<int, MatchingError>(
            sqrts[i],
        ));
        let scaled = v.contributions[(pool_id, projects[i])].total_contributions * FIXED_POINT_SCALE;
        assert(isqrt_result(scaled) is Ok);
    }
    assert(roots =~= sqrts);
    assert forall|a: int, b: int|
        0 <= a < n && 0 <= b < n && projects[a] == projects[b] implies amounts[a] == amounts[b] by {
        assert(project_sqrt(v.contributions, pool_id, projects[a]) == Ok::<int, MatchingError>(
            sqrts[a],
        ));
        assert(project_sqrt(v.contributions, pool_id, projects[b]) == Ok::<int, MatchingError>(
            sqrts[b],
        ));
        assert(match_for(sqrts[a], remaining, component) is Ok);
        assert(match_for(sqrts[b], remaining, component) is Ok);
    }
    lemma_commit_matched_values(v.matched, pool_id, projects, amounts, n);
    assert(match_for(sqrts[k], remaining, component) is Ok);
    assert(sqrts[k] >= 0);
    if component > 0 {
        let x = sqrts[k];
        assert(x * remaining >= 0) by (nonlinear_arith)
            requires
                x >= 0,
                remaining >= 0,
        ;
        assert((x * remaining) / component >= 0) by (nonlinear_arith)
            requires
                x * remaining >= 0,
                component > 0,
        ;
    }
}

} // verus!
