//! Donor reputation: tracks donor success rates from the projects they fund.
//! Higher-reputation donors get more influence in matching rounds.
//!
//! - success rate from milestone completion of qualifying projects;
//! - a minimum funding threshold keeps small projects from farming reputation;
//! - influence scales linearly from 1x to the configured maximum;
//! - every reputation change is recorded in an audit trail.
use crate::address::Address;
use crate::table::Table;
use vstd::prelude::*;

verus! {

/// Fixed-point precision for reputation calculations (18 decimals).
pub const REPUTATION_SCALE: i128 = 1_000_000_000_000_000_000;

/// Basis points scale (100 = 1%).
pub const BASIS_POINTS: i128 = 10_000;

/// Default minimum funding threshold for reputation accrual (100 USDC in 7-decimal units).
pub const DEFAULT_MIN_FUNDING_THRESHOLD: i128 = 1_000_000_000;

/// Maximum reputation multiplier (3x influence).
pub const MAX_REPUTATION_MULTIPLIER: i128 = 3_000_000_000_000_000_000;

/// Time window for reputation calculation (90 days in seconds).
pub const REPUTATION_WINDOW_SECS: u64 = 7_776_000;

/// Default weight of recent projects: 50% in basis points.
pub const DEFAULT_RECENCY_WEIGHT: i128 = 5_000;

/// Lifecycle status of a funded project.
#[derive(Clone, Copy, Debug, PartialEq, Eq, Structural)]
pub enum GrantStatus {
    Active,
    Completed,
    Cancelled,
}

/// Reputation of one donor.
#[derive(Clone, Copy, Debug, PartialEq, Eq, Structural)]
pub struct DonorReputation {
    /// Donor address.
    pub donor: Address,
    /// Current reputation score (scaled by `REPUTATION_SCALE`).
    pub reputation_score: i128,
    /// Success rate in basis points.
    pub success_rate: i128,
    /// Total amount funded across all qualifying projects.
    pub total_funded: i128,
    /// Number of funded projects that meet the minimum threshold.
    pub qualifying_projects: u32,
    /// Number of successfully completed qualifying projects.
    pub successful_projects: u32,
    /// Timestamp of the last reputation update.
    pub last_updated: u64,
    /// Influence multiplier (scaled by `REPUTATION_SCALE`).
    pub influence_multiplier: i128,
}

/// Success metrics of one funded project.
#[derive(Clone, Copy, Debug, PartialEq, Eq, Structural)]
pub struct ProjectSuccessMetrics {
    pub project_id: u64,
    /// Donor who funded this project.
    pub donor: Address,
    pub total_milestones: u32,
    pub completed_milestones: u32,
    pub project_status: GrantStatus,
    /// Amount funded by the donor.
    pub funded_amount: i128,
    pub created_at: u64,
    /// When the project was completed or failed.
    pub completed_at: Option<u64>,
}

/// Record of one completed milestone.
#[derive(Clone, Copy, Debug, PartialEq, Eq)]
pub struct MilestoneRecord {
    pub project_id: u64,
    pub milestone_index: u32,
    pub is_completed: bool,
    pub completed_at: Option<u64>,
    /// Evidence hash for the milestone completion.
    pub evidence_hash: Option<[u8; 32]>,
}

/// Reputation configuration.
#[derive(Clone, Copy, Debug, PartialEq, Eq, Structural)]
pub struct ReputationConfig {
    /// Minimum funding for a project to count towards reputation.
    pub min_funding_threshold: i128,
    /// Maximum influence multiplier.
    pub max_multiplier: i128,
    /// Reputation calculation window in seconds.
    pub calculation_window_secs: u64,
    /// Weight given to recent projects (basis points).
    pub recency_weight: i128,
}

/// Why a reputation changed.
#[derive(Clone, Copy, Debug, PartialEq, Eq, Structural)]
pub enum ReputationUpdateReason {
    ProjectFunded,
    MilestoneCompleted,
    ProjectCompleted,
    ProjectFailed,
    ManualAdjustment,
    Recalculation,
}

/// One entry of the reputation audit trail.
#[derive(Clone, Copy, Debug, PartialEq, Eq, Structural)]
pub struct ReputationUpdate {
    /// Update id (increasing).
    pub update_id: u64,
    pub donor: Address,
    pub previous_score: i128,
    pub new_score: i128,
    pub reason: ReputationUpdateReason,
    pub project_id: Option<u64>,
    pub timestamp: u64,
}

#[derive(Clone, Copy, Debug, PartialEq, Eq, Structural)]
pub enum ReputationError {
    NotInitialized,
    NotAuthorized,
    DonorNotFound,
    ProjectNotFound,
    InvalidAmount,
    InsufficientThreshold,
    MathOverflow,
    InvalidTimestamp,
    ReputationTooHigh,
    DuplicateMilestone,
    InvalidMilestoneIndex,
    ProjectNotCompleted,
    ConfigurationError,
}

/// Rust's integer division (rounding towards zero) for a positive divisor.
pub open spec fn trunc_div(a: int, b: int) -> int {
    if a >= 0 {
        a / b
    } else {
        -((-a) / b)
    }
}

pub open spec fn min_int(a: int, b: int) -> int {
    if a <= b {
        a
    } else {
        b
    }
}

pub open spec fn default_config() -> ReputationConfig {
    ReputationConfig {
        min_funding_threshold: DEFAULT_MIN_FUNDING_THRESHOLD,
        max_multiplier: MAX_REPUTATION_MULTIPLIER,
        calculation_window_secs: REPUTATION_WINDOW_SECS,
        recency_weight: DEFAULT_RECENCY_WEIGHT,
    }
}

/// Whether the multiplier formula stays within `i128` for this score and configuration.
pub open spec fn multiplier_defined(score: int, config: ReputationConfig) -> bool {
    let span = config.max_multiplier - REPUTATION_SCALE;
    &&& i128::MIN <= span <= i128::MAX
    &&& i128::MIN <= score * span <= i128::MAX
    &&& i128::MIN <= REPUTATION_SCALE + trunc_div(score * span, REPUTATION_SCALE as int)
        <= i128::MAX
}

/// Linear influence: 1x at score 0, growing with the score, capped at the maximum.
pub open spec fn influence_multiplier(score: int, config: ReputationConfig) -> int {
    min_int(
        REPUTATION_SCALE + trunc_div(
            score * (config.max_multiplier - REPUTATION_SCALE),
            REPUTATION_SCALE as int,
        ),
        config.max_multiplier as int,
    )
}

/// Whether project `id` has metrics and meets the funding threshold.
pub open spec fn qualifies(metrics: Map<u64, ProjectSuccessMetrics>, id: u64, threshold: i128) -> bool {
    metrics.contains_key(id) && metrics[id].funded_amount >= threshold
}

/// Whether project `id` qualifies and has completed.
pub open spec fn succeeded(metrics: Map<u64, ProjectSuccessMetrics>, id: u64, threshold: i128) -> bool {
    qualifies(metrics, id, threshold) && metrics[id].project_status == GrantStatus::Completed
}

/// Number of entries of `ids` that qualify (an id listed twice counts twice).
pub open spec fn qualifying_count(
    ids: Seq<u64>,
    metrics: Map<u64, ProjectSuccessMetrics>,
    threshold: i128,
) -> nat
    decreases ids.len(),
{
    if ids.len() == 0 {
        0
    } else {
        qualifying_count(ids.drop_last(), metrics, threshold) + if qualifies(
            metrics,
            ids.last(),
            threshold,
        ) {
            1nat
        } else {
            0nat
        }
    }
}

/// Number of entries of `ids` that qualify and have completed.
pub open spec fn successful_count(
    ids: Seq<u64>,
    metrics: Map<u64, ProjectSuccessMetrics>,
    threshold: i128,
) -> nat
    decreases ids.len(),
{
    if ids.len() == 0 {
        0
    } else {
        successful_count(ids.drop_last(), metrics, threshold) + if succeeded(
            metrics,
            ids.last(),
            threshold,
        ) {
            1nat
        } else {
            0nat
        }
    }
}

/// Sum of the funded amounts of the qualifying entries of `ids`.
pub open spec fn qualifying_total(
    ids: Seq<u64>,
    metrics: Map<u64, ProjectSuccessMetrics>,
    threshold: i128,
) -> int
    decreases ids.len(),
{
    if ids.len() == 0 {
        0
    } else {
        qualifying_total(ids.drop_last(), metrics, threshold) + if qualifies(
            metrics,
            ids.last(),
            threshold,
        ) {
            metrics[ids.last()].funded_amount as int
        } else {
            0
        }
    }
}

/// Every running sum of qualifying funded amounts fits in an `i128`.
pub open spec fn qualifying_sums_fit(
    ids: Seq<u64>,
    metrics: Map<u64, ProjectSuccessMetrics>,
    threshold: i128,
) -> bool
    decreases ids.len(),
{
    if ids.len() == 0 {
        true
    } else {
        qualifying_sums_fit(ids.drop_last(), metrics, threshold) && i128::MIN <= qualifying_total(
            ids,
            metrics,
            threshold,
        ) <= i128::MAX
    }
}

/// Success rate: the share of qualifying projects that completed, as a whole
/// percentage (rounded half up) expressed in basis points; 0 without
/// qualifying projects.
pub open spec fn success_rate_of(qualifying: nat, successful: nat) -> int {
    if qualifying == 0 {
        0
    } else {
        let num: int = 200 * successful as int + qualifying as int;
        let den: int = 2 * qualifying as int;
        (num / den) * (BASIS_POINTS / 100)
    }
}

/// A success rate lies between 0% and 100% when the completed projects are
/// among the qualifying ones.
pub proof fn lemma_rate_bounds(qualifying: nat, successful: nat)
    requires
        successful <= qualifying,
    ensures
        0 <= success_rate_of(qualifying, successful) <= BASIS_POINTS,
        success_rate_of(qualifying, successful) % 100 == 0,
{
    if qualifying > 0 {
        let q = qualifying as int;
        let pct = (200 * successful + q) / (2 * q);
        assert(0 <= pct <= 100) by (nonlinear_arith)
            requires
                pct == (200 * successful + q) / (2 * q),
                0 <= successful <= q,
                q > 0,
        {
            assert(200 * successful + q < 2 * q * 101);
        }
    }
}

/// Reputation score from a success rate: 0% gives 0, 100% gives `REPUTATION_SCALE`.
pub open spec fn score_of(rate: int) -> int {
    rate * REPUTATION_SCALE / (BASIS_POINTS as int)
}

/// A stored reputation record is consistent: its rate is a percentage, its
/// score is the score of that rate, its completed projects are among the
/// qualifying ones, and its multiplier is at least 1x.
pub open spec fn record_consistent(r: DonorReputation) -> bool {
    &&& 0 <= r.success_rate <= BASIS_POINTS
    &&& r.reputation_score == score_of(r.success_rate as int)
    &&& r.successful_projects <= r.qualifying_projects
    &&& REPUTATION_SCALE <= r.influence_multiplier
}

/// When recomputing a reputation over the projects `ids` stays within
/// machine integers.
pub open spec fn defined_on(
    ids: Seq<u64>,
    metrics: Map<u64, ProjectSuccessMetrics>,
    config: ReputationConfig,
) -> bool {
    let t = config.min_funding_threshold;
    &&& qualifying_count(ids, metrics, t) <= u32::MAX
    &&& multiplier_defined(
        score_of(success_rate_of(qualifying_count(ids, metrics, t), successful_count(ids, metrics, t))),
        config,
    )
    &&& qualifying_sums_fit(ids, metrics, t)
}

/// The stored state of the reputation system, as maps.
#[verifier::ext_equal]
pub ghost struct ReputationView {
    /// The administrator set by `initialize`.
    pub admin: Option<Address>,
    pub reputations: Map<Address, DonorReputation>,
    pub metrics: Map<u64, ProjectSuccessMetrics>,
    pub config: Option<ReputationConfig>,
    pub update_counter: Option<u64>,
    pub updates: Map<u64, ReputationUpdate>,
    pub funded_projects: Map<Address, Seq<u64>>,
    pub milestones: Map<(u64, u32), MilestoneRecord>,
}

impl ReputationView {
    /// The configuration in force (the default until one is stored).
    pub open spec fn config_in_force(self) -> ReputationConfig {
        match self.config {
            Some(c) => c,
            None => default_config(),
        }
    }

    /// What holds in every state the operations reach from empty storage: the
    /// configuration in force is valid and every stored record is consistent.
    pub open spec fn well_formed(self) -> bool {
        &&& self.config_in_force().max_multiplier > REPUTATION_SCALE
        &&& self.config_in_force().min_funding_threshold > 0
        &&& forall|d: Address| #[trigger]
            self.reputations.contains_key(d) ==> record_consistent(self.reputations[d])
    }

    /// Projects funded by `donor`, in funding order.
    pub open spec fn funded_list(self, donor: Address) -> Seq<u64> {
        if self.funded_projects.contains_key(donor) {
            self.funded_projects[donor]
        } else {
            Seq::empty()
        }
    }

    pub open spec fn qualifying_of(self, donor: Address) -> nat {
        qualifying_count(
            self.funded_list(donor),
            self.metrics,
            self.config_in_force().min_funding_threshold,
        )
    }

    pub open spec fn successful_of(self, donor: Address) -> nat {
        successful_count(
            self.funded_list(donor),
            self.metrics,
            self.config_in_force().min_funding_threshold,
        )
    }

    pub open spec fn qualifying_total_of(self, donor: Address) -> int {
        qualifying_total(
            self.funded_list(donor),
            self.metrics,
            self.config_in_force().min_funding_threshold,
        )
    }

    /// The donor's success rate in basis points.
    pub open spec fn success_rate(self, donor: Address) -> int {
        success_rate_of(self.qualifying_of(donor), self.successful_of(donor))
    }

    /// The donor's reputation score.
    pub open spec fn score(self, donor: Address) -> int {
        score_of(self.success_rate(donor))
    }

    /// When recomputing the donor's reputation stays within machine integers.
    pub open spec fn update_defined(self, donor: Address) -> bool {
        defined_on(self.funded_list(donor), self.metrics, self.config_in_force())
    }

    /// The state after `initialize` by `admin`, with its result.
    pub open spec fn initialize_spec(self, admin: Address) -> (Self, Result<(), ReputationError>) {
        if self.config is Some {
            (self, Err(ReputationError::NotInitialized))
        } else {
            (
                ReputationView {
                    admin: Some(admin),
                    config: Some(default_config()),
                    update_counter: Some(0),
                    ..self
                },
                Ok(()),
            )
        }
    }

    /// The state after `update_config` by `caller`, with its result: only the
    /// administrator may change the configuration.
    pub open spec fn update_config_spec(
        self,
        caller: Address,
        min_funding_threshold: Option<i128>,
        max_multiplier: Option<i128>,
        calculation_window_secs: Option<u64>,
        recency_weight: Option<i128>,
    ) -> (Self, Result<(), ReputationError>) {
        let c = self.config_in_force();
        if self.admin is None {
            (self, Err(ReputationError::NotInitialized))
        } else if self.admin != Some(caller) {
            (self, Err(ReputationError::NotAuthorized))
        } else if min_funding_threshold matches Some(t) && t <= 0 {
            (self, Err(ReputationError::InvalidAmount))
        } else if max_multiplier matches Some(m) && m <= REPUTATION_SCALE {
            (self, Err(ReputationError::InvalidAmount))
        } else if calculation_window_secs matches Some(w) && w == 0 {
            (self, Err(ReputationError::InvalidTimestamp))
        } else if recency_weight matches Some(w) && (w < 0 || w > BASIS_POINTS) {
            (self, Err(ReputationError::ConfigurationError))
        } else {
            let new_config = ReputationConfig {
                min_funding_threshold: match min_funding_threshold {
                    Some(t) => t,
                    None => c.min_funding_threshold,
                },
                max_multiplier: match max_multiplier {
                    Some(m) => m,
                    None => c.max_multiplier,
                },
                calculation_window_secs: match calculation_window_secs {
                    Some(w) => w,
                    None => c.calculation_window_secs,
                },
                recency_weight: match recency_weight {
                    Some(w) => w,
                    None => c.recency_weight,
                },
            };
            (ReputationView { config: Some(new_config), ..self }, Ok(()))
        }
    }

    /// The stored entries after funding a project, before the reputation update.
    pub open spec fn with_funded_project(
        self,
        donor: Address,
        project_id: u64,
        funded_amount: i128,
        total_milestones: u32,
        now: u64,
    ) -> Self {
        ReputationView {
            metrics: self.metrics.insert(
                project_id,
                ProjectSuccessMetrics {
                    project_id,
                    donor,
                    total_milestones,
                    completed_milestones: 0,
                    project_status: GrantStatus::Active,
                    funded_amount,
                    created_at: now,
                    completed_at: None,
                },
            ),
            funded_projects: self.funded_projects.insert(
                donor,
                self.funded_list(donor).push(project_id),
            ),
            ..self
        }
    }

    pub open spec fn funding_is_valid(funded_amount: i128, total_milestones: u32) -> bool {
        funded_amount > 0 && total_milestones != 0
    }

    /// When `record_project_funded` stays within machine integers.
    pub open spec fn record_project_funded_defined(
        self,
        donor: Address,
        project_id: u64,
        funded_amount: i128,
        total_milestones: u32,
        now: u64,
    ) -> bool {
        let s1 = self.with_funded_project(donor, project_id, funded_amount, total_milestones, now);
        Self::funding_is_valid(funded_amount, total_milestones) && funded_amount
            >= self.config_in_force().min_funding_threshold ==> s1.update_defined(donor)
    }

    /// The state after `record_project_funded`, with its result.
    pub open spec fn record_project_funded_spec(
        self,
        donor: Address,
        project_id: u64,
        funded_amount: i128,
        total_milestones: u32,
        now: u64,
    ) -> (Self, Result<(), ReputationError>) {
        if !Self::funding_is_valid(funded_amount, total_milestones) {
            (self, Err(ReputationError::InvalidAmount))
        } else {
            let s1 = self.with_funded_project(
                donor,
                project_id,
                funded_amount,
                total_milestones,
                now,
            );
            if funded_amount >= self.config_in_force().min_funding_threshold {
                (
                    s1.update_reputation(
                        donor,
                        ReputationUpdateReason::ProjectFunded,
                        Some(project_id),
                        now,
                    ),
                    Ok(()),
                )
            } else {
                (s1, Ok(()))
            }
        }
    }

    /// The check that a milestone may be recorded.
    pub open spec fn milestone_check(self, project_id: u64, milestone_index: u32) -> Result<
        (),
        ReputationError,
    > {
        if !self.metrics.contains_key(project_id) {
            Err(ReputationError::ProjectNotFound)
        } else if milestone_index >= self.metrics[project_id].total_milestones {
            Err(ReputationError::InvalidMilestoneIndex)
        } else if self.milestones.contains_key((project_id, milestone_index)) {
            Err(ReputationError::DuplicateMilestone)
        } else {
            Ok(())
        }
    }

    /// Metrics of a project after one more milestone completes at `now`.
    pub open spec fn metrics_after_milestone(m: ProjectSuccessMetrics, now: u64) -> ProjectSuccessMetrics {
        let completed = (m.completed_milestones + 1) as u32;
        if completed == m.total_milestones {
            ProjectSuccessMetrics {
                completed_milestones: completed,
                project_status: GrantStatus::Completed,
                completed_at: Some(now),
                ..m
            }
        } else {
            ProjectSuccessMetrics { completed_milestones: completed, ..m }
        }
    }

    /// The stored entries after recording a milestone, before the reputation update.
    pub open spec fn with_milestone(
        self,
        project_id: u64,
        milestone_index: u32,
        evidence_hash: Option<[u8; 32]>,
        now: u64,
    ) -> Self {
        ReputationView {
            milestones: self.milestones.insert(
                (project_id, milestone_index),
                MilestoneRecord {
                    project_id,
                    milestone_index,
                    is_completed: true,
                    completed_at: Some(now),
                    evidence_hash,
                },
            ),
            metrics: self.metrics.insert(
                project_id,
                Self::metrics_after_milestone(self.metrics[project_id], now),
            ),
            ..self
        }
    }

    /// When `record_milestone_completed` stays within machine integers.
    pub open spec fn record_milestone_completed_defined(
        self,
        project_id: u64,
        milestone_index: u32,
        evidence_hash: Option<[u8; 32]>,
        now: u64,
    ) -> bool {
        self.milestone_check(project_id, milestone_index) is Ok ==> {
            &&& self.metrics[project_id].completed_milestones < u32::MAX
            &&& self.with_milestone(project_id, milestone_index, evidence_hash, now).update_defined(
                self.metrics[project_id].donor,
            )
        }
    }

    /// The state after `record_milestone_completed`, with its result.
    pub open spec fn record_milestone_completed_spec(
        self,
        project_id: u64,
        milestone_index: u32,
        evidence_hash: Option<[u8; 32]>,
        now: u64,
    ) -> (Self, Result<(), ReputationError>) {
        match self.milestone_check(project_id, milestone_index) {
            Err(e) => (self, Err(e)),
            Ok(()) => (
                self.with_milestone(project_id, milestone_index, evidence_hash, now).update_reputation(
                    self.metrics[project_id].donor,
                    ReputationUpdateReason::MilestoneCompleted,
                    Some(project_id),
                    now,
                ),
                Ok(()),
            ),
        }
    }

    /// The check that a project may be marked failed.
    pub open spec fn failure_check(self, project_id: u64) -> Result<(), ReputationError> {
        if !self.metrics.contains_key(project_id) {
            Err(ReputationError::ProjectNotFound)
        } else if self.metrics[project_id].project_status == GrantStatus::Completed {
            Err(ReputationError::ProjectNotCompleted)
        } else {
            Ok(())
        }
    }

    /// The stored entries after marking a project failed, before the reputation update.
    pub open spec fn with_failed_project(self, project_id: u64, now: u64) -> Self {
        ReputationView {
            metrics: self.metrics.insert(
                project_id,
                ProjectSuccessMetrics {
                    project_status: GrantStatus::Cancelled,
                    completed_at: Some(now),
                    ..self.metrics[project_id]
                },
            ),
            ..self
        }
    }

    /// When `record_project_failed` stays within machine integers.
    pub open spec fn record_project_failed_defined(self, project_id: u64, now: u64) -> bool {
        self.failure_check(project_id) is Ok ==> self.with_failed_project(
            project_id,
            now,
        ).update_defined(self.metrics[project_id].donor)
    }

    /// The state after `record_project_failed`, with its result.
    pub open spec fn record_project_failed_spec(self, project_id: u64, now: u64) -> (
        Self,
        Result<(), ReputationError>,
    ) {
        match self.failure_check(project_id) {
            Err(e) => (self, Err(e)),
            Ok(()) => (
                self.with_failed_project(project_id, now).update_reputation(
                    self.metrics[project_id].donor,
                    ReputationUpdateReason::ProjectFailed,
                    Some(project_id),
                    now,
                ),
                Ok(()),
            ),
        }
    }

    /// What `calculate_influence` returns.
    pub open spec fn influence_of(self, donor: Address) -> Result<i128, ReputationError> {
        if self.reputations.contains_key(donor) {
            Ok(
                influence_multiplier(
                    self.reputations[donor].reputation_score as int,
                    self.config_in_force(),
                ) as i128,
            )
        } else {
            Err(ReputationError::DonorNotFound)
        }
    }

    /// When `calculate_influence` stays within machine integers.
    pub open spec fn influence_defined(self, donor: Address) -> bool {
        self.reputations.contains_key(donor) ==> multiplier_defined(
            self.reputations[donor].reputation_score as int,
            self.config_in_force(),
        )
    }

    /// The id that the next audit entry gets.
    pub open spec fn next_id(self) -> u64 {
        let c: int = match self.update_counter {
            Some(c) => c as int,
            None => 0,
        };
        if c + 1 > u64::MAX {
            u64::MAX
        } else {
            (c + 1) as u64
        }
    }

    /// The state after appending an audit entry.
    pub open spec fn record_update(
        self,
        donor: Address,
        previous_score: i128,
        new_score: i128,
        reason: ReputationUpdateReason,
        project_id: Option<u64>,
        now: u64,
    ) -> Self {
        let id = self.next_id();
        ReputationView {
            update_counter: Some(id),
            updates: self.updates.insert(
                id,
                ReputationUpdate {
                    update_id: id,
                    donor,
                    previous_score,
                    new_score,
                    reason,
                    project_id,
                    timestamp: now,
                },
            ),
            ..self
        }
    }

    /// The donor's reputation as recomputed from the funded projects at `now`.
    pub open spec fn computed_reputation(self, donor: Address, now: u64) -> DonorReputation {
        DonorReputation {
            donor,
            reputation_score: self.score(donor) as i128,
            success_rate: self.success_rate(donor) as i128,
            total_funded: self.qualifying_total_of(donor) as i128,
            qualifying_projects: self.qualifying_of(donor) as u32,
            successful_projects: self.successful_of(donor) as u32,
            last_updated: now,
            influence_multiplier: influence_multiplier(self.score(donor), self.config_in_force())
                as i128,
        }
    }

    /// The state after recomputing `donor`'s reputation. The record (new or
    /// existing) is recomputed from the donor's qualifying projects; a new
    /// record is made only when the donor has a qualifying project. Each
    /// change adds an audit entry with the previous score (0 for a new record).
    pub open spec fn update_reputation(
        self,
        donor: Address,
        reason: ReputationUpdateReason,
        project_id: Option<u64>,
        now: u64,
    ) -> Self {
        let rep = self.computed_reputation(donor, now);
        if !self.reputations.contains_key(donor) && self.qualifying_of(donor) == 0 {
            self
        } else {
            let previous: i128 = if self.reputations.contains_key(donor) {
                self.reputations[donor].reputation_score
            } else {
                0
            };
            ReputationView {
                reputations: self.reputations.insert(donor, rep),
                ..self
            }.record_update(donor, previous, rep.reputation_score, reason, project_id, now)
        }
    }
}


proof fn lemma_take_step<T>(ids: Seq<T>, i: int)
    requires
        0 <= i < ids.len(),
    ensures
        ids.take(i + 1).drop_last() == ids.take(i),
        ids.take(i + 1).last() == ids[i],
        ids.take(i + 1).len() == i + 1,
{
    assert(ids.take(i + 1).drop_last() =~= ids.take(i));
}

/// Counting facts: completed projects are among the qualifying ones, and a
/// prefix of the list never counts more than the whole list.
pub proof fn lemma_counts(ids: Seq<u64>, metrics: Map<u64, ProjectSuccessMetrics>, threshold: i128)
    ensures
        successful_count(ids, metrics, threshold) <= qualifying_count(ids, metrics, threshold),
        qualifying_count(ids, metrics, threshold) <= ids.len(),
        forall|i: int|
            0 <= i <= ids.len() ==> #[trigger] qualifying_count(ids.take(i), metrics, threshold)
                <= qualifying_count(ids, metrics, threshold),
    decreases ids.len(),
{
    if ids.len() > 0 {
        lemma_counts(ids.drop_last(), metrics, threshold);
        assert forall|i: int| 0 <= i <= ids.len() implies #[trigger] qualifying_count(
            ids.take(i),
            metrics,
            threshold,
        ) <= qualifying_count(ids, metrics, threshold) by {
            if i == ids.len() {
                assert(ids.take(i) =~= ids);
            } else {
                assert(ids.take(i) =~= ids.drop_last().take(i));
            }
        }
    } else {
        assert forall|i: int| 0 <= i <= ids.len() implies #[trigger] qualifying_count(
            ids.take(i),
            metrics,
            threshold,
        ) <= qualifying_count(ids, metrics, threshold) by {
            assert(ids.take(i) =~= ids);
        }
    }
}

/// Running sums of a list whose sums fit also fit.
proof fn lemma_sums_fit_prefix(
    ids: Seq<u64>,
    metrics: Map<u64, ProjectSuccessMetrics>,
    threshold: i128,
    i: int,
)
    requires
        qualifying_sums_fit(ids, metrics, threshold),
        0 <= i <= ids.len(),
    ensures
        qualifying_sums_fit(ids.take(i), metrics, threshold),
        i128::MIN <= qualifying_total(ids.take(i), metrics, threshold) <= i128::MAX,
    decreases ids.len(),
{
    if i == ids.len() {
        assert(ids.take(i) =~= ids);
        if ids.len() == 0 {
            assert(qualifying_total(ids, metrics, threshold) == 0);
        }
    } else {
        lemma_sums_fit_prefix(ids.drop_last(), metrics, threshold, i);
        assert(ids.take(i) =~= ids.drop_last().take(i));
    }
}

/// The success rate of `successful` completed projects among `qualifying` ones.
fn rate_in_basis_points(qualifying: u32, successful: u32) -> (r: i128)
    requires
        successful <= qualifying,
    ensures
        r == success_rate_of(qualifying as nat, successful as nat),
        0 <= r <= BASIS_POINTS,
{
    proof {
        lemma_rate_bounds(qualifying as nat, successful as nat);
    }
    if qualifying == 0 {
        return 0;
    }
    let q = qualifying as i128;
    let numerator = 200 * (successful as i128) + q;
    let pct = numerator / (2 * q);
    assert(pct == (200 * successful + qualifying) as int / (2 * qualifying) as int);
    pct * (BASIS_POINTS / 100)
}

/// Linear influence formula for a maximum `max_multiplier` of reputation scale.
pub fn calculate_influence_multiplier(reputation_score: i128, config: &ReputationConfig) -> (m: i128)
    requires
        multiplier_defined(reputation_score as int, *config),
    ensures
        m == influence_multiplier(reputation_score as int, *config),
{
    let span = config.max_multiplier - REPUTATION_SCALE;
    let multiplier = REPUTATION_SCALE + (reputation_score * span / REPUTATION_SCALE);
    if multiplier <= config.max_multiplier {
        multiplier
    } else {
        config.max_multiplier
    }
}

/// A copy of a list of ids.
fn copy_ids(v: &Vec<u64>) -> (r: Vec<u64>)
    ensures
        r@ == v@,
{
    let mut r: Vec<u64> = Vec::new();
    let mut i: usize = 0;
    while i < v.len()
        invariant
            i <= v@.len(),
            r@ == v@.take(i as int),
        decreases v@.len() - i,
    {
        r.push(v[i]);
        i = i + 1;
        assert(r@ =~= v@.take(i as int));
    }
    assert(v@.take(v@.len() as int) =~= v@);
    r
}

/// The stored state of the reputation system.
pub struct DonorReputationContract {
    /// The administrator set by `initialize`.
    pub admin: Option<Address>,
    /// Reputation per donor.
    pub reputations: Table<Address, DonorReputation>,
    /// Success metrics per project.
    pub project_metrics: Table<u64, ProjectSuccessMetrics>,
    /// The stored configuration, if any.
    pub config: Option<ReputationConfig>,
    /// The audit trail counter (last id handed out).
    pub update_counter: Option<u64>,
    /// The audit trail, by update id.
    pub updates: Table<u64, ReputationUpdate>,
    /// Projects funded by each donor, in funding order.
    pub funded_projects: Table<Address, Vec<u64>>,
    /// Completed milestones, by project and milestone index.
    pub milestones: Table<(u64, u32), MilestoneRecord>,
}

impl DonorReputationContract {
    pub open spec fn view(self) -> ReputationView {
        ReputationView {
            admin: self.admin,
            reputations: self.reputations@,
            metrics: self.project_metrics@,
            config: self.config,
            update_counter: self.update_counter,
            updates: self.updates@,
            funded_projects: self.funded_projects@.map_values(|v: Vec<u64>| v@),
            milestones: self.milestones@,
        }
    }

    /// A reputation system with empty storage.
    pub fn new() -> (c: Self)
        ensures
            c@ == (ReputationView {
                admin: None,
                reputations: Map::empty(),
                metrics: Map::empty(),
                config: None,
                update_counter: None,
                updates: Map::empty(),
                funded_projects: Map::empty(),
                milestones: Map::empty(),
            }),
    {
        let c = DonorReputationContract {
            admin: None,
            reputations: Table::new(),
            project_metrics: Table::new(),
            config: None,
            update_counter: None,
            updates: Table::new(),
            funded_projects: Table::new(),
            milestones: Table::new(),
        };
        assert(c@.funded_projects =~= Map::<Address, Seq<u64>>::empty());
        c
    }

    /// The configuration in force: the stored one, or the default.
    fn read_reputation_config(&self) -> (c: ReputationConfig)
        ensures
            c == self@.config_in_force(),
    {
        match self.config {
            Some(c) => c,
            None => ReputationConfig {
                min_funding_threshold: DEFAULT_MIN_FUNDING_THRESHOLD,
                max_multiplier: MAX_REPUTATION_MULTIPLIER,
                calculation_window_secs: REPUTATION_WINDOW_SECS,
                recency_weight: 50 * BASIS_POINTS / 100,
            },
        }
    }

    /// Projects funded by `donor`.
    fn funded_list(&self, donor: &Address) -> (l: Vec<u64>)
        ensures
            l@ == self@.funded_list(*donor),
    {
        match self.funded_projects.get(donor) {
            Some(l) => copy_ids(l),
            None => Vec::new(),
        }
    }

    /// Success rate of `donor` in basis points, over the funded projects that
    /// meet the funding threshold.
    fn calculate_success_rate(&self, donor: &Address) -> (r: Result<i128, ReputationError>)
        requires
            self@.qualifying_of(*donor) <= u32::MAX,
        ensures
            r == Ok::<i128, ReputationError>(self@.success_rate(*donor) as i128),
    {
        let funded_projects = self.funded_list(donor);
        let ghost ids = funded_projects@;
        let ghost threshold = self@.config_in_force().min_funding_threshold;
        proof {
            lemma_counts(ids, self@.metrics, threshold);
        }
        if funded_projects.len() == 0 {
            return Ok(0);
        }
        let mut successful_count_: u32 = 0;
        let mut total_count: u32 = 0;
        let mut i: usize = 0;
        while i < funded_projects.len()
            invariant
                ids == funded_projects@,
                ids == self@.funded_list(*donor),
                threshold == self@.config_in_force().min_funding_threshold,
                i <= ids.len(),
                self@.qualifying_of(*donor) <= u32::MAX,
                total_count == qualifying_count(ids.take(i as int), self@.metrics, threshold),
                successful_count_ == successful_count(ids.take(i as int), self@.metrics, threshold),
                forall|k: int|
                    0 <= k <= ids.len() ==> #[trigger] qualifying_count(ids.take(k), self@.metrics, threshold)
                        <= qualifying_count(ids, self@.metrics, threshold),
            decreases ids.len() - i,
        {
            let project_id = funded_projects[i];
            proof {
                lemma_take_step(ids, i as int);
                lemma_counts(ids.take(i as int), self@.metrics, threshold);
                assert(qualifying_count(ids.take(i + 1), self@.metrics, threshold) <= u32::MAX);
            }
            match self.project_metrics.get(&project_id) {
                Some(metrics) => {
                    let config = self.read_reputation_config();
                    if metrics.funded_amount >= config.min_funding_threshold {
                        total_count = total_count + 1;
                        if metrics.project_status == GrantStatus::Completed {
                            successful_count_ = successful_count_ + 1;
                        }
                    }
                },
                None => {},
            }
            i = i + 1;
        }
        proof {
            assert(ids.take(ids.len() as int) =~= ids);
        }
        if total_count == 0 {
            return Ok(0);
        }
        let success_rate = rate_in_basis_points(total_count, successful_count_);
        Ok(success_rate)
    }

    /// Hands out the next audit id, advancing the counter.
    fn next_update_id(&mut self) -> (id: u64)
        ensures
            id == old(self)@.next_id(),
            final(self)@ == (ReputationView { update_counter: Some(id), ..old(self)@ }),
    {
        let current: u64 = match self.update_counter {
            Some(c) => c,
            None => 0,
        };
        let id = current.saturating_add(1);
        self.update_counter = Some(id);
        id
    }

    /// Appends an entry to the audit trail.
    fn record_reputation_update(
        &mut self,
        donor: &Address,
        previous_score: i128,
        new_score: i128,
        reason: ReputationUpdateReason,
        project_id: Option<u64>,
        now: u64,
    )
        ensures
            final(self)@ == old(self)@.record_update(
                *donor,
                previous_score,
                new_score,
                reason,
                project_id,
                now,
            ),
    {
        let update_id = self.next_update_id();
        let update = ReputationUpdate {
            update_id,
            donor: *donor,
            previous_score,
            new_score,
            reason,
            project_id,
            timestamp: now,
        };
        self.updates.insert(update_id, update);
        assert(self@ =~= old(self)@.record_update(
            *donor,
            previous_score,
            new_score,
            reason,
            project_id,
            now,
        ));
    }

    /// The donor's qualifying and completed project counts, and the sum of
    /// the qualifying funded amounts.
    fn tally_projects(&self, donor: &Address) -> (r: (u32, u32, i128))
        requires
            self@.update_defined(*donor),
        ensures
            r.0 == self@.qualifying_of(*donor),
            r.1 == self@.successful_of(*donor),
            r.2 == self@.qualifying_total_of(*donor),
    {
        let config = self.read_reputation_config();
        let funded_projects = self.funded_list(donor);
        let ghost ids = funded_projects@;
        let ghost threshold = config.min_funding_threshold;
        let ghost metrics = self@.metrics;
        let mut qualifying: u32 = 0;
        let mut successful: u32 = 0;
        let mut total: i128 = 0;
        let mut i: usize = 0;
        proof {
            lemma_counts(ids, metrics, threshold);
        }
        while i < funded_projects.len()
            invariant
                ids == funded_projects@,
                ids == self@.funded_list(*donor),
                metrics == self@.metrics,
                threshold == self@.config_in_force().min_funding_threshold,
                config == self@.config_in_force(),
                self@.update_defined(*donor),
                i <= ids.len(),
                qualifying == qualifying_count(ids.take(i as int), metrics, threshold),
                successful == successful_count(ids.take(i as int), metrics, threshold),
                total == qualifying_total(ids.take(i as int), metrics, threshold),
                forall|k: int|
                    0 <= k <= ids.len() ==> #[trigger] qualifying_count(ids.take(k), metrics, threshold)
                        <= qualifying_count(ids, metrics, threshold),
            decreases ids.len() - i,
        {
            let proj_id = funded_projects[i];
            proof {
                lemma_take_step(ids, i as int);
                lemma_counts(ids.take(i as int), metrics, threshold);
                lemma_counts(ids.take(i + 1), metrics, threshold);
                lemma_sums_fit_prefix(ids, metrics, threshold, i + 1);
                assert(qualifying_count(ids.take(i + 1), metrics, threshold) <= u32::MAX);
            }
            match self.project_metrics.get(&proj_id) {
                Some(entry) => {
                    if entry.funded_amount >= config.min_funding_threshold {
                        total = total + entry.funded_amount;
                        qualifying = qualifying + 1;
                        if entry.project_status == GrantStatus::Completed {
                            successful = successful + 1;
                        }
                    }
                },
                None => {},
            }
            i = i + 1;
        }
        proof {
            assert(ids.take(ids.len() as int) =~= ids);
        }
        (qualifying, successful, total)
    }

    /// Recomputes `donor`'s reputation from the funded projects and records
    /// the change in the audit trail. A donor without a record gets one only
    /// once a funded project qualifies.
    fn update_donor_reputation_internal(
        &mut self,
        donor: &Address,
        reason: ReputationUpdateReason,
        project_id: Option<u64>,
        now: u64,
    ) -> (r: Result<(), ReputationError>)
        requires
            old(self)@.update_defined(*donor),
        ensures
            r is Ok,
            final(self)@ == old(self)@.update_reputation(*donor, reason, project_id, now),
    {
        let ghost old_view = self@;
        let config = self.read_reputation_config();
        let success_rate = self.calculate_success_rate(donor)?;
        proof {
            lemma_counts(self@.funded_list(*donor), self@.metrics, config.min_funding_threshold);
            lemma_rate_bounds(self@.qualifying_of(*donor), self@.successful_of(*donor));
        }
        let reputation_score = success_rate * REPUTATION_SCALE / BASIS_POINTS;
        let influence_multiplier = calculate_influence_multiplier(reputation_score, &config);
        let (qualifying_projects, successful_projects, total_funded) = self.tally_projects(donor);
        let previous_score: i128 = match self.reputations.get(donor) {
            Some(existing) => existing.reputation_score,
            None => {
                if qualifying_projects == 0 {
                    return Ok(());
                }
                0
            },
        };
        let reputation = DonorReputation {
            donor: *donor,
            reputation_score,
            success_rate,
            total_funded,
            qualifying_projects,
            successful_projects,
            last_updated: now,
            influence_multiplier,
        };
        self.reputations.insert(*donor, reputation);
        self.record_reputation_update(
            donor,
            previous_score,
            reputation_score,
            reason,
            project_id,
            now,
        );
        proof {
            assert(reputation == old_view.computed_reputation(*donor, now));
            assert(self@ =~= old_view.update_reputation(*donor, reason, project_id, now));
        }
        Ok(())
    }

    /// Initializes the system with `admin` as administrator, the default
    /// configuration and a zero audit counter. Fails (with `NotInitialized`)
    /// if a configuration is already stored.
    pub fn initialize(&mut self, admin: Address) -> (r: Result<(), ReputationError>)
        ensures
            (final(self)@, r) == old(self)@.initialize_spec(admin),
    {
        if self.config.is_some() {
            return Err(ReputationError::NotInitialized);
        }
        let config = ReputationConfig {
            min_funding_threshold: DEFAULT_MIN_FUNDING_THRESHOLD,
            max_multiplier: MAX_REPUTATION_MULTIPLIER,
            calculation_window_secs: REPUTATION_WINDOW_SECS,
            recency_weight: 50 * BASIS_POINTS / 100,
        };
        self.admin = Some(admin);
        self.config = Some(config);
        self.update_counter = Some(0);
        assert(self@ =~= old(self)@.initialize_spec(admin).0);
        Ok(())
    }

    /// Updates the configuration fields that are given, after checking that
    /// `caller` is the administrator and checking each field.
    pub fn update_config(
        &mut self,
        caller: Address,
        min_funding_threshold: Option<i128>,
        max_multiplier: Option<i128>,
        calculation_window_secs: Option<u64>,
        recency_weight: Option<i128>,
    ) -> (r: Result<(), ReputationError>)
        ensures
            (final(self)@, r) == old(self)@.update_config_spec(
                caller,
                min_funding_threshold,
                max_multiplier,
                calculation_window_secs,
                recency_weight,
            ),
    {
        match self.admin {
            None => return Err(ReputationError::NotInitialized),
            Some(a) => {
                if a != caller {
                    return Err(ReputationError::NotAuthorized);
                }
            },
        }
        let mut config = self.read_reputation_config();
        if let Some(threshold) = min_funding_threshold {
            if threshold <= 0 {
                return Err(ReputationError::InvalidAmount);
            }
            config.min_funding_threshold = threshold;
        }
        if let Some(multiplier) = max_multiplier {
            if multiplier <= REPUTATION_SCALE {
                return Err(ReputationError::InvalidAmount);
            }
            config.max_multiplier = multiplier;
        }
        if let Some(window) = calculation_window_secs {
            if window == 0 {
                return Err(ReputationError::InvalidTimestamp);
            }
            config.calculation_window_secs = window;
        }
        if let Some(weight) = recency_weight {
            if weight < 0 || weight > BASIS_POINTS {
                return Err(ReputationError::ConfigurationError);
            }
            config.recency_weight = weight;
        }
        self.config = Some(config);
        assert(self@ =~= old(self)@.update_config_spec(
            caller,
            min_funding_threshold,
            max_multiplier,
            calculation_window_secs,
            recency_weight,
        ).0);
        Ok(())
    }

    /// Writes the metrics of a newly funded project and appends it to the donor's list.
    fn store_funded_project(
        &mut self,
        donor: &Address,
        project_id: u64,
        funded_amount: i128,
        total_milestones: u32,
        now: u64,
    )
        ensures
            final(self)@ == old(self)@.with_funded_project(
                *donor,
                project_id,
                funded_amount,
                total_milestones,
                now,
            ),
    {
        let metrics = ProjectSuccessMetrics {
            project_id,
            donor: *donor,
            total_milestones,
            completed_milestones: 0,
            project_status: GrantStatus::Active,
            funded_amount,
            created_at: now,
            completed_at: None,
        };
        self.project_metrics.insert(project_id, metrics);
        let mut funded_projects = self.funded_list(donor);
        funded_projects.push(project_id);
        self.funded_projects.insert(*donor, funded_projects);
        assert(self@ =~= old(self)@.with_funded_project(
            *donor,
            project_id,
            funded_amount,
            total_milestones,
            now,
        ));
    }

    /// Records a project funded by `donor` at `now`. Funding that meets the
    /// threshold updates the donor's reputation.
    pub fn record_project_funded(
        &mut self,
        donor: Address,
        project_id: u64,
        funded_amount: i128,
        total_milestones: u32,
        now: u64,
    ) -> (r: Result<(), ReputationError>)
        requires
            old(self)@.record_project_funded_defined(
                donor,
                project_id,
                funded_amount,
                total_milestones,
                now,
            ),
        ensures
            (final(self)@, r) == old(self)@.record_project_funded_spec(
                donor,
                project_id,
                funded_amount,
                total_milestones,
                now,
            ),
    {
        if funded_amount <= 0 || total_milestones == 0 {
            return Err(ReputationError::InvalidAmount);
        }
        let config = self.read_reputation_config();
        self.store_funded_project(&donor, project_id, funded_amount, total_milestones, now);
        if funded_amount >= config.min_funding_threshold {
            self.update_donor_reputation_internal(
                &donor,
                ReputationUpdateReason::ProjectFunded,
                Some(project_id),
                now,
            )?;
        }
        Ok(())
    }

    /// Checks that a milestone may be recorded, returning the project's metrics.
    fn check_milestone(&self, project_id: u64, milestone_index: u32) -> (r: Result<
        ProjectSuccessMetrics,
        ReputationError,
    >)
        ensures
            match r {
                Ok(m) => self@.milestone_check(project_id, milestone_index) is Ok && m
                    == self@.metrics[project_id],
                Err(e) => self@.milestone_check(project_id, milestone_index) == Err::<
                    (),
                    ReputationError,
                >(e),
            },
    {
        let metrics = match self.project_metrics.get(&project_id) {
            Some(m) => *m,
            None => return Err(ReputationError::ProjectNotFound),
        };
        if milestone_index >= metrics.total_milestones {
            return Err(ReputationError::InvalidMilestoneIndex);
        }
        if self.milestones.contains_key(&(project_id, milestone_index)) {
            return Err(ReputationError::DuplicateMilestone);
        }
        Ok(metrics)
    }

    /// Writes a milestone record and the project's updated metrics.
    fn store_milestone(
        &mut self,
        metrics: ProjectSuccessMetrics,
        project_id: u64,
        milestone_index: u32,
        evidence_hash: Option<[u8; 32]>,
        now: u64,
    )
        requires
            old(self)@.metrics.contains_key(project_id),
            metrics == old(self)@.metrics[project_id],
            metrics.completed_milestones < u32::MAX,
        ensures
            final(self)@ == old(self)@.with_milestone(project_id, milestone_index, evidence_hash, now),
    {
        let record = MilestoneRecord {
            project_id,
            milestone_index,
            is_completed: true,
            completed_at: Some(now),
            evidence_hash,
        };
        self.milestones.insert((project_id, milestone_index), record);
        let mut updated_metrics = metrics;
        updated_metrics.completed_milestones = updated_metrics.completed_milestones + 1;
        if updated_metrics.completed_milestones == updated_metrics.total_milestones {
            updated_metrics.project_status = GrantStatus::Completed;
            updated_metrics.completed_at = Some(now);
        }
        self.project_metrics.insert(project_id, updated_metrics);
        assert(self@ =~= old(self)@.with_milestone(project_id, milestone_index, evidence_hash, now));
    }

    /// Records the completion of milestone `milestone_index` of a project; the
    /// project completes with its last milestone. Updates the donor's reputation.
    pub fn record_milestone_completed(
        &mut self,
        project_id: u64,
        milestone_index: u32,
        evidence_hash: Option<[u8; 32]>,
        now: u64,
    ) -> (r: Result<(), ReputationError>)
        requires
            old(self)@.record_milestone_completed_defined(
                project_id,
                milestone_index,
                evidence_hash,
                now,
            ),
        ensures
            (final(self)@, r) == old(self)@.record_milestone_completed_spec(
                project_id,
                milestone_index,
                evidence_hash,
                now,
            ),
    {
        let metrics = self.check_milestone(project_id, milestone_index)?;
        self.store_milestone(metrics, project_id, milestone_index, evidence_hash, now);
        self.update_donor_reputation_internal(
            &metrics.donor,
            ReputationUpdateReason::MilestoneCompleted,
            Some(project_id),
            now,
        )?;
        Ok(())
    }

    /// Marks a project as failed (for reputation calculation); a completed
    /// project cannot fail.
    pub fn record_project_failed(&mut self, project_id: u64, now: u64) -> (r: Result<
        (),
        ReputationError,
    >)
        requires
            old(self)@.record_project_failed_defined(project_id, now),
        ensures
            (final(self)@, r) == old(self)@.record_project_failed_spec(project_id, now),
    {
        let mut metrics = match self.project_metrics.get(&project_id) {
            Some(m) => *m,
            None => return Err(ReputationError::ProjectNotFound),
        };
        if metrics.project_status == GrantStatus::Completed {
            return Err(ReputationError::ProjectNotCompleted);
        }
        metrics.project_status = GrantStatus::Cancelled;
        metrics.completed_at = Some(now);
        self.project_metrics.insert(project_id, metrics);
        assert(self@ =~= old(self)@.with_failed_project(project_id, now));
        self.update_donor_reputation_internal(
            &metrics.donor,
            ReputationUpdateReason::ProjectFailed,
            Some(project_id),
            now,
        )?;
        Ok(())
    }

    /// The donor's reputation.
    pub fn get_donor_reputation(&self, donor: Address) -> (r: Result<DonorReputation, ReputationError>)
        ensures
            r == (if self@.reputations.contains_key(donor) {
                Ok::<DonorReputation, ReputationError>(self@.reputations[donor])
            } else {
                Err(ReputationError::DonorNotFound)
            }),
    {
        match self.reputations.get(&donor) {
            Some(r) => Ok(*r),
            None => Err(ReputationError::DonorNotFound),
        }
    }

    /// The project's success metrics.
    pub fn get_project_metrics(&self, project_id: u64) -> (r: Result<
        ProjectSuccessMetrics,
        ReputationError,
    >)
        ensures
            r == (if self@.metrics.contains_key(project_id) {
                Ok::<ProjectSuccessMetrics, ReputationError>(self@.metrics[project_id])
            } else {
                Err(ReputationError::ProjectNotFound)
            }),
    {
        match self.project_metrics.get(&project_id) {
            Some(m) => Ok(*m),
            None => Err(ReputationError::ProjectNotFound),
        }
    }

    /// The configuration in force.
    pub fn get_reputation_config(&self) -> (c: ReputationConfig)
        ensures
            c == self@.config_in_force(),
    {
        self.read_reputation_config()
    }

    /// The donor's influence multiplier for matching rounds.
    pub fn calculate_influence(&self, donor: Address) -> (r: Result<i128, ReputationError>)
        requires
            self@.influence_defined(donor),
        ensures
            r == self@.influence_of(donor),
    {
        let reputation = match self.reputations.get(&donor) {
            Some(r) => *r,
            None => return Err(ReputationError::DonorNotFound),
        };
        let config = self.read_reputation_config();
        Ok(calculate_influence_multiplier(reputation.reputation_score, &config))
    }

    /// Entry `update_id` of the audit trail. Id 0 is never an audit entry.
    pub fn get_reputation_update(&self, update_id: u64) -> (r: Result<
        ReputationUpdate,
        ReputationError,
    >)
        ensures
            r == (if update_id != 0 && self@.updates.contains_key(update_id) {
                Ok::<ReputationUpdate, ReputationError>(self@.updates[update_id])
            } else {
                Err(ReputationError::DonorNotFound)
            }),
    {
        if update_id == 0 {
            return Err(ReputationError::DonorNotFound);
        }
        match self.updates.get(&update_id) {
            Some(u) => Ok(*u),
            None => Err(ReputationError::DonorNotFound),
        }
    }

    /// Whether recomputing a reputation over `ids`, with the metrics of
    /// `project_id` replaced by `m`, stays within machine integers.
    fn defined_with(
        &self,
        ids: &Vec<u64>,
        project_id: u64,
        m: ProjectSuccessMetrics,
    ) -> (ok: bool)
        ensures
            ok == defined_on(ids@, self@.metrics.insert(project_id, m), self@.config_in_force()),
    {
        let config = self.read_reputation_config();
        let ghost metrics = self@.metrics.insert(project_id, m);
        let ghost t = config.min_funding_threshold;
        let mut qualifying: u64 = 0;
        let mut successful: u64 = 0;
        let mut total: i128 = 0;
        let mut fits = true;
        let mut i: usize = 0;
        let n = ids.len();
        proof {
            lemma_counts(ids@, metrics, t);
        }
        while i < n
            invariant
                n == ids@.len(),
                i <= n,
                metrics == self@.metrics.insert(project_id, m),
                config == self@.config_in_force(),
                t == config.min_funding_threshold,
                qualifying == qualifying_count(ids@.take(i as int), metrics, t),
                successful == successful_count(ids@.take(i as int), metrics, t),
                fits == qualifying_sums_fit(ids@.take(i as int), metrics, t),
                fits ==> total == qualifying_total(ids@.take(i as int), metrics, t),
            decreases n - i,
        {
            let id = ids[i];
            proof {
                lemma_take_step(ids@, i as int);
                lemma_counts(ids@.take(i + 1), metrics, t);
            }
            let entry: Option<ProjectSuccessMetrics> = if id == project_id {
                Some(m)
            } else {
                match self.project_metrics.get(&id) {
                    Some(e) => Some(*e),
                    None => None,
                }
            };
            if let Some(e) = entry {
                if e.funded_amount >= config.min_funding_threshold {
                    qualifying = qualifying + 1;
                    if e.project_status == GrantStatus::Completed {
                        successful = successful + 1;
                    }
                    if fits {
                        match total.checked_add(e.funded_amount) {
                            Some(v) => {
                                total = v;
                            },
                            None => {
                                fits = false;
                            },
                        }
                    }
                }
            }
            i = i + 1;
        }
        proof {
            assert(ids@.take(n as int) =~= ids@);
        }
        if qualifying > 0xFFFF_FFFF {
            return false;
        }
        if !fits {
            return false;
        }
        let rate: i128 = rate_in_basis_points(qualifying as u32, successful as u32);
        let score = rate * REPUTATION_SCALE / BASIS_POINTS;
        multiplier_is_defined(score, &config)
    }

    /// Whether `record_project_funded` with these arguments stays within
    /// machine integers (the call is refused otherwise).
    pub fn can_record_project_funded(
        &self,
        donor: Address,
        project_id: u64,
        funded_amount: i128,
        total_milestones: u32,
        now: u64,
    ) -> (ok: bool)
        ensures
            ok == self@.record_project_funded_defined(
                donor,
                project_id,
                funded_amount,
                total_milestones,
                now,
            ),
    {
        let config = self.read_reputation_config();
        if funded_amount <= 0 || total_milestones == 0 || funded_amount
            < config.min_funding_threshold {
            return true;
        }
        let mut ids = self.funded_list(&donor);
        ids.push(project_id);
        let m = ProjectSuccessMetrics {
            project_id,
            donor,
            total_milestones,
            completed_milestones: 0,
            project_status: GrantStatus::Active,
            funded_amount,
            created_at: now,
            completed_at: None,
        };
        self.defined_with(&ids, project_id, m)
    }

    /// Whether `record_milestone_completed` with these arguments stays within
    /// machine integers (the call is refused otherwise).
    pub fn can_record_milestone_completed(
        &self,
        project_id: u64,
        milestone_index: u32,
        evidence_hash: Option<[u8; 32]>,
        now: u64,
    ) -> (ok: bool)
        ensures
            ok == self@.record_milestone_completed_defined(
                project_id,
                milestone_index,
                evidence_hash,
                now,
            ),
    {
        let metrics = match self.check_milestone(project_id, milestone_index) {
            Ok(m) => m,
            Err(_) => return true,
        };
        if metrics.completed_milestones == 0xFFFF_FFFF {
            return false;
        }
        let mut updated = metrics;
        updated.completed_milestones = updated.completed_milestones + 1;
        if updated.completed_milestones == updated.total_milestones {
            updated.project_status = GrantStatus::Completed;
            updated.completed_at = Some(now);
        }
        let ids = self.funded_list(&metrics.donor);
        self.defined_with(&ids, project_id, updated)
    }

    /// Whether `record_project_failed` with these arguments stays within
    /// machine integers (the call is refused otherwise).
    pub fn can_record_project_failed(&self, project_id: u64, now: u64) -> (ok: bool)
        ensures
            ok == self@.record_project_failed_defined(project_id, now),
    {
        let metrics = match self.project_metrics.get(&project_id) {
            Some(m) => *m,
            None => return true,
        };
        if metrics.project_status == GrantStatus::Completed {
            return true;
        }
        let mut updated = metrics;
        updated.project_status = GrantStatus::Cancelled;
        updated.completed_at = Some(now);
        let ids = self.funded_list(&metrics.donor);
        self.defined_with(&ids, project_id, updated)
    }

    /// Whether `calculate_influence` for `donor` stays within machine integers.
    pub fn can_calculate_influence(&self, donor: Address) -> (ok: bool)
        ensures
            ok == self@.influence_defined(donor),
    {
        match self.reputations.get(&donor) {
            Some(r) => {
                let config = self.read_reputation_config();
                multiplier_is_defined(r.reputation_score, &config)
            },
            None => true,
        }
    }
}

/// Whether the multiplier formula stays within `i128` for this score and configuration.
pub fn multiplier_is_defined(score: i128, config: &ReputationConfig) -> (ok: bool)
    ensures
        ok == multiplier_defined(score as int, *config),
{
    let span = match config.max_multiplier.checked_sub(REPUTATION_SCALE) {
        Some(v) => v,
        None => return false,
    };
    let product = match score.checked_mul(span) {
        Some(v) => v,
        None => return false,
    };
    REPUTATION_SCALE.checked_add(product / REPUTATION_SCALE).is_some()
}

/// Linear influence scaling: with a maximum of at least 1x, the influence of
/// a success rate `rate` (basis points) is `1x + rate * (max - 1x) / 100%`,
/// from exactly 1x at 0% to exactly the maximum at 100%.
pub proof fn law_linear_influence(rate: int, config: ReputationConfig)
    requires
        0 <= rate <= BASIS_POINTS,
        config.max_multiplier >= REPUTATION_SCALE,
    ensures
        influence_multiplier(score_of(rate), config) == REPUTATION_SCALE + (rate * (
        config.max_multiplier - REPUTATION_SCALE)) / (BASIS_POINTS as int),
        REPUTATION_SCALE <= influence_multiplier(score_of(rate), config) <= config.max_multiplier,
        rate == 0 ==> influence_multiplier(score_of(rate), config) == REPUTATION_SCALE,
        rate == BASIS_POINTS ==> influence_multiplier(score_of(rate), config)
            == config.max_multiplier,
{
    let span: int = config.max_multiplier - REPUTATION_SCALE;
    let score = score_of(rate);
    assert(score == rate * 100_000_000_000_000) by (nonlinear_arith)
        requires
            score == rate * 1_000_000_000_000_000_000 / 10_000,
    ;
    assert((score * span) / 1_000_000_000_000_000_000 == (rate * span) / 10_000) by (nonlinear_arith)
        requires
            score == rate * 100_000_000_000_000,
            span >= 0,
            rate >= 0,
    {
        assert(score * span == (rate * span) * 100_000_000_000_000);
        vstd::arithmetic::div_mod::lemma_div_denominator(rate * span, 10_000, 100_000_000_000_000);
    }
    assert(score * span >= 0) by (nonlinear_arith)
        requires
            score >= 0,
            span >= 0,
    ;
    assert(rate * span <= BASIS_POINTS * span) by (nonlinear_arith)
        requires
            rate <= BASIS_POINTS,
            span >= 0,
    ;
    assert((rate * span) / 10_000 <= span) by (nonlinear_arith)
        requires
            rate * span <= 10_000 * span,
            span >= 0,
    ;
    assert((rate * span) / 10_000 >= 0) by (nonlinear_arith)
        requires
            rate * span >= 0,
    ;
    assert(rate * span >= 0) by (nonlinear_arith)
        requires
            rate >= 0,
            span >= 0,
    ;
    if rate == BASIS_POINTS {
        assert((10_000 * span) / 10_000 == span) by (nonlinear_arith);
    }
}

/// Success rates are percentages: a donor's completed projects are among the
/// qualifying ones, and the rate lies between 0% and 100%, the score between
/// 0 and `REPUTATION_SCALE`.
pub proof fn law_rate_bounds(v: ReputationView, donor: Address)
    ensures
        v.successful_of(donor) <= v.qualifying_of(donor),
        0 <= v.success_rate(donor) <= BASIS_POINTS,
        0 <= v.score(donor) <= REPUTATION_SCALE,
        v.qualifying_of(donor) > 0 && v.successful_of(donor) == v.qualifying_of(donor)
            ==> v.success_rate(donor) == BASIS_POINTS,
{
    let t = v.config_in_force().min_funding_threshold;
    lemma_counts(v.funded_list(donor), v.metrics, t);
    let q = v.qualifying_of(donor);
    let sc = v.successful_of(donor);
    lemma_rate_bounds(q, sc);
    if q > 0 && sc == q {
        let qi = q as int;
        assert((200 * qi + qi) / (2 * qi) == 100) by (nonlinear_arith)
            requires
                qi > 0,
        {
            assert(200 * qi + qi == 2 * qi * 100 + qi);
        }
    }
    let rate = v.success_rate(donor);
    assert(rate * REPUTATION_SCALE / (BASIS_POINTS as int) <= REPUTATION_SCALE) by (nonlinear_arith)
        requires
            0 <= rate <= 10_000,
    ;
    assert(rate * REPUTATION_SCALE / (BASIS_POINTS as int) >= 0) by (nonlinear_arith)
        requires
            0 <= rate,
    ;
}

/// A project below the funding threshold never counts: it changes neither the
/// qualifying nor the completed count nor the qualifying total.
pub proof fn law_below_threshold_ignored(
    ids: Seq<u64>,
    metrics: Map<u64, ProjectSuccessMetrics>,
    threshold: i128,
    id: u64,
)
    requires
        !qualifies(metrics, id, threshold),
    ensures
        qualifying_count(ids.push(id), metrics, threshold) == qualifying_count(ids, metrics, threshold),
        successful_count(ids.push(id), metrics, threshold) == successful_count(ids, metrics, threshold),
        qualifying_total(ids.push(id), metrics, threshold) == qualifying_total(ids, metrics, threshold),
{
    assert(ids.push(id).drop_last() =~= ids);
}

/// Funding below the threshold earns no reputation: reputations and the audit
/// trail stay as they were.
pub proof fn law_small_funding_earns_nothing(
    v: ReputationView,
    donor: Address,
    project_id: u64,
    funded_amount: i128,
    total_milestones: u32,
    now: u64,
)
    requires
        funded_amount < v.config_in_force().min_funding_threshold,
    ensures
        v.record_project_funded_spec(donor, project_id, funded_amount, total_milestones, now).0.reputations
            == v.reputations,
        v.record_project_funded_spec(donor, project_id, funded_amount, total_milestones, now).0.updates
            == v.updates,
{
}

/// A reputation record is only ever created for a donor with a qualifying project.
pub proof fn law_record_needs_qualifying_project(
    v: ReputationView,
    donor: Address,
    reason: ReputationUpdateReason,
    project_id: Option<u64>,
    now: u64,
)
    requires
        !v.reputations.contains_key(donor),
        v.update_reputation(donor, reason, project_id, now).reputations.contains_key(donor),
    ensures
        v.qualifying_of(donor) > 0,
{
}

/// Donors are independent: updating one donor's reputation leaves every other
/// donor's record as it was.
pub proof fn law_donors_independent(
    v: ReputationView,
    donor: Address,
    other: Address,
    reason: ReputationUpdateReason,
    project_id: Option<u64>,
    now: u64,
)
    requires
        donor != other,
    ensures
        v.update_reputation(donor, reason, project_id, now).reputations.contains_key(other)
            == v.reputations.contains_key(other),
        v.reputations.contains_key(other) ==> v.update_reputation(
            donor,
            reason,
            project_id,
            now,
        ).reputations[other] == v.reputations[other],
{
}

/// The audit trail: every reputation change appends one entry, under the id
/// that follows the previous one, for that donor and with the new score.
pub proof fn law_audit_trail(
    v: ReputationView,
    donor: Address,
    reason: ReputationUpdateReason,
    project_id: Option<u64>,
    now: u64,
)
    requires
        v.update_reputation(donor, reason, project_id, now) != v,
    ensures
        ({
            let w = v.update_reputation(donor, reason, project_id, now);
            let id = v.next_id();
            &&& w.update_counter == Some(id)
            &&& w.updates == v.updates.insert(id, w.updates[id])
            &&& w.updates[id].update_id == id
            &&& w.updates[id].donor == donor
            &&& w.updates[id].new_score == w.reputations[donor].reputation_score
            &&& w.updates[id].timestamp == now
            &&& (v.update_counter matches Some(c) ==> (c < u64::MAX ==> id == c + 1))
        }),
{
}

/// The reputation record after an update reflects the donor's projects: for
/// an existing record, and for a new one (made once a project qualifies), its
/// counts, rate, score, total and multiplier are those computed from the
/// qualifying projects, and the multiplier is at most the maximum in force
/// when the record is written (and at least 1x under a valid maximum).
pub proof fn law_refreshed_record(
    v: ReputationView,
    donor: Address,
    reason: ReputationUpdateReason,
    project_id: Option<u64>,
    now: u64,
)
    requires
        v.reputations.contains_key(donor) || v.qualifying_of(donor) > 0,
        v.update_defined(donor),
    ensures
        v.update_reputation(donor, reason, project_id, now).reputations.contains_key(donor),
        ({
            let r = v.update_reputation(donor, reason, project_id, now).reputations[donor];
            &&& r.qualifying_projects == v.qualifying_of(donor)
            &&& r.successful_projects == v.successful_of(donor)
            &&& r.success_rate == v.success_rate(donor)
            &&& r.reputation_score == v.score(donor)
            &&& r.total_funded == v.qualifying_total_of(donor)
            &&& r.influence_multiplier == influence_multiplier(v.score(donor), v.config_in_force())
            &&& r.influence_multiplier <= v.config_in_force().max_multiplier
            &&& v.config_in_force().max_multiplier >= REPUTATION_SCALE ==> REPUTATION_SCALE
                <= r.influence_multiplier
            &&& r.last_updated == now
        }),
{
    law_rate_bounds(v, donor);
    let score = v.score(donor);
    let span: int = v.config_in_force().max_multiplier - REPUTATION_SCALE;
    if span >= 0 {
        assert(score * span >= 0) by (nonlinear_arith)
            requires
                score >= 0,
                span >= 0,
        ;
    }
    lemma_sums_fit_prefix(
        v.funded_list(donor),
        v.metrics,
        v.config_in_force().min_funding_threshold,
        v.funded_list(donor).len() as int,
    );
    assert(v.funded_list(donor).take(v.funded_list(donor).len() as int) =~= v.funded_list(donor));
}

/// A milestone is recorded once: after it has been recorded, recording it
/// again fails with `DuplicateMilestone` and changes nothing.
pub proof fn law_milestone_once(
    v: ReputationView,
    project_id: u64,
    milestone_index: u32,
    evidence_hash: Option<[u8; 32]>,
    now: u64,
    later: u64,
)
    requires
        v.record_milestone_completed_spec(project_id, milestone_index, evidence_hash, now).1 is Ok,
    ensures
        ({
            let w = v.record_milestone_completed_spec(project_id, milestone_index, evidence_hash, now).0;
            w.record_milestone_completed_spec(project_id, milestone_index, evidence_hash, later) == (
                w,
                Err::<(), ReputationError>(ReputationError::DuplicateMilestone),
            )
        }),
{
    let w1 = v.with_milestone(project_id, milestone_index, evidence_hash, now);
    let d = v.metrics[project_id].donor;
    let w = w1.update_reputation(d, ReputationUpdateReason::MilestoneCompleted, Some(project_id), now);
    assert(w.milestones == w1.milestones);
    assert(w.metrics == w1.metrics);
}

/// The last milestone completes the project: after a milestone is recorded,
/// the project is `Completed` exactly when its completed count reaches its
/// total (unless it had completed before).
pub proof fn law_last_milestone_completes(
    v: ReputationView,
    project_id: u64,
    milestone_index: u32,
    evidence_hash: Option<[u8; 32]>,
    now: u64,
)
    requires
        v.record_milestone_completed_spec(project_id, milestone_index, evidence_hash, now).1 is Ok,
        v.metrics[project_id].completed_milestones < u32::MAX,
    ensures
        ({
            let w = v.record_milestone_completed_spec(project_id, milestone_index, evidence_hash, now).0;
            let m = w.metrics[project_id];
            &&& m.completed_milestones == v.metrics[project_id].completed_milestones + 1
            &&& m.completed_milestones == m.total_milestones ==> m.project_status
                == GrantStatus::Completed && m.completed_at == Some(now)
            &&& m.completed_milestones != m.total_milestones ==> m.project_status
                == v.metrics[project_id].project_status
        }),
{
}

/// A completed project cannot be marked failed.
pub proof fn law_completed_cannot_fail(v: ReputationView, project_id: u64, now: u64)
    requires
        v.metrics.contains_key(project_id),
        v.metrics[project_id].project_status == GrantStatus::Completed,
    ensures
        v.record_project_failed_spec(project_id, now) == (
            v,
            Err::<(), ReputationError>(ReputationError::ProjectNotCompleted),
        ),
{
}

/// Configuration updates are for the administrator alone and all-or-nothing:
/// a caller other than the administrator is refused with `NotAuthorized`, a
/// rejected update changes nothing, an accepted one stores exactly the given
/// values over the configuration in force.
pub proof fn law_config_update(
    v: ReputationView,
    caller: Address,
    min_funding_threshold: Option<i128>,
    max_multiplier: Option<i128>,
    calculation_window_secs: Option<u64>,
    recency_weight: Option<i128>,
)
    ensures
        ({
            let (w, r) = v.update_config_spec(
                caller,
                min_funding_threshold,
                max_multiplier,
                calculation_window_secs,
                recency_weight,
            );
            &&& r is Err ==> w == v
            &&& (v.admin is Some && v.admin != Some(caller)) ==> r == Err::<(), ReputationError>(
                ReputationError::NotAuthorized,
            )
            &&& r is Ok ==> {
                &&& v.admin == Some(caller)
                &&& w.config is Some
                &&& min_funding_threshold matches Some(t) ==> w.config_in_force().min_funding_threshold
                    == t && t > 0
                &&& min_funding_threshold is None ==> w.config_in_force().min_funding_threshold
                    == v.config_in_force().min_funding_threshold
                &&& max_multiplier matches Some(m) ==> w.config_in_force().max_multiplier == m && m
                    > REPUTATION_SCALE
                &&& max_multiplier is None ==> w.config_in_force().max_multiplier
                    == v.config_in_force().max_multiplier
                &&& w.reputations == v.reputations
                &&& w.metrics == v.metrics
            }
        }),
{
}

/// The system is initialized once, and the first caller becomes its administrator.
pub proof fn law_initialize_once(v: ReputationView, admin: Address, other: Address)
    requires
        v.initialize_spec(admin).1 is Ok,
    ensures
        v.initialize_spec(admin).0.initialize_spec(other) == (
            v.initialize_spec(admin).0,
            Err::<(), ReputationError>(ReputationError::NotInitialized),
        ),
        v.initialize_spec(admin).0.config_in_force() == default_config(),
        v.initialize_spec(admin).0.admin == Some(admin),
{
}

/// Recomputing a reputation keeps the state well formed.
proof fn lemma_update_keeps_well_formed(
    v: ReputationView,
    donor: Address,
    reason: ReputationUpdateReason,
    project_id: Option<u64>,
    now: u64,
)
    requires
        v.well_formed(),
        v.update_defined(donor),
    ensures
        v.update_reputation(donor, reason, project_id, now).well_formed(),
{
    law_rate_bounds(v, donor);
    let config = v.config_in_force();
    let score = v.score(donor);
    let span: int = config.max_multiplier - REPUTATION_SCALE;
    assert(score * span >= 0) by (nonlinear_arith)
        requires
            score >= 0,
            span >= 0,
    ;
    assert(trunc_div(score * span, REPUTATION_SCALE as int) >= 0);
    let w = v.update_reputation(donor, reason, project_id, now);
    assert forall|d: Address| #[trigger] w.reputations.contains_key(d) implies record_consistent(
        w.reputations[d],
    ) by {
        if d != donor {
            assert(v.reputations.contains_key(d));
        }
    }
}

/// The reputation state stays well formed: empty storage is well formed, and
/// every operation, on the inputs it accepts, keeps it so. So in every state
/// reached by the operations, each stored record has a rate between 0% and
/// 100%, the score of that rate, no more completed than qualifying projects
/// and a multiplier of at least 1x.
pub proof fn law_reputation_invariant(
    v: ReputationView,
    admin: Address,
    donor: Address,
    project_id: u64,
    funded_amount: i128,
    total_milestones: u32,
    milestone_index: u32,
    evidence_hash: Option<[u8; 32]>,
    min_funding_threshold: Option<i128>,
    max_multiplier: Option<i128>,
    calculation_window_secs: Option<u64>,
    recency_weight: Option<i128>,
    now: u64,
)
    requires
        v.well_formed(),
    ensures
        (ReputationView {
            admin: None,
            reputations: Map::empty(),
            metrics: Map::empty(),
            config: None,
            update_counter: None,
            updates: Map::empty(),
            funded_projects: Map::empty(),
            milestones: Map::empty(),
        }).well_formed(),
        v.initialize_spec(admin).0.well_formed(),
        v.update_config_spec(
            admin,
            min_funding_threshold,
            max_multiplier,
            calculation_window_secs,
            recency_weight,
        ).0.well_formed(),
        v.record_project_funded_defined(donor, project_id, funded_amount, total_milestones, now)
            ==> v.record_project_funded_spec(
            donor,
            project_id,
            funded_amount,
            total_milestones,
            now,
        ).0.well_formed(),
        v.record_milestone_completed_defined(project_id, milestone_index, evidence_hash, now)
            ==> v.record_milestone_completed_spec(
            project_id,
            milestone_index,
            evidence_hash,
            now,
        ).0.well_formed(),
        v.record_project_failed_defined(project_id, now) ==> v.record_project_failed_spec(
            project_id,
            now,
        ).0.well_formed(),
{
    if v.record_project_funded_defined(donor, project_id, funded_amount, total_milestones, now)
        && ReputationView::funding_is_valid(funded_amount, total_milestones) && funded_amount
        >= v.config_in_force().min_funding_threshold {
        let s1 = v.with_funded_project(donor, project_id, funded_amount, total_milestones, now);
        assert(s1.reputations == v.reputations);
        lemma_update_keeps_well_formed(
            s1,
            donor,
            ReputationUpdateReason::ProjectFunded,
            Some(project_id),
            now,
        );
    }
    if v.record_milestone_completed_defined(project_id, milestone_index, evidence_hash, now)
        && v.milestone_check(project_id, milestone_index) is Ok {
        let s1 = v.with_milestone(project_id, milestone_index, evidence_hash, now);
        assert(s1.reputations == v.reputations);
        lemma_update_keeps_well_formed(
            s1,
            v.metrics[project_id].donor,
            ReputationUpdateReason::MilestoneCompleted,
            Some(project_id),
            now,
        );
    }
    if v.record_project_failed_defined(project_id, now) && v.failure_check(project_id) is Ok {
        let s1 = v.with_failed_project(project_id, now);
        assert(s1.reputations == v.reputations);
        lemma_update_keeps_well_formed(
            s1,
            v.metrics[project_id].donor,
            ReputationUpdateReason::ProjectFailed,
            Some(project_id),
            now,
        );
    }
}

/// Influence comes from the stored success rate: in a well-formed state, a
/// donor's influence is `1x + rate * (max - 1x) / 100%` for the stored rate and
/// the maximum in force, whatever the number of projects behind the rate. So
/// among donors it grows with the success rate, strictly when the maximum
/// exceeds 1x by at least `BASIS_POINTS` scaled units.
pub proof fn law_influence_from_stored_rate(v: ReputationView, d1: Address, d2: Address)
    requires
        v.well_formed(),
        v.reputations.contains_key(d1),
        v.reputations.contains_key(d2),
        v.influence_defined(d1),
        v.influence_defined(d2),
    ensures
        v.influence_of(d1) == Ok::<i128, ReputationError>(
            (REPUTATION_SCALE + (v.reputations[d1].success_rate * (v.config_in_force().max_multiplier
                - REPUTATION_SCALE)) / (BASIS_POINTS as int)) as i128,
        ),
        v.reputations[d1].success_rate <= v.reputations[d2].success_rate ==> v.influence_of(
            d1,
        )->Ok_0 <= v.influence_of(d2)->Ok_0,
        v.reputations[d1].success_rate < v.reputations[d2].success_rate
            && v.config_in_force().max_multiplier - REPUTATION_SCALE >= BASIS_POINTS
            ==> v.influence_of(d1)->Ok_0 < v.influence_of(d2)->Ok_0,
{
    let config = v.config_in_force();
    let r1 = v.reputations[d1].success_rate as int;
    let r2 = v.reputations[d2].success_rate as int;
    assert(record_consistent(v.reputations[d1]));
    assert(record_consistent(v.reputations[d2]));
    law_linear_influence(r1, config);
    law_linear_influence(r2, config);
    let span: int = config.max_multiplier - REPUTATION_SCALE;
    if r1 <= r2 {
        assert((r1 * span) / 10_000 <= (r2 * span) / 10_000) by (nonlinear_arith)
            requires
                r1 <= r2,
                span >= 0,
                r1 >= 0,
        {
            assert(r1 * span <= r2 * span);
            vstd::arithmetic::div_mod::lemma_div_is_ordered(r1 * span, r2 * span, 10_000);
        }
    }
    if r1 < r2 && span >= BASIS_POINTS {
        assert((r1 * span) / 10_000 < (r2 * span) / 10_000) by (nonlinear_arith)
            requires
                r1 < r2,
                span >= 10_000,
                r1 >= 0,
        {
            assert(r2 * span >= r1 * span + span);
            assert(r1 * span + 10_000 <= r2 * span);
            vstd::arithmetic::div_mod::lemma_div_is_ordered(r1 * span + 10_000, r2 * span, 10_000);
            vstd::arithmetic::div_mod::lemma_div_plus_one(r1 * span, 10_000);
        }
    }
}

/// Milestones may be recorded in any order: for a funded project, every
/// milestone index below its total that has not been recorded yet is
/// accepted. The milestone is then recorded as completed at `now` with its
/// evidence, the project's completed count grows by one, and the project
/// completes when that count reaches its total.
pub proof fn law_milestones_in_any_order(
    v: ReputationView,
    project_id: u64,
    milestone_index: u32,
    evidence_hash: Option<[u8; 32]>,
    now: u64,
)
    requires
        v.metrics.contains_key(project_id),
        milestone_index < v.metrics[project_id].total_milestones,
        !v.milestones.contains_key((project_id, milestone_index)),
        v.metrics[project_id].completed_milestones < u32::MAX,
    ensures
        ({
            let (w, r) = v.record_milestone_completed_spec(
                project_id,
                milestone_index,
                evidence_hash,
                now,
            );
            let before = v.metrics[project_id];
            let after = w.metrics[project_id];
            &&& r is Ok
            &&& w.milestones.contains_key((project_id, milestone_index))
            &&& w.milestones[(project_id, milestone_index)].is_completed
            &&& w.milestones[(project_id, milestone_index)].milestone_index == milestone_index
            &&& w.milestones[(project_id, milestone_index)].project_id == project_id
            &&& w.milestones[(project_id, milestone_index)].completed_at == Some(now)
            &&& w.milestones[(project_id, milestone_index)].evidence_hash == evidence_hash
            &&& w.metrics.contains_key(project_id)
            &&& after.completed_milestones == before.completed_milestones + 1
            &&& after.total_milestones == before.total_milestones
            &&& after.donor == before.donor
            &&& after.funded_amount == before.funded_amount
            &&& (before.completed_milestones + 1 == before.total_milestones ==> after.project_status
                == GrantStatus::Completed)
            &&& (before.completed_milestones + 1 != before.total_milestones ==> after.project_status
                == before.project_status)
        }),
{
}

/// Funding is recorded as given: with a positive amount and at least one
/// milestone, `record_project_funded` succeeds, the project's metrics hold the
/// donor, milestone total, amount and creation time given, with no milestone
/// completed, an active status and no completion time, and the project is
/// appended to the donor's funded list. Otherwise it fails with
/// `InvalidAmount` and changes nothing.
pub proof fn law_funding_recorded(
    v: ReputationView,
    donor: Address,
    project_id: u64,
    funded_amount: i128,
    total_milestones: u32,
    now: u64,
)
    ensures
        ({
            let (w, r) = v.record_project_funded_spec(
                donor,
                project_id,
                funded_amount,
                total_milestones,
                now,
            );
            &&& (r is Ok) == (funded_amount > 0 && total_milestones > 0)
            &&& r is Err ==> w == v && r == Err::<(), ReputationError>(
                ReputationError::InvalidAmount,
            )
            &&& r is Ok ==> {
                let m = w.metrics[project_id];
                &&& w.metrics.contains_key(project_id)
                &&& m.project_id == project_id
                &&& m.donor == donor
                &&& m.total_milestones == total_milestones
                &&& m.completed_milestones == 0
                &&& m.project_status == GrantStatus::Active
                &&& m.funded_amount == funded_amount
                &&& m.created_at == now
                &&& m.completed_at is None
                &&& w.funded_list(donor) == v.funded_list(donor).push(project_id)
            }
        }),
{
}

/// Failing a project: an existing project that has not completed is marked
/// cancelled at `now`, with its milestones, donor and amount unchanged; an
/// unknown project gives `ProjectNotFound` and a completed one
/// `ProjectNotCompleted`, each changing nothing.
pub proof fn law_failure_recorded(v: ReputationView, project_id: u64, now: u64)
    ensures
        ({
            let (w, r) = v.record_project_failed_spec(project_id, now);
            &&& !v.metrics.contains_key(project_id) ==> r == Err::<(), ReputationError>(
                ReputationError::ProjectNotFound,
            ) && w == v
            &&& v.metrics.contains_key(project_id) && v.metrics[project_id].project_status
                == GrantStatus::Completed ==> r == Err::<(), ReputationError>(
                ReputationError::ProjectNotCompleted,
            ) && w == v
            &&& v.metrics.contains_key(project_id) && v.metrics[project_id].project_status
                != GrantStatus::Completed ==> {
                let before = v.metrics[project_id];
                let after = w.metrics[project_id];
                &&& r is Ok
                &&& w.metrics.contains_key(project_id)
                &&& after.project_status == GrantStatus::Cancelled
                &&& after.completed_at == Some(now)
                &&& after.completed_milestones == before.completed_milestones
                &&& after.total_milestones == before.total_milestones
                &&& after.donor == before.donor
                &&& after.funded_amount == before.funded_amount
                &&& after.created_at == before.created_at
            }
        }),
{
}

/// The success rate is the nearest whole percentage, halves rounded up: for a
/// donor with `q > 0` qualifying projects of which `c` completed, the rate is
/// `100 * p` basis points for the whole `p` with
/// `p - 1/2 <= 100 * c / q < p + 1/2`; with no qualifying project it is 0.
pub proof fn law_rate_is_rounded_percent(v: ReputationView, donor: Address)
    ensures
        ({
            let q = v.qualifying_of(donor) as int;
            let c = v.successful_of(donor) as int;
            let rate = v.success_rate(donor);
            &&& q == 0 ==> rate == 0
            &&& q > 0 ==> rate % 100 == 0 && q * (2 * (rate / 100) - 1) <= 200 * c && 200 * c < q
                * (2 * (rate / 100) + 1)
        }),
{
    let q = v.qualifying_of(donor) as int;
    let c = v.successful_of(donor) as int;
    if q > 0 {
        let num = 200 * c + q;
        let den = 2 * q;
        let p = num / den;
        vstd::arithmetic::div_mod::lemma_fundamental_div_mod(num, den);
        assert(0 <= num % den < den) by {
            vstd::arithmetic::div_mod::lemma_mod_bound(num, den);
        }
        assert(num == den * p + num % den);
        assert(den * p <= num < den * p + den);
        assert(q * (2 * p - 1) <= 200 * c && 200 * c < q * (2 * p + 1)) by (nonlinear_arith)
            requires
                den == 2 * q,
                num == 200 * c + q,
                den * p <= num,
                num < den * p + den,
        ;
        assert(v.success_rate(donor) == p * 100);
        assert((p * 100) / 100 == p && (p * 100) % 100 == 0) by (nonlinear_arith);
    }
}

/// The influence of a donor with a reputation is `1x + score * (max - 1x) / 1x`
/// (rounded towards zero) capped at the maximum in force, for the stored
/// score; a donor without one has no influence (`DonorNotFound`).
pub proof fn law_influence_formula(v: ReputationView, donor: Address)
    requires
        v.influence_defined(donor),
    ensures
        !v.reputations.contains_key(donor) ==> v.influence_of(donor) == Err::<i128, ReputationError>(
            ReputationError::DonorNotFound,
        ),
        v.reputations.contains_key(donor) ==> {
            let score = v.reputations[donor].reputation_score as int;
            let max = v.config_in_force().max_multiplier as int;
            let product = score * (max - REPUTATION_SCALE);
            let grown = REPUTATION_SCALE + (if product >= 0 {
                product / (REPUTATION_SCALE as int)
            } else {
                -((-product) / (REPUTATION_SCALE as int))
            });
            v.influence_of(donor) == Ok::<i128, ReputationError>(
                (if grown <= max {
                    grown
                } else {
                    max
                }) as i128,
            ) && (if grown <= max {
                grown
            } else {
                max
            }) <= i128::MAX
        },
{
}

} // verus!
