//! Dead man's switch: the recovery vault may take over admin rights once the
//! primary admin has been inactive for the inactivity period.
use crate::address::Address;
use vstd::prelude::*;

verus! {

/// 180 days in seconds.
pub const INACTIVITY_PERIOD: u64 = 15_552_000;

/// The storage entries of the switch.
#[derive(Clone, Copy, Debug, PartialEq, Eq, Structural)]
pub enum SwitchKey {
    /// Address of the primary admin.
    PrimaryAdmin,
    /// Address of the recovery vault.
    RecoveryVault,
    /// Timestamp of the last admin activity.
    LastActivityAt,
    /// Whether the recovery has been executed.
    RecoveryExecuted,
}

/// All error conditions the switch can return.
#[derive(Clone, Copy, Debug, PartialEq, Eq, Structural)]
pub enum SwitchError {
    /// Contract has not been initialized yet (also returned on a second initialization).
    NotInitialized,
    /// Caller is not the primary admin.
    UnauthorizedAdmin,
    /// Caller is not the recovery vault.
    UnauthorizedVault,
    /// Recovery has already been executed once.
    RecoveryAlreadyExecuted,
    /// The inactivity period has not elapsed yet.
    InactivityPeriodNotElapsed,
}

/// The stored state of the switch; `None` is an entry that was never written.
#[derive(Clone, Copy, Debug, PartialEq, Eq, Structural)]
pub struct DeadMansSwitchContract {
    pub primary_admin: Option<Address>,
    pub recovery_vault: Option<Address>,
    pub last_activity_at: Option<u64>,
    pub recovery_executed: Option<bool>,
}

/// `a - b`, or zero when `b > a`.
pub open spec fn saturating_sub(a: int, b: int) -> int {
    if a >= b {
        a - b
    } else {
        0
    }
}

impl DeadMansSwitchContract {
    pub open spec fn has_spec(self, key: SwitchKey) -> bool {
        match key {
            SwitchKey::PrimaryAdmin => self.primary_admin is Some,
            SwitchKey::RecoveryVault => self.recovery_vault is Some,
            SwitchKey::LastActivityAt => self.last_activity_at is Some,
            SwitchKey::RecoveryExecuted => self.recovery_executed is Some,
        }
    }

    /// Seconds since the last recorded activity (a missing record counts as time zero).
    pub open spec fn elapsed(self, now: u64) -> int {
        saturating_sub(
            now as int,
            match self.last_activity_at {
                Some(t) => t as int,
                None => 0,
            },
        )
    }

    /// Seconds left before the recovery vault may claim admin rights.
    pub open spec fn time_until_recovery_spec(self, now: u64) -> int {
        saturating_sub(INACTIVITY_PERIOD as int, self.elapsed(now))
    }

    pub open spec fn recovery_done(self) -> bool {
        self.recovery_executed == Some(true)
    }

    /// Result of checking that `caller` is the primary admin.
    pub open spec fn admin_check(self, caller: Address) -> Result<(), SwitchError> {
        match self.primary_admin {
            None => Err(SwitchError::NotInitialized),
            Some(a) => if a == caller {
                Ok(())
            } else {
                Err(SwitchError::UnauthorizedAdmin)
            },
        }
    }

    /// Result of checking that `caller` is the recovery vault.
    pub open spec fn vault_check(self, caller: Address) -> Result<(), SwitchError> {
        match self.recovery_vault {
            None => Err(SwitchError::NotInitialized),
            Some(v) => if v == caller {
                Ok(())
            } else {
                Err(SwitchError::UnauthorizedVault)
            },
        }
    }

    /// The state after `initialize`, with its result.
    pub open spec fn initialize_spec(self, primary_admin: Address, recovery_vault: Address, now: u64) -> (
        Self,
        Result<(), SwitchError>,
    ) {
        if self.primary_admin is Some {
            (self, Err(SwitchError::NotInitialized))
        } else {
            (
                DeadMansSwitchContract {
                    primary_admin: Some(primary_admin),
                    recovery_vault: Some(recovery_vault),
                    last_activity_at: Some(now),
                    recovery_executed: Some(false),
                },
                Ok(()),
            )
        }
    }

    /// The state after `record_activity`.
    pub open spec fn record_activity_spec(self, now: u64) -> Self {
        DeadMansSwitchContract { last_activity_at: Some(now), ..self }
    }

    /// The state after `heartbeat`, with its result.
    pub open spec fn heartbeat_spec(self, admin: Address, now: u64) -> (Self, Result<(), SwitchError>) {
        match self.admin_check(admin) {
            Err(e) => (self, Err(e)),
            Ok(()) => (self.record_activity_spec(now), Ok(())),
        }
    }

    /// The state after `claim_admin`, with its result.
    pub open spec fn claim_admin_spec(self, recovery_vault: Address, now: u64) -> (
        Self,
        Result<(), SwitchError>,
    ) {
        match self.vault_check(recovery_vault) {
            Err(e) => (self, Err(e)),
            Ok(()) => if self.recovery_done() {
                (self, Err(SwitchError::RecoveryAlreadyExecuted))
            } else if self.elapsed(now) < INACTIVITY_PERIOD {
                (self, Err(SwitchError::InactivityPeriodNotElapsed))
            } else {
                (
                    DeadMansSwitchContract {
                        primary_admin: Some(recovery_vault),
                        recovery_executed: Some(true),
                        ..self
                    },
                    Ok(()),
                )
            },
        }
    }

    /// The state after `update_recovery_vault`, with its result.
    pub open spec fn update_recovery_vault_spec(self, admin: Address, new_vault: Address, now: u64) -> (
        Self,
        Result<(), SwitchError>,
    ) {
        match self.admin_check(admin) {
            Err(e) => (self, Err(e)),
            Ok(()) => (
                DeadMansSwitchContract {
                    recovery_vault: Some(new_vault),
                    ..self.record_activity_spec(now)
                },
                Ok(()),
            ),
        }
    }

    /// A switch whose storage holds nothing yet.
    pub fn new() -> (s: Self)
        ensures
            s.primary_admin is None,
            s.recovery_vault is None,
            s.last_activity_at is None,
            s.recovery_executed is None,
    {
        DeadMansSwitchContract {
            primary_admin: None,
            recovery_vault: None,
            last_activity_at: None,
            recovery_executed: None,
        }
    }

    /// Whether the storage entry `key` has been written.
    pub fn has(&self, key: SwitchKey) -> (r: bool)
        ensures
            r == self.has_spec(key),
    {
        match key {
            SwitchKey::PrimaryAdmin => self.primary_admin.is_some(),
            SwitchKey::RecoveryVault => self.recovery_vault.is_some(),
            SwitchKey::LastActivityAt => self.last_activity_at.is_some(),
            SwitchKey::RecoveryExecuted => self.recovery_executed.is_some(),
        }
    }

    /// Initialize with a primary admin and a recovery vault address, starting
    /// the countdown at `now`. Fails, changing nothing, if already initialized.
    pub fn initialize(&mut self, primary_admin: Address, recovery_vault: Address, now: u64) -> (r:
        Result<(), SwitchError>)
        ensures
            (*final(self), r) == old(self).initialize_spec(primary_admin, recovery_vault, now),
    {
        if self.has(SwitchKey::PrimaryAdmin) {
            return Err(SwitchError::NotInitialized);
        }
        self.primary_admin = Some(primary_admin);
        self.recovery_vault = Some(recovery_vault);
        self.last_activity_at = Some(now);
        self.recovery_executed = Some(false);
        Ok(())
    }

    /// Heartbeat: the primary admin proves liveness, resetting the countdown to `now`.
    pub fn heartbeat(&mut self, admin: Address, now: u64) -> (r: Result<(), SwitchError>)
        ensures
            (*final(self), r) == old(self).heartbeat_spec(admin, now),
    {
        self.assert_primary_admin(&admin)?;
        self.last_activity_at = Some(now);
        Ok(())
    }

    /// Resets the countdown to `now`; every admin action does this.
    pub fn record_activity(&mut self, now: u64)
        ensures
            *final(self) == old(self).record_activity_spec(now),
    {
        self.last_activity_at = Some(now);
    }

    /// The recovery vault claims admin rights after the inactivity period.
    pub fn claim_admin(&mut self, recovery_vault: Address, now: u64) -> (r: Result<(), SwitchError>)
        ensures
            (*final(self), r) == old(self).claim_admin_spec(recovery_vault, now),
    {
        self.assert_recovery_vault(&recovery_vault)?;
        let already_executed: bool = match self.recovery_executed {
            Some(b) => b,
            None => false,
        };
        if already_executed {
            return Err(SwitchError::RecoveryAlreadyExecuted);
        }
        let last_activity: u64 = match self.last_activity_at {
            Some(t) => t,
            None => 0,
        };
        let elapsed = now.saturating_sub(last_activity);
        if elapsed < INACTIVITY_PERIOD {
            return Err(SwitchError::InactivityPeriodNotElapsed);
        }
        self.primary_admin = Some(recovery_vault);
        self.recovery_executed = Some(true);
        Ok(())
    }

    /// Update the recovery vault address (primary admin only); counts as activity.
    pub fn update_recovery_vault(&mut self, admin: Address, new_vault: Address, now: u64) -> (r:
        Result<(), SwitchError>)
        ensures
            (*final(self), r) == old(self).update_recovery_vault_spec(admin, new_vault, now),
    {
        self.assert_primary_admin(&admin)?;
        self.record_activity(now);
        self.recovery_vault = Some(new_vault);
        Ok(())
    }

    /// How many seconds remain at `now` before the recovery vault can claim admin.
    pub fn time_until_recovery(&self, now: u64) -> (r: u64)
        ensures
            r == self.time_until_recovery_spec(now),
    {
        let last_activity: u64 = match self.last_activity_at {
            Some(t) => t,
            None => 0,
        };
        let elapsed = now.saturating_sub(last_activity);
        INACTIVITY_PERIOD.saturating_sub(elapsed)
    }

    /// The current primary admin.
    pub fn get_admin(&self) -> (r: Result<Address, SwitchError>)
        ensures
            r == match self.primary_admin {
                Some(a) => Ok::<Address, SwitchError>(a),
                None => Err(SwitchError::NotInitialized),
            },
    {
        match self.primary_admin {
            Some(a) => Ok(a),
            None => Err(SwitchError::NotInitialized),
        }
    }

    /// The recovery vault address.
    pub fn get_recovery_vault(&self) -> (r: Result<Address, SwitchError>)
        ensures
            r == match self.recovery_vault {
                Some(a) => Ok::<Address, SwitchError>(a),
                None => Err(SwitchError::NotInitialized),
            },
    {
        match self.recovery_vault {
            Some(a) => Ok(a),
            None => Err(SwitchError::NotInitialized),
        }
    }

    fn assert_primary_admin(&self, caller: &Address) -> (r: Result<(), SwitchError>)
        ensures
            r == self.admin_check(*caller),
    {
        let admin = match self.primary_admin {
            Some(a) => a,
            None => return Err(SwitchError::NotInitialized),
        };
        if *caller != admin {
            return Err(SwitchError::UnauthorizedAdmin);
        }
        Ok(())
    }

    fn assert_recovery_vault(&self, caller: &Address) -> (r: Result<(), SwitchError>)
        ensures
            r == self.vault_check(*caller),
    {
        let vault = match self.recovery_vault {
            Some(v) => v,
            None => return Err(SwitchError::NotInitialized),
        };
        if *caller != vault {
            return Err(SwitchError::UnauthorizedVault);
        }
        Ok(())
    }
}

/// A successful heartbeat at `now` resets the countdown: the full inactivity
/// period remains at that moment.
pub proof fn law_heartbeat_resets_countdown(s: DeadMansSwitchContract, admin: Address, now: u64)
    requires
        s.heartbeat_spec(admin, now).1 is Ok,
    ensures
        s.heartbeat_spec(admin, now).0.time_until_recovery_spec(now) == INACTIVITY_PERIOD,
{
}

/// The vault's claim succeeds exactly when the caller is the recovery vault,
/// recovery has not happened yet and no time is left before recovery.
pub proof fn law_claim_succeeds_iff_countdown_over(
    s: DeadMansSwitchContract,
    caller: Address,
    now: u64,
)
    ensures
        (s.claim_admin_spec(caller, now).1 is Ok) <==> (s.recovery_vault == Some(caller)
            && !s.recovery_done() && s.time_until_recovery_spec(now) == 0),
{
}

/// After a successful claim, the claimant is the primary admin and the switch is recovered.
pub proof fn law_claim_makes_vault_admin(s: DeadMansSwitchContract, caller: Address, now: u64)
    requires
        s.claim_admin_spec(caller, now).1 is Ok,
    ensures
        s.claim_admin_spec(caller, now).0.primary_admin == Some(caller),
        recovered(s.claim_admin_spec(caller, now).0),
{
}

/// The admin is set and recovery is marked executed.
pub open spec fn recovered(s: DeadMansSwitchContract) -> bool {
    s.recovery_done() && s.primary_admin is Some
}

/// Recovery happens at most once: once recovered (as every successful claim
/// leaves the switch), every operation keeps it so and every further claim fails.
pub proof fn law_recovery_is_final(
    s: DeadMansSwitchContract,
    a: Address,
    b: Address,
    now: u64,
    later: u64,
)
    requires
        recovered(s),
    ensures
        s.claim_admin_spec(a, later).1 is Err,
        recovered(s.claim_admin_spec(a, later).0),
        recovered(s.heartbeat_spec(a, now).0),
        recovered(s.update_recovery_vault_spec(a, b, now).0),
        recovered(s.record_activity_spec(now)),
        recovered(s.initialize_spec(a, b, now).0),
{
}

/// The switch is initialized once: a second initialization fails and changes nothing.
pub proof fn law_initialize_once(
    s: DeadMansSwitchContract,
    a: Address,
    b: Address,
    c: Address,
    d: Address,
    now: u64,
    later: u64,
)
    requires
        s.initialize_spec(a, b, now).1 is Ok,
    ensures
        s.initialize_spec(a, b, now).0.initialize_spec(c, d, later) == (
            s.initialize_spec(a, b, now).0,
            Err::<(), SwitchError>(SwitchError::NotInitialized),
        ),
{
}

/// Only the primary admin resets the countdown: a failed heartbeat or vault
/// update leaves the state as it was.
pub proof fn law_failed_calls_change_nothing(
    s: DeadMansSwitchContract,
    a: Address,
    b: Address,
    now: u64,
)
    ensures
        s.heartbeat_spec(a, now).1 is Err ==> s.heartbeat_spec(a, now).0 == s,
        s.update_recovery_vault_spec(a, b, now).1 is Err ==> s.update_recovery_vault_spec(a, b, now).0
            == s,
        s.claim_admin_spec(a, now).1 is Err ==> s.claim_admin_spec(a, now).0 == s,
        s.initialize_spec(a, b, now).1 is Err ==> s.initialize_spec(a, b, now).0 == s,
{
}

/// Initialization installs what it is given: on an uninitialized switch it
/// succeeds, the primary admin and the recovery vault are the given ones (in
/// that order), the countdown starts at `now` and no recovery has happened.
pub proof fn law_initialize_installs(
    s: DeadMansSwitchContract,
    admin: Address,
    vault: Address,
    now: u64,
)
    requires
        s.primary_admin is None,
    ensures
        ({
            let (t, r) = s.initialize_spec(admin, vault, now);
            &&& r is Ok
            &&& t.primary_admin == Some(admin)
            &&& t.recovery_vault == Some(vault)
            &&& t.last_activity_at == Some(now)
            &&& !t.recovery_done()
            &&& t.time_until_recovery_spec(now) == INACTIVITY_PERIOD
        }),
{
}

/// The countdown: with the last activity at `t` and `now >= t`, the time left
/// before recovery is `INACTIVITY_PERIOD - (now - t)`, or 0 once that many
/// seconds have passed; it never exceeds the period.
pub proof fn law_countdown(s: DeadMansSwitchContract, t: u64, now: u64)
    requires
        s.last_activity_at == Some(t),
        t <= now,
    ensures
        s.time_until_recovery_spec(now) == (if now - t >= INACTIVITY_PERIOD {
            0
        } else {
            INACTIVITY_PERIOD - (now - t)
        }),
        0 <= s.time_until_recovery_spec(now) <= INACTIVITY_PERIOD,
{
}

/// Only the primary admin moves the vault: `update_recovery_vault` succeeds
/// exactly for the primary admin, and then the vault is the new one, the
/// admin and the recovery state are unchanged and the countdown restarts.
/// A heartbeat by the admin changes nothing but the countdown.
pub proof fn law_vault_update(s: DeadMansSwitchContract, caller: Address, new_vault: Address, now: u64)
    ensures
        (s.update_recovery_vault_spec(caller, new_vault, now).1 is Ok) == (s.primary_admin == Some(
            caller,
        )),
        s.update_recovery_vault_spec(caller, new_vault, now).1 is Ok ==> {
            let t = s.update_recovery_vault_spec(caller, new_vault, now).0;
            &&& t.recovery_vault == Some(new_vault)
            &&& t.primary_admin == s.primary_admin
            &&& t.recovery_executed == s.recovery_executed
            &&& t.last_activity_at == Some(now)
        },
        (s.heartbeat_spec(caller, now).1 is Ok) == (s.primary_admin == Some(caller)),
        s.heartbeat_spec(caller, now).1 is Ok ==> s.heartbeat_spec(caller, now).0 == (
        DeadMansSwitchContract { last_activity_at: Some(now), ..s }),
{
}

} // verus!
