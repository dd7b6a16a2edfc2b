use agritrust::address::Address;
use agritrust::dead_mans_switch::{DeadMansSwitchContract, SwitchError, SwitchKey, INACTIVITY_PERIOD};

const DAY: u64 = 24 * 60 * 60;

fn addr(n: u128) -> Address {
    Address { is_contract: false, key_high: 0, key_low: n }
}

fn setup() -> (DeadMansSwitchContract, Address, Address) {
    let mut client = DeadMansSwitchContract::new();
    let admin = addr(1);
    let vault = addr(2);
    client.initialize(admin, vault, 0).unwrap();
    (client, admin, vault)
}

#[test]
fn test_initialize_succeeds() {
    let mut client = DeadMansSwitchContract::new();
    let admin = addr(1);
    let vault = addr(2);
    assert!(client.initialize(admin, vault, 0).is_ok());
}

#[test]
fn test_double_initialize_fails() {
    let mut client = DeadMansSwitchContract::new();
    let admin = addr(1);
    let vault = addr(2);
    client.initialize(admin, vault, 0).unwrap();
    let result = client.initialize(admin, vault, 0);
    assert_eq!(result, Err(SwitchError::NotInitialized));
}

#[test]
fn test_heartbeat_resets_countdown() {
    let (mut client, admin, _vault) = setup();
    let now = 100 * DAY;
    client.heartbeat(admin, now).unwrap();
    assert!(client.time_until_recovery(now) > INACTIVITY_PERIOD - 10);
}

#[test]
fn test_heartbeat_unauthorized_user_fails() {
    let (mut client, _admin, _vault) = setup();
    let stranger = addr(3);
    let result = client.heartbeat(stranger, 0);
    assert_eq!(result, Err(SwitchError::UnauthorizedAdmin));
}

#[test]
fn test_claim_before_180_days_fails_with_correct_error() {
    let (mut client, _admin, vault) = setup();
    let result = client.claim_admin(vault, 90 * DAY);
    assert_eq!(result, Err(SwitchError::InactivityPeriodNotElapsed));
}

#[test]
fn test_claim_after_180_days_succeeds() {
    let (mut client, _admin, vault) = setup();
    client.claim_admin(vault, 181 * DAY).unwrap();
    assert_eq!(client.get_admin().unwrap(), vault);
}

#[test]
fn test_claim_unauthorized_user_fails() {
    let (mut client, _admin, _vault) = setup();
    let stranger = addr(3);
    let result = client.claim_admin(stranger, 181 * DAY);
    assert_eq!(result, Err(SwitchError::UnauthorizedVault));
}

#[test]
fn test_double_claim_fails_with_correct_error() {
    let (mut client, _admin, vault) = setup();
    client.claim_admin(vault, 181 * DAY).unwrap();
    let result = client.claim_admin(vault, 181 * DAY);
    assert_eq!(result, Err(SwitchError::RecoveryAlreadyExecuted));
}

#[test]
fn test_update_recovery_vault_by_admin_succeeds() {
    let (mut client, admin, _vault) = setup();
    let new_vault = addr(4);
    client.update_recovery_vault(admin, new_vault, 0).unwrap();
    assert_eq!(client.get_recovery_vault().unwrap(), new_vault);
}

#[test]
fn test_update_recovery_vault_unauthorized_fails() {
    let (mut client, _admin, _vault) = setup();
    let stranger = addr(3);
    let new_vault = addr(4);
    let result = client.update_recovery_vault(stranger, new_vault, 0);
    assert_eq!(result, Err(SwitchError::UnauthorizedAdmin));
}

#[test]
fn test_get_admin_succeeds() {
    let (client, admin, _vault) = setup();
    assert_eq!(client.get_admin().unwrap(), admin);
}

#[test]
fn test_get_recovery_vault_succeeds() {
    let (client, _admin, vault) = setup();
    assert_eq!(client.get_recovery_vault().unwrap(), vault);
}

#[test]
fn uninitialized_switch_reports_not_initialized() {
    let mut client = DeadMansSwitchContract::new();
    assert!(!client.has(SwitchKey::PrimaryAdmin));
    assert_eq!(client.get_admin(), Err(SwitchError::NotInitialized));
    assert_eq!(client.get_recovery_vault(), Err(SwitchError::NotInitialized));
    assert_eq!(client.heartbeat(addr(1), 5), Err(SwitchError::NotInitialized));
    assert_eq!(client.claim_admin(addr(2), 5), Err(SwitchError::NotInitialized));
    assert_eq!(client.time_until_recovery(0), INACTIVITY_PERIOD);
}

#[test]
fn countdown_counts_down_and_stops_at_zero() {
    let (client, _admin, _vault) = setup();
    assert!(client.has(SwitchKey::LastActivityAt));
    assert_eq!(client.time_until_recovery(0), INACTIVITY_PERIOD);
    assert_eq!(client.time_until_recovery(10 * DAY), INACTIVITY_PERIOD - 10 * DAY);
    assert_eq!(client.time_until_recovery(180 * DAY), 0);
    assert_eq!(client.time_until_recovery(400 * DAY), 0);
}

#[test]
fn claim_exactly_at_period_succeeds_and_countdown_is_zero() {
    let (mut client, admin, vault) = setup();
    assert_eq!(client.time_until_recovery(INACTIVITY_PERIOD - 1), 1);
    assert_eq!(
        client.claim_admin(vault, INACTIVITY_PERIOD - 1),
        Err(SwitchError::InactivityPeriodNotElapsed)
    );
    assert_eq!(client.time_until_recovery(INACTIVITY_PERIOD), 0);
    assert!(client.claim_admin(vault, INACTIVITY_PERIOD).is_ok());
    assert_eq!(client.get_admin().unwrap(), vault);
    // The old admin lost its rights; the vault is now the admin.
    assert_eq!(client.heartbeat(admin, INACTIVITY_PERIOD), Err(SwitchError::UnauthorizedAdmin));
    assert!(client.heartbeat(vault, INACTIVITY_PERIOD).is_ok());
}

#[test]
fn heartbeat_postpones_claim() {
    let (mut client, admin, vault) = setup();
    client.heartbeat(admin, 100 * DAY).unwrap();
    assert_eq!(client.claim_admin(vault, 181 * DAY), Err(SwitchError::InactivityPeriodNotElapsed));
    assert_eq!(client.time_until_recovery(181 * DAY), INACTIVITY_PERIOD - 81 * DAY);
    assert!(client.claim_admin(vault, 280 * DAY).is_ok());
}

#[test]
fn updating_vault_counts_as_activity_and_moves_claim_right() {
    let (mut client, admin, vault) = setup();
    let new_vault = addr(9);
    client.update_recovery_vault(admin, new_vault, 50 * DAY).unwrap();
    assert_eq!(client.time_until_recovery(50 * DAY), INACTIVITY_PERIOD);
    assert_eq!(client.claim_admin(vault, 300 * DAY), Err(SwitchError::UnauthorizedVault));
    assert!(client.claim_admin(new_vault, 300 * DAY).is_ok());
}

#[test]
fn record_activity_resets_countdown() {
    let (mut client, _admin, _vault) = setup();
    client.record_activity(30 * DAY);
    assert_eq!(client.last_activity_at, Some(30 * DAY));
    assert_eq!(client.time_until_recovery(30 * DAY), INACTIVITY_PERIOD);
}

#[test]
fn failed_calls_leave_state_unchanged() {
    let (mut client, _admin, vault) = setup();
    let before = client;
    let _ = client.heartbeat(addr(7), 3 * DAY);
    let _ = client.update_recovery_vault(addr(7), addr(8), 3 * DAY);
    let _ = client.claim_admin(vault, 3 * DAY);
    let _ = client.initialize(addr(7), addr(8), 3 * DAY);
    assert_eq!(client, before);
}
