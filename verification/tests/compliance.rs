use agritrust::address::Address;
use agritrust::compliance::{ComplianceContract, ComplianceError};
use agritrust::zk_kyc::{KycError, ZKKYCContract};

fn addr(n: u128) -> Address {
    Address { is_contract: false, key_high: 7, key_low: n }
}

#[test]
fn compliance_requires_initialization() {
    let mut c = ComplianceContract::new();
    assert_eq!(c.sanction(addr(1)), Err(ComplianceError::NotInitialized));
    assert_eq!(c.unsanction(addr(1)), Err(ComplianceError::NotInitialized));
    assert_eq!(c.flag_address(addr(1)), Err(ComplianceError::NotInitialized));
    assert_eq!(c.get_officer(), Err(ComplianceError::NotInitialized));
    assert!(!c.is_sanctioned(addr(1)));
    assert!(!c.is_flagged(addr(1)));
}

#[test]
fn compliance_initializes_once() {
    let mut c = ComplianceContract::new();
    assert_eq!(c.init(addr(100)), Ok(()));
    assert_eq!(c.init(addr(101)), Err(ComplianceError::AlreadyInitialized));
    assert_eq!(c.get_officer(), Ok(addr(100)));
}

#[test]
fn sanction_and_unsanction_round_trip() {
    let mut c = ComplianceContract::new();
    c.init(addr(100)).unwrap();
    c.sanction(addr(1)).unwrap();
    assert!(c.is_sanctioned(addr(1)));
    assert!(!c.is_sanctioned(addr(2)));
    assert!(!c.is_flagged(addr(1)));
    c.unsanction(addr(1)).unwrap();
    assert!(!c.is_sanctioned(addr(1)));
    // Lifting a sanction that does not exist is accepted.
    assert_eq!(c.unsanction(addr(3)), Ok(()));
}

#[test]
fn flags_are_permanent() {
    let mut c = ComplianceContract::new();
    c.init(addr(100)).unwrap();
    c.flag_address(addr(5)).unwrap();
    c.sanction(addr(5)).unwrap();
    c.unsanction(addr(5)).unwrap();
    c.flag_address(addr(6)).unwrap();
    assert!(c.is_flagged(addr(5)));
    assert!(c.is_flagged(addr(6)));
    assert!(!c.is_sanctioned(addr(5)));
}

#[test]
fn kyc_requires_initialization() {
    let mut k = ZKKYCContract::new();
    assert_eq!(k.verify_user(addr(1)), Err(KycError::NotInitialized));
    assert_eq!(k.revoke_user(addr(1)), Err(KycError::NotInitialized));
    assert_eq!(k.get_verifier(), Err(KycError::NotInitialized));
    assert!(!k.is_verified(addr(1)));
}

#[test]
fn kyc_verify_and_revoke() {
    let mut k = ZKKYCContract::new();
    assert_eq!(k.init(addr(50)), Ok(()));
    assert_eq!(k.init(addr(51)), Err(KycError::AlreadyInitialized));
    k.verify_user(addr(1)).unwrap();
    k.verify_user(addr(2)).unwrap();
    assert!(k.is_verified(addr(1)));
    k.revoke_user(addr(1)).unwrap();
    assert!(!k.is_verified(addr(1)));
    assert!(k.is_verified(addr(2)));
}
