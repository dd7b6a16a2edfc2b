//! KYC attestations: a verifier marks users as verified or revokes them.
use crate::address::Address;
use crate::compliance::flag_of;
use crate::table::Table;
use vstd::prelude::*;

verus! {

#[derive(Clone, Copy, Debug, PartialEq, Eq, Structural)]
pub enum KycError {
    NotInitialized,
    AlreadyInitialized,
}

/// The stored state of the KYC registry.
pub struct ZKKYCContract {
    /// The verifier, once initialized.
    pub verifier: Option<Address>,
    /// KYC status entries: present (and `true`) for verified users.
    pub kyc_status: Table<Address, bool>,
}

/// The stored state of the KYC registry, as maps.
#[verifier::ext_equal]
pub ghost struct KycView {
    pub verifier: Option<Address>,
    pub kyc_status: Map<Address, bool>,
}

impl KycView {
    /// Result of a privileged call: it fails before initialization.
    pub open spec fn privileged_result(self) -> Result<(), KycError> {
        match self.verifier {
            Some(v) => Ok(()),
            None => Err(KycError::NotInitialized),
        }
    }

    /// The state after `init(verifier)`, with its result.
    pub open spec fn init_spec(self, verifier: Address) -> (Self, Result<(), KycError>) {
        if self.verifier is Some {
            (self, Err(KycError::AlreadyInitialized))
        } else {
            (KycView { verifier: Some(verifier), ..self }, Ok(()))
        }
    }

    /// The state after `verify_user(user)`, with its result.
    pub open spec fn verify_spec(self, user: Address) -> (Self, Result<(), KycError>) {
        match self.privileged_result() {
            Err(e) => (self, Err(e)),
            Ok(()) => (KycView { kyc_status: self.kyc_status.insert(user, true), ..self }, Ok(())),
        }
    }

    /// The state after `revoke_user(user)`, with its result.
    pub open spec fn revoke_spec(self, user: Address) -> (Self, Result<(), KycError>) {
        match self.privileged_result() {
            Err(e) => (self, Err(e)),
            Ok(()) => (KycView { kyc_status: self.kyc_status.remove(user), ..self }, Ok(())),
        }
    }
}

impl ZKKYCContract {
    pub open spec fn view(&self) -> KycView {
        KycView { verifier: self.verifier, kyc_status: self.kyc_status@ }
    }

    /// A registry with empty storage.
    pub fn new() -> (c: Self)
        ensures
            c@ == (KycView { verifier: None, kyc_status: Map::empty() }),
    {
        ZKKYCContract { verifier: None, kyc_status: Table::new() }
    }

    /// Sets the verifier; fails if one is already set.
    pub fn init(&mut self, verifier: Address) -> (r: Result<(), KycError>)
        ensures
            (final(self)@, r) == old(self)@.init_spec(verifier),
    {
        if self.verifier.is_some() {
            return Err(KycError::AlreadyInitialized);
        }
        self.verifier = Some(verifier);
        Ok(())
    }

    /// The verifier that must authorize a privileged call.
    pub fn get_verifier(&self) -> (r: Result<Address, KycError>)
        ensures
            r == match self.verifier {
                Some(v) => Ok::<Address, KycError>(v),
                None => Err(KycError::NotInitialized),
            },
    {
        match self.verifier {
            Some(v) => Ok(v),
            None => Err(KycError::NotInitialized),
        }
    }

    /// Marks `user` as verified (verifier only).
    pub fn verify_user(&mut self, user: Address) -> (r: Result<(), KycError>)
        ensures
            (final(self)@, r) == old(self)@.verify_spec(user),
    {
        self.get_verifier()?;
        self.kyc_status.insert(user, true);
        Ok(())
    }

    /// Revokes the verification of `user` (verifier only).
    pub fn revoke_user(&mut self, user: Address) -> (r: Result<(), KycError>)
        ensures
            (final(self)@, r) == old(self)@.revoke_spec(user),
    {
        self.get_verifier()?;
        self.kyc_status.remove(&user);
        Ok(())
    }

    /// Whether `user` is verified.
    pub fn is_verified(&self, user: Address) -> (r: bool)
        ensures
            r == flag_of(self@.kyc_status, user),
    {
        match self.kyc_status.get(&user) {
            Some(b) => *b,
            None => false,
        }
    }
}

/// A KYC status is read back: after a successful `verify_user` the user reads
/// as verified, after a successful `revoke_user` as not verified; other users
/// keep their status. Before initialization both calls fail and change nothing.
pub proof fn law_status_read_back(v: KycView, user: Address, other: Address)
    requires
        other != user,
    ensures
        v.verifier is Some ==> {
            &&& v.verify_spec(user).1 is Ok
            &&& flag_of(v.verify_spec(user).0.kyc_status, user)
            &&& !flag_of(v.revoke_spec(user).0.kyc_status, user)
        },
        flag_of(v.verify_spec(user).0.kyc_status, other) == flag_of(v.kyc_status, other),
        flag_of(v.revoke_spec(user).0.kyc_status, other) == flag_of(v.kyc_status, other),
        v.verifier is None ==> v.verify_spec(user) == (v, Err::<(), KycError>(
            KycError::NotInitialized,
        )) && v.revoke_spec(user) == (v, Err::<(), KycError>(KycError::NotInitialized)),
{
}

/// Revoking undoes verifying: verifying a user without a status and then
/// revoking gives back the registry as it was.
pub proof fn law_revoke_undoes_verify(v: KycView, user: Address)
    requires
        !v.kyc_status.contains_key(user),
    ensures
        v.verify_spec(user).0.revoke_spec(user).0 == v,
{
    if v.verifier is Some {
        assert(v.kyc_status.insert(user, true).remove(user) =~= v.kyc_status);
    }
}

/// The verifier is set once: `init` on an uninitialized registry succeeds and
/// makes the given address the verifier, leaving the statuses as they were;
/// on an initialized one it fails with `AlreadyInitialized` and changes nothing.
pub proof fn law_verifier_set_once(v: KycView, verifier: Address)
    ensures
        v.verifier is None ==> v.init_spec(verifier).1 is Ok && v.init_spec(verifier).0.verifier
            == Some(verifier) && v.init_spec(verifier).0.kyc_status == v.kyc_status,
        v.verifier is Some ==> v.init_spec(verifier) == (v, Err::<(), KycError>(
            KycError::AlreadyInitialized,
        )),
{
}

} // verus!
