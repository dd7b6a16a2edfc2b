//! Compliance screening: a compliance officer keeps sanctions and flags on addresses.
use crate::address::Address;
use crate::table::Table;
use vstd::prelude::*;

verus! {

#[derive(Clone, Copy, Debug, PartialEq, Eq, Structural)]
pub enum ComplianceError {
    NotInitialized,
    AlreadyInitialized,
}

/// The stored state of the compliance registry.
pub struct ComplianceContract {
    /// The compliance officer, once initialized.
    pub officer: Option<Address>,
    /// Sanction entries: present (and `true`) for sanctioned addresses.
    pub sanctioned: Table<Address, bool>,
    /// Flag entries: present (and `true`) for flagged addresses.
    pub flagged: Table<Address, bool>,
}

/// Reads a boolean entry, treating a missing one as `false`.
pub open spec fn flag_of(m: Map<Address, bool>, a: Address) -> bool {
    m.contains_key(a) && m[a]
}

/// The stored state of the compliance registry, as maps.
#[verifier::ext_equal]
pub ghost struct ComplianceView {
    pub officer: Option<Address>,
    pub sanctioned: Map<Address, bool>,
    pub flagged: Map<Address, bool>,
}

impl ComplianceView {
    /// Result of a privileged call: it fails before initialization.
    pub open spec fn privileged_result(self) -> Result<(), ComplianceError> {
        match self.officer {
            Some(o) => Ok(()),
            None => Err(ComplianceError::NotInitialized),
        }
    }

    /// The state after `init(officer)`, with its result.
    pub open spec fn init_spec(self, officer: Address) -> (Self, Result<(), ComplianceError>) {
        if self.officer is Some {
            (self, Err(ComplianceError::AlreadyInitialized))
        } else {
            (ComplianceView { officer: Some(officer), ..self }, Ok(()))
        }
    }

    /// The state after `sanction(target)`, with its result.
    pub open spec fn sanction_spec(self, target: Address) -> (Self, Result<(), ComplianceError>) {
        match self.privileged_result() {
            Err(e) => (self, Err(e)),
            Ok(()) => (
                ComplianceView { sanctioned: self.sanctioned.insert(target, true), ..self },
                Ok(()),
            ),
        }
    }

    /// The state after `unsanction(target)`, with its result.
    pub open spec fn unsanction_spec(self, target: Address) -> (Self, Result<(), ComplianceError>) {
        match self.privileged_result() {
            Err(e) => (self, Err(e)),
            Ok(()) => (ComplianceView { sanctioned: self.sanctioned.remove(target), ..self }, Ok(())),
        }
    }

    /// The state after `flag_address(target)`, with its result.
    pub open spec fn flag_spec(self, target: Address) -> (Self, Result<(), ComplianceError>) {
        match self.privileged_result() {
            Err(e) => (self, Err(e)),
            Ok(()) => (ComplianceView { flagged: self.flagged.insert(target, true), ..self }, Ok(())),
        }
    }
}

impl ComplianceContract {
    pub open spec fn view(&self) -> ComplianceView {
        ComplianceView {
            officer: self.officer,
            sanctioned: self.sanctioned@,
            flagged: self.flagged@,
        }
    }

    /// Result of looking up the officer before a privileged call.
    pub open spec fn officer_check(self) -> Result<Address, ComplianceError> {
        match self.officer {
            Some(o) => Ok(o),
            None => Err(ComplianceError::NotInitialized),
        }
    }

    /// A registry with empty storage.
    pub fn new() -> (c: Self)
        ensures
            c@ == (ComplianceView {
                officer: None,
                sanctioned: Map::empty(),
                flagged: Map::empty(),
            }),
    {
        ComplianceContract { officer: None, sanctioned: Table::new(), flagged: Table::new() }
    }

    /// Sets the compliance officer; fails if one is already set.
    pub fn init(&mut self, officer: Address) -> (r: Result<(), ComplianceError>)
        ensures
            (final(self)@, r) == old(self)@.init_spec(officer),
    {
        if self.officer.is_some() {
            return Err(ComplianceError::AlreadyInitialized);
        }
        self.officer = Some(officer);
        Ok(())
    }

    /// The officer that must authorize a privileged call.
    pub fn get_officer(&self) -> (r: Result<Address, ComplianceError>)
        ensures
            r == self.officer_check(),
    {
        match self.officer {
            Some(o) => Ok(o),
            None => Err(ComplianceError::NotInitialized),
        }
    }

    /// Marks `target` as sanctioned (officer only).
    pub fn sanction(&mut self, target: Address) -> (r: Result<(), ComplianceError>)
        ensures
            (final(self)@, r) == old(self)@.sanction_spec(target),
    {
        self.get_officer()?;
        self.sanctioned.insert(target, true);
        Ok(())
    }

    /// Lifts the sanction on `target` (officer only).
    pub fn unsanction(&mut self, target: Address) -> (r: Result<(), ComplianceError>)
        ensures
            (final(self)@, r) == old(self)@.unsanction_spec(target),
    {
        self.get_officer()?;
        self.sanctioned.remove(&target);
        Ok(())
    }

    /// Whether `target` is sanctioned.
    pub fn is_sanctioned(&self, target: Address) -> (r: bool)
        ensures
            r == flag_of(self@.sanctioned, target),
    {
        match self.sanctioned.get(&target) {
            Some(b) => *b,
            None => false,
        }
    }

    /// Flags `target` (officer only). There is no way to remove a flag.
    pub fn flag_address(&mut self, target: Address) -> (r: Result<(), ComplianceError>)
        ensures
            (final(self)@, r) == old(self)@.flag_spec(target),
    {
        self.get_officer()?;
        self.flagged.insert(target, true);
        Ok(())
    }

    /// Whether `target` is flagged.
    pub fn is_flagged(&self, target: Address) -> (r: bool)
        ensures
            r == flag_of(self@.flagged, target),
    {
        match self.flagged.get(&target) {
            Some(b) => *b,
            None => false,
        }
    }
}

/// A registry entry is read back: after a successful `sanction` the target
/// reads as sanctioned, after a successful `unsanction` as not sanctioned,
/// after a successful `flag_address` as flagged; other addresses keep their
/// status. Before initialization each of these calls fails and changes nothing.
pub proof fn law_entry_read_back(v: ComplianceView, target: Address, other: Address)
    requires
        other != target,
    ensures
        v.officer is Some ==> {
            &&& v.sanction_spec(target).1 is Ok
            &&& flag_of(v.sanction_spec(target).0.sanctioned, target)
            &&& !flag_of(v.unsanction_spec(target).0.sanctioned, target)
            &&& flag_of(v.flag_spec(target).0.flagged, target)
        },
        flag_of(v.sanction_spec(target).0.sanctioned, other) == flag_of(v.sanctioned, other),
        flag_of(v.unsanction_spec(target).0.sanctioned, other) == flag_of(v.sanctioned, other),
        flag_of(v.flag_spec(target).0.flagged, other) == flag_of(v.flagged, other),
        v.officer is None ==> v.sanction_spec(target) == (v, Err::<(), ComplianceError>(
            ComplianceError::NotInitialized,
        )) && v.unsanction_spec(target) == (v, Err::<(), ComplianceError>(
            ComplianceError::NotInitialized,
        )) && v.flag_spec(target) == (v, Err::<(), ComplianceError>(
            ComplianceError::NotInitialized,
        )),
{
}

/// Lifting a sanction undoes it: sanctioning an address that was not
/// sanctioned and then lifting the sanction gives back the registry as it was.
pub proof fn law_unsanction_undoes_sanction(v: ComplianceView, target: Address)
    requires
        !v.sanctioned.contains_key(target),
    ensures
        v.sanction_spec(target).0.unsanction_spec(target).0 == v,
{
    if v.officer is Some {
        assert(v.sanctioned.insert(target, true).remove(target) =~= v.sanctioned);
    }
}

/// Flags are permanent: an address once flagged stays flagged whatever is
/// done next (initialization, a sanction or its lifting, another flag).
pub proof fn law_flags_are_permanent(
    v: ComplianceView,
    target: Address,
    other: Address,
    officer: Address,
)
    requires
        flag_of(v.flagged, target),
    ensures
        flag_of(v.init_spec(officer).0.flagged, target),
        flag_of(v.sanction_spec(other).0.flagged, target),
        flag_of(v.unsanction_spec(other).0.flagged, target),
        flag_of(v.flag_spec(other).0.flagged, target),
{
}

/// The officer is set once: `init` on an uninitialized registry succeeds and
/// makes the given address the officer, leaving the entries as they were; on
/// an initialized one it fails with `AlreadyInitialized` and changes nothing.
pub proof fn law_officer_set_once(v: ComplianceView, officer: Address)
    ensures
        v.officer is None ==> v.init_spec(officer).1 is Ok && v.init_spec(officer).0.officer == Some(
            officer,
        ) && v.init_spec(officer).0.sanctioned == v.sanctioned && v.init_spec(officer).0.flagged
            == v.flagged,
        v.officer is Some ==> v.init_spec(officer) == (v, Err::<(), ComplianceError>(
            ComplianceError::AlreadyInitialized,
        )),
{
}

} // verus!
