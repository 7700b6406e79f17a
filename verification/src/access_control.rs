//! The consent registry: patients let doctors see records for a limited time.
//!
//! A grant is kept under the pair of the patient who gave it and the doctor who
//! received it. Only the caller of an entry point can stand as the patient of a
//! grant that the call writes or takes away.

use vstd::prelude::*;
use crate::chain::{Address, CallContext, Timestamp};
use crate::store::{Store, StoreKey};

verus! {

/// A patient's standing permission for one doctor.
#[derive(Clone, Debug, PartialEq, Eq)]
pub struct AccessGrant {
    /// The grant counts only before this time.
    pub expiry: Timestamp,
    /// Hash by which the shared records are verified.
    pub record_hash: String,
}

/// An [`AccessGrant`] as a mathematical value.
pub struct AccessGrantView {
    pub expiry: Timestamp,
    pub record_hash: Seq<char>,
}

impl View for AccessGrant {
    type V = AccessGrantView;

    open spec fn view(&self) -> AccessGrantView {
        AccessGrantView { expiry: self.expiry, record_hash: self.record_hash@ }
    }
}

/// What a registry is created with.
#[derive(Clone, Copy, Debug, PartialEq, Eq)]
pub struct InitParameter {
    /// The administrator; the creating caller where it is left out.
    pub admin: Option<Address>,
}

/// The request to give a doctor access.
#[derive(Clone, Debug, PartialEq, Eq)]
pub struct GrantParams {
    pub doctor: Address,
    pub record_hash: String,
    pub expiry_time: Timestamp,
}

/// The request to take a doctor's access away.
#[derive(Clone, Copy, Debug, PartialEq, Eq)]
pub struct RevokeParams {
    pub doctor: Address,
}

/// The question whether a doctor may see a patient's records.
#[derive(Clone, Copy, Debug, PartialEq, Eq)]
pub struct CheckParams {
    pub patient: Address,
    pub doctor: Address,
}

/// Why a call on the registry was rejected.
#[derive(Clone, Copy, Debug, PartialEq, Eq, Structural)]
pub enum ContractError {
    /// Kept for checks on the caller; no entry point gives it.
    Unauthorized,
    /// The caller has no grant for the doctor named.
    GrantNotFound,
    /// The request could not be read.
    ParseError,
}

/// The grants of a registry: from patient and doctor to the grant between them.
pub type Grants = Map<(Address, Address), AccessGrantView>;

impl StoreKey for (Address, Address) {
    fn same_key(&self, other: &Self) -> (r: bool) {
        self.0.same(&other.0) && self.1.same(&other.1)
    }
}

/// The grants once `patient` has given `doctor` the grant `grant`: whatever stood
/// under that pair is gone.
pub open spec fn granted(
    grants: Grants,
    patient: Address,
    doctor: Address,
    grant: AccessGrantView,
) -> Grants {
    grants.insert((patient, doctor), grant)
}

/// The grants once `patient` has taken back what `doctor` had.
pub open spec fn revoked(grants: Grants, patient: Address, doctor: Address) -> Grants {
    grants.remove((patient, doctor))
}

/// Whether `doctor` may see the records of `patient` at the time `now`: a grant
/// stands under the pair and expires strictly later.
pub open spec fn access_at(
    grants: Grants,
    patient: Address,
    doctor: Address,
    now: Timestamp,
) -> bool {
    grants.contains_key((patient, doctor)) && grants[(patient, doctor)].expiry.millis
        > now.millis
}

/// The state of a registry.
pub struct State {
    admin: Address,
    grants: Store<(Address, Address), AccessGrant>,
}

/// A registry's [`State`] as a mathematical value.
pub struct StateView {
    pub admin: Address,
    pub grants: Grants,
}

impl View for State {
    type V = StateView;

    closed spec fn view(&self) -> StateView {
        StateView {
            admin: self.admin,
            grants: self.grants@.map_values(|g: AccessGrant| g@),
        }
    }
}

/// Keeping a grant in the store is giving it, seen through the view.
proof fn lemma_view_of_insert(
    stored: Map<(Address, Address), AccessGrant>,
    key: (Address, Address),
    grant: AccessGrant,
)
    ensures
        stored.insert(key, grant).map_values(|g: AccessGrant| g@) == granted(
            stored.map_values(|g: AccessGrant| g@),
            key.0,
            key.1,
            grant@,
        ),
{
    assert(stored.insert(key, grant).map_values(|g: AccessGrant| g@) =~= stored.map_values(
        |g: AccessGrant| g@,
    ).insert(key, grant@));
}

/// Taking a grant out of the store is revoking it, seen through the view.
proof fn lemma_view_of_remove(
    stored: Map<(Address, Address), AccessGrant>,
    key: (Address, Address),
)
    ensures
        stored.remove(key).map_values(|g: AccessGrant| g@) == revoked(
            stored.map_values(|g: AccessGrant| g@),
            key.0,
            key.1,
        ),
{
    assert(stored.remove(key).map_values(|g: AccessGrant| g@) =~= stored.map_values(
        |g: AccessGrant| g@,
    ).remove(key));
}

impl State {
    /// A registry with the given administrator and no grants.
    pub fn new(admin: Address) -> (state: State)
        ensures
            state@.admin == admin,
            state@.grants == Grants::empty(),
    {
        let state = State { admin, grants: Store::new() };
        proof {
            assert(state@.grants =~= Grants::empty());
        }
        state
    }

    /// The administrator that the registry was created with.
    pub fn admin(&self) -> (admin: Address)
        ensures
            admin == self@.admin,
    {
        self.admin
    }

    /// The grants as they are kept, for reading.
    pub fn grants(&self) -> (grants: &Store<(Address, Address), AccessGrant>)
        ensures
            grants@.map_values(|g: AccessGrant| g@) == self@.grants,
    {
        &self.grants
    }

    /// Whether a grant stands between `patient` and `doctor` that expires after the
    /// epoch itself. It asks nothing about the present time.
    pub fn has_access(&self, patient: &Address, doctor: &Address) -> (r: bool)
        ensures
            r == access_at(self@.grants, *patient, *doctor, Timestamp { millis: 0 }),
    {
        match self.grants.get(&(*patient, *doctor)) {
            Some(grant) => grant.expiry.later_than(Timestamp::from_timestamp_millis(0)),
            None => false,
        }
    }
}

/// Creates a registry. Its administrator is the one named in `params`, or the
/// creating caller where none is named.
pub fn contract_init(ctx: &CallContext, params: InitParameter) -> (state: State)
    ensures
        state@.admin == match params.admin {
            Some(admin) => admin,
            None => ctx.caller,
        },
        state@.grants == Grants::empty(),
{
    let admin = match params.admin {
        Some(admin) => admin,
        None => ctx.caller,
    };
    State::new(admin)
}

/// The caller, as patient, gives the doctor named in `params` access until the
/// expiry named there. An earlier grant for the same doctor is overwritten; an
/// expiry in the past is accepted. `params` is `None` where the request could not
/// be read: the call is then rejected and the registry stays as it was.
pub fn grant_access(ctx: &CallContext, state: &mut State, params: Option<GrantParams>) -> (r:
    Result<(), ContractError>)
    ensures
        final(state)@.admin == old(state)@.admin,
        match params {
            Some(p) => r == Ok::<(), ContractError>(()) && final(state)@.grants == granted(
                old(state)@.grants,
                ctx.caller,
                p.doctor,
                AccessGrantView { expiry: p.expiry_time, record_hash: p.record_hash@ },
            ),
            None => r == Err::<(), ContractError>(ContractError::ParseError) && final(state)@
                == old(state)@,
        },
{
    let params = match params {
        Some(params) => params,
        None => {
            return Err(ContractError::ParseError);
        },
    };
    let grant = AccessGrant { expiry: params.expiry_time, record_hash: params.record_hash };
    proof {
        lemma_view_of_insert(state.grants@, (ctx.caller, params.doctor), grant);
    }
    state.grants.insert((ctx.caller, params.doctor), grant);
    Ok(())
}

/// The caller, as patient, takes back the access of the doctor named in `params`.
/// Where the caller has no grant for that doctor the call is rejected with
/// `GrantNotFound`; where the request could not be read, with `ParseError`. A
/// rejected call leaves the registry as it was.
pub fn revoke_access(ctx: &CallContext, state: &mut State, params: Option<RevokeParams>) -> (r:
    Result<(), ContractError>)
    ensures
        final(state)@.admin == old(state)@.admin,
        match params {
            Some(p) => if old(state)@.grants.contains_key((ctx.caller, p.doctor)) {
                r == Ok::<(), ContractError>(()) && final(state)@.grants == revoked(
                    old(state)@.grants,
                    ctx.caller,
                    p.doctor,
                )
            } else {
                r == Err::<(), ContractError>(ContractError::GrantNotFound) && final(state)@
                    == old(state)@
            },
            None => r == Err::<(), ContractError>(ContractError::ParseError) && final(state)@
                == old(state)@,
        },
{
    let params = match params {
        Some(params) => params,
        None => {
            return Err(ContractError::ParseError);
        },
    };
    proof {
        lemma_view_of_remove(state.grants@, (ctx.caller, params.doctor));
    }
    match state.grants.remove(&(ctx.caller, params.doctor)) {
        Some(_) => Ok(()),
        None => Err(ContractError::GrantNotFound),
    }
}

/// Whether the doctor named in `params` may see the records of the patient named
/// there at the time of the call. A grant that has expired and one that was never
/// given both answer `false`. The call is rejected only where the request could
/// not be read.
pub fn check_access(ctx: &CallContext, state: &State, params: Option<CheckParams>) -> (r: Result<
    bool,
    ContractError,
>)
    ensures
        match params {
            Some(p) => r == Ok::<bool, ContractError>(
                access_at(state@.grants, p.patient, p.doctor, ctx.now),
            ),
            None => r == Err::<bool, ContractError>(ContractError::ParseError),
        },
{
    let params = match params {
        Some(params) => params,
        None => {
            return Err(ContractError::ParseError);
        },
    };
    match state.grants.get(&(params.patient, params.doctor)) {
        Some(grant) => Ok(grant.expiry.later_than(ctx.now)),
        None => Ok(false),
    }
}

/// One accepted or rejected call that may change the grants.
pub enum RegistryCall {
    /// `patient` gives `doctor` the grant `grant`.
    Grant { patient: Address, doctor: Address, grant: AccessGrantView },
    /// `patient` takes back what `doctor` had.
    Revoke { patient: Address, doctor: Address },
}

/// The grants after one call. A revocation of a grant that is not there is
/// rejected and changes nothing.
pub open spec fn after_call(grants: Grants, call: RegistryCall) -> Grants {
    match call {
        RegistryCall::Grant { patient, doctor, grant } => granted(grants, patient, doctor, grant),
        RegistryCall::Revoke { patient, doctor } => if grants.contains_key((patient, doctor)) {
            revoked(grants, patient, doctor)
        } else {
            grants
        },
    }
}

/// The grants after the calls of `calls`, made in order on `grants`.
pub open spec fn after_calls(grants: Grants, calls: Seq<RegistryCall>) -> Grants
    decreases calls.len(),
{
    if calls.len() == 0 {
        grants
    } else {
        after_call(after_calls(grants, calls.drop_last()), calls.last())
    }
}

/// The grant between `patient` and `doctor` that survives `calls`: that of the last
/// call in `calls` on this pair if that call gave one, none if it took one back,
/// and what `grants` held where no call was on this pair.
pub open spec fn surviving_grant(
    grants: Grants,
    calls: Seq<RegistryCall>,
    patient: Address,
    doctor: Address,
) -> Option<AccessGrantView>
    decreases calls.len(),
{
    if calls.len() == 0 {
        grants.get((patient, doctor))
    } else {
        match calls.last() {
            RegistryCall::Grant { patient: p, doctor: d, grant } => if p == patient && d
                == doctor {
                Some(grant)
            } else {
                surviving_grant(grants, calls.drop_last(), patient, doctor)
            },
            RegistryCall::Revoke { patient: p, doctor: d } => if p == patient && d == doctor {
                None
            } else {
                surviving_grant(grants, calls.drop_last(), patient, doctor)
            },
        }
    }
}

/// After any calls, what the registry holds for a pair is the grant that survives
/// them, and a doctor has access exactly when that grant expires after now.
pub proof fn lemma_access_follows_surviving_grant(
    grants: Grants,
    calls: Seq<RegistryCall>,
    patient: Address,
    doctor: Address,
    now: Timestamp,
)
    ensures
        after_calls(grants, calls).get((patient, doctor)) == surviving_grant(
            grants,
            calls,
            patient,
            doctor,
        ),
        access_at(after_calls(grants, calls), patient, doctor, now) == match surviving_grant(
            grants,
            calls,
            patient,
            doctor,
        ) {
            Some(grant) => grant.expiry.millis > now.millis,
            None => false,
        },
    decreases calls.len(),
{
    if calls.len() > 0 {
        lemma_access_follows_surviving_grant(grants, calls.drop_last(), patient, doctor, now);
    }
}

/// Revoking a grant that is not there changes nothing.
pub proof fn lemma_revoke_absent_is_identity(grants: Grants, patient: Address, doctor: Address)
    requires
        !grants.contains_key((patient, doctor)),
    ensures
        revoked(grants, patient, doctor) == grants,
        after_call(grants, RegistryCall::Revoke { patient, doctor }) == grants,
{
    assert(revoked(grants, patient, doctor) =~= grants);
}

/// Two grants in a row for one pair leave one entry for it, the second grant; no
/// other pair gains or loses an entry.
pub proof fn lemma_second_grant_wins(
    grants: Grants,
    patient: Address,
    doctor: Address,
    first: AccessGrantView,
    second: AccessGrantView,
)
    ensures
        granted(granted(grants, patient, doctor, first), patient, doctor, second) == granted(
            grants,
            patient,
            doctor,
            second,
        ),
        granted(granted(grants, patient, doctor, first), patient, doctor, second)[(
            patient,
            doctor,
        )] == second,
        granted(granted(grants, patient, doctor, first), patient, doctor, second).dom()
            == grants.dom().insert((patient, doctor)),
{
    let twice = granted(granted(grants, patient, doctor, first), patient, doctor, second);
    assert(twice =~= granted(grants, patient, doctor, second));
    assert(twice.dom() =~= grants.dom().insert((patient, doctor)));
}

} // verus!
