use consent_ledger::access_control::{
    check_access, contract_init, grant_access, revoke_access, CheckParams, ContractError,
    GrantParams, InitParameter, RevokeParams, State,
};
use consent_ledger::chain::{AccountAddress, Address, CallContext, ContractAddress, Timestamp};

fn account(tag: u8) -> Address {
    Address::Account(AccountAddress([tag; 32]))
}

fn call(caller: Address, now: u64) -> CallContext {
    CallContext { caller, now: Timestamp { millis: now } }
}

fn grant(doctor: Address, hash: &str, expiry: u64) -> Option<GrantParams> {
    Some(GrantParams {
        doctor,
        record_hash: String::from(hash),
        expiry_time: Timestamp { millis: expiry },
    })
}

fn check(state: &State, patient: Address, doctor: Address, now: u64) -> Result<bool, ContractError> {
    check_access(&call(account(99), now), state, Some(CheckParams { patient, doctor }))
}

#[test]
fn registry_scenario_grant_check_revoke() {
    let patient = account(1);
    let doctor = account(2);
    let mut state = contract_init(&call(patient, 0), InitParameter { admin: None });
    assert_eq!(state.admin(), patient);
    assert_eq!(grant_access(&call(patient, 10), &mut state, grant(doctor, "h1", 100)), Ok(()));
    assert_eq!(check(&state, patient, doctor, 50), Ok(true));
    assert_eq!(check(&state, patient, doctor, 150), Ok(false));
    assert_eq!(
        revoke_access(&call(patient, 160), &mut state, Some(RevokeParams { doctor })),
        Ok(())
    );
    assert_eq!(
        revoke_access(&call(patient, 170), &mut state, Some(RevokeParams { doctor })),
        Err(ContractError::GrantNotFound)
    );
    assert_eq!(check(&state, patient, doctor, 50), Ok(false));
}

#[test]
fn init_keeps_named_admin() {
    let creator = account(1);
    let admin = Address::Contract(ContractAddress { index: 7, subindex: 3 });
    let state = contract_init(&call(creator, 0), InitParameter { admin: Some(admin) });
    assert_eq!(state.admin(), admin);
    let plain = State::new(creator);
    assert_eq!(plain.admin(), creator);
    assert_eq!(check(&plain, creator, admin, 0), Ok(false));
}

#[test]
fn access_ends_at_expiry_itself() {
    let p = account(1);
    let d = account(2);
    let mut state = State::new(p);
    assert_eq!(grant_access(&call(p, 0), &mut state, grant(d, "h", 100)), Ok(()));
    assert_eq!(check(&state, p, d, 99), Ok(true));
    assert_eq!(check(&state, p, d, 100), Ok(false));
    assert_eq!(check(&state, p, d, 101), Ok(false));
}

#[test]
fn grant_already_expired_is_accepted_and_inert() {
    let p = account(1);
    let d = account(2);
    let mut state = State::new(p);
    assert_eq!(grant_access(&call(p, 500), &mut state, grant(d, "old", 100)), Ok(()));
    assert_eq!(check(&state, p, d, 500), Ok(false));
    assert_eq!(
        revoke_access(&call(p, 500), &mut state, Some(RevokeParams { doctor: d })),
        Ok(())
    );
}

#[test]
fn second_grant_overwrites_first() {
    let p = account(1);
    let d = account(2);
    let mut state = State::new(p);
    assert_eq!(grant_access(&call(p, 0), &mut state, grant(d, "h1", 100)), Ok(()));
    assert_eq!(grant_access(&call(p, 0), &mut state, grant(d, "h2", 40)), Ok(()));
    assert_eq!(check(&state, p, d, 50), Ok(false));
    assert_eq!(check(&state, p, d, 39), Ok(true));
    assert_eq!(
        revoke_access(&call(p, 0), &mut state, Some(RevokeParams { doctor: d })),
        Ok(())
    );
    assert_eq!(check(&state, p, d, 39), Ok(false));
    assert_eq!(
        revoke_access(&call(p, 0), &mut state, Some(RevokeParams { doctor: d })),
        Err(ContractError::GrantNotFound)
    );
}

#[test]
fn grants_are_kept_per_pair() {
    let patient = account(1);
    let neighbour = account(3);
    let doctor = account(2);
    let clinic = Address::Contract(ContractAddress { index: 2, subindex: 0 });
    let mut state = State::new(patient);
    assert_eq!(grant_access(&call(patient, 0), &mut state, grant(doctor, "a", 100)), Ok(()));
    assert_eq!(grant_access(&call(patient, 0), &mut state, grant(clinic, "b", 200)), Ok(()));
    assert_eq!(grant_access(&call(neighbour, 0), &mut state, grant(doctor, "c", 300)), Ok(()));
    assert_eq!(check(&state, patient, doctor, 150), Ok(false));
    assert_eq!(check(&state, patient, clinic, 150), Ok(true));
    assert_eq!(check(&state, neighbour, doctor, 150), Ok(true));
    assert_eq!(check(&state, neighbour, clinic, 150), Ok(false));
    assert_eq!(check(&state, doctor, patient, 50), Ok(false));
    assert_eq!(
        revoke_access(&call(patient, 0), &mut state, Some(RevokeParams { doctor: clinic })),
        Ok(())
    );
    assert_eq!(check(&state, patient, doctor, 50), Ok(true));
    assert_eq!(check(&state, patient, clinic, 150), Ok(false));
    assert_eq!(check(&state, neighbour, doctor, 150), Ok(true));
}

#[test]
fn only_the_caller_revokes_their_own_grant() {
    let patient = account(1);
    let neighbour = account(3);
    let d = account(2);
    let mut state = State::new(patient);
    assert_eq!(grant_access(&call(patient, 0), &mut state, grant(d, "a", 100)), Ok(()));
    assert_eq!(
        revoke_access(&call(neighbour, 0), &mut state, Some(RevokeParams { doctor: d })),
        Err(ContractError::GrantNotFound)
    );
    assert_eq!(
        revoke_access(&call(d, 0), &mut state, Some(RevokeParams { doctor: patient })),
        Err(ContractError::GrantNotFound)
    );
    assert_eq!(check(&state, patient, d, 50), Ok(true));
}

#[test]
fn revoke_without_grant_changes_nothing() {
    let p = account(1);
    let d = account(2);
    let other = account(4);
    let mut state = State::new(p);
    assert_eq!(grant_access(&call(p, 0), &mut state, grant(d, "a", 100)), Ok(()));
    assert_eq!(
        revoke_access(&call(p, 0), &mut state, Some(RevokeParams { doctor: other })),
        Err(ContractError::GrantNotFound)
    );
    assert_eq!(check(&state, p, d, 50), Ok(true));
    assert_eq!(state.admin(), p);
}

#[test]
fn unreadable_requests_are_rejected_without_change() {
    let p = account(1);
    let d = account(2);
    let mut state = State::new(p);
    assert_eq!(grant_access(&call(p, 0), &mut state, None), Err(ContractError::ParseError));
    assert_eq!(check(&state, p, d, 0), Ok(false));
    assert_eq!(grant_access(&call(p, 0), &mut state, grant(d, "a", 100)), Ok(()));
    assert_eq!(revoke_access(&call(p, 0), &mut state, None), Err(ContractError::ParseError));
    assert_eq!(check(&state, p, d, 50), Ok(true));
    assert_eq!(check_access(&call(p, 50), &state, None), Err(ContractError::ParseError));
}

#[test]
fn has_access_ignores_the_present_time() {
    let p = account(1);
    let d = account(2);
    let e = account(5);
    let mut state = State::new(p);
    assert!(!state.has_access(&p, &d));
    assert_eq!(grant_access(&call(p, 1000), &mut state, grant(d, "a", 1)), Ok(()));
    assert_eq!(grant_access(&call(p, 1000), &mut state, grant(e, "b", 0)), Ok(()));
    assert!(state.has_access(&p, &d));
    assert!(!state.has_access(&p, &e));
    assert!(!state.has_access(&d, &p));
    assert_eq!(check(&state, p, d, 1000), Ok(false));
}

#[test]
fn addresses_differ_in_any_byte_or_kind() {
    let mut bytes = [0u8; 32];
    let a = AccountAddress(bytes);
    bytes[31] = 1;
    let b = AccountAddress(bytes);
    assert!(a.same(&a));
    assert!(!a.same(&b));
    assert!(Address::Account(a).same(&Address::Account(a)));
    assert!(!Address::Account(a).same(&Address::Account(b)));
    let c = ContractAddress { index: 0, subindex: 0 };
    assert!(!Address::Account(a).same(&Address::Contract(c)));
    assert!(c.same(&ContractAddress { index: 0, subindex: 0 }));
    assert!(!c.same(&ContractAddress { index: 0, subindex: 1 }));
    assert!(!c.same(&ContractAddress { index: 1, subindex: 0 }));
    let p = Address::Account(a);
    let q = Address::Account(b);
    let mut state = State::new(p);
    assert_eq!(grant_access(&call(p, 0), &mut state, grant(q, "a", 100)), Ok(()));
    assert_eq!(check(&state, p, q, 50), Ok(true));
    assert_eq!(check(&state, p, p, 50), Ok(false));
    assert_eq!(check(&state, q, q, 50), Ok(false));
}

#[test]
fn times_are_ordered_over_the_whole_range() {
    let p = account(1);
    let d = account(2);
    let mut state = State::new(p);
    assert_eq!(grant_access(&call(p, 0), &mut state, grant(d, "a", u64::MAX)), Ok(()));
    assert_eq!(check(&state, p, d, u64::MAX - 1), Ok(true));
    assert_eq!(check(&state, p, d, u64::MAX), Ok(false));
    assert_eq!(check(&state, p, d, 0), Ok(true));
}
