use std::cell::Cell;

use dna_auth_resolver::issuer::register_dna;
use dna_auth_resolver::resolver::{ensure_authed, get_auth_data, make_auth_request, store_auth_response};
use dna_auth_resolver::store::{CapabilityStore, LogRecord};
use dna_auth_resolver::tag::get_tag_for_auth;
use dna_auth_resolver::types::{
    AgentPubKey, AuthError, AvailableCapabilities, AvailableCapability, CapAccess, CapClaim,
    CapSecret, DnaConfigSlice, DnaHash, DnaRegistration, GrantedFunction, ZomeCallCapGrant,
    ZomeCallResponse,
};

fn dna(text: &str) -> DnaHash {
    DnaHash { bytes: text.as_bytes().to_vec() }
}

fn agent(b: u8) -> AgentPubKey {
    AgentPubKey { bytes: vec![b; 4] }
}

fn secret(b: u8) -> CapSecret {
    CapSecret { bytes: vec![b; 8] }
}

fn function(zome: &str, name: &str) -> GrantedFunction {
    GrantedFunction { zome_name: zome.to_string(), fn_name: name.to_string() }
}

fn capability(extern_id: &str, zome: &str, name: &str) -> AvailableCapability {
    AvailableCapability { extern_id: extern_id.to_string(), allowed_method: function(zome, name) }
}

fn config(permissions: Vec<AvailableCapability>) -> DnaConfigSlice {
    DnaConfigSlice { remote_auth: AvailableCapabilities { permissions } }
}

fn read_config() -> DnaConfigSlice {
    config(vec![capability("read", "foo", "read")])
}

fn request(remote: &str, permission_id: &str, s: u8) -> DnaRegistration {
    DnaRegistration { remote_dna: dna(remote), permission_id: permission_id.to_string(), secret: secret(s) }
}

fn grant(access: CapAccess, functions: Vec<GrantedFunction>) -> ZomeCallCapGrant {
    ZomeCallCapGrant { tag: "t".to_string(), access, functions }
}

fn claim_count(store: &CapabilityStore) -> usize {
    let mut n = 0;
    for i in 0..store.len() {
        if matches!(store.record(i), LogRecord::Claim(_)) {
            n += 1;
        }
    }
    n
}

#[test]
fn tag_joins_permission_and_dna_text() {
    assert_eq!(get_tag_for_auth(&dna("dnaA"), "read"), "read:dnaA");
    assert_eq!(get_tag_for_auth(&dna(""), ""), ":");
}

#[test]
fn tag_replaces_invalid_utf8() {
    let d = DnaHash { bytes: vec![0x61, 0xff, 0x62] };
    assert_eq!(get_tag_for_auth(&d, "read"), "read:a\u{FFFD}b");
}

#[test]
fn tag_is_deterministic_and_distinguishes_inputs() {
    let a = get_tag_for_auth(&dna("domainA"), "read");
    assert_eq!(a, get_tag_for_auth(&dna("domainA"), "read"));
    assert_ne!(a, get_tag_for_auth(&dna("domainB"), "read"));
    assert_ne!(a, get_tag_for_auth(&dna("domainA"), "write"));
}

#[test]
fn register_grants_the_mapped_function_to_the_caller() {
    let g = register_dna(&read_config(), &agent(7), request("dnaA", "read", 3)).ok().unwrap();
    assert_eq!(g.tag, "read:dnaA");
    assert_eq!(g.functions.len(), 1);
    assert_eq!(g.functions[0].zome_name, "foo");
    assert_eq!(g.functions[0].fn_name, "read");
    match g.access {
        CapAccess::Assigned { secret: s, assignees } => {
            assert_eq!(s.bytes, vec![3; 8]);
            assert_eq!(assignees.len(), 1);
            assert_eq!(assignees[0].bytes, vec![7; 4]);
        }
        _ => panic!("expected an assigned grant"),
    }
}

#[test]
fn register_rejects_unknown_permission() {
    for caller in [1u8, 2, 200] {
        let r = register_dna(&read_config(), &agent(caller), request("dnaA", "write", 3));
        match r {
            Err(AuthError::UnknownPermission { permission_id }) => assert_eq!(permission_id, "write"),
            _ => panic!("expected UnknownPermission"),
        }
    }
}

#[test]
fn register_rejects_everything_on_empty_allow_list() {
    let r = register_dna(&config(vec![]), &agent(1), request("dnaA", "read", 3));
    assert!(matches!(r, Err(AuthError::UnknownPermission { .. })));
}

#[test]
fn register_uses_first_matching_entry() {
    let c = config(vec![
        capability("write", "foo", "write"),
        capability("read", "foo", "read_one"),
        capability("read", "foo", "read_two"),
    ]);
    let g = register_dna(&c, &agent(1), request("dnaA", "read", 3)).ok().unwrap();
    assert_eq!(g.functions[0].fn_name, "read_one");
}

#[test]
fn lookup_on_empty_store_is_missing() {
    let store = CapabilityStore::new();
    let r = get_auth_data(&store, &dna("remote"), "read");
    assert!(matches!(r, Err(AuthError::MissingAuthData)));
}

#[test]
fn ensure_authed_handshakes_once_and_caches() {
    let mut store = CapabilityStore::new();
    let calls = Cell::new(0u32);
    let remote_config = read_config();
    let remote = |req: DnaRegistration| {
        calls.set(calls.get() + 1);
        assert_eq!(req.remote_dna.bytes, b"local".to_vec());
        assert_eq!(req.permission_id, "read");
        match register_dna(&remote_config, &agent(9), req) {
            Ok(g) => Ok(ZomeCallResponse::Granted(g)),
            Err(e) => Err(e),
        }
    };
    let first = ensure_authed(&mut store, &dna("remote"), "read", &dna("local"), &agent(1), secret(5), remote)
        .ok()
        .unwrap();
    assert_eq!(calls.get(), 1);
    assert_eq!(first.claim.tag, "read:remote");
    assert_eq!(first.claim.grantor.bytes, vec![9; 4]);
    assert_eq!(first.claim.secret.bytes, vec![5; 8]);
    assert_eq!(first.method.zome_name, "foo");
    assert_eq!(first.method.fn_name, "read");
    let len_after_first = store.len();
    assert_eq!(len_after_first, 3);

    let second_remote = |_req: DnaRegistration| {
        calls.set(calls.get() + 1);
        Err(AuthError::NetworkError { message: "unreachable".to_string() })
    };
    let second =
        ensure_authed(&mut store, &dna("remote"), "read", &dna("local"), &agent(1), secret(6), second_remote)
            .ok()
            .unwrap();
    assert_eq!(calls.get(), 1);
    assert_eq!(store.len(), len_after_first);
    assert_eq!(second.claim.tag, first.claim.tag);
    assert_eq!(second.claim.secret.bytes, first.claim.secret.bytes);
    assert_eq!(second.claim.grantor.bytes, first.claim.grantor.bytes);
    assert_eq!(second.method.fn_name, first.method.fn_name);
}

#[test]
fn ensure_authed_passes_on_remote_rejection() {
    let mut store = CapabilityStore::new();
    let remote_config = read_config();
    let remote = |req: DnaRegistration| match register_dna(&remote_config, &agent(9), req) {
        Ok(g) => Ok(ZomeCallResponse::Granted(g)),
        Err(e) => Err(e),
    };
    let r = ensure_authed(&mut store, &dna("remote"), "write", &dna("local"), &agent(1), secret(5), remote);
    assert!(matches!(r, Err(AuthError::UnknownPermission { .. })));
    assert_eq!(store.len(), 0);
}

#[test]
fn unrestricted_grant_is_not_cached() {
    let mut store = CapabilityStore::new();
    let calls = Cell::new(0u32);
    for _ in 0..2 {
        let remote = |_req: DnaRegistration| {
            calls.set(calls.get() + 1);
            Ok(ZomeCallResponse::Granted(grant(CapAccess::Unrestricted, vec![function("foo", "read")])))
        };
        let r = ensure_authed(&mut store, &dna("remote"), "read", &dna("local"), &agent(1), secret(5), remote);
        assert!(matches!(r, Err(AuthError::ClaimPersistFailed)));
        assert_eq!(claim_count(&store), 0);
    }
    assert_eq!(calls.get(), 2);
}

#[test]
fn retry_succeeds_after_interrupted_handshake() {
    let mut store = CapabilityStore::new();
    // A claim was written, but the capability and link were not.
    store.put_claim(CapClaim {
        tag: get_tag_for_auth(&dna("remote"), "read"),
        grantor: agent(9),
        secret: secret(1),
    });
    assert!(matches!(get_auth_data(&store, &dna("remote"), "read"), Err(AuthError::MissingAuthData)));
    let remote_config = read_config();
    let remote = |req: DnaRegistration| match register_dna(&remote_config, &agent(9), req) {
        Ok(g) => Ok(ZomeCallResponse::Granted(g)),
        Err(e) => Err(e),
    };
    let a = ensure_authed(&mut store, &dna("remote"), "read", &dna("local"), &agent(1), secret(2), remote)
        .ok()
        .unwrap();
    assert_eq!(a.claim.secret.bytes, vec![2; 8]);
    assert_eq!(a.method.fn_name, "read");
}

#[test]
fn transferable_grant_names_local_agent() {
    let mut store = CapabilityStore::new();
    let answer = Ok(ZomeCallResponse::Granted(grant(
        CapAccess::Transferable { secret: secret(4) },
        vec![function("foo", "read"), function("foo", "other")],
    )));
    assert!(store_auth_response(&mut store, &dna("remote"), "read", &agent(1), answer).is_ok());
    let a = get_auth_data(&store, &dna("remote"), "read").ok().unwrap();
    assert_eq!(a.claim.grantor.bytes, vec![1; 4]);
    assert_eq!(a.claim.secret.bytes, vec![4; 8]);
    assert_eq!(a.method.fn_name, "read");
}

#[test]
fn grant_without_functions_fails_after_claim() {
    let mut store = CapabilityStore::new();
    let answer = Ok(ZomeCallResponse::Granted(grant(
        CapAccess::Assigned { secret: secret(4), assignees: vec![agent(9)] },
        vec![],
    )));
    let r = store_auth_response(&mut store, &dna("remote"), "read", &agent(1), answer);
    assert!(matches!(r, Err(AuthError::NoMethodsGranted)));
    assert_eq!(store.len(), 1);
    assert_eq!(claim_count(&store), 1);
}

#[test]
fn assigned_grant_without_assignees_records_nothing() {
    let mut store = CapabilityStore::new();
    let answer = Ok(ZomeCallResponse::Granted(grant(
        CapAccess::Assigned { secret: secret(4), assignees: vec![] },
        vec![function("foo", "read")],
    )));
    let r = store_auth_response(&mut store, &dna("remote"), "read", &agent(1), answer);
    assert!(matches!(r, Err(AuthError::ClaimPersistFailed)));
    assert_eq!(store.len(), 0);
}

#[test]
fn transport_failures_are_passed_on() {
    let mut store = CapabilityStore::new();
    let r = store_auth_response(&mut store, &dna("r"), "read", &agent(1), Ok(ZomeCallResponse::Unauthorized));
    assert!(matches!(r, Err(AuthError::Unauthorized)));
    let r = store_auth_response(
        &mut store,
        &dna("r"),
        "read",
        &agent(1),
        Ok(ZomeCallResponse::NetworkError("down".to_string())),
    );
    match r {
        Err(AuthError::NetworkError { message }) => assert_eq!(message, "down"),
        _ => panic!("expected NetworkError"),
    }
    let r = store_auth_response(
        &mut store,
        &dna("r"),
        "read",
        &agent(1),
        Ok(ZomeCallResponse::CountersigningSession("busy".to_string())),
    );
    match r {
        Err(AuthError::SessionConflict { message }) => assert_eq!(message, "busy"),
        _ => panic!("expected SessionConflict"),
    }
    assert_eq!(store.len(), 0);
}

#[test]
fn make_auth_request_sends_local_dna_and_records_link() {
    let mut store = CapabilityStore::new();
    let remote_config = read_config();
    let remote = |req: DnaRegistration| {
        assert_eq!(req.remote_dna.bytes, b"local".to_vec());
        assert_eq!(req.secret.bytes, vec![8; 8]);
        match register_dna(&remote_config, &agent(9), req) {
            Ok(g) => Ok(ZomeCallResponse::Granted(g)),
            Err(e) => Err(e),
        }
    };
    let r = make_auth_request(&mut store, &dna("remote"), "read", &dna("local"), &agent(1), secret(8), remote);
    assert!(r.is_ok());
    assert_eq!(store.len(), 3);
    assert!(matches!(store.record(0), LogRecord::Claim(_)));
    assert!(matches!(store.record(1), LogRecord::Capability(_)));
    assert!(matches!(store.record(2), LogRecord::Link { base: 0, target: 1 }));
}

#[test]
fn new_registration_supersedes_earlier_claim() {
    let mut store = CapabilityStore::new();
    for s in [1u8, 2] {
        let answer = Ok(ZomeCallResponse::Granted(grant(
            CapAccess::Assigned { secret: secret(s), assignees: vec![agent(9)] },
            vec![function("foo", "read")],
        )));
        assert!(store_auth_response(&mut store, &dna("remote"), "read", &agent(1), answer).is_ok());
    }
    // First claim, capability, link; then tombstones for the claim and link; then the new three.
    assert_eq!(store.len(), 8);
    assert!(matches!(store.record(3), LogRecord::Tombstone { target: 0 }));
    assert!(matches!(store.record(4), LogRecord::Tombstone { target: 2 }));
    assert!(matches!(store.record(7), LogRecord::Link { base: 5, target: 6 }));
    assert!(store.is_deleted(0));
    assert!(store.is_deleted(2));
    assert!(!store.is_deleted(5));
    assert!(!store.is_deleted(7));
    let live_claims = (0..store.len())
        .filter(|&i| matches!(store.record(i), LogRecord::Claim(_)) && !store.is_deleted(i))
        .count();
    assert_eq!(live_claims, 1);
    let a = get_auth_data(&store, &dna("remote"), "read").ok().unwrap();
    assert_eq!(a.claim.secret.bytes, vec![2; 8]);
}

#[test]
fn supersede_leaves_other_tags_alone() {
    let mut store = CapabilityStore::new();
    for permission in ["read", "write"] {
        let answer = Ok(ZomeCallResponse::Granted(grant(
            CapAccess::Assigned { secret: secret(1), assignees: vec![agent(9)] },
            vec![function("foo", permission)],
        )));
        assert!(store_auth_response(&mut store, &dna("remote"), permission, &agent(1), answer).is_ok());
    }
    assert_eq!(store.len(), 6);
    assert!(get_auth_data(&store, &dna("remote"), "read").is_ok());
    assert!(get_auth_data(&store, &dna("remote"), "write").is_ok());
}

#[test]
fn deleted_claim_is_not_found() {
    let mut store = CapabilityStore::new();
    let answer = Ok(ZomeCallResponse::Granted(grant(
        CapAccess::Assigned { secret: secret(1), assignees: vec![agent(9)] },
        vec![function("foo", "read")],
    )));
    assert!(store_auth_response(&mut store, &dna("remote"), "read", &agent(1), answer).is_ok());
    store.supersede(&get_tag_for_auth(&dna("remote"), "read"));
    assert_eq!(store.len(), 5);
    assert!(matches!(get_auth_data(&store, &dna("remote"), "read"), Err(AuthError::MissingAuthData)));
}

#[test]
fn claims_for_other_tags_are_not_found() {
    let mut store = CapabilityStore::new();
    let answer = Ok(ZomeCallResponse::Granted(grant(
        CapAccess::Assigned { secret: secret(1), assignees: vec![agent(9)] },
        vec![function("foo", "read")],
    )));
    assert!(store_auth_response(&mut store, &dna("remote"), "read", &agent(1), answer).is_ok());
    assert!(get_auth_data(&store, &dna("remote"), "write").is_err());
    assert!(get_auth_data(&store, &dna("other"), "read").is_err());
}

#[test]
fn join_tag_puts_colon_between_parts() {
    assert_eq!(dna_auth_resolver::tag::join_tag("read", "abc"), "read:abc");
    assert_eq!(dna_auth_resolver::tag::join_tag("", ""), ":");
    assert_eq!(dna_auth_resolver::tag::join_tag("a:b", "\u{FFFD}"), "a:b:\u{FFFD}");
}
