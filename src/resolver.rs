//! The requesting side: reads auth data from the local log, performs the
//! registration handshake with a remote DNA, and establishes auth on first use.
use crate::store::{
    first_link, first_link_upto, is_deleted, is_live_claim, is_live_link, latest_claim,
    latest_claim_upto, lemma_no_live_link_upto, lemma_supersede_log, log_wf, supersede_log,
    CapabilityStore, LogRecord, RecordModel,
};
use crate::tag::{get_tag_for_auth, tag_of};
use crate::types::{
    AccessModel, AgentPubKey, AuthError, AvailableCapability, CapAccess, CapClaim, CapSecret,
    CapabilityModel, ClaimModel, ConnectionModel, DNAConnectionAuth, DnaHash, DnaRegistration,
    ErrorModel, GrantModel, RegistrationModel, ResponseModel, ZomeCallResponse,
};
use vstd::prelude::*;
use vstd::string::StringExecFns;

verus! {

/// The auth data filed under `tag`: the newest live claim with that tag, and
/// the capability that the oldest live link from that claim points to.
pub open spec fn auth_lookup(log: Seq<RecordModel>, tag: Seq<char>) -> Option<ConnectionModel> {
    match latest_claim(log, tag) {
        None => None,
        Some(c) => match (log[c], first_link(log, c)) {
            (RecordModel::Claim(claim), Some(t)) => if 0 <= t < log.len() {
                match log[t] {
                    RecordModel::Capability(cap) => Some(
                        ConnectionModel { method: cap.allowed_method, claim },
                    ),
                    _ => None,
                }
            } else {
                None
            },
            _ => None,
        },
    }
}

pub open spec fn auth_result(r: Result<DNAConnectionAuth, AuthError>) -> Result<
    ConnectionModel,
    ErrorModel,
> {
    match r {
        Ok(a) => Ok(a@),
        Err(e) => Err(e@),
    }
}

pub open spec fn unit_result(r: Result<(), AuthError>) -> Result<(), ErrorModel> {
    match r {
        Ok(()) => Ok(()),
        Err(e) => Err(e@),
    }
}

pub open spec fn answer_view(answer: Result<ZomeCallResponse, AuthError>) -> Result<
    ResponseModel,
    ErrorModel,
> {
    match answer {
        Ok(z) => Ok(z@),
        Err(e) => Err(e@),
    }
}

/// What `get_auth_data` answers for a log and a tag.
pub open spec fn lookup_outcome(log: Seq<RecordModel>, tag: Seq<char>) -> Result<
    ConnectionModel,
    ErrorModel,
> {
    match auth_lookup(log, tag) {
        Some(a) => Ok(a),
        None => Err(ErrorModel::MissingAuthData),
    }
}

pub proof fn lemma_latest_claim_upto(log: Seq<RecordModel>, n: nat, tag: Seq<char>)
    requires
        n <= log.len(),
    ensures
        latest_claim_upto(log, n, tag) matches Some(c) ==> is_live_claim(log, c, tag),
    decreases n,
{
    if n > 0 {
        lemma_latest_claim_upto(log, (n - 1) as nat, tag);
    }
}

pub proof fn lemma_latest_claim(log: Seq<RecordModel>, tag: Seq<char>)
    ensures
        latest_claim(log, tag) matches Some(c) ==> 0 <= c < log.len() && (log[c] matches RecordModel::Claim(
            claim,
        ) && claim.tag == tag),
{
    lemma_latest_claim_upto(log, log.len(), tag);
}

/// Reads the claim and the granted function filed for a remote DNA and a
/// permission by an earlier handshake.
pub fn get_auth_data(store: &CapabilityStore, to_registered_dna: &DnaHash, remote_permission_id: &str) -> (r:
    Result<DNAConnectionAuth, AuthError>)
    ensures
        auth_result(r) == lookup_outcome(
            store@,
            tag_of(to_registered_dna@, remote_permission_id@),
        ),
{
    let tag = get_tag_for_auth(to_registered_dna, remote_permission_id);
    proof {
        lemma_latest_claim(store@, tag@);
    }
    let c = match store.find_claim_by_tag(&tag) {
        Some(c) => c,
        None => return Err(AuthError::MissingAuthData),
    };
    let t = match store.find_link_target(c) {
        Some(t) => t,
        None => return Err(AuthError::MissingAuthData),
    };
    if t >= store.len() {
        return Err(AuthError::MissingAuthData);
    }
    match (store.record(c), store.record(t)) {
        (LogRecord::Claim(claim), LogRecord::Capability(cap)) => Ok(
            DNAConnectionAuth { method: cap.allowed_method.clone(), claim: claim.clone() },
        ),
        _ => Err(AuthError::MissingAuthData),
    }
}

/// The registration request that a handshake sends.
pub open spec fn registration_for(own_dna: Seq<u8>, permission_id: Seq<char>, secret: Seq<u8>) -> RegistrationModel {
    RegistrationModel { remote_dna: own_dna, permission_id, secret }
}

/// The claim recorded for a grant's access policy: the first assignee is
/// the grantor of an assigned grant; a transferable grant names the local
/// agent; an unrestricted grant needs no claim.
pub open spec fn claim_for(tag: Seq<char>, local_agent: Seq<u8>, access: AccessModel) -> Option<ClaimModel> {
    match access {
        AccessModel::Assigned { secret, assignees } => if assignees.len() > 0 {
            Some(ClaimModel { tag, grantor: assignees[0], secret })
        } else {
            None
        },
        AccessModel::Transferable { secret } => Some(
            ClaimModel { tag, grantor: local_agent, secret },
        ),
        AccessModel::Unrestricted => None,
    }
}

/// The log after a remote answer is recorded, and the handshake's result: a
/// grant with a claimable access policy first supersedes every claim under
/// the tag, then appends its claim, and, if it opens a function, a capability
/// record for its first function and a link from the claim to that record.
pub open spec fn handshake(
    log: Seq<RecordModel>,
    to_dna: Seq<u8>,
    permission_id: Seq<char>,
    local_agent: Seq<u8>,
    answer: Result<ResponseModel, ErrorModel>,
) -> (Seq<RecordModel>, Result<(), ErrorModel>) {
    match answer {
        Err(e) => (log, Err(e)),
        Ok(ResponseModel::Unauthorized) => (log, Err(ErrorModel::Unauthorized)),
        Ok(ResponseModel::NetworkError(m)) => (log, Err(ErrorModel::NetworkError { message: m })),
        Ok(ResponseModel::CountersigningSession(m)) => (
            log,
            Err(ErrorModel::SessionConflict { message: m }),
        ),
        Ok(ResponseModel::Granted(g)) => match claim_for(
            tag_of(to_dna, permission_id),
            local_agent,
            g.access,
        ) {
            None => (log, Err(ErrorModel::ClaimPersistFailed)),
            Some(c) => {
                let cleared = supersede_log(log, tag_of(to_dna, permission_id));
                if g.functions.len() == 0 {
                    (cleared.push(RecordModel::Claim(c)), Err(ErrorModel::NoMethodsGranted))
                } else {
                    (
                        cleared.push(RecordModel::Claim(c)).push(
                            RecordModel::Capability(
                                CapabilityModel {
                                    extern_id: permission_id,
                                    allowed_method: g.functions[0],
                                },
                            ),
                        ).push(
                            RecordModel::Link {
                                base: cleared.len() as int,
                                target: cleared.len() as int + 1,
                            },
                        ),
                        Ok(()),
                    )
                }
            },
        },
    }
}

/// The claim at `c` is the only live claim under `tag`, and the link at `l`
/// the only live link from it.
pub open spec fn sole_live_claim(log: Seq<RecordModel>, tag: Seq<char>, c: int, l: int) -> bool {
    &&& forall|i: int| #[trigger] is_live_claim(log, i, tag) <==> i == c
    &&& forall|i: int| #[trigger] is_live_link(log, i, c) <==> i == l
}

/// Records what a remote DNA answered to a registration request: on a grant
/// with a claimable access policy, deletes the claims under the tag and
/// their links, then writes the new claim, the capability for the grant's
/// first function, and the link between them. Records written before a
/// failure stay in the log.
pub fn store_auth_response(
    store: &mut CapabilityStore,
    to_dna: &DnaHash,
    remote_permission_id: &str,
    local_agent: &AgentPubKey,
    answer: Result<ZomeCallResponse, AuthError>,
) -> (r: Result<(), AuthError>)
    ensures
        (final(store)@, unit_result(r)) == handshake(
            old(store)@,
            to_dna@,
            remote_permission_id@,
            local_agent@,
            answer_view(answer),
        ),
        log_wf(old(store)@) ==> log_wf(final(store)@),
        log_wf(old(store)@) && r is Ok ==> sole_live_claim(
            final(store)@,
            tag_of(to_dna@, remote_permission_id@),
            final(store)@.len() - 3,
            final(store)@.len() - 1,
        ),
{
    let grant = match answer {
        Err(e) => return Err(e),
        Ok(ZomeCallResponse::Unauthorized) => return Err(AuthError::Unauthorized),
        Ok(ZomeCallResponse::NetworkError(message)) => return Err(
            AuthError::NetworkError { message },
        ),
        Ok(ZomeCallResponse::CountersigningSession(message)) => return Err(
            AuthError::SessionConflict { message },
        ),
        Ok(ZomeCallResponse::Granted(g)) => g,
    };
    let ghost g = grant@;
    let tag = get_tag_for_auth(to_dna, remote_permission_id);
    let claim = match &grant.access {
        CapAccess::Assigned { secret, assignees } => {
            if assignees.len() == 0 {
                return Err(AuthError::ClaimPersistFailed);
            }
            CapClaim { tag: tag.clone(), grantor: assignees[0].clone(), secret: secret.clone() }
        },
        CapAccess::Transferable { secret } => {
            CapClaim { tag: tag.clone(), grantor: local_agent.clone(), secret: secret.clone() }
        },
        CapAccess::Unrestricted => {
            return Err(AuthError::ClaimPersistFailed);
        },
    };
    assert(claim_for(tag_of(to_dna@, remote_permission_id@), local_agent@, g.access) == Some(
        claim@,
    ));
    store.supersede(&tag);
    let claim_ref = store.put_claim(claim);
    if grant.functions.len() == 0 {
        return Err(AuthError::NoMethodsGranted);
    }
    let method = grant.functions[0].clone();
    assert(method@ == g.functions[0]);
    let capability = AvailableCapability {
        extern_id: String::from_str(remote_permission_id),
        allowed_method: method,
    };
    let capability_ref = store.put_capability(capability);
    store.link(claim_ref, capability_ref);
    proof {
        if log_wf(old(store)@) {
            lemma_handshake_establishes_auth(
                old(store)@,
                to_dna@,
                remote_permission_id@,
                local_agent@,
                g,
            );
        }
    }
    Ok(())
}

/// Triggers the registration handshake with a remote DNA: sends the local
/// DNA's hash, the permission ID and a fresh secret through `call_remote`,
/// which makes the cross-DNA call, and records the answer.
pub fn make_auth_request<F>(
    store: &mut CapabilityStore,
    to_dna: &DnaHash,
    remote_permission_id: &str,
    own_dna: &DnaHash,
    local_agent: &AgentPubKey,
    secret: CapSecret,
    call_remote: F,
) -> (r: Result<(), AuthError>) where F: FnOnce(DnaRegistration) -> Result<ZomeCallResponse, AuthError>
    requires
        forall|req: DnaRegistration| call_remote.requires((req,)),
    ensures
        exists|req: DnaRegistration, answer: Result<ZomeCallResponse, AuthError>|
            #[trigger] call_remote.ensures((req,), answer) && req@ == registration_for(
                own_dna@,
                remote_permission_id@,
                secret@,
            ) && (final(store)@, unit_result(r)) == handshake(
                old(store)@,
                to_dna@,
                remote_permission_id@,
                local_agent@,
                answer_view(answer),
            ),
        log_wf(old(store)@) ==> log_wf(final(store)@),
{
    let request = DnaRegistration {
        remote_dna: own_dna.clone(),
        permission_id: String::from_str(remote_permission_id),
        secret,
    };
    let ghost req = request;
    let answer = call_remote(request);
    let ghost ans = answer;
    let r = store_auth_response(store, to_dna, remote_permission_id, local_agent, answer);
    assert(call_remote.ensures((req,), ans));
    r
}

/// What `ensure_authed` returns and leaves in the log, given what the remote
/// would answer: stored auth data if there is any; else the handshake's
/// error, or the auth data read back after it, or `AuthHandshakeInconsistent`
/// where none can be read back.
pub open spec fn ensure_outcome(
    log: Seq<RecordModel>,
    to_dna: Seq<u8>,
    permission_id: Seq<char>,
    local_agent: Seq<u8>,
    answer: Result<ResponseModel, ErrorModel>,
) -> (Seq<RecordModel>, Result<ConnectionModel, ErrorModel>) {
    let tag = tag_of(to_dna, permission_id);
    match auth_lookup(log, tag) {
        Some(a) => (log, Ok(a)),
        None => {
            let (log1, res) = handshake(log, to_dna, permission_id, local_agent, answer);
            match res {
                Err(e) => (log1, Err(e)),
                Ok(()) => match auth_lookup(log1, tag) {
                    Some(a) => (log1, Ok(a)),
                    None => (log1, Err(ErrorModel::AuthHandshakeInconsistent)),
                },
            }
        },
    }
}

/// Returns the auth data for a remote DNA and a permission, performing the
/// registration handshake first if none is stored. The lookup after a
/// handshake is made once; a miss there is reported, not retried.
pub fn ensure_authed<F>(
    store: &mut CapabilityStore,
    to_dna: &DnaHash,
    remote_permission_id: &str,
    own_dna: &DnaHash,
    local_agent: &AgentPubKey,
    secret: CapSecret,
    call_remote: F,
) -> (r: Result<DNAConnectionAuth, AuthError>) where
    F: FnOnce(DnaRegistration) -> Result<ZomeCallResponse, AuthError>,

    requires
        auth_lookup(old(store)@, tag_of(to_dna@, remote_permission_id@)) is None ==> forall|
            req: DnaRegistration,
        | call_remote.requires((req,)),
    ensures
        auth_lookup(old(store)@, tag_of(to_dna@, remote_permission_id@)) matches Some(a)
            ==> final(store)@ == old(store)@ && auth_result(r) == Ok::<ConnectionModel, ErrorModel>(a),
        auth_lookup(old(store)@, tag_of(to_dna@, remote_permission_id@)) is None ==> exists|
            req: DnaRegistration,
            answer: Result<ZomeCallResponse, AuthError>,
        |
            #[trigger] call_remote.ensures((req,), answer) && req@ == registration_for(
                own_dna@,
                remote_permission_id@,
                secret@,
            ) && (final(store)@, auth_result(r)) == ensure_outcome(
                old(store)@,
                to_dna@,
                remote_permission_id@,
                local_agent@,
                answer_view(answer),
            ),
        log_wf(old(store)@) ==> log_wf(final(store)@),
{
    if let Ok(auth) = get_auth_data(store, to_dna, remote_permission_id) {
        return Ok(auth);
    }
    let ghost log0 = store@;
    let requested = make_auth_request(
        store,
        to_dna,
        remote_permission_id,
        own_dna,
        local_agent,
        secret,
        call_remote,
    );
    let ghost (req, ans) = choose|req: DnaRegistration, answer: Result<ZomeCallResponse, AuthError>|
        #[trigger] call_remote.ensures((req,), answer) && req@ == registration_for(
            own_dna@,
            remote_permission_id@,
            secret@,
        ) && (store@, unit_result(requested)) == handshake(
            log0,
            to_dna@,
            remote_permission_id@,
            local_agent@,
            answer_view(answer),
        );
    assert(call_remote.ensures((req,), ans));
    if let Err(e) = requested {
        return Err(e);
    }
    match get_auth_data(store, to_dna, remote_permission_id) {
        Ok(auth) => Ok(auth),
        Err(_) => Err(AuthError::AuthHandshakeInconsistent),
    }
}

/// A usable grant is one whose access policy yields a claim and which opens
/// at least one function.
pub open spec fn usable_grant(tag: Seq<char>, local_agent: Seq<u8>, g: GrantModel) -> bool {
    claim_for(tag, local_agent, g.access) is Some && g.functions.len() > 0
}

/// Recording a usable grant in a well-formed log succeeds; the new claim is
/// then the only live claim under its tag, with one live link, to the grant's
/// first function, and it is the auth data filed under the tag, whatever
/// claims for that tag the log held before.
pub proof fn lemma_handshake_establishes_auth(
    log: Seq<RecordModel>,
    to_dna: Seq<u8>,
    permission_id: Seq<char>,
    local_agent: Seq<u8>,
    g: GrantModel,
)
    requires
        log_wf(log),
        usable_grant(tag_of(to_dna, permission_id), local_agent, g),
    ensures
        handshake(log, to_dna, permission_id, local_agent, Ok(ResponseModel::Granted(g))).1
            == Ok::<(), ErrorModel>(()),
        auth_lookup(
            handshake(log, to_dna, permission_id, local_agent, Ok(ResponseModel::Granted(g))).0,
            tag_of(to_dna, permission_id),
        ) == Some(
            ConnectionModel {
                method: g.functions[0],
                claim: claim_for(tag_of(to_dna, permission_id), local_agent, g.access)->Some_0,
            },
        ),
        ({
            let fin = handshake(log, to_dna, permission_id, local_agent, Ok(ResponseModel::Granted(g))).0;
            sole_live_claim(fin, tag_of(to_dna, permission_id), fin.len() - 3, fin.len() - 1)
        }),
{
    let tag = tag_of(to_dna, permission_id);
    let c = claim_for(tag, local_agent, g.access)->Some_0;
    let cleared = supersede_log(log, tag);
    lemma_supersede_log(log, tag);
    let n = cleared.len() as int;
    let cap = CapabilityModel { extern_id: permission_id, allowed_method: g.functions[0] };
    let fin = cleared.push(RecordModel::Claim(c)).push(RecordModel::Capability(cap)).push(
        RecordModel::Link { base: n, target: n + 1 },
    );
    assert(handshake(log, to_dna, permission_id, local_agent, Ok(ResponseModel::Granted(g))).0
        == fin);
    assert(fin[n] == RecordModel::Claim(c));
    assert(fin[n + 1] == RecordModel::Capability(cap));
    assert(fin[n + 2] == (RecordModel::Link { base: n, target: n + 1 }));
    assert forall|i: int| n <= i implies !is_deleted(fin, i) by {
        if is_deleted(fin, i) {
            let p = choose|p: int|
                0 <= p < fin.len() && #[trigger] fin[p] == RecordModel::Tombstone { target: i };
            if p < n {
                assert(fin[p] == cleared[p]);
            }
        }
    }
    assert forall|i: int| #[trigger] is_live_claim(fin, i, tag) <==> i == n by {
        if 0 <= i < n && is_live_claim(fin, i, tag) {
            assert(fin[i] == cleared[i]);
            assert(!is_live_claim(cleared, i, tag));
            let p = choose|p: int|
                0 <= p < cleared.len() && #[trigger] cleared[p] == RecordModel::Tombstone {
                    target: i,
                };
            assert(fin[p] == cleared[p]);
        }
    }
    assert forall|i: int| #[trigger] is_live_link(fin, i, n) <==> i == n + 2 by {
        if 0 <= i < n {
            assert(fin[i] == cleared[i]);
        }
    }
    assert(is_live_claim(fin, n, tag));
    assert(!is_live_claim(fin, n + 1, tag));
    assert(!is_live_claim(fin, n + 2, tag));
    assert(latest_claim_upto(fin, (n + 1) as nat, tag) == Some(n));
    assert(latest_claim_upto(fin, (n + 2) as nat, tag) == Some(n));
    assert(latest_claim_upto(fin, (n + 3) as nat, tag) == Some(n));
    lemma_no_live_link_upto(fin, n, (n + 2) as nat);
    assert(first_link_upto(fin, (n + 3) as nat, n) == Some(n + 1));
}

/// Once `ensure_authed` has succeeded, calling it again for the same DNA and
/// permission returns the same auth data and leaves the log as it is, whatever
/// the remote would answer: no second handshake is made.
pub proof fn lemma_ensure_authed_idempotent(
    log: Seq<RecordModel>,
    to_dna: Seq<u8>,
    permission_id: Seq<char>,
    local_agent: Seq<u8>,
    first: Result<ResponseModel, ErrorModel>,
    second: Result<ResponseModel, ErrorModel>,
)
    requires
        ensure_outcome(log, to_dna, permission_id, local_agent, first).1 is Ok,
    ensures
        ({
            let (log1, r1) = ensure_outcome(log, to_dna, permission_id, local_agent, first);
            auth_lookup(log1, tag_of(to_dna, permission_id)) is Some && ensure_outcome(
                log1,
                to_dna,
                permission_id,
                local_agent,
                second,
            ) == (log1, r1)
        }),
{
}

/// On a log with no auth data for a DNA and permission, a first
/// `ensure_authed` whose handshake the remote answers with a usable grant
/// returns the new claim and function; a second call returns the same, with
/// the log unchanged and no handshake.
pub proof fn lemma_cold_store_single_handshake(
    log: Seq<RecordModel>,
    to_dna: Seq<u8>,
    permission_id: Seq<char>,
    local_agent: Seq<u8>,
    g: GrantModel,
    second: Result<ResponseModel, ErrorModel>,
)
    requires
        log_wf(log),
        auth_lookup(log, tag_of(to_dna, permission_id)) is None,
        usable_grant(tag_of(to_dna, permission_id), local_agent, g),
    ensures
        ({
            let (log1, r1) = ensure_outcome(
                log,
                to_dna,
                permission_id,
                local_agent,
                Ok(ResponseModel::Granted(g)),
            );
            &&& r1 == Ok::<ConnectionModel, ErrorModel>(
                ConnectionModel {
                    method: g.functions[0],
                    claim: claim_for(tag_of(to_dna, permission_id), local_agent, g.access)->Some_0,
                },
            )
            &&& auth_lookup(log1, tag_of(to_dna, permission_id)) == Some(r1->Ok_0)
            &&& ensure_outcome(log1, to_dna, permission_id, local_agent, second) == (log1, r1)
        }),
{
    lemma_handshake_establishes_auth(log, to_dna, permission_id, local_agent, g);
}

/// An unrestricted grant leaves no claim behind: the log is unchanged, the
/// call fails with `ClaimPersistFailed`, and the next `ensure_authed` for the
/// same tag finds nothing stored and handshakes again.
pub proof fn lemma_unrestricted_grant_not_cached(
    log: Seq<RecordModel>,
    to_dna: Seq<u8>,
    permission_id: Seq<char>,
    local_agent: Seq<u8>,
    g: GrantModel,
)
    requires
        g.access == AccessModel::Unrestricted,
        auth_lookup(log, tag_of(to_dna, permission_id)) is None,
    ensures
        ensure_outcome(log, to_dna, permission_id, local_agent, Ok(ResponseModel::Granted(g)))
            == (log, Err::<ConnectionModel, ErrorModel>(ErrorModel::ClaimPersistFailed)),
        auth_lookup(
            ensure_outcome(log, to_dna, permission_id, local_agent, Ok(ResponseModel::Granted(g))).0,
            tag_of(to_dna, permission_id),
        ) is None,
{
}

/// Whatever an interrupted handshake left in the log (a claim without its
/// capability or link, or a claim and capability without the link), a retried
/// `ensure_authed` that the remote answers with a usable grant succeeds,
/// without any cleanup of the log.
pub proof fn lemma_retry_after_interruption(
    log: Seq<RecordModel>,
    to_dna: Seq<u8>,
    permission_id: Seq<char>,
    local_agent: Seq<u8>,
    g: GrantModel,
)
    requires
        log_wf(log),
        usable_grant(tag_of(to_dna, permission_id), local_agent, g),
    ensures
        ensure_outcome(log, to_dna, permission_id, local_agent, Ok(ResponseModel::Granted(g))).1 is Ok,
{
    lemma_handshake_establishes_auth(log, to_dna, permission_id, local_agent, g);
}

} // verus!
