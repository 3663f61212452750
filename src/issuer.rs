//! The authorizing side: turns a registration request into a capability
//! grant, if the allow-list offers the permission asked for.
use crate::tag::{get_tag_for_auth, tag_of};
use crate::types::{
    AccessModel, AgentPubKey, AuthError, AvailableCapability, CapAccess, CapabilityModel,
    DnaConfigSlice, DnaRegistration, ErrorModel, GrantModel, GrantedFunction, RegistrationModel,
    ZomeCallCapGrant,
};
use vstd::prelude::*;

verus! {

/// Index of the first entry of the allow-list with the given permission ID.
pub open spec fn first_permission(list: Seq<CapabilityModel>, permission_id: Seq<char>) -> Option<int>
    decreases list.len(),
{
    if list.len() == 0 {
        None
    } else {
        match first_permission(list.drop_last(), permission_id) {
            Some(i) => Some(i),
            None => if list.last().extern_id == permission_id {
                Some(list.len() - 1)
            } else {
                None
            },
        }
    }
}

pub proof fn lemma_first_permission(list: Seq<CapabilityModel>, permission_id: Seq<char>)
    ensures
        first_permission(list, permission_id) is None <==> (forall|j: int|
            0 <= j < list.len() ==> list[j].extern_id != permission_id),
        first_permission(list, permission_id) matches Some(i) ==> 0 <= i < list.len()
            && list[i].extern_id == permission_id && (forall|j: int|
            0 <= j < i ==> list[j].extern_id != permission_id),
    decreases list.len(),
{
    if list.len() > 0 {
        lemma_first_permission(list.drop_last(), permission_id);
        assert forall|j: int| 0 <= j < list.len() - 1 implies list.drop_last()[j] == list[j] by {}
    }
}

/// The grant issued for a request made by `caller`, given the allow-list
/// entry that the request's permission matched.
pub open spec fn grant_for(
    request: RegistrationModel,
    caller: Seq<u8>,
    entry: CapabilityModel,
) -> GrantModel {
    GrantModel {
        tag: tag_of(request.remote_dna, request.permission_id),
        access: AccessModel::Assigned { secret: request.secret, assignees: seq![caller] },
        functions: seq![entry.allowed_method],
    }
}

/// What `register_dna` answers: the grant for the first allow-list entry
/// with the requested permission ID, or `UnknownPermission`.
pub open spec fn registration_outcome(
    list: Seq<CapabilityModel>,
    request: RegistrationModel,
    caller: Seq<u8>,
) -> Result<GrantModel, ErrorModel> {
    match first_permission(list, request.permission_id) {
        Some(i) => Ok(grant_for(request, caller, list[i])),
        None => Err(ErrorModel::UnknownPermission { permission_id: request.permission_id }),
    }
}

/// Accepts a request from a remote DNA to register an authenticated
/// connection: looks the permission up in the allow-list and grants the
/// function it maps to, to the calling agent alone, under the request's secret.
pub fn register_dna(config: &DnaConfigSlice, caller: &AgentPubKey, request: DnaRegistration) -> (r:
    Result<ZomeCallCapGrant, AuthError>)
    ensures
        match r {
            Ok(g) => registration_outcome(config@, request@, caller@) == Ok::<
                GrantModel,
                ErrorModel,
            >(g@),
            Err(e) => registration_outcome(config@, request@, caller@) == Err::<
                GrantModel,
                ErrorModel,
            >(e@),
        },
{
    let permissions = &config.remote_auth.permissions;
    let ghost list = config@;
    proof {
        lemma_first_permission(list, request.permission_id@);
    }
    let mut i: usize = 0;
    while i < permissions.len()
        invariant
            i <= permissions.len(),
            list == config@,
            list == permissions@.map_values(|c: AvailableCapability| c@),
            forall|j: int| 0 <= j < i ==> list[j].extern_id != request.permission_id@,
        decreases permissions.len() - i,
    {
        if permissions[i].extern_id == request.permission_id {
            assert(list[i as int] == permissions@[i as int]@);
            assert(first_permission(list, request.permission_id@) == Some(i as int)) by {
                lemma_first_permission(list, request.permission_id@);
                assert(list[i as int].extern_id == request.permission_id@);
                if let Some(k) = first_permission(list, request.permission_id@) {
                    if k < i {
                        assert(list[k].extern_id != request.permission_id@);
                    } else if i < k {
                        assert(list[i as int].extern_id != request.permission_id@);
                    }
                }
            }
            let tag = get_tag_for_auth(&request.remote_dna, request.permission_id.as_str());
            let method = permissions[i].allowed_method.clone();
            let mut assignees: Vec<AgentPubKey> = Vec::new();
            assignees.push(caller.clone());
            let mut functions: Vec<GrantedFunction> = Vec::new();
            functions.push(method);
            assert(assignees@.map_values(|a: AgentPubKey| a@) =~= seq![caller@]);
            let grant = ZomeCallCapGrant {
                tag,
                access: CapAccess::Assigned { secret: request.secret, assignees },
                functions,
            };
            assert(grant@.functions =~= seq![list[i as int].allowed_method]);
            return Ok(grant);
        }
        i = i + 1;
    }
    Err(AuthError::UnknownPermission { permission_id: request.permission_id })
}

/// A permission ID that no allow-list entry carries is refused with
/// `UnknownPermission`, whoever the caller is.
pub proof fn lemma_unknown_permission_rejected(
    list: Seq<CapabilityModel>,
    request: RegistrationModel,
    caller: Seq<u8>,
)
    requires
        forall|j: int| 0 <= j < list.len() ==> list[j].extern_id != request.permission_id,
    ensures
        registration_outcome(list, request, caller) == Err::<GrantModel, ErrorModel>(
            ErrorModel::UnknownPermission { permission_id: request.permission_id },
        ),
{
    lemma_first_permission(list, request.permission_id);
}

/// A granted request opens exactly the one function that its permission maps
/// to, for exactly the calling agent.
pub proof fn lemma_grant_scoped_to_caller(
    list: Seq<CapabilityModel>,
    request: RegistrationModel,
    caller: Seq<u8>,
    i: int,
)
    requires
        0 <= i < list.len(),
        list[i].extern_id == request.permission_id,
        forall|j: int| 0 <= j < i ==> list[j].extern_id != request.permission_id,
    ensures
        registration_outcome(list, request, caller) matches Ok(g) && g.functions == seq![
            list[i].allowed_method,
        ] && g.access == (AccessModel::Assigned {
            secret: request.secret,
            assignees: seq![caller],
        }),
{
    lemma_first_permission(list, request.permission_id);
    let k = first_permission(list, request.permission_id)->Some_0;
    if k < i {
        assert(list[k].extern_id != request.permission_id);
    } else if i < k {
        assert(list[i].extern_id != request.permission_id);
    }
}

} // verus!
