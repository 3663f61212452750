//! Data exchanged and stored by the authorization protocol, each with the
//! mathematical value that contracts speak of.
use vstd::prelude::*;

verus! {

/// The hash that identifies a DNA, as raw bytes.
pub struct DnaHash {
    pub bytes: Vec<u8>,
}

/// The public key of an agent, as raw bytes.
pub struct AgentPubKey {
    pub bytes: Vec<u8>,
}

/// The secret that proves a capability claim, as raw bytes.
pub struct CapSecret {
    pub bytes: Vec<u8>,
}

impl View for DnaHash {
    type V = Seq<u8>;

    open spec fn view(&self) -> Seq<u8> {
        self.bytes@
    }
}

impl View for AgentPubKey {
    type V = Seq<u8>;

    open spec fn view(&self) -> Seq<u8> {
        self.bytes@
    }
}

impl View for CapSecret {
    type V = Seq<u8>;

    open spec fn view(&self) -> Seq<u8> {
        self.bytes@
    }
}

fn copy_bytes(b: &Vec<u8>) -> (r: Vec<u8>)
    ensures
        r@ == b@,
{
    let r = b.clone();
    assert(r@ =~= b@);
    r
}

impl Clone for DnaHash {
    fn clone(&self) -> (r: Self)
        ensures
            r@ == self@,
    {
        DnaHash { bytes: copy_bytes(&self.bytes) }
    }
}

impl Clone for AgentPubKey {
    fn clone(&self) -> (r: Self)
        ensures
            r@ == self@,
    {
        AgentPubKey { bytes: copy_bytes(&self.bytes) }
    }
}

impl Clone for CapSecret {
    fn clone(&self) -> (r: Self)
        ensures
            r@ == self@,
    {
        CapSecret { bytes: copy_bytes(&self.bytes) }
    }
}

/// A zome function that a grant allows to be called: zome name and function name.
pub struct GrantedFunction {
    pub zome_name: String,
    pub fn_name: String,
}

pub struct FunctionModel {
    pub zome_name: Seq<char>,
    pub fn_name: Seq<char>,
}

impl View for GrantedFunction {
    type V = FunctionModel;

    open spec fn view(&self) -> FunctionModel {
        FunctionModel { zome_name: self.zome_name@, fn_name: self.fn_name@ }
    }
}

impl Clone for GrantedFunction {
    fn clone(&self) -> (r: Self)
        ensures
            r@ == self@,
    {
        GrantedFunction { zome_name: self.zome_name.clone(), fn_name: self.fn_name.clone() }
    }
}

/// Mapping of an externally-facing permission ID to the function it opens.
///
/// Listed in the allow-list of the receiving DNA, and stored as a record in
/// the requesting DNA for lookup.
pub struct AvailableCapability {
    pub extern_id: String,
    pub allowed_method: GrantedFunction,
}

pub struct CapabilityModel {
    pub extern_id: Seq<char>,
    pub allowed_method: FunctionModel,
}

impl View for AvailableCapability {
    type V = CapabilityModel;

    open spec fn view(&self) -> CapabilityModel {
        CapabilityModel { extern_id: self.extern_id@, allowed_method: self.allowed_method@ }
    }
}

impl Clone for AvailableCapability {
    fn clone(&self) -> (r: Self)
        ensures
            r@ == self@,
    {
        AvailableCapability {
            extern_id: self.extern_id.clone(),
            allowed_method: self.allowed_method.clone(),
        }
    }
}

/// The allow-list of permissions that a DNA offers to remote DNAs.
pub struct AvailableCapabilities {
    pub permissions: Vec<AvailableCapability>,
}

impl View for AvailableCapabilities {
    type V = Seq<CapabilityModel>;

    open spec fn view(&self) -> Seq<CapabilityModel> {
        self.permissions@.map_values(|c: AvailableCapability| c@)
    }
}

/// The part of a DNA's configuration that this protocol reads.
pub struct DnaConfigSlice {
    pub remote_auth: AvailableCapabilities,
}

impl View for DnaConfigSlice {
    type V = Seq<CapabilityModel>;

    open spec fn view(&self) -> Seq<CapabilityModel> {
        self.remote_auth@
    }
}

/// Who may exercise a capability grant.
pub enum CapAccess {
    /// Anyone.
    Unrestricted,
    /// Anyone who holds the secret.
    Transferable { secret: CapSecret },
    /// The listed agents, when they present the secret.
    Assigned { secret: CapSecret, assignees: Vec<AgentPubKey> },
}

pub enum AccessModel {
    Unrestricted,
    Transferable { secret: Seq<u8> },
    Assigned { secret: Seq<u8>, assignees: Seq<Seq<u8>> },
}

impl View for CapAccess {
    type V = AccessModel;

    open spec fn view(&self) -> AccessModel {
        match self {
            CapAccess::Unrestricted => AccessModel::Unrestricted,
            CapAccess::Transferable { secret } => AccessModel::Transferable { secret: secret@ },
            CapAccess::Assigned { secret, assignees } => AccessModel::Assigned {
                secret: secret@,
                assignees: assignees@.map_values(|a: AgentPubKey| a@),
            },
        }
    }
}

/// A capability grant for calls from another agent: a label, the access
/// policy and the functions it opens, in the order the grant lists them.
pub struct ZomeCallCapGrant {
    pub tag: String,
    pub access: CapAccess,
    pub functions: Vec<GrantedFunction>,
}

pub struct GrantModel {
    pub tag: Seq<char>,
    pub access: AccessModel,
    pub functions: Seq<FunctionModel>,
}

impl View for ZomeCallCapGrant {
    type V = GrantModel;

    open spec fn view(&self) -> GrantModel {
        GrantModel {
            tag: self.tag@,
            access: self.access@,
            functions: self.functions@.map_values(|f: GrantedFunction| f@),
        }
    }
}

/// A capability claim held by the requesting agent: the tag it is looked up
/// by, the agent that granted it and the secret to present.
pub struct CapClaim {
    pub tag: String,
    pub grantor: AgentPubKey,
    pub secret: CapSecret,
}

pub struct ClaimModel {
    pub tag: Seq<char>,
    pub grantor: Seq<u8>,
    pub secret: Seq<u8>,
}

impl View for CapClaim {
    type V = ClaimModel;

    open spec fn view(&self) -> ClaimModel {
        ClaimModel { tag: self.tag@, grantor: self.grantor@, secret: self.secret@ }
    }
}

impl Clone for CapClaim {
    fn clone(&self) -> (r: Self)
        ensures
            r@ == self@,
    {
        CapClaim { tag: self.tag.clone(), grantor: self.grantor.clone(), secret: self.secret.clone() }
    }
}

/// Payload sent to a remote DNA that the local DNA wants to authenticate with.
/// It travels unauthenticated, so that later requests can be authenticated
/// against the claim it yields.
pub struct DnaRegistration {
    pub remote_dna: DnaHash,
    pub permission_id: String,
    pub secret: CapSecret,
}

pub struct RegistrationModel {
    pub remote_dna: Seq<u8>,
    pub permission_id: Seq<char>,
    pub secret: Seq<u8>,
}

impl View for DnaRegistration {
    type V = RegistrationModel;

    open spec fn view(&self) -> RegistrationModel {
        RegistrationModel {
            remote_dna: self.remote_dna@,
            permission_id: self.permission_id@,
            secret: self.secret@,
        }
    }
}

/// Authentication data held by the local DNA about a connection to a remote
/// DNA: everything needed to make the authorized call.
pub struct DNAConnectionAuth {
    pub method: GrantedFunction,
    pub claim: CapClaim,
}

pub struct ConnectionModel {
    pub method: FunctionModel,
    pub claim: ClaimModel,
}

impl View for DNAConnectionAuth {
    type V = ConnectionModel;

    open spec fn view(&self) -> ConnectionModel {
        ConnectionModel { method: self.method@, claim: self.claim@ }
    }
}

/// The ways the protocol can fail.
pub enum AuthError {
    /// The permission ID is not in the allow-list of the DNA asked.
    UnknownPermission { permission_id: String },
    /// The remote refused the registration call.
    Unauthorized,
    /// The transport failed; its message is passed on.
    NetworkError { message: String },
    /// The remote was busy in a countersigning session; its message is passed on.
    SessionConflict { message: String },
    /// The remote granted no function.
    NoMethodsGranted,
    /// The grant gave nothing to record as a local claim.
    ClaimPersistFailed,
    /// A handshake reported success but left no usable auth data behind.
    AuthHandshakeInconsistent,
    /// No auth data is stored for the DNA and permission asked.
    MissingAuthData,
}

pub enum ErrorModel {
    UnknownPermission { permission_id: Seq<char> },
    Unauthorized,
    NetworkError { message: Seq<char> },
    SessionConflict { message: Seq<char> },
    NoMethodsGranted,
    ClaimPersistFailed,
    AuthHandshakeInconsistent,
    MissingAuthData,
}

impl View for AuthError {
    type V = ErrorModel;

    open spec fn view(&self) -> ErrorModel {
        match self {
            AuthError::UnknownPermission { permission_id } => ErrorModel::UnknownPermission {
                permission_id: permission_id@,
            },
            AuthError::Unauthorized => ErrorModel::Unauthorized,
            AuthError::NetworkError { message } => ErrorModel::NetworkError { message: message@ },
            AuthError::SessionConflict { message } => ErrorModel::SessionConflict {
                message: message@,
            },
            AuthError::NoMethodsGranted => ErrorModel::NoMethodsGranted,
            AuthError::ClaimPersistFailed => ErrorModel::ClaimPersistFailed,
            AuthError::AuthHandshakeInconsistent => ErrorModel::AuthHandshakeInconsistent,
            AuthError::MissingAuthData => ErrorModel::MissingAuthData,
        }
    }
}

/// The answer of a remote DNA to a registration call.
pub enum ZomeCallResponse {
    Granted(ZomeCallCapGrant),
    Unauthorized,
    NetworkError(String),
    CountersigningSession(String),
}

pub enum ResponseModel {
    Granted(GrantModel),
    Unauthorized,
    NetworkError(Seq<char>),
    CountersigningSession(Seq<char>),
}

impl View for ZomeCallResponse {
    type V = ResponseModel;

    open spec fn view(&self) -> ResponseModel {
        match self {
            ZomeCallResponse::Granted(g) => ResponseModel::Granted(g@),
            ZomeCallResponse::Unauthorized => ResponseModel::Unauthorized,
            ZomeCallResponse::NetworkError(m) => ResponseModel::NetworkError(m@),
            ZomeCallResponse::CountersigningSession(m) => ResponseModel::CountersigningSession(m@),
        }
    }
}

} // verus!
