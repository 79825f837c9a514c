use vstd::prelude::*;
use crate::address::{Address, AddressType};
use crate::credential::{SubjectInfo, VC};
use crate::error::RegistryError;
use crate::store::{credentials_of, holds, CredentialStore};

verus! {

/// Method of the authority contract that answers whether a caller may act on a DID.
pub const AUTHORITY_CHECK_SHORTNAME: u32 = 0x05;

/// Callback through which the authority's answer to an upload comes back.
pub const UPLOAD_VC_CALLBACK_SHORTNAME: u32 = 0x12;

/// Callback through which the authority's answer to a revocation comes back.
pub const SET_REVOKE_CALLBACK_SHORTNAME: u32 = 0x13;

/// The registry as a mathematical value.
pub struct RegistryView {
    pub owner: Address,
    pub authority: Address,
    pub credentials: Map<Seq<char>, Map<u128, VC>>,
}

/// The durable state of one registry.
pub struct ContractState {
    owner: Address,
    registry_address: Address,
    vcs: CredentialStore,
}

impl View for ContractState {
    type V = RegistryView;

    closed spec fn view(&self) -> RegistryView {
        RegistryView { owner: self.owner, authority: self.registry_address, credentials: self.vcs@ }
    }
}

/// The work left to do once the authority has answered, with everything it needs.
pub enum Continuation {
    UploadVc { issuer_did: String, vc_id: u128, vc: VC },
    SetRevoke { issuer_did: String, vc_id: u128, is_revoked: bool },
}

impl Continuation {
    /// The callback through which the authority's answer resumes this work.
    pub fn callback_shortname(&self) -> (r: u32)
        ensures
            self is UploadVc ==> r == UPLOAD_VC_CALLBACK_SHORTNAME,
            self is SetRevoke ==> r == SET_REVOKE_CALLBACK_SHORTNAME,
    {
        match self {
            Continuation::UploadVc { .. } => UPLOAD_VC_CALLBACK_SHORTNAME,
            Continuation::SetRevoke { .. } => SET_REVOKE_CALLBACK_SHORTNAME,
        }
    }
}

/// An outbound question to the authority, "may `caller` act on `did`?",
/// together with the continuation that its answer resumes.
pub struct AuthorizationRequest {
    pub authority: Address,
    pub did: String,
    pub caller: Address,
    pub continuation: Continuation,
}

/// The effect of the owner-only configuration of the authority address.
pub open spec fn configure_step(s: RegistryView, sender: Address, target: Address) -> (
    RegistryView,
    Result<(), RegistryError>,
) {
    if sender == s.owner {
        (RegistryView { authority: target, ..s }, Ok(()))
    } else {
        (s, Err(RegistryError::NotAuthorized))
    }
}

/// The effect of the authority's answer to an upload.
pub open spec fn upload_step(
    s: RegistryView,
    success: bool,
    did: Seq<char>,
    id: u128,
    vc: VC,
) -> (RegistryView, Result<(), RegistryError>) {
    if !success {
        (s, Err(RegistryError::AuthorizationDenied))
    } else if holds(s.credentials, did, id) {
        (s, Err(RegistryError::AlreadyExists))
    } else {
        (
            RegistryView {
                credentials: s.credentials.insert(
                    did,
                    credentials_of(s.credentials, did).insert(id, vc),
                ),
                ..s
            },
            Ok(()),
        )
    }
}

/// The effect of the authority's answer to a revocation update.
pub open spec fn revoke_step(s: RegistryView, success: bool, did: Seq<char>, id: u128, flag: bool) -> (
    RegistryView,
    Result<(), RegistryError>,
) {
    if !success {
        (s, Err(RegistryError::AuthorizationDenied))
    } else if !holds(s.credentials, did, id) {
        (s, Err(RegistryError::NotFound))
    } else {
        (
            RegistryView {
                credentials: s.credentials.insert(
                    did,
                    s.credentials[did].insert(id, s.credentials[did][id].with_revoked(flag)),
                ),
                ..s
            },
            Ok(()),
        )
    }
}

/// The request that an entry point issues: asked of the configured
/// authority, about the caller and the issuer DID.
pub open spec fn asks(req: AuthorizationRequest, s: RegistryView, caller: Address, did: Seq<char>) -> bool {
    &&& req.authority == s.authority
    &&& req.did@ == did
    &&& req.caller == caller
}

impl ContractState {
    pub closed spec fn wf(&self) -> bool {
        self.vcs.wf()
    }

    /// Puts back together a registry kept elsewhere from its owner, its
    /// authority address and its credentials.
    pub fn from_parts(owner: Address, registry_address: Address, vcs: CredentialStore) -> (r:
        ContractState)
        requires
            vcs.wf(),
        ensures
            r.wf(),
            r@ == (RegistryView { owner, authority: registry_address, credentials: vcs@ }),
    {
        ContractState { owner, registry_address, vcs }
    }

    /// The address that created the registry.
    pub fn owner(&self) -> (r: &Address)
        ensures
            *r == self@.owner,
    {
        &self.owner
    }

    /// The configured authority address; all zeros until configured.
    pub fn registry_address(&self) -> (r: &Address)
        ensures
            *r == self@.authority,
    {
        &self.registry_address
    }

    /// The stored credential with this id under the DID, if any.
    pub fn credential(&self, did: &String, id: u128) -> (r: Option<&VC>)
        requires
            self.wf(),
        ensures
            r is None <==> !holds(self@.credentials, did@, id),
            r matches Some(vc) ==> *vc == self@.credentials[did@][id],
    {
        self.vcs.get(did, id)
    }

    /// The DIDs that hold credentials, each once.
    pub fn dids(&self) -> (r: Vec<String>)
        requires
            self.wf(),
        ensures
            forall|i: int, j: int| 0 <= i < j < r@.len() ==> r@[i]@ != r@[j]@,
            forall|d: Seq<char>|
                self@.credentials.contains_key(d) <==> exists|i: int|
                    0 <= i < r@.len() && #[trigger] r@[i]@ == d,
    {
        self.vcs.dids()
    }

    /// The ids of the credentials stored under the DID, in increasing order.
    pub fn credential_ids(&self, did: &String) -> (r: Vec<u128>)
        requires
            self.wf(),
        ensures
            forall|i: int, j: int| 0 <= i < j < r@.len() ==> r@[i] < r@[j],
            forall|k: u128| holds(self@.credentials, did@, k) <==> r@.contains(k),
    {
        match self.vcs.credentials(did) {
            Some(set) => set.ids(),
            None => Vec::new(),
        }
    }

    /// Number of credentials stored under the DID.
    pub fn credential_count(&self, did: &String) -> (r: usize)
        requires
            self.wf(),
        ensures
            r as nat == credentials_of(self@.credentials, did@).dom().len(),
    {
        match self.vcs.credentials(did) {
            Some(set) => set.len(),
            None => 0,
        }
    }
}

/// Creates the registry: owned by its creator, no authority configured, no credential.
pub fn initialize(sender: Address) -> (r: ContractState)
    ensures
        r.wf(),
        r@.owner == sender,
        r@.authority.is_blank(),
        r@.authority.address_type == AddressType::Account,
        r@.credentials == Map::<Seq<char>, Map<u128, VC>>::empty(),
{
    ContractState { owner: sender, registry_address: Address::blank(), vcs: CredentialStore::new() }
}

/// Sets the authority address; only the owner may, any number of times.
pub fn configure_registry_address(
    sender: &Address,
    state: &mut ContractState,
    target_address: Address,
) -> (r: Result<(), RegistryError>)
    requires
        old(state).wf(),
    ensures
        final(state).wf(),
        (final(state)@, r) == configure_step(old(state)@, *sender, target_address),
{
    if *sender != state.owner {
        return Err(RegistryError::NotAuthorized);
    }
    state.registry_address = target_address;
    Ok(())
}

/// Builds the credential from the caller's fields and asks the authority
/// whether the caller may act on the issuer DID; the store is left for the
/// answer to change. Fails with `AuthorityNotConfigured` while no authority
/// address is set.
pub fn upload_vc(
    sender: &Address,
    state: &ContractState,
    issuer_did: String,
    vc_id: u128,
    subject_did: String,
    subject_info: Vec<SubjectInfo>,
    valid_since: String,
    valid_until: String,
    description: String,
    is_revoked: bool,
) -> (r: Result<AuthorizationRequest, RegistryError>)
    ensures
        r is Err <==> state@.authority.is_blank(),
        r matches Err(e) ==> e == RegistryError::AuthorityNotConfigured,
        r matches Ok(req) ==> asks(req, state@, *sender, issuer_did@) && req.continuation
            == (Continuation::UploadVc {
            issuer_did,
            vc_id,
            vc: VC { valid_since, valid_until, subject_did, subject_info, description, revoked: is_revoked },
        }),
{
    if state.registry_address.is_placeholder() {
        return Err(RegistryError::AuthorityNotConfigured);
    }
    let new_vc = VC {
        valid_since,
        valid_until,
        subject_did,
        subject_info,
        description,
        revoked: is_revoked,
    };
    Ok(
        AuthorizationRequest {
            authority: state.registry_address,
            did: issuer_did.clone(),
            caller: *sender,
            continuation: Continuation::UploadVc { issuer_did, vc_id, vc: new_vc },
        },
    )
}

/// Applies the authority's answer to an upload: on approval, stores the
/// credential unless the DID already holds its id.
pub fn upload_vc_callback(
    success: bool,
    state: &mut ContractState,
    issuer_did: String,
    vc_id: u128,
    new_vc: VC,
) -> (r: Result<(), RegistryError>)
    requires
        old(state).wf(),
    ensures
        final(state).wf(),
        (final(state)@, r) == upload_step(old(state)@, success, issuer_did@, vc_id, new_vc),
{
    if !success {
        return Err(RegistryError::AuthorizationDenied);
    }
    match state.vcs.insert(issuer_did, vc_id, new_vc) {
        Ok(()) => Ok(()),
        Err(e) => Err(e),
    }
}

/// Asks the authority whether the caller may act on the issuer DID, carrying
/// the id and the wanted flag; the store is left for the answer to change.
/// Fails with `AuthorityNotConfigured` while no authority address is set.
pub fn set_revoke(
    sender: &Address,
    state: &ContractState,
    issuer_did: String,
    vc_id: u128,
    is_revoked: bool,
) -> (r: Result<AuthorizationRequest, RegistryError>)
    ensures
        r is Err <==> state@.authority.is_blank(),
        r matches Err(e) ==> e == RegistryError::AuthorityNotConfigured,
        r matches Ok(req) ==> asks(req, state@, *sender, issuer_did@) && req.continuation
            == (Continuation::SetRevoke { issuer_did, vc_id, is_revoked }),
{
    if state.registry_address.is_placeholder() {
        return Err(RegistryError::AuthorityNotConfigured);
    }
    Ok(
        AuthorizationRequest {
            authority: state.registry_address,
            did: issuer_did.clone(),
            caller: *sender,
            continuation: Continuation::SetRevoke { issuer_did, vc_id, is_revoked },
        },
    )
}

/// Applies the authority's answer to a revocation update: on approval, sets
/// the flag of a credential that the DID holds.
pub fn set_revoke_callback(
    success: bool,
    state: &mut ContractState,
    issuer_did: String,
    vc_id: u128,
    is_revoked: bool,
) -> (r: Result<(), RegistryError>)
    requires
        old(state).wf(),
    ensures
        final(state).wf(),
        (final(state)@, r) == revoke_step(old(state)@, success, issuer_did@, vc_id, is_revoked),
{
    if !success {
        return Err(RegistryError::AuthorizationDenied);
    }
    match state.vcs.set_revoked(&issuer_did, vc_id, is_revoked) {
        Ok(()) => Ok(()),
        Err(e) => Err(e),
    }
}

/// Runs the continuation that the authority's answer resumes.
pub fn resume(success: bool, state: &mut ContractState, continuation: Continuation) -> (r: Result<
    (),
    RegistryError,
>)
    requires
        old(state).wf(),
    ensures
        final(state).wf(),
        match continuation {
            Continuation::UploadVc { issuer_did, vc_id, vc } => (final(state)@, r) == upload_step(
                old(state)@,
                success,
                issuer_did@,
                vc_id,
                vc,
            ),
            Continuation::SetRevoke { issuer_did, vc_id, is_revoked } => (final(state)@, r)
                == revoke_step(old(state)@, success, issuer_did@, vc_id, is_revoked),
        },
{
    match continuation {
        Continuation::UploadVc { issuer_did, vc_id, vc } => upload_vc_callback(
            success,
            state,
            issuer_did,
            vc_id,
            vc,
        ),
        Continuation::SetRevoke { issuer_did, vc_id, is_revoked } => set_revoke_callback(
            success,
            state,
            issuer_did,
            vc_id,
            is_revoked,
        ),
    }
}

} // verus!
