//! A registry of verifiable credentials kept per subject DID, whose every
//! change is first cleared by an external authority contract.
//!
//! An entry point (`upload_vc`, `set_revoke`) changes nothing: it returns an
//! `AuthorizationRequest` that carries the whole continuation. The store is
//! changed only when the authority's answer is handed back to the matching
//! callback (or to `resume`), which checks the store as it stands then.

mod address;
mod credential;
mod credential_set;
mod error;
mod laws;
mod registry;
mod store;

pub use address::{Address, AddressType};
pub use credential::{SubjectInfo, VC};
pub use credential_set::CredentialSet;
pub use error::RegistryError;
pub use laws::{
    lemma_denied_answer_changes_nothing, lemma_duplicate_upload_rejected,
    lemma_non_owner_cannot_configure, lemma_records_persist, lemma_revoke_idempotent,
    lemma_revoke_unknown_not_found,
};
pub use registry::{
    asks, configure_registry_address, configure_step, initialize, resume, revoke_step,
    set_revoke, set_revoke_callback, upload_step, upload_vc, upload_vc_callback,
    AuthorizationRequest, Continuation, ContractState, RegistryView, AUTHORITY_CHECK_SHORTNAME,
    SET_REVOKE_CALLBACK_SHORTNAME, UPLOAD_VC_CALLBACK_SHORTNAME,
};
pub use store::{credentials_of, holds, CredentialStore};
