use vstd::prelude::*;

verus! {

/// Why an operation of the registry did not take effect.
#[derive(Clone, Copy, Debug, PartialEq, Eq, Structural)]
pub enum RegistryError {
    /// The caller is not the owner of the registry.
    NotAuthorized,
    /// No authority address has been configured yet.
    AuthorityNotConfigured,
    /// The DID already holds a credential with this id.
    AlreadyExists,
    /// The DID holds no credential with this id.
    NotFound,
    /// The authority answered that the caller may not act on the DID.
    AuthorizationDenied,
}

} // verus!
