use vstd::prelude::*;

verus! {

/// One named property of a credential's subject.
#[derive(Clone, Debug, PartialEq, Eq)]
pub struct SubjectInfo {
    pub property_name: String,
    pub property_value: String,
}

/// A verifiable credential as stored under its issuer's DID.
#[derive(Clone, Debug, PartialEq, Eq)]
pub struct VC {
    pub valid_since: String,
    pub valid_until: String,
    pub subject_did: String,
    pub subject_info: Vec<SubjectInfo>,
    pub description: String,
    pub revoked: bool,
}

impl VC {
    /// The same credential with only its revocation flag replaced.
    pub open spec fn with_revoked(self, flag: bool) -> VC {
        VC { revoked: flag, ..self }
    }
}

} // verus!
