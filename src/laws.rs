use vstd::prelude::*;
use crate::address::Address;
use crate::credential::VC;
use crate::error::RegistryError;
use crate::registry::{configure_step, revoke_step, upload_step, RegistryView};
use crate::store::holds;

verus! {

/// Once an upload of an id under a DID has succeeded, no later upload of the
/// same id under the same DID succeeds: an approved one fails with
/// `AlreadyExists`, and the stored credential stays the first one.
pub proof fn lemma_duplicate_upload_rejected(
    s: RegistryView,
    did: Seq<char>,
    id: u128,
    first: VC,
    second: VC,
    success: bool,
)
    requires
        upload_step(s, true, did, id, first).1 is Ok,
    ensures
        ({
            let s1 = upload_step(s, true, did, id, first).0;
            &&& holds(s1.credentials, did, id)
            &&& s1.credentials[did][id] == first
            &&& upload_step(s1, success, did, id, second).0 == s1
            &&& upload_step(s1, success, did, id, second).1 is Err
            &&& success ==> upload_step(s1, success, did, id, second).1 == Err::<
                (),
                RegistryError,
            >(RegistryError::AlreadyExists)
        }),
{
}

/// A revocation update of an id that the DID does not hold changes nothing,
/// and when approved fails with `NotFound`.
pub proof fn lemma_revoke_unknown_not_found(
    s: RegistryView,
    did: Seq<char>,
    id: u128,
    flag: bool,
    success: bool,
)
    requires
        !holds(s.credentials, did, id),
    ensures
        revoke_step(s, success, did, id, flag).0 == s,
        !holds(revoke_step(s, success, did, id, flag).0.credentials, did, id),
        success ==> revoke_step(s, success, did, id, flag).1 == Err::<(), RegistryError>(
            RegistryError::NotFound,
        ),
{
}

/// Setting the same revocation flag twice in a row leaves the registry as
/// setting it once does, and the update touches no field of the credential
/// but its flag.
pub proof fn lemma_revoke_idempotent(s: RegistryView, did: Seq<char>, id: u128, flag: bool)
    ensures
        ({
            let s1 = revoke_step(s, true, did, id, flag).0;
            &&& revoke_step(s1, true, did, id, flag).0 == s1
            &&& holds(s.credentials, did, id) ==> {
                let before = s.credentials[did][id];
                let after = s1.credentials[did][id];
                &&& after.revoked == flag
                &&& after.valid_since == before.valid_since
                &&& after.valid_until == before.valid_until
                &&& after.subject_did == before.subject_did
                &&& after.subject_info == before.subject_info
                &&& after.description == before.description
            }
        }),
{
    let s1 = revoke_step(s, true, did, id, flag).0;
    if holds(s.credentials, did, id) {
        let inner = s1.credentials[did];
        assert(inner[id].with_revoked(flag) == inner[id]);
        assert(inner.insert(id, inner[id].with_revoked(flag)) =~= inner);
        assert(s1.credentials.insert(did, inner) =~= s1.credentials);
    }
}

/// An authority answer that denies leaves the registry as it was, whatever
/// the continuation it resumes.
pub proof fn lemma_denied_answer_changes_nothing(
    s: RegistryView,
    did: Seq<char>,
    id: u128,
    vc: VC,
    flag: bool,
)
    ensures
        upload_step(s, false, did, id, vc) == (s, Err::<(), RegistryError>(
            RegistryError::AuthorizationDenied,
        )),
        revoke_step(s, false, did, id, flag) == (s, Err::<(), RegistryError>(
            RegistryError::AuthorizationDenied,
        )),
{
}

/// Only the owner may configure the authority: anyone else fails with
/// `NotAuthorized` and the configured address stays as it was.
pub proof fn lemma_non_owner_cannot_configure(s: RegistryView, sender: Address, target: Address)
    requires
        sender != s.owner,
    ensures
        configure_step(s, sender, target) == (s, Err::<(), RegistryError>(
            RegistryError::NotAuthorized,
        )),
        configure_step(s, sender, target).0.authority == s.authority,
{
}

/// A stored credential is never removed, and no answer of the authority
/// changes any of its fields but the revocation flag.
pub proof fn lemma_records_persist(
    s: RegistryView,
    success: bool,
    did: Seq<char>,
    id: u128,
    vc: VC,
    flag: bool,
    d: Seq<char>,
    k: u128,
)
    requires
        holds(s.credentials, d, k),
    ensures
        ({
            let u = upload_step(s, success, did, id, vc).0;
            &&& holds(u.credentials, d, k)
            &&& u.credentials[d][k] == s.credentials[d][k]
        }),
        ({
            let r = revoke_step(s, success, did, id, flag).0;
            &&& holds(r.credentials, d, k)
            &&& r.credentials[d][k] == s.credentials[d][k].with_revoked(
                r.credentials[d][k].revoked,
            )
        }),
{
    assert(s.credentials[d][k].with_revoked(s.credentials[d][k].revoked) == s.credentials[d][k]);
}

} // verus!
