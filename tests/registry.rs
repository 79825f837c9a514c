use pbc_vc_registry::{
    configure_registry_address, initialize, resume, set_revoke, set_revoke_callback, upload_vc,
    upload_vc_callback, Address, AddressType, Continuation, ContractState, CredentialStore,
    RegistryError, SubjectInfo, VC,
};

fn account(byte: u8) -> Address {
    Address { address_type: AddressType::Account, identifier: [byte; 20] }
}

fn authority() -> Address {
    Address { address_type: AddressType::PublicContract, identifier: [0xAA; 20] }
}

fn sample_vc(description: &str) -> VC {
    VC {
        valid_since: "2024-01-01".to_string(),
        valid_until: "2025-01-01".to_string(),
        subject_did: "did:x:subject".to_string(),
        subject_info: vec![SubjectInfo {
            property_name: "name".to_string(),
            property_value: "Alice".to_string(),
        }],
        description: description.to_string(),
        revoked: false,
    }
}

fn configured() -> ContractState {
    let owner = account(1);
    let mut state = initialize(owner);
    assert_eq!(configure_registry_address(&owner, &mut state, authority()), Ok(()));
    state
}

fn did(s: &str) -> String {
    s.to_string()
}

#[test]
fn initialize_binds_owner_and_leaves_authority_blank() {
    let state = initialize(account(1));
    assert!(*state.owner() == account(1));
    assert!(state.registry_address().is_placeholder());
    assert!(*state.registry_address() == account(0));
    assert_eq!(state.registry_address().address_type, AddressType::Account);
    assert_eq!(state.credential_count(&did("did:x:1")), 0);
}

#[test]
fn owner_configures_authority_repeatedly() {
    let owner = account(1);
    let mut state = initialize(owner);
    assert_eq!(configure_registry_address(&owner, &mut state, authority()), Ok(()));
    assert!(*state.registry_address() == authority());
    assert_eq!(configure_registry_address(&owner, &mut state, authority()), Ok(()));
    assert!(*state.registry_address() == authority());
    assert_eq!(configure_registry_address(&owner, &mut state, account(9)), Ok(()));
    assert!(*state.registry_address() == account(9));
}

#[test]
fn non_owner_cannot_configure_authority() {
    let mut state = configured();
    let r = configure_registry_address(&account(2), &mut state, account(9));
    assert_eq!(r, Err(RegistryError::NotAuthorized));
    assert!(*state.registry_address() == authority());
}

#[test]
fn address_kind_matters_for_ownership() {
    let owner = account(1);
    let mut state = initialize(owner);
    let other_kind = Address { address_type: AddressType::ZkContract, identifier: [1; 20] };
    let r = configure_registry_address(&other_kind, &mut state, authority());
    assert_eq!(r, Err(RegistryError::NotAuthorized));
    assert!(state.registry_address().is_placeholder());
}

#[test]
fn upload_before_configuration_fails() {
    let state = initialize(account(1));
    let r = upload_vc(
        &account(2),
        &state,
        did("did:x:1"),
        7,
        did("did:x:subject"),
        vec![],
        "a".to_string(),
        "b".to_string(),
        "test".to_string(),
        false,
    );
    assert!(matches!(r, Err(RegistryError::AuthorityNotConfigured)));
}

#[test]
fn set_revoke_before_configuration_fails() {
    let state = initialize(account(1));
    let r = set_revoke(&account(2), &state, did("did:x:1"), 7, true);
    assert!(matches!(r, Err(RegistryError::AuthorityNotConfigured)));
}

#[test]
fn upload_request_asks_authority_about_caller_and_did() {
    let state = configured();
    let caller = account(3);
    let req = upload_vc(
        &caller,
        &state,
        did("did:x:1"),
        7,
        did("did:x:subject"),
        vec![],
        "2024".to_string(),
        "2025".to_string(),
        "test".to_string(),
        false,
    )
    .unwrap();
    assert!(req.authority == authority());
    assert!(req.caller == caller);
    assert_eq!(req.did, "did:x:1");
    match req.continuation {
        Continuation::UploadVc { issuer_did, vc_id, vc } => {
            assert_eq!(issuer_did, "did:x:1");
            assert_eq!(vc_id, 7);
            assert_eq!(vc.description, "test");
            assert_eq!(vc.valid_since, "2024");
            assert_eq!(vc.valid_until, "2025");
            assert!(!vc.revoked);
        }
        Continuation::SetRevoke { .. } => panic!("wrong continuation"),
    }
    assert_eq!(state.credential_count(&did("did:x:1")), 0);
}

#[test]
fn set_revoke_request_carries_id_and_flag() {
    let state = configured();
    let req = set_revoke(&account(3), &state, did("did:x:1"), 7, true).unwrap();
    assert!(req.authority == authority());
    assert!(req.caller == account(3));
    assert_eq!(req.did, "did:x:1");
    match req.continuation {
        Continuation::SetRevoke { issuer_did, vc_id, is_revoked } => {
            assert_eq!(issuer_did, "did:x:1");
            assert_eq!(vc_id, 7);
            assert!(is_revoked);
        }
        Continuation::UploadVc { .. } => panic!("wrong continuation"),
    }
}

#[test]
fn scenario_upload_then_duplicate_rejected() {
    let mut state = configured();
    let req = upload_vc(
        &account(3),
        &state,
        did("did:x:1"),
        7,
        did("did:x:subject"),
        vec![],
        "2024".to_string(),
        "2025".to_string(),
        "test".to_string(),
        false,
    )
    .unwrap();
    assert_eq!(resume(true, &mut state, req.continuation), Ok(()));
    assert_eq!(state.credential_count(&did("did:x:1")), 1);
    let stored = state.credential(&did("did:x:1"), 7).unwrap().clone();
    assert!(!stored.revoked);
    assert_eq!(stored.description, "test");

    let again = upload_vc(
        &account(3),
        &state,
        did("did:x:1"),
        7,
        did("did:x:other"),
        vec![],
        "x".to_string(),
        "y".to_string(),
        "second".to_string(),
        true,
    )
    .unwrap();
    assert_eq!(resume(true, &mut state, again.continuation), Err(RegistryError::AlreadyExists));
    assert_eq!(state.credential_count(&did("did:x:1")), 1);
    assert_eq!(*state.credential(&did("did:x:1"), 7).unwrap(), stored);
}

#[test]
fn scenario_denied_revocation_keeps_flag() {
    let mut state = configured();
    assert_eq!(upload_vc_callback(true, &mut state, did("did:x:1"), 7, sample_vc("test")), Ok(()));
    let req = set_revoke(&account(3), &state, did("did:x:1"), 7, true).unwrap();
    assert_eq!(resume(false, &mut state, req.continuation), Err(RegistryError::AuthorizationDenied));
    assert!(!state.credential(&did("did:x:1"), 7).unwrap().revoked);
}

#[test]
fn denied_upload_stores_nothing() {
    let mut state = configured();
    let r = upload_vc_callback(false, &mut state, did("did:x:1"), 7, sample_vc("test"));
    assert_eq!(r, Err(RegistryError::AuthorizationDenied));
    assert!(state.credential(&did("did:x:1"), 7).is_none());
    assert_eq!(state.credential_count(&did("did:x:1")), 0);
}

#[test]
fn revoke_unknown_credential_is_not_found() {
    let mut state = configured();
    let r = set_revoke_callback(true, &mut state, did("did:x:1"), 7, true);
    assert_eq!(r, Err(RegistryError::NotFound));
    assert!(state.credential(&did("did:x:1"), 7).is_none());
    assert_eq!(upload_vc_callback(true, &mut state, did("did:x:1"), 8, sample_vc("t")), Ok(()));
    let r = set_revoke_callback(true, &mut state, did("did:x:1"), 7, true);
    assert_eq!(r, Err(RegistryError::NotFound));
    assert!(state.credential(&did("did:x:1"), 7).is_none());
    assert_eq!(state.credential_count(&did("did:x:1")), 1);
}

#[test]
fn revoke_twice_same_as_once_and_other_fields_kept() {
    let mut state = configured();
    let uploaded = sample_vc("test");
    assert_eq!(upload_vc_callback(true, &mut state, did("did:x:1"), 7, uploaded.clone()), Ok(()));
    assert_eq!(set_revoke_callback(true, &mut state, did("did:x:1"), 7, true), Ok(()));
    let once = state.credential(&did("did:x:1"), 7).unwrap().clone();
    assert_eq!(set_revoke_callback(true, &mut state, did("did:x:1"), 7, true), Ok(()));
    let twice = state.credential(&did("did:x:1"), 7).unwrap().clone();
    assert_eq!(once, twice);
    assert!(twice.revoked);
    let mut expected = uploaded;
    expected.revoked = true;
    assert_eq!(twice, expected);
}

#[test]
fn revocation_can_be_lifted() {
    let mut state = configured();
    let mut vc = sample_vc("test");
    vc.revoked = true;
    assert_eq!(upload_vc_callback(true, &mut state, did("did:x:1"), 7, vc), Ok(()));
    assert_eq!(set_revoke_callback(true, &mut state, did("did:x:1"), 7, false), Ok(()));
    assert!(!state.credential(&did("did:x:1"), 7).unwrap().revoked);
}

#[test]
fn same_id_under_different_dids_is_independent() {
    let mut state = configured();
    assert_eq!(upload_vc_callback(true, &mut state, did("did:x:1"), 7, sample_vc("one")), Ok(()));
    assert_eq!(upload_vc_callback(true, &mut state, did("did:x:2"), 7, sample_vc("two")), Ok(()));
    assert_eq!(set_revoke_callback(true, &mut state, did("did:x:2"), 7, true), Ok(()));
    assert_eq!(state.credential(&did("did:x:1"), 7).unwrap().description, "one");
    assert!(!state.credential(&did("did:x:1"), 7).unwrap().revoked);
    assert_eq!(state.credential(&did("did:x:2"), 7).unwrap().description, "two");
    assert!(state.credential(&did("did:x:2"), 7).unwrap().revoked);
}

#[test]
fn dids_match_exactly() {
    let mut state = configured();
    assert_eq!(upload_vc_callback(true, &mut state, did("did:x:1"), 7, sample_vc("one")), Ok(()));
    assert!(state.credential(&did("DID:x:1"), 7).is_none());
    assert!(state.credential(&did("did:x:1 "), 7).is_none());
    assert_eq!(state.credential_count(&did("did:x:1")), 1);
}

#[test]
fn many_ids_in_any_order_including_extremes() {
    let mut state = configured();
    let ids: [u128; 6] = [50, 3, u128::MAX, 0, 20, 4];
    for id in ids {
        assert_eq!(upload_vc_callback(true, &mut state, did("did:x:1"), id, sample_vc("v")), Ok(()));
    }
    assert_eq!(state.credential_count(&did("did:x:1")), 6);
    for id in ids {
        assert!(state.credential(&did("did:x:1"), id).is_some());
        assert_eq!(
            upload_vc_callback(true, &mut state, did("did:x:1"), id, sample_vc("w")),
            Err(RegistryError::AlreadyExists)
        );
    }
    assert!(state.credential(&did("did:x:1"), 5).is_none());
    assert_eq!(state.credential(&did("did:x:1"), u128::MAX).unwrap().description, "v");
}

#[test]
fn empty_did_is_an_ordinary_key() {
    let mut state = configured();
    assert_eq!(upload_vc_callback(true, &mut state, did(""), 1, sample_vc("e")), Ok(()));
    assert_eq!(state.credential_count(&did("")), 1);
    assert_eq!(state.credential_count(&did("did:x:1")), 0);
}

#[test]
fn enumeration_lists_each_did_once_and_ids_in_order() {
    let mut state = configured();
    for id in [9u128, 2, 5] {
        assert_eq!(upload_vc_callback(true, &mut state, did("did:x:1"), id, sample_vc("a")), Ok(()));
    }
    assert_eq!(upload_vc_callback(true, &mut state, did("did:x:2"), 1, sample_vc("b")), Ok(()));
    assert_eq!(state.dids(), vec![did("did:x:1"), did("did:x:2")]);
    assert_eq!(state.credential_ids(&did("did:x:1")), vec![2, 5, 9]);
    assert_eq!(state.credential_ids(&did("did:x:2")), vec![1]);
    assert_eq!(state.credential_ids(&did("did:x:3")), Vec::<u128>::new());
}

#[test]
fn stored_records_persist_across_other_operations() {
    let mut state = configured();
    let first = sample_vc("first");
    assert_eq!(upload_vc_callback(true, &mut state, did("did:x:1"), 1, first.clone()), Ok(()));
    assert_eq!(upload_vc_callback(true, &mut state, did("did:x:1"), 2, sample_vc("b")), Ok(()));
    assert_eq!(set_revoke_callback(true, &mut state, did("did:x:1"), 2, true), Ok(()));
    assert_eq!(
        upload_vc_callback(true, &mut state, did("did:x:1"), 1, sample_vc("replace")),
        Err(RegistryError::AlreadyExists)
    );
    assert_eq!(set_revoke_callback(false, &mut state, did("did:x:1"), 1, true), Err(RegistryError::AuthorizationDenied));
    assert_eq!(*state.credential(&did("did:x:1"), 1).unwrap(), first);
    assert!(state.credential(&did("did:x:1"), 2).unwrap().revoked);
    assert_eq!(state.credential(&did("did:x:1"), 2).unwrap().description, "b");
}

#[test]
fn placeholder_authority_counts_as_unconfigured() {
    let owner = account(1);
    let mut state = initialize(owner);
    assert_eq!(configure_registry_address(&owner, &mut state, account(0)), Ok(()));
    assert!(matches!(
        set_revoke(&account(3), &state, did("did:x:1"), 7, true),
        Err(RegistryError::AuthorityNotConfigured)
    ));
    let mut almost = account(0);
    almost.identifier[19] = 1;
    assert_eq!(configure_registry_address(&owner, &mut state, almost), Ok(()));
    assert!(set_revoke(&account(3), &state, did("did:x:1"), 7, true).is_ok());
}

#[test]
fn continuations_name_their_callbacks() {
    let state = configured();
    let up = upload_vc(
        &account(3),
        &state,
        did("did:x:1"),
        7,
        did("did:x:subject"),
        vec![],
        "a".to_string(),
        "b".to_string(),
        "c".to_string(),
        false,
    )
    .unwrap();
    assert_eq!(up.continuation.callback_shortname(), 0x12);
    let rv = set_revoke(&account(3), &state, did("did:x:1"), 7, true).unwrap();
    assert_eq!(rv.continuation.callback_shortname(), 0x13);
}

#[test]
fn from_parts_restores_owner_authority_and_credentials() {
    let mut vcs = CredentialStore::new();
    assert_eq!(vcs.insert(did("did:x:1"), 7, sample_vc("kept")), Ok(()));
    assert_eq!(vcs.insert(did("did:x:1"), 7, sample_vc("dup")), Err(RegistryError::AlreadyExists));
    let mut state = ContractState::from_parts(account(1), authority(), vcs);
    assert!(*state.owner() == account(1));
    assert!(*state.registry_address() == authority());
    assert_eq!(state.credential(&did("did:x:1"), 7).unwrap().description, "kept");
    assert_eq!(
        upload_vc_callback(true, &mut state, did("did:x:1"), 7, sample_vc("again")),
        Err(RegistryError::AlreadyExists)
    );
}
