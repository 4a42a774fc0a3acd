use signatrust::entity::{DataKey, KeyState, Visibility};
use signatrust::errors::Error;
use signatrust::repository::DataKeyRepository;
use signatrust::sign::KeyType;

fn sample_key(name: &str, key_type: KeyType, visibility: Visibility, user: i32) -> DataKey {
    DataKey {
        id: 0,
        name: name.to_owned(),
        description: "a test key".to_owned(),
        user,
        attributes: "{}".to_owned(),
        key_type,
        fingerprint: format!("fp-{}", name),
        private_key: "private".to_owned(),
        public_key: "public".to_owned(),
        certificate: "certificate".to_owned(),
        create_at: 1_700_000_000,
        expire_at: Some(1_800_000_000),
        key_state: KeyState::Disabled,
        visibility,
    }
}

#[test]
fn create_assigns_id_and_enables() {
    let mut repo = DataKeyRepository::new();
    let created = repo
        .create(sample_key("k", KeyType::X509, Visibility::Public, 10))
        .unwrap();
    assert_eq!(created.id, 1);
    assert_eq!(created.key_state, KeyState::Enabled);
    assert_eq!(created.visibility, Visibility::Public);
    assert_eq!(created.name, "k".to_owned());
    let second = repo
        .create(sample_key("k2", KeyType::PGP, Visibility::Private, 11))
        .unwrap();
    assert_eq!(second.id, 2);
}

#[test]
fn create_rejects_missing_fields() {
    let mut repo = DataKeyRepository::new();
    let mut no_name = sample_key("k", KeyType::X509, Visibility::Public, 10);
    no_name.name = String::new();
    assert!(matches!(repo.create(no_name), Err(Error::ValidationError(_))));
    let mut no_fp = sample_key("k", KeyType::X509, Visibility::Public, 10);
    no_fp.fingerprint = String::new();
    assert!(matches!(repo.create(no_fp), Err(Error::ValidationError(_))));
}

#[test]
fn get_by_id_absent_is_not_found() {
    let repo = DataKeyRepository::new();
    assert!(matches!(repo.get_by_id(7), Err(Error::NotFound)));
}

#[test]
fn update_state_toggles_but_never_revives() {
    let mut repo = DataKeyRepository::new();
    let k = repo
        .create(sample_key("k", KeyType::X509, Visibility::Private, 10))
        .unwrap();
    repo.update_state(k.id, KeyState::Disabled).unwrap();
    assert_eq!(repo.get_by_id(k.id).unwrap().key_state, KeyState::Disabled);
    repo.update_state(k.id, KeyState::Enabled).unwrap();
    assert_eq!(repo.get_by_id(k.id).unwrap().key_state, KeyState::Enabled);
    // updating an absent record is a silent no-op
    repo.update_state(99, KeyState::Disabled).unwrap();
    assert!(matches!(repo.get_by_id(99), Err(Error::NotFound)));
}

#[test]
fn delete_private_key_requires_owner_and_visibility() {
    let mut repo = DataKeyRepository::new();
    let private = repo
        .create(sample_key("p", KeyType::PGP, Visibility::Private, 10))
        .unwrap();
    let public = repo
        .create(sample_key("q", KeyType::PGP, Visibility::Public, 10))
        .unwrap();
    // wrong owner: no-op
    repo.delete_private_key(private.id, 11).unwrap();
    assert!(repo.get_by_id(private.id).is_ok());
    // public visibility: no-op
    repo.delete_private_key(public.id, 10).unwrap();
    assert!(repo.get_by_id(public.id).is_ok());
    // the owner deletes the private key
    repo.delete_private_key(private.id, 10).unwrap();
    assert!(matches!(repo.get_by_id(private.id), Err(Error::NotFound)));
}

#[test]
fn request_delete_is_idempotent_per_approver() {
    let mut repo = DataKeyRepository::new();
    let k = repo
        .create(sample_key("k", KeyType::X509, Visibility::Public, 10))
        .unwrap();
    repo.request_delete_public_key(1, k.id).unwrap();
    repo.request_delete_public_key(1, k.id).unwrap();
    assert_eq!(repo.request_delete_count(k.id), 1);
    assert!(repo.has_request_delete(1, k.id));
    assert_eq!(
        repo.get_by_id(k.id).unwrap().key_state,
        KeyState::PendingDelete
    );
}

#[test]
fn quorum_deletes_at_third_distinct_vote() {
    let mut repo = DataKeyRepository::new();
    let k = repo
        .create(sample_key("k", KeyType::X509, Visibility::Public, 10))
        .unwrap();
    repo.request_delete_public_key(1, k.id).unwrap();
    assert_eq!(repo.get_by_id(k.id).unwrap().key_state, KeyState::PendingDelete);
    repo.request_delete_public_key(2, k.id).unwrap();
    assert_eq!(repo.get_by_id(k.id).unwrap().key_state, KeyState::PendingDelete);
    assert_eq!(repo.request_delete_count(k.id), 2);
    repo.request_delete_public_key(3, k.id).unwrap();
    assert_eq!(repo.request_delete_count(k.id), 3);
    assert!(matches!(repo.get_by_id(k.id), Err(Error::NotFound)));
}

#[test]
fn cancel_with_last_vote_disables_key() {
    let mut repo = DataKeyRepository::new();
    let k = repo
        .create(sample_key("k", KeyType::X509, Visibility::Public, 10))
        .unwrap();
    repo.request_delete_public_key(1, k.id).unwrap();
    assert_eq!(repo.get_by_id(k.id).unwrap().key_state, KeyState::PendingDelete);
    repo.cancel_delete_public_key(1, k.id).unwrap();
    assert_eq!(repo.request_delete_count(k.id), 0);
    assert_eq!(repo.get_by_id(k.id).unwrap().key_state, KeyState::Disabled);
}

#[test]
fn cancel_with_remaining_votes_keeps_state() {
    let mut repo = DataKeyRepository::new();
    let k = repo
        .create(sample_key("k", KeyType::X509, Visibility::Public, 10))
        .unwrap();
    repo.request_delete_public_key(1, k.id).unwrap();
    repo.request_delete_public_key(2, k.id).unwrap();
    repo.cancel_delete_public_key(1, k.id).unwrap();
    assert_eq!(repo.request_delete_count(k.id), 1);
    assert!(repo.has_request_delete(2, k.id));
    assert!(!repo.has_request_delete(1, k.id));
    assert_eq!(
        repo.get_by_id(k.id).unwrap().key_state,
        KeyState::PendingDelete
    );
}

#[test]
fn deleted_state_is_absorbing() {
    let mut repo = DataKeyRepository::new();
    let k = repo
        .create(sample_key("k", KeyType::X509, Visibility::Public, 10))
        .unwrap();
    for approver in [1, 2, 3] {
        repo.request_delete_public_key(approver, k.id).unwrap();
    }
    assert!(matches!(repo.get_by_id(k.id), Err(Error::NotFound)));
    // no later operation revives the record
    repo.update_state(k.id, KeyState::Enabled).unwrap();
    assert!(matches!(repo.get_by_id(k.id), Err(Error::NotFound)));
    repo.request_delete_public_key(4, k.id).unwrap();
    assert!(matches!(repo.get_by_id(k.id), Err(Error::NotFound)));
    repo.cancel_delete_public_key(1, k.id).unwrap();
    repo.cancel_delete_public_key(2, k.id).unwrap();
    repo.cancel_delete_public_key(3, k.id).unwrap();
    repo.cancel_delete_public_key(4, k.id).unwrap();
    assert!(matches!(repo.get_by_id(k.id), Err(Error::NotFound)));
    repo.delete_private_key(k.id, 10).unwrap();
    assert!(matches!(repo.get_by_id(k.id), Err(Error::NotFound)));
}

#[test]
fn full_quorum_scenario_with_cancellation() {
    let mut repo = DataKeyRepository::new();
    let k = repo
        .create(sample_key("k", KeyType::X509, Visibility::Public, 10))
        .unwrap();
    assert_eq!(k.id, 1);
    // approver A requests deletion
    repo.request_delete_public_key(100, 1).unwrap();
    assert_eq!(repo.get_by_id(1).unwrap().key_state, KeyState::PendingDelete);
    assert_eq!(repo.request_delete_count(1), 1);
    // approver B joins
    repo.request_delete_public_key(101, 1).unwrap();
    assert_eq!(repo.get_by_id(1).unwrap().key_state, KeyState::PendingDelete);
    assert_eq!(repo.request_delete_count(1), 2);
    // approver A cancels: one vote remains, state is unchanged
    repo.cancel_delete_public_key(100, 1).unwrap();
    assert_eq!(repo.request_delete_count(1), 1);
    assert!(repo.has_request_delete(101, 1));
    assert_eq!(repo.get_by_id(1).unwrap().key_state, KeyState::PendingDelete);
    // approver C: two votes, still pending
    repo.request_delete_public_key(102, 1).unwrap();
    assert_eq!(repo.request_delete_count(1), 2);
    assert_eq!(repo.get_by_id(1).unwrap().key_state, KeyState::PendingDelete);
    // approver D: the third distinct vote deletes the key
    repo.request_delete_public_key(103, 1).unwrap();
    assert_eq!(repo.request_delete_count(1), 3);
    assert!(matches!(repo.get_by_id(1), Err(Error::NotFound)));
}

#[test]
fn request_delete_on_private_key_keeps_state() {
    let mut repo = DataKeyRepository::new();
    let k = repo
        .create(sample_key("p", KeyType::PGP, Visibility::Private, 10))
        .unwrap();
    repo.request_delete_public_key(1, k.id).unwrap();
    repo.request_delete_public_key(2, k.id).unwrap();
    repo.request_delete_public_key(3, k.id).unwrap();
    // the guard of every transition requires public visibility
    assert_eq!(repo.get_by_id(k.id).unwrap().key_state, KeyState::Enabled);
}

#[test]
fn listings_respect_visibility_and_soft_delete() {
    let mut repo = DataKeyRepository::new();
    let pub1 = repo
        .create(sample_key("a", KeyType::X509, Visibility::Public, 10))
        .unwrap();
    let priv1 = repo
        .create(sample_key("b", KeyType::X509, Visibility::Private, 10))
        .unwrap();
    let priv2 = repo
        .create(sample_key("c", KeyType::PGP, Visibility::Private, 11))
        .unwrap();
    let pub2 = repo
        .create(sample_key("d", KeyType::PGP, Visibility::Public, 11))
        .unwrap();

    let public = repo.get_public_keys().unwrap();
    assert_eq!(public.len(), 2);
    assert_eq!(public[0].id, pub1.id);
    assert_eq!(public[1].id, pub2.id);

    let of_10 = repo.get_private_keys(10).unwrap();
    assert_eq!(of_10.len(), 1);
    assert_eq!(of_10[0].id, priv1.id);

    // soft-deleted records disappear from listings
    repo.delete_private_key(priv2.id, 11).unwrap();
    assert_eq!(repo.get_private_keys(11).unwrap().len(), 0);
}

#[test]
fn enabled_lookup_finds_unique_match() {
    let mut repo = DataKeyRepository::new();
    let k = repo
        .create(sample_key("k1", KeyType::X509, Visibility::Public, 10))
        .unwrap();
    let found = repo
        .get_enabled_key_by_type_and_name("x509".to_owned(), "k1".to_owned())
        .unwrap();
    assert_eq!(found.id, k.id);
    // a disabled record is not an enabled match
    repo.update_state(k.id, KeyState::Disabled).unwrap();
    assert!(matches!(
        repo.get_enabled_key_by_type_and_name("x509".to_owned(), "k1".to_owned()),
        Err(Error::NotFound)
    ));
}

#[test]
fn enabled_lookup_never_returns_private_on_collision() {
    let mut repo = DataKeyRepository::new();
    repo.create(sample_key("k1", KeyType::X509, Visibility::Public, 10))
        .unwrap();
    let mut shadow = sample_key("k1", KeyType::X509, Visibility::Private, 11);
    shadow.fingerprint = "fp-other".to_owned();
    repo.create(shadow).unwrap();
    // both records are enabled matches: the lookup reports ambiguity rather
    // than handing back either record
    let r = repo.get_enabled_key_by_type_and_name("x509".to_owned(), "k1".to_owned());
    match r {
        Ok(k) => assert_eq!(k.visibility, Visibility::Public),
        Err(e) => assert!(matches!(e, Error::NotFound)),
    }
}

#[test]
fn enabled_lookup_distinguishes_key_types() {
    let mut repo = DataKeyRepository::new();
    repo.create(sample_key("k1", KeyType::PGP, Visibility::Public, 10))
        .unwrap();
    assert!(matches!(
        repo.get_enabled_key_by_type_and_name("x509".to_owned(), "k1".to_owned()),
        Err(Error::NotFound)
    ));
    assert!(repo
        .get_enabled_key_by_type_and_name("pgp".to_owned(), "k1".to_owned())
        .is_ok());
}
