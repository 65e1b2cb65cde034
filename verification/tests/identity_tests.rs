use polymesh_ledger::asset::registry::Accepted;
use polymesh_ledger::asset::types::TickerRegistrationConfig;
use polymesh_ledger::asset::Module as Asset;
use polymesh_ledger::error::Error;
use polymesh_ledger::identity::keys::id_less;
use polymesh_ledger::identity::members::normalize;
use polymesh_ledger::identity::{
    ClaimRecord, ClaimValue, DataTypes, LinkedKeyInfo, Module as Identity, Permission, SignerType,
    SigningItem, SigningItemWithAuth, TargetIdAuthorization,
};
use polymesh_ledger::primitives::{
    AccountKey, Authorization, AuthorizationData, AuthorizationError, Document, IdentityId, Link,
    LinkData, Signatory,
};
use polymesh_ledger::statistics::Module as Statistics;
use polymesh_ledger::ticker::Ticker;

fn key(n: u8) -> AccountKey {
    AccountKey([n; 32])
}

fn did(n: u8) -> IdentityId {
    IdentityId::from_u128(1000 + n as u128)
}

fn id(n: u8) -> Signatory {
    Signatory::from_identity(did(n))
}

/// A registry in which `key(n)` is the master key of `did(n)` for `n` in 1..=3.
fn registry() -> Identity {
    let mut r = Identity::new();
    for n in 1..=3u8 {
        r._register_did(key(n), &vec![], 0, did(n)).unwrap();
    }
    r
}

fn item(signer: Signatory, signer_type: SignerType, permissions: Vec<Permission>) -> SigningItem {
    SigningItem {
        signer,
        signer_type,
        permissions,
    }
}

fn auth_pointers(r: &Identity, target: &Signatory, id: u64) -> (u64, u64) {
    let a = r.authorizations(target, id);
    (a.previous_authorization, a.next_authorization)
}

fn link_pointers(r: &Identity, target: &Signatory, id: u64) -> (u64, u64) {
    let l = r.links(target, id).unwrap();
    (l.previous_link, l.next_link)
}

#[test]
fn counter_starts_at_one_and_serves_all_records() {
    let mut r = Identity::new();
    assert_eq!(r.multi_purpose_nonce(), 1);
    let a = r.add_auth(id(1), id(2), AuthorizationData::NoData, None);
    let l = r.add_link(id(2), LinkData::NoData, None);
    let b = r.add_auth(id(1), id(3), AuthorizationData::NoData, None);
    assert_eq!((a, l, b), (2, 3, 4));
    assert_eq!(r.multi_purpose_nonce(), 4);
    r.remove_link(id(2), l);
    let again = r.add_link(id(2), LinkData::NoData, None);
    assert_eq!(again, 5);
}

#[test]
fn registration_of_an_identity_advances_the_counter() {
    let mut r = Identity::new();
    assert_eq!(r._register_did(key(1), &vec![], 3, did(1)), Ok(()));
    assert_eq!(r.multi_purpose_nonce(), 11);
    assert_eq!(r.get_identity(&key(1)), Some(did(1)));
    assert!(r.did_exists(did(1)));
    assert!(r.has_valid_kyc(did(1)));
    assert!(!r.has_valid_kyc(did(2)));
    assert_eq!(r.did_records(did(1)).master_key, key(1));
    assert!(r.is_master_key(did(1), &key(1)));
    assert!(!r.is_master_key(did(1), &key(2)));
    assert_eq!(
        r.key_to_identity_ids(&key(1)),
        Some(LinkedKeyInfo::Unique(did(1)))
    );
}

#[test]
fn registration_of_an_identity_is_turned_down_for_its_reasons() {
    let mut r = registry();
    let before = r.multi_purpose_nonce();
    assert_eq!(
        r._register_did(key(1), &vec![], 0, did(9)),
        Err(Error::MasterKeyAlreadyLinked)
    );
    assert_eq!(
        r._register_did(
            key(4),
            &vec![item(
                Signatory::from_key(key(4)),
                SignerType::External,
                vec![]
            )],
            0,
            did(4)
        ),
        Err(Error::SigningKeysContainMasterKey)
    );
    assert_eq!(
        r._register_did(key(4), &vec![], 0, did(1)),
        Err(Error::DidMustBeUnique)
    );
    assert_eq!(
        r._register_did(
            key(4),
            &vec![
                item(id(2), SignerType::Identity, vec![]),
                item(Signatory::from_key(key(1)), SignerType::External, vec![])
            ],
            0,
            did(4)
        ),
        Err(Error::AlreadyLinked)
    );
    assert_eq!(r.multi_purpose_nonce(), before);
    assert!(!r.did_exists(did(4)));
    assert_eq!(r.get_identity(&key(4)), None);
    assert_eq!(r.pre_authorized_join_did(&id(2)).list, vec![]);
}

#[test]
fn authorizations_are_threaded_in_order() {
    let mut r = registry();
    let target = id(2);
    assert_eq!(r.last_authorization(&target), 0);
    let a = r.add_auth(id(1), target, AuthorizationData::NoData, None);
    let b = r.add_auth(id(3), target, AuthorizationData::AddMultiSigSigner, Some(5));
    let c = r.add_auth(id(1), target, AuthorizationData::NoData, None);
    assert!(a < b && b < c);
    assert_eq!(r.last_authorization(&target), c);
    assert_eq!(auth_pointers(&r, &target, a), (0, b));
    assert_eq!(auth_pointers(&r, &target, b), (a, c));
    assert_eq!(auth_pointers(&r, &target, c), (b, 0));
    assert_eq!(
        r.authorizations(&target, b),
        Authorization {
            authorization_data: AuthorizationData::AddMultiSigSigner,
            authorized_by: id(3),
            expiry: Some(5),
            next_authorization: c,
            previous_authorization: a,
        }
    );
    // Another target has a list of its own.
    let d = r.add_auth(id(2), id(3), AuthorizationData::NoData, None);
    assert_eq!(auth_pointers(&r, &id(3), d), (0, 0));
    assert_eq!(r.last_authorization(&target), c);

    // The middle record is spliced out.
    r.remove_auth(target, b, c, a);
    assert!(!r.authorization_exists(&target, b));
    assert_eq!(r.authorizations(&target, b), Authorization::default());
    assert_eq!(auth_pointers(&r, &target, a), (0, c));
    assert_eq!(auth_pointers(&r, &target, c), (a, 0));
    // The tail.
    r.remove_auth(target, c, 0, a);
    assert_eq!(r.last_authorization(&target), a);
    assert_eq!(auth_pointers(&r, &target, a), (0, 0));
    // The only record.
    r.remove_auth(target, a, 0, 0);
    assert_eq!(r.last_authorization(&target), 0);
    assert!(!r.authorization_exists(&target, a));
    let e = r.add_auth(id(1), target, AuthorizationData::NoData, None);
    assert!(e > d);
    assert_eq!(auth_pointers(&r, &target, e), (0, 0));
}

#[test]
fn head_of_a_list_is_removed() {
    let mut r = registry();
    let target = Signatory::from_key(key(7));
    let a = r.add_auth(id(1), target, AuthorizationData::NoData, None);
    let b = r.add_auth(id(1), target, AuthorizationData::NoData, None);
    r.remove_auth(target, a, b, 0);
    assert_eq!(auth_pointers(&r, &target, b), (0, 0));
    assert_eq!(r.last_authorization(&target), b);
}

#[test]
fn consuming_checks_existence_giver_and_expiry() {
    let mut r = registry();
    let target = id(2);
    let a = r.add_auth(id(1), target, AuthorizationData::NoData, Some(100));
    let b = r.add_auth(id(1), target, AuthorizationData::NoData, None);
    assert_eq!(
        r.consume_auth(id(1), target, b + 1, 0),
        Err(AuthorizationError::Invalid)
    );
    assert_eq!(
        r.consume_auth(id(1), id(3), a, 0),
        Err(AuthorizationError::Invalid)
    );
    assert_eq!(
        r.consume_auth(id(3), target, a, 0),
        Err(AuthorizationError::Unauthorized)
    );
    assert_eq!(
        r.consume_auth(id(1), target, a, 100),
        Err(AuthorizationError::Expired)
    );
    assert_eq!(
        r.consume_auth(id(1), target, a, 101),
        Err(AuthorizationError::Expired)
    );
    // Nothing has changed.
    assert_eq!(auth_pointers(&r, &target, a), (0, b));
    assert_eq!(auth_pointers(&r, &target, b), (a, 0));
    assert_eq!(r.last_authorization(&target), b);

    assert_eq!(r.consume_auth(id(1), target, a, 99), Ok(()));
    assert!(!r.authorization_exists(&target, a));
    assert_eq!(auth_pointers(&r, &target, b), (0, 0));
    assert_eq!(
        r.consume_auth(id(1), target, a, 99),
        Err(AuthorizationError::Invalid)
    );
    assert_eq!(r.consume_auth(id(1), target, b, u64::MAX), Ok(()));
    assert_eq!(r.last_authorization(&target), 0);
}

#[test]
fn links_are_threaded_in_order() {
    let mut r = registry();
    let target = id(1);
    let doc = |n: &[u8]| {
        LinkData::DocumentOwned(Document {
            name: n.to_vec(),
            uri: b"uri".to_vec(),
            hash: b"hash".to_vec(),
        })
    };
    assert_eq!(r.last_link(&target), 0);
    assert_eq!(r.links(&target, 1), None);
    let a = r.add_link(target, doc(b"a"), None);
    let b = r.add_link(target, LinkData::TickerOwned(Ticker::from_slice(b"T")), Some(9));
    let c = r.add_link(target, doc(b"c"), None);
    let d = r.add_link(target, LinkData::NoData, None);
    assert_eq!(link_pointers(&r, &target, a), (0, b));
    assert_eq!(link_pointers(&r, &target, b), (a, c));
    assert_eq!(link_pointers(&r, &target, c), (b, d));
    assert_eq!(link_pointers(&r, &target, d), (c, 0));
    assert_eq!(r.last_link(&target), d);
    assert_eq!(
        r.links(&target, b),
        Some(&Link {
            link_data: LinkData::TickerOwned(Ticker::from_slice(b"T")),
            expiry: Some(9),
            next_link: c,
            previous_link: a
        })
    );

    r.remove_link(target, b);
    assert!(!r.link_exists(&target, b));
    assert_eq!(link_pointers(&r, &target, a), (0, c));
    assert_eq!(link_pointers(&r, &target, c), (a, d));
    // A link that does not exist is not removed.
    r.remove_link(target, b);
    r.remove_link(id(2), a);
    assert_eq!(link_pointers(&r, &target, a), (0, c));
    assert_eq!(r.last_link(&target), d);

    r.update_link(target, c, doc(b"new"));
    assert_eq!(r.links(&target, c).unwrap().link_data, doc(b"new"));
    assert_eq!(link_pointers(&r, &target, c), (a, d));
    r.update_link(target, b, doc(b"gone"));
    assert!(!r.link_exists(&target, b));

    r.remove_link(target, d);
    assert_eq!(r.last_link(&target), c);
    assert_eq!(link_pointers(&r, &target, c), (a, 0));
    r.remove_link(target, a);
    assert_eq!(link_pointers(&r, &target, c), (0, 0));
    r.remove_link(target, c);
    assert_eq!(r.last_link(&target), 0);
}

#[test]
fn master_key_and_identity_are_always_authorized() {
    let mut r = registry();
    assert!(r.is_signer_authorized(did(1), &Signatory::from_key(key(1))));
    assert!(r.is_signer_authorized(did(1), &id(1)));
    assert!(!r.is_signer_authorized(did(1), &Signatory::from_key(key(2))));
    assert!(!r.is_signer_authorized(did(1), &id(2)));
    assert_eq!(r.freeze_signing_keys(key(1), did(1)), Ok(()));
    assert!(r.is_did_frozen(did(1)));
    assert!(r.is_signer_authorized(did(1), &Signatory::from_key(key(1))));
    assert!(r.is_signer_authorized(did(1), &id(1)));
    // An identity without a record has the key of zeros as its master key.
    assert!(r.is_signer_authorized(did(9), &Signatory::from_key(AccountKey([0; 32]))));
    assert!(!r.is_signer_authorized(did(9), &Signatory::from_key(key(1))));
}

#[test]
fn invited_key_joins_and_signs_until_frozen() {
    let mut r = registry();
    let joiner = Signatory::from_key(key(8));
    let invited = item(joiner, SignerType::External, vec![Permission::Operator]);
    assert_eq!(
        r.add_signing_items(key(2), did(1), &vec![invited.clone()]),
        Err(Error::OnlyMasterKey)
    );
    assert_eq!(
        r.add_signing_items(key(1), did(9), &vec![invited.clone()]),
        Err(Error::DidDoesNotExist)
    );
    assert_eq!(
        r.add_signing_items(
            key(1),
            did(1),
            &vec![item(
                Signatory::from_key(key(2)),
                SignerType::External,
                vec![]
            )]
        ),
        Err(Error::AlreadyLinked)
    );
    assert_eq!(
        r.authorize_join_to_identity(key(8), did(1)),
        Err(Error::JoinUnauthorized)
    );
    assert_eq!(r.add_signing_items(key(1), did(1), &vec![invited.clone()]), Ok(()));
    assert_eq!(r.pre_authorized_join_did(&joiner).list.len(), 1);
    assert_eq!(r.pre_authorized_join_did(&joiner).list[0].target_id, did(1));
    assert!(!r.is_signer_authorized(did(1), &joiner));
    assert_eq!(
        r.authorize_join_to_identity(key(8), did(2)),
        Err(Error::JoinUnauthorized)
    );
    assert_eq!(r.authorize_join_to_identity(key(8), did(1)), Ok(()));
    assert_eq!(r.pre_authorized_join_did(&joiner).list.len(), 0);
    assert_eq!(r.did_records(did(1)).signing_items, vec![invited.clone()]);
    assert_eq!(r.get_identity(&key(8)), Some(did(1)));
    assert!(r.is_signer_authorized(did(1), &joiner));
    assert!(r.is_signer_authorized_with_permissions(did(1), &joiner, vec![Permission::Operator]));
    assert!(r.is_signer_authorized_with_permissions(did(1), &joiner, vec![]));
    assert!(!r.is_signer_authorized_with_permissions(
        did(1),
        &joiner,
        vec![Permission::Operator, Permission::Admin]
    ));
    assert!(r.is_signer_authorized_with_permissions(
        did(1),
        &Signatory::from_key(key(1)),
        vec![Permission::Admin]
    ));

    assert_eq!(r.freeze_signing_keys(key(8), did(1)), Err(Error::OnlyMasterKey));
    assert_eq!(r.freeze_signing_keys(key(1), did(1)), Ok(()));
    assert!(!r.is_signer_authorized(did(1), &joiner));
    assert!(!r.is_signer_authorized_with_permissions(did(1), &joiner, vec![]));
    assert_eq!(r.unfreeze_signing_keys(key(1), did(1)), Ok(()));
    assert!(!r.is_did_frozen(did(1)));
    assert!(r.is_signer_authorized(did(1), &joiner));

    // A key that has joined one identity cannot join another.
    assert_eq!(
        r.add_signing_items(key(2), did(2), &vec![invited.clone()]),
        Err(Error::AlreadyLinked)
    );

    assert_eq!(
        r.set_permission_to_signer(key(1), did(1), joiner, vec![
            Permission::SpendFunds,
            Permission::Custom(3),
            Permission::Admin,
            Permission::SpendFunds,
            Permission::Custom(1),
        ]),
        Ok(())
    );
    assert_eq!(
        r.did_records(did(1)).signing_items[0].permissions,
        vec![
            Permission::Admin,
            Permission::SpendFunds,
            Permission::Custom(1),
            Permission::Custom(3)
        ]
    );
    assert_eq!(
        r.set_permission_to_signer(key(1), did(1), id(3), vec![]),
        Err(Error::InvalidSender)
    );
    assert_eq!(
        r.set_permission_to_signer(key(1), did(1), Signatory::from_key(key(1)), vec![Permission::Full]),
        Ok(())
    );
    assert_eq!(r.did_records(did(1)).signing_items.len(), 1);

    assert_eq!(r.remove_signing_items(key(1), did(1), &vec![joiner]), Ok(()));
    assert_eq!(r.did_records(did(1)).signing_items, vec![]);
    assert_eq!(r.get_identity(&key(8)), None);
    assert_eq!(r.key_to_identity_ids(&key(8)), None);
    assert!(!r.is_signer_authorized(did(1), &joiner));
}

#[test]
fn invited_identity_joins_through_its_master_key() {
    let mut r = registry();
    let invited = item(id(2), SignerType::Identity, vec![Permission::Full]);
    assert_eq!(r.add_signing_items(key(1), did(1), &vec![invited.clone()]), Ok(()));
    assert_eq!(
        r.authorize_join_to_identity(key(3), did(1)),
        Err(Error::JoinUnauthorized)
    );
    assert_eq!(r.authorize_join_to_identity(key(2), did(1)), Ok(()));
    assert!(r.is_signer_authorized(did(1), &id(2)));
    assert!(r.is_signer_authorized_with_permissions(did(1), &id(2), vec![Permission::Admin]));
    assert_eq!(r.get_identity(&key(2)), Some(did(2)));
    // The item is there already: nothing is invited.
    assert_eq!(r.add_signing_items(key(1), did(1), &vec![invited]), Ok(()));
    assert_eq!(r.pre_authorized_join_did(&id(2)).list.len(), 0);
}

#[test]
fn invitations_are_withdrawn_by_host_or_guest() {
    let mut r = registry();
    let guest = Signatory::from_key(key(8));
    let invited = item(guest, SignerType::External, vec![]);
    r.add_pre_join_identity(&invited, did(1));
    r.add_pre_join_identity(&invited, did(2));
    r.add_pre_join_identity(&invited, did(1));
    let list = r.pre_authorized_join_did(&guest).list;
    assert_eq!(
        list.iter().map(|p| p.target_id).collect::<Vec<_>>(),
        vec![did(2), did(1)]
    );
    assert_eq!(
        r.unauthorized_join_to_identity(key(3), guest, did(1)),
        Err(Error::JoinUnauthorized)
    );
    assert_eq!(r.unauthorized_join_to_identity(key(1), guest, did(1)), Ok(()));
    assert_eq!(r.pre_authorized_join_did(&guest).list.len(), 1);
    assert_eq!(r.unauthorized_join_to_identity(key(8), guest, did(2)), Ok(()));
    assert_eq!(r.pre_authorized_join_did(&guest).list.len(), 0);
    r.add_pre_join_identity(&item(id(3), SignerType::Identity, vec![]), did(1));
    assert_eq!(r.unauthorized_join_to_identity(key(3), id(3), did(1)), Ok(()));
    assert_eq!(r.pre_authorized_join_did(&id(3)).list.len(), 0);
    r.remove_pre_join_identity(&guest, did(1));
    assert_eq!(r.pre_authorized_join_did(&guest).list.len(), 0);
}

#[test]
fn shared_key_is_linked_to_a_group_in_byte_order() {
    let mut r = Identity::new();
    let k = key(9);
    assert!(r.can_key_be_linked_to_did(&k, SignerType::External));
    r.link_key_to_did(&k, SignerType::MultiSig, did(5));
    assert!(!r.can_key_be_linked_to_did(&k, SignerType::External));
    assert!(r.can_key_be_linked_to_did(&k, SignerType::Relayer));
    r.link_key_to_did(&k, SignerType::MultiSig, did(2));
    r.link_key_to_did(&k, SignerType::MultiSig, did(7));
    r.link_key_to_did(&k, SignerType::MultiSig, did(5));
    r.link_key_to_did(&k, SignerType::External, did(1));
    assert_eq!(
        r.key_to_identity_ids(&k),
        Some(LinkedKeyInfo::Group(vec![did(2), did(5), did(7)]))
    );
    assert_eq!(r.get_identity(&k), None);
    r.unlink_key_to_did(&k, did(5));
    assert_eq!(
        r.key_to_identity_ids(&k),
        Some(LinkedKeyInfo::Group(vec![did(2), did(7)]))
    );
    r.unlink_key_to_did(&k, did(1));
    r.unlink_key_to_did(&k, did(2));
    r.unlink_key_to_did(&k, did(7));
    assert_eq!(r.key_to_identity_ids(&k), None);

    let e = key(10);
    r.link_key_to_did(&e, SignerType::External, did(1));
    assert!(!r.can_key_be_linked_to_did(&e, SignerType::MultiSig));
    r.link_key_to_did(&e, SignerType::MultiSig, did(2));
    assert_eq!(r.key_to_identity_ids(&e), Some(LinkedKeyInfo::Unique(did(1))));
    r.unlink_key_to_did(&e, did(2));
    assert_eq!(r.key_to_identity_ids(&e), None);
}

#[test]
fn identities_are_ordered_by_their_bytes() {
    assert!(id_less(&IdentityId([1; 32]), &IdentityId([2; 32])));
    assert!(!id_less(&IdentityId([2; 32]), &IdentityId([1; 32])));
    assert!(!id_less(&IdentityId([2; 32]), &IdentityId([2; 32])));
    let mut a = [5u8; 32];
    let mut b = [5u8; 32];
    a[31] = 1;
    b[31] = 2;
    assert!(id_less(&IdentityId(a), &IdentityId(b)));
    a[0] = 9;
    assert!(!id_less(&IdentityId(a), &IdentityId(b)));
    assert!(id_less(&IdentityId(b), &IdentityId(a)));
}

#[test]
fn permissions_are_put_in_order_each_once() {
    assert_eq!(normalize(&vec![]), vec![]);
    assert_eq!(
        normalize(&vec![
            Permission::Custom(0),
            Permission::Full,
            Permission::Custom(255),
            Permission::Operator,
            Permission::Full,
            Permission::Admin,
            Permission::Custom(0),
        ]),
        vec![
            Permission::Full,
            Permission::Admin,
            Permission::Operator,
            Permission::Custom(0),
            Permission::Custom(255)
        ]
    );
    assert_eq!(Permission::Custom(255).order(), 259);
    assert_eq!(Permission::SpendFunds.order(), 3);
}

#[test]
fn master_key_is_replaced_by_a_free_key() {
    let mut r = registry();
    assert_eq!(
        r.set_master_key(key(2), did(1), key(9)),
        Err(Error::OnlyMasterKey)
    );
    assert_eq!(
        r.set_master_key(key(1), did(1), key(2)),
        Err(Error::MasterKeyNotUnique)
    );
    assert_eq!(r.set_master_key(key(1), did(1), key(9)), Ok(()));
    assert!(r.is_master_key(did(1), &key(9)));
    assert!(r.is_signer_authorized(did(1), &Signatory::from_key(key(9))));
    assert!(!r.is_signer_authorized(did(1), &Signatory::from_key(key(1))));
    assert_eq!(
        r.grant_check_only_master_key(&key(1), did(1)),
        Err(Error::OnlyMasterKey)
    );
    assert_eq!(
        r.grant_check_only_master_key(&key(9), did(7)),
        Err(Error::DidDoesNotExist)
    );
    assert_eq!(
        r.grant_check_only_master_key(&key(9), did(1)).unwrap().master_key,
        key(9)
    );
}

#[test]
fn claims_are_made_fetched_and_revoked() {
    let mut r = registry();
    let value = |v: &[u8]| ClaimValue {
        data_type: DataTypes::VecU8,
        value: v.to_vec(),
    };
    assert_eq!(DataTypes::default(), DataTypes::VecU8);
    assert_eq!(
        r.add_claim(key(2), did(9), b"kyc".to_vec(), did(2), 100, value(b"x"), 10),
        Err(Error::DidMustExist)
    );
    assert_eq!(
        r.add_claim(key(2), did(1), b"kyc".to_vec(), did(9), 100, value(b"x"), 10),
        Err(Error::ClaimIssuerMustExist)
    );
    assert_eq!(
        r.add_claim(key(3), did(1), b"kyc".to_vec(), did(2), 100, value(b"x"), 10),
        Err(Error::NotClaimIssuerKey)
    );
    assert_eq!(r.fetch_claim_value(did(1), b"kyc".to_vec(), did(2), 10), None);
    assert_eq!(
        r.add_claim(key(2), did(1), b"kyc".to_vec(), did(2), 100, value(b"x"), 10),
        Ok(())
    );
    assert_eq!(
        r.fetch_claim_value(did(1), b"kyc".to_vec(), did(2), 99),
        Some(value(b"x"))
    );
    assert_eq!(r.fetch_claim_value(did(1), b"kyc".to_vec(), did(2), 100), None);
    assert_eq!(r.fetch_claim_value(did(1), b"age".to_vec(), did(2), 10), None);
    assert_eq!(r.fetch_claim_value(did(1), b"kyc".to_vec(), did(3), 10), None);
    assert_eq!(r.fetch_claim_value(did(2), b"kyc".to_vec(), did(2), 10), None);
    assert_eq!(
        r.add_claim(key(2), did(1), b"kyc".to_vec(), did(2), 200, value(b"y"), 20),
        Ok(())
    );
    assert_eq!(
        r.fetch_claim_value(did(1), b"kyc".to_vec(), did(2), 150),
        Some(value(b"y"))
    );
    assert_eq!(
        r.add_claim(key(3), did(1), b"kyc".to_vec(), did(3), 50, value(b"z"), 20),
        Ok(())
    );
    assert_eq!(
        r.fetch_claim_value_multiple_issuers(
            did(1),
            b"kyc".to_vec(),
            vec![did(9), did(3), did(2)],
            30
        ),
        Some(value(b"z"))
    );
    assert_eq!(
        r.fetch_claim_value_multiple_issuers(
            did(1),
            b"kyc".to_vec(),
            vec![did(9), did(3), did(2)],
            60
        ),
        Some(value(b"y"))
    );
    assert_eq!(
        r.fetch_claim_value_multiple_issuers(did(1), b"kyc".to_vec(), vec![], 30),
        None
    );
    assert_eq!(
        r.revoke_claim(key(3), did(1), b"kyc".to_vec(), did(2)),
        Err(Error::NotClaimIssuerKey)
    );
    assert_eq!(r.revoke_claim(key(2), did(1), b"kyc".to_vec(), did(2)), Ok(()));
    assert_eq!(r.fetch_claim_value(did(1), b"kyc".to_vec(), did(2), 150), None);
    assert_eq!(
        r.fetch_claim_value(did(1), b"kyc".to_vec(), did(3), 30),
        Some(value(b"z"))
    );
}

#[test]
fn authorizations_are_given_and_withdrawn_by_call() {
    let mut r = registry();
    assert_eq!(
        r.add_authorization(key(9), id(2), AuthorizationData::NoData, None),
        Err(Error::DidNotFound)
    );
    let a = r
        .add_authorization(key(1), id(2), AuthorizationData::NoData, None)
        .unwrap();
    assert_eq!(r.authorizations(&id(2), a).authorized_by, id(1));
    let b = r.add_authorization_as_key(key(9), id(2), AuthorizationData::NoData, None);
    assert_eq!(
        r.authorizations(&id(2), b).authorized_by,
        Signatory::from_key(key(9))
    );
    assert_eq!(
        r.remove_authorization(key(3), id(2), a),
        Err(Error::RemovalUnauthorized)
    );
    assert_eq!(
        r.remove_authorization(key(1), id(2), a + 100),
        Err(Error::InvalidAuth)
    );
    assert_eq!(
        r.remove_authorization(key(9), id(2), b),
        Err(Error::DidNotFound)
    );
    // The target itself may remove.
    assert_eq!(r.remove_authorization(key(2), id(2), b), Ok(()));
    // And so may the giver.
    assert_eq!(r.remove_authorization(key(1), id(2), a), Ok(()));
    assert_eq!(r.last_authorization(&id(2)), 0);

    r.set_current_did(Some(did(3)));
    assert_eq!(r.current_did(), Some(did(3)));
    assert_eq!(r.acting_did(&key(1)), Some(did(3)));
    let c = r
        .add_authorization(key(9), id(2), AuthorizationData::NoData, None)
        .unwrap();
    assert_eq!(r.authorizations(&id(2), c).authorized_by, id(3));
    r.set_current_did(None);
    assert_eq!(r.acting_did(&key(1)), Some(did(1)));
    assert_eq!(r.acting_did(&key(9)), None);
}

#[test]
fn asset_identity_is_registered_once() {
    let mut r = registry();
    assert_eq!(r.register_asset_did(did(50)), Ok(()));
    assert!(r.did_exists(did(50)));
    assert_eq!(r.did_records(did(50)).master_key, AccountKey([0; 32]));
    assert_eq!(r.register_asset_did(did(50)), Err(Error::DidMustBeUnique));
    assert_eq!(r.register_asset_did(did(1)), Err(Error::DidMustBeUnique));
}

#[test]
fn authorization_is_accepted_according_to_its_kind() {
    let mut l = Asset::new(TickerRegistrationConfig {
        max_ticker_length: 12,
        registration_length: None,
    });
    for n in 1..=3u8 {
        l.identity._register_did(key(n), &vec![], 0, did(n)).unwrap();
    }
    let t = Ticker::from_slice(b"ACC");
    assert_eq!(l.register_ticker(key(1), t, 0), Ok(()));
    assert_eq!(l.ticker_registration(&t).expiry, None);
    let transfer = l.identity.add_auth(id(1), id(2), AuthorizationData::TransferTicker(t), None);
    let multisig = l.identity.add_auth(id(1), id(2), AuthorizationData::AddMultiSigSigner, None);
    let custom = l.identity.add_auth(id(1), id(2), AuthorizationData::Custom(t), None);
    let for_key = l.identity.add_auth(
        id(1),
        Signatory::from_key(key(9)),
        AuthorizationData::AddMultiSigSigner,
        None,
    );
    let ticker_for_key = l.identity.add_auth(
        id(1),
        Signatory::from_key(key(9)),
        AuthorizationData::TransferTicker(t),
        None,
    );
    assert_eq!(l.accept_authorization(key(3), transfer, 0), Err(Error::InvalidAuth));
    assert_eq!(l.accept_authorization(key(2), custom, 0), Err(Error::UnknownAuthorization));
    assert_eq!(
        l.accept_authorization(key(2), multisig, 0),
        Ok(Accepted::MultiSigSigner(id(2)))
    );
    assert!(l.identity.authorization_exists(&id(2), multisig));
    assert_eq!(
        l.accept_authorization(key(9), for_key, 0),
        Ok(Accepted::MultiSigSigner(Signatory::from_key(key(9))))
    );
    assert_eq!(
        l.accept_authorization(key(9), ticker_for_key, 0),
        Err(Error::UnknownAuthorization)
    );
    assert_eq!(l.accept_authorization(key(2), transfer, 0), Ok(Accepted::Transferred));
    assert_eq!(l.ticker_registration(&t).owner, did(2));
    assert_eq!(l.accept_authorization(key(2), transfer, 0), Err(Error::InvalidAuth));
}

#[test]
fn statistics_count_entries_and_exits() {
    let mut s = Statistics::new();
    let t = Ticker::from_slice(b"S");
    s.update_transfer_stats(&t, Some(0), None, 5);
    assert_eq!(s.investor_count_per_asset(&t), 0);
    s.update_transfer_stats(&t, None, Some(5), 5);
    assert_eq!(s.investor_count_per_asset(&t), 1);
    s.update_transfer_stats(&t, Some(0), Some(5), 5);
    assert_eq!(s.investor_count_per_asset(&t), 1);
    s.update_transfer_stats(&t, Some(1), Some(6), 5);
    assert_eq!(s.investor_count_per_asset(&t), 1);
    s.update_transfer_stats(&t, Some(0), Some(0), 0);
    assert_eq!(s.investor_count_per_asset(&t), 1);
    s.update_transfer_stats(&t, Some(0), None, 1);
    assert_eq!(s.investor_count_per_asset(&t), 0);
}

#[test]
fn claims_are_added_in_a_batch_or_not_at_all() {
    let mut r = registry();
    let record = |about: u8, v: &[u8]| ClaimRecord {
        did: did(about),
        claim_key: b"kyc".to_vec(),
        expiry: 100,
        claim_value: ClaimValue {
            data_type: DataTypes::U8,
            value: v.to_vec(),
        },
    };
    assert_eq!(
        r.add_claims_batch(key(2), did(9), &vec![record(1, b"a")], 10),
        Err(Error::ClaimIssuerMustExist)
    );
    assert_eq!(
        r.add_claims_batch(key(3), did(2), &vec![record(1, b"a")], 10),
        Err(Error::NotClaimIssuerKey)
    );
    assert_eq!(
        r.add_claims_batch(key(2), did(2), &vec![record(1, b"a"), record(9, b"b")], 10),
        Err(Error::DidMustExist)
    );
    assert_eq!(r.fetch_claim_value(did(1), b"kyc".to_vec(), did(2), 10), None);
    assert_eq!(
        r.add_claims_batch(
            key(2),
            did(2),
            &vec![record(1, b"a"), record(3, b"b"), record(1, b"c")],
            10
        ),
        Ok(())
    );
    assert_eq!(
        r.fetch_claim_value(did(1), b"kyc".to_vec(), did(2), 10).unwrap().value,
        b"c".to_vec()
    );
    assert_eq!(
        r.fetch_claim_value(did(3), b"kyc".to_vec(), did(2), 10).unwrap().value,
        b"b".to_vec()
    );
    assert_eq!(r.add_claims_batch(key(2), did(2), &vec![], 10), Ok(()));
}

#[test]
fn authorizations_are_given_and_withdrawn_in_batches() {
    let mut r = registry();
    assert_eq!(
        r.batch_add_authorization(key(9), &vec![(id(2), AuthorizationData::NoData, None)]),
        Err(Error::DidNotFound)
    );
    assert_eq!(r.last_authorization(&id(2)), 0);
    let first = r.multi_purpose_nonce() + 1;
    assert_eq!(
        r.batch_add_authorization(
            key(1),
            &vec![
                (id(2), AuthorizationData::NoData, None),
                (id(3), AuthorizationData::AddMultiSigSigner, Some(7)),
                (id(2), AuthorizationData::NoData, None),
            ]
        ),
        Ok(())
    );
    assert_eq!(auth_pointers(&r, &id(2), first), (0, first + 2));
    assert_eq!(auth_pointers(&r, &id(2), first + 2), (first, 0));
    assert_eq!(r.authorizations(&id(3), first + 1).expiry, Some(7));
    assert_eq!(r.authorizations(&id(3), first + 1).authorized_by, id(1));

    let by_three = r.add_auth(id(3), id(2), AuthorizationData::NoData, None);
    // Key 3 acts for identity 3: it may remove what identity 3 gave or got.
    assert_eq!(
        r.batch_remove_authorization(key(3), &vec![(id(2), by_three), (id(2), first)]),
        Err(Error::RemovalUnauthorized)
    );
    assert_eq!(
        r.batch_remove_authorization(key(3), &vec![(id(2), by_three), (id(2), 999)]),
        Err(Error::InvalidAuth)
    );
    assert_eq!(
        r.batch_remove_authorization(key(9), &vec![]),
        Err(Error::DidNotFound)
    );
    assert!(r.authorization_exists(&id(2), by_three));
    assert_eq!(auth_pointers(&r, &id(2), first + 2), (first, by_three));
    assert_eq!(
        r.batch_remove_authorization(key(3), &vec![(id(2), by_three), (id(3), first + 1)]),
        Ok(())
    );
    assert!(!r.authorization_exists(&id(2), by_three));
    assert!(!r.authorization_exists(&id(3), first + 1));
    assert_eq!(r.last_authorization(&id(2)), first + 2);
    assert_eq!(
        r.batch_remove_authorization(key(2), &vec![(id(2), first), (id(2), first + 2)]),
        Ok(())
    );
    assert_eq!(r.last_authorization(&id(2)), 0);
    assert_eq!(r.batch_remove_authorization(key(2), &vec![]), Ok(()));
}

#[test]
fn call_is_forwarded_to_a_signatory_identity() {
    let mut r = registry();
    assert_eq!(r.forwarded_call(did(2)), Err(Error::MissingCurrentIdentity));
    r.set_current_did(Some(did(1)));
    assert_eq!(r.forwarded_call(did(2)), Err(Error::CannotForward));
    assert_eq!(
        r.add_signing_items(
            key(1),
            did(1),
            &vec![item(id(2), SignerType::Identity, vec![])]
        ),
        Ok(())
    );
    assert_eq!(r.authorize_join_to_identity(key(2), did(1)), Ok(()));
    assert_eq!(r.forwarded_call(did(2)), Ok(()));
    assert_eq!(r.current_did(), Some(did(2)));
    // An identity forwards to itself, where it counts as validated.
    assert_eq!(r.forwarded_call(did(2)), Ok(()));
    r.set_current_did(Some(did(60)));
    assert_eq!(r.forwarded_call(did(60)), Err(Error::InvalidKyc));
    assert_eq!(r.current_did(), Some(did(60)));
}

#[test]
fn authorizations_are_accepted_in_a_batch() {
    let mut l = Asset::new(TickerRegistrationConfig {
        max_ticker_length: 12,
        registration_length: Some(50),
    });
    for n in 1..=3u8 {
        l.identity._register_did(key(n), &vec![], 0, did(n)).unwrap();
    }
    let a = Ticker::from_slice(b"A");
    let b = Ticker::from_slice(b"B");
    assert_eq!(l.register_ticker(key(1), a, 0), Ok(()));
    assert_eq!(l.register_ticker(key(1), b, 0), Ok(()));
    let first = l.identity.add_auth(id(1), id(2), AuthorizationData::TransferTicker(a), None);
    let stale = l.identity.add_auth(id(1), id(2), AuthorizationData::TransferTicker(b), Some(5));
    let foreign = l.identity.add_auth(id(3), id(2), AuthorizationData::TransferTicker(b), None);
    let multisig = l.identity.add_auth(id(1), id(2), AuthorizationData::AddMultiSigSigner, None);
    let results = l.batch_accept_authorization(key(2), &vec![first, stale, 999, foreign, multisig, first], 10);
    assert_eq!(
        results,
        vec![
            Ok(Accepted::Transferred),
            Err(Error::AuthorizationExpired),
            Err(Error::InvalidAuth),
            Err(Error::IllegalUseOfAuthorization),
            Ok(Accepted::MultiSigSigner(id(2))),
            Err(Error::InvalidAuth),
        ]
    );
    assert_eq!(l.ticker_registration(&a).owner, did(2));
    assert_eq!(l.ticker_registration(&a).expiry, Some(50));
    assert_eq!(l.ticker_registration(&b).owner, did(1));
    assert!(l.identity.authorization_exists(&id(2), stale));
    assert!(l.identity.authorization_exists(&id(2), foreign));
    assert_eq!(l.batch_accept_authorization(key(2), &vec![], 10), vec![]);
}

#[test]
fn offchain_authorization_encodes_its_fields_in_order() {
    let auth = TargetIdAuthorization {
        target_id: IdentityId([0xab; 32]),
        nonce: 0x0102_0304_0506_0708,
        expires_at: 258,
    };
    let mut expected = vec![0xab; 32];
    expected.extend_from_slice(&[8, 7, 6, 5, 4, 3, 2, 1]);
    expected.extend_from_slice(&[2, 1, 0, 0, 0, 0, 0, 0]);
    assert_eq!(auth.encode(), expected);
}

#[test]
fn signed_items_join_together_or_not_at_all() {
    let mut r = registry();
    let with_auth = |signer: Signatory, signer_type: SignerType| SigningItemWithAuth {
        signing_item: item(signer, signer_type, vec![Permission::Admin]),
        auth_signature: [7; 64],
    };
    let free_key = Signatory::from_key(key(8));
    let taken_key = Signatory::from_key(key(2));
    let both = vec![
        with_auth(free_key, SignerType::External),
        with_auth(id(3), SignerType::Identity),
    ];
    assert_eq!(r.offchain_authorization_nonce(did(1)), 0);
    assert_eq!(r.signing_account(&free_key), Some(key(8)));
    assert_eq!(r.signing_account(&id(3)), Some(key(3)));
    assert_eq!(r.signing_account(&id(9)), None);
    assert_eq!(
        r.add_signing_items_with_authorization(key(2), did(1), 100, &both, &vec![true, true], 10),
        Err(Error::OnlyMasterKey)
    );
    assert_eq!(
        r.add_signing_items_with_authorization(key(1), did(1), 100, &both, &vec![true, true], 100),
        Err(Error::OffchainAuthorizationExpired)
    );
    assert_eq!(
        r.add_signing_items_with_authorization(key(1), did(1), 100, &both, &vec![true], 10),
        Err(Error::InvalidAuthorizationSignature)
    );
    assert_eq!(
        r.add_signing_items_with_authorization(key(1), did(1), 100, &both, &vec![true, false], 10),
        Err(Error::InvalidAuthorizationSignature)
    );
    assert_eq!(
        r.add_signing_items_with_authorization(
            key(1),
            did(1),
            100,
            &vec![with_auth(free_key, SignerType::External), with_auth(id(9), SignerType::Identity)],
            &vec![true, true],
            10
        ),
        Err(Error::InvalidKey)
    );
    assert_eq!(
        r.add_signing_items_with_authorization(
            key(1),
            did(1),
            100,
            &vec![with_auth(taken_key, SignerType::External)],
            &vec![true],
            10
        ),
        Err(Error::KeyBelongsToIdentity)
    );
    let in_force = TargetIdAuthorization {
        target_id: did(1),
        nonce: 0,
        expires_at: 100,
    };
    assert_eq!(
        r.revoke_offchain_authorization(key(2), id(3), in_force),
        Err(Error::RevokeNotMasterKey)
    );
    assert_eq!(
        r.revoke_offchain_authorization(key(2), free_key, in_force),
        Err(Error::RevokeNotOwnKey)
    );
    assert_eq!(r.revoke_offchain_authorization(key(3), id(3), in_force), Ok(()));
    assert!(r.is_offchain_authorization_revoked(&id(3), &in_force));
    assert!(!r.is_offchain_authorization_revoked(&free_key, &in_force));
    assert_eq!(
        r.add_signing_items_with_authorization(key(1), did(1), 100, &both, &vec![true, true], 10),
        Err(Error::AuthorizationRevoked)
    );
    // Nothing has changed so far.
    assert_eq!(r.did_records(did(1)).signing_items, vec![]);
    assert_eq!(r.get_identity(&key(8)), None);
    assert_eq!(r.offchain_authorization_nonce(did(1)), 0);
    // Another expiry makes another authorization, which was not revoked.
    assert_eq!(
        r.add_signing_items_with_authorization(key(1), did(1), 200, &both, &vec![true, true], 10),
        Ok(())
    );
    assert_eq!(
        r.did_records(did(1)).signing_items,
        vec![both[0].signing_item.clone(), both[1].signing_item.clone()]
    );
    assert_eq!(r.get_identity(&key(8)), Some(did(1)));
    assert_eq!(r.offchain_authorization_nonce(did(1)), 1);
    assert!(r.is_signer_authorized(did(1), &free_key));
    assert!(r.is_signer_authorized(did(1), &id(3)));
}
