use polymesh_ledger::asset::types::{
    AssetType, IdentifierType, SecurityToken, SignData, TickerRegistration,
};
use polymesh_ledger::error::Error;
use polymesh_ledger::primitives::{
    clone_bytes, AccountKey, Authorization, AuthorizationData, AuthorizationError, Document,
    IdentityId, Link, LinkData, Signatory,
};
use polymesh_ledger::table::{array_eq, Key, Table};
use polymesh_ledger::ticker::{bytes_to_upper, to_upper, Ticker};

#[test]
fn ticker_from_slice_uppercases_and_pads() {
    let t = Ticker::from_slice(b"abC1");
    assert_eq!(t.0, [b'A', b'B', b'C', b'1', 0, 0, 0, 0, 0, 0, 0, 0]);
    assert_eq!(t.len(), 4);
}

#[test]
fn ticker_from_slice_keeps_twelve_bytes() {
    let t = Ticker::from_slice(b"abcdefghijklmnop");
    assert_eq!(t.0, *b"ABCDEFGHIJKL");
    assert_eq!(t.len(), 12);
}

#[test]
fn ticker_from_empty_slice_is_default() {
    let t = Ticker::from_slice(b"");
    assert_eq!(t, Ticker::default());
    assert_eq!(t.0, [0u8; 12]);
    assert_eq!(t.len(), 0);
}

#[test]
fn ticker_len_counts_to_the_last_non_zero_byte() {
    let t = Ticker([b'A', 0, b'B', 0, 0, 0, 0, 0, 0, 0, 0, 0]);
    assert_eq!(t.len(), 3);
    let last = Ticker([0, 0, 0, 0, 0, 0, 0, 0, 0, 0, 0, 1]);
    assert_eq!(last.len(), 12);
}

#[test]
fn ticker_canonize_uppercases_in_place() {
    let mut t = Ticker(*b"poly-x1z\0\0\0\0");
    t.canonize();
    assert_eq!(t.0, *b"POLY-X1Z\0\0\0\0");
    let before = t;
    t.canonize();
    assert_eq!(t, before);
}

#[test]
fn ticker_equality_is_byte_wise() {
    assert!(Ticker::from_slice(b"abc") == Ticker::from_slice(b"ABC"));
    assert!(Ticker::from_slice(b"abc") != Ticker::from_slice(b"abd"));
    assert!(Ticker(*b"abc\0\0\0\0\0\0\0\0\0") != Ticker(*b"ABC\0\0\0\0\0\0\0\0\0"));
    assert!(Ticker::from_slice(b"AB").same(&Ticker::from_slice(b"ab")));
}

#[test]
fn upper_case_touches_letters_only() {
    assert_eq!(to_upper(b'a'), b'A');
    assert_eq!(to_upper(b'z'), b'Z');
    assert_eq!(to_upper(b'`'), b'`');
    assert_eq!(to_upper(b'{'), b'{');
    assert_eq!(to_upper(b'A'), b'A');
    assert_eq!(to_upper(0xff), 0xff);
    assert_eq!(bytes_to_upper(b"aZ09{`z"), b"AZ09{`Z".to_vec());
    assert_eq!(bytes_to_upper(b""), Vec::<u8>::new());
}

#[test]
fn identity_from_u128_is_little_endian_and_padded() {
    let id = IdentityId::from_u128(5);
    let mut expected = [0u8; 32];
    expected[0] = 5;
    assert_eq!(id.0, expected);

    let id = IdentityId::from_u128(0x0102_0304_0506_0708_090a_0b0c_0d0e_0f10);
    let mut expected = [0u8; 32];
    expected[..16].copy_from_slice(&[
        0x10, 0x0f, 0x0e, 0x0d, 0x0c, 0x0b, 0x0a, 0x09, 0x08, 0x07, 0x06, 0x05, 0x04, 0x03, 0x02,
        0x01,
    ]);
    assert_eq!(id.0, expected);
    assert_eq!(IdentityId::from_u128(0), IdentityId::default());
}

#[test]
fn account_key_from_slice_needs_thirty_two_bytes() {
    assert_eq!(AccountKey::from_slice(&[7u8; 32]), Some(AccountKey([7u8; 32])));
    assert_eq!(AccountKey::from_slice(&[7u8; 31]), None);
    assert_eq!(AccountKey::from_slice(&[7u8; 33]), None);
    assert_eq!(AccountKey::from_slice(&[]), None);
}

#[test]
fn sign_data_encodes_its_fields_in_order() {
    let msg = SignData {
        custodian_did: IdentityId([0xc1; 32]),
        holder_did: IdentityId([0xd2; 32]),
        ticker: Ticker::from_slice(b"abc"),
        value: 0x0102_0304,
        nonce: 0x0a0b,
    };
    let mut expected = Vec::new();
    expected.extend_from_slice(&[0xc1; 32]);
    expected.extend_from_slice(&[0xd2; 32]);
    expected.extend_from_slice(b"ABC\0\0\0\0\0\0\0\0\0");
    expected.extend_from_slice(&[0x04, 0x03, 0x02, 0x01, 0, 0, 0, 0, 0, 0, 0, 0, 0, 0, 0, 0]);
    expected.extend_from_slice(&[0x0b, 0x0a]);
    assert_eq!(msg.encode(), expected);
    assert_eq!(msg.encode().len(), 94);
}

#[test]
fn sign_data_of_different_nonces_differ() {
    let with = |nonce: u16, value: u128| {
        SignData {
            custodian_did: IdentityId([1; 32]),
            holder_did: IdentityId([2; 32]),
            ticker: Ticker::from_slice(b"T"),
            value,
            nonce,
        }
        .encode()
    };
    assert_ne!(with(1, 500), with(3, 500));
    assert_ne!(with(1, 500), with(1, 501));
    assert_eq!(with(1, 500), with(1, 500));
}

#[test]
fn signatory_compares_kind_and_bytes() {
    let did = IdentityId([9; 32]);
    let key = AccountKey([9; 32]);
    assert!(!Signatory::from_identity(did).same(&Signatory::from_key(key)));
    assert!(Signatory::from_identity(did).same(&Signatory::Identity(did)));
    assert!(Signatory::from_key(key).eq_either(&IdentityId([1; 32]), &key));
    assert!(Signatory::from_identity(did).eq_either(&did, &AccountKey([1; 32])));
    assert!(!Signatory::from_identity(did).eq_either(&IdentityId([1; 32]), &key));
    assert_eq!(
        Signatory::default(),
        Signatory::Identity(IdentityId([0; 32]))
    );
}

#[test]
fn default_records_are_empty() {
    assert_eq!(
        Authorization::default(),
        Authorization {
            authorization_data: AuthorizationData::NoData,
            authorized_by: Signatory::Identity(IdentityId([0; 32])),
            expiry: None,
            next_authorization: 0,
            previous_authorization: 0,
        }
    );
    assert_eq!(
        Link::default(),
        Link {
            link_data: LinkData::NoData,
            expiry: None,
            next_link: 0,
            previous_link: 0
        }
    );
    assert_eq!(
        TickerRegistration::default(),
        TickerRegistration {
            owner: IdentityId([0; 32]),
            expiry: None,
            link_id: 0
        }
    );
    assert_eq!(AssetType::default(), AssetType::Custom(b"undefined".to_vec()));
    assert_eq!(
        IdentifierType::default(),
        IdentifierType::Custom(b"undefined".to_vec())
    );
    assert_eq!(
        SecurityToken::default(),
        SecurityToken {
            name: vec![],
            total_supply: 0,
            owner_did: IdentityId([0; 32]),
            divisible: false,
            asset_type: AssetType::Custom(b"undefined".to_vec()),
            link_id: 0,
        }
    );
}

#[test]
fn copies_are_equal() {
    assert_eq!(clone_bytes(&vec![1, 2, 3]), vec![1, 2, 3]);
    assert_eq!(clone_bytes(&vec![]), Vec::<u8>::new());
    let doc = Document {
        name: b"A".to_vec(),
        uri: b"www.a.com".to_vec(),
        hash: b"0x1".to_vec(),
    };
    assert_eq!(doc.duplicate(), doc);
    assert_eq!(
        IdentifierType::Custom(b"x".to_vec()).duplicate(),
        IdentifierType::Custom(b"x".to_vec())
    );
    assert_eq!(IdentifierType::Isin.duplicate(), IdentifierType::Isin);
}

#[test]
fn keys_compare_by_value() {
    assert!(array_eq(&[1u8, 2, 3], &[1u8, 2, 3]));
    assert!(!array_eq(&[1u8, 2, 3], &[1u8, 2, 4]));
    assert!(vec![1u8, 2].same(&vec![1u8, 2]));
    assert!(!vec![1u8, 2].same(&vec![1u8]));
    assert!(!vec![1u8, 2].same(&vec![1u8, 3]));
    assert!((7u64, 8u16).same(&(7u64, 8u16)));
    assert!(!(7u64, 8u16).same(&(7u64, 9u16)));
    assert!((1u64, 2u64, 3u16).same(&(1u64, 2u64, 3u16)));
    assert!(!(1u64, 2u64, 3u16).same(&(0u64, 2u64, 3u16)));
    assert!(IdentifierType::Cusip.same(&IdentifierType::Cusip));
    assert!(!IdentifierType::Cusip.same(&IdentifierType::Isin));
    assert!(IdentifierType::Custom(b"a".to_vec()).same(&IdentifierType::Custom(b"a".to_vec())));
    assert!(!IdentifierType::Custom(b"a".to_vec()).same(&IdentifierType::Custom(b"b".to_vec())));
}

#[test]
fn table_holds_one_value_per_key() {
    let mut t: Table<u64, u128> = Table::new();
    assert!(!t.contains_key(&1));
    assert_eq!(t.get(&1), None);
    t.insert(1, 10);
    t.insert(2, 20);
    t.insert(1, 11);
    assert_eq!(t.get(&1), Some(&11));
    assert_eq!(t.get(&2), Some(&20));
    assert_eq!(t.remove(&1), Some(11));
    assert_eq!(t.remove(&1), None);
    assert!(!t.contains_key(&1));
    assert!(t.contains_key(&2));
    assert_eq!(t.remove(&3), None);
    assert_eq!(t.get(&2), Some(&20));
}

#[test]
fn errors_have_their_texts() {
    assert_eq!(Error::TotalSupplyAboveLimit.message(), "Total supply above the limit");
    assert_eq!(Error::InvalidGranularity.message(), "Invalid granularity");
    assert_eq!(Error::AssetFrozen.message(), "asset is frozen");
    assert_eq!(Error::NotEnoughBalance.message(), "Not enough balance.");
    assert_eq!(
        Error::TickerRegisteredToOther.message(),
        "ticker registered to someone else"
    );
    assert_eq!(Error::TickerTaken.message(), "Ticker registered to someone else");
    assert_eq!(
        Error::from_authorization(AuthorizationError::Invalid),
        Error::AuthorizationDoesNotExist
    );
    assert_eq!(
        Error::from_authorization(AuthorizationError::Unauthorized),
        Error::IllegalUseOfAuthorization
    );
    assert_eq!(
        Error::from_authorization(AuthorizationError::Expired),
        Error::AuthorizationExpired
    );
    assert_eq!(
        Error::from_authorization(AuthorizationError::Invalid).message(),
        "Authorization does not exist"
    );
    assert_eq!(
        Error::from_authorization(AuthorizationError::Unauthorized).message(),
        "Illegal use of Authorization"
    );
    assert_eq!(
        Error::from_authorization(AuthorizationError::Expired).message(),
        "Authorization expired"
    );
}
