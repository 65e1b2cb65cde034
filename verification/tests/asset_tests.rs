use chrono::prelude::Utc;
use polymesh_ledger::asset::types::{
    AssetType, Compliance, IdentifierType, SecurityToken, SignData, SmartExtension,
    SmartExtensionType, TickerRegistrationConfig,
};
use polymesh_ledger::asset::Module as Asset;
use polymesh_ledger::error::Error;
use polymesh_ledger::primitives::{
    AccountKey, AuthorizationData, Document, IdentityId, LinkData, Signatory,
};
use polymesh_ledger::ticker::Ticker;
use rand::Rng;

const ALICE: u8 = 1;
const BOB: u8 = 2;
const CHARLIE: u8 = 3;
const DAVE: u8 = 4;
const EVE: u8 = 5;

fn key(n: u8) -> AccountKey {
    AccountKey([n; 32])
}

fn new_ledger() -> Asset {
    Asset::new(TickerRegistrationConfig {
        max_ticker_length: 8,
        registration_length: Some(10000),
    })
}

/// Registers an identity with `key(n)` as its master key.
fn make_account(ledger: &mut Asset, n: u8) -> (AccountKey, IdentityId) {
    let signed = key(n);
    let did = IdentityId::from_u128(1000 + n as u128);
    ledger
        .identity
        ._register_did(signed, &vec![], 0, did)
        .unwrap();
    assert_eq!(ledger.identity.get_identity(&signed), Some(did));
    (signed, did)
}

/// The identity of the asset under `ticker`.
fn token_did(ticker: &Ticker) -> IdentityId {
    let mut bytes = [0xffu8; 32];
    bytes[..12].copy_from_slice(&ticker.0);
    IdentityId(bytes)
}

/// What the collaborators answer where every transfer is allowed.
fn allowed() -> Compliance {
    Compliance {
        general: Some(0),
        exempted: false,
    }
}

fn now() -> u64 {
    Utc::now().timestamp() as u64
}

fn assert_err<T: std::fmt::Debug>(r: Result<T, Error>, message: &str) {
    match r {
        Ok(v) => panic!("expected the error {:?}, got Ok({:?})", message, v),
        Err(e) => assert_eq!(e.message(), message),
    }
}

fn default_token(name: &[u8], owner_did: IdentityId) -> SecurityToken {
    SecurityToken {
        name: name.to_vec(),
        owner_did,
        total_supply: 1_000_000,
        divisible: true,
        asset_type: AssetType::default(),
        link_id: 0,
    }
}

fn create(
    ledger: &mut Asset,
    owner: AccountKey,
    owner_did: IdentityId,
    token: &SecurityToken,
    ticker: Ticker,
    identifiers: &Vec<(IdentifierType, Vec<u8>)>,
    funding_round: Option<Vec<u8>>,
) -> Result<(), Error> {
    ledger.create_token(
        owner,
        owner_did,
        token.name.clone(),
        ticker,
        token.total_supply,
        token.divisible,
        token.asset_type.clone(),
        identifiers,
        funding_round,
        token_did(&ticker),
        now(),
    )
}

#[test]
fn issuers_can_create_and_rename_tokens() {
    let mut ledger = new_ledger();
    let (owner_signed, owner_did) = make_account(&mut ledger, DAVE);
    let funding_round_name = b"round1".to_vec();
    let mut token = default_token(&[0x01], owner_did);
    let ticker = Ticker::from_slice(token.name.as_slice());
    assert!(!ledger.identity.did_exists(token_did(&ticker)));
    let identifiers = vec![(IdentifierType::default(), b"undefined".to_vec())];
    let before = ledger.clone();
    assert_err(
        ledger.create_token(
            owner_signed,
            owner_did,
            token.name.clone(),
            ticker,
            1_000_000_000_000_000_000_000_000,
            true,
            token.asset_type.clone(),
            &identifiers,
            Some(funding_round_name.clone()),
            token_did(&ticker),
            now(),
        ),
        "Total supply above the limit",
    );
    assert_eq!(ledger, before);

    assert_eq!(
        create(
            &mut ledger,
            owner_signed,
            owner_did,
            &token,
            ticker,
            &identifiers,
            Some(funding_round_name.clone())
        ),
        Ok(())
    );

    let token_link = ledger
        .identity
        .links(
            &Signatory::from_identity(owner_did),
            ledger.token_details(&ticker).link_id,
        )
        .unwrap()
        .clone();
    assert_eq!(token_link.link_data, LinkData::TokenOwned(ticker));
    assert_eq!(token_link.expiry, None);

    let ticker_link = ledger
        .identity
        .links(
            &Signatory::from_identity(owner_did),
            ledger.ticker_registration(&ticker).link_id,
        )
        .unwrap()
        .clone();
    assert_eq!(ticker_link.link_data, LinkData::TickerOwned(ticker));
    assert_eq!(ticker_link.expiry, None);

    token.link_id = ledger.token_details(&ticker).link_id;
    assert_eq!(ledger.token_details(&ticker), token);
    assert!(ledger.identity.did_exists(token_did(&ticker)));
    assert_eq!(ledger.funding_round(&ticker), funding_round_name.clone());

    // Unauthorized identities cannot rename the token.
    let (eve_signed, _eve_did) = make_account(&mut ledger, EVE);
    let before = ledger.clone();
    assert_err(
        ledger.rename_token(eve_signed, ticker, vec![0xde, 0xad, 0xbe, 0xef]),
        "sender must be a signing key for the token owner DID",
    );
    assert_eq!(ledger, before);
    assert_eq!(ledger.token_details(&ticker), token);
    let renamed_token = SecurityToken {
        name: vec![0x42],
        owner_did: token.owner_did,
        total_supply: token.total_supply,
        divisible: token.divisible,
        asset_type: token.asset_type.clone(),
        link_id: ledger.token_details(&ticker).link_id,
    };
    assert_eq!(
        ledger.rename_token(owner_signed, ticker, renamed_token.name.clone()),
        Ok(())
    );
    assert_eq!(ledger.token_details(&ticker), renamed_token);
    for (typ, val) in identifiers {
        assert_eq!(ledger.identifiers(&ticker, &typ), val);
    }
}

#[test]
fn valid_transfers_pass() {
    let mut ledger = new_ledger();
    let (owner_signed, owner_did) = make_account(&mut ledger, DAVE);
    let token = default_token(&[0x01], owner_did);
    let ticker = Ticker::from_slice(token.name.as_slice());
    let (_, alice_did) = make_account(&mut ledger, ALICE);

    assert_eq!(
        create(&mut ledger, owner_signed, owner_did, &token, ticker, &vec![], None),
        Ok(())
    );

    assert_eq!(
        ledger.transfer(owner_signed, owner_did, ticker, alice_did, 500, allowed()),
        Ok(())
    );
    assert_eq!(ledger.balance_of(&ticker, alice_did), 500);
    assert_eq!(ledger.balance_of(&ticker, owner_did), 999_500);
}

#[test]
fn valid_custodian_allowance() {
    let mut ledger = new_ledger();
    let (owner_signed, owner_did) = make_account(&mut ledger, DAVE);
    let token = default_token(&[0x01], owner_did);
    let ticker = Ticker::from_slice(token.name.as_slice());

    let (investor1_signed, investor1_did) = make_account(&mut ledger, BOB);
    let (investor2_signed, investor2_did) = make_account(&mut ledger, CHARLIE);
    let (custodian_signed, custodian_did) = make_account(&mut ledger, EVE);

    assert_eq!(
        create(&mut ledger, owner_signed, owner_did, &token, ticker, &vec![], None),
        Ok(())
    );
    assert_eq!(
        ledger.balance_of(&ticker, token.owner_did),
        token.total_supply
    );

    let funding_round1 = b"Round One".to_vec();
    assert_eq!(
        ledger.set_funding_round(owner_signed, owner_did, ticker, funding_round1.clone()),
        Ok(())
    );
    // Mint some tokens to investor1
    let num_tokens1: u128 = 2_000_000;
    assert_eq!(
        ledger.issue(
            owner_signed,
            owner_did,
            ticker,
            investor1_did,
            num_tokens1,
            allowed()
        ).map(|_| ()),
        Ok(())
    );
    assert_eq!(ledger.funding_round(&ticker), funding_round1.clone());
    assert_eq!(
        ledger.issued_in_funding_round(&ticker, &funding_round1),
        num_tokens1
    );
    // Check the expected default behaviour of the map.
    assert_eq!(
        ledger.issued_in_funding_round(&ticker, &b"No such round".to_vec()),
        0
    );
    assert_eq!(ledger.balance_of(&ticker, investor1_did), num_tokens1);

    // Failed to add custodian because of insufficient balance
    let before = ledger.clone();
    assert_err(
        ledger.increase_custody_allowance(
            investor1_signed,
            ticker,
            investor1_did,
            custodian_did,
            250_00_00 as u128,
        ),
        "Insufficient balance of holder did",
    );
    assert_eq!(ledger, before);

    // Failed to add/increase the custodian allowance because of Invalid custodian did
    let custodian_did_not_register = IdentityId::from_u128(5u128);
    let before = ledger.clone();
    assert_err(
        ledger.increase_custody_allowance(
            investor1_signed,
            ticker,
            investor1_did,
            custodian_did_not_register,
            50_00_00 as u128,
        ),
        "Invalid custodian DID",
    );
    assert_eq!(ledger, before);

    // Add custodian
    assert_eq!(
        ledger.increase_custody_allowance(
            investor1_signed,
            ticker,
            investor1_did,
            custodian_did,
            50_00_00 as u128
        ),
        Ok(())
    );
    assert_eq!(
        ledger.custodian_allowance(&ticker, investor1_did, custodian_did),
        50_00_00 as u128
    );
    assert_eq!(
        ledger.total_custody_allowance(&ticker, investor1_did),
        50_00_00 as u128
    );

    // Transfer the token upto the limit
    assert_eq!(
        ledger.transfer(
            investor1_signed,
            investor1_did,
            ticker,
            investor2_did,
            140_00_00 as u128,
            allowed()
        ),
        Ok(())
    );
    assert_eq!(
        ledger.balance_of(&ticker, investor2_did),
        140_00_00 as u128
    );

    // Try to Transfer the tokens beyond the limit
    let before = ledger.clone();
    assert_err(
        ledger.transfer(
            investor1_signed,
            investor1_did,
            ticker,
            investor2_did,
            50_00_00 as u128,
            allowed(),
        ),
        "Insufficient balance for transfer",
    );
    assert_eq!(ledger, before);

    // Should fail to transfer the token by the custodian because of invalid signing key
    let before = ledger.clone();
    assert_err(
        ledger.transfer_by_custodian(
            investor2_signed,
            ticker,
            investor1_did,
            custodian_did,
            investor2_did,
            45_00_00 as u128,
            allowed(),
        ),
        "sender must be a signing key for DID",
    );
    assert_eq!(ledger, before);

    // Should fail to transfer the token by the custodian because of insufficient allowance
    let before = ledger.clone();
    assert_err(
        ledger.transfer_by_custodian(
            custodian_signed,
            ticker,
            investor1_did,
            custodian_did,
            investor2_did,
            55_00_00 as u128,
            allowed(),
        ),
        "Insufficient allowance",
    );
    assert_eq!(ledger, before);

    // Successfully transfer by the custodian
    assert_eq!(
        ledger.transfer_by_custodian(
            custodian_signed,
            ticker,
            investor1_did,
            custodian_did,
            investor2_did,
            45_00_00 as u128,
            allowed()
        ),
        Ok(())
    );
}

/// A stand-in for a signature: the bytes that were signed, and by which key.
fn sign(signer: AccountKey, message: &[u8]) -> (AccountKey, Vec<u8>) {
    (signer, message.to_vec())
}

fn verify(signature: &(AccountKey, Vec<u8>), message: &[u8], signer: &AccountKey) -> bool {
    signature.0 == *signer && signature.1 == message
}

#[test]
fn valid_custodian_allowance_of() {
    let mut ledger = new_ledger();
    let (owner_signed, owner_did) = make_account(&mut ledger, DAVE);
    let token = default_token(&[0x01], owner_did);
    let ticker = Ticker::from_slice(token.name.as_slice());

    let (investor1_signed, investor1_did) = make_account(&mut ledger, BOB);
    let (investor2_signed, investor2_did) = make_account(&mut ledger, CHARLIE);
    let (custodian_signed, custodian_did) = make_account(&mut ledger, EVE);

    assert_eq!(
        create(&mut ledger, owner_signed, owner_did, &token, ticker, &vec![], None),
        Ok(())
    );
    assert_eq!(
        ledger.balance_of(&ticker, token.owner_did),
        token.total_supply
    );

    // Mint some tokens to investor1
    assert_eq!(
        ledger.issue(
            owner_signed,
            owner_did,
            ticker,
            investor1_did,
            200_00_00 as u128,
            allowed()
        ).map(|_| ()),
        Ok(())
    );
    assert_eq!(
        ledger.balance_of(&ticker, investor1_did),
        200_00_00 as u128
    );

    let msg = SignData {
        custodian_did,
        holder_did: investor1_did,
        ticker,
        value: 50_00_00 as u128,
        nonce: 1,
    };
    let investor1_key = key(BOB);
    let signature = sign(investor1_key, &msg.encode());
    let message = |nonce: u16| {
        SignData {
            custodian_did,
            holder_did: investor1_did,
            ticker,
            value: 50_00_00 as u128,
            nonce,
        }
        .encode()
    };

    // Add custodian
    assert_eq!(
        ledger.increase_custody_allowance_of(
            investor2_signed,
            ticker,
            investor1_did,
            investor1_key,
            custodian_did,
            investor2_did,
            50_00_00 as u128,
            1,
            verify(&signature, &message(1), &investor1_key)
        ),
        Ok(())
    );
    assert_eq!(
        ledger.custodian_allowance(&ticker, investor1_did, custodian_did),
        50_00_00 as u128
    );
    assert_eq!(
        ledger.total_custody_allowance(&ticker, investor1_did),
        50_00_00 as u128
    );

    // use the same signature with the same nonce should fail
    let before = ledger.clone();
    assert_err(
        ledger.increase_custody_allowance_of(
            investor2_signed,
            ticker,
            investor1_did,
            investor1_key,
            custodian_did,
            investor2_did,
            50_00_00 as u128,
            1,
            verify(&signature, &message(1), &investor1_key),
        ),
        "Signature already used",
    );
    assert_eq!(ledger, before);

    // use the same signature with the different nonce should fail
    let before = ledger.clone();
    assert_err(
        ledger.increase_custody_allowance_of(
            investor2_signed,
            ticker,
            investor1_did,
            investor1_key,
            custodian_did,
            investor2_did,
            50_00_00 as u128,
            3,
            verify(&signature, &message(3), &investor1_key),
        ),
        "Invalid signature",
    );
    assert_eq!(ledger, before);

    // Transfer the token upto the limit
    assert_eq!(
        ledger.transfer(
            investor1_signed,
            investor1_did,
            ticker,
            investor2_did,
            140_00_00 as u128,
            allowed()
        ),
        Ok(())
    );
    assert_eq!(
        ledger.balance_of(&ticker, investor2_did),
        140_00_00 as u128
    );

    // Try to Transfer the tokens beyond the limit
    let before = ledger.clone();
    assert_err(
        ledger.transfer(
            investor1_signed,
            investor1_did,
            ticker,
            investor2_did,
            50_00_00 as u128,
            allowed(),
        ),
        "Insufficient balance for transfer",
    );
    assert_eq!(ledger, before);

    // Should fail to transfer the token by the custodian because of invalid signing key
    let before = ledger.clone();
    assert_err(
        ledger.transfer_by_custodian(
            investor2_signed,
            ticker,
            investor1_did,
            custodian_did,
            investor2_did,
            45_00_00 as u128,
            allowed(),
        ),
        "sender must be a signing key for DID",
    );
    assert_eq!(ledger, before);

    // Should fail to transfer the token by the custodian because of insufficient allowance
    let before = ledger.clone();
    assert_err(
        ledger.transfer_by_custodian(
            custodian_signed,
            ticker,
            investor1_did,
            custodian_did,
            investor2_did,
            55_00_00 as u128,
            allowed(),
        ),
        "Insufficient allowance",
    );
    assert_eq!(ledger, before);

    // Successfully transfer by the custodian
    assert_eq!(
        ledger.transfer_by_custodian(
            custodian_signed,
            ticker,
            investor1_did,
            custodian_did,
            investor2_did,
            45_00_00 as u128,
            allowed()
        ),
        Ok(())
    );
}

#[test]
fn checkpoints_fuzz_test() {
    println!("Starting");
    for _ in 0..10 {
        let mut ledger = new_ledger();
        let (owner_signed, owner_did) = make_account(&mut ledger, DAVE);
        let token = default_token(&[0x01], owner_did);
        let ticker = Ticker::from_slice(token.name.as_slice());
        let (_, bob_did) = make_account(&mut ledger, BOB);

        assert_eq!(
            create(&mut ledger, owner_signed, owner_did, &token, ticker, &vec![], None),
            Ok(())
        );

        let mut owner_balance: [u128; 100] = [1_000_000; 100];
        let mut bob_balance: [u128; 100] = [0; 100];
        let mut rng = rand::thread_rng();
        for j in 1..100 {
            let transfers = rng.gen_range(0..10);
            owner_balance[j] = owner_balance[j - 1];
            bob_balance[j] = bob_balance[j - 1];
            for _k in 0..transfers {
                if j == 1 {
                    owner_balance[0] -= 1;
                    bob_balance[0] += 1;
                }
                owner_balance[j] -= 1;
                bob_balance[j] += 1;
                assert_eq!(
                    ledger.transfer(owner_signed, owner_did, ticker, bob_did, 1, allowed()),
                    Ok(())
                );
            }
            assert_eq!(
                ledger.create_checkpoint(owner_signed, owner_did, ticker),
                Ok(())
            );
            let x: u64 = u64::try_from(j).unwrap();
            assert_eq!(
                ledger.get_balance_at(ticker, owner_did, 0),
                owner_balance[j]
            );
            assert_eq!(ledger.get_balance_at(ticker, bob_did, 0), bob_balance[j]);
            assert_eq!(
                ledger.get_balance_at(ticker, owner_did, 1),
                owner_balance[1]
            );
            assert_eq!(ledger.get_balance_at(ticker, bob_did, 1), bob_balance[1]);
            assert_eq!(
                ledger.get_balance_at(ticker, owner_did, x - 1),
                owner_balance[j - 1]
            );
            assert_eq!(
                ledger.get_balance_at(ticker, bob_did, x - 1),
                bob_balance[j - 1]
            );
            assert_eq!(
                ledger.get_balance_at(ticker, owner_did, x),
                owner_balance[j]
            );
            assert_eq!(ledger.get_balance_at(ticker, bob_did, x), bob_balance[j]);
            assert_eq!(
                ledger.get_balance_at(ticker, owner_did, x + 1),
                owner_balance[j]
            );
            assert_eq!(
                ledger.get_balance_at(ticker, bob_did, x + 1),
                bob_balance[j]
            );
            assert_eq!(
                ledger.get_balance_at(ticker, owner_did, 1000),
                owner_balance[j]
            );
            assert_eq!(ledger.get_balance_at(ticker, bob_did, 1000), bob_balance[j]);
        }
    }
}

#[test]
fn register_ticker() {
    let mut ledger = new_ledger();
    let now = now();
    let (owner_signed, owner_did) = make_account(&mut ledger, DAVE);

    let token = default_token(&[0x01], owner_did);
    let identifiers = vec![(IdentifierType::Custom(b"check".to_vec()), b"me".to_vec())];
    let ticker = Ticker::from_slice(token.name.as_slice());
    assert_eq!(
        ledger.create_token(
            owner_signed,
            owner_did,
            token.name.clone(),
            ticker,
            token.total_supply,
            true,
            token.asset_type.clone(),
            &identifiers,
            None,
            token_did(&ticker),
            now,
        ),
        Ok(())
    );

    assert_eq!(ledger.is_ticker_registry_valid(&ticker, owner_did, now), true);
    assert_eq!(ledger.is_ticker_available(&ticker, now), false);
    let stored_token = ledger.token_details(&ticker);
    assert_eq!(stored_token.asset_type, token.asset_type);
    for (typ, val) in identifiers {
        assert_eq!(ledger.identifiers(&ticker, &typ), val);
    }

    let before = ledger.clone();
    assert_err(
        ledger.register_ticker(owner_signed, Ticker::from_slice(&[0x01]), now),
        "token already created",
    );
    assert_eq!(ledger, before);

    let before = ledger.clone();
    assert_err(
        ledger.register_ticker(
            owner_signed,
            Ticker::from_slice(&[0x01, 0x01, 0x01, 0x01, 0x01, 0x01, 0x01, 0x01, 0x01]),
            now,
        ),
        "ticker length over the limit",
    );
    assert_eq!(ledger, before);

    let ticker = Ticker::from_slice(&[0x01, 0x01]);

    assert_eq!(ledger.is_ticker_available(&ticker, now), true);

    assert_eq!(ledger.register_ticker(owner_signed, ticker, now), Ok(()));

    let ticker_link = ledger
        .identity
        .links(
            &Signatory::from_identity(owner_did),
            ledger.ticker_registration(&ticker).link_id,
        )
        .unwrap()
        .clone();
    assert_eq!(ticker_link.link_data, LinkData::TickerOwned(ticker));

    let (alice_signed, _) = make_account(&mut ledger, ALICE);

    let before = ledger.clone();
    assert_err(
        ledger.register_ticker(alice_signed, ticker, now),
        "ticker registered to someone else",
    );
    assert_eq!(ledger, before);

    assert_eq!(ledger.is_ticker_registry_valid(&ticker, owner_did, now), true);
    assert_eq!(ledger.is_ticker_available(&ticker, now), false);

    let later = now + 10001;

    assert_eq!(
        ledger.is_ticker_registry_valid(&ticker, owner_did, later),
        false
    );
    assert_eq!(ledger.is_ticker_available(&ticker, later), true);
}

#[test]
fn transfer_ticker() {
    let mut ledger = new_ledger();
    let now = now();

    let (owner_signed, owner_did) = make_account(&mut ledger, DAVE);
    let (alice_signed, alice_did) = make_account(&mut ledger, ALICE);
    let (bob_signed, bob_did) = make_account(&mut ledger, BOB);

    let ticker = Ticker::from_slice(&[0x01, 0x01]);

    assert_eq!(ledger.is_ticker_available(&ticker, now), true);
    assert_eq!(ledger.register_ticker(owner_signed, ticker, now), Ok(()));

    ledger.identity.add_auth(
        Signatory::from_identity(owner_did),
        Signatory::from_identity(alice_did),
        AuthorizationData::TransferTicker(ticker),
        None,
    );

    ledger.identity.add_auth(
        Signatory::from_identity(owner_did),
        Signatory::from_identity(bob_did),
        AuthorizationData::TransferTicker(ticker),
        None,
    );

    assert_eq!(ledger.is_ticker_registry_valid(&ticker, owner_did, now), true);
    assert_eq!(ledger.is_ticker_registry_valid(&ticker, alice_did, now), false);
    assert_eq!(ledger.is_ticker_available(&ticker, now), false);

    let mut auth_id = ledger
        .identity
        .last_authorization(&Signatory::from_identity(alice_did));

    let before = ledger.clone();
    assert_err(
        ledger.accept_ticker_transfer(alice_signed, auth_id + 1, now),
        "Authorization does not exist",
    );
    assert_eq!(ledger, before);

    let old_ticker = ledger.ticker_registration(&ticker);
    let old_ticker_link = ledger
        .identity
        .links(&Signatory::from_identity(old_ticker.owner), old_ticker.link_id)
        .unwrap()
        .clone();
    assert_eq!(old_ticker_link.link_data, LinkData::TickerOwned(ticker));

    assert_eq!(ledger.accept_ticker_transfer(alice_signed, auth_id, now), Ok(()));

    assert!(!ledger
        .identity
        .link_exists(&Signatory::from_identity(old_ticker.owner), old_ticker.link_id));

    let ticker_link = ledger
        .identity
        .links(
            &Signatory::from_identity(alice_did),
            ledger.ticker_registration(&ticker).link_id,
        )
        .unwrap()
        .clone();
    assert_eq!(ticker_link.link_data, LinkData::TickerOwned(ticker));

    auth_id = ledger
        .identity
        .last_authorization(&Signatory::from_identity(bob_did));
    let before = ledger.clone();
    assert_err(
        ledger.accept_ticker_transfer(bob_signed, auth_id, now),
        "Illegal use of Authorization",
    );
    assert_eq!(ledger, before);

    ledger.identity.add_auth(
        Signatory::from_identity(alice_did),
        Signatory::from_identity(bob_did),
        AuthorizationData::TransferTicker(ticker),
        Some(now - 100),
    );
    auth_id = ledger
        .identity
        .last_authorization(&Signatory::from_identity(bob_did));
    let before = ledger.clone();
    assert_err(
        ledger.accept_ticker_transfer(bob_signed, auth_id, now),
        "Authorization expired",
    );
    assert_eq!(ledger, before);

    ledger.identity.add_auth(
        Signatory::from_identity(alice_did),
        Signatory::from_identity(bob_did),
        AuthorizationData::Custom(ticker),
        Some(now + 100),
    );
    auth_id = ledger
        .identity
        .last_authorization(&Signatory::from_identity(bob_did));
    assert_eq!(
        ledger.accept_ticker_transfer(bob_signed, auth_id, now),
        Err(Error::NoTickerTransferAuth)
    );

    ledger.identity.add_auth(
        Signatory::from_identity(alice_did),
        Signatory::from_identity(bob_did),
        AuthorizationData::TransferTicker(ticker),
        Some(now + 100),
    );
    auth_id = ledger
        .identity
        .last_authorization(&Signatory::from_identity(bob_did));
    assert_eq!(ledger.accept_ticker_transfer(bob_signed, auth_id, now), Ok(()));

    assert_eq!(ledger.is_ticker_registry_valid(&ticker, owner_did, now), false);
    assert_eq!(ledger.is_ticker_registry_valid(&ticker, alice_did, now), false);
    assert_eq!(ledger.is_ticker_registry_valid(&ticker, bob_did, now), true);
    assert_eq!(ledger.is_ticker_available(&ticker, now), false);
}

#[test]
fn transfer_token_ownership() {
    let mut ledger = new_ledger();
    let now = now();

    let (owner_signed, owner_did) = make_account(&mut ledger, DAVE);
    let (alice_signed, alice_did) = make_account(&mut ledger, ALICE);
    let (bob_signed, bob_did) = make_account(&mut ledger, BOB);

    let token_name = vec![0x01, 0x01];
    let ticker = Ticker::from_slice(token_name.as_slice());
    assert_eq!(
        ledger.create_token(
            owner_signed,
            owner_did,
            token_name.clone(),
            ticker,
            1_000_000,
            true,
            AssetType::default(),
            &vec![],
            None,
            token_did(&ticker),
            now,
        ),
        Ok(())
    );

    ledger.identity.add_auth(
        Signatory::from_identity(owner_did),
        Signatory::from_identity(alice_did),
        AuthorizationData::TransferTokenOwnership(ticker),
        None,
    );

    ledger.identity.add_auth(
        Signatory::from_identity(owner_did),
        Signatory::from_identity(bob_did),
        AuthorizationData::TransferTokenOwnership(ticker),
        None,
    );

    assert_eq!(ledger.token_details(&ticker).owner_did, owner_did);

    let mut auth_id = ledger
        .identity
        .last_authorization(&Signatory::from_identity(alice_did));

    let before = ledger.clone();
    assert_err(
        ledger.accept_token_ownership_transfer(alice_signed, auth_id + 1, now),
        "Authorization does not exist",
    );
    assert_eq!(ledger, before);

    let old_ticker = ledger.ticker_registration(&ticker);
    let old_ticker_link = ledger
        .identity
        .links(&Signatory::from_identity(old_ticker.owner), old_ticker.link_id)
        .unwrap()
        .clone();
    assert_eq!(old_ticker_link.link_data, LinkData::TickerOwned(ticker));

    let old_token = ledger.token_details(&ticker);
    let old_token_link = ledger
        .identity
        .links(&Signatory::from_identity(old_token.owner_did), old_token.link_id)
        .unwrap()
        .clone();
    assert_eq!(old_token_link.link_data, LinkData::TokenOwned(ticker));

    assert_eq!(
        ledger.accept_token_ownership_transfer(alice_signed, auth_id, now),
        Ok(())
    );
    assert_eq!(ledger.token_details(&ticker).owner_did, alice_did);
    assert!(!ledger
        .identity
        .link_exists(&Signatory::from_identity(old_ticker.owner), old_ticker.link_id));
    assert!(!ledger
        .identity
        .link_exists(&Signatory::from_identity(old_token.owner_did), old_token.link_id));

    let ticker_link = ledger
        .identity
        .links(
            &Signatory::from_identity(alice_did),
            ledger.ticker_registration(&ticker).link_id,
        )
        .unwrap()
        .clone();
    assert_eq!(ticker_link.link_data, LinkData::TickerOwned(ticker));
    let token_link = ledger
        .identity
        .links(
            &Signatory::from_identity(alice_did),
            ledger.token_details(&ticker).link_id,
        )
        .unwrap()
        .clone();
    assert_eq!(token_link.link_data, LinkData::TokenOwned(ticker));

    auth_id = ledger
        .identity
        .last_authorization(&Signatory::from_identity(bob_did));
    let before = ledger.clone();
    assert_err(
        ledger.accept_token_ownership_transfer(bob_signed, auth_id, now),
        "Illegal use of Authorization",
    );
    assert_eq!(ledger, before);

    ledger.identity.add_auth(
        Signatory::from_identity(alice_did),
        Signatory::from_identity(bob_did),
        AuthorizationData::TransferTokenOwnership(ticker),
        Some(now - 100),
    );
    auth_id = ledger
        .identity
        .last_authorization(&Signatory::from_identity(bob_did));
    let before = ledger.clone();
    assert_err(
        ledger.accept_token_ownership_transfer(bob_signed, auth_id, now),
        "Authorization expired",
    );
    assert_eq!(ledger, before);

    ledger.identity.add_auth(
        Signatory::from_identity(alice_did),
        Signatory::from_identity(bob_did),
        AuthorizationData::Custom(ticker),
        Some(now + 100),
    );
    auth_id = ledger
        .identity
        .last_authorization(&Signatory::from_identity(bob_did));
    assert_eq!(
        ledger.accept_token_ownership_transfer(bob_signed, auth_id, now),
        Err(Error::NotTickerOwnershipTransferAuth)
    );

    ledger.identity.add_auth(
        Signatory::from_identity(alice_did),
        Signatory::from_identity(bob_did),
        AuthorizationData::TransferTokenOwnership(Ticker::from_slice(&[0x50])),
        Some(now + 100),
    );
    auth_id = ledger
        .identity
        .last_authorization(&Signatory::from_identity(bob_did));
    let before = ledger.clone();
    assert_err(
        ledger.accept_token_ownership_transfer(bob_signed, auth_id, now),
        "Token does not exist",
    );
    assert_eq!(ledger, before);

    ledger.identity.add_auth(
        Signatory::from_identity(alice_did),
        Signatory::from_identity(bob_did),
        AuthorizationData::TransferTokenOwnership(ticker),
        Some(now + 100),
    );
    auth_id = ledger
        .identity
        .last_authorization(&Signatory::from_identity(bob_did));
    assert_eq!(
        ledger.accept_token_ownership_transfer(bob_signed, auth_id, now),
        Ok(())
    );
    assert_eq!(ledger.token_details(&ticker).owner_did, bob_did);
}

#[test]
fn update_identifiers() {
    let mut ledger = new_ledger();
    let (owner_signed, owner_did) = make_account(&mut ledger, DAVE);
    let mut token = default_token(b"TEST", owner_did);
    let ticker = Ticker::from_slice(token.name.as_slice());
    assert!(!ledger.identity.did_exists(token_did(&ticker)));
    let identifier_value1 = b"ABC123";
    let identifiers = vec![(IdentifierType::Cusip, identifier_value1.to_vec())];
    assert_eq!(
        create(&mut ledger, owner_signed, owner_did, &token, ticker, &identifiers, None),
        Ok(())
    );

    token.link_id = ledger.token_details(&ticker).link_id;
    assert_eq!(ledger.token_details(&ticker), token);
    assert_eq!(
        ledger.identifiers(&ticker, &IdentifierType::Cusip),
        identifier_value1.to_vec()
    );
    let identifier_value2 = b"XYZ555";
    let updated_identifiers = vec![
        (IdentifierType::Cusip, Default::default()),
        (IdentifierType::Isin, identifier_value2.to_vec()),
    ];
    assert_eq!(
        ledger.update_identifiers(owner_signed, owner_did, ticker, &updated_identifiers),
        Ok(())
    );
    for (typ, val) in updated_identifiers {
        assert_eq!(ledger.identifiers(&ticker, &typ), val);
    }
}

#[test]
fn adding_removing_documents() {
    let mut ledger = new_ledger();
    let (owner_signed, owner_did) = make_account(&mut ledger, DAVE);
    let token = default_token(&[0x01], owner_did);
    let ticker = Ticker::from_slice(token.name.as_slice());
    assert!(!ledger.identity.did_exists(token_did(&ticker)));

    let identifiers = vec![(IdentifierType::default(), b"undefined".to_vec())];
    let ticker_did = token_did(&ticker);

    assert_eq!(
        create(&mut ledger, owner_signed, owner_did, &token, ticker, &identifiers, None),
        Ok(())
    );

    let documents = vec![
        Document {
            name: b"A".to_vec(),
            uri: b"www.a.com".to_vec(),
            hash: b"0x1".to_vec(),
        },
        Document {
            name: b"B".to_vec(),
            uri: b"www.b.com".to_vec(),
            hash: b"0x2".to_vec(),
        },
    ];

    assert_eq!(
        ledger.add_documents(owner_signed, owner_did, ticker, &documents, ticker_did),
        Ok(())
    );

    let last_id = ledger
        .identity
        .last_link(&Signatory::from_identity(ticker_did));
    let last_doc = ledger
        .identity
        .links(&Signatory::from_identity(ticker_did), last_id)
        .unwrap()
        .clone();

    assert_eq!(
        last_doc.link_data,
        LinkData::DocumentOwned(Document {
            name: b"B".to_vec(),
            uri: b"www.b.com".to_vec(),
            hash: b"0x2".to_vec()
        })
    );
    assert_eq!(last_doc.next_link, 0);
    assert_eq!(last_doc.expiry, None);

    let doc_ids = vec![last_id, last_doc.previous_link];

    assert_eq!(
        ledger.update_documents(
            owner_signed,
            owner_did,
            ticker,
            &vec![
                (
                    doc_ids[0],
                    Document {
                        name: b"C".to_vec(),
                        uri: b"www.c.com".to_vec(),
                        hash: b"0x3".to_vec(),
                    }
                ),
                (
                    doc_ids[1],
                    Document {
                        name: b"D".to_vec(),
                        uri: b"www.d.com".to_vec(),
                        hash: b"0x4".to_vec(),
                    }
                ),
            ],
            ticker_did
        ),
        Ok(())
    );

    let last_id = ledger
        .identity
        .last_link(&Signatory::from_identity(ticker_did));
    let last_doc = ledger
        .identity
        .links(&Signatory::from_identity(ticker_did), last_id)
        .unwrap()
        .clone();

    assert_eq!(
        last_doc.link_data,
        LinkData::DocumentOwned(Document {
            name: b"C".to_vec(),
            uri: b"www.c.com".to_vec(),
            hash: b"0x3".to_vec(),
        })
    );

    assert_eq!(
        ledger.remove_documents(owner_signed, owner_did, ticker, &doc_ids, ticker_did),
        Ok(())
    );

    assert_eq!(
        ledger
            .identity
            .last_link(&Signatory::from_identity(ticker_did)),
        0
    );
}

/// A ledger with the token "TEST" of `DAVE`, for whom the result signs.
fn with_test_token() -> (Asset, AccountKey, Ticker) {
    let mut ledger = new_ledger();
    let (owner_signed, owner_did) = make_account(&mut ledger, DAVE);
    let token = default_token(b"TEST", owner_did);
    let ticker = Ticker::from_slice(token.name.as_slice());
    assert!(!ledger.identity.did_exists(token_did(&ticker)));
    let identifier_value1 = b"ABC123";
    let identifiers = vec![(IdentifierType::Cusip, identifier_value1.to_vec())];
    assert_eq!(
        create(&mut ledger, owner_signed, owner_did, &token, ticker, &identifiers, None),
        Ok(())
    );
    (ledger, owner_signed, ticker)
}

fn extension(extension_type: SmartExtensionType, name: &[u8]) -> SmartExtension {
    SmartExtension {
        extension_type,
        extension_name: name.to_vec(),
        extension_id: key(BOB),
        is_archive: false,
    }
}

#[test]
fn add_extension_successfully() {
    let (mut ledger, owner_signed, ticker) = with_test_token();
    let extension_id = key(BOB);
    let extension_details = extension(SmartExtensionType::TransferManager, b"PTM");

    assert_eq!(
        ledger.add_extension(owner_signed, ticker, extension_details.clone()),
        Ok(())
    );

    assert_eq!(
        ledger.extension_details(&ticker, extension_id),
        Some(&extension_details)
    );
    assert_eq!(
        ledger
            .extensions(&ticker, &SmartExtensionType::TransferManager)
            .len(),
        1
    );
    assert_eq!(
        ledger.extensions(&ticker, &SmartExtensionType::TransferManager)[0],
        extension_id
    );
}

#[test]
fn add_same_extension_should_fail() {
    let (mut ledger, owner_signed, ticker) = with_test_token();
    let extension_id = key(BOB);
    let extension_details = extension(SmartExtensionType::TransferManager, b"PTM");

    assert_eq!(
        ledger.add_extension(owner_signed, ticker, extension_details.clone()),
        Ok(())
    );

    assert_eq!(
        ledger.extension_details(&ticker, extension_id),
        Some(&extension_details)
    );
    assert_eq!(
        ledger
            .extensions(&ticker, &SmartExtensionType::TransferManager)
            .len(),
        1
    );
    assert_eq!(
        ledger.extensions(&ticker, &SmartExtensionType::TransferManager)[0],
        extension_id
    );

    assert_eq!(
        ledger.add_extension(owner_signed, ticker, extension_details),
        Err(Error::ExtensionAlreadyPresent)
    );
}

#[test]
fn should_successfully_archive_extension() {
    let (mut ledger, owner_signed, ticker) = with_test_token();
    let extension_id = key(BOB);
    let extension_details = extension(SmartExtensionType::Offerings, b"STO");

    assert_eq!(
        ledger.add_extension(owner_signed, ticker, extension_details.clone()),
        Ok(())
    );

    assert_eq!(
        ledger.extension_details(&ticker, extension_id),
        Some(&extension_details)
    );
    assert_eq!(
        ledger
            .extensions(&ticker, &SmartExtensionType::Offerings)
            .len(),
        1
    );
    assert_eq!(
        ledger.extensions(&ticker, &SmartExtensionType::Offerings)[0],
        extension_id
    );

    assert_eq!(
        ledger.archive_extension(owner_signed, ticker, extension_id),
        Ok(())
    );

    assert_eq!(
        ledger
            .extension_details(&ticker, extension_id)
            .unwrap()
            .is_archive,
        true
    );
}

#[test]
fn should_fail_to_archive_an_already_archived_extension() {
    let (mut ledger, owner_signed, ticker) = with_test_token();
    let extension_id = key(BOB);
    let extension_details = extension(SmartExtensionType::Offerings, b"STO");

    assert_eq!(
        ledger.add_extension(owner_signed, ticker, extension_details.clone()),
        Ok(())
    );

    assert_eq!(
        ledger.extension_details(&ticker, extension_id),
        Some(&extension_details)
    );
    assert_eq!(
        ledger
            .extensions(&ticker, &SmartExtensionType::Offerings)
            .len(),
        1
    );
    assert_eq!(
        ledger.extensions(&ticker, &SmartExtensionType::Offerings)[0],
        extension_id
    );

    assert_eq!(
        ledger.archive_extension(owner_signed, ticker, extension_id),
        Ok(())
    );

    assert_eq!(
        ledger
            .extension_details(&ticker, extension_id)
            .unwrap()
            .is_archive,
        true
    );

    assert_eq!(
        ledger.archive_extension(owner_signed, ticker, extension_id),
        Err(Error::AlreadyArchived)
    );
}

#[test]
fn should_fail_to_archive_a_non_existent_extension() {
    let (mut ledger, owner_signed, ticker) = with_test_token();
    let extension_id = key(BOB);

    let before = ledger.clone();
    assert_err(
        ledger.archive_extension(owner_signed, ticker, extension_id),
        "Smart extension not exists",
    );
    assert_eq!(ledger, before);
}

#[test]
fn should_successfuly_unarchive_an_extension() {
    let (mut ledger, owner_signed, ticker) = with_test_token();
    let extension_id = key(BOB);
    let extension_details = extension(SmartExtensionType::Offerings, b"STO");

    assert_eq!(
        ledger.add_extension(owner_signed, ticker, extension_details.clone()),
        Ok(())
    );

    assert_eq!(
        ledger.extension_details(&ticker, extension_id),
        Some(&extension_details)
    );
    assert_eq!(
        ledger
            .extensions(&ticker, &SmartExtensionType::Offerings)
            .len(),
        1
    );
    assert_eq!(
        ledger.extensions(&ticker, &SmartExtensionType::Offerings)[0],
        extension_id
    );

    assert_eq!(
        ledger.archive_extension(owner_signed, ticker, extension_id),
        Ok(())
    );
    assert_eq!(
        ledger
            .extension_details(&ticker, extension_id)
            .unwrap()
            .is_archive,
        true
    );

    assert_eq!(
        ledger.unarchive_extension(owner_signed, ticker, extension_id),
        Ok(())
    );
    assert_eq!(
        ledger
            .extension_details(&ticker, extension_id)
            .unwrap()
            .is_archive,
        false
    );
}

#[test]
fn should_fail_to_unarchive_an_already_unarchived_extension() {
    let (mut ledger, owner_signed, ticker) = with_test_token();
    let extension_id = key(BOB);
    let extension_details = extension(SmartExtensionType::Offerings, b"STO");

    assert_eq!(
        ledger.add_extension(owner_signed, ticker, extension_details.clone()),
        Ok(())
    );

    assert_eq!(
        ledger.extension_details(&ticker, extension_id),
        Some(&extension_details)
    );
    assert_eq!(
        ledger
            .extensions(&ticker, &SmartExtensionType::Offerings)
            .len(),
        1
    );
    assert_eq!(
        ledger.extensions(&ticker, &SmartExtensionType::Offerings)[0],
        extension_id
    );

    assert_eq!(
        ledger.archive_extension(owner_signed, ticker, extension_id),
        Ok(())
    );
    assert_eq!(
        ledger
            .extension_details(&ticker, extension_id)
            .unwrap()
            .is_archive,
        true
    );

    assert_eq!(
        ledger.unarchive_extension(owner_signed, ticker, extension_id),
        Ok(())
    );
    assert_eq!(
        ledger
            .extension_details(&ticker, extension_id)
            .unwrap()
            .is_archive,
        false
    );

    assert_eq!(
        ledger.unarchive_extension(owner_signed, ticker, extension_id),
        Err(Error::AlreadyUnArchived)
    );
}

#[test]
fn freeze_unfreeze_asset() {
    let mut ledger = new_ledger();
    let now = now();
    let (alice_signed, alice_did) = make_account(&mut ledger, ALICE);
    let (bob_signed, bob_did) = make_account(&mut ledger, BOB);
    let token_name = b"COOL";
    let ticker = Ticker::from_slice(token_name);
    assert_eq!(
        ledger.create_token(
            alice_signed,
            alice_did,
            token_name.to_vec(),
            ticker,
            1_000_000,
            true,
            AssetType::default(),
            &vec![],
            None,
            token_did(&ticker),
            now,
        ),
        Ok(())
    );
    let before = ledger.clone();
    assert_err(
        ledger.freeze(bob_signed, ticker),
        "sender must be a signing key for the token owner DID",
    );
    assert_eq!(ledger, before);
    let before = ledger.clone();
    assert_err(ledger.unfreeze(alice_signed, ticker), "asset must be frozen");
    assert_eq!(ledger, before);
    assert_eq!(ledger.freeze(alice_signed, ticker), Ok(()));
    let before = ledger.clone();
    assert_err(
        ledger.freeze(alice_signed, ticker),
        "asset must not already be frozen",
    );
    assert_eq!(ledger, before);
    // Attempt to transfer token ownership.
    ledger.identity.add_auth(
        Signatory::from_identity(alice_did),
        Signatory::from_identity(bob_did),
        AuthorizationData::TransferTokenOwnership(ticker),
        None,
    );
    let auth_id = ledger
        .identity
        .last_authorization(&Signatory::from_identity(bob_did));
    // Attempt to mint tokens.
    let before = ledger.clone();
    assert_err(
        ledger.issue(alice_signed, alice_did, ticker, bob_did, 1, allowed()).map(|_| ()),
        "asset is frozen",
    );
    assert_eq!(ledger, before);
    assert_eq!(
        ledger.accept_token_ownership_transfer(bob_signed, auth_id, now),
        Ok(())
    );
    let before = ledger.clone();
    assert_err(
        ledger.transfer(alice_signed, alice_did, ticker, bob_did, 1, allowed()),
        "asset is frozen",
    );
    assert_eq!(ledger, before);
    // `batch_issue` fails when the vector of recipients is not empty.
    let before = ledger.clone();
    assert_err(
        ledger.batch_issue(
            bob_signed,
            bob_did,
            ticker,
            &vec![bob_did],
            &vec![1],
            &vec![allowed()],
        ).map(|_| ()),
        "asset is frozen",
    );
    assert_eq!(ledger, before);
    // `batch_issue` fails with the empty vector of investors with a different error message.
    let before = ledger.clone();
    assert_err(
        ledger.batch_issue(bob_signed, bob_did, ticker, &vec![], &vec![], &vec![]).map(|_| ()),
        "list of investors is empty",
    );
    assert_eq!(ledger, before);
    assert_eq!(ledger.unfreeze(bob_signed, ticker), Ok(()));
    let before = ledger.clone();
    assert_err(ledger.unfreeze(bob_signed, ticker), "asset must be frozen");
    assert_eq!(ledger, before);
    // Transfer some balance.
    assert_eq!(
        ledger.transfer(alice_signed, alice_did, ticker, bob_did, 1, allowed()),
        Ok(())
    );
}
