use polymesh_ledger::asset::checkpoint::{find_ceiling, try_find_ceiling};
use polymesh_ledger::asset::types::{
    AssetType, Compliance, Issued, TickerRegistrationConfig, TickerRegistrationStatus,
    APP_FUNDS_LIMIT_REACHED, ERC1400_INSUFFICIENT_BALANCE, ERC1400_INVALID_RECEIVER,
    ERC1400_TRANSFER_FAILURE, ERC1400_TRANSFER_SUCCESS, MAX_SUPPLY, ONE_UNIT,
};
use polymesh_ledger::asset::Module as Asset;
use polymesh_ledger::error::Error;
use polymesh_ledger::primitives::{AccountKey, IdentityId, LinkData, Signatory};
use polymesh_ledger::ticker::Ticker;

const NOW: u64 = 1_600_000_000;

fn key(n: u8) -> AccountKey {
    AccountKey([n; 32])
}

fn did(n: u8) -> IdentityId {
    IdentityId::from_u128(1000 + n as u128)
}

fn allowed() -> Compliance {
    Compliance {
        general: Some(ERC1400_TRANSFER_SUCCESS),
        exempted: false,
    }
}

/// A ledger in which `key(n)` is the master key of `did(n)` for `n` in 1..=5.
fn ledger() -> Asset {
    let mut ledger = Asset::new(TickerRegistrationConfig {
        max_ticker_length: 8,
        registration_length: Some(10000),
    });
    for n in 1..=5u8 {
        ledger
            .identity
            ._register_did(key(n), &vec![], 0, did(n))
            .unwrap();
    }
    ledger
}

fn token_did(ticker: &Ticker) -> IdentityId {
    let mut bytes = [0xffu8; 32];
    bytes[..12].copy_from_slice(&ticker.0);
    IdentityId(bytes)
}

fn create(ledger: &mut Asset, owner: u8, symbol: &[u8], supply: u128, divisible: bool) -> Ticker {
    let ticker = Ticker::from_slice(symbol);
    assert_eq!(
        ledger.create_token(
            key(owner),
            did(owner),
            symbol.to_vec(),
            ticker,
            supply,
            divisible,
            AssetType::Equity,
            &vec![],
            None,
            token_did(&ticker),
            NOW,
        ),
        Ok(())
    );
    ticker
}

/// The sum of what the five identities hold of `ticker`.
fn held(ledger: &Asset, ticker: &Ticker) -> u128 {
    (1..=5u8).map(|n| ledger.balance_of(ticker, did(n))).sum()
}

#[test]
fn checkpoint_tells_the_balance_before_a_transfer() {
    let mut l = ledger();
    let t = create(&mut l, 1, b"T", 1_000_000, true);
    assert_eq!(l.create_checkpoint(key(1), did(1), t), Ok(()));
    assert_eq!(
        l.transfer(key(1), did(1), t, did(2), 500_000, allowed()),
        Ok(())
    );
    assert_eq!(l.get_balance_at(t, did(1), 1), 1_000_000);
    assert_eq!(l.get_balance_at(t, did(1), 2), 500_000);
    assert_eq!(l.balance_of(&t, did(1)), 500_000);
    assert_eq!(l.get_balance_at(t, did(2), 1), 0);
    assert_eq!(l.get_balance_at(t, did(2), 2), 500_000);
    assert_eq!(l.user_checkpoints(&t, did(1)), vec![1]);
    assert_eq!(l.balance_at_checkpoint(&t, did(1), 1), 1_000_000);
    assert_eq!(l.total_supply_at(&t, 1), 1_000_000);
    assert_eq!(l.total_checkpoints_of(&t), 1);
}

#[test]
fn indivisible_token_is_issued_in_whole_units() {
    let mut l = ledger();
    let t = create(&mut l, 1, b"UNIT", 3 * ONE_UNIT, false);
    assert_eq!(
        l.issue(key(1), did(1), t, did(2), 500_000, allowed()).map(|_| ()),
        Err(Error::InvalidGranularity)
    );
    assert_eq!(l.balance_of(&t, did(2)), 0);
    assert_eq!(l.total_supply(t), 3_000_000);
    assert_eq!(
        l.issue(key(1), did(1), t, did(2), 1_000_000, allowed()).map(|_| ()),
        Ok(())
    );
    assert_eq!(l.balance_of(&t, did(2)), 1_000_000);
    assert_eq!(l.total_supply(t), 4_000_000);
    assert!(!l.check_granularity(&t, 1_500_000));
    assert!(l.check_granularity(&t, 0));
    assert!(l.check_granularity(&t, 2_000_000));
}

#[test]
fn holder_cannot_spend_what_is_pledged() {
    let mut l = ledger();
    let t = create(&mut l, 1, b"C", 100, true);
    assert_eq!(
        l.increase_custody_allowance(key(1), t, did(1), did(3), 60),
        Ok(())
    );
    assert_eq!(
        l.transfer(key(1), did(1), t, did(2), 50, allowed()),
        Err(Error::InsufficientBalanceForTransfer)
    );
    assert_eq!(l.balance_of(&t, did(1)), 100);
    assert_eq!(l.transfer(key(1), did(1), t, did(2), 40, allowed()), Ok(()));
    assert_eq!(l.balance_of(&t, did(1)), 60);
    assert_eq!(
        l.transfer_by_custodian(key(3), t, did(1), did(3), did(2), 60, allowed()),
        Ok(())
    );
    assert_eq!(l.balance_of(&t, did(1)), 0);
    assert_eq!(l.balance_of(&t, did(2)), 100);
    assert_eq!(l.custodian_allowance(&t, did(1), did(3)), 0);
    assert_eq!(l.total_custody_allowance(&t, did(1)), 0);
}

#[test]
fn custodian_spends_its_allowance_once() {
    let mut l = ledger();
    let t = create(&mut l, 1, b"C", 100, true);
    assert_eq!(
        l.increase_custody_allowance(key(1), t, did(1), did(3), 30),
        Ok(())
    );
    assert_eq!(
        l.increase_custody_allowance(key(1), t, did(1), did(4), 30),
        Ok(())
    );
    assert_eq!(l.total_custody_allowance(&t, did(1)), 60);
    assert_eq!(
        l.transfer_by_custodian(key(3), t, did(1), did(3), did(2), 30, allowed()),
        Ok(())
    );
    assert_eq!(l.custodian_allowance(&t, did(1), did(3)), 0);
    assert_eq!(l.custodian_allowance(&t, did(1), did(4)), 30);
    assert_eq!(l.total_custody_allowance(&t, did(1)), 30);
    assert_eq!(
        l.transfer_by_custodian(key(3), t, did(1), did(3), did(2), 1, allowed()),
        Err(Error::InsufficientAllowance)
    );
    assert!(l.balance_of(&t, did(1)) >= l.total_custody_allowance(&t, did(1)));
}

#[test]
fn supply_is_conserved_by_movements_and_issuance() {
    let mut l = ledger();
    let t = create(&mut l, 1, b"SUM", 1_000, true);
    assert_eq!(held(&l, &t), l.total_supply(t));
    assert_eq!(l.transfer(key(1), did(1), t, did(2), 300, allowed()), Ok(()));
    assert_eq!(held(&l, &t), 1_000);
    assert_eq!(l.issue(key(1), did(1), t, did(3), 77, allowed()).map(|_| ()), Ok(()));
    assert_eq!(held(&l, &t), 1_077);
    assert_eq!(l.total_supply(t), 1_077);
    assert_eq!(
        l.batch_issue(
            key(1),
            did(1),
            t,
            &vec![did(2), did(4)],
            &vec![5, 6],
            &vec![allowed(), allowed()]
        ).map(|_| ()),
        Ok(())
    );
    assert_eq!(held(&l, &t), 1_088);
    assert_eq!(l.total_supply(t), 1_088);
    assert_eq!(l.controller_redeem(key(1), did(1), t, did(2), 105), Ok(()));
    assert_eq!(l.balance_of(&t, did(2)), 200);
    assert_eq!(held(&l, &t), 983);
    assert_eq!(l.total_supply(t), 983);
    assert_eq!(
        l.controller_transfer(key(1), did(1), t, did(2), did(5), 200),
        Ok(())
    );
    assert_eq!(held(&l, &t), l.total_supply(t));
}

#[test]
fn transfer_to_oneself_leaves_the_balance() {
    let mut l = ledger();
    let t = create(&mut l, 1, b"SELF", 1_000, true);
    assert_eq!(l.create_checkpoint(key(1), did(1), t), Ok(()));
    assert_eq!(l.transfer(key(1), did(1), t, did(1), 100, allowed()), Ok(()));
    assert_eq!(l.balance_of(&t, did(1)), 1_000);
    assert_eq!(l.total_supply(t), 1_000);
    assert_eq!(held(&l, &t), 1_000);
    assert_eq!(l.transfer(key(1), did(1), t, did(1), 1_000, allowed()), Ok(()));
    assert_eq!(l.balance_of(&t, did(1)), 1_000);
    assert_eq!(l.get_balance_at(t, did(1), 1), 1_000);
    assert_eq!(
        l.transfer(key(1), did(1), t, did(1), 1_001, allowed()),
        Err(Error::BalanceUnderflow)
    );
    assert_eq!(
        l.controller_transfer(key(1), did(1), t, did(1), did(1), 7),
        Ok(())
    );
    assert_eq!(l.balance_of(&t, did(1)), 1_000);
    assert_eq!(l.approve(key(1), did(1), t, did(1), 10), Ok(()));
    assert_eq!(
        l.transfer_from(key(1), did(1), t, did(1), did(1), 10, allowed()),
        Ok(())
    );
    assert_eq!(l.balance_of(&t, did(1)), 1_000);
    assert_eq!(held(&l, &t), l.total_supply(t));
}

#[test]
fn batch_is_issued_whole_or_not_at_all() {
    let mut l = ledger();
    let t = create(&mut l, 1, b"B", 10 * ONE_UNIT, false);
    let refused = Compliance {
        general: Some(0x50),
        exempted: false,
    };
    assert_eq!(
        l.batch_issue(
            key(1),
            did(1),
            t,
            &vec![did(2), did(3)],
            &vec![ONE_UNIT, ONE_UNIT + 1],
            &vec![allowed(), allowed()]
        ).map(|_| ()),
        Err(Error::InvalidGranularity)
    );
    assert_eq!(
        l.batch_issue(
            key(1),
            did(1),
            t,
            &vec![did(2), did(3)],
            &vec![ONE_UNIT, ONE_UNIT],
            &vec![allowed(), refused]
        ).map(|_| ()),
        Err(Error::TransferRestrictionsFailed)
    );
    assert_eq!(
        l.batch_issue(
            key(1),
            did(1),
            t,
            &vec![did(2), did(3)],
            &vec![ONE_UNIT],
            &vec![allowed(), allowed()]
        ).map(|_| ()),
        Err(Error::InvestorListMismatch)
    );
    assert_eq!(
        l.batch_issue(
            key(1),
            did(1),
            t,
            &vec![did(2), did(3)],
            &vec![ONE_UNIT, MAX_SUPPLY],
            &vec![allowed(), allowed()]
        ).map(|_| ()),
        Err(Error::TotalSupplyAboveLimit)
    );
    assert_eq!(
        l.batch_issue(
            key(2),
            did(2),
            t,
            &vec![did(2)],
            &vec![ONE_UNIT],
            &vec![allowed()]
        ).map(|_| ()),
        Err(Error::NotAuthorized)
    );
    assert_eq!(l.balance_of(&t, did(2)), 0);
    assert_eq!(l.balance_of(&t, did(3)), 0);
    assert_eq!(l.total_supply(t), 10 * ONE_UNIT);
    assert_eq!(l.issued_in_funding_round(&t, &vec![]), 0);

    assert_eq!(
        l.batch_issue(
            key(1),
            did(1),
            t,
            &vec![did(2), did(3)],
            &vec![ONE_UNIT, 2 * ONE_UNIT],
            &vec![allowed(), allowed()]
        ).map(|_| ()),
        Ok(())
    );
    assert_eq!(l.balance_of(&t, did(2)), ONE_UNIT);
    assert_eq!(l.balance_of(&t, did(3)), 2 * ONE_UNIT);
    assert_eq!(l.total_supply(t), 13 * ONE_UNIT);
    assert_eq!(l.issued_in_funding_round(&t, &vec![]), 3 * ONE_UNIT);
}

#[test]
fn batch_that_names_an_identity_twice_credits_both_values() {
    let mut l = ledger();
    let t = create(&mut l, 1, b"DUP", 100, true);
    assert_eq!(l.create_checkpoint(key(1), did(1), t), Ok(()));
    assert_eq!(
        l.batch_issue(
            key(1),
            did(1),
            t,
            &vec![did(2), did(3), did(2)],
            &vec![10, 1, 5],
            &vec![allowed(), allowed(), allowed()]
        )
        .map(|_| ()),
        Ok(())
    );
    assert_eq!(l.balance_of(&t, did(2)), 15);
    assert_eq!(l.balance_of(&t, did(3)), 1);
    assert_eq!(l.total_supply(t), 116);
    assert_eq!(held(&l, &t), 116);
    assert_eq!(l.get_balance_at(t, did(2), 1), 0);
    assert_eq!(l.statistics.investor_count_per_asset(&t), 2);
}

#[test]
fn holders_redeem_what_is_not_pledged() {
    let mut l = ledger();
    let t = create(&mut l, 1, b"R", 1_000, true);
    assert_eq!(l.create_checkpoint(key(1), did(1), t), Ok(()));
    assert_eq!(
        l.redeem(key(1), did(1), t, 2_000, allowed()),
        Err(Error::NotEnoughBalance)
    );
    assert_eq!(
        l.redeem(key(2), did(2), t, 10, allowed()),
        Err(Error::AccountDoesNotOwnToken)
    );
    assert_eq!(
        l.redeem(key(2), did(1), t, 10, allowed()),
        Err(Error::SenderNotSigningKey)
    );
    assert_eq!(
        l.redeem(
            key(1),
            did(1),
            t,
            10,
            Compliance {
                general: Some(0x56),
                exempted: false
            }
        ),
        Err(Error::TransferRestrictionsFailed)
    );
    assert_eq!(
        l.redeem(
            key(1),
            did(1),
            t,
            10,
            Compliance {
                general: None,
                exempted: false
            }
        ),
        Err(Error::ComplianceFailure)
    );
    assert_eq!(l.total_supply(t), 1_000);
    // A cap on ownership does not stand against a redemption.
    assert_eq!(
        l.toggle_maximum_percentage_restriction(key(1), did(1), t, 1),
        Ok(())
    );
    assert_eq!(l.redeem(key(1), did(1), t, 10, allowed()), Ok(()));
    assert_eq!(
        l.toggle_maximum_percentage_restriction(key(1), did(1), t, 0),
        Ok(())
    );
    assert_eq!(l.balance_of(&t, did(1)), 990);
    assert_eq!(l.total_supply(t), 990);
    assert_eq!(l.get_balance_at(t, did(1), 1), 1_000);
    assert_eq!(l.total_supply_at(&t, 1), 1_000);

    assert_eq!(
        l.increase_custody_allowance(key(1), t, did(1), did(3), 900),
        Ok(())
    );
    assert_eq!(
        l.redeem(key(1), did(1), t, 91, allowed()),
        Err(Error::InsufficientBalanceForTransfer)
    );
    assert_eq!(l.redeem(key(1), did(1), t, 90, allowed()), Ok(()));
    assert_eq!(l.balance_of(&t, did(1)), 900);
    assert_eq!(l.total_supply(t), 900);
    assert_eq!(l.freeze(key(1), t), Ok(()));
    assert_eq!(
        l.redeem(key(1), did(1), t, 0, allowed()),
        Err(Error::AssetFrozen)
    );
    assert_eq!(held(&l, &t), l.total_supply(t));
}

#[test]
fn spender_redeems_against_an_allowance() {
    let mut l = ledger();
    let t = create(&mut l, 1, b"RF", 1_000, true);
    assert_eq!(l.approve(key(1), did(1), t, did(2), 50), Ok(()));
    assert_eq!(l.transfer(key(1), did(1), t, did(2), 100, allowed()), Ok(()));
    assert_eq!(
        l.redeem_from(key(2), did(2), t, did(1), 60, allowed()),
        Err(Error::NotEnoughAllowance)
    );
    assert_eq!(
        l.redeem_from(key(2), did(2), t, did(3), 10, allowed()),
        Err(Error::AllowanceDoesNotExist)
    );
    assert_eq!(
        l.redeem_from(key(2), did(2), t, did(1), 101, allowed()),
        Err(Error::NotEnoughBalance)
    );
    assert_eq!(
        l.redeem_from(key(2), did(2), t, did(1), 10, allowed()),
        Ok(())
    );
    assert_eq!(l.allowance(&t, did(1), did(2)), 40);
    assert_eq!(l.balance_of(&t, did(2)), 90);
    assert_eq!(l.balance_of(&t, did(1)), 900);
    assert_eq!(l.total_supply(t), 990);
    assert_eq!(held(&l, &t), 990);
}

#[test]
fn owner_redeems_by_force() {
    let mut l = ledger();
    let t = create(&mut l, 1, b"F", 10 * ONE_UNIT, false);
    assert_eq!(
        l.controller_redeem(key(2), did(2), t, did(1), ONE_UNIT),
        Err(Error::NotTokenOwner)
    );
    assert_eq!(
        l.controller_redeem(key(1), did(1), t, did(1), 1),
        Err(Error::InvalidGranularity)
    );
    assert_eq!(
        l.controller_redeem(key(1), did(1), t, did(2), ONE_UNIT),
        Err(Error::AccountDoesNotOwnToken)
    );
    assert_eq!(
        l.controller_redeem(key(1), did(1), t, did(1), 11 * ONE_UNIT),
        Err(Error::NotEnoughBalance)
    );
    assert_eq!(l.create_checkpoint(key(1), did(1), t), Ok(()));
    assert_eq!(l.controller_redeem(key(1), did(1), t, did(1), 4 * ONE_UNIT), Ok(()));
    assert_eq!(l.balance_of(&t, did(1)), 6 * ONE_UNIT);
    assert_eq!(l.total_supply(t), 6 * ONE_UNIT);
    assert_eq!(l.get_balance_at(t, did(1), 1), 10 * ONE_UNIT);
    assert_eq!(l.total_supply_at(&t, 1), 10 * ONE_UNIT);
}

#[test]
fn allowance_is_spent_by_transfer_from() {
    let mut l = ledger();
    let t = create(&mut l, 1, b"A", 1_000, true);
    assert_eq!(
        l.approve(key(2), did(2), t, did(3), 10),
        Err(Error::AccountDoesNotOwnToken)
    );
    assert_eq!(
        l.approve(key(2), did(1), t, did(3), 10),
        Err(Error::SenderNotSigningKey)
    );
    assert_eq!(l.approve(key(1), did(1), t, did(3), 100), Ok(()));
    assert_eq!(l.approve(key(1), did(1), t, did(3), 50), Ok(()));
    assert_eq!(l.allowance(&t, did(1), did(3)), 150);
    assert_eq!(
        l.approve(key(1), did(1), t, did(3), u128::MAX),
        Err(Error::AllowanceOverflow)
    );
    assert_eq!(
        l.transfer_from(key(3), did(3), t, did(1), did(2), 151, allowed()),
        Err(Error::NotEnoughAllowance)
    );
    assert_eq!(
        l.transfer_from(key(2), did(2), t, did(1), did(2), 1, allowed()),
        Err(Error::AllowanceDoesNotExist)
    );
    assert_eq!(
        l.transfer_from(key(3), did(3), t, did(1), did(2), 120, allowed()),
        Ok(())
    );
    assert_eq!(l.allowance(&t, did(1), did(3)), 30);
    assert_eq!(l.balance_of(&t, did(1)), 880);
    assert_eq!(l.balance_of(&t, did(2)), 120);
    assert_eq!(l.balance_of(&t, did(3)), 0);
}

#[test]
fn transfer_is_turned_down_for_its_reasons_in_order() {
    let mut l = ledger();
    let t = create(&mut l, 1, b"I", 10 * ONE_UNIT, false);
    assert_eq!(
        l.transfer(key(2), did(1), t, did(2), ONE_UNIT, allowed()),
        Err(Error::SenderNotSigningKey)
    );
    assert_eq!(
        l.transfer(key(1), did(1), t, did(2), 11 * ONE_UNIT, allowed()),
        Err(Error::BalanceUnderflow)
    );
    assert_eq!(
        l.transfer(
            key(1),
            did(1),
            t,
            did(2),
            ONE_UNIT,
            Compliance {
                general: None,
                exempted: false
            }
        ),
        Err(Error::ComplianceFailure)
    );
    assert_eq!(
        l.transfer(
            key(1),
            did(1),
            t,
            did(2),
            ONE_UNIT,
            Compliance {
                general: Some(0x56),
                exempted: false
            }
        ),
        Err(Error::TransferRestrictionsFailed)
    );
    assert_eq!(
        l.transfer(key(1), did(1), t, did(2), 1, allowed()),
        Err(Error::InvalidGranularity)
    );
    assert_eq!(
        l.transfer(key(2), did(2), t, did(1), 0, allowed()),
        Err(Error::AccountDoesNotOwnToken)
    );
    assert_eq!(l.balance_of(&t, did(1)), 10 * ONE_UNIT);
    assert_eq!(l.transfer(key(1), did(1), t, did(2), ONE_UNIT, allowed()), Ok(()));
}

#[test]
fn balance_overflow_is_an_error() {
    let mut l = ledger();
    let t = create(&mut l, 1, b"O", 100, true);
    assert_eq!(
        l._mint(&t, did(2), u128::MAX, allowed()).map(|_| ()),
        Err(Error::TotalSupplyOverflow)
    );
    assert_eq!(
        l._mint(&t, did(2), MAX_SUPPLY, allowed()).map(|_| ()),
        Err(Error::TotalSupplyAboveLimit)
    );
    assert_eq!(l._mint(&t, did(2), MAX_SUPPLY - 100, allowed()).map(|_| ()), Ok(()));
    assert_eq!(l.total_supply(t), MAX_SUPPLY);
    assert_eq!(l._mint(&t, did(2), 1, allowed()).map(|_| ()), Err(Error::TotalSupplyAboveLimit));
    assert_eq!(
        l.increase_custody_allowance(key(1), t, did(1), did(2), 10),
        Ok(())
    );
    assert_eq!(
        l.increase_custody_allowance(key(1), t, did(1), did(2), u128::MAX),
        Err(Error::TotalCustodyAllowanceOverflow)
    );
}

#[test]
fn dry_run_reports_a_status() {
    let mut l = ledger();
    let t = create(&mut l, 1, b"DRY", 100, true);
    assert_eq!(
        l.can_transfer(t, did(1), did(2), 10, allowed()),
        ERC1400_TRANSFER_SUCCESS
    );
    assert_eq!(l.can_transfer(t, did(1), did(2), 10, allowed()), 0);
    assert_eq!(
        l.increase_custody_allowance(key(1), t, did(1), did(3), 60),
        Ok(())
    );
    assert_eq!(
        l.can_transfer(t, did(1), did(2), 50, allowed()),
        ERC1400_INSUFFICIENT_BALANCE
    );
    assert_eq!(
        l.can_transfer(t, did(1), did(2), 500, allowed()),
        ERC1400_INSUFFICIENT_BALANCE
    );
    assert_eq!(
        l.can_transfer(
            t,
            did(1),
            did(2),
            10,
            Compliance {
                general: Some(0x56),
                exempted: false
            }
        ),
        0x56
    );
    assert_eq!(
        l.can_transfer(
            t,
            did(1),
            did(2),
            10,
            Compliance {
                general: None,
                exempted: false
            }
        ),
        ERC1400_TRANSFER_FAILURE
    );
    assert_eq!(l.freeze(key(1), t), Ok(()));
    assert_eq!(
        l.can_transfer(t, did(1), did(2), 10, allowed()),
        ERC1400_TRANSFER_FAILURE
    );
    assert_eq!(l.balance_of(&t, did(1)), 100);
}

#[test]
fn cap_on_ownership_limits_the_receiver() {
    let mut l = ledger();
    let t = create(&mut l, 1, b"CAP", 1_000, true);
    assert_eq!(
        l.toggle_maximum_percentage_restriction(key(2), did(2), t, 25),
        Err(Error::NotOwner)
    );
    assert_eq!(
        l.toggle_maximum_percentage_restriction(key(1), did(1), t, 25),
        Ok(())
    );
    assert_eq!(l.percentage.maximum_percentage_enabled_for_token(&t), 25);
    assert_eq!(
        l._is_valid_transfer(&t, Some(did(1)), Some(did(2)), 250, allowed()),
        Ok(ERC1400_TRANSFER_SUCCESS)
    );
    assert_eq!(
        l._is_valid_transfer(&t, Some(did(1)), Some(did(2)), 251, allowed()),
        Ok(APP_FUNDS_LIMIT_REACHED)
    );
    assert_eq!(
        l._is_valid_transfer(&t, Some(did(1)), None, 1, allowed()),
        Ok(ERC1400_INVALID_RECEIVER)
    );
    assert_eq!(
        l._is_valid_transfer(
            &t,
            Some(did(1)),
            None,
            1,
            Compliance {
                general: Some(0x56),
                exempted: false
            }
        ),
        Ok(0x56)
    );
    assert_eq!(
        l.percentage
            .verify_restriction(&t, None, 1, false, 0, 1_000),
        Ok(ERC1400_INVALID_RECEIVER)
    );
    assert_eq!(l.ensure_redeemable(&t, allowed()), Ok(()));
    assert_eq!(
        l.ensure_redeemable(
            &t,
            Compliance {
                general: Some(0x56),
                exempted: true
            }
        ),
        Err(Error::TransferRestrictionsFailed)
    );
    assert_eq!(
        l._is_valid_transfer(
            &t,
            Some(did(1)),
            Some(did(2)),
            900,
            Compliance {
                general: Some(0),
                exempted: true
            }
        ),
        Ok(ERC1400_TRANSFER_SUCCESS)
    );
    assert_eq!(
        l.transfer(key(1), did(1), t, did(2), 251, allowed()),
        Err(Error::TransferRestrictionsFailed)
    );
    assert_eq!(l.transfer(key(1), did(1), t, did(2), 250, allowed()), Ok(()));
    assert_eq!(
        l.transfer(key(1), did(1), t, did(2), 1, allowed()),
        Err(Error::TransferRestrictionsFailed)
    );
    assert_eq!(
        l.percentage
            .verify_restriction(&t, Some(did(2)), 1, false, u128::MAX, 1_000),
        Err(Error::ReceiverBalanceOverflow)
    );
    assert_eq!(
        l.percentage
            .verify_restriction(&t, Some(did(2)), 1, false, u128::MAX / 2, 1_000),
        Err(Error::UnsafeMultiplication)
    );
    assert_eq!(
        l.percentage
            .verify_restriction(&t, Some(did(2)), 1, false, 0, 0),
        Err(Error::UnsafeDivision)
    );
    assert_eq!(
        l.toggle_maximum_percentage_restriction(key(1), did(1), t, 0),
        Ok(())
    );
    assert_eq!(l.transfer(key(1), did(1), t, did(2), 500, allowed()), Ok(()));
}

#[test]
fn divisibility_is_granted_once() {
    let mut l = ledger();
    let t = create(&mut l, 1, b"DIV", 2 * ONE_UNIT, false);
    assert_eq!(
        l.transfer(key(1), did(1), t, did(2), 5, allowed()),
        Err(Error::InvalidGranularity)
    );
    assert_eq!(
        l.make_divisible(key(2), did(2), t),
        Err(Error::NotAuthorized)
    );
    assert_eq!(l.make_divisible(key(1), did(1), t), Ok(()));
    assert!(l.token_details(&t).divisible);
    assert_eq!(
        l.make_divisible(key(1), did(1), t),
        Err(Error::AlreadyDivisible)
    );
    assert_eq!(l.transfer(key(1), did(1), t, did(2), 5, allowed()), Ok(()));
}

#[test]
fn balance_at_falls_back_to_the_current_balance() {
    let mut l = ledger();
    let t = create(&mut l, 1, b"CP", 1_000, true);
    assert_eq!(l.get_balance_at(t, did(1), 0), 1_000);
    assert_eq!(l.get_balance_at(t, did(1), 1), 1_000);
    assert_eq!(l.get_balance_at(t, did(1), 7), 1_000);
    for _ in 0..3 {
        assert_eq!(l.create_checkpoint(key(1), did(1), t), Ok(()));
    }
    assert_eq!(l.total_checkpoints_of(&t), 3);
    assert_eq!(l.transfer(key(1), did(1), t, did(2), 100, allowed()), Ok(()));
    assert_eq!(l.create_checkpoint(key(1), did(1), t), Ok(()));
    assert_eq!(l.create_checkpoint(key(1), did(1), t), Ok(()));
    assert_eq!(l.transfer(key(1), did(1), t, did(2), 10, allowed()), Ok(()));
    assert_eq!(l.transfer(key(1), did(1), t, did(2), 10, allowed()), Ok(()));
    assert_eq!(l.user_checkpoints(&t, did(1)), vec![3, 5]);
    for (at, expected) in [(0, 880), (1, 1_000), (2, 1_000), (3, 1_000), (4, 900), (5, 900), (6, 880)] {
        assert_eq!(l.get_balance_at(t, did(1), at), expected, "at {}", at);
        assert_eq!(l.get_balance_at(t, did(1), at), expected, "at {} again", at);
    }
    for (at, expected) in [(0, 120), (1, 0), (3, 0), (4, 100), (5, 100), (6, 120)] {
        assert_eq!(l.get_balance_at(t, did(2), at), expected, "at {}", at);
    }
    // An identity that never transacted holds what it holds at every checkpoint.
    for at in 0..8 {
        assert_eq!(l.get_balance_at(t, did(4), at), 0);
    }
    for id in 1..=5 {
        assert_eq!(l.total_supply_at(&t, id), 1_000);
    }
    assert_eq!(l.total_supply_at(&t, 6), 0);
}

#[test]
fn only_the_owner_makes_checkpoints() {
    let mut l = ledger();
    let t = create(&mut l, 1, b"CP", 1_000, true);
    assert_eq!(
        l.create_checkpoint(key(2), did(2), t),
        Err(Error::NotAuthorized)
    );
    assert_eq!(
        l.create_checkpoint(key(2), did(1), t),
        Err(Error::SenderNotSigningKey)
    );
    assert_eq!(l.total_checkpoints_of(&t), 0);
    assert_eq!(l._create_checkpoint(&t), Ok(()));
    assert_eq!(l.total_checkpoints_of(&t), 1);
}

#[test]
fn ceiling_is_the_smallest_element_not_below_the_key() {
    let list = vec![2, 5, 9, 10, 40];
    for (key, expected) in [
        (0, 2),
        (1, 2),
        (2, 2),
        (3, 5),
        (5, 5),
        (6, 9),
        (9, 9),
        (10, 10),
        (11, 40),
        (40, 40),
    ] {
        assert_eq!(find_ceiling(&list, key), expected, "key {}", key);
    }
    assert_eq!(find_ceiling(&vec![7], 7), 7);
    assert_eq!(find_ceiling(&vec![7], 0), 7);
    assert_eq!(find_ceiling(&vec![1, 2], 2), 2);
    assert_eq!(find_ceiling(&vec![1, 2, 3], 3), 3);
}

#[test]
fn token_creation_is_turned_down_for_its_reasons() {
    let mut l = ledger();
    let t = Ticker::from_slice(b"NEW");
    let attempt = |l: &mut Asset, owner: u8, name: Vec<u8>, ticker: Ticker, supply: u128, divisible: bool, token_did: IdentityId| {
        l.create_token(
            key(owner),
            did(owner),
            name,
            ticker,
            supply,
            divisible,
            AssetType::Debt,
            &vec![],
            None,
            token_did,
            NOW,
        )
    };
    assert_eq!(
        l.create_token(
            key(2),
            did(1),
            b"n".to_vec(),
            t,
            1,
            true,
            AssetType::Debt,
            &vec![],
            None,
            token_did(&t),
            NOW
        ),
        Err(Error::SenderNotSigningKey)
    );
    assert_eq!(
        attempt(&mut l, 1, b"n".to_vec(), Ticker::from_slice(b"TOOLONG99"), 1, true, token_did(&t)),
        Err(Error::TickerTooLong)
    );
    assert_eq!(
        attempt(&mut l, 1, vec![b'n'; 65], t, 1, true, token_did(&t)),
        Err(Error::TokenNameTooLong)
    );
    assert_eq!(
        attempt(&mut l, 1, b"n".to_vec(), t, ONE_UNIT + 1, false, token_did(&t)),
        Err(Error::InvalidTotalSupply)
    );
    assert_eq!(
        attempt(&mut l, 1, b"n".to_vec(), t, MAX_SUPPLY + 1, true, token_did(&t)),
        Err(Error::TotalSupplyAboveLimit)
    );
    assert_eq!(
        attempt(&mut l, 1, b"n".to_vec(), t, 1, true, did(2)),
        Err(Error::DidMustBeUnique)
    );
    assert_eq!(l.register_ticker(key(2), t, NOW), Ok(()));
    assert_eq!(
        attempt(&mut l, 1, b"n".to_vec(), t, 1, true, token_did(&t)),
        Err(Error::TickerTaken)
    );
    assert!(!l.token_exists(&t));
    assert_eq!(l.balance_of(&t, did(1)), 0);
    assert_eq!(
        attempt(&mut l, 2, vec![b'n'; 64], t, MAX_SUPPLY, true, token_did(&t)),
        Ok(())
    );
    assert_eq!(l.ticker_registration(&t).expiry, None);
    assert_eq!(l.ticker_registration(&t).owner, did(2));
    assert_eq!(
        attempt(&mut l, 2, b"n".to_vec(), t, 1, true, did(77)),
        Err(Error::TokenAlreadyCreated)
    );
    assert_eq!(l.total_supply(t), MAX_SUPPLY);
    assert_eq!(l.balance(t, did(2)), MAX_SUPPLY);
}

#[test]
fn registration_expires_and_is_taken_over() {
    let mut l = ledger();
    let t = Ticker::from_slice(b"REG");
    assert_eq!(
        l.is_ticker_available_or_registered_to(&t, did(1), NOW),
        TickerRegistrationStatus::Available
    );
    assert_eq!(
        l.register_ticker(AccountKey([9; 32]), t, NOW),
        Err(Error::DidNotFound)
    );
    assert_eq!(l.register_ticker(key(1), t, NOW), Ok(()));
    let first = l.ticker_registration(&t);
    assert_eq!(first.owner, did(1));
    assert_eq!(first.expiry, Some(NOW + 10000));
    assert_eq!(
        l.is_ticker_available_or_registered_to(&t, did(1), NOW + 10000),
        TickerRegistrationStatus::RegisteredByDid
    );
    assert_eq!(
        l.is_ticker_available_or_registered_to(&t, did(2), NOW + 10000),
        TickerRegistrationStatus::RegisteredByOther
    );
    assert_eq!(
        l.is_ticker_available_or_registered_to(&t, did(1), NOW + 10001),
        TickerRegistrationStatus::Available
    );
    assert!(l.is_ticker_registry_valid(&t, did(1), NOW + 10000));
    assert!(!l.is_ticker_registry_valid(&t, did(1), NOW + 10001));
    assert!(!l.is_ticker_available(&t, NOW + 10000));
    assert!(l.is_ticker_available(&t, NOW + 10001));
    // Renewal by the holder replaces the link.
    assert_eq!(l.register_ticker(key(1), t, NOW + 5), Ok(()));
    let renewed = l.ticker_registration(&t);
    assert_eq!(renewed.expiry, Some(NOW + 10005));
    assert_ne!(renewed.link_id, first.link_id);
    assert!(!l
        .identity
        .link_exists(&Signatory::from_identity(did(1)), first.link_id));
    assert!(l
        .identity
        .link_exists(&Signatory::from_identity(did(1)), renewed.link_id));
    // After the expiry someone else takes the ticker.
    assert_eq!(
        l.register_ticker(key(2), t, NOW + 10005),
        Err(Error::TickerRegisteredToOther)
    );
    assert_eq!(l.register_ticker(key(2), t, NOW + 10006), Ok(()));
    let taken = l.ticker_registration(&t);
    assert_eq!(taken.owner, did(2));
    assert!(!l
        .identity
        .link_exists(&Signatory::from_identity(did(1)), renewed.link_id));
    let link = l
        .identity
        .links(&Signatory::from_identity(did(2)), taken.link_id)
        .unwrap();
    assert_eq!(link.link_data, LinkData::TickerOwned(t));
    assert_eq!(link.expiry, Some(NOW + 20006));
    assert_eq!(l.identity.last_link(&Signatory::from_identity(did(1))), 0);
}

#[test]
fn accepted_authorization_cannot_be_accepted_again() {
    let mut l = ledger();
    let t = Ticker::from_slice(b"HAND");
    assert_eq!(l.register_ticker(key(1), t, NOW), Ok(()));
    let auth_id = l
        .identity
        .add_authorization(
            key(1),
            Signatory::from_identity(did(2)),
            polymesh_ledger::primitives::AuthorizationData::TransferTicker(t),
            Some(NOW + 1),
        )
        .unwrap();
    assert_eq!(
        l.accept_ticker_transfer(key(2), auth_id, NOW + 1),
        Err(Error::AuthorizationExpired)
    );
    assert!(l
        .identity
        .authorization_exists(&Signatory::from_identity(did(2)), auth_id));
    assert_eq!(l.ticker_registration(&t).owner, did(1));
    assert_eq!(l.accept_ticker_transfer(key(2), auth_id, NOW), Ok(()));
    assert!(!l
        .identity
        .authorization_exists(&Signatory::from_identity(did(2)), auth_id));
    assert_eq!(
        l.accept_ticker_transfer(key(2), auth_id, NOW),
        Err(Error::AuthorizationDoesNotExist)
    );
    assert_eq!(l.ticker_registration(&t).owner, did(2));
    assert_eq!(l.ticker_registration(&t).expiry, Some(NOW + 10000));
    assert_eq!(
        l.accept_ticker_transfer(AccountKey([9; 32]), auth_id, NOW),
        Err(Error::DidNotFound)
    );
}

#[test]
fn ticker_of_a_token_cannot_be_handed_over_alone() {
    let mut l = ledger();
    let t = create(&mut l, 1, b"TOK", 10, true);
    let auth_id = l.identity.add_auth(
        Signatory::from_identity(did(1)),
        Signatory::from_identity(did(2)),
        polymesh_ledger::primitives::AuthorizationData::TransferTicker(t),
        None,
    );
    assert_eq!(
        l.accept_ticker_transfer(key(2), auth_id, NOW),
        Err(Error::TokenAlreadyCreated)
    );
}

#[test]
fn lower_case_ticker_names_the_same_token() {
    let mut l = ledger();
    let t = create(&mut l, 1, b"MiXed", 500, true);
    let lower = Ticker(*b"mixed\0\0\0\0\0\0\0");
    assert_eq!(t, Ticker::from_slice(b"MIXED"));
    assert_eq!(l.balance(lower, did(1)), 500);
    assert_eq!(l.total_supply(lower), 500);
    assert_eq!(
        l.transfer(key(1), did(1), lower, did(2), 20, allowed()),
        Ok(())
    );
    assert_eq!(l.balance_of(&t, did(2)), 20);
    assert_eq!(l.get_balance_at(lower, did(2), 0), 20);
}

#[test]
fn a_nonce_raises_an_allowance_once() {
    let mut l = ledger();
    let t = create(&mut l, 1, b"N", 1_000, true);
    let raise = |l: &mut Asset, nonce: u16, valid: bool| {
        l.increase_custody_allowance_of(key(2), t, did(1), key(1), did(3), did(2), 10, nonce, valid)
    };
    assert_eq!(raise(&mut l, 7, false), Err(Error::InvalidSignature));
    assert!(!l.authentication_nonce(&t, did(1), 7));
    assert_eq!(raise(&mut l, 7, true), Ok(()));
    assert!(l.authentication_nonce(&t, did(1), 7));
    assert_eq!(raise(&mut l, 7, true), Err(Error::SignatureAlreadyUsed));
    assert_eq!(raise(&mut l, 7, false), Err(Error::SignatureAlreadyUsed));
    assert_eq!(l.transfer(key(1), did(1), t, did(2), 5, allowed()), Ok(()));
    assert_eq!(raise(&mut l, 7, true), Err(Error::SignatureAlreadyUsed));
    assert_eq!(raise(&mut l, 8, true), Ok(()));
    assert_eq!(l.custodian_allowance(&t, did(1), did(3)), 20);
    assert_eq!(
        l.increase_custody_allowance_of(key(2), t, did(1), key(4), did(3), did(2), 10, 9, true),
        Err(Error::HolderKeyNotSigningKey)
    );
    assert_eq!(
        l.increase_custody_allowance_of(key(2), t, did(1), key(1), did(3), did(4), 10, 9, true),
        Err(Error::SenderNotSigningKey)
    );
    assert!(!l.authentication_nonce(&t, did(1), 9));
}

#[test]
fn investors_are_counted() {
    let mut l = ledger();
    let t = create(&mut l, 1, b"S", 100, true);
    assert_eq!(l.statistics.investor_count_per_asset(&t), 0);
    assert_eq!(l.transfer(key(1), did(1), t, did(2), 40, allowed()), Ok(()));
    assert_eq!(l.statistics.investor_count_per_asset(&t), 1);
    assert_eq!(l.transfer(key(1), did(1), t, did(2), 10, allowed()), Ok(()));
    assert_eq!(l.statistics.investor_count_per_asset(&t), 1);
    assert_eq!(l.transfer(key(1), did(1), t, did(3), 50, allowed()), Ok(()));
    assert_eq!(l.statistics.investor_count_per_asset(&t), 1);
    assert_eq!(l.transfer(key(3), did(3), t, did(4), 0, allowed()), Ok(()));
    assert_eq!(l.statistics.investor_count_per_asset(&t), 1);
    assert_eq!(l.transfer(key(3), did(3), t, did(4), 25, allowed()), Ok(()));
    assert_eq!(l.statistics.investor_count_per_asset(&t), 2);
}

#[test]
fn forced_movements_keep_the_cover() {
    let mut l = ledger();
    let t = create(&mut l, 1, b"X", 100, true);
    assert_eq!(
        l.increase_custody_allowance(key(1), t, did(1), did(3), 60),
        Ok(())
    );
    assert_eq!(
        l.controller_transfer(key(2), did(2), t, did(1), did(2), 50),
        Err(Error::NotAuthorized)
    );
    assert_eq!(
        l.controller_transfer(key(1), did(1), t, did(1), did(2), 100),
        Err(Error::InsufficientBalanceForTransfer)
    );
    assert_eq!(
        l.controller_transfer(key(1), did(1), t, did(1), did(2), 41),
        Err(Error::InsufficientBalanceForTransfer)
    );
    assert_eq!(
        l.controller_redeem(key(1), did(1), t, did(1), 41),
        Err(Error::InsufficientBalanceForTransfer)
    );
    assert_eq!(l.balance_of(&t, did(1)), 100);
    assert_eq!(l.total_supply(t), 100);
    assert_eq!(
        l.controller_transfer(key(1), did(1), t, did(1), did(2), 30),
        Ok(())
    );
    assert_eq!(l.controller_redeem(key(1), did(1), t, did(1), 10), Ok(()));
    assert_eq!(l.balance_of(&t, did(1)), 60);
    assert_eq!(l.total_custody_allowance(&t, did(1)), 60);
    assert_eq!(
        l.controller_redeem(key(1), did(1), t, did(1), 1),
        Err(Error::InsufficientBalanceForTransfer)
    );
    assert_eq!(held(&l, &t), l.total_supply(t));
}

#[test]
fn funding_round_counts_what_it_issues() {
    let mut l = ledger();
    let t = create(&mut l, 1, b"FR", 100, true);
    assert_eq!(
        l.set_funding_round(key(2), did(2), t, b"x".to_vec()),
        Err(Error::DidNotAssetOwner)
    );
    assert_eq!(l.issue(key(1), did(1), t, did(2), 5, allowed()).map(|_| ()), Ok(()));
    assert_eq!(l.issued_in_funding_round(&t, &vec![]), 5);
    assert_eq!(l.set_funding_round(key(1), did(1), t, b"A".to_vec()), Ok(()));
    assert_eq!(l.issue(key(1), did(1), t, did(2), 7, allowed()).map(|_| ()), Ok(()));
    assert_eq!(l._mint_from_sto(&t, did(3), 1, allowed()).map(|_| ()), Ok(()));
    assert_eq!(l.issued_in_funding_round(&t, &b"A".to_vec()), 8);
    assert_eq!(l.issued_in_funding_round(&t, &vec![]), 5);
    assert_eq!(l.funding_round(&t), b"A".to_vec());
    assert_eq!(
        l.issue(key(2), did(2), t, did(2), 7, allowed()).map(|_| ()),
        Err(Error::NotAuthorized)
    );
}

#[test]
fn issuance_is_recorded_for_each_recipient() {
    let mut l = ledger();
    let t = create(&mut l, 1, b"REC", 100, true);
    assert_eq!(l.set_funding_round(key(1), did(1), t, b"seed".to_vec()), Ok(()));
    assert_eq!(
        l.issue(key(1), did(1), t, did(2), 5, allowed()),
        Ok(Issued {
            ticker: t,
            beneficiary: did(2),
            value: 5,
            funding_round: b"seed".to_vec(),
            issued_in_funding_round: 5,
        })
    );
    let record = |to: u8, value: u128| Issued {
        ticker: t,
        beneficiary: did(to),
        value,
        funding_round: b"seed".to_vec(),
        issued_in_funding_round: 35,
    };
    assert_eq!(
        l.batch_issue(
            key(1),
            did(1),
            t,
            &vec![did(3), did(4), did(3)],
            &vec![10, 0, 20],
            &vec![allowed(), allowed(), allowed()]
        ),
        Ok(vec![record(3, 10), record(4, 0), record(3, 20)])
    );
    assert_eq!(l.issued_in_funding_round(&t, &b"seed".to_vec()), 35);
    assert_eq!(
        l._mint_from_sto(&t, did(5), 1, allowed()).map(|r| r.issued_in_funding_round),
        Ok(36)
    );
}

#[test]
fn ceiling_is_refused_where_there_is_none() {
    assert_eq!(try_find_ceiling(&vec![], 0), Err(Error::NoSuchCheckpoint));
    assert_eq!(try_find_ceiling(&vec![2, 5], 6), Err(Error::NoSuchCheckpoint));
    assert_eq!(try_find_ceiling(&vec![5, 2], 1), Err(Error::NoSuchCheckpoint));
    assert_eq!(try_find_ceiling(&vec![2, 2], 1), Err(Error::NoSuchCheckpoint));
    assert_eq!(try_find_ceiling(&vec![1, 3, 2, 9], 4), Err(Error::NoSuchCheckpoint));
    assert_eq!(try_find_ceiling(&vec![2, 5], 5), Ok(5));
    assert_eq!(try_find_ceiling(&vec![2, 5], 3), Ok(5));
    assert_eq!(try_find_ceiling(&vec![2, 5], 0), Ok(2));
    assert_eq!(try_find_ceiling(&vec![7], 7), Ok(7));
    assert_eq!(Error::NoSuchCheckpoint.message(), "no such checkpoint");
}

#[test]
fn checkpoint_made_before_the_token_tells_nothing_was_held() {
    let mut l = ledger();
    let t = Ticker::from_slice(b"EARLY");
    assert_eq!(l._create_checkpoint(&t), Ok(()));
    assert_eq!(l.get_balance_at(t, did(1), 1), 0);
    assert_eq!(create(&mut l, 1, b"EARLY", 500, true), t);
    assert_eq!(l.balance_of(&t, did(1)), 500);
    assert_eq!(l.get_balance_at(t, did(1), 1), 0);
    assert_eq!(l.get_balance_at(t, did(1), 2), 500);
    assert_eq!(l.total_supply_at(&t, 1), 0);
}

#[test]
fn handed_over_token_has_its_links_under_the_new_owner() {
    let mut l = ledger();
    let t = create(&mut l, 1, b"HO", 10, true);
    let old_ticker = l.ticker_registration(&t);
    let old_token = l.token_details(&t);
    let auth_id = l.identity.add_auth(
        Signatory::from_identity(did(1)),
        Signatory::from_identity(did(2)),
        polymesh_ledger::primitives::AuthorizationData::TransferTokenOwnership(t),
        None,
    );
    assert_eq!(l.accept_token_ownership_transfer(key(2), auth_id, NOW), Ok(()));
    let new_owner = Signatory::from_identity(did(2));
    let old_owner = Signatory::from_identity(did(1));
    assert!(!l.identity.link_exists(&old_owner, old_ticker.link_id));
    assert!(!l.identity.link_exists(&old_owner, old_token.link_id));
    assert_eq!(l.identity.last_link(&old_owner), 0);
    let ticker_link = l.ticker_registration(&t).link_id;
    let token_link = l.token_details(&t).link_id;
    assert_eq!(
        l.identity.links(&new_owner, ticker_link).unwrap().link_data,
        LinkData::TickerOwned(t)
    );
    assert_eq!(
        l.identity.links(&new_owner, token_link).unwrap().link_data,
        LinkData::TokenOwned(t)
    );
    assert_eq!(l.identity.last_link(&new_owner), token_link);
    assert_eq!(
        l.identity.links(&new_owner, token_link).unwrap().previous_link,
        ticker_link
    );
    assert_eq!(
        l.identity.links(&new_owner, ticker_link).unwrap().previous_link,
        0
    );
    assert_eq!(l.ticker_registration(&t).owner, did(2));
    assert_eq!(l.token_details(&t).owner_did, did(2));
    assert!(!l
        .identity
        .authorization_exists(&Signatory::from_identity(did(2)), auth_id));
    assert_eq!(
        l.accept_token_ownership_transfer(key(2), auth_id, NOW),
        Err(Error::AuthorizationDoesNotExist)
    );
    assert_eq!(l.token_details(&t).owner_did, did(2));
    assert_eq!(l.token_details(&t).link_id, token_link);
}

#[test]
fn token_creation_is_checked_without_a_change() {
    let mut l = ledger();
    let t = Ticker::from_slice(b"ask");
    let before = l.clone();
    let name = b"n".to_vec();
    assert_eq!(
        l.check_create_token(key(2), did(1), &name, t, 1, true, NOW),
        Err(Error::SenderNotSigningKey)
    );
    assert_eq!(
        l.check_create_token(key(1), did(1), &name, Ticker::from_slice(b"TOOLONG99"), 1, true, NOW),
        Err(Error::TickerTooLong)
    );
    assert_eq!(
        l.check_create_token(key(1), did(1), &vec![b'n'; 65], t, 1, true, NOW),
        Err(Error::TokenNameTooLong)
    );
    assert_eq!(
        l.check_create_token(key(1), did(1), &name, t, ONE_UNIT + 1, false, NOW),
        Err(Error::InvalidTotalSupply)
    );
    assert_eq!(
        l.check_create_token(key(1), did(1), &name, t, MAX_SUPPLY + 1, true, NOW),
        Err(Error::TotalSupplyAboveLimit)
    );
    assert_eq!(
        l.check_create_token(key(1), did(1), &name, t, 2 * ONE_UNIT, false, NOW),
        Ok(())
    );
    assert_eq!(l, before);
    assert_eq!(l.register_ticker(key(2), t, NOW), Ok(()));
    assert_eq!(
        l.check_create_token(key(1), did(1), &name, t, 1, true, NOW),
        Err(Error::TickerTaken)
    );
    assert_eq!(
        l.check_create_token(key(2), did(2), &name, t, 1, true, NOW),
        Ok(())
    );
    let asked = create(&mut l, 2, b"ask", 7, true);
    assert_eq!(asked, Ticker::from_slice(b"ASK"));
    assert_eq!(
        l.check_create_token(key(2), did(2), &name, t, 1, true, NOW),
        Err(Error::TokenAlreadyCreated)
    );
}

#[test]
fn documents_leave_the_links_of_ownership() {
    let mut l = ledger();
    let t = create(&mut l, 1, b"DOC", 10, true);
    let owner = Signatory::from_identity(did(1));
    let anchor = Signatory::from_identity(token_did(&t));
    let ticker_link = l.ticker_registration(&t).link_id;
    let token_link = l.token_details(&t).link_id;
    let paper = |n: u8| polymesh_ledger::primitives::Document {
        name: vec![n],
        uri: vec![n, n],
        hash: vec![n, n, n],
    };
    assert_eq!(
        l.add_documents(key(1), did(1), t, &vec![paper(1), paper(2)], token_did(&t)),
        Ok(())
    );
    let second = l.identity.last_link(&anchor);
    let first = l.identity.links(&anchor, second).unwrap().previous_link;
    assert_eq!(
        l.identity.links(&anchor, first).unwrap().link_data,
        LinkData::DocumentOwned(paper(1))
    );
    assert_eq!(
        l.update_documents(key(1), did(1), t, &vec![(first, paper(3))], token_did(&t)),
        Ok(())
    );
    assert_eq!(
        l.identity.links(&anchor, first).unwrap().link_data,
        LinkData::DocumentOwned(paper(3))
    );
    assert_eq!(
        l.remove_documents(key(1), did(1), t, &vec![second], token_did(&t)),
        Ok(())
    );
    assert!(!l.identity.link_exists(&anchor, second));
    assert_eq!(l.identity.last_link(&anchor), first);
    assert_eq!(l.ticker_registration(&t).link_id, ticker_link);
    assert_eq!(l.token_details(&t).link_id, token_link);
    assert_eq!(
        l.identity.links(&owner, ticker_link).unwrap().link_data,
        LinkData::TickerOwned(t)
    );
    assert_eq!(
        l.identity.links(&owner, token_link).unwrap().link_data,
        LinkData::TokenOwned(t)
    );
}

#[test]
fn frozen_asset_moves_for_no_one() {
    let mut l = ledger();
    let t = create(&mut l, 1, b"ICE", 1_000, true);
    assert_eq!(
        l.transfer(key(1), did(1), t, did(2), 100, allowed()),
        Ok(())
    );
    assert_eq!(l.approve(key(2), did(2), t, did(3), 50), Ok(()));
    assert_eq!(l.freeze(key(1), t), Ok(()));
    let before = l.clone();
    assert_eq!(
        l.transfer(key(2), did(2), t, did(3), 1, allowed()),
        Err(Error::AssetFrozen)
    );
    assert_eq!(
        l.transfer_from(key(3), did(3), t, did(2), did(4), 1, allowed()),
        Err(Error::AssetFrozen)
    );
    assert_eq!(
        l.controller_transfer(key(1), did(1), t, did(2), did(3), 1),
        Err(Error::AssetFrozen)
    );
    assert_eq!(
        l.issue(key(1), did(1), t, did(2), 1, allowed()).map(|_| ()),
        Err(Error::AssetFrozen)
    );
    assert_eq!(
        l.redeem(key(2), did(2), t, 1, allowed()),
        Err(Error::AssetFrozen)
    );
    assert_eq!(l, before);
    assert_eq!(l.unfreeze(key(1), t), Ok(()));
    assert_eq!(
        l.controller_transfer(key(1), did(1), t, did(2), did(3), 1),
        Ok(())
    );
    assert_eq!(l.balance_of(&t, did(2)), 99);
    assert_eq!(l.balance_of(&t, did(3)), 1);
}
