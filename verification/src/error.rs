//! The reasons for which the ledger turns an operation down.

use crate::primitives::AuthorizationError;
use vstd::prelude::*;

verus! {

/// Why an operation was turned down. Nothing has changed when one is returned.
#[derive(Clone, Copy, Debug, PartialEq, Eq, Structural)]
pub enum Error {
    /// The sender may not act for the identity it names.
    SenderNotSigningKey,
    /// The key that signed off chain may not act for the holder.
    HolderKeyNotSigningKey,
    /// The sender may not act for the token's owner.
    SenderNotOwnerKey,
    /// The sender's key belongs to no identity.
    DidNotFound,
    /// A token exists under the ticker.
    TokenAlreadyCreated,
    /// The ticker is longer than the registry allows.
    TickerTooLong,
    /// The ticker is registered to another identity.
    TickerRegisteredToOther,
    /// The ticker of a token to be created is registered to another identity.
    TickerTaken,
    /// The token's name is longer than sixty-four bytes.
    TokenNameTooLong,
    /// The supply of an indivisible token is not a whole number of units.
    InvalidTotalSupply,
    /// The supply would exceed the maximum.
    TotalSupplyAboveLimit,
    /// There is no token under the ticker.
    TokenDoesNotExist,
    /// The authorization names a ticker without a token.
    NoSuchToken,
    /// The asset is frozen already.
    AlreadyFrozen,
    /// The asset is not frozen.
    NotFrozen,
    /// Transfers and issuance of the asset are frozen.
    AssetFrozen,
    /// The compliance rules do not permit the movement.
    TransferRestrictionsFailed,
    /// The rule-set verifier failed.
    ComplianceFailure,
    /// The identity does not own the token.
    NotAuthorized,
    /// The identity does not own the token.
    NotTokenOwner,
    /// The identity does not own the asset.
    NotAssetOwner,
    /// The identity does not own the asset.
    DidNotAssetOwner,
    /// The identity does not own the token.
    NotOwner,
    /// The identity has no balance of the token.
    AccountDoesNotOwnToken,
    /// The allowance would overflow.
    AllowanceOverflow,
    /// No allowance was given.
    AllowanceDoesNotExist,
    /// The allowance is smaller than the value.
    NotEnoughAllowance,
    /// The batch names no investor.
    EmptyInvestorList,
    /// The batch has not one value per investor.
    InvestorListMismatch,
    /// The value of an indivisible token is not a whole number of units.
    InvalidGranularity,
    /// The supply would overflow.
    TotalSupplyOverflow,
    /// A balance would overflow or underflow.
    BalanceOverflow,
    /// The funding round's total would overflow.
    FundingRoundOverflow,
    /// The balance is smaller than the value.
    NotEnoughBalance,
    /// The token is divisible already.
    AlreadyDivisible,
    /// The nonce was used before.
    SignatureAlreadyUsed,
    /// The off-chain signature does not verify.
    InvalidSignature,
    /// The custodian's allowance is smaller than the value.
    InsufficientAllowance,
    /// The custodian's allowance would underflow.
    CustodyAllowanceUnderflow,
    /// The holder's total custody allowance would underflow.
    TotalCustodyAllowanceUnderflow,
    /// The checkpoint counter would overflow.
    CheckpointOverflow,
    /// No checkpoint of the list is at or after the one asked for, or the
    /// list is not in order.
    NoSuchCheckpoint,
    /// The value exceeds the holder's balance.
    BalanceUnderflow,
    /// The rest of the balance would not cover the custody allowances.
    InsufficientBalanceForTransfer,
    /// The holder's total custody allowance would overflow.
    TotalCustodyAllowanceOverflow,
    /// The holder's balance does not cover the custody allowances.
    InsufficientHolderBalance,
    /// The custodian is no known identity.
    InvalidCustodianDid,
    /// The custodian's allowance would overflow.
    CustodyAllowanceOverflow,
    /// There is no such authorization.
    AuthorizationDoesNotExist,
    /// The authorization was given by someone else.
    IllegalUseOfAuthorization,
    /// The authorization is past its expiry.
    AuthorizationExpired,
    /// The authorization does not transfer a ticker.
    NoTickerTransferAuth,
    /// The authorization does not transfer a token's ownership.
    NotTickerOwnershipTransferAuth,
    /// The acting identity does not own the asset.
    UnAuthorized,
    /// The extension was added before.
    ExtensionAlreadyPresent,
    /// There is no such extension.
    ExtensionDoesNotExist,
    /// The extension is archived already.
    AlreadyArchived,
    /// The extension is not archived.
    AlreadyUnArchived,
    /// The identity has a record already.
    DidMustBeUnique,
    /// The identity has no record.
    DidDoesNotExist,
    /// The identity has no record.
    DidMustExist,
    /// The claim issuer has no record.
    ClaimIssuerMustExist,
    /// The sender may not act for the claim issuer.
    NotClaimIssuerKey,
    /// The sender is not the identity's master key.
    OnlyMasterKey,
    /// The master key belongs to an identity already.
    MasterKeyAlreadyLinked,
    /// The key belongs to an identity already.
    MasterKeyNotUnique,
    /// The master key is among the signing items.
    SigningKeysContainMasterKey,
    /// A signing key belongs to an identity already.
    AlreadyLinked,
    /// The signer is not a signing item of the identity.
    InvalidSender,
    /// The signer was not authorized to join the identity.
    JoinUnauthorized,
    /// There is no such authorization.
    InvalidAuth,
    /// Neither the giver nor the target of the authorization asks.
    RemovalUnauthorized,
    /// The ledger cannot act on an authorization of this kind.
    UnknownAuthorization,
    /// The signatory is an identity without a record.
    InvalidKey,
    /// The off-chain authorization is past its expiry.
    OffchainAuthorizationExpired,
    /// A signing key belongs to an identity already.
    KeyBelongsToIdentity,
    /// The off-chain authorization was revoked.
    AuthorizationRevoked,
    /// The signature of the off-chain authorization does not verify.
    InvalidAuthorizationSignature,
    /// Only the key itself may revoke its off-chain authorization.
    RevokeNotOwnKey,
    /// Only the master key of the identity may revoke its off-chain authorization.
    RevokeNotMasterKey,
    /// No identity is set for the current call.
    MissingCurrentIdentity,
    /// The identity to act for is no signatory of the current identity.
    CannotForward,
    /// The identity to act for does not count as validated.
    InvalidKyc,
    /// The receiver's balance would overflow.
    ReceiverBalanceOverflow,
    /// The scaled balance would overflow.
    UnsafeMultiplication,
    /// The total supply is zero.
    UnsafeDivision,
}

impl Error {
    /// The text of the error.
    pub open spec fn spec_message(self) -> Seq<char> {
        match self {
            Error::SenderNotSigningKey => "sender must be a signing key for DID"@,
            Error::HolderKeyNotSigningKey => "holder signing key must be a signing key for holder DID"@,
            Error::SenderNotOwnerKey => "sender must be a signing key for the token owner DID"@,
            Error::DidNotFound => "DID not found"@,
            Error::TokenAlreadyCreated => "token already created"@,
            Error::TickerTooLong => "ticker length over the limit"@,
            Error::TickerRegisteredToOther => "ticker registered to someone else"@,
            Error::TickerTaken => "Ticker registered to someone else"@,
            Error::TokenNameTooLong => "token name cannot exceed 64 bytes"@,
            Error::InvalidTotalSupply => "Invalid Total supply"@,
            Error::TotalSupplyAboveLimit => "Total supply above the limit"@,
            Error::TokenDoesNotExist => "token doesn't exist"@,
            Error::NoSuchToken => "Token does not exist"@,
            Error::AlreadyFrozen => "asset must not already be frozen"@,
            Error::NotFrozen => "asset must be frozen"@,
            Error::AssetFrozen => "asset is frozen"@,
            Error::TransferRestrictionsFailed => "Transfer restrictions failed"@,
            Error::ComplianceFailure => "Transfer restrictions could not be verified"@,
            Error::NotAuthorized => "user is not authorized"@,
            Error::NotTokenOwner => "user is not token owner"@,
            Error::NotAssetOwner => "caller is not the owner of this asset"@,
            Error::DidNotAssetOwner => "DID is not of the asset owner"@,
            Error::NotOwner => "Sender DID must be the token owner"@,
            Error::AccountDoesNotOwnToken => "Account does not own this token"@,
            Error::AllowanceOverflow => "overflow in calculating allowance"@,
            Error::AllowanceDoesNotExist => "Allowance does not exist"@,
            Error::NotEnoughAllowance => "Not enough allowance"@,
            Error::EmptyInvestorList => "list of investors is empty"@,
            Error::InvestorListMismatch => "Investor/amount list length inconsistent"@,
            Error::InvalidGranularity => "Invalid granularity"@,
            Error::TotalSupplyOverflow => "overflow in calculating total supply"@,
            Error::BalanceOverflow => "overflow in calculating balance"@,
            Error::FundingRoundOverflow => "current funding round total overflowed"@,
            Error::NotEnoughBalance => "Not enough balance."@,
            Error::AlreadyDivisible => "token already divisible"@,
            Error::SignatureAlreadyUsed => "Signature already used"@,
            Error::InvalidSignature => "Invalid signature"@,
            Error::InsufficientAllowance => "Insufficient allowance"@,
            Error::CustodyAllowanceUnderflow => "underflow in calculating allowance"@,
            Error::TotalCustodyAllowanceUnderflow => "underflow in calculating the total allowance"@,
            Error::CheckpointOverflow => "overflow in adding checkpoint"@,
            Error::NoSuchCheckpoint => "no such checkpoint"@,
            Error::BalanceUnderflow => "underflow in balance deduction"@,
            Error::InsufficientBalanceForTransfer => "Insufficient balance for transfer"@,
            Error::TotalCustodyAllowanceOverflow => "total custody allowance get overflowed"@,
            Error::InsufficientHolderBalance => "Insufficient balance of holder did"@,
            Error::InvalidCustodianDid => "Invalid custodian DID"@,
            Error::CustodyAllowanceOverflow => "allowance get overflowed"@,
            Error::AuthorizationDoesNotExist => "Authorization does not exist"@,
            Error::IllegalUseOfAuthorization => "Illegal use of Authorization"@,
            Error::AuthorizationExpired => "Authorization expired"@,
            Error::NoTickerTransferAuth => "Not a ticker transfer auth"@,
            Error::NotTickerOwnershipTransferAuth => "Not a token ownership transfer auth"@,
            Error::UnAuthorized => "Not authorized"@,
            Error::ExtensionAlreadyPresent => "when extension is already added"@,
            Error::ExtensionDoesNotExist => "Smart extension not exists"@,
            Error::AlreadyArchived => "when extension already archived"@,
            Error::AlreadyUnArchived => "when extension already unarchived"@,
            Error::DidMustBeUnique => "DID must be unique"@,
            Error::DidDoesNotExist => "DID does not exist"@,
            Error::DidMustExist => "DID must already exist"@,
            Error::ClaimIssuerMustExist => "claim issuer DID must already exist"@,
            Error::NotClaimIssuerKey => "Sender must hold a claim issuer's signing key"@,
            Error::OnlyMasterKey => "Only master key of an identity is able to execute this operation"@,
            Error::MasterKeyAlreadyLinked => "Master key already belong to one DID"@,
            Error::MasterKeyNotUnique => "Master key can only belong to one DID"@,
            Error::SigningKeysContainMasterKey => "Signing keys contains the master key"@,
            Error::AlreadyLinked => "One signing key can only belong to one DID"@,
            Error::InvalidSender => "Sender is not part of did's signing keys"@,
            Error::JoinUnauthorized => "Signer is not pre authorized by the identity"@,
            Error::InvalidAuth => "Invalid auth"@,
            Error::RemovalUnauthorized => "Unauthorized"@,
            Error::UnknownAuthorization => "Given authorization is not pre-known"@,
            Error::InvalidKey => "Account Id cannot be extracted from signer"@,
            Error::OffchainAuthorizationExpired => "Offchain authorization has expired"@,
            Error::KeyBelongsToIdentity => "One signing key can only belong to one identity"@,
            Error::AuthorizationRevoked => "Authorization has been explicitly revoked"@,
            Error::InvalidAuthorizationSignature => "Invalid Authorization signature"@,
            Error::RevokeNotOwnKey => "This key is not allowed to revoke this off-chain authorization"@,
            Error::RevokeNotMasterKey => "Only master key is allowed to revoke an Identity Signer off-chain authorization"@,
            Error::MissingCurrentIdentity => "Missing current identity on the transaction"@,
            Error::CannotForward => "Current identity cannot be forwarded, it is not a signing key of target identity"@,
            Error::InvalidKyc => "Invalid KYC validation on target did"@,
            Error::ReceiverBalanceOverflow => "Balance of to will get overflow"@,
            Error::UnsafeMultiplication => "unsafe multiplication"@,
            Error::UnsafeDivision => "unsafe division"@,
        }
    }

    /// The text of the error.
    pub fn message(&self) -> (r: &'static str)
        ensures
            r@ == self.spec_message(),
    {
        match self {
            Error::SenderNotSigningKey => "sender must be a signing key for DID",
            Error::HolderKeyNotSigningKey => "holder signing key must be a signing key for holder DID",
            Error::SenderNotOwnerKey => "sender must be a signing key for the token owner DID",
            Error::DidNotFound => "DID not found",
            Error::TokenAlreadyCreated => "token already created",
            Error::TickerTooLong => "ticker length over the limit",
            Error::TickerRegisteredToOther => "ticker registered to someone else",
            Error::TickerTaken => "Ticker registered to someone else",
            Error::TokenNameTooLong => "token name cannot exceed 64 bytes",
            Error::InvalidTotalSupply => "Invalid Total supply",
            Error::TotalSupplyAboveLimit => "Total supply above the limit",
            Error::TokenDoesNotExist => "token doesn't exist",
            Error::NoSuchToken => "Token does not exist",
            Error::AlreadyFrozen => "asset must not already be frozen",
            Error::NotFrozen => "asset must be frozen",
            Error::AssetFrozen => "asset is frozen",
            Error::TransferRestrictionsFailed => "Transfer restrictions failed",
            Error::ComplianceFailure => "Transfer restrictions could not be verified",
            Error::NotAuthorized => "user is not authorized",
            Error::NotTokenOwner => "user is not token owner",
            Error::NotAssetOwner => "caller is not the owner of this asset",
            Error::DidNotAssetOwner => "DID is not of the asset owner",
            Error::NotOwner => "Sender DID must be the token owner",
            Error::AccountDoesNotOwnToken => "Account does not own this token",
            Error::AllowanceOverflow => "overflow in calculating allowance",
            Error::AllowanceDoesNotExist => "Allowance does not exist",
            Error::NotEnoughAllowance => "Not enough allowance",
            Error::EmptyInvestorList => "list of investors is empty",
            Error::InvestorListMismatch => "Investor/amount list length inconsistent",
            Error::InvalidGranularity => "Invalid granularity",
            Error::TotalSupplyOverflow => "overflow in calculating total supply",
            Error::BalanceOverflow => "overflow in calculating balance",
            Error::FundingRoundOverflow => "current funding round total overflowed",
            Error::NotEnoughBalance => "Not enough balance.",
            Error::AlreadyDivisible => "token already divisible",
            Error::SignatureAlreadyUsed => "Signature already used",
            Error::InvalidSignature => "Invalid signature",
            Error::InsufficientAllowance => "Insufficient allowance",
            Error::CustodyAllowanceUnderflow => "underflow in calculating allowance",
            Error::TotalCustodyAllowanceUnderflow => "underflow in calculating the total allowance",
            Error::CheckpointOverflow => "overflow in adding checkpoint",
            Error::NoSuchCheckpoint => "no such checkpoint",
            Error::BalanceUnderflow => "underflow in balance deduction",
            Error::InsufficientBalanceForTransfer => "Insufficient balance for transfer",
            Error::TotalCustodyAllowanceOverflow => "total custody allowance get overflowed",
            Error::InsufficientHolderBalance => "Insufficient balance of holder did",
            Error::InvalidCustodianDid => "Invalid custodian DID",
            Error::CustodyAllowanceOverflow => "allowance get overflowed",
            Error::AuthorizationDoesNotExist => "Authorization does not exist",
            Error::IllegalUseOfAuthorization => "Illegal use of Authorization",
            Error::AuthorizationExpired => "Authorization expired",
            Error::NoTickerTransferAuth => "Not a ticker transfer auth",
            Error::NotTickerOwnershipTransferAuth => "Not a token ownership transfer auth",
            Error::UnAuthorized => "Not authorized",
            Error::ExtensionAlreadyPresent => "when extension is already added",
            Error::ExtensionDoesNotExist => "Smart extension not exists",
            Error::AlreadyArchived => "when extension already archived",
            Error::AlreadyUnArchived => "when extension already unarchived",
            Error::DidMustBeUnique => "DID must be unique",
            Error::DidDoesNotExist => "DID does not exist",
            Error::DidMustExist => "DID must already exist",
            Error::ClaimIssuerMustExist => "claim issuer DID must already exist",
            Error::NotClaimIssuerKey => "Sender must hold a claim issuer's signing key",
            Error::OnlyMasterKey => "Only master key of an identity is able to execute this operation",
            Error::MasterKeyAlreadyLinked => "Master key already belong to one DID",
            Error::MasterKeyNotUnique => "Master key can only belong to one DID",
            Error::SigningKeysContainMasterKey => "Signing keys contains the master key",
            Error::AlreadyLinked => "One signing key can only belong to one DID",
            Error::InvalidSender => "Sender is not part of did's signing keys",
            Error::JoinUnauthorized => "Signer is not pre authorized by the identity",
            Error::InvalidAuth => "Invalid auth",
            Error::RemovalUnauthorized => "Unauthorized",
            Error::UnknownAuthorization => "Given authorization is not pre-known",
            Error::InvalidKey => "Account Id cannot be extracted from signer",
            Error::OffchainAuthorizationExpired => "Offchain authorization has expired",
            Error::KeyBelongsToIdentity => "One signing key can only belong to one identity",
            Error::AuthorizationRevoked => "Authorization has been explicitly revoked",
            Error::InvalidAuthorizationSignature => "Invalid Authorization signature",
            Error::RevokeNotOwnKey => "This key is not allowed to revoke this off-chain authorization",
            Error::RevokeNotMasterKey => "Only master key is allowed to revoke an Identity Signer off-chain authorization",
            Error::MissingCurrentIdentity => "Missing current identity on the transaction",
            Error::CannotForward => "Current identity cannot be forwarded, it is not a signing key of target identity",
            Error::InvalidKyc => "Invalid KYC validation on target did",
            Error::ReceiverBalanceOverflow => "Balance of to will get overflow",
            Error::UnsafeMultiplication => "unsafe multiplication",
            Error::UnsafeDivision => "unsafe division",
        }
    }

    /// The error that stands for the failure of an authorization.
    pub open spec fn of_authorization(e: AuthorizationError) -> Error {
        match e {
            AuthorizationError::Invalid => Error::AuthorizationDoesNotExist,
            AuthorizationError::Unauthorized => Error::IllegalUseOfAuthorization,
            AuthorizationError::Expired => Error::AuthorizationExpired,
        }
    }

    /// The error that stands for the failure of an authorization.
    pub fn from_authorization(e: AuthorizationError) -> (r: Error)
        ensures
            r == Error::of_authorization(e),
    {
        match e {
            AuthorizationError::Invalid => Error::AuthorizationDoesNotExist,
            AuthorizationError::Unauthorized => Error::IllegalUseOfAuthorization,
            AuthorizationError::Expired => Error::AuthorizationExpired,
        }
    }
}

} // verus!
