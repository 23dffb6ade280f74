//! The reasons for which the contracts refuse a call.
use vstd::prelude::*;

verus! {

/// Why a contract call was refused. On chain each refusal aborts the call
/// with the message that `message` gives.
#[derive(Debug, Clone, Copy, PartialEq, Eq, Structural)]
pub enum ContractError {
    /// The caller has no account.
    AccountNotFound,
    /// The owner named in a mint callback has no account.
    OwnerAccountNotFound,
    /// An account with this id already exists.
    AccountAlreadyExists,
    /// One of the requested account ids has no account.
    AccountIdNotRegistered,
    /// The mint call that a callback reports on failed.
    MintFailed,
    /// Only the contract itself may change the NFT contract id.
    NotContractItself,
    /// Minting costs exactly one NEAR.
    WrongMintDeposit,
    /// The caller has no role.
    NoMintRole,
    /// The caller's role does not allow minting.
    NoMintPermission,
    /// Only the owner of the NFT contract may hand out roles.
    NotContractOwner,
    /// Only the owner of the NFT contract may mint through `nft_mint`.
    UnauthorizedMinter,
    /// The contract metadata does not follow the NFT metadata spec.
    InvalidMetadataSpec,
    /// The contract metadata has a reference without its hash, or a hash
    /// without its reference.
    ReferenceMismatch,
    /// The hash of the contract metadata's reference is not 32 bytes.
    BadReferenceHash,
    /// The market lists an order that does not exist.
    InvalidOrders,
    /// A listed order is for a token without metadata.
    NftNotFound,
    /// A token of an owner has no metadata.
    TokenMetadataMissing,
    /// A known token has no owner.
    TokenOwnerMissing,
    /// The token to sell has no owner.
    NftOwnerNotFound,
    /// Only the owner of a token may sell it.
    NotTokenOwner,
    /// The token is already on sale.
    NftAlreadySelling,
    /// There is no order with this id.
    OrderNotFound,
    /// The order was already sold.
    OrderAlreadySold,
    /// A seller cannot buy their own order.
    BuyOwnOrder,
    /// The deposit must equal the price of the order.
    WrongOrderPayment,
    /// The seller has no storage account to be paid into.
    SellerStorageNotFound,
    /// The seller's balance would exceed the largest amount.
    BalanceOverflow,
    /// The account data is not valid base64.
    InvalidBase64,
    /// The account data does not hold an account description.
    InvalidAccountInfo,
}

/// The text of the panic message for `e`.
pub open spec fn message_of(e: ContractError) -> Seq<char> {
    match e {
        ContractError::AccountNotFound => "Account doesn't exist"@,
        ContractError::OwnerAccountNotFound => "Account not found"@,
        ContractError::AccountAlreadyExists => "Account already exists"@,
        ContractError::AccountIdNotRegistered => "called `Option::unwrap()` on a `None` value"@,
        ContractError::MintFailed => "Mint chest failed"@,
        ContractError::NotContractItself => "You can't set new nft contract id"@,
        ContractError::WrongMintDeposit => "Must attach exacts 1 NEAR to mint NFT"@,
        ContractError::NoMintRole => "Account doesn't have any special role to mint NFT"@,
        ContractError::NoMintPermission => "This account doesn't have permission to mint contract"@,
        ContractError::NotContractOwner => "You don't have permission to set role for other people"@,
        ContractError::UnauthorizedMinter => "Unauthorized"@,
        ContractError::InvalidMetadataSpec => "Spec is not NFT metadata"@,
        ContractError::ReferenceMismatch => "Reference and reference hash must be present"@,
        ContractError::BadReferenceHash => "Hash has to be 32 bytes"@,
        ContractError::InvalidOrders => "Contain invalid order(s)"@,
        ContractError::NftNotFound => "Not exist NFT"@,
        ContractError::TokenMetadataMissing => "called `Option::unwrap()` on a `None` value"@,
        ContractError::TokenOwnerMissing => "called `Option::unwrap()` on a `None` value"@,
        ContractError::NftOwnerNotFound => "Can't find owner of this NFT"@,
        ContractError::NotTokenOwner => "Require owner of NFT to call sell it!"@,
        ContractError::NftAlreadySelling => "NFT are selling."@,
        ContractError::OrderNotFound => "Not exist Order"@,
        ContractError::OrderAlreadySold => "Nft is already been sold"@,
        ContractError::BuyOwnOrder => "Can't buy Nft of yourself"@,
        ContractError::WrongOrderPayment => "Need to attach exactly the price of order"@,
        ContractError::SellerStorageNotFound => "Cant't found owner of this order"@,
        ContractError::BalanceOverflow => "attempt to add with overflow"@,
        ContractError::InvalidBase64 => "Can not decode base 64"@,
        ContractError::InvalidAccountInfo => "Can not extract data from bytes"@,
    }
}

impl ContractError {
    /// The panic message with which the contract aborts the call.
    pub fn message(&self) -> (m: &'static str)
        ensures
            m@ == message_of(*self),
    {
        match self {
            ContractError::AccountNotFound => "Account doesn't exist",
            ContractError::OwnerAccountNotFound => "Account not found",
            ContractError::AccountAlreadyExists => "Account already exists",
            ContractError::AccountIdNotRegistered => "called `Option::unwrap()` on a `None` value",
            ContractError::MintFailed => "Mint chest failed",
            ContractError::NotContractItself => "You can't set new nft contract id",
            ContractError::WrongMintDeposit => "Must attach exacts 1 NEAR to mint NFT",
            ContractError::NoMintRole => "Account doesn't have any special role to mint NFT",
            ContractError::NoMintPermission => "This account doesn't have permission to mint contract",
            ContractError::NotContractOwner => "You don't have permission to set role for other people",
            ContractError::UnauthorizedMinter => "Unauthorized",
            ContractError::InvalidMetadataSpec => "Spec is not NFT metadata",
            ContractError::ReferenceMismatch => "Reference and reference hash must be present",
            ContractError::BadReferenceHash => "Hash has to be 32 bytes",
            ContractError::InvalidOrders => "Contain invalid order(s)",
            ContractError::NftNotFound => "Not exist NFT",
            ContractError::TokenMetadataMissing => "called `Option::unwrap()` on a `None` value",
            ContractError::TokenOwnerMissing => "called `Option::unwrap()` on a `None` value",
            ContractError::NftOwnerNotFound => "Can't find owner of this NFT",
            ContractError::NotTokenOwner => "Require owner of NFT to call sell it!",
            ContractError::NftAlreadySelling => "NFT are selling.",
            ContractError::OrderNotFound => "Not exist Order",
            ContractError::OrderAlreadySold => "Nft is already been sold",
            ContractError::BuyOwnOrder => "Can't buy Nft of yourself",
            ContractError::WrongOrderPayment => "Need to attach exactly the price of order",
            ContractError::SellerStorageNotFound => "Cant't found owner of this order",
            ContractError::BalanceOverflow => "attempt to add with overflow",
            ContractError::InvalidBase64 => "Can not decode base 64",
            ContractError::InvalidAccountInfo => "Can not extract data from bytes",
        }
    }
}

} // verus!
