//! The ways in which an operation can be refused.

use vstd::prelude::*;

verus! {

/// Why an operation was refused. A refused operation changes nothing.
#[derive(Clone, Copy, Debug, PartialEq, Eq, Structural)]
pub enum ContractError {
    /// The metadata of a new series carries no title, or an empty one.
    TitleRequired,
    /// A royalty table names more than ten accounts.
    TooManyRoyaltyAccounts,
    /// The shares of a royalty table add up to more than 9000 basis points.
    RoyaltyTooHigh,
    /// The creator named for a new series is not the signer of the call.
    SignerIsNotCreator,
    /// The payer has no entry in the escrow ledger.
    NotRegistered,
    /// The payer's balance does not exceed the storage fee of one token.
    NotEnoughDeposit,
    /// No series has the given identifier.
    SeriesNotFound,
    /// The series was closed for minting.
    NotMintable,
    /// Every copy of the series has been minted.
    SupplyMaxed,
    /// The series has no price.
    NotForSale,
    /// The payer's balance is less than the price.
    InsufficientBalance,
    /// A deposit would take a balance beyond what an amount can hold.
    BalanceOverflow,
    /// The transfer came in another token than the one the series is priced in.
    IncorrectToken,
    /// The transferred amount is less than the price.
    AmountLessThanPrice,
    /// The transfer carried no message.
    NoMessage,
    /// The message of the transfer could not be read.
    WrongMessageFormat,
    /// The caller is not the creator of the series.
    CreatorOnly,
    /// The series is closed for minting already.
    AlreadyNonMintable,
    /// The series has no limit on its copies.
    UnboundedSupply,
    /// The new limit would be below the number of copies already minted.
    CannotDecreaseSupply,
    /// The call did not come with exactly one yoctoNEAR attached.
    OneYoctoRequired,
    /// The attached deposit does not cover the storage used.
    DepositBelowStorageCost,
    /// The payout would go to more accounts than the caller accepts.
    TooManyReceivers,
    /// The caller asked for a payout without a limit on its receivers.
    PayoutLimitRequired,
    /// The shares to pay out add up to more than 10000 basis points.
    TotalPayoutOverflow,
    /// The first index of a page is not below the number of items.
    OutOfBounds,
    /// A page of no items was asked for.
    ZeroLimit,
    /// The caller is not the owner of the contract.
    OwnerOnly,
    /// The caller is not the owner of the token.
    TokenOwnerOnly,
}

impl ContractError {
    /// The message that describes the error to a caller.
    pub fn message(&self) -> (text: String)
        ensures
            text@ == self.text(),
    {
        let s = match self {
            ContractError::TitleRequired => " token_metadata.title is required",
            ContractError::TooManyRoyaltyAccounts => " royalty exceeds 10 accounts",
            ContractError::RoyaltyTooHigh => "Exceeds maximum royalty -> 9000",
            ContractError::SignerIsNotCreator => " signer is not creator_id",
            ContractError::NotRegistered => "not registered",
            ContractError::NotEnoughDeposit => "not enough deposit",
            ContractError::SeriesNotFound => " Token series not exist",
            ContractError::NotMintable => " Token series is not mintable",
            ContractError::SupplyMaxed => "Series supply maxed",
            ContractError::NotForSale => " not for sale",
            ContractError::InsufficientBalance => "balance is less than price",
            ContractError::BalanceOverflow => "balance overflow",
            ContractError::IncorrectToken => "uncorrect token",
            ContractError::AmountLessThanPrice => " amount is less than price",
            ContractError::NoMessage => "no msg found",
            ContractError::WrongMessageFormat => "ERR_MSG_WRONG_FORMAT",
            ContractError::CreatorOnly => " Creator only",
            ContractError::AlreadyNonMintable => " already non-mintable",
            ContractError::UnboundedSupply => " copies is not set",
            ContractError::CannotDecreaseSupply => " cannot decrease supply, already minted",
            ContractError::OneYoctoRequired => "Requires attached deposit of exactly 1 yoctoNEAR",
            ContractError::DepositBelowStorageCost => "Must attach more yoctoNEAR to cover storage",
            ContractError::TooManyReceivers => "Market cannot payout to that many receivers",
            ContractError::PayoutLimitRequired => "max_len_payout is required",
            ContractError::TotalPayoutOverflow => "Total payout overflow",
            ContractError::OutOfBounds => "Out of bounds, please use a smaller from_index.",
            ContractError::ZeroLimit => "Cannot provide limit of 0.",
            ContractError::OwnerOnly => "Only owner",
            ContractError::TokenOwnerOnly => "Token owner only",
        };
        String::from_str(s)
    }

    /// The text of the message of each error.
    pub open spec fn text(&self) -> Seq<char> {
        match self {
            ContractError::TitleRequired => " token_metadata.title is required"@,
            ContractError::TooManyRoyaltyAccounts => " royalty exceeds 10 accounts"@,
            ContractError::RoyaltyTooHigh => "Exceeds maximum royalty -> 9000"@,
            ContractError::SignerIsNotCreator => " signer is not creator_id"@,
            ContractError::NotRegistered => "not registered"@,
            ContractError::NotEnoughDeposit => "not enough deposit"@,
            ContractError::SeriesNotFound => " Token series not exist"@,
            ContractError::NotMintable => " Token series is not mintable"@,
            ContractError::SupplyMaxed => "Series supply maxed"@,
            ContractError::NotForSale => " not for sale"@,
            ContractError::InsufficientBalance => "balance is less than price"@,
            ContractError::BalanceOverflow => "balance overflow"@,
            ContractError::IncorrectToken => "uncorrect token"@,
            ContractError::AmountLessThanPrice => " amount is less than price"@,
            ContractError::NoMessage => "no msg found"@,
            ContractError::WrongMessageFormat => "ERR_MSG_WRONG_FORMAT"@,
            ContractError::CreatorOnly => " Creator only"@,
            ContractError::AlreadyNonMintable => " already non-mintable"@,
            ContractError::UnboundedSupply => " copies is not set"@,
            ContractError::CannotDecreaseSupply => " cannot decrease supply, already minted"@,
            ContractError::OneYoctoRequired => "Requires attached deposit of exactly 1 yoctoNEAR"@,
            ContractError::DepositBelowStorageCost => "Must attach more yoctoNEAR to cover storage"@,
            ContractError::TooManyReceivers => "Market cannot payout to that many receivers"@,
            ContractError::PayoutLimitRequired => "max_len_payout is required"@,
            ContractError::TotalPayoutOverflow => "Total payout overflow"@,
            ContractError::OutOfBounds => "Out of bounds, please use a smaller from_index."@,
            ContractError::ZeroLimit => "Cannot provide limit of 0."@,
            ContractError::OwnerOnly => "Only owner"@,
            ContractError::TokenOwnerOnly => "Token owner only"@,
        }
    }
}

} // verus!
