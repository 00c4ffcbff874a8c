use nft_series::error::ContractError;

#[test]
fn every_error_has_its_message() {
    let all = [
        (ContractError::TitleRequired, " token_metadata.title is required"),
        (ContractError::TooManyRoyaltyAccounts, " royalty exceeds 10 accounts"),
        (ContractError::RoyaltyTooHigh, "Exceeds maximum royalty -> 9000"),
        (ContractError::SignerIsNotCreator, " signer is not creator_id"),
        (ContractError::NotRegistered, "not registered"),
        (ContractError::NotEnoughDeposit, "not enough deposit"),
        (ContractError::SeriesNotFound, " Token series not exist"),
        (ContractError::NotMintable, " Token series is not mintable"),
        (ContractError::SupplyMaxed, "Series supply maxed"),
        (ContractError::NotForSale, " not for sale"),
        (ContractError::InsufficientBalance, "balance is less than price"),
        (ContractError::BalanceOverflow, "balance overflow"),
        (ContractError::IncorrectToken, "uncorrect token"),
        (ContractError::AmountLessThanPrice, " amount is less than price"),
        (ContractError::NoMessage, "no msg found"),
        (ContractError::WrongMessageFormat, "ERR_MSG_WRONG_FORMAT"),
        (ContractError::CreatorOnly, " Creator only"),
        (ContractError::AlreadyNonMintable, " already non-mintable"),
        (ContractError::UnboundedSupply, " copies is not set"),
        (ContractError::CannotDecreaseSupply, " cannot decrease supply, already minted"),
        (ContractError::OneYoctoRequired, "Requires attached deposit of exactly 1 yoctoNEAR"),
        (ContractError::DepositBelowStorageCost, "Must attach more yoctoNEAR to cover storage"),
        (ContractError::TooManyReceivers, "Market cannot payout to that many receivers"),
        (ContractError::PayoutLimitRequired, "max_len_payout is required"),
        (ContractError::TotalPayoutOverflow, "Total payout overflow"),
        (ContractError::OutOfBounds, "Out of bounds, please use a smaller from_index."),
        (ContractError::ZeroLimit, "Cannot provide limit of 0."),
        (ContractError::OwnerOnly, "Only owner"),
        (ContractError::TokenOwnerOnly, "Token owner only"),
    ];
    for (error, text) in all {
        assert_eq!(error.message(), text);
    }
}
