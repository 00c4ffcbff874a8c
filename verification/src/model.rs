//! The state of the contract as mathematical values, and what each operation
//! makes of it. The contracts of the executable operations are stated over
//! this model.

use crate::error::ContractError;
use crate::fees::storage_cost;
use crate::metadata::MetadataView;
use crate::payout::{payout_entries, payout_failure};
use crate::series::{royalty_refusal, SeriesView};
use crate::table::Entries;
use crate::text::{decimal, series_part};
use vstd::prelude::*;

verus! {

/// The identifier of the series at position `i` of the registry: the decimal
/// numeral of `i + 1`.
pub open spec fn series_id(i: int) -> Seq<char> {
    decimal((i + 1) as nat)
}

/// What a mint hands over: the new token, who owns it, the metadata it
/// carries, and what the payer gets back.
pub struct MintView {
    pub token_id: Seq<char>,
    pub owner_id: Seq<char>,
    pub metadata: MetadataView,
    pub refund: u128,
}

/// The state of the contract.
pub struct ContractView {
    /// The account that owns the contract.
    pub owner_id: Seq<char>,
    /// The bytes of storage that the registry needs for one token.
    pub storage_bytes_per_token: u64,
    /// The series, in the order of their creation.
    pub series: Seq<SeriesView>,
    /// The escrow ledger: the prepaid balance of each registered account.
    pub accounts: Map<Seq<char>, u128>,
}

/// Why a series is not created, if it is not: the metadata carries no title
/// or an empty one, or the royalty table is refused.
pub open spec fn creation_refusal(
    metadata: MetadataView,
    royalty: Entries<u32>,
) -> Option<ContractError> {
    if !metadata.has_title() {
        Some(ContractError::TitleRequired)
    } else {
        royalty_refusal(royalty)
    }
}

/// A series as it is created.
pub open spec fn new_series(
    creator_id: Seq<char>,
    metadata: MetadataView,
    price: Option<u128>,
    ft_token_id: Option<Seq<char>>,
    royalty: Entries<u32>,
) -> SeriesView {
    (SeriesView {
        metadata,
        creator_id,
        tokens: Seq::empty(),
        price: None,
        ft_token_id: None,
        is_mintable: true,
        royalty,
    }).with_price(price, ft_token_id)
}

/// The entries of an optional royalty table; none where no table is given.
pub open spec fn royalty_or_empty(royalty: Option<Entries<u32>>) -> Entries<u32> {
    match royalty {
        Some(r) => r,
        None => Seq::empty(),
    }
}

impl ContractView {
    /// The invariant of the state: each series is valid under its identifier.
    pub open spec fn valid(self) -> bool {
        forall|i: int| 0 <= i < self.series.len() ==> (#[trigger] self.series[i]).valid(series_id(i))
    }

    /// Whether a series has the identifier `id`.
    pub open spec fn has_series(self, id: Seq<char>) -> bool {
        exists|i: int| 0 <= i < self.series.len() && #[trigger] series_id(i) == id
    }

    /// The position of the series with identifier `id`.
    pub open spec fn index_of(self, id: Seq<char>) -> int {
        choose|i: int| 0 <= i < self.series.len() && #[trigger] series_id(i) == id
    }

    /// The series with identifier `id`.
    pub open spec fn series_of(self, id: Seq<char>) -> SeriesView {
        self.series[self.index_of(id)]
    }

    /// The state with the series of identifier `id` replaced.
    pub open spec fn with_series(self, id: Seq<char>, series: SeriesView) -> ContractView {
        ContractView { series: self.series.update(self.index_of(id), series), ..self }
    }

    /// The balance of an account; zero for an account that is not registered.
    pub open spec fn balance_of(self, account: Seq<char>) -> u128 {
        if self.accounts.contains_key(account) {
            self.accounts[account]
        } else {
            0
        }
    }

    /// The state with the balance of `account` set.
    pub open spec fn with_balance(self, account: Seq<char>, balance: u128) -> ContractView {
        ContractView { accounts: self.accounts.insert(account, balance), ..self }
    }

    /// The storage fee of one token.
    pub open spec fn token_fee(self) -> nat {
        storage_cost(self.storage_bytes_per_token)
    }

    /// Creating a series: refused for want of a title or for its royalty
    /// table; else the series is appended and gets the next identifier.
    pub open spec fn create_series(
        self,
        creator_id: Seq<char>,
        metadata: MetadataView,
        price: Option<u128>,
        ft_token_id: Option<Seq<char>>,
        royalty: Option<Entries<u32>>,
    ) -> Result<(ContractView, Seq<char>), ContractError> {
        match creation_refusal(metadata, royalty_or_empty(royalty)) {
            Some(e) => Err(e),
            None => Ok(
                (
                    ContractView {
                        series: self.series.push(
                            new_series(
                                creator_id,
                                metadata,
                                price,
                                ft_token_id,
                                royalty_or_empty(royalty),
                            ),
                        ),
                        ..self
                    },
                    series_id(self.series.len() as int),
                ),
            ),
        }
    }

    /// Depositing `amount` for `account`: refused if the balance would not
    /// fit; else the amount is added to the balance, which starts at zero.
    pub open spec fn deposit(self, account: Seq<char>, amount: u128) -> Result<
        (ContractView, ()),
        ContractError,
    > {
        if self.balance_of(account) + amount > u128::MAX {
            Err(ContractError::BalanceOverflow)
        } else {
            Ok((self.with_balance(account, (self.balance_of(account) + amount) as u128), ()))
        }
    }

    /// Why a mint from the series `id` is refused, if it is, for a payer
    /// whose balance is `balance`.
    pub open spec fn mint_refusal(self, balance: u128, id: Seq<char>) -> Option<ContractError> {
        if balance <= self.token_fee() {
            Some(ContractError::NotEnoughDeposit)
        } else if !self.has_series(id) {
            Some(ContractError::SeriesNotFound)
        } else {
            self.series_of(id).mint_refusal()
        }
    }

    /// A mint for a payer whose balance is `balance`: the next token of the
    /// series goes to `receiver`, and the payer gets the whole balance back
    /// but for the storage fee of the token, which leaves the balance at zero.
    pub open spec fn mint_paid(
        self,
        payer: Seq<char>,
        balance: u128,
        id: Seq<char>,
        receiver: Seq<char>,
    ) -> Result<(ContractView, MintView), ContractError> {
        match self.mint_refusal(balance, id) {
            Some(e) => Err(e),
            None => Ok(
                (
                    self.with_series(id, self.series_of(id).after_mint(id)).with_balance(payer, 0),
                    MintView {
                        token_id: self.series_of(id).next_token_id(id),
                        owner_id: receiver,
                        metadata: self.series_of(id).metadata,
                        refund: (balance - self.token_fee()) as u128,
                    },
                ),
            ),
        }
    }

    /// A mint paid for by the registered balance of `payer`, whatever the
    /// price of the series.
    pub open spec fn mint_series(self, payer: Seq<char>, id: Seq<char>, receiver: Seq<char>) -> Result<
        (ContractView, MintView),
        ContractError,
    > {
        if !self.accounts.contains_key(payer) {
            Err(ContractError::NotRegistered)
        } else {
            self.mint_paid(payer, self.accounts[payer], id, receiver)
        }
    }

    /// A mint at the price of the series, taken from the balance of `payer`.
    pub open spec fn mint_with_near(
        self,
        payer: Seq<char>,
        id: Seq<char>,
        receiver: Seq<char>,
    ) -> Result<(ContractView, MintView), ContractError> {
        if !self.accounts.contains_key(payer) {
            Err(ContractError::NotRegistered)
        } else if !self.has_series(id) {
            Err(ContractError::SeriesNotFound)
        } else if self.series_of(id).price.is_none() {
            Err(ContractError::NotForSale)
        } else if self.accounts[payer] < self.series_of(id).price.unwrap() {
            Err(ContractError::InsufficientBalance)
        } else {
            self.mint_paid(
                payer,
                (self.accounts[payer] - self.series_of(id).price.unwrap()) as u128,
                id,
                receiver,
            )
        }
    }

    /// A mint paid for by a transfer of `amount` in the token `token_in`.
    /// Beside the mint, the result holds what of the amount was not spent.
    pub open spec fn mint_with_token(
        self,
        sender: Seq<char>,
        token_in: Seq<char>,
        amount: u128,
        id: Seq<char>,
        receiver: Seq<char>,
    ) -> Result<(ContractView, (MintView, u128)), ContractError> {
        if !self.accounts.contains_key(sender) {
            Err(ContractError::NotRegistered)
        } else if !self.has_series(id) {
            Err(ContractError::SeriesNotFound)
        } else if self.series_of(id).price.is_none() {
            Err(ContractError::NotForSale)
        } else if self.series_of(id).ft_token_id != Some(token_in) {
            Err(ContractError::IncorrectToken)
        } else if amount < self.series_of(id).price.unwrap() {
            Err(ContractError::AmountLessThanPrice)
        } else {
            match self.mint_series(sender, id, receiver) {
                Ok((after, minted)) => Ok(
                    (after, (minted, (amount - self.series_of(id).price.unwrap()) as u128)),
                ),
                Err(e) => Err(e),
            }
        }
    }

    /// A mint asked for by `caller` with `attached` as a deposit: the deposit
    /// is added to the caller's balance; the creator of the series then mints
    /// at no price, anyone else at the price of the series.
    pub open spec fn mint(
        self,
        caller: Seq<char>,
        attached: u128,
        id: Seq<char>,
        receiver: Seq<char>,
    ) -> Result<(ContractView, MintView), ContractError> {
        match self.deposit(caller, attached) {
            Err(e) => Err(e),
            Ok((funded, _)) => if !self.has_series(id) {
                Err(ContractError::SeriesNotFound)
            } else if caller != self.series_of(id).creator_id {
                funded.mint_with_near(caller, id, receiver)
            } else {
                funded.mint_series(caller, id, receiver)
            },
        }
    }

    /// Creating a series on behalf of `caller`. A creator may be named, who
    /// must then be the signer of the transaction; else the caller is the
    /// creator. Beside the identifier, the result says whether the first
    /// token is to be minted at once: so it is for a series of one copy that
    /// was given no price.
    pub open spec fn create_series_for(
        self,
        caller: Seq<char>,
        signer: Seq<char>,
        creator_id: Option<Seq<char>>,
        metadata: MetadataView,
        price: Option<u128>,
        ft_token_id: Option<Seq<char>>,
        royalty: Option<Entries<u32>>,
    ) -> Result<(ContractView, (Seq<char>, bool)), ContractError> {
        if creator_id.is_some() && creator_id.unwrap() != signer {
            Err(ContractError::SignerIsNotCreator)
        } else {
            match self.create_series(
                if creator_id.is_some() {
                    creator_id.unwrap()
                } else {
                    caller
                },
                metadata,
                price,
                ft_token_id,
                royalty,
            ) {
                Err(e) => Err(e),
                Ok((state, id)) => Ok(
                    (state, (id, price.is_none() && metadata.copies == Some(1u64))),
                ),
            }
        }
    }

    /// Settling the creation of the series `id` once the storage that it
    /// took is known. The attached deposit must cover the cost of that
    /// storage. Where the first token is minted at once, what is left of the
    /// deposit becomes the balance of the creator, who pays for the mint and
    /// receives the token. The result holds the mint, if there was one, and
    /// the amount that goes back to the creator.
    pub open spec fn settle_series(
        self,
        attached: u128,
        storage_used: u64,
        id: Seq<char>,
        mint_first: bool,
    ) -> Result<(ContractView, (Option<MintView>, u128)), ContractError> {
        if attached < storage_cost(storage_used) {
            Err(ContractError::DepositBelowStorageCost)
        } else if !mint_first {
            Ok((self, (None, (attached - storage_cost(storage_used)) as u128)))
        } else if !self.has_series(id) {
            Err(ContractError::SeriesNotFound)
        } else {
            match self.with_balance(
                self.series_of(id).creator_id,
                (attached - storage_cost(storage_used)) as u128,
            ).mint_series(self.series_of(id).creator_id, id, self.series_of(id).creator_id) {
                Ok((state, minted)) => Ok((state, (Some(minted), minted.refund))),
                Err(e) => Err(e),
            }
        }
    }

    /// Why `caller` may not change the series `id`, if so: the call needs one
    /// yoctoNEAR attached, and only the creator of the series may make it.
    pub open spec fn change_refusal(self, caller: Seq<char>, attached: u128, id: Seq<char>) -> Option<
        ContractError,
    > {
        if attached != 1 {
            Some(ContractError::OneYoctoRequired)
        } else if !self.has_series(id) {
            Some(ContractError::SeriesNotFound)
        } else if caller != self.series_of(id).creator_id {
            Some(ContractError::CreatorOnly)
        } else {
            None
        }
    }

    /// Setting the price of a series. The result holds the price that the
    /// series has afterwards.
    pub open spec fn set_price(
        self,
        id: Seq<char>,
        price: Option<u128>,
        ft_token_id: Option<Seq<char>>,
    ) -> Result<(ContractView, Option<u128>), ContractError> {
        if !self.has_series(id) {
            Err(ContractError::SeriesNotFound)
        } else {
            Ok(
                (
                    self.with_series(id, self.series_of(id).with_price(price, ft_token_id)),
                    self.series_of(id).with_price(price, ft_token_id).price,
                ),
            )
        }
    }

    /// Setting the price of a series on behalf of `caller`: for the creator
    /// only, and only while the series is open for minting.
    pub open spec fn set_series_price(
        self,
        caller: Seq<char>,
        attached: u128,
        id: Seq<char>,
        price: Option<u128>,
        ft_token_id: Option<Seq<char>>,
    ) -> Result<(ContractView, Option<u128>), ContractError> {
        match self.change_refusal(caller, attached, id) {
            Some(e) => Err(e),
            None => if !self.series_of(id).is_mintable {
                Err(ContractError::NotMintable)
            } else {
                self.set_price(id, price, ft_token_id)
            },
        }
    }

    /// Closing a series for minting on behalf of `caller`: for the creator
    /// only, once only, and only for a series with a number of copies.
    pub open spec fn set_series_non_mintable(
        self,
        caller: Seq<char>,
        attached: u128,
        id: Seq<char>,
    ) -> Result<(ContractView, ()), ContractError> {
        match self.change_refusal(caller, attached, id) {
            Some(e) => Err(e),
            None => if !self.series_of(id).is_mintable {
                Err(ContractError::AlreadyNonMintable)
            } else if self.series_of(id).metadata.copies.is_none() {
                Err(ContractError::UnboundedSupply)
            } else {
                Ok((self.with_series(id, self.series_of(id).closed()), ()))
            },
        }
    }

    /// Taking `decrease` off the number of copies of a series on behalf of
    /// `caller`: for the creator only, and never below the number of tokens
    /// minted. The result holds the new number of copies.
    pub open spec fn decrease_series_copies(
        self,
        caller: Seq<char>,
        attached: u128,
        id: Seq<char>,
        decrease: u64,
    ) -> Result<(ContractView, u64), ContractError> {
        match self.change_refusal(caller, attached, id) {
            Some(e) => Err(e),
            None => match self.series_of(id).metadata.copies {
                None => Err(ContractError::UnboundedSupply),
                Some(copies) => if copies - decrease < self.series_of(id).minted() {
                    Err(ContractError::CannotDecreaseSupply)
                } else {
                    Ok(
                        (
                            self.with_series(
                                id,
                                self.series_of(id).with_copies((copies - decrease) as u64),
                            ),
                            (copies - decrease) as u64,
                        ),
                    )
                },
            },
        }
    }

    /// The payout of `amount` for a token of the series `id`, with the
    /// creator of the series as the receiver of the rest.
    pub open spec fn series_payout(self, id: Seq<char>, amount: u128) -> Result<
        Entries<u128>,
        ContractError,
    > {
        if !self.has_series(id) {
            Err(ContractError::SeriesNotFound)
        } else {
            match payout_failure(
                self.series_of(id).royalty,
                None,
                self.series_of(id).creator_id,
                None,
            ) {
                Some(e) => Err(e),
                None => Ok(
                    payout_entries(
                        self.series_of(id).royalty,
                        None,
                        self.series_of(id).creator_id,
                        amount,
                    ),
                ),
            }
        }
    }

    /// The payout for the token `token_id`, which names its series.
    pub open spec fn token_payout(self, token_id: Seq<char>, amount: u128) -> Result<
        Entries<u128>,
        ContractError,
    > {
        self.series_payout(series_part(token_id), amount)
    }

    /// The payout on a transfer of the token `token_id` away from its owner
    /// `previous_owner`, who is left out of the royalties and receives the
    /// rest. There is no payout where no amount is given.
    pub open spec fn transfer_payout(
        self,
        attached: u128,
        previous_owner: Seq<char>,
        token_id: Seq<char>,
        amount: Option<u128>,
        limit: Option<u32>,
    ) -> Result<Option<Entries<u128>>, ContractError> {
        if attached != 1 {
            Err(ContractError::OneYoctoRequired)
        } else if amount.is_none() {
            Ok(None)
        } else if !self.has_series(series_part(token_id)) {
            Err(ContractError::SeriesNotFound)
        } else if limit.is_none() {
            Err(ContractError::PayoutLimitRequired)
        } else {
            match payout_failure(
                self.series_of(series_part(token_id)).royalty,
                Some(previous_owner),
                previous_owner,
                limit,
            ) {
                Some(e) => Err(e),
                None => Ok(
                    Some(
                        payout_entries(
                            self.series_of(series_part(token_id)).royalty,
                            Some(previous_owner),
                            previous_owner,
                            amount.unwrap(),
                        ),
                    ),
                ),
            }
        }
    }
}

/// Why `caller` may not burn a token of `owner`, if so: the call needs one
/// yoctoNEAR attached, and only the owner of a token may burn it.
pub open spec fn burn_refusal(attached: u128, caller: Seq<char>, owner: Seq<char>) -> Option<
    ContractError,
> {
    if attached != 1 {
        Some(ContractError::OneYoctoRequired)
    } else if owner != caller {
        Some(ContractError::TokenOwnerOnly)
    } else {
        None
    }
}

/// Whether an operation did what the model makes of it. `step` is the
/// outcome in the model: where it is a new state and a value, the operation
/// led to that state and returned that value; where it is an error, the
/// operation left the state as it was and returned that error.
pub open spec fn follows<R>(
    step: Result<(ContractView, R), ContractError>,
    before: ContractView,
    after: ContractView,
    result: Result<R, ContractError>,
) -> bool {
    match step {
        Ok((state, value)) => after == state && result == Ok::<R, ContractError>(value),
        Err(e) => after == before && result == Err::<R, ContractError>(e),
    }
}

} // verus!
