//! The contract: the series registry and the escrow ledger, and the
//! operations that create series, mint tokens and take payment for them.

use crate::error::ContractError;
use crate::fees::storage_fee;
use crate::metadata::{opt_text, TokenMetadata};
use crate::model::{burn_refusal, follows, series_id, ContractView, MintView};
use crate::series::{check_royalty, TokenSeries};
use crate::table::{AccountMap, Entries};
use crate::text::{decimal, decimal_string, lemma_decimal_injective, parse_decimal};
use vstd::prelude::*;

verus! {

/// What the environment tells about a call.
pub struct CallContext {
    /// The account that made the call.
    pub predecessor_account_id: String,
    /// The account that signed the transaction.
    pub signer_account_id: String,
    /// The amount that came attached to the call.
    pub attached_deposit: u128,
}

/// What a mint hands over for the token registry and the payer.
#[derive(Debug)]
pub struct MintReceipt {
    /// The identifier of the new token.
    pub token_id: String,
    /// The account that owns the new token.
    pub owner_id: String,
    /// The metadata of the new token: that of its series.
    pub metadata: TokenMetadata,
    /// The amount to send back to the payer.
    pub refund: u128,
}

impl View for MintReceipt {
    type V = MintView;

    open spec fn view(&self) -> MintView {
        MintView {
            token_id: self.token_id@,
            owner_id: self.owner_id@,
            metadata: self.metadata@,
            refund: self.refund,
        }
    }
}

/// The result of a mint, by the view of its receipt.
pub open spec fn mint_result(r: Result<MintReceipt, ContractError>) -> Result<
    MintView,
    ContractError,
> {
    match r {
        Ok(receipt) => Ok(receipt@),
        Err(e) => Err(e),
    }
}

/// The result of a mint paid for by a transfer, by the view of its receipt.
pub open spec fn paid_result(r: Result<(MintReceipt, u128), ContractError>) -> Result<
    (MintView, u128),
    ContractError,
> {
    match r {
        Ok((receipt, unspent)) => Ok((receipt@, unspent)),
        Err(e) => Err(e),
    }
}

/// What the creation of a series hands over.
#[derive(Debug)]
pub struct SeriesCreated {
    /// The identifier of the new series.
    pub token_series_id: String,
    /// Whether the first token of the series is to be minted at once.
    pub mint_first: bool,
}

/// What the settlement of a creation hands over.
#[derive(Debug)]
pub struct SeriesSettled {
    /// The mint of the first token, if there was one.
    pub minted: Option<MintReceipt>,
    /// The amount to send back to the creator.
    pub refund: u128,
}

/// The result of a creation, by its views.
pub open spec fn created_result(r: Result<SeriesCreated, ContractError>) -> Result<
    (Seq<char>, bool),
    ContractError,
> {
    match r {
        Ok(created) => Ok((created.token_series_id@, created.mint_first)),
        Err(e) => Err(e),
    }
}

/// The result of a settlement, by its views.
pub open spec fn settled_result(r: Result<SeriesSettled, ContractError>) -> Result<
    (Option<MintView>, u128),
    ContractError,
> {
    match r {
        Ok(settled) => Ok(
            (
                match settled.minted {
                    Some(receipt) => Some(receipt@),
                    None => None,
                },
                settled.refund,
            ),
        ),
        Err(e) => Err(e),
    }
}

/// A result that holds text, by the view of the text.
pub open spec fn text_result(r: Result<String, ContractError>) -> Result<Seq<char>, ContractError> {
    match r {
        Ok(text) => Ok(text@),
        Err(e) => Err(e),
    }
}

/// The entries of an optional royalty table.
pub open spec fn royalty_entries(royalty: Option<AccountMap<u32>>) -> Option<Entries<u32>> {
    match royalty {
        Some(table) => Some(table.entries()),
        None => None,
    }
}

/// The views of the series of a registry, in order.
pub open spec fn series_views(series: Seq<TokenSeries>) -> Seq<crate::series::SeriesView> {
    Seq::new(series.len(), |i: int| series[i]@)
}

/// The state that the parts of a contract make up.
pub open spec fn state_of(
    owner_id: Seq<char>,
    extra_storage_in_bytes_per_token: u64,
    series: Seq<TokenSeries>,
    accounts: Map<Seq<char>, u128>,
) -> ContractView {
    ContractView {
        owner_id,
        storage_bytes_per_token: extra_storage_in_bytes_per_token,
        series: series_views(series),
        accounts,
    }
}

/// The contract state.
pub struct Contract {
    owner_id: String,
    extra_storage_in_bytes_per_token: u64,
    token_series_by_id: Vec<TokenSeries>,
    accounts: AccountMap<u128>,
}

impl View for Contract {
    type V = ContractView;

    closed spec fn view(&self) -> ContractView {
        ContractView {
            owner_id: self.owner_id@,
            storage_bytes_per_token: self.extra_storage_in_bytes_per_token,
            series: series_views(self.token_series_by_id@),
            accounts: self.accounts@,
        }
    }
}

/// The series with identifier `series_id(i)` is found at `i`, and nowhere else.
pub proof fn lemma_series_index(state: ContractView, i: int)
    requires
        0 <= i < state.series.len(),
    ensures
        state.has_series(series_id(i)),
        state.index_of(series_id(i)) == i,
        state.series_of(series_id(i)) == state.series[i],
{
    let j = state.index_of(series_id(i));
    lemma_decimal_injective((i + 1) as nat, (j + 1) as nat);
}

impl Contract {
    /// The invariant of the contract: the ledger holds each account once,
    /// and the state is valid.
    pub closed spec fn wf(&self) -> bool {
        &&& self.accounts.wf()
        &&& self@.valid()
    }

    /// A well-formed contract is in a valid state.
    pub proof fn lemma_wf_valid(&self)
        requires
            self.wf(),
        ensures
            self@.valid(),
    {
    }

    /// A contract owned by `owner_id`, without series or balances, whose
    /// registry needs `extra_storage_in_bytes_per_token` bytes for a token.
    pub fn new(owner_id: String, extra_storage_in_bytes_per_token: u64) -> (contract: Self)
        ensures
            contract.wf(),
            contract@ == (ContractView {
                owner_id: owner_id@,
                storage_bytes_per_token: extra_storage_in_bytes_per_token,
                series: Seq::empty(),
                accounts: Map::empty(),
            }),
    {
        let contract = Contract {
            owner_id,
            extra_storage_in_bytes_per_token,
            token_series_by_id: Vec::new(),
            accounts: AccountMap::new(),
        };
        assert(contract@.series =~= Seq::<crate::series::SeriesView>::empty());
        contract
    }

    /// A contract in the state `state_of` the given parts, if that state is
    /// valid: if each series meets the invariant of a series under the
    /// identifier that its place in the registry gives it.
    pub fn restore(
        owner_id: String,
        extra_storage_in_bytes_per_token: u64,
        series: Vec<TokenSeries>,
        accounts: AccountMap<u128>,
    ) -> (r: Option<Self>)
        requires
            accounts.wf(),
        ensures
            match r {
                Some(contract) => {
                    &&& contract.wf()
                    &&& contract@ == state_of(
                        owner_id@,
                        extra_storage_in_bytes_per_token,
                        series@,
                        accounts@,
                    )
                },
                None => !state_of(
                    owner_id@,
                    extra_storage_in_bytes_per_token,
                    series@,
                    accounts@,
                ).valid(),
            },
    {
        let ghost state = state_of(
            owner_id@,
            extra_storage_in_bytes_per_token,
            series@,
            accounts@,
        );
        let mut i: usize = 0;
        while i < series.len()
            invariant
                0 <= i <= series@.len(),
                state == state_of(
                    owner_id@,
                    extra_storage_in_bytes_per_token,
                    series@,
                    accounts@,
                ),
                forall|j: int| 0 <= j < i ==> (#[trigger] state.series[j]).valid(series_id(j)),
            decreases series@.len() - i,
        {
            let id = decimal_string(i as u64 + 1);
            assert(state.series[i as int] == series@[i as int]@);
            if !series[i].is_valid(&id) {
                assert(!state.series[i as int].valid(series_id(i as int)));
                return None;
            }
            i += 1;
        }
        let contract = Contract {
            owner_id,
            extra_storage_in_bytes_per_token,
            token_series_by_id: series,
            accounts,
        };
        assert(contract@.series =~= state.series);
        Some(contract)
    }

    /// The escrow ledger.
    pub fn ledger(&self) -> (accounts: &AccountMap<u128>)
        requires
            self.wf(),
        ensures
            accounts.wf(),
            accounts@ == self@.accounts,
    {
        &self.accounts
    }

    /// The bytes of storage that the registry needs for one token.
    pub fn extra_storage_in_bytes_per_token(&self) -> (bytes: u64)
        ensures
            bytes == self@.storage_bytes_per_token,
    {
        self.extra_storage_in_bytes_per_token
    }

    /// The number of series.
    pub fn series_count(&self) -> (n: usize)
        ensures
            n == self@.series.len(),
    {
        self.token_series_by_id.len()
    }

    /// The series at position `i` of the registry.
    pub fn series_at(&self, i: usize) -> (series: &TokenSeries)
        requires
            i < self@.series.len(),
        ensures
            series@ == self@.series[i as int],
    {
        &self.token_series_by_id[i]
    }

    /// The position of the series with identifier `id`, if there is one.
    pub fn find_series(&self, id: &String) -> (r: Option<usize>)
        ensures
            match r {
                Some(i) => i < self@.series.len() && self@.has_series(id@) && self@.index_of(id@)
                    == i,
                None => !self@.has_series(id@),
            },
    {
        let count = self.token_series_by_id.len();
        match parse_decimal(id.as_str()) {
            Some(n) => {
                if n >= 1 && n <= count as u64 {
                    proof {
                        lemma_series_index(self@, n - 1);
                    }
                    Some((n - 1) as usize)
                } else {
                    proof {
                        if self@.has_series(id@) {
                            let j = self@.index_of(id@);
                            lemma_decimal_injective((j + 1) as nat, n as nat);
                        }
                    }
                    None
                }
            },
            None => {
                proof {
                    if self@.has_series(id@) {
                        let j = self@.index_of(id@);
                        assert(decimal(((j + 1) as u64) as nat) != id@);
                    }
                }
                None
            },
        }
    }

    /// The balance of `account` in the escrow ledger, if it is registered.
    pub fn balance(&self, account: &String) -> (r: Option<u128>)
        requires
            self.wf(),
        ensures
            r == if self@.accounts.contains_key(account@) {
                Some(self@.accounts[account@])
            } else {
                None
            },
    {
        self.accounts.get(account)
    }

    /// Creates a series for `creator_id`. The series is refused if its
    /// metadata carries no title or an empty one, if its royalty table names
    /// more than ten accounts, or if the shares of the table add up to more
    /// than 9000 basis points. Else it is registered under the next identifier, without
    /// tokens and open for minting, and the identifier is returned.
    pub fn internal_create_series(
        &mut self,
        creator_id: String,
        token_metadata: TokenMetadata,
        mint_price: Option<u128>,
        ft_token_id: Option<String>,
        royalty: Option<AccountMap<u32>>,
    ) -> (r: Result<String, ContractError>)
        requires
            old(self).wf(),
            old(self)@.series.len() < u64::MAX,
            royalty matches Some(table) ==> table.wf(),
        ensures
            final(self).wf(),
            follows(
                old(self)@.create_series(
                    creator_id@,
                    token_metadata@,
                    mint_price,
                    opt_text(ft_token_id),
                    royalty_entries(royalty),
                ),
                old(self)@,
                final(self)@,
                text_result(r),
            ),
    {
        if !token_metadata.has_title() {
            return Err(ContractError::TitleRequired);
        }
        let table = match royalty {
            Some(table) => table,
            None => AccountMap::new(),
        };
        match check_royalty(&table) {
            Err(e) => {
                return Err(e);
            },
            Ok(_) => {},
        }
        let count = self.token_series_by_id.len();
        let id = decimal_string(count as u64 + 1);
        let series = TokenSeries::new(creator_id, token_metadata, mint_price, ft_token_id, table);
        self.token_series_by_id.push(series);
        proof {
            assert(self@.series =~= old(self)@.series.push(series@));
            assert forall|i: int| 0 <= i < self@.series.len() implies (
            #[trigger] self@.series[i]).valid(series_id(i)) by {
                if i < count {
                    assert(self@.series[i] == old(self)@.series[i]);
                }
            }
        }
        Ok(id)
    }

    /// Mints for a payer whose balance is taken to be `balance`.
    fn mint_paid(
        &mut self,
        payer: String,
        balance: u128,
        id: &String,
        receiver_id: String,
    ) -> (r: Result<MintReceipt, ContractError>)
        requires
            old(self).wf(),
        ensures
            final(self).wf(),
            follows(
                old(self)@.mint_paid(payer@, balance, id@, receiver_id@),
                old(self)@,
                final(self)@,
                mint_result(r),
            ),
    {
        let fee = storage_fee(self.extra_storage_in_bytes_per_token);
        if balance <= fee {
            return Err(ContractError::NotEnoughDeposit);
        }
        let index = match self.find_series(id) {
            Some(i) => i,
            None => {
                return Err(ContractError::SeriesNotFound);
            },
        };
        match self.token_series_by_id[index].check_mint() {
            Err(e) => {
                return Err(e);
            },
            Ok(_) => {},
        }
        let metadata = self.token_series_by_id[index].metadata().clone();
        let token_id = self.token_series_by_id[index].mint(id);
        self.accounts.insert(payer, 0);
        proof {
            let before = old(self)@;
            let series = before.series_of(id@);
            assert(series.valid(series_id(index as int)));
            assert(self@.series =~= before.series.update(index as int, series.after_mint(id@)));
            assert(self@ == before.with_series(id@, series.after_mint(id@)).with_balance(payer@, 0));
            assert forall|i: int| 0 <= i < self@.series.len() implies (
            #[trigger] self@.series[i]).valid(series_id(i)) by {
                if i != index {
                    assert(self@.series[i] == before.series[i]);
                }
            }
        }
        Ok(MintReceipt { token_id, owner_id: receiver_id, metadata, refund: balance - fee })
    }

    /// Mints the next token of a series for `receiver_id`, paid for by the
    /// registered balance of `sender_id`: the whole balance but for the
    /// storage fee of the token goes back to the sender, and the balance is
    /// left at zero. The mint is refused if the sender is not registered, if
    /// the balance does not exceed the fee, if there is no such series, if
    /// all its copies are minted, or if it is closed for minting.
    pub fn internal_nft_mint_series(
        &mut self,
        sender_id: String,
        token_series_id: String,
        receiver_id: String,
    ) -> (r: Result<MintReceipt, ContractError>)
        requires
            old(self).wf(),
        ensures
            final(self).wf(),
            follows(
                old(self)@.mint_series(sender_id@, token_series_id@, receiver_id@),
                old(self)@,
                final(self)@,
                mint_result(r),
            ),
    {
        match self.accounts.get(&sender_id) {
            None => Err(ContractError::NotRegistered),
            Some(balance) => self.mint_paid(sender_id, balance, &token_series_id, receiver_id),
        }
    }

    /// Mints the next token of a series for `receiver_id` at the price of the
    /// series, which is taken from the balance of `sender_id` before the mint.
    pub fn internal_mint_with_near(
        &mut self,
        sender_id: String,
        token_series_id: String,
        receiver_id: String,
    ) -> (r: Result<MintReceipt, ContractError>)
        requires
            old(self).wf(),
        ensures
            final(self).wf(),
            follows(
                old(self)@.mint_with_near(sender_id@, token_series_id@, receiver_id@),
                old(self)@,
                final(self)@,
                mint_result(r),
            ),
    {
        let balance = match self.accounts.get(&sender_id) {
            None => {
                return Err(ContractError::NotRegistered);
            },
            Some(balance) => balance,
        };
        let index = match self.find_series(&token_series_id) {
            Some(i) => i,
            None => {
                return Err(ContractError::SeriesNotFound);
            },
        };
        let price = match self.token_series_by_id[index].price() {
            None => {
                return Err(ContractError::NotForSale);
            },
            Some(price) => price,
        };
        if balance < price {
            return Err(ContractError::InsufficientBalance);
        }
        self.mint_paid(sender_id, balance - price, &token_series_id, receiver_id)
    }

    /// Mints the next token of a series for `receiver_id` against a transfer
    /// of `amount` in the token `ft_token_id`, made by `sender_id`. The
    /// transfer must be in the token that the series is priced in and cover
    /// the price. Beside the receipt, the result holds what of the amount
    /// is left over the price.
    pub fn internal_mint_with_token(
        &mut self,
        sender_id: String,
        ft_token_id: String,
        amount: u128,
        token_series_id: String,
        receiver_id: String,
    ) -> (r: Result<(MintReceipt, u128), ContractError>)
        requires
            old(self).wf(),
        ensures
            final(self).wf(),
            follows(
                old(self)@.mint_with_token(
                    sender_id@,
                    ft_token_id@,
                    amount,
                    token_series_id@,
                    receiver_id@,
                ),
                old(self)@,
                final(self)@,
                paid_result(r),
            ),
    {
        let balance = match self.accounts.get(&sender_id) {
            None => {
                return Err(ContractError::NotRegistered);
            },
            Some(balance) => balance,
        };
        let index = match self.find_series(&token_series_id) {
            Some(i) => i,
            None => {
                return Err(ContractError::SeriesNotFound);
            },
        };
        let price = match self.token_series_by_id[index].price() {
            None => {
                return Err(ContractError::NotForSale);
            },
            Some(price) => price,
        };
        let same_token = match self.token_series_by_id[index].ft_token_id() {
            Some(token) => *token == ft_token_id,
            None => false,
        };
        if !same_token {
            return Err(ContractError::IncorrectToken);
        }
        if amount < price {
            return Err(ContractError::AmountLessThanPrice);
        }
        match self.mint_paid(sender_id, balance, &token_series_id, receiver_id) {
            Ok(receipt) => Ok((receipt, amount - price)),
            Err(e) => Err(e),
        }
    }

    /// Adds the deposit attached to the call to the balance of the caller,
    /// who is registered by it.
    pub fn storage_deposit(&mut self, ctx: &CallContext) -> (r: Result<(), ContractError>)
        requires
            old(self).wf(),
        ensures
            final(self).wf(),
            follows(
                old(self)@.deposit(ctx.predecessor_account_id@, ctx.attached_deposit),
                old(self)@,
                final(self)@,
                r,
            ),
    {
        let held: u128 = match self.accounts.get(&ctx.predecessor_account_id) {
            Some(balance) => balance,
            None => 0,
        };
        if held > u128::MAX - ctx.attached_deposit {
            return Err(ContractError::BalanceOverflow);
        }
        self.accounts.insert(ctx.predecessor_account_id.clone(), held + ctx.attached_deposit);
        Ok(())
    }

    /// Mints the next token of a series for `receiver_id` on behalf of the
    /// caller. The attached deposit is added to the caller's balance first.
    /// The creator of the series mints at no price; anyone else pays the
    /// price of the series from the balance. A refused mint leaves the
    /// balance as it was before the call.
    pub fn nft_mint(
        &mut self,
        ctx: &CallContext,
        token_series_id: String,
        receiver_id: String,
    ) -> (r: Result<MintReceipt, ContractError>)
        requires
            old(self).wf(),
        ensures
            final(self).wf(),
            follows(
                old(self)@.mint(
                    ctx.predecessor_account_id@,
                    ctx.attached_deposit,
                    token_series_id@,
                    receiver_id@,
                ),
                old(self)@,
                final(self)@,
                mint_result(r),
            ),
    {
        let held: u128 = match self.accounts.get(&ctx.predecessor_account_id) {
            Some(balance) => balance,
            None => 0,
        };
        if held > u128::MAX - ctx.attached_deposit {
            return Err(ContractError::BalanceOverflow);
        }
        let funded: u128 = held + ctx.attached_deposit;
        let index = match self.find_series(&token_series_id) {
            Some(i) => i,
            None => {
                return Err(ContractError::SeriesNotFound);
            },
        };
        let by_creator = ctx.predecessor_account_id == *self.token_series_by_id[index].creator_id();
        let balance: u128 = if by_creator {
            funded
        } else {
            match self.token_series_by_id[index].price() {
                None => {
                    return Err(ContractError::NotForSale);
                },
                Some(price) => {
                    if funded < price {
                        return Err(ContractError::InsufficientBalance);
                    }
                    funded - price
                },
            }
        };
        proof {
            let before = old(self)@;
            let caller = ctx.predecessor_account_id@;
            let state = before.with_balance(caller, funded);
            assert(state.accounts.contains_key(caller));
            assert(state.with_balance(caller, 0).accounts =~= before.with_balance(
                caller,
                0,
            ).accounts);
        }
        self.mint_paid(ctx.predecessor_account_id.clone(), balance, &token_series_id, receiver_id)
    }

    /// Creates a series on behalf of the caller. Where `creator_id` is given,
    /// it must be the signer of the transaction and becomes the creator;
    /// else the caller does. The result names the new series and says
    /// whether its first token is to be minted at once, which is so for a
    /// series of one copy that was given no price.
    pub fn nft_create_series(
        &mut self,
        ctx: &CallContext,
        creator_id: Option<String>,
        token_metadata: TokenMetadata,
        mint_price: Option<u128>,
        ft_token_id: Option<String>,
        royalty: Option<AccountMap<u32>>,
    ) -> (r: Result<SeriesCreated, ContractError>)
        requires
            old(self).wf(),
            old(self)@.series.len() < u64::MAX,
            royalty matches Some(table) ==> table.wf(),
        ensures
            final(self).wf(),
            follows(
                old(self)@.create_series_for(
                    ctx.predecessor_account_id@,
                    ctx.signer_account_id@,
                    opt_text(creator_id),
                    token_metadata@,
                    mint_price,
                    opt_text(ft_token_id),
                    royalty_entries(royalty),
                ),
                old(self)@,
                final(self)@,
                created_result(r),
            ),
    {
        let creator = match creator_id {
            Some(named) => {
                if named != ctx.signer_account_id {
                    return Err(ContractError::SignerIsNotCreator);
                }
                named
            },
            None => ctx.predecessor_account_id.clone(),
        };
        let mint_first = mint_price.is_none() && match token_metadata.copies {
            Some(copies) => copies == 1,
            None => false,
        };
        match self.internal_create_series(creator, token_metadata, mint_price, ft_token_id, royalty) {
            Ok(token_series_id) => Ok(SeriesCreated { token_series_id, mint_first }),
            Err(e) => Err(e),
        }
    }

    /// Settles the creation of a series once the storage that it took is
    /// known: `storage_used` bytes. The deposit attached to the call must
    /// cover their cost. Where the first token is to be minted, what is left
    /// of the deposit becomes the balance of the creator, and the token is
    /// minted for the creator from it. The result holds the mint, if any,
    /// and the amount to send back.
    pub fn nft_settle_series(
        &mut self,
        ctx: &CallContext,
        created: &SeriesCreated,
        storage_used: u64,
    ) -> (r: Result<SeriesSettled, ContractError>)
        requires
            old(self).wf(),
        ensures
            final(self).wf(),
            follows(
                old(self)@.settle_series(
                    ctx.attached_deposit,
                    storage_used,
                    created.token_series_id@,
                    created.mint_first,
                ),
                old(self)@,
                final(self)@,
                settled_result(r),
            ),
    {
        let cost = storage_fee(storage_used);
        if ctx.attached_deposit < cost {
            return Err(ContractError::DepositBelowStorageCost);
        }
        let left: u128 = ctx.attached_deposit - cost;
        if !created.mint_first {
            return Ok(SeriesSettled { minted: None, refund: left });
        }
        let index = match self.find_series(&created.token_series_id) {
            Some(i) => i,
            None => {
                return Err(ContractError::SeriesNotFound);
            },
        };
        let creator = self.token_series_by_id[index].creator_id().clone();
        let receiver = creator.clone();
        proof {
            let before = old(self)@;
            let state = before.with_balance(creator@, left);
            assert(state.accounts.contains_key(creator@));
            assert(state.with_balance(creator@, 0).accounts =~= before.with_balance(
                creator@,
                0,
            ).accounts);
        }
        match self.mint_paid(creator, left, &created.token_series_id, receiver) {
            Ok(receipt) => {
                let refund = receipt.refund;
                Ok(SeriesSettled { minted: Some(receipt), refund })
            },
            Err(e) => Err(e),
        }
    }

    /// The position of the series `id`, if the caller may change it.
    fn check_change(&self, ctx: &CallContext, id: &String) -> (r: Result<usize, ContractError>)
        ensures
            match r {
                Ok(index) => {
                    &&& self@.change_refusal(
                        ctx.predecessor_account_id@,
                        ctx.attached_deposit,
                        id@,
                    ).is_none()
                    &&& index < self@.series.len()
                    &&& self@.index_of(id@) == index
                },
                Err(e) => self@.change_refusal(
                    ctx.predecessor_account_id@,
                    ctx.attached_deposit,
                    id@,
                ) == Some(e),
            },
    {
        if ctx.attached_deposit != 1 {
            return Err(ContractError::OneYoctoRequired);
        }
        let index = match self.find_series(id) {
            Some(i) => i,
            None => {
                return Err(ContractError::SeriesNotFound);
            },
        };
        if ctx.predecessor_account_id != *self.token_series_by_id[index].creator_id() {
            return Err(ContractError::CreatorOnly);
        }
        Ok(index)
    }

    proof fn lemma_series_changed(&self, before: &Contract, index: int)
        requires
            before.wf(),
            self.accounts == before.accounts,
            self.owner_id == before.owner_id,
            self.extra_storage_in_bytes_per_token == before.extra_storage_in_bytes_per_token,
            0 <= index < before@.series.len(),
            self.token_series_by_id@.len() == before.token_series_by_id@.len(),
            forall|i: int|
                0 <= i < before@.series.len() && i != index ==> self.token_series_by_id@[i]
                    == before.token_series_by_id@[i],
            self.token_series_by_id@[index]@.valid(series_id(index)),
        ensures
            self.wf(),
            self@ == before@.with_series(series_id(index), self.token_series_by_id@[index]@),
    {
        lemma_series_index(before@, index);
        assert(self@.series =~= before@.series.update(index, self.token_series_by_id@[index]@));
        assert forall|i: int| 0 <= i < self@.series.len() implies (#[trigger] self@.series[i]).valid(
            series_id(i),
        ) by {
            if i != index {
                assert(self@.series[i] == before@.series[i]);
            }
        }
    }

    /// Sets the price of a series and the token to pay it in. Both are
    /// cleared unless both are given. The result holds the price that the
    /// series has afterwards.
    pub fn internal_set_price(
        &mut self,
        token_series_id: String,
        mint_price: Option<u128>,
        ft_token_id: Option<String>,
    ) -> (r: Result<Option<u128>, ContractError>)
        requires
            old(self).wf(),
        ensures
            final(self).wf(),
            follows(
                old(self)@.set_price(token_series_id@, mint_price, opt_text(ft_token_id)),
                old(self)@,
                final(self)@,
                r,
            ),
    {
        let index = match self.find_series(&token_series_id) {
            Some(i) => i,
            None => {
                return Err(ContractError::SeriesNotFound);
            },
        };
        self.token_series_by_id[index].set_price(mint_price, ft_token_id);
        proof {
            self.lemma_series_changed(old(self), index as int);
        }
        Ok(self.token_series_by_id[index].price())
    }

    /// Sets the price of a series on behalf of the caller, who must be its
    /// creator and attach one yoctoNEAR; the series must be open for minting.
    pub fn nft_set_series_price(
        &mut self,
        ctx: &CallContext,
        token_series_id: String,
        mint_price: Option<u128>,
        ft_token_id: Option<String>,
    ) -> (r: Result<Option<u128>, ContractError>)
        requires
            old(self).wf(),
        ensures
            final(self).wf(),
            follows(
                old(self)@.set_series_price(
                    ctx.predecessor_account_id@,
                    ctx.attached_deposit,
                    token_series_id@,
                    mint_price,
                    opt_text(ft_token_id),
                ),
                old(self)@,
                final(self)@,
                r,
            ),
    {
        let index = match self.check_change(ctx, &token_series_id) {
            Ok(i) => i,
            Err(e) => {
                return Err(e);
            },
        };
        if !self.token_series_by_id[index].is_mintable() {
            return Err(ContractError::NotMintable);
        }
        self.internal_set_price(token_series_id, mint_price, ft_token_id)
    }

    /// Closes a series for minting on behalf of the caller, who must be its
    /// creator and attach one yoctoNEAR. The series must be open and have a
    /// number of copies.
    pub fn nft_set_series_non_mintable(&mut self, ctx: &CallContext, token_series_id: String) -> (r:
        Result<(), ContractError>)
        requires
            old(self).wf(),
        ensures
            final(self).wf(),
            follows(
                old(self)@.set_series_non_mintable(
                    ctx.predecessor_account_id@,
                    ctx.attached_deposit,
                    token_series_id@,
                ),
                old(self)@,
                final(self)@,
                r,
            ),
    {
        let index = match self.check_change(ctx, &token_series_id) {
            Ok(i) => i,
            Err(e) => {
                return Err(e);
            },
        };
        if !self.token_series_by_id[index].is_mintable() {
            return Err(ContractError::AlreadyNonMintable);
        }
        if self.token_series_by_id[index].copies().is_none() {
            return Err(ContractError::UnboundedSupply);
        }
        self.token_series_by_id[index].close();
        proof {
            self.lemma_series_changed(old(self), index as int);
        }
        Ok(())
    }

    /// Takes `decrease_copies` off the number of copies of a series on behalf
    /// of the caller, who must be its creator and attach one yoctoNEAR. The
    /// number may not fall below the number of tokens minted; where it
    /// reaches that number, the series is closed. Returns the new number.
    pub fn nft_decrease_series_copies(
        &mut self,
        ctx: &CallContext,
        token_series_id: String,
        decrease_copies: u64,
    ) -> (r: Result<u64, ContractError>)
        requires
            old(self).wf(),
        ensures
            final(self).wf(),
            follows(
                old(self)@.decrease_series_copies(
                    ctx.predecessor_account_id@,
                    ctx.attached_deposit,
                    token_series_id@,
                    decrease_copies,
                ),
                old(self)@,
                final(self)@,
                r,
            ),
    {
        let index = match self.check_change(ctx, &token_series_id) {
            Ok(i) => i,
            Err(e) => {
                return Err(e);
            },
        };
        let copies = match self.token_series_by_id[index].copies() {
            None => {
                return Err(ContractError::UnboundedSupply);
            },
            Some(copies) => copies,
        };
        let minted = self.token_series_by_id[index].minted() as u64;
        if decrease_copies > copies || copies - decrease_copies < minted {
            return Err(ContractError::CannotDecreaseSupply);
        }
        let left = copies - decrease_copies;
        self.token_series_by_id[index].set_copies(left);
        proof {
            self.lemma_series_changed(old(self), index as int);
        }
        Ok(left)
    }

    /// Hands the state over to the caller's new code: for the owner of the
    /// contract only.
    pub fn migrate(prev: Contract, ctx: &CallContext) -> (r: Result<Contract, ContractError>)
        requires
            prev.wf(),
        ensures
            match r {
                Ok(contract) => {
                    &&& ctx.predecessor_account_id@ == prev@.owner_id
                    &&& contract == prev
                },
                Err(e) => ctx.predecessor_account_id@ != prev@.owner_id && e
                    == ContractError::OwnerOnly,
            },
    {
        if ctx.predecessor_account_id != prev.owner_id {
            return Err(ContractError::OwnerOnly);
        }
        Ok(prev)
    }

    /// Whether the caller may burn a token that belongs to `owner_id`: the
    /// caller must be the owner and attach one yoctoNEAR.
    pub fn nft_burn(&self, ctx: &CallContext, owner_id: &String) -> (r: Result<(), ContractError>)
        ensures
            match r {
                Ok(_) => burn_refusal(
                    ctx.attached_deposit,
                    ctx.predecessor_account_id@,
                    owner_id@,
                ).is_none(),
                Err(e) => burn_refusal(ctx.attached_deposit, ctx.predecessor_account_id@, owner_id@)
                    == Some(e),
            },
    {
        if ctx.attached_deposit != 1 {
            Err(ContractError::OneYoctoRequired)
        } else if *owner_id != ctx.predecessor_account_id {
            Err(ContractError::TokenOwnerOnly)
        } else {
            Ok(())
        }
    }

    /// The account that owns the contract.
    pub fn get_owner(&self) -> (owner: String)
        ensures
            owner@ == self@.owner_id,
    {
        self.owner_id.clone()
    }

    /// The storage fee of one token.
    pub fn get_storage_fee(&self) -> (fee: u128)
        ensures
            fee == self@.token_fee(),
    {
        storage_fee(self.extra_storage_in_bytes_per_token)
    }
}

} // verus!
