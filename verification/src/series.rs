//! A series: the definition of an edition, and the tokens minted from it.

use crate::error::ContractError;
use crate::metadata::{opt_text, MetadataView, TokenMetadata};
use crate::payout::{total_shares, MAX_ROYALTY, MAX_ROYALTY_ACCOUNTS};
use crate::table::{distinct_accounts, AccountMap, Entries};
use crate::text::{make_token_id, token_id_text};
use vstd::prelude::*;

verus! {

/// What a series holds, as mathematical values.
pub struct SeriesView {
    /// The metadata that every token of the series carries.
    pub metadata: MetadataView,
    /// The account that created the series.
    pub creator_id: Seq<char>,
    /// The identifiers of the tokens minted so far, in the order of minting.
    pub tokens: Seq<Seq<char>>,
    /// The price of one token, if the series is for sale.
    pub price: Option<u128>,
    /// The token in which the price is to be paid.
    pub ft_token_id: Option<Seq<char>>,
    /// Whether further tokens may be minted.
    pub is_mintable: bool,
    /// The royalty table: beneficiary and share in basis points.
    pub royalty: Entries<u32>,
}

/// Why a royalty table is refused for a new series, if it is.
pub open spec fn royalty_refusal(royalty: Entries<u32>) -> Option<ContractError> {
    if royalty.len() > MAX_ROYALTY_ACCOUNTS {
        Some(ContractError::TooManyRoyaltyAccounts)
    } else if total_shares(royalty) > MAX_ROYALTY {
        Some(ContractError::RoyaltyTooHigh)
    } else {
        None
    }
}

/// Checks a royalty table for a new series: it may name ten accounts at
/// most, and its shares may add up to 9000 basis points at most.
pub fn check_royalty(royalty: &AccountMap<u32>) -> (r: Result<(), ContractError>)
    ensures
        match r {
            Ok(_) => royalty_refusal(royalty.entries()).is_none(),
            Err(e) => royalty_refusal(royalty.entries()) == Some(e),
        },
{
    let n = royalty.len();
    if n > MAX_ROYALTY_ACCOUNTS {
        return Err(ContractError::TooManyRoyaltyAccounts);
    }
    let ghost e = royalty.entries();
    let mut total: u64 = 0;
    let mut i: usize = 0;
    while i < n
        invariant
            e == royalty.entries(),
            n == e.len(),
            n <= MAX_ROYALTY_ACCOUNTS,
            0 <= i <= n,
            total == total_shares(e.take(i as int)),
            total <= i * 0x1_0000_0000,
        decreases n - i,
    {
        proof {
            assert(e.take(i + 1).drop_last() =~= e.take(i as int));
        }
        total += royalty.value_at(i) as u64;
        i += 1;
    }
    proof {
        assert(e.take(n as int) =~= e);
    }
    if total > MAX_ROYALTY as u64 {
        Err(ContractError::RoyaltyTooHigh)
    } else {
        Ok(())
    }
}

impl SeriesView {
    /// The number of tokens minted so far.
    pub open spec fn minted(self) -> nat {
        self.tokens.len()
    }

    /// The most tokens that the series may ever hold. A series without a
    /// number of copies is bounded only by what a counter can hold.
    pub open spec fn supply_cap(self) -> nat {
        match self.metadata.copies {
            Some(c) => c as nat,
            None => u64::MAX as nat,
        }
    }

    /// Why the series refuses another mint, if it does.
    pub open spec fn mint_refusal(self) -> Option<ContractError> {
        if self.minted() >= self.supply_cap() {
            Some(ContractError::SupplyMaxed)
        } else if !self.is_mintable {
            Some(ContractError::NotMintable)
        } else {
            None
        }
    }

    /// The identifier of the token that the next mint creates, in the series
    /// with identifier `id`.
    pub open spec fn next_token_id(self, id: Seq<char>) -> Seq<char> {
        token_id_text(id, self.minted() + 1)
    }

    /// The series after one more token was minted: the token is recorded, and
    /// the series is closed when that token was its last copy.
    pub open spec fn after_mint(self, id: Seq<char>) -> SeriesView {
        SeriesView {
            tokens: self.tokens.push(self.next_token_id(id)),
            is_mintable: self.is_mintable && self.minted() + 1 < self.supply_cap(),
            ..self
        }
    }

    /// The series with a price and the token to pay it in; both are cleared
    /// unless both are given.
    pub open spec fn with_price(self, price: Option<u128>, ft_token_id: Option<Seq<char>>) -> SeriesView {
        if price.is_some() && ft_token_id.is_some() {
            SeriesView { price, ft_token_id, ..self }
        } else {
            SeriesView { price: None, ft_token_id: None, ..self }
        }
    }

    /// The series closed for minting.
    pub open spec fn closed(self) -> SeriesView {
        SeriesView { is_mintable: false, ..self }
    }

    /// The series with `copies` as its number of copies, closed if that many
    /// tokens are minted already.
    pub open spec fn with_copies(self, copies: u64) -> SeriesView {
        SeriesView {
            metadata: MetadataView { copies: Some(copies), ..self.metadata },
            is_mintable: self.is_mintable && copies != self.minted(),
            ..self
        }
    }

    /// The invariant of a series with identifier `id`.
    pub open spec fn valid(self, id: Seq<char>) -> bool {
        &&& self.metadata.has_title()
        &&& self.price.is_some() == self.ft_token_id.is_some()
        &&& self.minted() <= self.supply_cap()
        &&& (self.minted() == self.supply_cap() && self.minted() > 0 ==> !self.is_mintable)
        &&& forall|k: int|
            0 <= k < self.tokens.len() ==> #[trigger] self.tokens[k] == token_id_text(
                id,
                (k + 1) as nat,
            )
        &&& distinct_accounts(self.royalty)
        &&& royalty_refusal(self.royalty).is_none()
    }
}

/// A series of tokens.
pub struct TokenSeries {
    metadata: TokenMetadata,
    creator_id: String,
    tokens: Vec<String>,
    price: Option<u128>,
    ft_token_id: Option<String>,
    is_mintable: bool,
    royalty: AccountMap<u32>,
}

impl View for TokenSeries {
    type V = SeriesView;

    closed spec fn view(&self) -> SeriesView {
        SeriesView {
            metadata: self.metadata@,
            creator_id: self.creator_id@,
            tokens: Seq::new(self.tokens@.len(), |i: int| self.tokens@[i]@),
            price: self.price,
            ft_token_id: opt_text(self.ft_token_id),
            is_mintable: self.is_mintable,
            royalty: self.royalty.entries(),
        }
    }
}

impl TokenSeries {
    /// A new series without tokens, open for minting. The price and the
    /// token to pay it in are kept only if both are given.
    pub fn new(
        creator_id: String,
        metadata: TokenMetadata,
        price: Option<u128>,
        ft_token_id: Option<String>,
        royalty: AccountMap<u32>,
    ) -> (series: Self)
        ensures
            series@ == (SeriesView {
                metadata: metadata@,
                creator_id: creator_id@,
                tokens: Seq::empty(),
                price: None,
                ft_token_id: None,
                is_mintable: true,
                royalty: royalty.entries(),
            }).with_price(price, opt_text(ft_token_id)),
    {
        let paired = price.is_some() && ft_token_id.is_some();
        let series = TokenSeries {
            metadata,
            creator_id,
            tokens: Vec::new(),
            price: if paired {
                price
            } else {
                None
            },
            ft_token_id: if paired {
                ft_token_id
            } else {
                None
            },
            is_mintable: true,
            royalty,
        };
        assert(series@.tokens =~= Seq::<Seq<char>>::empty());
        series
    }

    /// The metadata of the series.
    pub fn metadata(&self) -> (m: &TokenMetadata)
        ensures
            m@ == self@.metadata,
    {
        &self.metadata
    }

    /// The account that created the series.
    pub fn creator_id(&self) -> (a: &String)
        ensures
            a@ == self@.creator_id,
    {
        &self.creator_id
    }

    /// The price of one token, if the series is for sale.
    pub fn price(&self) -> (p: Option<u128>)
        ensures
            p == self@.price,
    {
        self.price
    }

    /// The token in which the price is to be paid.
    pub fn ft_token_id(&self) -> (t: &Option<String>)
        ensures
            opt_text(*t) == self@.ft_token_id,
    {
        &self.ft_token_id
    }

    /// Whether further tokens may be minted.
    pub fn is_mintable(&self) -> (b: bool)
        ensures
            b == self@.is_mintable,
    {
        self.is_mintable
    }

    /// The number of copies that the series is limited to, if it is.
    pub fn copies(&self) -> (c: Option<u64>)
        ensures
            c == self@.metadata.copies,
    {
        self.metadata.copies
    }

    /// The royalty table.
    pub fn royalty(&self) -> (r: &AccountMap<u32>)
        ensures
            r.entries() == self@.royalty,
    {
        &self.royalty
    }

    /// The number of tokens minted so far.
    pub fn minted(&self) -> (n: usize)
        ensures
            n == self@.minted(),
    {
        self.tokens.len()
    }

    /// The identifier of the token minted as number `i + 1`.
    pub fn token_at(&self, i: usize) -> (t: &String)
        requires
            i < self@.minted(),
        ensures
            t@ == self@.tokens[i as int],
    {
        &self.tokens[i]
    }

    /// Why the series refuses another mint, if it does.
    pub fn check_mint(&self) -> (r: Result<(), ContractError>)
        ensures
            match r {
                Ok(_) => self@.mint_refusal().is_none(),
                Err(e) => self@.mint_refusal() == Some(e),
            },
    {
        let cap: u64 = match self.metadata.copies {
            Some(c) => c,
            None => u64::MAX,
        };
        if self.tokens.len() as u64 >= cap {
            Err(ContractError::SupplyMaxed)
        } else if !self.is_mintable {
            Err(ContractError::NotMintable)
        } else {
            Ok(())
        }
    }

    /// Mints the next token of the series with identifier `id` and returns
    /// the identifier of the token.
    pub(crate) fn mint(&mut self, id: &String) -> (token_id: String)
        requires
            old(self)@.mint_refusal().is_none(),
        ensures
            final(self)@ == old(self)@.after_mint(id@),
            token_id@ == old(self)@.next_token_id(id@),
    {
        let cap: u64 = match self.metadata.copies {
            Some(c) => c,
            None => u64::MAX,
        };
        let number: u64 = self.tokens.len() as u64 + 1;
        if number >= cap {
            self.is_mintable = false;
        }
        let token_id = make_token_id(id.as_str(), number);
        self.tokens.push(token_id.clone());
        assert(self@.tokens =~= old(self)@.tokens.push(token_id@));
        token_id
    }

    /// Sets the price and the token to pay it in, or clears both unless both
    /// are given.
    pub(crate) fn set_price(&mut self, price: Option<u128>, ft_token_id: Option<String>)
        ensures
            final(self)@ == old(self)@.with_price(price, opt_text(ft_token_id)),
    {
        if price.is_some() && ft_token_id.is_some() {
            self.price = price;
            self.ft_token_id = ft_token_id;
        } else {
            self.price = None;
            self.ft_token_id = None;
        }
    }

    /// Closes the series for minting.
    pub(crate) fn close(&mut self)
        ensures
            final(self)@ == old(self)@.closed(),
    {
        self.is_mintable = false;
    }

    /// Sets the number of copies, and closes the series if that many tokens
    /// are minted already.
    pub(crate) fn set_copies(&mut self, copies: u64)
        ensures
            final(self)@ == old(self)@.with_copies(copies),
    {
        if copies == self.tokens.len() as u64 {
            self.is_mintable = false;
        }
        self.metadata.copies = Some(copies);
    }
}

/// Whether no account occurs twice in the table.
fn accounts_differ(table: &AccountMap<u32>) -> (r: bool)
    ensures
        r == distinct_accounts(table.entries()),
{
    let ghost e = table.entries();
    let n = table.len();
    let mut j: usize = 0;
    while j < n
        invariant
            e == table.entries(),
            n == e.len(),
            0 <= j <= n,
            forall|a: int, b: int| 0 <= a < b < j ==> (#[trigger] e[a]).0 != (#[trigger] e[b]).0,
        decreases n - j,
    {
        let mut i: usize = 0;
        while i < j
            invariant
                e == table.entries(),
                n == e.len(),
                0 <= i <= j < n,
                forall|a: int| 0 <= a < i ==> (#[trigger] e[a]).0 != e[j as int].0,
            decreases j - i,
        {
            if *table.account_at(i) == *table.account_at(j) {
                assert(e[i as int].0 == e[j as int].0);
                return false;
            }
            i += 1;
        }
        j += 1;
    }
    true
}

impl TokenSeries {
    /// A series with the given parts, whatever they are.
    pub fn from_parts(
        metadata: TokenMetadata,
        creator_id: String,
        tokens: Vec<String>,
        price: Option<u128>,
        ft_token_id: Option<String>,
        is_mintable: bool,
        royalty: AccountMap<u32>,
    ) -> (series: Self)
        ensures
            series@ == (SeriesView {
                metadata: metadata@,
                creator_id: creator_id@,
                tokens: Seq::new(tokens@.len(), |i: int| tokens@[i]@),
                price,
                ft_token_id: opt_text(ft_token_id),
                is_mintable,
                royalty: royalty.entries(),
            }),
    {
        TokenSeries { metadata, creator_id, tokens, price, ft_token_id, is_mintable, royalty }
    }

    /// Whether the series meets the invariant of a series with identifier `id`.
    pub fn is_valid(&self, id: &String) -> (r: bool)
        ensures
            r == self@.valid(id@),
    {
        if !self.metadata.has_title() {
            return false;
        }
        if self.price.is_some() != self.ft_token_id.is_some() {
            return false;
        }
        let cap: u64 = match self.metadata.copies {
            Some(c) => c,
            None => u64::MAX,
        };
        let minted = self.tokens.len();
        if minted as u64 > cap {
            return false;
        }
        if minted as u64 == cap && minted > 0 && self.is_mintable {
            return false;
        }
        if check_royalty(&self.royalty).is_err() {
            return false;
        }
        if !accounts_differ(&self.royalty) {
            return false;
        }
        let mut k: usize = 0;
        while k < minted
            invariant
                0 <= k <= minted,
                minted == self.tokens@.len(),
                minted <= u64::MAX,
                forall|j: int|
                    0 <= j < k ==> #[trigger] self@.tokens[j] == token_id_text(id@, (j + 1) as nat),
            decreases minted - k,
        {
            let expected = make_token_id(id.as_str(), k as u64 + 1);
            if self.tokens[k] != expected {
                assert(self@.tokens[k as int] != token_id_text(id@, (k + 1) as nat));
                return false;
            }
            k += 1;
        }
        true
    }
}

} // verus!
