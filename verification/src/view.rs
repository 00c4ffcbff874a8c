//! Queries: what the contract tells about its series and their tokens.

use crate::contract::Contract;
use crate::error::ContractError;
use crate::metadata::{copy_text, opt_text, MetadataView, TokenMetadata};
use crate::model::series_id;
use crate::series::{SeriesView, TokenSeries};
use crate::table::{AccountMap, Entries};
use crate::text::{decimal_string, EDITION_DELIMETER, TITLE_DELIMETER, TOKEN_DELIMETER};
use vstd::prelude::*;

verus! {

/// What the contract tells about a series.
#[derive(Debug)]
pub struct TokenSeriesInfo {
    pub token_series_id: String,
    pub metadata: TokenMetadata,
    pub creator_id: String,
    pub royalty: AccountMap<u32>,
    pub ft_token_id: Option<String>,
    pub mint_price: Option<u128>,
}

/// What a `TokenSeriesInfo` holds, as mathematical values.
pub struct InfoView {
    pub token_series_id: Seq<char>,
    pub metadata: MetadataView,
    pub creator_id: Seq<char>,
    pub royalty: Entries<u32>,
    pub ft_token_id: Option<Seq<char>>,
    pub mint_price: Option<u128>,
}

impl View for TokenSeriesInfo {
    type V = InfoView;

    open spec fn view(&self) -> InfoView {
        InfoView {
            token_series_id: self.token_series_id@,
            metadata: self.metadata@,
            creator_id: self.creator_id@,
            royalty: self.royalty.entries(),
            ft_token_id: opt_text(self.ft_token_id),
            mint_price: self.mint_price,
        }
    }
}

/// What is told about the series `series` with identifier `id`.
pub open spec fn info_of(series: SeriesView, id: Seq<char>) -> InfoView {
    InfoView {
        token_series_id: id,
        metadata: series.metadata,
        creator_id: series.creator_id,
        royalty: series.royalty,
        ft_token_id: series.ft_token_id,
        mint_price: series.price,
    }
}

/// The first index of a page; zero where none is given.
pub open spec fn page_start(from_index: Option<u128>) -> nat {
    match from_index {
        Some(start) => start as nat,
        None => 0,
    }
}

/// Why a page of `total` items is refused, if it is: its first index must be
/// below the number of items, and its limit must not be zero.
pub open spec fn page_refusal(total: nat, from_index: Option<u128>, limit: Option<u64>) -> Option<
    ContractError,
> {
    if total <= page_start(from_index) {
        Some(ContractError::OutOfBounds)
    } else if limit == Some(0u64) {
        Some(ContractError::ZeroLimit)
    } else {
        None
    }
}

/// The number of items on a page of `total` items: the items from the first
/// index on, up to the limit where one is given.
pub open spec fn page_len(total: nat, from_index: Option<u128>, limit: Option<u64>) -> nat {
    let rest = (total - page_start(from_index)) as nat;
    match limit {
        Some(most) => if most < rest {
            most as nat
        } else {
            rest
        },
        None => rest,
    }
}

/// The bounds of a page of `total` items: its first index and the index
/// after its last.
fn page_bounds(total: usize, from_index: Option<u128>, limit: Option<u64>) -> (r: Result<
    (usize, usize),
    ContractError,
>)
    ensures
        match r {
            Ok((start, end)) => {
                &&& page_refusal(total as nat, from_index, limit).is_none()
                &&& start == page_start(from_index)
                &&& end == start + page_len(total as nat, from_index, limit)
                &&& end <= total
            },
            Err(e) => page_refusal(total as nat, from_index, limit) == Some(e),
        },
{
    let first: u128 = match from_index {
        Some(start) => start,
        None => 0,
    };
    if total as u128 <= first {
        return Err(ContractError::OutOfBounds);
    }
    let start = first as usize;
    let rest = total - start;
    let count = match limit {
        Some(most) => {
            if most == 0 {
                return Err(ContractError::ZeroLimit);
            }
            if most < rest as u64 {
                most as usize
            } else {
                rest
            }
        },
        None => rest,
    };
    Ok((start, start + count))
}

fn describe(series: &TokenSeries, token_series_id: String) -> (info: TokenSeriesInfo)
    ensures
        info@ == info_of(series@, token_series_id@),
{
    TokenSeriesInfo {
        token_series_id,
        metadata: series.metadata().clone(),
        creator_id: series.creator_id().clone(),
        royalty: series.royalty().clone(),
        ft_token_id: copy_text(series.ft_token_id()),
        mint_price: series.price(),
    }
}

impl Contract {
    /// What the contract tells about the series `token_series_id`.
    pub fn nft_get_series_single(&self, token_series_id: String) -> (r: Result<
        TokenSeriesInfo,
        ContractError,
    >)
        ensures
            match r {
                Ok(info) => self@.has_series(token_series_id@) && info@ == info_of(
                    self@.series_of(token_series_id@),
                    token_series_id@,
                ),
                Err(e) => !self@.has_series(token_series_id@) && e == ContractError::SeriesNotFound,
            },
    {
        match self.find_series(&token_series_id) {
            Some(index) => Ok(describe(self.series_at(index), token_series_id)),
            None => Err(ContractError::SeriesNotFound),
        }
    }

    /// The delimiters of identifiers and titles: between a series and a
    /// token number, between a title and an edition, and between an edition
    /// and the number of copies.
    pub fn nft_get_series_format(&self) -> (r: (char, &'static str, &'static str))
        ensures
            r.0 == TOKEN_DELIMETER,
            r.1@ == TITLE_DELIMETER@,
            r.2@ == EDITION_DELIMETER@,
    {
        (TOKEN_DELIMETER, TITLE_DELIMETER, EDITION_DELIMETER)
    }

    /// The price of the series `token_series_id`, if it has one.
    pub fn nft_get_series_price(&self, token_series_id: String) -> (r: Result<
        Option<u128>,
        ContractError,
    >)
        ensures
            match r {
                Ok(price) => self@.has_series(token_series_id@) && price == self@.series_of(
                    token_series_id@,
                ).price,
                Err(e) => !self@.has_series(token_series_id@) && e == ContractError::SeriesNotFound,
            },
    {
        match self.find_series(&token_series_id) {
            Some(index) => Ok(self.series_at(index).price()),
            None => Err(ContractError::SeriesNotFound),
        }
    }

    /// A page of the series in the order of their creation, from
    /// `from_index` on and of `limit` series at most.
    pub fn nft_get_series(&self, from_index: Option<u128>, limit: Option<u64>) -> (r: Result<
        Vec<TokenSeriesInfo>,
        ContractError,
    >)
        ensures
            match r {
                Ok(page) => {
                    &&& page_refusal(self@.series.len(), from_index, limit).is_none()
                    &&& page@.len() == page_len(self@.series.len(), from_index, limit)
                    &&& forall|k: int|
                        0 <= k < page@.len() ==> (#[trigger] page@[k])@ == info_of(
                            self@.series[page_start(from_index) + k],
                            series_id(page_start(from_index) + k),
                        )
                },
                Err(e) => page_refusal(self@.series.len(), from_index, limit) == Some(e),
            },
    {
        let (start, end) = match page_bounds(self.series_count(), from_index, limit) {
            Ok(bounds) => bounds,
            Err(e) => {
                return Err(e);
            },
        };
        let mut page: Vec<TokenSeriesInfo> = Vec::new();
        let mut i: usize = start;
        while i < end
            invariant
                start <= i <= end,
                end <= self@.series.len(),
                page@.len() == i - start,
                forall|k: int|
                    0 <= k < page@.len() ==> (#[trigger] page@[k])@ == info_of(
                        self@.series[start + k],
                        series_id(start + k),
                    ),
            decreases end - i,
        {
            let id = decimal_string(i as u64 + 1);
            page.push(describe(self.series_at(i), id));
            i += 1;
        }
        Ok(page)
    }

    /// The number of tokens minted from the series `token_series_id`.
    pub fn nft_supply_for_series(&self, token_series_id: String) -> (r: Result<u64, ContractError>)
        ensures
            match r {
                Ok(supply) => self@.has_series(token_series_id@) && supply == self@.series_of(
                    token_series_id@,
                ).minted(),
                Err(e) => !self@.has_series(token_series_id@) && e == ContractError::SeriesNotFound,
            },
    {
        match self.find_series(&token_series_id) {
            Some(index) => Ok(self.series_at(index).minted() as u64),
            None => Err(ContractError::SeriesNotFound),
        }
    }

    /// A page of the identifiers of the tokens minted from the series
    /// `token_series_id`, in the order of minting, from `from_index` on and
    /// of `limit` tokens at most.
    pub fn nft_tokens_by_series(
        &self,
        token_series_id: String,
        from_index: Option<u128>,
        limit: Option<u64>,
    ) -> (r: Result<Vec<String>, ContractError>)
        ensures
            match r {
                Ok(page) => {
                    &&& self@.has_series(token_series_id@)
                    &&& page_refusal(
                        self@.series_of(token_series_id@).minted(),
                        from_index,
                        limit,
                    ).is_none()
                    &&& page@.len() == page_len(
                        self@.series_of(token_series_id@).minted(),
                        from_index,
                        limit,
                    )
                    &&& forall|k: int|
                        0 <= k < page@.len() ==> (#[trigger] page@[k])@ == self@.series_of(
                            token_series_id@,
                        ).tokens[page_start(from_index) + k]
                },
                Err(e) => if self@.has_series(token_series_id@) {
                    page_refusal(self@.series_of(token_series_id@).minted(), from_index, limit)
                        == Some(e)
                } else {
                    e == ContractError::SeriesNotFound
                },
            },
    {
        let index = match self.find_series(&token_series_id) {
            Some(i) => i,
            None => {
                return Err(ContractError::SeriesNotFound);
            },
        };
        let series = self.series_at(index);
        let (start, end) = match page_bounds(series.minted(), from_index, limit) {
            Ok(bounds) => bounds,
            Err(e) => {
                return Err(e);
            },
        };
        let mut page: Vec<String> = Vec::new();
        let mut i: usize = start;
        while i < end
            invariant
                start <= i <= end,
                end <= series@.minted(),
                page@.len() == i - start,
                forall|k: int|
                    0 <= k < page@.len() ==> (#[trigger] page@[k])@ == series@.tokens[start + k],
            decreases end - i,
        {
            page.push(series.token_at(i).clone());
            i += 1;
        }
        Ok(page)
    }
}

} // verus!
