//! Payouts for the tokens of the contract: what is owed to whom when a token
//! changes hands for an amount.

use crate::contract::{CallContext, Contract};
use crate::error::ContractError;
use crate::payout::{compute_payout, Payout};
use crate::table::Entries;
use crate::text::series_id_of;
use vstd::prelude::*;

verus! {

/// The result of a payout, by its entries.
pub open spec fn payout_result(r: Result<Payout, ContractError>) -> Result<
    Entries<u128>,
    ContractError,
> {
    match r {
        Ok(p) => Ok(p.payout.entries()),
        Err(e) => Err(e),
    }
}

/// The result of a payout that there may be none of, by its entries.
pub open spec fn optional_payout_result(r: Result<Option<Payout>, ContractError>) -> Result<
    Option<Entries<u128>>,
    ContractError,
> {
    match r {
        Ok(Some(p)) => Ok(Some(p.payout.entries())),
        Ok(None) => Ok(None),
        Err(e) => Err(e),
    }
}

impl Contract {
    /// The payout of `balance` for a token of a series: each account of the
    /// royalty table is owed its share, and the creator of the series is
    /// then assigned the rest.
    pub fn internal_nft_payout(&self, token_series_id: String, balance: u128) -> (r: Result<
        Payout,
        ContractError,
    >)
        requires
            self.wf(),
        ensures
            payout_result(r) == self@.series_payout(token_series_id@, balance),
            r matches Ok(p) ==> p.payout.wf(),
    {
        let index = match self.find_series(&token_series_id) {
            Some(i) => i,
            None => {
                return Err(ContractError::SeriesNotFound);
            },
        };
        proof {
            self.lemma_wf_valid();
        }
        let series = self.series_at(index);
        compute_payout(series.royalty(), None, series.creator_id(), balance, None)
    }

    /// The payout of `balance` for the token `token_id`, which belongs to
    /// the series that its identifier starts with.
    pub fn nft_payout(&self, token_id: String, balance: u128) -> (r: Result<Payout, ContractError>)
        requires
            self.wf(),
        ensures
            payout_result(r) == self@.token_payout(token_id@, balance),
            r matches Ok(p) ==> p.payout.wf(),
    {
        let token_series_id = series_id_of(token_id.as_str());
        self.internal_nft_payout(token_series_id, balance)
    }

    /// The payout on a transfer of the token `token_id` away from
    /// `previous_owner_id`. The call must come with one yoctoNEAR. Where no
    /// balance is given there is no payout. Else `max_len_payout` must be
    /// given; the entry of the previous owner is left out of the royalties,
    /// and the previous owner is assigned the rest.
    pub fn nft_transfer_payout(
        &self,
        ctx: &CallContext,
        previous_owner_id: String,
        token_id: String,
        balance: Option<u128>,
        max_len_payout: Option<u32>,
    ) -> (r: Result<Option<Payout>, ContractError>)
        requires
            self.wf(),
        ensures
            optional_payout_result(r) == self@.transfer_payout(
                ctx.attached_deposit,
                previous_owner_id@,
                token_id@,
                balance,
                max_len_payout,
            ),
            r matches Ok(Some(p)) ==> p.payout.wf(),
    {
        if ctx.attached_deposit != 1 {
            return Err(ContractError::OneYoctoRequired);
        }
        let amount = match balance {
            None => {
                return Ok(None);
            },
            Some(amount) => amount,
        };
        let token_series_id = series_id_of(token_id.as_str());
        let index = match self.find_series(&token_series_id) {
            Some(i) => i,
            None => {
                return Err(ContractError::SeriesNotFound);
            },
        };
        if max_len_payout.is_none() {
            return Err(ContractError::PayoutLimitRequired);
        }
        proof {
            self.lemma_wf_valid();
        }
        let series = self.series_at(index);
        match compute_payout(
            series.royalty(),
            Some(&previous_owner_id),
            &previous_owner_id,
            amount,
            max_len_payout,
        ) {
            Ok(payout) => Ok(Some(payout)),
            Err(e) => Err(e),
        }
    }
}

} // verus!
