//! Minting against an incoming transfer of a fungible token.

use crate::contract::{paid_result, CallContext, Contract, MintReceipt};
use crate::error::ContractError;
use crate::model::{follows, ContractView, MintView};
use vstd::prelude::*;

verus! {

/// The message of a transfer: the series to mint from, and who gets the token.
#[derive(Debug)]
pub struct TokenReceiverMessage {
    pub token_series_id: String,
    pub receiver_id: String,
}

/// What a transfer with the message text `msg`, read as `message`, leads to:
/// an empty text and a text that could not be read are refused; else a
/// token is minted against the transfer.
pub open spec fn on_transfer(
    state: ContractView,
    token_in: Seq<char>,
    sender: Seq<char>,
    amount: u128,
    msg: Seq<char>,
    message: Option<TokenReceiverMessage>,
) -> Result<(ContractView, (MintView, u128)), ContractError> {
    if msg.len() == 0 {
        Err(ContractError::NoMessage)
    } else {
        match message {
            None => Err(ContractError::WrongMessageFormat),
            Some(m) => state.mint_with_token(
                sender,
                token_in,
                amount,
                m.token_series_id@,
                m.receiver_id@,
            ),
        }
    }
}

impl Contract {
    /// Takes a transfer of `amount` that `sender_id` made in the token of the
    /// calling contract. `msg` is the text that came with the transfer and
    /// `message` what was read from it, if it could be read. A token of the
    /// named series is minted for the named receiver; the result holds the
    /// receipt and the part of the amount that was not spent.
    pub fn ft_on_transfer(
        &mut self,
        ctx: &CallContext,
        sender_id: String,
        amount: u128,
        msg: String,
        message: Option<TokenReceiverMessage>,
    ) -> (r: Result<(MintReceipt, u128), ContractError>)
        requires
            old(self).wf(),
        ensures
            final(self).wf(),
            follows(
                on_transfer(
                    old(self)@,
                    ctx.predecessor_account_id@,
                    sender_id@,
                    amount,
                    msg@,
                    message,
                ),
                old(self)@,
                final(self)@,
                paid_result(r),
            ),
    {
        if msg.as_str().is_empty() {
            return Err(ContractError::NoMessage);
        }
        match message {
            None => Err(ContractError::WrongMessageFormat),
            Some(m) => self.internal_mint_with_token(
                sender_id,
                ctx.predecessor_account_id.clone(),
                amount,
                m.token_series_id,
                m.receiver_id,
            ),
        }
    }
}

} // verus!
