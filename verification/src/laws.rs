//! What holds of the operations of the contract, whatever the state and the
//! arguments: the lifecycle of a series, and the accounting of a paid mint.

use crate::error::ContractError;
use crate::metadata::MetadataView;
use crate::model::{follows, new_series, royalty_or_empty, series_id, ContractView, MintView};
use crate::payout::{
    applied, lemma_applied_all, lemma_applied_total, lemma_excluded_receiver,
    lemma_payout_adds_up, lemma_payout_amounts, lemma_payout_is_exact, rounding_loss,
    splits_without_loss, sum_amounts, total_shares, MAX_ROYALTY, MAX_ROYALTY_ACCOUNTS,
};
use crate::series::SeriesView;
use crate::table::{distinct_accounts, has_account, Entries};
use crate::text::{lemma_decimal_injective, token_id_text};
use vstd::prelude::*;

verus! {

/// Every copy of the series has been minted.
pub open spec fn exhausted(series: SeriesView) -> bool {
    series.minted() == series.supply_cap()
}

/// `a` is the beginning of `b`.
pub open spec fn is_prefix(a: Seq<Seq<char>>, b: Seq<Seq<char>>) -> bool {
    &&& a.len() <= b.len()
    &&& forall|k: int| 0 <= k < a.len() ==> a[k] == b[k]
}

/// What may become of a series: its creator, its royalty table and all of
/// its metadata but the number of copies stay; tokens are added at the end
/// and never taken away; the supply cap never grows; and a series closed
/// for minting stays closed and keeps its tokens.
pub open spec fn series_advances(before: SeriesView, after: SeriesView) -> bool {
    &&& after.creator_id == before.creator_id
    &&& after.royalty == before.royalty
    &&& after.metadata == (MetadataView { copies: after.metadata.copies, ..before.metadata })
    &&& is_prefix(before.tokens, after.tokens)
    &&& after.supply_cap() <= before.supply_cap()
    &&& (!before.is_mintable ==> !after.is_mintable && after.tokens == before.tokens)
}

/// What may become of the state: the owner and the storage need of a token
/// stay; series are added at the end and never taken away; and each series
/// becomes what a series may become.
pub open spec fn advances(before: ContractView, after: ContractView) -> bool {
    &&& after.owner_id == before.owner_id
    &&& after.storage_bytes_per_token == before.storage_bytes_per_token
    &&& before.series.len() <= after.series.len()
    &&& forall|i: int|
        0 <= i < before.series.len() ==> series_advances(before.series[i], #[trigger] after.series[i])
}

/// The series `id` of `after` is that of `before` with one more token, and
/// the other series are as they were.
pub open spec fn minted_one(
    before: ContractView,
    after: ContractView,
    id: Seq<char>,
    minted: MintView,
) -> bool {
    &&& before.has_series(id)
    &&& after.has_series(id)
    &&& after.series.len() == before.series.len()
    &&& after.series_of(id).minted() == before.series_of(id).minted() + 1
    &&& after.series_of(id).minted() <= after.series_of(id).supply_cap()
    &&& minted.token_id == token_id_text(id, before.series_of(id).minted() + 1)
    &&& after.series_of(id).tokens == before.series_of(id).tokens.push(minted.token_id)
    &&& before.series_of(id).is_mintable
    &&& (exhausted(after.series_of(id)) ==> !after.series_of(id).is_mintable)
    &&& forall|i: int|
        0 <= i < before.series.len() && i != before.index_of(id) ==> after.series[i]
            == before.series[i]
}

proof fn lemma_index(state: ContractView, id: Seq<char>)
    requires
        state.has_series(id),
    ensures
        0 <= state.index_of(id) < state.series.len(),
        series_id(state.index_of(id)) == id,
        forall|i: int| 0 <= i < state.series.len() && series_id(i) == id ==> i == state.index_of(id),
{
    assert forall|i: int| 0 <= i < state.series.len() && series_id(i) == id implies i
        == state.index_of(id) by {
        lemma_decimal_injective((i + 1) as nat, (state.index_of(id) + 1) as nat);
    }
}

proof fn lemma_same_length(before: ContractView, after: ContractView, id: Seq<char>)
    requires
        before.series.len() == after.series.len(),
    ensures
        before.has_series(id) == after.has_series(id),
        before.has_series(id) ==> before.index_of(id) == after.index_of(id),
{
    if before.has_series(id) {
        lemma_index(before, id);
        assert(series_id(before.index_of(id)) == id);
        assert(after.has_series(id));
        lemma_index(after, id);
    }
    if after.has_series(id) {
        lemma_index(after, id);
        assert(series_id(after.index_of(id)) == id);
        assert(before.has_series(id));
    }
}

proof fn lemma_replaced(before: ContractView, id: Seq<char>, series: SeriesView)
    requires
        before.valid(),
        before.has_series(id),
        series.valid(id),
        series_advances(before.series_of(id), series),
    ensures
        before.with_series(id, series).valid(),
        advances(before, before.with_series(id, series)),
        before.with_series(id, series).has_series(id),
        before.with_series(id, series).series_of(id) == series,
        before.with_series(id, series).index_of(id) == before.index_of(id),
{
    let after = before.with_series(id, series);
    lemma_index(before, id);
    lemma_same_length(before, after, id);
    assert forall|i: int| 0 <= i < after.series.len() implies (#[trigger] after.series[i]).valid(
        series_id(i),
    ) by {
        if i != before.index_of(id) {
            assert(after.series[i] == before.series[i]);
        }
    }
    assert forall|i: int| 0 <= i < before.series.len() implies series_advances(
        before.series[i],
        #[trigger] after.series[i],
    ) by {
        if i != before.index_of(id) {
            assert(after.series[i] == before.series[i]);
        }
    }
}

proof fn lemma_balance_only(before: ContractView, account: Seq<char>, balance: u128)
    requires
        before.valid(),
    ensures
        before.with_balance(account, balance).valid(),
        advances(before, before.with_balance(account, balance)),
        before.with_balance(account, balance).series == before.series,
{
    let after = before.with_balance(account, balance);
    assert forall|i: int| 0 <= i < before.series.len() implies series_advances(
        before.series[i],
        #[trigger] after.series[i],
    ) by {}
}

proof fn lemma_advances_chain(a: ContractView, b: ContractView, c: ContractView)
    requires
        advances(a, b),
        advances(b, c),
    ensures
        advances(a, c),
{
    assert forall|i: int| 0 <= i < a.series.len() implies series_advances(
        a.series[i],
        #[trigger] c.series[i],
    ) by {
        assert(series_advances(a.series[i], b.series[i]));
        assert(series_advances(b.series[i], c.series[i]));
    }
}

/// A series is created exactly when its metadata carries a title that is
/// not empty, its royalty table names ten accounts at most, and the shares
/// of the table add up to 9000 basis points at most. The new series gets an identifier that
/// no series had, holds no token and is open for minting; the series that
/// were there stay as they were.
pub proof fn law_creation(
    state: ContractView,
    creator_id: Seq<char>,
    metadata: MetadataView,
    price: Option<u128>,
    ft_token_id: Option<Seq<char>>,
    royalty: Option<Entries<u32>>,
)
    requires
        state.valid(),
        distinct_accounts(royalty_or_empty(royalty)),
    ensures
        state.create_series(creator_id, metadata, price, ft_token_id, royalty).is_ok() <==> (
        metadata.has_title() && royalty_or_empty(royalty).len() <= MAX_ROYALTY_ACCOUNTS
            && total_shares(royalty_or_empty(royalty)) <= MAX_ROYALTY),
        state.create_series(creator_id, metadata, price, ft_token_id, royalty) matches Ok(
            (after, id),
        ) ==> {
            &&& after.valid()
            &&& advances(state, after)
            &&& after.series.len() == state.series.len() + 1
            &&& !state.has_series(id)
            &&& after.has_series(id)
            &&& after.series_of(id).minted() == 0
            &&& after.series_of(id).is_mintable
            &&& after.series_of(id) == new_series(
                creator_id,
                metadata,
                price,
                ft_token_id,
                royalty_or_empty(royalty),
            )
        },
{
    if let Ok((after, id)) = state.create_series(creator_id, metadata, price, ft_token_id, royalty) {
        let n = state.series.len() as int;
        let created = new_series(creator_id, metadata, price, ft_token_id, royalty_or_empty(royalty));
        assert(after.series[n] == created);
        assert(series_id(n) == id);
        lemma_index(after, id);
        if state.has_series(id) {
            lemma_index(state, id);
            lemma_decimal_injective((state.index_of(id) + 1) as nat, (n + 1) as nat);
        }
        assert forall|i: int| 0 <= i < after.series.len() implies (#[trigger] after.series[i]).valid(
            series_id(i),
        ) by {
            if i < n {
                assert(after.series[i] == state.series[i]);
            }
        }
        assert forall|i: int| 0 <= i < state.series.len() implies series_advances(
            state.series[i],
            #[trigger] after.series[i],
        ) by {
            assert(after.series[i] == state.series[i]);
        }
    }
}

/// A refused operation leaves the state as it was.
pub proof fn law_refusal_changes_nothing<R>(
    step: Result<(ContractView, R), ContractError>,
    before: ContractView,
    after: ContractView,
    result: Result<R, ContractError>,
)
    requires
        follows(step, before, after, result),
    ensures
        result.is_err() ==> after == before,
        result.is_err() == step.is_err(),
{
}

/// A successful mint adds one token to its series, which never holds more
/// tokens than its supply cap. The number in the identifier of the token is
/// one more than the number of tokens that the series held. A series that
/// holds all its copies after the mint is closed by it. The payer's balance
/// is left at zero, and the other series stay as they were.
pub proof fn law_mint(
    state: ContractView,
    payer: Seq<char>,
    balance: u128,
    id: Seq<char>,
    receiver: Seq<char>,
)
    requires
        state.valid(),
    ensures
        state.mint_paid(payer, balance, id, receiver) matches Ok((after, minted)) ==> {
            &&& after.valid()
            &&& advances(state, after)
            &&& minted_one(state, after, id, minted)
            &&& minted.owner_id == receiver
            &&& minted.metadata == state.series_of(id).metadata
            &&& minted.refund + state.token_fee() == balance
            &&& minted.refund > 0
            &&& after.accounts == state.accounts.insert(payer, 0)
        },
{
    if let Ok((after, minted)) = state.mint_paid(payer, balance, id, receiver) {
        let series = state.series_of(id);
        let grown = series.after_mint(id);
        lemma_index(state, id);
        assert(series.valid(id));
        assert(grown.valid(id));
        assert(series_advances(series, grown));
        lemma_replaced(state, id, grown);
        let middle = state.with_series(id, grown);
        lemma_balance_only(middle, payer, 0);
        lemma_advances_chain(state, middle, after);
        lemma_same_length(middle, after, id);
        assert forall|i: int| 0 <= i < state.series.len() && i != state.index_of(id) implies after.series[i]
            == state.series[i] by {}
    }
}

/// The same holds of a mint by each way of paying for it: from the
/// registered balance, at the price of the series, against a transfer, and
/// on behalf of a caller who attaches a deposit.
pub proof fn law_mint_paths(
    state: ContractView,
    payer: Seq<char>,
    token_in: Seq<char>,
    amount: u128,
    id: Seq<char>,
    receiver: Seq<char>,
)
    requires
        state.valid(),
    ensures
        state.mint_series(payer, id, receiver) matches Ok((after, minted)) ==> after.valid()
            && advances(state, after) && minted_one(state, after, id, minted),
        state.mint_with_near(payer, id, receiver) matches Ok((after, minted)) ==> after.valid()
            && advances(state, after) && minted_one(state, after, id, minted),
        state.mint_with_token(payer, token_in, amount, id, receiver) matches Ok(
            (after, (minted, unspent)),
        ) ==> after.valid() && advances(state, after) && minted_one(state, after, id, minted)
            && unspent + state.series_of(id).price.unwrap() == amount,
        state.mint(payer, amount, id, receiver) matches Ok((after, minted)) ==> after.valid()
            && advances(state, after) && minted_one(state, after, id, minted),
{
    if state.accounts.contains_key(payer) {
        law_mint(state, payer, state.accounts[payer], id, receiver);
        if state.has_series(id) && state.series_of(id).price.is_some() && state.accounts[payer]
            >= state.series_of(id).price.unwrap() {
            law_mint(
                state,
                payer,
                (state.accounts[payer] - state.series_of(id).price.unwrap()) as u128,
                id,
                receiver,
            );
        }
    }
    if let Ok((after, minted)) = state.mint(payer, amount, id, receiver) {
        let funded = state.deposit(payer, amount).unwrap().0;
        lemma_balance_only(state, payer, funded.accounts[payer]);
        lemma_same_length(state, funded, id);
        let balance = if payer != state.series_of(id).creator_id {
            (funded.accounts[payer] - funded.series_of(id).price.unwrap()) as u128
        } else {
            funded.accounts[payer]
        };
        law_mint(funded, payer, balance, id, receiver);
        lemma_advances_chain(state, funded, after);
    }
}

/// Once a series holds all its copies it stays so, whatever becomes of the
/// state; and if it holds any token, it is closed for minting.
pub proof fn law_exhausted_stays(before: ContractView, after: ContractView, i: int)
    requires
        before.valid(),
        after.valid(),
        advances(before, after),
        0 <= i < before.series.len(),
        exhausted(before.series[i]),
    ensures
        exhausted(after.series[i]),
        after.series[i].minted() == before.series[i].minted(),
        before.series[i].minted() > 0 ==> !before.series[i].is_mintable
            && !after.series[i].is_mintable,
{
    assert(series_advances(before.series[i], after.series[i]));
    assert(before.series[i].valid(series_id(i)));
    assert(after.series[i].valid(series_id(i)));
}

/// No token can be minted from a series that holds all its copies: every
/// way of minting is refused.
pub proof fn law_exhausted_refuses(
    state: ContractView,
    payer: Seq<char>,
    token_in: Seq<char>,
    amount: u128,
    balance: u128,
    id: Seq<char>,
    receiver: Seq<char>,
)
    requires
        state.has_series(id),
        exhausted(state.series_of(id)),
    ensures
        state.mint_paid(payer, balance, id, receiver).is_err(),
        state.mint_series(payer, id, receiver).is_err(),
        state.mint_with_near(payer, id, receiver).is_err(),
        state.mint_with_token(payer, token_in, amount, id, receiver).is_err(),
        state.mint(payer, amount, id, receiver).is_err(),
        balance > state.token_fee() ==> state.mint_paid(payer, balance, id, receiver) == Err::<
            (ContractView, MintView),
            ContractError,
        >(ContractError::SupplyMaxed),
{
    if let Ok((funded, _)) = state.deposit(payer, amount) {
        lemma_same_length(state, funded, id);
    }
}

/// A paid mint and the escrow balance. Let `account` deposit `amount` and
/// then mint from a series with a price. If the balance after the deposit
/// is less than the price, the mint is refused for that reason. Otherwise
/// the mint goes ahead exactly when the balance less the price would be
/// accepted for a mint; then the balance is left at zero, and the price,
/// the storage fee of the token and what goes back to the payer make up
/// the balance that the deposit had led to.
pub proof fn law_deposit_then_mint(
    state: ContractView,
    account: Seq<char>,
    amount: u128,
    id: Seq<char>,
    receiver: Seq<char>,
)
    requires
        state.valid(),
        state.has_series(id),
        state.series_of(id).price.is_some(),
        state.balance_of(account) + amount <= u128::MAX,
    ensures
        ({
            let funded = state.deposit(account, amount).unwrap().0;
            let balance = state.balance_of(account) + amount;
            let price = state.series_of(id).price.unwrap();
            &&& funded.balance_of(account) == balance
            &&& funded.series == state.series
            &&& price > balance ==> funded.mint_with_near(account, id, receiver) == Err::<
                (ContractView, MintView),
                ContractError,
            >(ContractError::InsufficientBalance)
            &&& price <= balance ==> (funded.mint_with_near(account, id, receiver).is_ok()
                <==> funded.mint_refusal((balance - price) as u128, id).is_none())
            &&& funded.mint_with_near(account, id, receiver) matches Ok((after, minted)) ==> {
                &&& after.balance_of(account) == 0
                &&& price + state.token_fee() + minted.refund == balance
            }
        }),
{
    let funded = state.deposit(account, amount).unwrap().0;
    lemma_same_length(state, funded, id);
}

/// The changes that a creator makes to a series, a deposit, and the
/// settlement of a creation keep the state valid and only let it advance.
/// After a series was closed it is not open for minting; after its copies
/// were decreased it has the number of copies that is reported, which is
/// not below the number of its tokens.
pub proof fn law_changes(
    state: ContractView,
    caller: Seq<char>,
    attached: u128,
    id: Seq<char>,
    price: Option<u128>,
    ft_token_id: Option<Seq<char>>,
    decrease: u64,
    storage_used: u64,
    mint_first: bool,
)
    requires
        state.valid(),
    ensures
        state.deposit(caller, attached) matches Ok((after, _)) ==> after.valid() && advances(
            state,
            after,
        ),
        state.set_price(id, price, ft_token_id) matches Ok((after, applied)) ==> {
            &&& after.valid()
            &&& advances(state, after)
            &&& after.series_of(id).price == applied
            &&& applied.is_some() == (price.is_some() && ft_token_id.is_some())
            &&& applied.is_some() ==> applied == price && after.series_of(id).ft_token_id
                == ft_token_id
            &&& applied.is_none() ==> after.series_of(id).ft_token_id.is_none()
        },
        state.set_series_price(caller, attached, id, price, ft_token_id) matches Ok(
            (after, applied),
        ) ==> after.valid() && advances(state, after) && after.series_of(id).price == applied,
        state.set_series_non_mintable(caller, attached, id) matches Ok((after, _)) ==> {
            &&& after.valid()
            &&& advances(state, after)
            &&& !after.series_of(id).is_mintable
        },
        state.decrease_series_copies(caller, attached, id, decrease) matches Ok((after, copies))
            ==> {
            &&& after.valid()
            &&& advances(state, after)
            &&& after.series_of(id).metadata.copies == Some(copies)
            &&& copies + decrease == state.series_of(id).metadata.copies.unwrap()
            &&& after.series_of(id).minted() <= copies
            &&& after.series_of(id).minted() == copies ==> !after.series_of(id).is_mintable
        },
        state.settle_series(attached, storage_used, id, mint_first) matches Ok((after, (minted, refund)))
            ==> {
            &&& after.valid()
            &&& advances(state, after)
            &&& minted.is_some() == mint_first
            &&& minted matches Some(m) ==> minted_one(state, after, id, m) && m.owner_id
                == state.series_of(id).creator_id
        },
{
    if let Ok((after, _)) = state.deposit(caller, attached) {
        lemma_balance_only(state, caller, after.accounts[caller]);
    }
    if state.has_series(id) {
        lemma_index(state, id);
        let series = state.series_of(id);
        assert(series.valid(id));
        let priced = series.with_price(price, ft_token_id);
        assert(series_advances(series, priced));
        lemma_replaced(state, id, priced);
        let closed = series.closed();
        assert(series_advances(series, closed));
        lemma_replaced(state, id, closed);
        if let Ok((after, copies)) = state.decrease_series_copies(caller, attached, id, decrease) {
            let fewer = series.with_copies(copies);
            assert(fewer.valid(id));
            assert(series_advances(series, fewer));
            lemma_replaced(state, id, fewer);
        }
        if let Ok((after, (minted, refund))) = state.settle_series(
            attached,
            storage_used,
            id,
            mint_first,
        ) {
            if mint_first {
                let creator = series.creator_id;
                let left = (attached - crate::fees::storage_cost(storage_used)) as u128;
                let funded = state.with_balance(creator, left);
                lemma_balance_only(state, creator, left);
                lemma_same_length(state, funded, id);
                law_mint(funded, creator, left, id, creator);
                lemma_advances_chain(state, funded, after);
            }
        }
    }
    if let Ok((after, (minted, refund))) = state.settle_series(
        attached,
        storage_used,
        id,
        mint_first,
    ) {
        if !mint_first {
            assert(after == state);
            assert forall|i: int| 0 <= i < state.series.len() implies series_advances(
                state.series[i],
                #[trigger] after.series[i],
            ) by {}
        }
    }
}

/// The payout for a token of a series of a valid state is never refused for
/// its shares. Its amounts add up to the settlement amount exactly where
/// the amounts owed to the accounts other than the creator add up to what
/// was taken off for the royalties, and only there; so they do where the
/// creator is not in the royalty table and the roundings of the single
/// shares lose less than one unit together.
pub proof fn law_series_payout(state: ContractView, id: Seq<char>, amount: u128)
    requires
        state.valid(),
        state.has_series(id),
    ensures
        state.series_payout(id, amount) matches Ok(payout) && {
            &&& distinct_accounts(payout)
            &&& sum_amounts(payout) == amount <==> splits_without_loss(
                state.series_of(id).royalty,
                None,
                state.series_of(id).creator_id,
                amount,
            )
            &&& (!has_account(state.series_of(id).royalty, state.series_of(id).creator_id)
                && rounding_loss(state.series_of(id).royalty, amount) < 10_000 ==> sum_amounts(
                payout,
            ) == amount)
        },
{
    lemma_index(state, id);
    let series = state.series_of(id);
    assert(series.valid(id));
    lemma_applied_all(series.royalty);
    lemma_payout_is_exact(series.royalty, None, series.creator_id, amount);
    lemma_payout_amounts(series.royalty, None, series.creator_id, amount, series.creator_id);
    if !has_account(series.royalty, series.creator_id) && rounding_loss(series.royalty, amount)
        < 10_000 {
        lemma_payout_adds_up(series.royalty, None, series.creator_id, amount);
    }
}

/// The payout on a transfer, where there is one: its amounts add up to the
/// settlement amount exactly where the amounts owed to the accounts of the
/// applied shares add up to what was taken off for them, and only there; so
/// they do where the roundings of the single shares lose less than one unit
/// together.
pub proof fn law_transfer_payout(
    state: ContractView,
    attached: u128,
    previous_owner: Seq<char>,
    token_id: Seq<char>,
    amount: u128,
    limit: Option<u32>,
)
    requires
        state.valid(),
    ensures
        state.transfer_payout(attached, previous_owner, token_id, Some(amount), limit) matches Ok(
            Some(payout),
        ) ==> {
            let royalty = state.series_of(crate::text::series_part(token_id)).royalty;
            &&& distinct_accounts(payout)
            &&& sum_amounts(payout) == amount <==> splits_without_loss(
                royalty,
                Some(previous_owner),
                previous_owner,
                amount,
            )
            &&& (rounding_loss(applied(royalty, Some(previous_owner)), amount) < 10_000
                ==> sum_amounts(payout) == amount)
        },
{
    if let Ok(Some(payout)) = state.transfer_payout(
        attached,
        previous_owner,
        token_id,
        Some(amount),
        limit,
    ) {
        let id = crate::text::series_part(token_id);
        lemma_index(state, id);
        let series = state.series_of(id);
        assert(series.valid(id));
        lemma_applied_total(series.royalty, Some(previous_owner));
        lemma_payout_is_exact(series.royalty, Some(previous_owner), previous_owner, amount);
        lemma_payout_amounts(
            series.royalty,
            Some(previous_owner),
            previous_owner,
            amount,
            previous_owner,
        );
        lemma_excluded_receiver(series.royalty, previous_owner);
        if rounding_loss(applied(series.royalty, Some(previous_owner)), amount) < 10_000 {
            lemma_payout_adds_up(series.royalty, Some(previous_owner), previous_owner, amount);
        }
    }
}

} // verus!
