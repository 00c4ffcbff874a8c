//! Royalty payouts: how a settlement amount is split between the accounts of
//! a royalty table and the party that receives the rest.

use crate::error::ContractError;
use crate::table::{
    as_map, distinct_accounts, has_account, lemma_position, lemma_push_entry, lemma_update_entry,
    position, with_entry, AccountMap, Entries,
};
use vstd::prelude::*;

verus! {

/// The number of basis points that make up the whole.
pub const BASIS_POINTS: u32 = 10_000;

/// The most that the shares of a royalty table may add up to when a series
/// is created, in basis points.
pub const MAX_ROYALTY: u32 = 9_000;

/// The most accounts that a royalty table may name when a series is created.
pub const MAX_ROYALTY_ACCOUNTS: usize = 10;

/// What each account is owed.
#[derive(Debug)]
pub struct Payout {
    pub payout: AccountMap<u128>,
}

/// The part of `amount` that `share` basis points come to, rounded down.
pub open spec fn share_of(amount: nat, share: nat) -> nat {
    amount * share / 10_000
}

/// The entries of a royalty table that a payout applies: all but the one of
/// the excluded account, if any.
pub open spec fn applied(e: Entries<u32>, excluded: Option<Seq<char>>) -> Entries<u32>
    decreases e.len(),
{
    if e.len() == 0 {
        Seq::empty()
    } else if excluded == Some(e.last().0) {
        applied(e.drop_last(), excluded)
    } else {
        applied(e.drop_last(), excluded).push(e.last())
    }
}

/// The sum of the shares of the entries.
pub open spec fn total_shares(e: Entries<u32>) -> nat
    decreases e.len(),
{
    if e.len() == 0 {
        0
    } else {
        total_shares(e.drop_last()) + e.last().1 as nat
    }
}

/// The amount owed to each account of the entries, out of `amount`.
pub open spec fn amounts(e: Entries<u32>, amount: u128) -> Entries<u128> {
    Seq::new(e.len(), |i: int| (e[i].0, share_of(amount as nat, e[i].1 as nat) as u128))
}

/// The sum of the amounts of the entries.
pub open spec fn sum_amounts(p: Entries<u128>) -> nat
    decreases p.len(),
{
    if p.len() == 0 {
        0
    } else {
        sum_amounts(p.drop_last()) + p.last().1 as nat
    }
}

/// What is left of `amount` for the receiver of the rest, once the applied
/// shares have been taken off together.
pub open spec fn rest_of(e: Entries<u32>, excluded: Option<Seq<char>>, amount: u128) -> nat {
    (amount - share_of(amount as nat, total_shares(applied(e, excluded)))) as nat
}

/// The payout of `amount` under the royalty entries `e`: each applied entry
/// gets its share, and `receiver` is then assigned the rest.
pub open spec fn payout_entries(
    e: Entries<u32>,
    excluded: Option<Seq<char>>,
    receiver: Seq<char>,
    amount: u128,
) -> Entries<u128> {
    with_entry(amounts(applied(e, excluded), amount), receiver, rest_of(e, excluded, amount) as u128)
}

/// The number of accounts that the payout goes to.
pub open spec fn receiver_count(
    e: Entries<u32>,
    excluded: Option<Seq<char>>,
    receiver: Seq<char>,
) -> nat {
    if has_account(applied(e, excluded), receiver) {
        applied(e, excluded).len()
    } else {
        applied(e, excluded).len() + 1
    }
}

/// Why a payout is refused, if it is: it would go to more accounts than the
/// limit allows, or the applied shares add up to more than the whole.
pub open spec fn payout_failure(
    e: Entries<u32>,
    excluded: Option<Seq<char>>,
    receiver: Seq<char>,
    limit: Option<u32>,
) -> Option<ContractError> {
    if limit.is_some() && receiver_count(e, excluded, receiver) > limit.unwrap() {
        Some(ContractError::TooManyReceivers)
    } else if total_shares(applied(e, excluded)) > BASIS_POINTS {
        Some(ContractError::TotalPayoutOverflow)
    } else {
        None
    }
}

/// The text of an optional account name.
pub open spec fn text_of(account: Option<&String>) -> Option<Seq<char>> {
    match account {
        Some(a) => Some(a@),
        None => None,
    }
}

/// The part of `amount` that `share` basis points come to, rounded down.
pub fn royalty_to_payout(share: u32, amount: u128) -> (part: u128)
    requires
        share <= BASIS_POINTS,
    ensures
        part == share_of(amount as nat, share as nat),
        part <= amount,
{
    let whole: u128 = amount / 10_000;
    let rest: u128 = amount % 10_000;
    let s: u128 = share as u128;
    assert(whole * s <= amount && rest * s <= 100_000_000 && (whole * s + rest * s / 10_000)
        == (amount * s) / 10_000 && (amount * s) / 10_000 <= amount) by (nonlinear_arith)
        requires
            whole == amount / 10_000,
            rest == amount % 10_000,
            0 <= s <= 10_000,
            0 <= amount,
    ;
    whole * s + rest * s / 10_000
}

proof fn lemma_applied_step(e: Entries<u32>, excluded: Option<Seq<char>>, i: int)
    requires
        0 <= i < e.len(),
    ensures
        applied(e.take(i + 1), excluded) == if excluded == Some(e[i].0) {
            applied(e.take(i), excluded)
        } else {
            applied(e.take(i), excluded).push(e[i])
        },
{
    let t = e.take(i + 1);
    assert(t.drop_last() =~= e.take(i));
    assert(t.last() == e[i]);
}

proof fn lemma_applied_total_grows(e: Entries<u32>, excluded: Option<Seq<char>>, i: int)
    requires
        0 <= i <= e.len(),
    ensures
        total_shares(applied(e.take(i), excluded)) <= total_shares(applied(e, excluded)),
    decreases e.len() - i,
{
    if i == e.len() {
        assert(e.take(i) =~= e);
    } else {
        lemma_applied_step(e, excluded, i);
        lemma_applied_total_grows(e, excluded, i + 1);
        let a = applied(e.take(i), excluded);
        assert(a.push(e[i]).drop_last() =~= a);
    }
}

proof fn lemma_applied_accounts(e: Entries<u32>, excluded: Option<Seq<char>>, account: Seq<char>)
    requires
        has_account(applied(e, excluded), account),
    ensures
        has_account(e, account),
        excluded != Some(account),
    decreases e.len(),
{
    let a = applied(e, excluded);
    let k = position(a, account);
    if e.len() > 0 {
        let d = e.drop_last();
        let last = (e.len() - 1) as int;
        if excluded != Some(e.last().0) && k == a.len() - 1 {
            assert(e[last].0 == account);
        } else {
            assert(applied(d, excluded)[k].0 == account);
            lemma_applied_accounts(d, excluded, account);
            let j = position(d, account);
            assert(e[j].0 == account);
        }
    }
}

proof fn lemma_applied_distinct(e: Entries<u32>, excluded: Option<Seq<char>>)
    requires
        distinct_accounts(e),
    ensures
        distinct_accounts(applied(e, excluded)),
        applied(e, excluded).len() <= e.len(),
    decreases e.len(),
{
    if e.len() > 0 {
        let d = e.drop_last();
        assert forall|i: int, j: int| 0 <= i < j < d.len() implies (#[trigger] d[i]).0 != (
        #[trigger] d[j]).0 by {
            assert(d[i] == e[i] && d[j] == e[j]);
        }
        lemma_applied_distinct(d, excluded);
        let a = applied(d, excluded);
        if excluded != Some(e.last().0) {
            let f = a.push(e.last());
            assert forall|i: int, j: int| 0 <= i < j < f.len() implies (#[trigger] f[i]).0 != (
            #[trigger] f[j]).0 by {
                if j < a.len() {
                    assert(f[i] == a[i] && f[j] == a[j]);
                } else {
                    assert(f[i] == a[i]);
                    if a[i].0 == e.last().0 {
                        assert(has_account(a, e.last().0));
                        lemma_applied_accounts(d, excluded, e.last().0);
                        let k = position(d, e.last().0);
                        assert(e[k].0 != e[e.len() - 1].0);
                    }
                }
            }
        }
    }
}

proof fn lemma_amounts_accounts(e: Entries<u32>, amount: u128, account: Seq<char>)
    ensures
        has_account(amounts(e, amount), account) == has_account(e, account),
        distinct_accounts(e) ==> distinct_accounts(amounts(e, amount)),
{
    let p = amounts(e, amount);
    if has_account(p, account) {
        let k = position(p, account);
        assert(e[k].0 == account);
    }
    if has_account(e, account) {
        let k = position(e, account);
        assert(p[k].0 == account);
    }
    if distinct_accounts(e) {
        assert forall|i: int, j: int| 0 <= i < j < p.len() implies (#[trigger] p[i]).0 != (
        #[trigger] p[j]).0 by {
            assert(e[i].0 != e[j].0);
        }
    }
}

proof fn lemma_has_account_push<V>(e: Entries<V>, entry: (Seq<char>, V), account: Seq<char>)
    ensures
        has_account(e.push(entry), account) == (has_account(e, account) || entry.0 == account),
{
    let f = e.push(entry);
    if has_account(f, account) {
        let k = position(f, account);
        if k < e.len() {
            assert(e[k].0 == account);
        }
    }
    if has_account(e, account) {
        let k = position(e, account);
        assert(f[k].0 == account);
    }
    if entry.0 == account {
        assert(f[e.len() as int].0 == account);
    }
}

/// Splits `amount` under a royalty table. The entries of the table are
/// applied in order, but for the entry of `excluded`; each applied account is
/// owed its share of `amount`, rounded down, and `receiver` is then assigned
/// what is left once the applied shares are taken off together. The payout is
/// refused if it would go to more accounts than `limit`, or if the applied
/// shares add up to more than 10000 basis points.
pub fn compute_payout(
    royalty: &AccountMap<u32>,
    excluded: Option<&String>,
    receiver: &String,
    amount: u128,
    limit: Option<u32>,
) -> (r: Result<Payout, ContractError>)
    requires
        royalty.wf(),
    ensures
        match r {
            Ok(p) => {
                &&& payout_failure(royalty.entries(), text_of(excluded), receiver@, limit).is_none()
                &&& p.payout.wf()
                &&& p.payout.entries() == payout_entries(
                    royalty.entries(),
                    text_of(excluded),
                    receiver@,
                    amount,
                )
            },
            Err(e) => payout_failure(royalty.entries(), text_of(excluded), receiver@, limit)
                == Some(e),
        },
{
    let ghost e = royalty.entries();
    let ghost x = text_of(excluded);
    let n = royalty.len();
    let mut count: usize = 0;
    let mut total: u128 = 0;
    let mut listed = false;
    let mut i: usize = 0;
    while i < n
        invariant
            royalty.wf(),
            e == royalty.entries(),
            x == text_of(excluded),
            n == e.len(),
            0 <= i <= n,
            count == applied(e.take(i as int), x).len(),
            count <= i,
            total == total_shares(applied(e.take(i as int), x)),
            total <= i * 0x1_0000_0000,
            listed == has_account(applied(e.take(i as int), x), receiver@),
        decreases n - i,
    {
        let account = royalty.account_at(i);
        let skip = match excluded {
            Some(other) => *account == *other,
            None => false,
        };
        proof {
            lemma_applied_step(e, x, i as int);
            let a = applied(e.take(i as int), x);
            assert(a.push(e[i as int]).drop_last() =~= a);
            lemma_has_account_push(a, e[i as int], receiver@);
        }
        if !skip {
            count += 1;
            total += royalty.value_at(i) as u128;
            if *account == *receiver {
                listed = true;
            }
        }
        i += 1;
    }
    proof {
        assert(e.take(n as int) =~= e);
        lemma_applied_distinct(e, x);
    }
    match limit {
        Some(most) => {
            let fits = if listed {
                count <= most as usize
            } else {
                count < most as usize
            };
            if !fits {
                return Err(ContractError::TooManyReceivers);
            }
        },
        None => {},
    }
    if total > BASIS_POINTS as u128 {
        return Err(ContractError::TotalPayoutOverflow);
    }
    let mut payout: AccountMap<u128> = AccountMap::new();
    let mut j: usize = 0;
    assert(amounts(applied(e.take(0), x), amount) =~= Entries::<u128>::empty());
    while j < n
        invariant
            royalty.wf(),
            e == royalty.entries(),
            x == text_of(excluded),
            n == e.len(),
            0 <= j <= n,
            total_shares(applied(e, x)) <= BASIS_POINTS,
            payout.wf(),
            payout.entries() == amounts(applied(e.take(j as int), x), amount),
        decreases n - j,
    {
        let account = royalty.account_at(j);
        let skip = match excluded {
            Some(other) => *account == *other,
            None => false,
        };
        proof {
            lemma_applied_step(e, x, j as int);
        }
        if !skip {
            let share = royalty.value_at(j);
            proof {
                let a = applied(e.take(j as int), x);
                assert(a.push(e[j as int]).drop_last() =~= a);
                lemma_applied_total_grows(e, x, j + 1);
                lemma_amounts_accounts(a, amount, account@);
                if has_account(a, account@) {
                    lemma_applied_accounts(e.take(j as int), x, account@);
                    let k = position(e.take(j as int), account@);
                    assert(e[k].0 != e[j as int].0);
                }
                assert(amounts(a.push(e[j as int]), amount) =~= amounts(a, amount).push(
                    (account@, share_of(amount as nat, share as nat) as u128),
                ));
            }
            let part = royalty_to_payout(share, amount);
            payout.insert(account.clone(), part);
        }
        j += 1;
    }
    proof {
        assert(e.take(n as int) =~= e);
    }
    let taken = royalty_to_payout(total as u32, amount);
    payout.insert(receiver.clone(), amount - taken);
    Ok(Payout { payout })
}

/// The sum of the amounts owed to the accounts other than `receiver`.
pub open spec fn paid_to_others(p: Entries<u128>, receiver: Seq<char>) -> nat
    decreases p.len(),
{
    if p.len() == 0 {
        0
    } else if p.last().0 == receiver {
        paid_to_others(p.drop_last(), receiver)
    } else {
        paid_to_others(p.drop_last(), receiver) + p.last().1 as nat
    }
}

/// What the roundings of the single shares lose: the sum, over the entries,
/// of the remainder that `amount` times the share leaves on division by 10000.
pub open spec fn rounding_loss(e: Entries<u32>, amount: u128) -> nat
    decreases e.len(),
{
    if e.len() == 0 {
        0
    } else {
        rounding_loss(e.drop_last(), amount) + (amount as nat * e.last().1 as nat) % 10_000
    }
}

/// The amounts owed to the accounts other than the receiver add up to what
/// is taken off the settlement amount before the receiver gets the rest.
pub open spec fn splits_without_loss(
    e: Entries<u32>,
    excluded: Option<Seq<char>>,
    receiver: Seq<char>,
    amount: u128,
) -> bool {
    paid_to_others(amounts(applied(e, excluded), amount), receiver) == share_of(
        amount as nat,
        total_shares(applied(e, excluded)),
    )
}

proof fn lemma_drop_last_distinct<V>(p: Entries<V>)
    requires
        distinct_accounts(p),
        p.len() > 0,
    ensures
        distinct_accounts(p.drop_last()),
        !has_account(p.drop_last(), p.last().0),
{
    let d = p.drop_last();
    assert forall|i: int, j: int| 0 <= i < j < d.len() implies (#[trigger] d[i]).0 != (
    #[trigger] d[j]).0 by {
        assert(d[i] == p[i] && d[j] == p[j]);
    }
    if has_account(d, p.last().0) {
        let k = position(d, p.last().0);
        assert(p[k].0 != p[p.len() - 1].0);
    }
}

proof fn lemma_sum_update(p: Entries<u128>, k: int, entry: (Seq<char>, u128))
    requires
        0 <= k < p.len(),
    ensures
        sum_amounts(p.update(k, entry)) + p[k].1 == sum_amounts(p) + entry.1,
    decreases p.len(),
{
    let q = p.update(k, entry);
    if k == p.len() - 1 {
        assert(q.drop_last() =~= p.drop_last());
    } else {
        assert(q.drop_last() =~= p.drop_last().update(k, entry));
        lemma_sum_update(p.drop_last(), k, entry);
    }
}

proof fn lemma_paid_to_others(p: Entries<u128>, receiver: Seq<char>)
    requires
        distinct_accounts(p),
    ensures
        !has_account(p, receiver) ==> paid_to_others(p, receiver) == sum_amounts(p),
        has_account(p, receiver) ==> paid_to_others(p, receiver) + p[position(p, receiver)].1
            == sum_amounts(p),
    decreases p.len(),
{
    if p.len() > 0 {
        let d = p.drop_last();
        let last = p.len() - 1;
        lemma_drop_last_distinct(p);
        lemma_paid_to_others(d, receiver);
        assert(p =~= d.push(p.last()));
        lemma_has_account_push(d, p.last(), receiver);
        if p.last().0 == receiver {
            lemma_position(p, last);
        } else if has_account(d, receiver) {
            let k = position(d, receiver);
            assert(p[k] == d[k]);
            lemma_position(p, k);
        }
    }
}

/// The sum of a payout: what the accounts other than the receiver are owed,
/// and the rest that the receiver is assigned.
pub proof fn lemma_payout_sum(
    e: Entries<u32>,
    excluded: Option<Seq<char>>,
    receiver: Seq<char>,
    amount: u128,
)
    requires
        distinct_accounts(e),
    ensures
        sum_amounts(payout_entries(e, excluded, receiver, amount)) == paid_to_others(
            amounts(applied(e, excluded), amount),
            receiver,
        ) + rest_of(e, excluded, amount) as u128,
{
    let a = applied(e, excluded);
    let p = amounts(a, amount);
    let rest = rest_of(e, excluded, amount) as u128;
    lemma_applied_distinct(e, excluded);
    lemma_amounts_accounts(a, amount, receiver);
    lemma_paid_to_others(p, receiver);
    if has_account(p, receiver) {
        lemma_sum_update(p, position(p, receiver), (receiver, rest));
    } else {
        assert(p.push((receiver, rest)).drop_last() =~= p);
    }
}

/// The amounts of a payout add up to the settlement amount exactly where the
/// amounts owed to the other accounts add up to what was taken off for them,
/// and only there.
pub proof fn lemma_payout_is_exact(
    e: Entries<u32>,
    excluded: Option<Seq<char>>,
    receiver: Seq<char>,
    amount: u128,
)
    requires
        distinct_accounts(e),
        total_shares(applied(e, excluded)) <= BASIS_POINTS,
    ensures
        sum_amounts(payout_entries(e, excluded, receiver, amount)) == amount
            <==> splits_without_loss(e, excluded, receiver, amount),
{
    lemma_payout_sum(e, excluded, receiver, amount);
    let t = total_shares(applied(e, excluded));
    assert(share_of(amount as nat, t) <= amount) by (nonlinear_arith)
        requires
            t <= 10_000,
    ;
}

/// What is taken off together is what the single shares come to, rounded
/// down one by one, and the whole units that those roundings lose.
pub proof fn lemma_rounding(a: Entries<u32>, amount: u128)
    requires
        total_shares(a) <= BASIS_POINTS,
    ensures
        share_of(amount as nat, total_shares(a)) == sum_amounts(amounts(a, amount)) + rounding_loss(
            a,
            amount,
        ) / 10_000,
        amount as nat * total_shares(a) == 10_000 * sum_amounts(amounts(a, amount))
            + rounding_loss(a, amount),
    decreases a.len(),
{
    if a.len() == 0 {
        assert(amounts(a, amount) =~= Entries::<u128>::empty());
    } else {
        let d = a.drop_last();
        lemma_rounding(d, amount);
        assert(amounts(a, amount).drop_last() =~= amounts(d, amount));
        let s = a.last().1 as nat;
        let m = amount as nat;
        let part = share_of(m, s);
        assert(part <= m && m * s == 10_000 * part + (m * s) % 10_000) by (nonlinear_arith)
            requires
                part == m * s / 10_000,
                s <= 10_000,
        ;
        assert(amounts(a, amount).last().1 == part);
        let td = total_shares(d);
        assert(m * (td + s) == m * td + m * s) by (nonlinear_arith);
    }
    let q = sum_amounts(amounts(a, amount));
    let l = rounding_loss(a, amount);
    let product = amount as nat * total_shares(a);
    assert(product / 10_000 == q + l / 10_000) by (nonlinear_arith)
        requires
            product == 10_000 * q + l,
    ;
}

/// When the receiver of the rest has no applied entry of its own and the
/// roundings of the single shares lose less than one unit together, the
/// amounts of the payout add up to the settlement amount.
pub proof fn lemma_payout_adds_up(
    e: Entries<u32>,
    excluded: Option<Seq<char>>,
    receiver: Seq<char>,
    amount: u128,
)
    requires
        distinct_accounts(e),
        total_shares(applied(e, excluded)) <= BASIS_POINTS,
        !has_account(applied(e, excluded), receiver),
        rounding_loss(applied(e, excluded), amount) < 10_000,
    ensures
        sum_amounts(payout_entries(e, excluded, receiver, amount)) == amount,
{
    let a = applied(e, excluded);
    lemma_applied_distinct(e, excluded);
    lemma_amounts_accounts(a, amount, receiver);
    lemma_paid_to_others(amounts(a, amount), receiver);
    lemma_rounding(a, amount);
    lemma_payout_is_exact(e, excluded, receiver, amount);
}

/// In a payout that leaves out the entry of the receiver of the rest, the
/// receiver has no applied entry.
pub proof fn lemma_excluded_receiver(e: Entries<u32>, receiver: Seq<char>)
    ensures
        !has_account(applied(e, Some(receiver)), receiver),
{
    if has_account(applied(e, Some(receiver)), receiver) {
        lemma_applied_accounts(e, Some(receiver), receiver);
    }
}

/// The payout never comes to more than the settlement amount, and what it
/// falls short by is less than the number of applied entries.
pub proof fn lemma_payout_bounds(
    e: Entries<u32>,
    excluded: Option<Seq<char>>,
    receiver: Seq<char>,
    amount: u128,
)
    requires
        distinct_accounts(e),
        total_shares(applied(e, excluded)) <= BASIS_POINTS,
        !has_account(applied(e, excluded), receiver),
    ensures
        sum_amounts(payout_entries(e, excluded, receiver, amount)) <= amount,
        amount - sum_amounts(payout_entries(e, excluded, receiver, amount)) <= applied(
            e,
            excluded,
        ).len(),
        amount - sum_amounts(payout_entries(e, excluded, receiver, amount)) == rounding_loss(
            applied(e, excluded),
            amount,
        ) / 10_000,
{
    let a = applied(e, excluded);
    lemma_applied_distinct(e, excluded);
    lemma_amounts_accounts(a, amount, receiver);
    lemma_paid_to_others(amounts(a, amount), receiver);
    lemma_rounding(a, amount);
    lemma_payout_sum(e, excluded, receiver, amount);
    lemma_rounding_loss_bound(a, amount);
    let t = total_shares(a);
    assert(share_of(amount as nat, t) <= amount) by (nonlinear_arith)
        requires
            t <= 10_000,
    ;
}

proof fn lemma_rounding_loss_bound(a: Entries<u32>, amount: u128)
    ensures
        rounding_loss(a, amount) <= 9_999 * a.len(),
        rounding_loss(a, amount) / 10_000 <= a.len(),
    decreases a.len(),
{
    if a.len() > 0 {
        lemma_rounding_loss_bound(a.drop_last(), amount);
    }
}

proof fn lemma_applied_entry(e: Entries<u32>, excluded: Option<Seq<char>>, account: Seq<char>)
    requires
        distinct_accounts(e),
        has_account(e, account),
        excluded != Some(account),
    ensures
        has_account(applied(e, excluded), account),
        as_map(applied(e, excluded))[account] == as_map(e)[account],
    decreases e.len(),
{
    let a = applied(e, excluded);
    let d = e.drop_last();
    let last = e.len() - 1;
    lemma_applied_distinct(e, excluded);
    lemma_drop_last_distinct(e);
    lemma_applied_distinct(d, excluded);
    let k = position(e, account);
    lemma_position(e, k);
    if k == last {
        assert(a[a.len() - 1] == e[last]);
        lemma_position(a, a.len() - 1);
    } else {
        assert(d[k] == e[k]);
        lemma_applied_entry(d, excluded, account);
        lemma_position(d, k);
        let j = position(applied(d, excluded), account);
        lemma_position(applied(d, excluded), j);
        assert(a[j] == applied(d, excluded)[j]);
        lemma_position(a, j);
    }
}

/// Who is owed what in a payout. The accounts are the receiver of the rest
/// and those of the royalty table, but for the excluded one; the receiver is
/// owed the rest, and each other account its share of the settlement amount,
/// rounded down.
pub proof fn lemma_payout_amounts(
    e: Entries<u32>,
    excluded: Option<Seq<char>>,
    receiver: Seq<char>,
    amount: u128,
    account: Seq<char>,
)
    requires
        distinct_accounts(e),
    ensures
        distinct_accounts(payout_entries(e, excluded, receiver, amount)),
        as_map(payout_entries(e, excluded, receiver, amount)).contains_key(account) <==> (account
            == receiver || (as_map(e).contains_key(account) && excluded != Some(account))),
        account == receiver ==> as_map(payout_entries(e, excluded, receiver, amount))[account]
            == rest_of(e, excluded, amount) as u128,
        account != receiver && as_map(e).contains_key(account) && excluded != Some(account)
            ==> as_map(payout_entries(e, excluded, receiver, amount))[account] == share_of(
            amount as nat,
            as_map(e)[account] as nat,
        ) as u128,
{
    let a = applied(e, excluded);
    let p = amounts(a, amount);
    let rest = rest_of(e, excluded, amount) as u128;
    lemma_applied_distinct(e, excluded);
    lemma_amounts_accounts(a, amount, receiver);
    lemma_amounts_accounts(a, amount, account);
    if has_account(p, receiver) {
        let k = position(p, receiver);
        lemma_position(p, k);
        lemma_update_entry(p, k, rest);
    } else {
        lemma_push_entry(p, receiver, rest);
    }
    if has_account(a, account) {
        lemma_applied_accounts(e, excluded, account);
    }
    if has_account(e, account) && excluded != Some(account) {
        lemma_applied_entry(e, excluded, account);
        let j = position(a, account);
        lemma_position(a, j);
        assert(p[j].0 == account);
        lemma_position(p, j);
    }
}

/// Where no account is excluded, every entry of the table is applied.
pub proof fn lemma_applied_all(e: Entries<u32>)
    ensures
        applied(e, None) == e,
    decreases e.len(),
{
    if e.len() > 0 {
        lemma_applied_all(e.drop_last());
        assert(e.drop_last().push(e.last()) =~= e);
    } else {
        assert(e =~= Seq::empty());
    }
}

/// The applied shares add up to no more than all the shares of the table.
pub proof fn lemma_applied_total(e: Entries<u32>, excluded: Option<Seq<char>>)
    ensures
        total_shares(applied(e, excluded)) <= total_shares(e),
    decreases e.len(),
{
    if e.len() > 0 {
        lemma_applied_total(e.drop_last(), excluded);
        let a = applied(e.drop_last(), excluded);
        assert(a.push(e.last()).drop_last() =~= a);
    }
}

} // verus!
