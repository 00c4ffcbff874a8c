use nft_series::contract::{CallContext, Contract};
use nft_series::error::ContractError;
use nft_series::metadata::TokenMetadata;
use nft_series::payout::Payout;
use nft_series::table::AccountMap;

fn titled(title: &str, copies: Option<u64>) -> TokenMetadata {
    TokenMetadata {
        title: Some(title.to_string()),
        description: None,
        media: Some("ipfs://media".to_string()),
        media_hash: None,
        copies,
        issued_at: None,
        expires_at: None,
        starts_at: None,
        updated_at: None,
        extra: Some("{}".to_string()),
        reference: None,
        reference_hash: Some(vec![9; 32]),
    }
}

fn from(caller: &str, attached: u128) -> CallContext {
    CallContext {
        predecessor_account_id: caller.to_string(),
        signer_account_id: caller.to_string(),
        attached_deposit: attached,
    }
}

fn t(text: &str) -> String {
    text.to_string()
}

fn catalogue(n: u64) -> Contract {
    let mut c = Contract::new(t("owner.near"), 0);
    for i in 1..=n {
        c.internal_create_series(t("creator.near"), titled(&format!("Work {}", i), Some(i)), None, None, None)
            .unwrap();
    }
    c
}

fn with_royalty() -> Contract {
    let mut c = Contract::new(t("owner.near"), 0);
    let mut royalty = AccountMap::new();
    royalty.insert(t("a.near"), 500);
    royalty.insert(t("b.near"), 300);
    c.internal_create_series(
        t("creator.near"),
        titled("Work", None),
        Some(100),
        Some(t("usdt.near")),
        Some(royalty),
    )
    .unwrap();
    c
}

fn owed_to(payout: &Payout, account: &str) -> Option<u128> {
    payout.payout.get(&account.to_string())
}

#[test]
fn series_info_tells_what_the_series_holds() {
    let c = with_royalty();
    let info = c.nft_get_series_single(t("1")).unwrap();
    assert_eq!(info.token_series_id, "1");
    assert_eq!(info.creator_id, "creator.near");
    assert_eq!(info.metadata.title.as_deref(), Some("Work"));
    assert_eq!(info.metadata.media.as_deref(), Some("ipfs://media"));
    assert_eq!(info.metadata.extra.as_deref(), Some("{}"));
    assert_eq!(info.metadata.reference_hash, Some(vec![9; 32]));
    assert_eq!(info.metadata.copies, None);
    assert_eq!(info.mint_price, Some(100));
    assert_eq!(info.ft_token_id.as_deref(), Some("usdt.near"));
    assert_eq!(info.royalty.len(), 2);
    assert_eq!(info.royalty.get(&t("a.near")), Some(500));
    assert_eq!(info.royalty.get(&t("b.near")), Some(300));
    assert_eq!(c.nft_get_series_single(t("2")).unwrap_err(), ContractError::SeriesNotFound);
}

#[test]
fn series_format_gives_the_delimiters() {
    let c = catalogue(0);
    assert_eq!(c.nft_get_series_format(), (':', " #", "/"));
}

#[test]
fn series_price_is_told_by_identifier() {
    let c = with_royalty();
    assert_eq!(c.nft_get_series_price(t("1")), Ok(Some(100)));
    assert_eq!(c.nft_get_series_price(t("2")), Err(ContractError::SeriesNotFound));
    let free = catalogue(1);
    assert_eq!(free.nft_get_series_price(t("1")), Ok(None));
}

#[test]
fn series_pages_start_at_an_index_and_stop_at_a_limit() {
    let c = catalogue(5);
    let ids = |from: Option<u128>, limit: Option<u64>| -> Vec<String> {
        c.nft_get_series(from, limit).unwrap().into_iter().map(|i| i.token_series_id).collect()
    };
    assert_eq!(ids(None, None), vec!["1", "2", "3", "4", "5"]);
    assert_eq!(ids(Some(0), Some(2)), vec!["1", "2"]);
    assert_eq!(ids(Some(3), Some(2)), vec!["4", "5"]);
    assert_eq!(ids(Some(3), Some(5)), vec!["4", "5"]);
    assert_eq!(ids(Some(4), None), vec!["5"]);
    assert_eq!(ids(Some(1), Some(u64::MAX)), vec!["2", "3", "4", "5"]);
    let page = c.nft_get_series(Some(2), Some(1)).unwrap();
    assert_eq!(page[0].metadata.title.as_deref(), Some("Work 3"));
    assert_eq!(page[0].metadata.copies, Some(3));
}

#[test]
fn series_pages_are_refused_out_of_bounds_and_for_no_items() {
    let c = catalogue(5);
    assert_eq!(c.nft_get_series(Some(5), None).unwrap_err(), ContractError::OutOfBounds);
    assert_eq!(c.nft_get_series(Some(u128::MAX), Some(1)).unwrap_err(), ContractError::OutOfBounds);
    assert_eq!(c.nft_get_series(Some(5), Some(0)).unwrap_err(), ContractError::OutOfBounds);
    assert_eq!(c.nft_get_series(Some(4), Some(0)).unwrap_err(), ContractError::ZeroLimit);
    assert_eq!(c.nft_get_series(None, Some(0)).unwrap_err(), ContractError::ZeroLimit);
    assert_eq!(catalogue(0).nft_get_series(None, None).unwrap_err(), ContractError::OutOfBounds);
}

#[test]
fn token_pages_list_the_tokens_of_a_series() {
    let mut c = catalogue(4);
    for _ in 0..3 {
        c.nft_mint(&from("creator.near", 1), t("4"), t("creator.near")).unwrap();
    }
    assert_eq!(c.nft_supply_for_series(t("4")), Ok(3));
    assert_eq!(c.nft_supply_for_series(t("5")), Err(ContractError::SeriesNotFound));
    assert_eq!(c.nft_tokens_by_series(t("4"), None, None).unwrap(), vec!["4:1", "4:2", "4:3"]);
    assert_eq!(c.nft_tokens_by_series(t("4"), Some(1), Some(1)).unwrap(), vec!["4:2"]);
    assert_eq!(c.nft_tokens_by_series(t("4"), Some(2), Some(9)).unwrap(), vec!["4:3"]);
    assert_eq!(c.nft_tokens_by_series(t("4"), Some(3), None).unwrap_err(), ContractError::OutOfBounds);
    assert_eq!(c.nft_tokens_by_series(t("4"), Some(0), Some(0)).unwrap_err(), ContractError::ZeroLimit);
    assert_eq!(c.nft_tokens_by_series(t("1"), None, None).unwrap_err(), ContractError::OutOfBounds);
    assert_eq!(c.nft_tokens_by_series(t("9"), None, None).unwrap_err(), ContractError::SeriesNotFound);
}

#[test]
fn token_payout_goes_by_the_series_of_the_token() {
    let c = with_royalty();
    let payout = c.nft_payout(t("1:7"), 1000).unwrap();
    assert_eq!(payout.payout.len(), 3);
    assert_eq!(owed_to(&payout, "a.near"), Some(50));
    assert_eq!(owed_to(&payout, "b.near"), Some(30));
    assert_eq!(owed_to(&payout, "creator.near"), Some(920));
    let payout = c.internal_nft_payout(t("1"), 10).unwrap();
    assert_eq!(owed_to(&payout, "a.near"), Some(0));
    assert_eq!(owed_to(&payout, "b.near"), Some(0));
    assert_eq!(owed_to(&payout, "creator.near"), Some(10));
    assert_eq!(c.nft_payout(t("2:1"), 1000).unwrap_err(), ContractError::SeriesNotFound);
    assert_eq!(c.nft_payout(t(":1"), 1000).unwrap_err(), ContractError::SeriesNotFound);
    assert_eq!(c.internal_nft_payout(t("1:1"), 1000).unwrap_err(), ContractError::SeriesNotFound);
}

#[test]
fn transfer_payout_leaves_out_the_previous_owner() {
    let c = with_royalty();
    let payout = c
        .nft_transfer_payout(&from("market.near", 1), t("a.near"), t("1:1"), Some(1000), Some(2))
        .unwrap()
        .unwrap();
    assert_eq!(payout.payout.len(), 2);
    assert_eq!(owed_to(&payout, "b.near"), Some(30));
    assert_eq!(owed_to(&payout, "a.near"), Some(970));
    let payout = c
        .nft_transfer_payout(&from("market.near", 1), t("holder.near"), t("1:1"), Some(1000), Some(3))
        .unwrap()
        .unwrap();
    assert_eq!(owed_to(&payout, "a.near"), Some(50));
    assert_eq!(owed_to(&payout, "b.near"), Some(30));
    assert_eq!(owed_to(&payout, "holder.near"), Some(920));
    assert_eq!(owed_to(&payout, "creator.near"), None);
}

#[test]
fn transfer_payout_is_refused_in_the_order_of_its_conditions() {
    let c = with_royalty();
    let holder = || t("holder.near");
    assert_eq!(
        c.nft_transfer_payout(&from("market.near", 0), holder(), t("9:1"), None, None).unwrap_err(),
        ContractError::OneYoctoRequired
    );
    assert!(c.nft_transfer_payout(&from("market.near", 1), holder(), t("9:1"), None, None).unwrap().is_none());
    assert_eq!(
        c.nft_transfer_payout(&from("market.near", 1), holder(), t("9:1"), Some(5), None).unwrap_err(),
        ContractError::SeriesNotFound
    );
    assert_eq!(
        c.nft_transfer_payout(&from("market.near", 1), holder(), t("1:1"), Some(5), None).unwrap_err(),
        ContractError::PayoutLimitRequired
    );
    assert_eq!(
        c.nft_transfer_payout(&from("market.near", 1), holder(), t("1:1"), Some(5), Some(2)).unwrap_err(),
        ContractError::TooManyReceivers
    );
}
