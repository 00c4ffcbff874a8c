use nft_series::contract::{CallContext, Contract};
use nft_series::error::ContractError;
use nft_series::metadata::TokenMetadata;
use nft_series::table::AccountMap;

fn metadata(title: Option<&str>, copies: Option<u64>) -> TokenMetadata {
    TokenMetadata {
        title: title.map(|t| t.to_string()),
        description: None,
        media: None,
        media_hash: None,
        copies,
        issued_at: None,
        expires_at: None,
        starts_at: None,
        updated_at: None,
        extra: None,
        reference: None,
        reference_hash: None,
    }
}

fn call(caller: &str, attached: u128) -> CallContext {
    CallContext {
        predecessor_account_id: caller.to_string(),
        signer_account_id: caller.to_string(),
        attached_deposit: attached,
    }
}

fn royalty(entries: &[(&str, u32)]) -> AccountMap<u32> {
    let mut t = AccountMap::new();
    for (account, share) in entries {
        t.insert(account.to_string(), *share);
    }
    t
}

fn contract() -> Contract {
    Contract::new("owner.near".to_string(), 0)
}

fn with_series(copies: Option<u64>) -> Contract {
    let mut c = contract();
    let id = c
        .internal_create_series("creator.near".to_string(), metadata(Some("Work"), copies), None, None, None)
        .unwrap();
    assert_eq!(id, "1");
    c
}

#[test]
fn new_contract_is_empty() {
    let c = Contract::new("owner.near".to_string(), 7);
    assert_eq!(c.get_owner(), "owner.near");
    assert_eq!(c.series_count(), 0);
    assert_eq!(c.balance(&"owner.near".to_string()), None);
    assert_eq!(c.get_storage_fee(), 70_000_000_000_000_000_000);
    assert_eq!(c.find_series(&"1".to_string()), None);
}

#[test]
fn series_get_the_next_identifier() {
    let mut c = contract();
    for n in 1..=12u64 {
        let id = c
            .internal_create_series("creator.near".to_string(), metadata(Some("Work"), None), None, None, None)
            .unwrap();
        assert_eq!(id, n.to_string());
        assert_eq!(c.series_count() as u64, n);
        assert_eq!(c.find_series(&id), Some((n - 1) as usize));
    }
    assert_eq!(c.find_series(&"0".to_string()), None);
    assert_eq!(c.find_series(&"13".to_string()), None);
    assert_eq!(c.find_series(&"01".to_string()), None);
    assert_eq!(c.find_series(&"one".to_string()), None);
}

#[test]
fn creation_takes_a_title_and_a_royalty_within_the_bounds() {
    let mut c = contract();
    let table = royalty(&[("a.near", 4000), ("b.near", 5000)]);
    let id = c
        .internal_create_series(
            "creator.near".to_string(),
            metadata(Some("Work"), Some(5)),
            Some(100),
            Some("usdt.near".to_string()),
            Some(table),
        )
        .unwrap();
    assert_eq!(id, "1");
    let series = c.series_at(0);
    assert_eq!(series.creator_id(), "creator.near");
    assert_eq!(series.metadata().title.as_deref(), Some("Work"));
    assert_eq!(series.copies(), Some(5));
    assert_eq!(series.minted(), 0);
    assert!(series.is_mintable());
    assert_eq!(series.price(), Some(100));
    assert_eq!(series.ft_token_id().as_deref(), Some("usdt.near"));
    assert_eq!(series.royalty().len(), 2);
    assert_eq!(series.royalty().get(&"a.near".to_string()), Some(4000));
    assert_eq!(series.royalty().get(&"b.near".to_string()), Some(5000));
}

#[test]
fn creation_takes_ten_royalty_accounts() {
    let mut c = contract();
    let names: Vec<String> = (0..10).map(|i| format!("a{}.near", i)).collect();
    let mut table = AccountMap::new();
    for name in &names {
        table.insert(name.clone(), 900);
    }
    assert!(c
        .internal_create_series("creator.near".to_string(), metadata(Some("Work"), None), None, None, Some(table))
        .is_ok());
    assert_eq!(c.series_count(), 1);
}

#[test]
fn creation_without_title_is_refused() {
    let mut c = contract();
    let r = c.internal_create_series("creator.near".to_string(), metadata(None, Some(1)), None, None, None);
    assert_eq!(r.unwrap_err(), ContractError::TitleRequired);
    assert_eq!(c.series_count(), 0);
    let r = c.internal_create_series("creator.near".to_string(), metadata(Some(""), Some(1)), None, None, None);
    assert_eq!(r.unwrap_err(), ContractError::TitleRequired);
    assert_eq!(c.series_count(), 0);
    let r = c.nft_create_series(&call("creator.near", 0), None, metadata(None, Some(1)), None, None, None);
    assert_eq!(r.unwrap_err(), ContractError::TitleRequired);
    assert_eq!(c.series_count(), 0);
    assert!(c
        .internal_create_series("creator.near".to_string(), metadata(Some(" "), Some(1)), None, None, None)
        .is_ok());
}

#[test]
fn title_comes_before_royalty_in_what_is_refused() {
    let mut c = contract();
    let r = c.internal_create_series(
        "creator.near".to_string(),
        metadata(None, None),
        None,
        None,
        Some(royalty(&[("a.near", 9001)])),
    );
    assert_eq!(r.unwrap_err(), ContractError::TitleRequired);
    let mut table = AccountMap::new();
    for i in 0..11 {
        table.insert(format!("a{}.near", i), 9000);
    }
    let r = c.internal_create_series(
        "creator.near".to_string(),
        metadata(Some("Work"), None),
        None,
        None,
        Some(table),
    );
    assert_eq!(r.unwrap_err(), ContractError::TooManyRoyaltyAccounts);
    assert_eq!(c.series_count(), 0);
}

#[test]
fn creation_with_eleven_royalty_accounts_is_refused() {
    let mut c = contract();
    let mut table = AccountMap::new();
    for i in 0..11 {
        table.insert(format!("a{}.near", i), 1);
    }
    let r = c.internal_create_series(
        "creator.near".to_string(),
        metadata(Some("Work"), None),
        None,
        None,
        Some(table),
    );
    assert_eq!(r.unwrap_err(), ContractError::TooManyRoyaltyAccounts);
    assert_eq!(c.series_count(), 0);
    assert_eq!(c.find_series(&"1".to_string()), None);
}

#[test]
fn creation_with_royalty_above_ninety_percent_is_refused() {
    let mut c = contract();
    let r = c.internal_create_series(
        "creator.near".to_string(),
        metadata(Some("Work"), None),
        None,
        None,
        Some(royalty(&[("a.near", 4000), ("b.near", 5001)])),
    );
    assert_eq!(r.unwrap_err(), ContractError::RoyaltyTooHigh);
    assert_eq!(c.series_count(), 0);
    let r = c.internal_create_series(
        "creator.near".to_string(),
        metadata(Some("Work"), None),
        None,
        None,
        Some(royalty(&[("a.near", u32::MAX), ("b.near", u32::MAX)])),
    );
    assert_eq!(r.unwrap_err(), ContractError::RoyaltyTooHigh);
    assert_eq!(c.series_count(), 0);
}

#[test]
fn creation_keeps_price_and_token_only_as_a_pair() {
    let mut c = contract();
    c.internal_create_series("creator.near".to_string(), metadata(Some("A"), None), Some(5), None, None)
        .unwrap();
    c.internal_create_series(
        "creator.near".to_string(),
        metadata(Some("B"), None),
        None,
        Some("usdt.near".to_string()),
        None,
    )
    .unwrap();
    for i in 0..2 {
        assert_eq!(c.series_at(i).price(), None);
        assert_eq!(*c.series_at(i).ft_token_id(), None);
    }
}

#[test]
fn nft_create_series_names_the_caller_as_creator() {
    let mut c = contract();
    let created = c
        .nft_create_series(&call("alice.near", 0), None, metadata(Some("Work"), Some(3)), None, None, None)
        .unwrap();
    assert_eq!(created.token_series_id, "1");
    assert!(!created.mint_first);
    assert_eq!(c.series_at(0).creator_id(), "alice.near");
}

#[test]
fn nft_create_series_takes_the_signer_as_named_creator() {
    let mut c = contract();
    let ctx = CallContext {
        predecessor_account_id: "market.near".to_string(),
        signer_account_id: "alice.near".to_string(),
        attached_deposit: 0,
    };
    let r = c.nft_create_series(
        &ctx,
        Some("bob.near".to_string()),
        metadata(Some("Work"), None),
        None,
        None,
        None,
    );
    assert_eq!(r.unwrap_err(), ContractError::SignerIsNotCreator);
    assert_eq!(c.series_count(), 0);
    let created = c
        .nft_create_series(&ctx, Some("alice.near".to_string()), metadata(Some("Work"), None), None, None, None)
        .unwrap();
    assert_eq!(created.token_series_id, "1");
    assert_eq!(c.series_at(0).creator_id(), "alice.near");
}

#[test]
fn nft_create_series_mints_first_only_for_one_copy_without_price() {
    let mut c = contract();
    let ctx = call("alice.near", 0);
    let usdt = || Some("usdt.near".to_string());
    assert!(c.nft_create_series(&ctx, None, metadata(Some("A"), Some(1)), None, None, None).unwrap().mint_first);
    assert!(c.nft_create_series(&ctx, None, metadata(Some("B"), Some(1)), None, usdt(), None).unwrap().mint_first);
    assert!(!c.nft_create_series(&ctx, None, metadata(Some("C"), Some(1)), Some(5), usdt(), None).unwrap().mint_first);
    assert!(!c.nft_create_series(&ctx, None, metadata(Some("D"), Some(1)), Some(5), None, None).unwrap().mint_first);
    assert!(!c.nft_create_series(&ctx, None, metadata(Some("E"), Some(2)), None, None, None).unwrap().mint_first);
    assert!(!c.nft_create_series(&ctx, None, metadata(Some("F"), None), None, None, None).unwrap().mint_first);
}

#[test]
fn settlement_without_mint_reports_what_is_left_of_the_deposit() {
    let mut c = contract();
    let ctx = call("alice.near", 50_000_000_000_000_000_007);
    let created = c.nft_create_series(&ctx, None, metadata(Some("A"), Some(2)), None, None, None).unwrap();
    let settled = c.nft_settle_series(&ctx, &created, 5).unwrap();
    assert!(settled.minted.is_none());
    assert_eq!(settled.refund, 7);
    assert_eq!(c.balance(&"alice.near".to_string()), None);
    assert_eq!(c.series_at(0).minted(), 0);
}

#[test]
fn settlement_is_refused_when_the_deposit_is_below_the_storage_cost() {
    let mut c = contract();
    let ctx = call("alice.near", 49_999_999_999_999_999_999);
    let created = c.nft_create_series(&ctx, None, metadata(Some("A"), Some(1)), None, None, None).unwrap();
    assert_eq!(c.nft_settle_series(&ctx, &created, 5).unwrap_err(), ContractError::DepositBelowStorageCost);
    assert_eq!(c.series_at(0).minted(), 0);
    assert!(c.series_at(0).is_mintable());
}

#[test]
fn settlement_with_mint_needs_more_than_the_fee_of_the_token() {
    let mut c = Contract::new("owner.near".to_string(), 2);
    let ctx = call("alice.near", 70_000_000_000_000_000_000);
    let created = c.nft_create_series(&ctx, None, metadata(Some("A"), Some(1)), None, None, None).unwrap();
    assert_eq!(c.nft_settle_series(&ctx, &created, 5).unwrap_err(), ContractError::NotEnoughDeposit);
    assert_eq!(c.balance(&"alice.near".to_string()), None);
    assert_eq!(c.series_at(0).minted(), 0);
    let settled = c.nft_settle_series(&call("alice.near", 70_000_000_000_000_000_001), &created, 5).unwrap();
    assert_eq!(settled.refund, 1);
    assert_eq!(settled.minted.unwrap().token_id, "1:1");
    assert_eq!(c.balance(&"alice.near".to_string()), Some(0));
}

#[test]
fn set_price_sets_both_or_clears_both() {
    let mut c = with_series(None);
    let id = || "1".to_string();
    assert_eq!(c.internal_set_price(id(), Some(100), Some("usdt.near".to_string())), Ok(Some(100)));
    assert_eq!(c.series_at(0).price(), Some(100));
    assert_eq!(c.series_at(0).ft_token_id().as_deref(), Some("usdt.near"));
    assert_eq!(c.internal_set_price(id(), Some(200), None), Ok(None));
    assert_eq!(c.series_at(0).price(), None);
    assert_eq!(*c.series_at(0).ft_token_id(), None);
    assert_eq!(c.internal_set_price(id(), Some(100), Some("usdt.near".to_string())), Ok(Some(100)));
    assert_eq!(c.internal_set_price(id(), None, Some("usdt.near".to_string())), Ok(None));
    assert_eq!(c.series_at(0).price(), None);
    assert_eq!(*c.series_at(0).ft_token_id(), None);
    assert_eq!(c.internal_set_price("2".to_string(), Some(1), None), Err(ContractError::SeriesNotFound));
}

#[test]
fn series_price_is_for_the_creator_to_set() {
    let mut c = with_series(Some(2));
    let id = || "1".to_string();
    let usdt = || Some("usdt.near".to_string());
    assert_eq!(
        c.nft_set_series_price(&call("creator.near", 0), id(), Some(5), usdt()),
        Err(ContractError::OneYoctoRequired)
    );
    assert_eq!(
        c.nft_set_series_price(&call("creator.near", 2), id(), Some(5), usdt()),
        Err(ContractError::OneYoctoRequired)
    );
    assert_eq!(
        c.nft_set_series_price(&call("creator.near", 1), "9".to_string(), Some(5), usdt()),
        Err(ContractError::SeriesNotFound)
    );
    assert_eq!(
        c.nft_set_series_price(&call("other.near", 1), id(), Some(5), usdt()),
        Err(ContractError::CreatorOnly)
    );
    assert_eq!(c.series_at(0).price(), None);
    assert_eq!(c.nft_set_series_price(&call("creator.near", 1), id(), Some(5), usdt()), Ok(Some(5)));
    assert_eq!(c.series_at(0).price(), Some(5));
    c.nft_set_series_non_mintable(&call("creator.near", 1), id()).unwrap();
    assert_eq!(
        c.nft_set_series_price(&call("creator.near", 1), id(), Some(6), usdt()),
        Err(ContractError::NotMintable)
    );
    assert_eq!(c.series_at(0).price(), Some(5));
}

#[test]
fn a_series_with_copies_can_be_closed_once() {
    let mut c = with_series(Some(2));
    let id = || "1".to_string();
    assert_eq!(
        c.nft_set_series_non_mintable(&call("creator.near", 0), id()),
        Err(ContractError::OneYoctoRequired)
    );
    assert_eq!(
        c.nft_set_series_non_mintable(&call("creator.near", 1), "2".to_string()),
        Err(ContractError::SeriesNotFound)
    );
    assert_eq!(
        c.nft_set_series_non_mintable(&call("other.near", 1), id()),
        Err(ContractError::CreatorOnly)
    );
    assert!(c.series_at(0).is_mintable());
    assert_eq!(c.nft_set_series_non_mintable(&call("creator.near", 1), id()), Ok(()));
    assert!(!c.series_at(0).is_mintable());
    assert_eq!(
        c.nft_set_series_non_mintable(&call("creator.near", 1), id()),
        Err(ContractError::AlreadyNonMintable)
    );
    assert!(!c.series_at(0).is_mintable());
}

#[test]
fn a_series_without_copies_cannot_be_closed() {
    let mut c = with_series(None);
    assert_eq!(
        c.nft_set_series_non_mintable(&call("creator.near", 1), "1".to_string()),
        Err(ContractError::UnboundedSupply)
    );
    assert!(c.series_at(0).is_mintable());
}

#[test]
fn copies_decrease_down_to_the_minted_tokens() {
    let mut c = with_series(Some(10));
    let id = || "1".to_string();
    let creator = call("creator.near", 1);
    c.storage_deposit(&call("creator.near", 5)).unwrap();
    c.internal_nft_mint_series("creator.near".to_string(), id(), "creator.near".to_string()).unwrap();
    c.storage_deposit(&call("creator.near", 5)).unwrap();
    c.internal_nft_mint_series("creator.near".to_string(), id(), "creator.near".to_string()).unwrap();
    assert_eq!(c.nft_decrease_series_copies(&creator, id(), 3), Ok(7));
    assert_eq!(c.series_at(0).copies(), Some(7));
    assert!(c.series_at(0).is_mintable());
    assert_eq!(c.nft_decrease_series_copies(&creator, id(), 0), Ok(7));
    assert_eq!(c.nft_decrease_series_copies(&creator, id(), 6), Err(ContractError::CannotDecreaseSupply));
    assert_eq!(c.nft_decrease_series_copies(&creator, id(), 8), Err(ContractError::CannotDecreaseSupply));
    assert_eq!(
        c.nft_decrease_series_copies(&creator, id(), u64::MAX),
        Err(ContractError::CannotDecreaseSupply)
    );
    assert_eq!(c.series_at(0).copies(), Some(7));
    assert!(c.series_at(0).is_mintable());
    assert_eq!(c.nft_decrease_series_copies(&creator, id(), 5), Ok(2));
    assert_eq!(c.series_at(0).copies(), Some(2));
    assert!(!c.series_at(0).is_mintable());
    assert_eq!(c.nft_decrease_series_copies(&creator, id(), 0), Ok(2));
    assert!(!c.series_at(0).is_mintable());
}

#[test]
fn copies_are_for_the_creator_to_decrease() {
    let mut c = with_series(Some(10));
    let id = || "1".to_string();
    assert_eq!(
        c.nft_decrease_series_copies(&call("creator.near", 0), id(), 1),
        Err(ContractError::OneYoctoRequired)
    );
    assert_eq!(
        c.nft_decrease_series_copies(&call("creator.near", 1), "7".to_string(), 1),
        Err(ContractError::SeriesNotFound)
    );
    assert_eq!(
        c.nft_decrease_series_copies(&call("other.near", 1), id(), 1),
        Err(ContractError::CreatorOnly)
    );
    assert_eq!(c.series_at(0).copies(), Some(10));
    let mut unbounded = with_series(None);
    assert_eq!(
        unbounded.nft_decrease_series_copies(&call("creator.near", 1), id(), 1),
        Err(ContractError::UnboundedSupply)
    );
}

#[test]
fn migration_is_for_the_owner() {
    let c = with_series(Some(1));
    let c = match Contract::migrate(c, &call("other.near", 0)) {
        Err(e) => {
            assert_eq!(e, ContractError::OwnerOnly);
            with_series(Some(1))
        }
        Ok(_) => panic!("migrated for a stranger"),
    };
    let c = Contract::migrate(c, &call("owner.near", 0)).unwrap();
    assert_eq!(c.get_owner(), "owner.near");
    assert_eq!(c.series_count(), 1);
    assert_eq!(c.series_at(0).copies(), Some(1));
}

#[test]
fn burning_is_for_the_owner_of_the_token() {
    let c = contract();
    let alice = "alice.near".to_string();
    assert_eq!(c.nft_burn(&call("alice.near", 1), &alice), Ok(()));
    assert_eq!(c.nft_burn(&call("alice.near", 0), &alice), Err(ContractError::OneYoctoRequired));
    assert_eq!(c.nft_burn(&call("bob.near", 2), &alice), Err(ContractError::OneYoctoRequired));
    assert_eq!(c.nft_burn(&call("bob.near", 1), &alice), Err(ContractError::TokenOwnerOnly));
}
