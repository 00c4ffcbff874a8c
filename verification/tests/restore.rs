use nft_series::contract::Contract;
use nft_series::metadata::TokenMetadata;
use nft_series::series::TokenSeries;
use nft_series::table::AccountMap;

fn meta(title: Option<&str>, copies: Option<u64>) -> TokenMetadata {
    TokenMetadata {
        title: title.map(|t| t.to_string()),
        description: None,
        media: None,
        media_hash: None,
        copies,
        issued_at: None,
        expires_at: None,
        starts_at: None,
        updated_at: None,
        extra: None,
        reference: None,
        reference_hash: None,
    }
}

fn shares(entries: &[(&str, u32)]) -> AccountMap<u32> {
    let mut t = AccountMap::new();
    for (account, share) in entries {
        t.insert(account.to_string(), *share);
    }
    t
}

fn ids(tokens: &[&str]) -> Vec<String> {
    tokens.iter().map(|t| t.to_string()).collect()
}

fn series(
    title: Option<&str>,
    copies: Option<u64>,
    tokens: &[&str],
    price: Option<u128>,
    token: Option<&str>,
    is_mintable: bool,
    royalty: &[(&str, u32)],
) -> TokenSeries {
    TokenSeries::from_parts(
        meta(title, copies),
        "creator.near".to_string(),
        ids(tokens),
        price,
        token.map(|t| t.to_string()),
        is_mintable,
        shares(royalty),
    )
}

#[test]
fn valid_series_are_told_from_others() {
    let id = "3".to_string();
    assert!(series(Some("W"), Some(2), &["3:1"], Some(5), Some("x.near"), true, &[("a.near", 9000)]).is_valid(&id));
    assert!(series(Some("W"), None, &[], None, None, false, &[]).is_valid(&id));
    assert!(series(Some("W"), Some(2), &["3:1", "3:2"], None, None, false, &[]).is_valid(&id));
    assert!(series(Some("W"), Some(0), &[], None, None, true, &[]).is_valid(&id));
    assert!(!series(None, Some(2), &["3:1"], None, None, true, &[]).is_valid(&id));
    assert!(!series(Some(""), Some(2), &["3:1"], None, None, true, &[]).is_valid(&id));
    assert!(!series(Some("W"), Some(2), &["3:1"], Some(5), None, true, &[]).is_valid(&id));
    assert!(!series(Some("W"), Some(2), &["3:1"], None, Some("x.near"), true, &[]).is_valid(&id));
    assert!(!series(Some("W"), Some(1), &["3:1", "3:2"], None, None, false, &[]).is_valid(&id));
    assert!(!series(Some("W"), Some(2), &["3:1", "3:2"], None, None, true, &[]).is_valid(&id));
    assert!(!series(Some("W"), Some(2), &["3:2"], None, None, true, &[]).is_valid(&id));
    assert!(!series(Some("W"), Some(2), &["4:1"], None, None, true, &[]).is_valid(&id));
    assert!(!series(Some("W"), Some(2), &["3:01"], None, None, true, &[]).is_valid(&id));
    assert!(!series(Some("W"), None, &[], None, None, true, &[("a.near", 9001)]).is_valid(&id));
    assert!(!series(Some("W"), Some(2), &["3:1"], None, None, true, &[]).is_valid(&"4".to_string()));
}

#[test]
fn series_with_eleven_royalty_accounts_is_not_valid() {
    let names: Vec<String> = (0..11).map(|i| format!("a{}.near", i)).collect();
    let entries: Vec<(&str, u32)> = names.iter().map(|n| (n.as_str(), 1)).collect();
    assert!(!series(Some("W"), None, &[], None, None, true, &entries).is_valid(&"1".to_string()));
    assert!(series(Some("W"), None, &[], None, None, true, &entries[..10]).is_valid(&"1".to_string()));
}

#[test]
fn restore_takes_a_valid_state() {
    let mut accounts = AccountMap::new();
    accounts.insert("alice.near".to_string(), 12u128);
    let all = vec![
        series(Some("A"), Some(2), &["1:1"], None, None, true, &[]),
        series(Some("B"), None, &["2:1", "2:2"], Some(5), Some("x.near"), false, &[("a.near", 100)]),
    ];
    let c = Contract::restore("owner.near".to_string(), 4, all, accounts).unwrap();
    assert_eq!(c.get_owner(), "owner.near");
    assert_eq!(c.extra_storage_in_bytes_per_token(), 4);
    assert_eq!(c.get_storage_fee(), 40_000_000_000_000_000_000);
    assert_eq!(c.series_count(), 2);
    assert_eq!(c.series_at(0).minted(), 1);
    assert_eq!(c.series_at(1).token_at(1), "2:2");
    assert_eq!(c.series_at(1).price(), Some(5));
    assert!(!c.series_at(1).is_mintable());
    assert_eq!(c.balance(&"alice.near".to_string()), Some(12));
    assert_eq!(c.ledger().len(), 1);
    assert_eq!(c.ledger().account_at(0), "alice.near");
    assert_eq!(c.ledger().value_at(0), 12);
}

#[test]
fn restore_refuses_a_series_in_the_wrong_place() {
    let all = vec![
        series(Some("B"), None, &["2:1"], None, None, true, &[]),
        series(Some("A"), None, &["1:1"], None, None, true, &[]),
    ];
    assert!(Contract::restore("owner.near".to_string(), 0, all, AccountMap::new()).is_none());
    let all = vec![
        series(Some("A"), None, &["1:1"], None, None, true, &[]),
        series(None, None, &[], None, None, true, &[]),
    ];
    assert!(Contract::restore("owner.near".to_string(), 0, all, AccountMap::new()).is_none());
    assert!(Contract::restore("owner.near".to_string(), 0, Vec::new(), AccountMap::new()).is_some());
}
