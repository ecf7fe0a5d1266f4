use engage_ledger::error::Error;
use engage_ledger::nft::subscan_endpoint;
use engage_ledger::paging::{default_limit, default_offset, get_order_by_sql, Never};
use engage_ledger::strmap::StrMap;

#[test]
fn listing_defaults() {
    assert_eq!(default_offset(), 0);
    assert_eq!(default_limit(), 10000);
    assert_eq!(engage_ledger::nft::default_offset(), 0);
    assert_eq!(engage_ledger::nft::default_limit(), 10000);
    assert!(Never {}.is_empty());
}

#[test]
fn ordering_allows_listed_columns_both_ways() {
    let cols = vec!["created_at", "updated_at"];
    assert_eq!(
        get_order_by_sql("created_at", cols.clone()).unwrap(),
        "created_at asc"
    );
    assert_eq!(
        get_order_by_sql("-updated_at", cols.clone()).unwrap(),
        "updated_at desc"
    );
}

#[test]
fn ordering_refuses_unlisted_columns() {
    let cols = vec!["created_at"];
    assert_eq!(
        get_order_by_sql("name", cols.clone()).unwrap_err(),
        Error::InvalidOrder
    );
    assert_eq!(
        get_order_by_sql("-name", cols.clone()).unwrap_err(),
        Error::InvalidOrder
    );
    assert_eq!(get_order_by_sql("", cols).unwrap_err(), Error::InvalidOrder);
}

#[test]
fn maps_overwrite_on_key_and_preserve_order() {
    let mut m: StrMap<i64> = StrMap::new();
    assert!(m.is_empty());
    m.insert("a".to_string(), 1);
    m.insert("b".to_string(), 2);
    m.insert("a".to_string(), 3);
    assert_eq!(m.len(), 2);
    assert_eq!(m.get("a"), Some(&3));
    assert_eq!(m.get("b"), Some(&2));
    assert_eq!(m.get("c"), None);
    assert!(m.contains_key("a"));
    assert!(!m.contains_key("c"));
    assert_eq!(m.entry_at(0).0, "a", "an overwrite keeps the entry's place");
}

#[test]
fn merging_overwrites_supplied_keys_and_keeps_the_rest() {
    let mut base: StrMap<i64> = StrMap::new();
    base.insert("a".to_string(), 1);
    base.insert("b".to_string(), 2);
    let mut patch: StrMap<i64> = StrMap::new();
    patch.insert("b".to_string(), 20);
    patch.insert("c".to_string(), 30);
    base.merge(patch);
    assert_eq!(base.get("a"), Some(&1));
    assert_eq!(base.get("b"), Some(&20));
    assert_eq!(base.get("c"), Some(&30));
    assert_eq!(base.len(), 3);
}

#[test]
fn only_the_supported_chain_has_an_explorer_endpoint() {
    assert_eq!(
        subscan_endpoint(592),
        Some("https://astar.api.subscan.io/api")
    );
    assert_eq!(subscan_endpoint(1), None);
}
