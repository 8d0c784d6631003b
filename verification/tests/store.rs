use fork_harness::fork_attributes::ForkInfo;
use fork_harness::store::{
    api_key, base_url, base_url_from, cache_dir, create_store, named_base_url, setup_store,
    BaseUrl, ForkSource, StoreBase, StoreError, StoreStep,
};

fn info(network: Option<&str>, version: Option<u64>) -> ForkInfo {
    ForkInfo { network: network.map(|n| n.to_string()), version }
}

#[test]
fn known_networks_go_by_name() {
    assert!(matches!(base_url("mainnet"), Ok(BaseUrl::Mainnet)));
    assert!(matches!(base_url("testnet"), Ok(BaseUrl::Testnet)));
    assert!(matches!(base_url("devnet"), Ok(BaseUrl::Devnet)));
    assert!(named_base_url("Mainnet").is_none());
    assert!(named_base_url("https://node").is_none());
}

#[test]
fn other_networks_go_by_url() {
    let custom = |name: &str| match base_url(name) {
        Ok(BaseUrl::Custom(url)) => Some(url),
        _ => None,
    };
    assert_eq!(custom("http://localhost:8080").as_deref(), Some("http://localhost:8080/"));
    assert_eq!(custom("HTTPS://Node.Example/v1").as_deref(), Some("https://node.example/v1"));
}

#[test]
fn what_is_no_url_is_refused() {
    for name in ["", "Mainnet", "localhost", "http://", "/v1"] {
        assert_eq!(base_url(name).unwrap_err(), StoreError::InvalidUrl);
    }
    assert_eq!(base_url_from("x", None).unwrap_err(), StoreError::InvalidUrl);
    assert!(matches!(base_url_from("devnet", None), Ok(BaseUrl::Devnet)));
    assert!(matches!(base_url_from("x", Some("y".to_string())), Ok(BaseUrl::Custom(u)) if u == "y"));
}

#[test]
fn keys_are_trimmed() {
    let key = |raw: &str| api_key(Some(raw.to_string()));
    assert_eq!(key("abc").as_deref(), Some("abc"));
    assert_eq!(key(" \tabc d\n").as_deref(), Some("abc d"));
    assert_eq!(key("\u{2003}k\u{3000}").as_deref(), Some("k"));
    assert_eq!(key(""), None);
    assert_eq!(key(" \r\n\u{a0}"), None);
    assert_eq!(api_key(None), None);
}

#[test]
fn a_fork_without_a_network_is_of_testnet() {
    let source = create_store(info(None, None), None).unwrap();
    assert!(matches!(source.base_url, BaseUrl::Testnet));
    assert_eq!(source.api_key, None);
    assert!(source.needs_latest_version());
}

#[test]
fn a_fork_source_holds_all_decisions() {
    let source =
        create_store(info(Some("mainnet"), Some(12)), Some(" key ".to_string())).unwrap();
    assert!(matches!(source.base_url, BaseUrl::Mainnet));
    assert_eq!(source.api_key.as_deref(), Some("key"));
    assert_eq!(source.version, Some(12));
    assert!(!source.needs_latest_version());
    let r = create_store(info(Some("nowhere"), Some(12)), None);
    assert_eq!(r.unwrap_err(), StoreError::InvalidUrl);
}

fn source(version: Option<u64>) -> ForkSource {
    ForkSource { base_url: BaseUrl::Testnet, api_key: None, version }
}

#[test]
fn a_pinned_version_is_kept() {
    let location = source(Some(5)).location(2, Some(9)).unwrap();
    assert_eq!(location.version, 5);
    assert_eq!(location.cache_dir, vec!["cache", "2", "5"]);
    assert_eq!(source(Some(5)).location(2, None).unwrap().version, 5);
}

#[test]
fn an_open_version_is_the_latest() {
    let location = source(None).location(255, Some(u64::MAX)).unwrap();
    assert_eq!(location.version, u64::MAX);
    assert_eq!(location.cache_dir, vec!["cache", "255", "18446744073709551615"]);
    assert!(source(None).location(1, None).is_none());
}

#[test]
fn caches_of_different_forks_are_apart() {
    assert_eq!(cache_dir(1, 23), vec!["cache", "1", "23"]);
    assert_ne!(cache_dir(1, 23), cache_dir(12, 3));
    assert_ne!(cache_dir(1, 23), cache_dir(1, 24));
}

#[test]
fn the_base_follows_the_fork() {
    assert!(matches!(setup_store(None), StoreBase::Genesis));
    assert!(matches!(
        setup_store(Some(info(None, Some(3)))),
        StoreBase::Fork(i) if i.version == Some(3)
    ));
}

#[test]
fn a_genesis_store_is_made_without_a_network() {
    let steps = setup_store(None).steps();
    assert_eq!(steps.len(), 4);
    assert!(matches!(steps[0], StoreStep::EmptyBase));
    assert!(matches!(steps[1], StoreStep::TestChainId));
    assert!(matches!(steps[2], StoreStep::GenesisWrites));
    assert!(matches!(steps[3], StoreStep::Environment));
}

#[test]
fn a_forked_store_is_the_network_and_nothing_more() {
    let steps = setup_store(Some(info(Some("devnet"), Some(3)))).steps();
    assert_eq!(steps.len(), 2);
    assert!(matches!(
        &steps[0],
        StoreStep::RemoteBase(i) if i.network.as_deref() == Some("devnet") && i.version == Some(3)
    ));
    assert!(matches!(steps[1], StoreStep::Environment));
}
