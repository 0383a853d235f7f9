use binance_sdk::derivatives_trading_usds_futures::DerivativesTradingUsdsFuturesRestApi;
use binance_sdk::spot::SpotRestApi;
use exchange_gateway::app::{init_rest_clients, AppState};
use exchange_gateway::handler::get_client_from_state;
use exchange_gateway::keys::{Key, KeyTable};
use exchange_gateway::registry::{ClientHandle, ConfigError, NotFoundError, Registry, RegistryBuilder};
use exchange_gateway::settings::{AppConfig, ProxyAuth, ProxyConfig, ServerConfig};

type FuturesClient = binance_sdk::derivatives_trading_usds_futures::rest_api::RestApi;
type SpotClient = binance_sdk::spot::rest_api::RestApi;

fn key(api_key: &str, secret: &str) -> Key {
    Key { api_key: api_key.to_string(), secret: secret.to_string() }
}

fn table(entries: &[(&str, &str, &str)]) -> KeyTable {
    let mut keys = KeyTable::new();
    for (name, api_key, secret) in entries {
        keys.insert(name.to_string(), key(api_key, secret));
    }
    keys
}

fn settings(proxy: Option<ProxyConfig>) -> AppConfig {
    AppConfig { server: ServerConfig { host: "127.0.0.1".to_string(), port: 8080 }, proxy }
}

fn local_proxy() -> ProxyConfig {
    ProxyConfig { host: "proxy.local".to_string(), port: 8080, protocol: None, auth: None }
}

fn same_proxy(found: &Option<ProxyConfig>, wanted: &Option<ProxyConfig>) -> bool {
    match (found, wanted) {
        (None, None) => true,
        (Some(a), Some(b)) => {
            let auth = match (&a.auth, &b.auth) {
                (None, None) => true,
                (Some(x), Some(y)) => x.username == y.username && x.password == y.password,
                _ => false,
            };
            a.host == b.host && a.port == b.port && a.protocol == b.protocol && auth
        },
        _ => false,
    }
}

#[test]
fn one_account_without_proxy() {
    let keys = table(&[("acct1", "k1", "s1")]);
    let registry =
        init_rest_clients::<DerivativesTradingUsdsFuturesRestApi>(&keys, &settings(None)).unwrap();
    assert_eq!(registry.len(), 1);
    let handle = registry.resolve("acct1").unwrap();
    assert_eq!(handle.api_key(), "k1");
    assert!(handle.proxy().is_none());
    match registry.resolve("acct2") {
        Err(e) => assert_eq!(e, NotFoundError { key_name: "acct2".to_string() }),
        Ok(_) => panic!("acct2 is not in the table"),
    }
}

#[test]
fn two_accounts_behind_a_proxy() {
    let keys = table(&[("acct1", "k1", "s1"), ("acct2", "k2", "s2")]);
    let shared = Some(local_proxy());
    let config = settings(Some(local_proxy()));
    let futures = init_rest_clients::<DerivativesTradingUsdsFuturesRestApi>(&keys, &config).unwrap();
    let spot = init_rest_clients::<SpotRestApi>(&keys, &config).unwrap();
    assert_eq!(futures.len(), 2);
    assert_eq!(spot.len(), 2);
    for (name, api_key) in [("acct1", "k1"), ("acct2", "k2")] {
        let handle = futures.resolve(name).unwrap();
        assert_eq!(handle.api_key(), api_key);
        assert!(same_proxy(handle.proxy(), &shared));
        let handle = spot.resolve(name).unwrap();
        assert_eq!(handle.api_key(), api_key);
        assert!(same_proxy(handle.proxy(), &shared));
    }
}

#[test]
fn proxy_with_protocol_and_credentials_is_shared() {
    let proxy = || ProxyConfig {
        host: "10.0.0.7".to_string(),
        port: 3128,
        protocol: Some("https".to_string()),
        auth: Some(ProxyAuth { username: "gate".to_string(), password: "pw".to_string() }),
    };
    let keys = table(&[("acct1", "k1", "s1")]);
    let state = AppState::init(&keys, &settings(Some(proxy()))).unwrap();
    let handle = state.rest_spot_clients.resolve("acct1").unwrap();
    assert!(same_proxy(handle.proxy(), &Some(proxy())));
    let handle = state.rest_usds_future_clients.resolve("acct1").unwrap();
    assert!(same_proxy(handle.proxy(), &Some(proxy())));
}

#[test]
fn one_failed_credential_leaves_no_registry() {
    let outcomes: Vec<(String, Result<ClientHandle<u32>, ConfigError>)> = vec![
        ("acct1".to_string(), Ok(ClientHandle::new(&key("k1", "s1"), None, 1))),
        ("acct2".to_string(), Err(ConfigError::Credential { key_name: "acct2".to_string() })),
        ("acct3".to_string(), Ok(ClientHandle::new(&key("k3", "s3"), None, 3))),
    ];
    match Registry::from_outcomes(outcomes) {
        Err(e) => assert_eq!(e, ConfigError::Credential { key_name: "acct2".to_string() }),
        Ok(_) => panic!("the build must fail as a whole"),
    }
}

#[test]
fn the_first_failure_is_the_one_reported() {
    let outcomes: Vec<(String, Result<ClientHandle<u32>, ConfigError>)> = vec![
        ("a".to_string(), Err(ConfigError::Credential { key_name: "a".to_string() })),
        ("b".to_string(), Err(ConfigError::Proxy)),
    ];
    assert_eq!(
        Registry::from_outcomes(outcomes).err(),
        Some(ConfigError::Credential { key_name: "a".to_string() })
    );
}

#[test]
fn outcomes_without_failure_make_a_registry() {
    let outcomes: Vec<(String, Result<ClientHandle<u32>, ConfigError>)> = vec![
        ("acct1".to_string(), Ok(ClientHandle::new(&key("k1", "s1"), None, 1))),
        ("acct2".to_string(), Ok(ClientHandle::new(&key("k2", "s2"), Some(local_proxy()), 2))),
        ("acct1".to_string(), Ok(ClientHandle::new(&key("k9", "s9"), None, 9))),
    ];
    let registry = Registry::from_outcomes(outcomes).unwrap();
    assert_eq!(registry.len(), 2);
    assert!(!registry.is_empty());
    assert!(registry.contains("acct1"));
    assert!(!registry.contains("acct3"));
    let first = registry.resolve("acct1").unwrap();
    assert_eq!(*first.client(), 9);
    assert_eq!(first.api_key(), "k9");
    let second = registry.resolve("acct2").unwrap();
    assert_eq!(*second.client(), 2);
    assert!(same_proxy(second.proxy(), &Some(local_proxy())));
}

#[test]
fn builder_keeps_handles_and_hands_failures_back() {
    let builder: RegistryBuilder<&str> = RegistryBuilder::new();
    let builder = builder
        .record("acct1".to_string(), Ok(ClientHandle::new(&key("k1", "s1"), None, "first")))
        .unwrap();
    let builder = builder
        .record("acct1".to_string(), Ok(ClientHandle::new(&key("k2", "s2"), None, "second")))
        .unwrap();
    let failed = builder.record("acct2".to_string(), Err(ConfigError::Proxy));
    assert_eq!(failed.err(), Some(ConfigError::Proxy));

    let builder: RegistryBuilder<&str> = RegistryBuilder::new();
    let builder = builder
        .record("acct1".to_string(), Ok(ClientHandle::new(&key("k2", "s2"), None, "second")))
        .unwrap();
    let registry = builder.publish();
    let copy = registry.clone();
    drop(registry);
    assert_eq!(copy.len(), 1);
    assert_eq!(*copy.resolve("acct1").unwrap().client(), "second");
    assert_eq!(copy.resolve("acct1").unwrap().api_key(), "k2");
}

#[test]
fn no_outcomes_make_the_empty_registry() {
    let registry: Registry<u32> = Registry::from_outcomes(Vec::new()).unwrap();
    assert!(registry.is_empty());
    assert_eq!(registry.len(), 0);
    assert!(registry.resolve("").is_err());
}

#[test]
fn refused_proxy_fails_startup() {
    let keys = table(&[("acct1", "k1", "s1"), ("acct2", "k2", "s2")]);
    let bad = || ProxyConfig { host: "bad host".to_string(), port: 8080, protocol: None, auth: None };
    let futures = init_rest_clients::<DerivativesTradingUsdsFuturesRestApi>(&keys, &settings(Some(bad())));
    assert_eq!(futures.err(), Some(ConfigError::Proxy));
    let spot = init_rest_clients::<SpotRestApi>(&keys, &settings(Some(bad())));
    assert_eq!(spot.err(), Some(ConfigError::Proxy));
    assert_eq!(AppState::init(&keys, &settings(Some(bad()))).err(), Some(ConfigError::Proxy));
}

fn odd_proxy(protocol: &str, host: &str, with_auth: bool) -> ProxyConfig {
    let auth = if with_auth {
        Some(ProxyAuth { username: "gate".to_string(), password: "pw".to_string() })
    } else {
        None
    };
    ProxyConfig { host: host.to_string(), port: 80, protocol: Some(protocol.to_string()), auth }
}

#[test]
fn proxy_that_takes_no_credentials_fails_startup_only_with_credentials() {
    let keys = table(&[("acct1", "k1", "s1")]);
    let plain = init_rest_clients::<SpotRestApi>(&keys, &settings(Some(odd_proxy("file", "h/x", false))));
    assert!(plain.is_ok());
    let with = init_rest_clients::<SpotRestApi>(&keys, &settings(Some(odd_proxy("file", "h/x", true))));
    assert_eq!(with.err(), Some(ConfigError::Proxy));
}

#[test]
fn proxy_read_behind_http_takes_credentials() {
    let keys = table(&[("acct1", "k1", "s1")]);
    for (protocol, host) in [("1http", "h"), ("foo", "#"), ("my_p", "h"), ("foo", "/x")] {
        let proxy = odd_proxy(protocol, host, true);
        let built = init_rest_clients::<SpotRestApi>(&keys, &settings(Some(proxy)));
        let registry = built.unwrap();
        let handle = registry.resolve("acct1").unwrap();
        assert!(same_proxy(handle.proxy(), &Some(odd_proxy(protocol, host, true))));
    }
}

#[test]
fn proxy_urls_that_do_not_parse_fail_startup() {
    let keys = table(&[("acct1", "k1", "s1")]);
    for (protocol, host) in [("", "h"), ("foo", ""), ("http", "?"), ("http", "bad host"), ("bad host", "x")] {
        for with_auth in [false, true] {
            let proxy = odd_proxy(protocol, host, with_auth);
            let built = init_rest_clients::<DerivativesTradingUsdsFuturesRestApi>(&keys, &settings(Some(proxy)));
            assert_eq!(built.err(), Some(ConfigError::Proxy));
        }
    }
}

#[test]
fn empty_table_gives_empty_registries_whatever_the_proxy() {
    let keys = KeyTable::new();
    let bad = ProxyConfig { host: "bad host".to_string(), port: 1, protocol: None, auth: None };
    let state = AppState::init(&keys, &settings(Some(bad))).unwrap();
    assert!(state.rest_usds_future_clients.is_empty());
    assert!(state.rest_spot_clients.is_empty());
    assert!(get_client_from_state::<FuturesClient>(&state, "acct1").is_err());
}

#[test]
fn every_credential_resolves_in_every_domain() {
    let names = ["main", "sub-1", "sub 2", "Ünïcödé", ""];
    let mut keys = KeyTable::new();
    for (i, name) in names.iter().enumerate() {
        keys.insert(name.to_string(), key(&format!("key{}", i), &format!("secret{}", i)));
    }
    let state = AppState::init(&keys, &settings(None)).unwrap();
    for (i, name) in names.iter().enumerate() {
        let futures = get_client_from_state::<FuturesClient>(&state, name).unwrap();
        assert_eq!(futures.api_key(), format!("key{}", i));
        let spot = get_client_from_state::<SpotClient>(&state, name).unwrap();
        assert_eq!(spot.api_key(), format!("key{}", i));
    }
}

#[test]
fn unknown_names_are_not_found_in_any_domain() {
    let keys = table(&[("acct1", "k1", "s1")]);
    let state = AppState::init(&keys, &settings(None)).unwrap();
    for name in ["acct2", "ACCT1", "acct1 ", "", "k1"] {
        match get_client_from_state::<FuturesClient>(&state, name) {
            Err(e) => assert_eq!(e.key_name, name),
            Ok(_) => panic!("{} is not in the table", name),
        }
        match get_client_from_state::<SpotClient>(&state, name) {
            Err(e) => assert_eq!(e.key_name, name),
            Ok(_) => panic!("{} is not in the table", name),
        }
    }
}

#[test]
fn replaced_credential_is_the_one_served() {
    let mut keys = table(&[("acct1", "old", "s1"), ("acct2", "k2", "s2")]);
    keys.insert("acct1".to_string(), key("new", "s9"));
    let registry = init_rest_clients::<SpotRestApi>(&keys, &settings(None)).unwrap();
    assert_eq!(registry.len(), 2);
    assert_eq!(registry.resolve("acct1").unwrap().api_key(), "new");
}

#[test]
fn a_clone_shares_the_clients() {
    let keys = table(&[("acct1", "k1", "s1")]);
    let state = AppState::init(&keys, &settings(None)).unwrap();
    let copy = state.clone();
    drop(state);
    assert_eq!(copy.rest_spot_clients.len(), 1);
    assert_eq!(get_client_from_state::<SpotClient>(&copy, "acct1").unwrap().api_key(), "k1");
    let registry = copy.rest_usds_future_clients.clone();
    assert_eq!(registry.resolve("acct1").unwrap().api_key(), "k1");
    assert!(registry.resolve("acct2").is_err());
}

fn shareable<T: Send + Sync>(_: &T) {}

#[test]
fn many_lookups_on_shared_clones_agree() {
    let keys = table(&[("acct1", "k1", "s1"), ("acct2", "k2", "s2"), ("acct3", "k3", "s3")]);
    let state = AppState::init(&keys, &settings(None)).unwrap();
    shareable(&state);
    shareable(&state.rest_spot_clients);
    let asked = ["acct1", "nobody", "acct3", "", "acct2", "acct4"];
    let wanted = [Some("k1"), None, Some("k3"), None, Some("k2"), None];
    let holders: Vec<AppState> = (0..8).map(|_| state.clone()).collect();
    let mut pending = Vec::new();
    for n in 0..128usize {
        let holder = &holders[(n * 5) % holders.len()];
        let found = get_client_from_state::<SpotClient>(holder, asked[n % asked.len()]);
        pending.push((n, found));
    }
    assert_eq!(pending.len(), 128);
    for (n, found) in pending.iter().rev() {
        let again = get_client_from_state::<FuturesClient>(&state, asked[n % asked.len()]);
        assert_eq!(again.ok().map(|h| h.api_key()), wanted[n % asked.len()]);
        match found {
            Ok(handle) => assert_eq!(Some(handle.api_key()), wanted[n % asked.len()]),
            Err(e) => {
                assert_eq!(wanted[n % asked.len()], None);
                assert_eq!(e.key_name, asked[n % asked.len()]);
            },
        }
    }
}

#[test]
fn errors_say_what_failed_and_name_no_secret() {
    assert_eq!(ConfigError::Proxy.message(), "Failed to create proxy from URL");
    let refused = ConfigError::Credential { key_name: "acct1".to_string() };
    assert_eq!(refused.message(), "Failed to build REST configuration");
    let missing = NotFoundError { key_name: "acct2".to_string() };
    assert_eq!(missing.message(), "Client not found for key_name: acct2");
    assert_eq!(NotFoundError { key_name: String::new() }.message(), "Client not found for key_name: ");
}
