//! Startup: one registry per service domain, built from the credential
//! table and the proxy settings.

use crate::keys::{credentials_map, Credential, KeyTable, KeyView};
use crate::registry::{resolved, ClientHandle, ConfigError, Registry, RegistryBuilder};
use crate::sdk::{
    configured_key, configured_proxy, futures_client_key, futures_client_proxy, has_host,
    proxy_accepted, proxy_usable, rest_configuration, sdk_configures, spot_client_key,
    spot_client_proxy, takes_userinfo,
};
use crate::settings::{proxy_view, AppConfig, ProxyConfig, ProxyConfigView};
use binance_sdk::config::ConfigurationRestApi;
use binance_sdk::models::ConfigBuildError;
use binance_sdk::derivatives_trading_usds_futures::DerivativesTradingUsdsFuturesRestApi;
use binance_sdk::spot::SpotRestApi;
use vstd::prelude::*;

verus! {

/// A service domain: how a client of it is made from a configuration.
/// Registries and lookups are written once, against this trait.
pub trait ClientBuilder {
    /// The client of this domain.
    type ApiClient;

    /// The key and the secret that `client` makes its calls with.
    spec fn signs_with(client: Self::ApiClient) -> KeyView;

    /// The proxy that `client` makes its calls through, if any.
    spec fn goes_through(client: Self::ApiClient) -> Option<ProxyConfigView>;

    /// Makes the domain's production client from `conf`: a client that
    /// makes its calls with the key and the secret of `conf`, through its
    /// proxy.
    fn build(conf: ConfigurationRestApi) -> (client: Self::ApiClient)
        ensures
            Self::signs_with(client) == configured_key(conf),
            Self::goes_through(client) == configured_proxy(conf),
    ;
}

impl ClientBuilder for DerivativesTradingUsdsFuturesRestApi {
    type ApiClient = binance_sdk::derivatives_trading_usds_futures::rest_api::RestApi;

    open spec fn signs_with(client: Self::ApiClient) -> KeyView {
        futures_client_key(client)
    }

    open spec fn goes_through(client: Self::ApiClient) -> Option<ProxyConfigView> {
        futures_client_proxy(client)
    }

    fn build(conf: ConfigurationRestApi) -> (client: Self::ApiClient) {
        DerivativesTradingUsdsFuturesRestApi::production(conf)
    }
}

impl ClientBuilder for SpotRestApi {
    type ApiClient = binance_sdk::spot::rest_api::RestApi;

    open spec fn signs_with(client: Self::ApiClient) -> KeyView {
        spot_client_key(client)
    }

    open spec fn goes_through(client: Self::ApiClient) -> Option<ProxyConfigView> {
        spot_client_proxy(client)
    }

    fn build(conf: ConfigurationRestApi) -> (client: Self::ApiClient) {
        SpotRestApi::production(conf)
    }
}

/// Whether a proxy is set that the HTTP client cannot go through.
pub open spec fn proxy_rejected(proxy: Option<ProxyConfigView>) -> bool {
    proxy matches Some(p) && !proxy_usable(p)
}

/// Asks the HTTP client whether it can go through `proxy`.
fn usable(proxy: &ProxyConfig) -> (res: bool)
    ensures
        res == proxy_usable(proxy@),
{
    let url = proxy.url();
    if !proxy_accepted(url.as_str()) {
        return false;
    }
    match &proxy.auth {
        None => true,
        Some(_) => !has_host(url.as_str()) || takes_userinfo(url.as_str()),
    }
}

/// Whether the client in `handle` is one for `key` and `proxy`: it makes
/// its calls with that key and secret, through that proxy, and the handle
/// records both.
pub open spec fn built_for<T: ClientBuilder>(
    handle: ClientHandle<T::ApiClient>,
    key: KeyView,
    proxy: Option<ProxyConfigView>,
) -> bool {
    &&& handle.credential() == key
    &&& handle.proxy_settings() == proxy
    &&& T::signs_with(handle.inner()) == key
    &&& T::goes_through(handle.inner()) == proxy
}

/// Whether `clients` are those of `keys`: a client under every name of the
/// table and under no other, each built for the credential of its name and
/// for `proxy`.
pub open spec fn serves<T: ClientBuilder>(
    clients: Map<Seq<char>, ClientHandle<T::ApiClient>>,
    keys: Map<Seq<char>, KeyView>,
    proxy: Option<ProxyConfigView>,
) -> bool {
    &&& clients.dom() =~= keys.dom()
    &&& forall|name: Seq<char>| #[trigger]
        keys.contains_key(name) ==> built_for::<T>(clients[name], keys[name], proxy)
}

/// Whether the SDK makes a configuration of every one of `entries`, with
/// `proxy`.
pub open spec fn all_configure(entries: Seq<Credential>, proxy: Option<ProxyConfigView>) -> bool {
    forall|i: int| 0 <= i < entries.len() ==> sdk_configures((#[trigger] entries[i]).key@, proxy)
}

/// Whether the entry at `i` is the first of `entries` of which the SDK makes
/// no configuration, with `proxy`.
pub open spec fn first_refused(
    entries: Seq<Credential>,
    proxy: Option<ProxyConfigView>,
    i: int,
) -> bool {
    &&& 0 <= i < entries.len()
    &&& !sdk_configures(entries[i].key@, proxy)
    &&& forall|j: int| 0 <= j < i ==> sdk_configures((#[trigger] entries[j]).key@, proxy)
}

/// Whether a build from `keys` and `proxy` is owed a registry: the table is
/// empty, or the proxy can be gone through and the SDK makes a
/// configuration of every credential.
pub open spec fn builds(entries: Seq<Credential>, proxy: Option<ProxyConfigView>) -> bool {
    entries.len() == 0 || (!proxy_rejected(proxy) && all_configure(entries, proxy))
}

fn duplicate(proxy: &Option<ProxyConfig>) -> (res: Option<ProxyConfig>)
    ensures
        proxy_view(res) == proxy_view(*proxy),
{
    match proxy {
        Some(p) => Some(p.clone()),
        None => None,
    }
}

/// What becomes of one credential once the SDK has answered: of a
/// configuration, the domain's client, in a handle that records what it was
/// built for; of a refusal, the failure that names the credential.
pub fn client_of<T: ClientBuilder>(
    credential: &Credential,
    proxy: &Option<ProxyConfig>,
    configured: Result<ConfigurationRestApi, ConfigBuildError>,
) -> (res: Result<ClientHandle<T::ApiClient>, ConfigError>)
    ensures
        match configured {
            Ok(conf) => res matches Ok(handle) && handle.credential() == credential.key@
                && handle.proxy_settings() == proxy_view(*proxy) && T::signs_with(handle.inner())
                == configured_key(conf) && T::goes_through(handle.inner()) == configured_proxy(
                conf,
            ),
            Err(_) => res matches Err(ConfigError::Credential { key_name }) && key_name@
                == credential.name@,
        },
{
    match configured {
        Ok(conf) => Ok(ClientHandle::new(&credential.key, duplicate(proxy), T::build(conf))),
        Err(_) => Err(ConfigError::Credential { key_name: credential.name.clone() }),
    }
}

/// Builds the registry of the domain `T`: for every credential of `keys` a
/// client, made with the proxy of `app_config`. The build is all or nothing.
/// A table without credentials gives the empty registry. Otherwise a proxy
/// that the HTTP client refuses fails the build before any client is made,
/// and the first credential from which the SDK makes no configuration fails
/// it with that credential's name.
pub fn init_rest_clients<T: ClientBuilder>(keys: &KeyTable, app_config: &AppConfig) -> (res: Result<
    Registry<T::ApiClient>,
    ConfigError,
>)
    ensures
        res is Ok <==> builds(keys.entries(), app_config@.proxy),
        match res {
            Ok(registry) => serves::<T>(registry@, keys@, app_config@.proxy),
            Err(ConfigError::Proxy) => {
                &&& keys.entries().len() > 0
                &&& proxy_rejected(app_config@.proxy)
            },
            Err(ConfigError::Credential { key_name }) => {
                &&& !proxy_rejected(app_config@.proxy)
                &&& keys@.contains_key(key_name@)
                &&& exists|i: int|
                    first_refused(keys.entries(), app_config@.proxy, i) && (
                    #[trigger] keys.entries()[i]).name@ == key_name@
            },
        },
{
    let count: usize = keys.len();
    if count == 0 {
        return Ok(RegistryBuilder::new().publish());
    }
    if let Some(proxy) = &app_config.proxy {
        if !usable(proxy) {
            return Err(ConfigError::Proxy);
        }
    }
    let mut builder = RegistryBuilder::new();
    let mut i: usize = 0;
    while i < count
        invariant
            count == keys.entries().len(),
            i <= count,
            !proxy_rejected(app_config@.proxy),
            all_configure(keys.entries().take(i as int), app_config@.proxy),
            serves::<T>(
                builder@,
                credentials_map(keys.entries().take(i as int)),
                app_config@.proxy,
            ),
        decreases count - i,
    {
        let credential = keys.entry(i);
        let configured = rest_configuration(&credential.key, &app_config.proxy);
        let outcome = client_of::<T>(credential, &app_config.proxy, configured);
        proof {
            let entries = keys.entries();
            assert(entries.take(i + 1).drop_last() =~= entries.take(i as int));
            assert(entries.take(i + 1).last() == entries[i as int]);
            if configured is Ok {
                assert forall|j: int| 0 <= j < i + 1 implies sdk_configures(
                    (#[trigger] entries.take(i + 1)[j]).key@,
                    app_config@.proxy,
                ) by {
                    if j < i {
                        assert(entries.take(i as int)[j] == entries.take(i + 1)[j]);
                    }
                }
            } else {
                assert forall|j: int| 0 <= j < i implies sdk_configures(
                    (#[trigger] entries[j]).key@,
                    app_config@.proxy,
                ) by {
                    assert(entries.take(i as int)[j] == entries[j]);
                }
                assert(first_refused(entries, app_config@.proxy, i as int));
            }
        }
        match builder.record(credential.name.clone(), outcome) {
            Ok(next) => {
                builder = next;
            },
            Err(e) => {
                return Err(e);
            },
        }
        i += 1;
    }
    proof {
        assert(keys.entries().take(count as int) =~= keys.entries());
    }
    Ok(builder.publish())
}

/// What every request handler shares: one registry per service domain.
pub struct AppState {
    pub rest_usds_future_clients: Registry<
        binance_sdk::derivatives_trading_usds_futures::rest_api::RestApi,
    >,
    pub rest_spot_clients: Registry<binance_sdk::spot::rest_api::RestApi>,
}

impl Clone for AppState {
    fn clone(&self) -> (res: Self)
        ensures
            res.rest_usds_future_clients@ == self.rest_usds_future_clients@,
            res.rest_spot_clients@ == self.rest_spot_clients@,
    {
        AppState {
            rest_usds_future_clients: self.rest_usds_future_clients.clone(),
            rest_spot_clients: self.rest_spot_clients.clone(),
        }
    }
}

impl AppState {
    /// Builds the registries of both domains, the futures one first. Where
    /// either build fails there is no state, and so no registry to serve
    /// from.
    pub fn init(keys: &KeyTable, app_config: &AppConfig) -> (res: Result<AppState, ConfigError>)
        ensures
            res is Ok <==> builds(keys.entries(), app_config@.proxy),
            match res {
                Ok(state) => {
                    &&& serves::<DerivativesTradingUsdsFuturesRestApi>(
                        state.rest_usds_future_clients@,
                        keys@,
                        app_config@.proxy,
                    )
                    &&& serves::<SpotRestApi>(state.rest_spot_clients@, keys@, app_config@.proxy)
                },
                Err(ConfigError::Proxy) => {
                    &&& keys.entries().len() > 0
                    &&& proxy_rejected(app_config@.proxy)
                },
                Err(ConfigError::Credential { key_name }) => {
                    &&& !proxy_rejected(app_config@.proxy)
                    &&& keys@.contains_key(key_name@)
                    &&& exists|i: int|
                        first_refused(keys.entries(), app_config@.proxy, i) && (
                        #[trigger] keys.entries()[i]).name@ == key_name@
                },
            },
    {
        let rest_usds_future_clients = match init_rest_clients::<
            DerivativesTradingUsdsFuturesRestApi,
        >(keys, app_config) {
            Ok(registry) => registry,
            Err(e) => {
                return Err(e);
            },
        };
        let rest_spot_clients = match init_rest_clients::<SpotRestApi>(keys, app_config) {
            Ok(registry) => registry,
            Err(e) => {
                return Err(e);
            },
        };
        Ok(AppState { rest_usds_future_clients, rest_spot_clients })
    }
}

/// In a registry that serves a table, every name of the table resolves, and
/// to a client that was built for the credential of that name and for the
/// shared proxy: it makes its calls with that credential, through that
/// proxy.
pub proof fn lemma_known_key_resolves<T: ClientBuilder>(
    clients: Map<Seq<char>, ClientHandle<T::ApiClient>>,
    keys: Map<Seq<char>, KeyView>,
    proxy: Option<ProxyConfigView>,
    name: Seq<char>,
)
    requires
        serves::<T>(clients, keys, proxy),
        keys.contains_key(name),
    ensures
        resolved(clients, name) matches Ok(handle) && built_for::<T>(handle, keys[name], proxy),
{
    assert(clients.dom().contains(name));
}

/// In a registry that serves a table, a name that the table does not have
/// is not found, and the failure says which name was asked for.
pub proof fn lemma_unknown_key_is_not_found<T: ClientBuilder>(
    clients: Map<Seq<char>, ClientHandle<T::ApiClient>>,
    keys: Map<Seq<char>, KeyView>,
    proxy: Option<ProxyConfigView>,
    name: Seq<char>,
)
    requires
        serves::<T>(clients, keys, proxy),
        !keys.contains_key(name),
    ensures
        resolved(clients, name) == Err::<ClientHandle<T::ApiClient>, _>(name),
{
    assert(!clients.dom().contains(name));
}

/// One credential of which the SDK makes no configuration fails the build,
/// wherever in the table it stands; and where the SDK makes one of each and
/// the proxy can be gone through, the build is owed.
pub proof fn lemma_build_is_all_or_nothing(
    entries: Seq<Credential>,
    proxy: Option<ProxyConfigView>,
    i: int,
)
    requires
        0 <= i < entries.len(),
    ensures
        !sdk_configures(entries[i].key@, proxy) ==> !builds(entries, proxy),
        !proxy_rejected(proxy) && all_configure(entries, proxy) ==> builds(entries, proxy),
{
}

} // verus!
