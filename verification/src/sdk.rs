//! What this library takes on trust from the exchange's SDK and from the
//! HTTP client beneath it. Nothing in this file is proved; every contract
//! here states what the outside code is read to do.

use crate::keys::{Key, KeyView};
use crate::settings::{proxy_view, ProxyConfig, ProxyConfigView};
use binance_sdk::config::ConfigurationRestApi;
use binance_sdk::config::ProxyAuth as SdkProxyAuth;
use binance_sdk::config::ProxyConfig as SdkProxyConfig;
use binance_sdk::derivatives_trading_usds_futures::DerivativesTradingUsdsFuturesRestApi;
use binance_sdk::models::ConfigBuildError;
use binance_sdk::spot::SpotRestApi;
use vstd::prelude::*;

verus! {

/// `binance_sdk::config::ConfigurationRestApi`: the settings that a REST
/// client is made from. Opaque here.
#[verifier::external_type_specification]
#[verifier::external_body]
pub struct ExConfigurationRestApi(ConfigurationRestApi);

/// `binance_sdk::models::ConfigBuildError`: why the SDK declined to make a
/// configuration. Opaque here.
#[verifier::external_type_specification]
#[verifier::external_body]
pub struct ExConfigBuildError(ConfigBuildError);

/// `binance_sdk::derivatives_trading_usds_futures::DerivativesTradingUsdsFuturesRestApi`:
/// the factory of futures clients. Opaque here.
#[verifier::external_type_specification]
#[verifier::external_body]
pub struct ExDerivativesTradingUsdsFuturesRestApi(DerivativesTradingUsdsFuturesRestApi);

/// `binance_sdk::derivatives_trading_usds_futures::rest_api::RestApi`: an
/// authenticated client of the futures service. Opaque here.
#[verifier::external_type_specification]
#[verifier::external_body]
pub struct ExUsdsFuturesRestApi(binance_sdk::derivatives_trading_usds_futures::rest_api::RestApi);

/// `binance_sdk::spot::SpotRestApi`: the factory of spot clients. Opaque here.
#[verifier::external_type_specification]
#[verifier::external_body]
pub struct ExSpotRestApi(SpotRestApi);

/// `binance_sdk::spot::rest_api::RestApi`: an authenticated client of the
/// spot service. Opaque here.
#[verifier::external_type_specification]
#[verifier::external_body]
pub struct ExSpotClient(binance_sdk::spot::rest_api::RestApi);

/// Whether `ConfigurationRestApiBuilder::build` returns a configuration when
/// the builder was given this key and secret and, where one is set, this
/// proxy. It decides so from what the builder was given, and from nothing
/// else.
pub uninterp spec fn sdk_configures(key: KeyView, proxy: Option<ProxyConfigView>) -> bool;

/// The key and the secret that `conf` holds, in its fields `api_key` and
/// `api_secret`.
pub uninterp spec fn configured_key(conf: ConfigurationRestApi) -> KeyView;

/// The proxy that `conf` holds, in its field `proxy`, if it holds one.
pub uninterp spec fn configured_proxy(conf: ConfigurationRestApi) -> Option<ProxyConfigView>;

/// The key and the secret of the configuration that a futures client keeps
/// and makes its calls with.
pub uninterp spec fn futures_client_key(
    client: binance_sdk::derivatives_trading_usds_futures::rest_api::RestApi,
) -> KeyView;

/// The proxy of the configuration that a futures client keeps and makes its
/// calls with.
pub uninterp spec fn futures_client_proxy(
    client: binance_sdk::derivatives_trading_usds_futures::rest_api::RestApi,
) -> Option<ProxyConfigView>;

/// The key and the secret of the configuration that a spot client keeps and
/// makes its calls with.
pub uninterp spec fn spot_client_key(client: binance_sdk::spot::rest_api::RestApi) -> KeyView;

/// The proxy of the configuration that a spot client keeps and makes its
/// calls with.
pub uninterp spec fn spot_client_proxy(client: binance_sdk::spot::rest_api::RestApi) -> Option<
    ProxyConfigView,
>;

/// `DerivativesTradingUsdsFuturesRestApi::production` sets the base path of
/// the configuration to the production endpoint and the user agent, and
/// makes a client that keeps the configuration: key, secret and proxy are
/// those it was given. It returns on every configuration.
pub assume_specification[ DerivativesTradingUsdsFuturesRestApi::production ](
    config: ConfigurationRestApi,
) -> (client: binance_sdk::derivatives_trading_usds_futures::rest_api::RestApi)
    ensures
        futures_client_key(client) == configured_key(config),
        futures_client_proxy(client) == configured_proxy(config),
;

/// `SpotRestApi::production` sets the base path of the configuration to the
/// production endpoint and the user agent, and makes a client that keeps the
/// configuration: key, secret and proxy are those it was given. It returns
/// on every configuration.
pub assume_specification[ SpotRestApi::production ](config: ConfigurationRestApi) -> (client:
    binance_sdk::spot::rest_api::RestApi)
    ensures
        spot_client_key(client) == configured_key(config),
        spot_client_proxy(client) == configured_proxy(config),
;

/// Whether `reqwest::Proxy::all` accepts `url`, which it decides by parsing
/// the text as a URL, from the text alone.
pub uninterp spec fn proxy_url_accepted(url: Seq<char>) -> bool;

/// Whether `url` parses, by `reqwest::Url::parse`, to a URL that has a host.
pub uninterp spec fn url_has_host(url: Seq<char>) -> bool;

/// Whether `url` parses, by `reqwest::Url::parse`, to a URL on which
/// `set_username` succeeds.
pub uninterp spec fn url_takes_userinfo(url: Seq<char>) -> bool;

/// `reqwest::Proxy::all`, asked only whether it takes the URL: true where it
/// returns a proxy, false where it returns an error.
#[verifier::external_body]
pub(crate) fn proxy_accepted(url: &str) -> (accepted: bool)
    ensures
        accepted == proxy_url_accepted(url@),
{
    reqwest::Proxy::all(url).is_ok()
}

/// `reqwest::Url::parse`, then `has_host` on the URL; false where the text
/// does not parse.
#[verifier::external_body]
pub(crate) fn has_host(url: &str) -> (res: bool)
    ensures
        res == url_has_host(url@),
{
    reqwest::Url::parse(url).map_or(false, |parsed| parsed.has_host())
}

/// `reqwest::Url::parse`, then `set_username` on the URL, with the empty
/// name: whether it succeeds, which does not depend on the name; false where
/// the text does not parse.
#[verifier::external_body]
pub(crate) fn takes_userinfo(url: &str) -> (res: bool)
    ensures
        res == url_takes_userinfo(url@),
{
    reqwest::Url::parse(url).map_or(false, |mut parsed| parsed.set_username("").is_ok())
}

/// Whether the SDK can build an HTTP client that goes through `proxy`. It
/// writes the proxy's URL and hands it to `reqwest::Proxy::all`, which must
/// accept it. Where credentials are set it then writes them into the URL
/// that came of it: the URL as parsed where that has a host, else the same
/// text behind `http://`, which always takes them.
pub open spec fn proxy_usable(proxy: ProxyConfigView) -> bool {
    &&& proxy_url_accepted(proxy.url())
    &&& proxy.auth is Some ==> !url_has_host(proxy.url()) || url_takes_userinfo(proxy.url())
}

/// `ConfigurationRestApi::builder()`, given the key, the secret and, where
/// one is set, the proxy, then `build()`. While it builds the HTTP client
/// the SDK writes the proxy's URL as scheme (`http` where no protocol is
/// set), `://`, host, `:` and port, hands it to `reqwest::Proxy::all`, and
/// panics where that refuses; it then calls `basic_auth` with the
/// credentials, which panics where the URL does not take them: such a proxy
/// is left out. (The SDK also panics when the HTTP client's TLS backend
/// cannot start, which no argument decides.) Whether a configuration comes
/// back rests on what the builder was given; one that comes back holds the
/// key, the secret and the proxy, each field as it was given.
#[verifier::external_body]
pub(crate) fn rest_configuration(key: &Key, proxy: &Option<ProxyConfig>) -> (res: Result<
    ConfigurationRestApi,
    ConfigBuildError,
>)
    requires
        proxy matches Some(p) ==> proxy_usable(p@),
    ensures
        res is Ok <==> sdk_configures(key@, proxy_view(*proxy)),
        res matches Ok(conf) ==> configured_key(conf) == key@ && configured_proxy(conf)
            == proxy_view(*proxy),
{
    let auth = proxy.as_ref().and_then(|p| p.auth.as_ref());
    let auth = auth.map(|a| SdkProxyAuth { username: a.username.clone(), password: a.password.clone() });
    let builder = ConfigurationRestApi::builder().api_key(key.api_key.clone()).api_secret(key.secret.clone());
    match proxy {
        None => builder.build(),
        Some(p) => {
            let (host, port, protocol) = (p.host.clone(), p.port, p.protocol.clone());
            builder.proxy(SdkProxyConfig { host, port, protocol, auth }).build()
        },
    }
}

} // verus!
