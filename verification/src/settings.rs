//! The gateway's settings: where it listens, and the proxy, if any, that
//! every client of the exchange goes through.

use crate::source::{
    config_holds, config_port, config_ports, config_string, config_strings, config_values,
};
use crate::text::{decimal, decimal_string, text_view};
use config::Config;
use vstd::prelude::*;
use vstd::string::StringExecFns;

verus! {

/// Where the gateway listens.
pub struct ServerConfig {
    pub host: String,
    pub port: u16,
}

/// The credentials that a proxy asks for.
pub struct ProxyAuth {
    pub username: String,
    pub password: String,
}

/// The proxy that every client is built with.
pub struct ProxyConfig {
    pub host: String,
    pub port: u16,
    pub protocol: Option<String>,
    pub auth: Option<ProxyAuth>,
}

/// All settings of one gateway process.
pub struct AppConfig {
    pub server: ServerConfig,
    pub proxy: Option<ProxyConfig>,
}

pub struct ServerConfigView {
    pub host: Seq<char>,
    pub port: u16,
}

pub struct ProxyAuthView {
    pub username: Seq<char>,
    pub password: Seq<char>,
}

pub struct ProxyConfigView {
    pub host: Seq<char>,
    pub port: u16,
    pub protocol: Option<Seq<char>>,
    pub auth: Option<ProxyAuthView>,
}

pub struct AppConfigView {
    pub server: ServerConfigView,
    pub proxy: Option<ProxyConfigView>,
}

impl View for ServerConfig {
    type V = ServerConfigView;

    open spec fn view(&self) -> ServerConfigView {
        ServerConfigView { host: self.host@, port: self.port }
    }
}

impl View for ProxyAuth {
    type V = ProxyAuthView;

    open spec fn view(&self) -> ProxyAuthView {
        ProxyAuthView { username: self.username@, password: self.password@ }
    }
}

/// The view of optional proxy credentials.
pub open spec fn auth_view(auth: Option<ProxyAuth>) -> Option<ProxyAuthView> {
    match auth {
        Some(a) => Some(a@),
        None => None,
    }
}

/// The view of an optional proxy.
pub open spec fn proxy_view(proxy: Option<ProxyConfig>) -> Option<ProxyConfigView> {
    match proxy {
        Some(p) => Some(p@),
        None => None,
    }
}

impl View for ProxyConfig {
    type V = ProxyConfigView;

    open spec fn view(&self) -> ProxyConfigView {
        ProxyConfigView {
            host: self.host@,
            port: self.port,
            protocol: text_view(self.protocol),
            auth: auth_view(self.auth),
        }
    }
}

impl View for AppConfig {
    type V = AppConfigView;

    open spec fn view(&self) -> AppConfigView {
        AppConfigView { server: self.server@, proxy: proxy_view(self.proxy) }
    }
}

impl ProxyConfigView {
    /// The scheme of the proxy's URL: the protocol, `http` where none is set.
    pub open spec fn scheme(self) -> Seq<char> {
        match self.protocol {
            Some(p) => p,
            None => seq!['h', 't', 't', 'p'],
        }
    }

    /// The proxy's URL: scheme, `://`, host, `:`, and the port in decimal.
    pub open spec fn url(self) -> Seq<char> {
        self.scheme() + seq![':', '/', '/'] + self.host + seq![':'] + decimal(self.port as nat)
    }
}

impl Clone for ServerConfig {
    fn clone(&self) -> (res: Self)
        ensures
            res@ == self@,
    {
        ServerConfig { host: self.host.clone(), port: self.port }
    }
}

impl Clone for ProxyAuth {
    fn clone(&self) -> (res: Self)
        ensures
            res@ == self@,
    {
        ProxyAuth { username: self.username.clone(), password: self.password.clone() }
    }
}

impl Clone for ProxyConfig {
    fn clone(&self) -> (res: Self)
        ensures
            res@ == self@,
    {
        let protocol = match &self.protocol {
            Some(p) => Some(p.clone()),
            None => None,
        };
        let auth = match &self.auth {
            Some(a) => Some(a.clone()),
            None => None,
        };
        ProxyConfig { host: self.host.clone(), port: self.port, protocol, auth }
    }
}

impl Clone for AppConfig {
    fn clone(&self) -> (res: Self)
        ensures
            res@ == self@,
    {
        let proxy = match &self.proxy {
            Some(p) => Some(p.clone()),
            None => None,
        };
        AppConfig { server: self.server.clone(), proxy }
    }
}

impl ServerConfig {
    /// Where to listen: on every interface, at the configured port. The
    /// configured host is not what the gateway binds to.
    pub fn bind_address(&self) -> (res: (&'static str, u16))
        ensures
            res.0@ == seq![':', ':'],
            res.1 == self.port,
    {
        proof {
            reveal_strlit("::");
        }
        let host = "::";
        assert(host@ =~= seq![':', ':']);
        (host, self.port)
    }
}

impl ProxyConfig {
    /// The URL under which the proxy is reached.
    pub fn url(&self) -> (res: String)
        ensures
            res@ == self@.url(),
    {
        proof {
            reveal_strlit("http");
            reveal_strlit("://");
            reveal_strlit(":");
        }
        let mut url = match &self.protocol {
            Some(p) => p.clone(),
            None => String::from_str("http"),
        };
        assert(url@ =~= self@.scheme());
        url.append("://");
        url.append(self.host.as_str());
        url.append(":");
        let port = decimal_string(self.port);
        url.append(port.as_str());
        assert(url@ =~= self@.url());
        url
    }
}

/// A setting that `load_config` asks for by name.
#[derive(Debug, Clone, Copy, PartialEq, Eq)]
pub enum Setting {
    ServerHost,
    ServerPort,
    ProxyHost,
    ProxyPort,
    ProxyProtocol,
    ProxyUsername,
    ProxyPassword,
}

impl Setting {
    /// The key path of the setting.
    pub open spec fn key(self) -> Seq<char> {
        match self {
            Setting::ServerHost => "server.host"@,
            Setting::ServerPort => "server.port"@,
            Setting::ProxyHost => "proxy.host"@,
            Setting::ProxyPort => "proxy.port"@,
            Setting::ProxyProtocol => "proxy.protocol"@,
            Setting::ProxyUsername => "proxy.auth.username"@,
            Setting::ProxyPassword => "proxy.auth.password"@,
        }
    }

    /// The key path of the setting.
    pub fn path(&self) -> (res: &'static str)
        ensures
            res@ == self.key(),
    {
        match self {
            Setting::ServerHost => "server.host",
            Setting::ServerPort => "server.port",
            Setting::ProxyHost => "proxy.host",
            Setting::ProxyPort => "proxy.port",
            Setting::ProxyProtocol => "proxy.protocol",
            Setting::ProxyUsername => "proxy.auth.username",
            Setting::ProxyPassword => "proxy.auth.password",
        }
    }
}

/// Why settings could not be loaded.
#[derive(Debug, Clone, Copy, PartialEq, Eq)]
pub enum SettingsError {
    /// A setting that must be there is not, or is not of its kind: a text
    /// that is a table or a list, a port that is no number from 0 to 65535.
    Missing(Setting),
}

impl SettingsError {
    /// What to tell the operator: the fixed text, then the key path of the
    /// setting.
    pub fn message(&self) -> (res: String)
        ensures
            self matches SettingsError::Missing(setting) && res@
                == "missing or invalid setting: "@ + setting.key(),
    {
        match self {
            SettingsError::Missing(setting) => {
                let mut text = String::from_str("missing or invalid setting: ");
                text.append(setting.path());
                text
            },
        }
    }
}

/// The settings as they were found, each under its key: whether a proxy and
/// proxy credentials are set at all, the texts, and the ports.
pub struct RawSettings {
    pub server_host: Option<String>,
    pub server_port: Option<u16>,
    pub proxy_set: bool,
    pub proxy_host: Option<String>,
    pub proxy_port: Option<u16>,
    pub proxy_protocol_set: bool,
    pub proxy_protocol: Option<String>,
    pub proxy_auth_set: bool,
    pub proxy_username: Option<String>,
    pub proxy_password: Option<String>,
}

pub struct RawSettingsView {
    pub server_host: Option<Seq<char>>,
    pub server_port: Option<u16>,
    pub proxy_set: bool,
    pub proxy_host: Option<Seq<char>>,
    pub proxy_port: Option<u16>,
    pub proxy_protocol_set: bool,
    pub proxy_protocol: Option<Seq<char>>,
    pub proxy_auth_set: bool,
    pub proxy_username: Option<Seq<char>>,
    pub proxy_password: Option<Seq<char>>,
}

impl View for RawSettings {
    type V = RawSettingsView;

    open spec fn view(&self) -> RawSettingsView {
        RawSettingsView {
            server_host: text_view(self.server_host),
            server_port: self.server_port,
            proxy_set: self.proxy_set,
            proxy_host: text_view(self.proxy_host),
            proxy_port: self.proxy_port,
            proxy_protocol_set: self.proxy_protocol_set,
            proxy_protocol: text_view(self.proxy_protocol),
            proxy_auth_set: self.proxy_auth_set,
            proxy_username: text_view(self.proxy_username),
            proxy_password: text_view(self.proxy_password),
        }
    }
}

/// A setting that must be there.
pub open spec fn required<A>(found: Option<A>, which: Setting) -> Result<A, SettingsError> {
    match found {
        Some(value) => Ok(value),
        None => Err(SettingsError::Missing(which)),
    }
}

impl RawSettingsView {
    /// The proxy's protocol: none where none is set, else it must be text.
    pub open spec fn protocol(self) -> Result<Option<Seq<char>>, SettingsError> {
        if !self.proxy_protocol_set {
            Ok(None)
        } else {
            match required(self.proxy_protocol, Setting::ProxyProtocol) {
                Err(e) => Err(e),
                Ok(protocol) => Ok(Some(protocol)),
            }
        }
    }

    /// The proxy's credentials: none where none are set, else both are
    /// asked for, the user name first.
    pub open spec fn auth(self) -> Result<Option<ProxyAuthView>, SettingsError> {
        if !self.proxy_auth_set {
            Ok(None)
        } else {
            match required(self.proxy_username, Setting::ProxyUsername) {
                Err(e) => Err(e),
                Ok(username) => match required(self.proxy_password, Setting::ProxyPassword) {
                    Err(e) => Err(e),
                    Ok(password) => Ok(Some(ProxyAuthView { username, password })),
                },
            }
        }
    }

    /// The proxy: none where none is set, else host and port are asked for,
    /// in this order, then the protocol and the credentials.
    pub open spec fn proxy(self) -> Result<Option<ProxyConfigView>, SettingsError> {
        if !self.proxy_set {
            Ok(None)
        } else {
            match required(self.proxy_host, Setting::ProxyHost) {
                Err(e) => Err(e),
                Ok(host) => match required(self.proxy_port, Setting::ProxyPort) {
                    Err(e) => Err(e),
                    Ok(port) => match self.protocol() {
                        Err(e) => Err(e),
                        Ok(protocol) => match self.auth() {
                            Err(e) => Err(e),
                            Ok(auth) => Ok(Some(ProxyConfigView { host, port, protocol, auth })),
                        },
                    },
                },
            }
        }
    }

    /// Where the gateway listens: host and port are asked for, in this
    /// order.
    pub open spec fn server(self) -> Result<ServerConfigView, SettingsError> {
        match required(self.server_host, Setting::ServerHost) {
            Err(e) => Err(e),
            Ok(host) => match required(self.server_port, Setting::ServerPort) {
                Err(e) => Err(e),
                Ok(port) => Ok(ServerConfigView { host, port }),
            },
        }
    }

    /// The settings that these make: the server's, then the proxy's; the
    /// first that fails is the error.
    pub open spec fn app_config(self) -> Result<AppConfigView, SettingsError> {
        match self.server() {
            Err(e) => Err(e),
            Ok(server) => match self.proxy() {
                Err(e) => Err(e),
                Ok(proxy) => Ok(AppConfigView { server, proxy }),
            },
        }
    }
}

/// What is found under `key`, if anything.
pub open spec fn found<A>(settings: Map<Seq<char>, A>, key: Seq<char>) -> Option<A> {
    if settings.contains_key(key) {
        Some(settings[key])
    } else {
        None
    }
}

/// The settings that `load_config` asks for, each under its key. A proxy is
/// set where anything but nil is under `proxy`; so for its protocol and for
/// its credentials, under `proxy.auth`.
pub open spec fn raw_settings(
    values: Set<Seq<char>>,
    strings: Map<Seq<char>, Seq<char>>,
    ports: Map<Seq<char>, u16>,
) -> RawSettingsView {
    RawSettingsView {
        server_host: found(strings, Setting::ServerHost.key()),
        server_port: found(ports, Setting::ServerPort.key()),
        proxy_set: values.contains("proxy"@),
        proxy_host: found(strings, Setting::ProxyHost.key()),
        proxy_port: found(ports, Setting::ProxyPort.key()),
        proxy_protocol_set: values.contains(Setting::ProxyProtocol.key()),
        proxy_protocol: found(strings, Setting::ProxyProtocol.key()),
        proxy_auth_set: values.contains("proxy.auth"@),
        proxy_username: found(strings, Setting::ProxyUsername.key()),
        proxy_password: found(strings, Setting::ProxyPassword.key()),
    }
}

fn need<A>(found: Option<A>, which: Setting) -> (res: Result<A, SettingsError>)
    ensures
        res == required(found, which),
{
    match found {
        Some(value) => Ok(value),
        None => Err(SettingsError::Missing(which)),
    }
}

fn need_text(found: Option<String>, which: Setting) -> (res: Result<String, SettingsError>)
    ensures
        match res {
            Ok(text) => required(text_view(found), which) == Ok::<_, SettingsError>(text@),
            Err(e) => required(text_view(found), which) == Err::<Seq<char>, _>(e),
        },
{
    match found {
        Some(text) => Ok(text),
        None => Err(SettingsError::Missing(which)),
    }
}

impl AppConfig {
    /// The settings that `raw` makes, or the first of them that is missing.
    pub fn from_raw(raw: RawSettings) -> (res: Result<AppConfig, SettingsError>)
        ensures
            match res {
                Ok(settings) => raw@.app_config() == Ok::<_, SettingsError>(settings@),
                Err(e) => raw@.app_config() == Err::<AppConfigView, _>(e),
            },
    {
        let ghost all = raw@;
        let host = match need_text(raw.server_host, Setting::ServerHost) {
            Ok(host) => host,
            Err(e) => {
                return Err(e);
            },
        };
        let server = match need(raw.server_port, Setting::ServerPort) {
            Ok(port) => ServerConfig { host, port },
            Err(e) => {
                return Err(e);
            },
        };
        assert(all.server() == Ok::<_, SettingsError>(server@));
        if !raw.proxy_set {
            return Ok(AppConfig { server, proxy: None });
        }
        let proxy_host = match need_text(raw.proxy_host, Setting::ProxyHost) {
            Ok(host) => host,
            Err(e) => {
                return Err(e);
            },
        };
        let proxy_port = match need(raw.proxy_port, Setting::ProxyPort) {
            Ok(port) => port,
            Err(e) => {
                return Err(e);
            },
        };
        let protocol = if raw.proxy_protocol_set {
            match need_text(raw.proxy_protocol, Setting::ProxyProtocol) {
                Ok(protocol) => Some(protocol),
                Err(e) => {
                    return Err(e);
                },
            }
        } else {
            None
        };
        assert(all.protocol() == Ok::<_, SettingsError>(text_view(protocol)));
        let auth = if raw.proxy_auth_set {
            let username = match need_text(raw.proxy_username, Setting::ProxyUsername) {
                Ok(username) => username,
                Err(e) => {
                    return Err(e);
                },
            };
            match need_text(raw.proxy_password, Setting::ProxyPassword) {
                Ok(password) => Some(ProxyAuth { username, password }),
                Err(e) => {
                    return Err(e);
                },
            }
        } else {
            None
        };
        assert(all.auth() == Ok::<_, SettingsError>(auth_view(auth)));
        let proxy = ProxyConfig { host: proxy_host, port: proxy_port, protocol, auth };
        assert(all.proxy() == Ok::<_, SettingsError>(Some(proxy@)));
        Ok(AppConfig { server, proxy: Some(proxy) })
    }
}

/// Loads the gateway's settings from `settings`, in which they were read:
/// `server.host` and `server.port`; and, where `proxy` is set, `proxy.host`
/// and `proxy.port`, `proxy.protocol` if it is set, and, where `proxy.auth`
/// is set, its `username` and `password`.
pub fn load_config(settings: &Config) -> (res: Result<AppConfig, SettingsError>)
    ensures
        match res {
            Ok(loaded) => raw_settings(
                config_values(*settings),
                config_strings(*settings),
                config_ports(*settings),
            ).app_config() == Ok::<_, SettingsError>(loaded@),
            Err(e) => raw_settings(
                config_values(*settings),
                config_strings(*settings),
                config_ports(*settings),
            ).app_config() == Err::<AppConfigView, _>(e),
        },
{
    let raw = RawSettings {
        server_host: config_string(settings, Setting::ServerHost.path()),
        server_port: config_port(settings, Setting::ServerPort.path()),
        proxy_set: config_holds(settings, "proxy"),
        proxy_host: config_string(settings, Setting::ProxyHost.path()),
        proxy_port: config_port(settings, Setting::ProxyPort.path()),
        proxy_protocol_set: config_holds(settings, Setting::ProxyProtocol.path()),
        proxy_protocol: config_string(settings, Setting::ProxyProtocol.path()),
        proxy_auth_set: config_holds(settings, "proxy.auth"),
        proxy_username: config_string(settings, Setting::ProxyUsername.path()),
        proxy_password: config_string(settings, Setting::ProxyPassword.path()),
    };
    assert(raw@ == raw_settings(
        config_values(*settings),
        config_strings(*settings),
        config_ports(*settings),
    ));
    AppConfig::from_raw(raw)
}

} // verus!
