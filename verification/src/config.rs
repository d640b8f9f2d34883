//! The sentinel's configuration and its defaults.

use crate::text::{string_from, texts};
use vstd::prelude::*;

verus! {

/// HTTP server and storage settings.
#[derive(Clone, Debug)]
pub struct ServerConfig {
    pub host: String,
    pub port: u16,
    pub polling_interval_ms: u64,
    pub db_path: String,
    pub history_retention_days: u32,
    /// Whether the API may shut down or reboot the host.
    pub enable_shutdown: bool,
}

/// Electricity settings. The price per kWh is a fractional number and is
/// kept by the caller next to this configuration.
#[derive(Clone, Debug)]
pub struct PowerConfig {
    pub currency_symbol: String,
}

/// Interface name prefixes that tell local links from VPN links.
#[derive(Clone, Debug)]
pub struct NetworkConfig {
    pub lan_interfaces: Vec<String>,
    pub vpn_interfaces: Vec<String>,
}

/// A link to a self-hosted application, shown on the dashboard.
#[derive(Clone, Debug)]
pub struct AppCard {
    pub name: String,
    pub url: String,
    pub description: String,
    pub icon: String,
    pub container: Option<String>,
}

/// Where the Immich photo server is and the key to its API.
#[derive(Clone, Debug)]
pub struct ImmichConfig {
    pub url: String,
    pub api_key: String,
}

/// The whole configuration.
#[derive(Clone, Debug)]
pub struct Config {
    pub server: ServerConfig,
    pub power: PowerConfig,
    pub network: NetworkConfig,
    pub apps: Vec<AppCard>,
    pub immich: Option<ImmichConfig>,
}

/// The default listening address, `0.0.0.0`.
pub fn default_host() -> (s: String)
    ensures
        s@ == "0.0.0.0"@,
{
    string_from("0.0.0.0")
}

/// The default listening port, 8080.
pub fn default_port() -> (p: u16)
    ensures
        p == 8080,
{
    8080
}

/// The default polling interval, 1000 ms.
pub fn default_interval() -> (ms: u64)
    ensures
        ms == 1000,
{
    1000
}

/// The default database file, `shao.db`.
pub fn default_db_path() -> (s: String)
    ensures
        s@ == "shao.db"@,
{
    string_from("shao.db")
}

/// The default history retention, 7 days.
pub fn default_retention_days() -> (d: u32)
    ensures
        d == 7,
{
    7
}

/// The default currency symbol, `$`.
pub fn default_currency() -> (s: String)
    ensures
        s@ == "$"@,
{
    string_from("$")
}

/// The default application icon, `globe`.
pub fn default_icon() -> (s: String)
    ensures
        s@ == "globe"@,
{
    string_from("globe")
}

/// The default LAN prefixes: `enp2s0`, `eth0`, `wlp3s0`, `wlan0`, `en0`.
pub open spec fn default_lan_texts() -> Seq<Seq<char>> {
    seq!["enp2s0"@, "eth0"@, "wlp3s0"@, "wlan0"@, "en0"@]
}

/// The default VPN prefixes: `tailscale0`, `wg0`, `tun0`, `utun`.
pub open spec fn default_vpn_texts() -> Seq<Seq<char>> {
    seq!["tailscale0"@, "wg0"@, "tun0"@, "utun"@]
}

/// The default LAN interface prefixes.
pub fn default_lan_interfaces() -> (v: Vec<String>)
    ensures
        texts(v@) == default_lan_texts(),
{
    let mut v: Vec<String> = Vec::new();
    v.push(string_from("enp2s0"));
    v.push(string_from("eth0"));
    v.push(string_from("wlp3s0"));
    v.push(string_from("wlan0"));
    v.push(string_from("en0"));
    assert(texts(v@) =~= default_lan_texts());
    v
}

/// The default VPN interface prefixes.
pub fn default_vpn_interfaces() -> (v: Vec<String>)
    ensures
        texts(v@) == default_vpn_texts(),
{
    let mut v: Vec<String> = Vec::new();
    v.push(string_from("tailscale0"));
    v.push(string_from("wg0"));
    v.push(string_from("tun0"));
    v.push(string_from("utun"));
    assert(texts(v@) =~= default_vpn_texts());
    v
}

/// `s` holds the default server settings.
pub open spec fn is_default_server(s: ServerConfig) -> bool {
    &&& s.host@ == "0.0.0.0"@
    &&& s.port == 8080
    &&& s.polling_interval_ms == 1000
    &&& s.db_path@ == "shao.db"@
    &&& s.history_retention_days == 7
    &&& s.enable_shutdown
}

/// `p` holds the default power settings.
pub open spec fn is_default_power(p: PowerConfig) -> bool {
    p.currency_symbol@ == "$"@
}

/// `n` holds the default network settings.
pub open spec fn is_default_network(n: NetworkConfig) -> bool {
    &&& texts(n.lan_interfaces@) == default_lan_texts()
    &&& texts(n.vpn_interfaces@) == default_vpn_texts()
}

/// `a` is the card with the given fields.
pub open spec fn card_is(
    a: AppCard,
    name: Seq<char>,
    url: Seq<char>,
    description: Seq<char>,
    icon: Seq<char>,
    container: Option<Seq<char>>,
) -> bool {
    &&& a.name@ == name
    &&& a.url@ == url
    &&& a.description@ == description
    &&& a.icon@ == icon
    &&& match (a.container, container) {
        (Some(c), Some(d)) => c@ == d,
        (None, None) => true,
        _ => false,
    }
}

/// `apps` are the default cards: Immich, Dockge and Tailscale.
pub open spec fn is_default_apps(apps: Seq<AppCard>) -> bool {
    &&& apps.len() == 3
    &&& card_is(
        apps[0],
        "Immich"@,
        "http://192.168.1.1:2283"@,
        "Photo & Video Backup Server"@,
        "image"@,
        Some("immich_server"@),
    )
    &&& card_is(
        apps[1],
        "Dockge"@,
        "http://192.168.1.1:5001"@,
        "Docker Compose Stack Manager"@,
        "layers"@,
        Some("dockge"@),
    )
    &&& card_is(
        apps[2],
        "Tailscale"@,
        "https://login.tailscale.com/admin/machines"@,
        "Encrypted Mesh VPN"@,
        "shield"@,
        None,
    )
}

/// `c` is the default configuration.
pub open spec fn is_default_config(c: Config) -> bool {
    &&& is_default_server(c.server)
    &&& is_default_power(c.power)
    &&& is_default_network(c.network)
    &&& is_default_apps(c.apps@)
    &&& c.immich is None
}

impl Default for ServerConfig {
    fn default() -> (s: Self)
        ensures
            is_default_server(s),
    {
        ServerConfig {
            host: default_host(),
            port: default_port(),
            polling_interval_ms: default_interval(),
            db_path: default_db_path(),
            history_retention_days: default_retention_days(),
            enable_shutdown: true,
        }
    }
}

impl Default for PowerConfig {
    fn default() -> (p: Self)
        ensures
            is_default_power(p),
    {
        PowerConfig { currency_symbol: default_currency() }
    }
}

impl Default for NetworkConfig {
    fn default() -> (n: Self)
        ensures
            is_default_network(n),
    {
        NetworkConfig {
            lan_interfaces: default_lan_interfaces(),
            vpn_interfaces: default_vpn_interfaces(),
        }
    }
}

impl Default for Config {
    fn default() -> (c: Self)
        ensures
            is_default_config(c),
    {
        let mut apps: Vec<AppCard> = Vec::new();
        apps.push(
            AppCard {
                name: string_from("Immich"),
                url: string_from("http://192.168.1.1:2283"),
                description: string_from("Photo & Video Backup Server"),
                icon: string_from("image"),
                container: Some(string_from("immich_server")),
            },
        );
        apps.push(
            AppCard {
                name: string_from("Dockge"),
                url: string_from("http://192.168.1.1:5001"),
                description: string_from("Docker Compose Stack Manager"),
                icon: string_from("layers"),
                container: Some(string_from("dockge")),
            },
        );
        apps.push(
            AppCard {
                name: string_from("Tailscale"),
                url: string_from("https://login.tailscale.com/admin/machines"),
                description: string_from("Encrypted Mesh VPN"),
                icon: string_from("shield"),
                container: None,
            },
        );
        Config {
            server: ServerConfig::default(),
            power: PowerConfig::default(),
            network: NetworkConfig::default(),
            apps,
            immich: None,
        }
    }
}

impl Config {
    /// The configuration read from a file when there is one that parsed
    /// (`parsed`), else the default configuration.
    pub fn load_or_default(parsed: Option<Config>) -> (c: Config)
        ensures
            parsed matches Some(p) ==> c == p,
            parsed is None ==> is_default_config(c),
    {
        match parsed {
            Some(p) => p,
            None => Config::default(),
        }
    }
}

} // verus!
