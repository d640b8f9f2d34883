use shao::config::{
    default_currency, default_db_path, default_host, default_icon, default_interval,
    default_lan_interfaces, default_port, default_retention_days, default_vpn_interfaces, Config,
};

#[test]
fn defaults() {
    assert_eq!(default_host(), "0.0.0.0");
    assert_eq!(default_port(), 8080);
    assert_eq!(default_interval(), 1000);
    assert_eq!(default_db_path(), "shao.db");
    assert_eq!(default_retention_days(), 7);
    assert_eq!(default_currency(), "$");
    assert_eq!(default_icon(), "globe");
    assert_eq!(default_lan_interfaces(), vec!["enp2s0", "eth0", "wlp3s0", "wlan0", "en0"]);
    assert_eq!(default_vpn_interfaces(), vec!["tailscale0", "wg0", "tun0", "utun"]);
}

#[test]
fn default_config() {
    let c = Config::default();
    assert_eq!(c.server.host, "0.0.0.0");
    assert_eq!(c.server.port, 8080);
    assert_eq!(c.server.history_retention_days, 7);
    assert!(c.server.enable_shutdown);
    assert_eq!(c.power.currency_symbol, "$");
    assert_eq!(c.apps.len(), 3);
    assert_eq!(c.apps[0].name, "Immich");
    assert_eq!(c.apps[0].container.as_deref(), Some("immich_server"));
    assert_eq!(c.apps[1].url, "http://192.168.1.1:5001");
    assert_eq!(c.apps[2].icon, "shield");
    assert!(c.apps[2].container.is_none());
    assert!(c.immich.is_none());
}

#[test]
fn load_or_default_keeps_parsed() {
    let mut parsed = Config::default();
    parsed.server.port = 9999;
    let c = Config::load_or_default(Some(parsed));
    assert_eq!(c.server.port, 9999);
    let d = Config::load_or_default(None);
    assert_eq!(d.server.port, 8080);
}
