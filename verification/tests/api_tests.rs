use shao::api::{
    asset_path, classify_connection, ping_response, power_request, resolve_client_ip,
    static_reply, HistoryQuery, PingQuery, StaticReply,
};
use shao::config::Config;
use shao::system::PowerAction;

#[test]
fn test_shutdown_endpoint_when_disabled() {
    let mut config = Config::default();
    config.server.enable_shutdown = false;
    let o = power_request(&config.server, PowerAction::Shutdown);
    assert_eq!(o.status_code, 403);
    assert!(!o.execute);
    assert!(!o.response.success);
    assert_eq!(o.response.message, "Shutdown is disabled in server configuration");
}

#[test]
fn test_reboot_endpoint_when_disabled() {
    let mut config = Config::default();
    config.server.enable_shutdown = false;
    let o = power_request(&config.server, PowerAction::Reboot);
    assert_eq!(o.status_code, 403);
    assert!(!o.execute);
    assert_eq!(o.response.message, "Reboot is disabled in server configuration");
}

#[test]
fn test_shutdown_endpoint_when_enabled() {
    let config = Config::default();
    let o = power_request(&config.server, PowerAction::Shutdown);
    assert_eq!(o.status_code, 200);
    assert!(o.execute);
    assert!(o.response.success);
    assert_eq!(o.response.message, "Server shutdown sequence initiated");
}

#[test]
fn test_reboot_endpoint_when_enabled() {
    let config = Config::default();
    let o = power_request(&config.server, PowerAction::Reboot);
    assert_eq!(o.status_code, 200);
    assert!(o.execute);
    assert_eq!(o.response.message, "Server reboot sequence initiated");
}

#[test]
fn test_get_config_includes_shutdown_flag() {
    let config = Config::default();
    assert!(config.server.enable_shutdown);
}

#[test]
fn test_ping_endpoint() {
    let q = PingQuery { client_net: None };
    let r = ping_response(42, None, None, None, None, &q);
    assert_eq!(r.status, "ok");
    assert_eq!(r.server_time_ms, 42);
    assert_eq!(r.client_ip, "127.0.0.1");
    assert_eq!(r.connection_type, "loopback");
    assert_eq!(r.route, "Localhost Loopback");
}

#[test]
fn client_ip_sources_in_order() {
    assert_eq!(
        resolve_client_ip(Some("10.0.0.9".into()), Some("1.1.1.1".into()), None),
        "10.0.0.9"
    );
    assert_eq!(resolve_client_ip(None, Some(" 1.2.3.4 , 5.6.7.8".into()), None), "1.2.3.4");
    assert_eq!(resolve_client_ip(None, None, Some("  9.9.9.9 ".into())), "9.9.9.9");
    assert_eq!(resolve_client_ip(None, None, None), "127.0.0.1");
}

#[test]
fn connection_routes() {
    assert_eq!(classify_connection("::1", "", None), ("loopback", "Localhost Loopback"));
    assert_eq!(classify_connection("8.8.8.8", "localhost:8888", None).0, "loopback");
    assert_eq!(
        classify_connection("100.101.1.2", "", None),
        ("vpn", "Tailscale Mesh VPN (tailscale0)")
    );
    assert_eq!(classify_connection("8.8.8.8", "a456u.tail1234.ts.net", None).0, "vpn");
    assert_eq!(classify_connection("fd7a:115c:a1e0::1", "", None).0, "vpn");
    assert_eq!(
        classify_connection("8.8.8.8", "192.168.1.17:8888", None),
        ("wlan", "Wireless WLAN (wlp3s0)")
    );
    assert_eq!(classify_connection("8.8.8.8", "", Some("wifi")).0, "wlan");
    assert_eq!(
        classify_connection("8.8.8.8", "192.168.1.1:8888", None),
        ("lan", "Wired LAN (enp2s0)")
    );
    assert_eq!(classify_connection("8.8.8.8", "", Some("ethernet")).0, "lan");
    assert_eq!(classify_connection("192.168.1.170", "", None).0, "wlan");
    assert_eq!(classify_connection("192.168.1.5", "", None), ("lan", "Local Home LAN"));
    assert_eq!(classify_connection("172.17.0.1", "", None).0, "lan");
    assert_eq!(classify_connection("8.8.8.8", "example.com", None), ("vpn", "Remote Connection"));
}

#[test]
fn ping_uses_forwarded_address() {
    let q = PingQuery { client_net: Some("wifi".into()) };
    let r = ping_response(1, None, Some("192.168.1.9".into()), None, Some("server:8888".into()), &q);
    assert_eq!(r.client_ip, "192.168.1.9");
    assert_eq!(r.connection_type, "wlan");
}

#[test]
fn history_window() {
    assert_eq!(HistoryQuery { seconds: None }.window_seconds(), 86400);
    assert_eq!(HistoryQuery { seconds: Some(10) }.window_seconds(), 60);
    assert_eq!(HistoryQuery { seconds: Some(3600) }.window_seconds(), 3600);
    assert_eq!(HistoryQuery { seconds: Some(-5) }.window_seconds(), 60);
}

#[test]
fn static_assets() {
    assert_eq!(asset_path("/"), "index.html");
    assert_eq!(asset_path(""), "index.html");
    assert_eq!(asset_path("//js/app.js"), "js/app.js");
    match static_reply("js/app.js", true, true) {
        StaticReply::Serve { path, content_type } => {
            assert_eq!(path, "js/app.js");
            assert_eq!(content_type, "text/javascript");
        }
        StaticReply::NotFound => panic!("expected an asset"),
    }
    match static_reply("style.css", true, false) {
        StaticReply::Serve { content_type, .. } => assert_eq!(content_type, "text/css"),
        StaticReply::NotFound => panic!("expected an asset"),
    }
    match static_reply("README", true, false) {
        StaticReply::Serve { content_type, .. } => {
            assert_eq!(content_type, "application/octet-stream")
        }
        StaticReply::NotFound => panic!("expected an asset"),
    }
    match static_reply("missing/route", false, true) {
        StaticReply::Serve { path, content_type } => {
            assert_eq!(path, "index.html");
            assert_eq!(content_type, "text/html; charset=utf-8");
        }
        StaticReply::NotFound => panic!("expected the index"),
    }
    assert!(matches!(static_reply("x", false, false), StaticReply::NotFound));
}
