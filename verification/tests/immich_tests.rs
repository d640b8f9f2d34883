use shao::immich::{ImmichClient, ImmichStats, RawImmichStats, RawUserUsage};

#[test]
fn endpoint_and_key() {
    let c = ImmichClient::new("http://192.168.1.1:2283//".to_string(), "k3y".to_string());
    assert_eq!(c.endpoint(), "http://192.168.1.1:2283/api/server/statistics");
    assert_eq!(c.api_key(), "k3y");
    let d = ImmichClient::new("http://a".to_string(), String::new());
    assert_eq!(d.endpoint(), "http://a/api/server/statistics");
}

#[test]
fn stats_card() {
    let s = ImmichStats::from_raw(RawImmichStats {
        photos: 10,
        videos: 5,
        usage: 3 * 1073741824 / 2,
        usage_by_user: Some(vec![
            RawUserUsage { user_name: "rh".to_string() },
            RawUserUsage { user_name: "x".to_string() },
        ]),
    });
    assert_eq!(s.total_assets, 15);
    assert_eq!(s.usage_human, "1.5 GB");
    assert_eq!(s.user_name, "rh");
    let t = ImmichStats::from_raw(RawImmichStats { photos: 0, videos: 0, usage: 0, usage_by_user: Some(vec![]) });
    assert_eq!(t.user_name, "User");
    let u = ImmichStats::from_raw(RawImmichStats { photos: 1, videos: 2, usage: 10, usage_by_user: None });
    assert_eq!(u.user_name, "User");
    assert_eq!(u.usage_human, "10.0 B");
}
