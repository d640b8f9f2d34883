use shao::collector::{glacier_status, polling_interval_ms, CollectorSchedule};
use shao::config::Config;
use shao::db::{history_start, prune_cutoff};
use shao::immich::{ImmichStats, RawImmichStats};

#[test]
fn polling_interval_floor() {
    let mut c = Config::default();
    assert_eq!(polling_interval_ms(&c.server), 1000);
    c.server.polling_interval_ms = 100;
    assert_eq!(polling_interval_ms(&c.server), 250);
}

#[test]
fn tick_schedule() {
    let mut s = CollectorSchedule::new();
    let mut fetch_ticks = Vec::new();
    let mut prune_ticks = Vec::new();
    for _ in 0..14400 {
        let p = s.begin_tick();
        if p.fetch_immich {
            fetch_ticks.push(s.tick_count);
        }
        if p.prune_history {
            prune_ticks.push(s.tick_count);
        }
    }
    assert_eq!(&fetch_ticks[..3], &[1, 11, 21]);
    assert_eq!(prune_ticks, vec![7200, 14400]);
}

#[test]
fn immich_cache_kept_on_failure() {
    let mut s = CollectorSchedule::new();
    let stats = ImmichStats::from_raw(RawImmichStats { photos: 1, videos: 1, usage: 1, usage_by_user: None });
    s.record_immich(Some(stats));
    s.record_immich(None);
    assert_eq!(s.cached_immich.as_ref().map(|x| x.total_assets), Some(2));
}

#[test]
fn glacier_status_default() {
    assert_eq!(glacier_status(None), "offline");
    assert_eq!(glacier_status(Some("busy".into())), "busy");
}

#[test]
fn history_windows() {
    assert_eq!(history_start(1_700_000_000, 3600), 1_699_996_400);
    assert_eq!(prune_cutoff(1_700_000_000, 7), 1_700_000_000 - 7 * 86400);
}
