//! The collection loop's decisions: how often to sample, when to refresh
//! the Immich figures and when to prune history.

use crate::config::ServerConfig;
use crate::immich::ImmichStats;
use crate::text::string_from;
use vstd::prelude::*;

verus! {

/// The shortest polling interval allowed, in milliseconds.
pub open spec fn min_interval_ms() -> u64 {
    250
}

/// The polling interval: the configured one, but never under 250 ms.
pub fn polling_interval_ms(server: &ServerConfig) -> (ms: u64)
    ensures
        ms == if server.polling_interval_ms < min_interval_ms() {
            min_interval_ms()
        } else {
            server.polling_interval_ms
        },
        ms >= min_interval_ms(),
{
    if server.polling_interval_ms < 250 {
        250
    } else {
        server.polling_interval_ms
    }
}

/// What to do on a tick besides sampling.
#[derive(Clone, Debug)]
pub struct TickPlan {
    /// Refresh the Immich statistics.
    pub fetch_immich: bool,
    /// Delete history older than the retention period.
    pub prune_history: bool,
}

/// The collection loop's state: the ticks so far and the last Immich
/// statistics fetched.
#[derive(Clone, Debug)]
pub struct CollectorSchedule {
    pub tick_count: u64,
    pub cached_immich: Option<ImmichStats>,
}

/// Whether tick `t` refreshes the Immich statistics: the first tick and
/// every tenth after it.
pub open spec fn fetches_immich(t: u64) -> bool {
    t % 10 == 1
}

/// Whether tick `t` prunes history: every 7200th tick.
pub open spec fn prunes_history(t: u64) -> bool {
    t % 7200 == 0
}

impl CollectorSchedule {
    /// The state before the first tick.
    pub fn new() -> (s: Self)
        ensures
            s.tick_count == 0,
            s.cached_immich is None,
    {
        CollectorSchedule { tick_count: 0, cached_immich: None }
    }

    /// Starts the next tick and says what it does.
    pub fn begin_tick(&mut self) -> (p: TickPlan)
        requires
            old(self).tick_count < u64::MAX,
        ensures
            final(self).tick_count == old(self).tick_count + 1,
            final(self).cached_immich == old(self).cached_immich,
            p.fetch_immich == fetches_immich(final(self).tick_count),
            p.prune_history == prunes_history(final(self).tick_count),
    {
        self.tick_count = self.tick_count + 1;
        TickPlan {
            fetch_immich: self.tick_count % 10 == 1,
            prune_history: self.tick_count % 7200 == 0,
        }
    }

    /// Records the outcome of an Immich refresh: new statistics replace the
    /// cached ones; a failed refresh keeps them.
    pub fn record_immich(&mut self, fetched: Option<ImmichStats>)
        ensures
            final(self).tick_count == old(self).tick_count,
            fetched is Some ==> final(self).cached_immich == fetched,
            fetched is None ==> final(self).cached_immich == old(self).cached_immich,
    {
        if fetched.is_some() {
            self.cached_immich = fetched;
        }
    }
}

/// The first tick refreshes the Immich statistics, and so does every tenth
/// tick after a refresh.
pub proof fn law_immich_refresh_period(t: u64)
    requires
        t <= u64::MAX - 10,
    ensures
        fetches_immich(1),
        fetches_immich(t) ==> fetches_immich((t + 10) as u64),
        fetches_immich(t) ==> forall|k: u64| t < k < t + 10 ==> !fetches_immich(k),
{
}

/// The status of the Glacier AI server: what it reported, or `offline`
/// when it could not be reached or reported nothing.
pub fn glacier_status(reported: Option<String>) -> (s: String)
    ensures
        s@ == (match reported {
            Some(r) => r@,
            None => "offline"@,
        }),
{
    match reported {
        Some(r) => r,
        None => string_from("offline"),
    }
}

} // verus!
