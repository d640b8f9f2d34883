//! Telemetry computed from raw kernel and sensor readings.

pub mod cpu;
pub mod disk;
pub mod network;
pub mod power;
pub mod thermals;

use crate::text::{decimal, push_decimal, push_str, string_from};
use vstd::prelude::*;

verus! {

/// The host's identity and uptime.
#[derive(Clone, Debug)]
pub struct SystemSummary {
    pub hostname: String,
    pub os_name: String,
    pub os_version: String,
    pub uptime_seconds: u64,
    pub uptime_human: String,
}

/// Uptime in whole days, hours and minutes: `2d 3h 4m`, or `3h 4m` under a
/// day, or `4m` under an hour.
pub open spec fn uptime_text(u: nat) -> Seq<char> {
    let days = u / 86400;
    let hours = (u % 86400) / 3600;
    let mins = (u % 3600) / 60;
    if days > 0 {
        decimal(days) + "d "@ + decimal(hours) + "h "@ + decimal(mins) + "m"@
    } else if hours > 0 {
        decimal(hours) + "h "@ + decimal(mins) + "m"@
    } else {
        decimal(mins) + "m"@
    }
}

/// Uptime in whole days, hours and minutes.
pub fn format_uptime(uptime: u64) -> (s: String)
    ensures
        s@ == uptime_text(uptime as nat),
{
    let days = uptime / 86400;
    let hours = (uptime % 86400) / 3600;
    let mins = (uptime % 3600) / 60;
    let mut s = String::new();
    if days > 0 {
        push_decimal(&mut s, days);
        push_str(&mut s, "d ");
        push_decimal(&mut s, hours);
        push_str(&mut s, "h ");
    } else if hours > 0 {
        push_decimal(&mut s, hours);
        push_str(&mut s, "h ");
    }
    push_decimal(&mut s, mins);
    push_str(&mut s, "m");
    s
}

/// The parts of an uptime text account for the uptime to the minute.
pub proof fn law_uptime_parts(u: nat)
    ensures
        (u % 86400) / 3600 < 24,
        (u % 3600) / 60 < 60,
        (u / 86400) * 86400 + ((u % 86400) / 3600) * 3600 + ((u % 3600) / 60) * 60 <= u,
        u < (u / 86400) * 86400 + ((u % 86400) / 3600) * 3600 + ((u % 3600) / 60) * 60 + 60,
{
    let d = u / 86400;
    let r = u % 86400;
    let h = r / 3600;
    let m = (u % 3600) / 60;
    assert(u == d * 86400 + r && r < 86400) by (nonlinear_arith)
        requires
            d == u / 86400,
            r == u % 86400,
    {
    }
    assert(r == h * 3600 + r % 3600 && r % 3600 < 3600) by (nonlinear_arith)
        requires
            h == r / 3600,
    {
    }
    assert(u % 3600 == r % 3600) by (nonlinear_arith)
        requires
            u == d * 86400 + r,
            r >= 0,
    {
        assert(86400 == 24 * 3600);
        assert(u == (d * 24) * 3600 + r);
        vstd::arithmetic::div_mod::lemma_mod_multiples_vanish((d * 24) as int, r as int, 3600);
    }
    let s = u % 3600;
    assert(s == m * 60 + s % 60 && s % 60 < 60) by (nonlinear_arith)
        requires
            m == s / 60,
    {
    }
    assert(h < 24) by (nonlinear_arith)
        requires
            h == r / 3600,
            r < 86400,
    {
    }
}

/// The uptime text reads back as the uptime: it shows days, hours (under
/// 24) and minutes (under 60), leaving out leading zero parts, whose sum
/// falls within the minute that the uptime is in.
pub proof fn law_uptime_text_reads_back(u: nat)
    ensures
        exists|d: nat, h: nat, m: nat|
            #![trigger decimal(d), decimal(h), decimal(m)]
            h < 24 && m < 60 && d * 86400 + h * 3600 + m * 60 <= u && u < d * 86400 + h
                * 3600 + m * 60 + 60 && uptime_text(u) == (if d > 0 {
                decimal(d) + "d "@ + decimal(h) + "h "@ + decimal(m) + "m"@
            } else if h > 0 {
                decimal(h) + "h "@ + decimal(m) + "m"@
            } else {
                decimal(m) + "m"@
            }),
{
    law_uptime_parts(u);
    let d = u / 86400;
    let h = (u % 86400) / 3600;
    let m = (u % 3600) / 60;
    assert(h < 24 && m < 60 && d * 86400 + h * 3600 + m * 60 <= u && u < d * 86400 + h * 3600
        + m * 60 + 60 && uptime_text(u) == (if d > 0 {
        decimal(d) + "d "@ + decimal(h) + "h "@ + decimal(m) + "m"@
    } else if h > 0 {
        decimal(h) + "h "@ + decimal(m) + "m"@
    } else {
        decimal(m) + "m"@
    }));
}

impl SystemSummary {
    /// The summary of a host: its name (`linux-server` when unknown), the
    /// OS name (`Linux` when unknown) and version (empty when unknown), and
    /// the uptime in seconds and as text.
    pub fn new(
        host_name: Option<String>,
        os_name: Option<String>,
        os_version: Option<String>,
        uptime_seconds: u64,
    ) -> (s: SystemSummary)
        ensures
            s.hostname@ == (match host_name {
                Some(h) => h@,
                None => "linux-server"@,
            }),
            s.os_name@ == (match os_name {
                Some(n) => n@,
                None => "Linux"@,
            }),
            s.os_version@ == (match os_version {
                Some(v) => v@,
                None => Seq::<char>::empty(),
            }),
            s.uptime_seconds == uptime_seconds,
            s.uptime_human@ == uptime_text(uptime_seconds as nat),
    {
        let hostname = match host_name {
            Some(h) => h,
            None => string_from("linux-server"),
        };
        let os_name = match os_name {
            Some(n) => n,
            None => string_from("Linux"),
        };
        let os_version = match os_version {
            Some(v) => v,
            None => String::new(),
        };
        SystemSummary {
            hostname,
            os_name,
            os_version,
            uptime_seconds,
            uptime_human: format_uptime(uptime_seconds),
        }
    }
}

} // verus!
