//! On-demand resource sampling for one instance.
//!
//! The OS-level sample (CPU load, resident memory, process existence) is
//! taken by the shell and handed in as plain integers; this module owns the
//! arithmetic and the uptime bookkeeping. Uptime is measured from the most
//! recent reset — performed when an instance transitions into Running — so
//! a recovered instance reports uptime since the manager restarted, not
//! since its process truly began. CPU load is computed by the sampler over
//! the interval since its previous sample, so the first sample after a
//! monitor is (re)created may report zero.

use vstd::prelude::*;

use crate::errors::StatsError;
use crate::types::ServerStats;

verus! {

/// Relies on `chrono::Utc::now` and `DateTime::timestamp`: the wall clock,
/// as whole seconds since the Unix epoch. Nothing is promised of the value.
#[verifier::external_body]
pub(crate) fn now_unix_seconds() -> (now: i64) {
    chrono::Utc::now().timestamp()
}

/// A clock reading clamped to the epoch: instants before 1970 are treated
/// as the epoch itself.
pub open spec fn clamp_epoch(t: i64) -> u64 {
    if t < 0 {
        0
    } else {
        t as u64
    }
}

#[derive(Clone, Copy, Debug, PartialEq, Eq, Structural)]
pub struct ServerMonitor {
    /// Clock reading (clamped seconds since the epoch) at the most recent
    /// uptime reset.
    pub started_at: u64,
}

impl ServerMonitor {
    /// A monitor whose uptime baseline is the clock reading `now`.
    pub fn from_clock(now: i64) -> (m: ServerMonitor)
        ensures
            m.started_at == clamp_epoch(now),
    {
        ServerMonitor { started_at: if now < 0 {
            0
        } else {
            now as u64
        } }
    }

    /// A monitor whose uptime baseline is this moment.
    pub fn new() -> (m: ServerMonitor) {
        ServerMonitor::from_clock(now_unix_seconds())
    }

    /// Restarts the uptime baseline at the clock reading `now`.
    pub fn reset_uptime_at(&mut self, now: i64)
        ensures
            final(self).started_at == clamp_epoch(now),
    {
        self.started_at = if now < 0 {
            0
        } else {
            now as u64
        };
    }

    /// Restarts the uptime baseline at this moment.
    pub fn reset_uptime(&mut self) {
        let now = now_unix_seconds();
        self.reset_uptime_at(now);
    }

    /// Seconds elapsed since the last reset, read against the clock
    /// reading `now`; a clock that moved backwards reports zero.
    pub open spec fn spec_uptime(&self, now: i64) -> u64 {
        if clamp_epoch(now) >= self.started_at {
            (clamp_epoch(now) - self.started_at) as u64
        } else {
            0
        }
    }

    /// One resource sample, assembled from what the shell observed of the
    /// process: whether the OS still has it, its CPU load in hundredths of
    /// a percent, and its resident memory in bytes. Fails with
    /// `ProcessNotFound` exactly when the process is gone — the caller
    /// treats that as "no stats available", not as fatal.
    pub fn get_stats(&self, process_found: bool, cpu_centi_percent: u64, memory_bytes: u64, now: i64)
        -> (r: Result<ServerStats, StatsError>)
        ensures
            r is Err <==> !process_found,
            r is Err ==> r->Err_0 == StatsError::ProcessNotFound,
            r is Ok ==> r->Ok_0 == (ServerStats {
                cpu_centi_percent,
                memory_mb: memory_bytes / 1048576,
                disk_mb: 0,
                uptime_seconds: self.spec_uptime(now),
            }),
    {
        if !process_found {
            return Err(StatsError::ProcessNotFound);
        }
        let start: u64 = self.started_at;
        let clamped: u64 = if now < 0 {
            0
        } else {
            now as u64
        };
        let uptime_seconds: u64 = if clamped >= start {
            clamped - start
        } else {
            0
        };
        Ok(
            ServerStats {
                cpu_centi_percent,
                memory_mb: memory_bytes / 1048576,
                disk_mb: 0,
                uptime_seconds,
            },
        )
    }
}

} // verus!
