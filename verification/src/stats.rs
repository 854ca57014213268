//! The statistics pipeline: events from the scan workers and the
//! single-consumer aggregation of cumulative and delta counters.
//!
//! Wall-clock readings enter as explicit elapsed-seconds arguments, and
//! rates and percentages are integer-valued: a rate is in scans per
//! minute, a ratio in thousandths of a percent.

use vstd::prelude::*;

verus! {

/// An event from a scan worker to the aggregator.
#[derive(Debug)]
pub enum ScanMessage {
    /// A chunk of this many addresses finished scanning.
    Scanned(u64),
    /// A probe found this address's port open.
    OpenPort(String),
    /// A handshake succeeded; the payload is the discovery message.
    Found(String),
}

/// Counter bound under which every report computation fits in 64 bits.
pub const REPORT_COUNTER_LIMIT: u64 = 0xFFFF_FFFF_FFFF_FFFF / 100_000;

/// Lifetime scan rate per minute; with zero elapsed time the total
/// itself stands in, never a division by zero.
pub open spec fn total_rate_spec(scanned_total: int, runtime_secs: int) -> int {
    if runtime_secs > 0 {
        scanned_total * 60 / runtime_secs
    } else {
        scanned_total
    }
}

/// Recent scan rate per minute over one report interval.
pub open spec fn recent_rate_spec(scan_delta: int, interval: int) -> int {
    if scan_delta > 0 {
        scan_delta * 60 / interval
    } else {
        0
    }
}

/// A ratio of two counters, in thousandths of a percent.
pub open spec fn millipercent_spec(part: int, whole: int) -> int {
    if whole > 0 {
        part * 100_000 / whole
    } else {
        0
    }
}

/// The aggregator's counters: running totals plus the baselines taken at
/// the last report.
#[derive(Clone, Copy, Debug)]
pub struct StatsCollector {
    pub scanned_total: u64,
    pub servers_found: u64,
    pub ports_open: u64,
    pub scanned_last: u64,
    pub servers_last: u64,
    pub ports_last: u64,
}

/// One periodic report: totals, deltas since the last report, rates and
/// ratios, all integer-valued.
#[derive(Clone, Copy, Debug)]
pub struct StatsReport {
    pub scanned_total: u64,
    pub ports_open: u64,
    pub servers_found: u64,
    pub scan_delta: u64,
    pub port_delta: u64,
    pub server_delta: u64,
    pub total_rate: u64,
    pub recent_rate: u64,
    pub open_rate_millipercent: u64,
    pub success_rate_millipercent: u64,
    pub has_recent_activity: bool,
}

impl StatsCollector {
    /// Baselines never run ahead of the totals.
    pub open spec fn wf(self) -> bool {
        &&& self.scanned_last <= self.scanned_total
        &&& self.servers_last <= self.servers_found
        &&& self.ports_last <= self.ports_open
    }

    /// A fresh aggregator with every counter at zero.
    pub fn new() -> (r: StatsCollector)
        ensures
            r.wf(),
            r.scanned_total == 0,
            r.servers_found == 0,
            r.ports_open == 0,
            r.scanned_last == 0,
            r.servers_last == 0,
            r.ports_last == 0,
    {
        StatsCollector {
            scanned_total: 0,
            servers_found: 0,
            ports_open: 0,
            scanned_last: 0,
            servers_last: 0,
            ports_last: 0,
        }
    }

    /// Fold one event into the counters: a scanned chunk adds its size,
    /// an open port and a found server each count one.
    pub fn update(&mut self, message: ScanMessage)
        requires
            old(self).wf(),
            message matches ScanMessage::Scanned(n) ==> old(self).scanned_total + n
                <= u64::MAX,
            message matches ScanMessage::OpenPort(_) ==> old(self).ports_open + 1 <= u64::MAX,
            message matches ScanMessage::Found(_) ==> old(self).servers_found + 1 <= u64::MAX,
        ensures
            final(self).wf(),
            final(self).scanned_last == old(self).scanned_last,
            final(self).servers_last == old(self).servers_last,
            final(self).ports_last == old(self).ports_last,
            match message {
                ScanMessage::Scanned(n) => {
                    &&& final(self).scanned_total == old(self).scanned_total + n
                    &&& final(self).ports_open == old(self).ports_open
                    &&& final(self).servers_found == old(self).servers_found
                },
                ScanMessage::OpenPort(_) => {
                    &&& final(self).scanned_total == old(self).scanned_total
                    &&& final(self).ports_open == old(self).ports_open + 1
                    &&& final(self).servers_found == old(self).servers_found
                },
                ScanMessage::Found(_) => {
                    &&& final(self).scanned_total == old(self).scanned_total
                    &&& final(self).ports_open == old(self).ports_open
                    &&& final(self).servers_found == old(self).servers_found + 1
                },
            },
    {
        match message {
            ScanMessage::Scanned(count) => {
                self.scanned_total = self.scanned_total + count;
            },
            ScanMessage::OpenPort(_ip) => {
                self.ports_open = self.ports_open + 1;
            },
            ScanMessage::Found(_message) => {
                self.servers_found = self.servers_found + 1;
            },
        }
    }

    /// Whether enough wall-clock time has passed since the last report.
    pub fn should_report_stats(&self, elapsed_secs: u64, interval: u64) -> (r: bool)
        ensures
            r == (elapsed_secs >= interval),
    {
        elapsed_secs >= interval
    }

    /// Compute the periodic report from the current counters and reset
    /// the baselines to the totals.
    pub fn report_stats(&mut self, runtime_secs: u64, interval: u64) -> (r: StatsReport)
        requires
            old(self).wf(),
            interval >= 1,
            old(self).scanned_total <= REPORT_COUNTER_LIMIT,
            old(self).ports_open <= REPORT_COUNTER_LIMIT,
            old(self).servers_found <= REPORT_COUNTER_LIMIT,
        ensures
            final(self).wf(),
            final(self).scanned_total == old(self).scanned_total,
            final(self).ports_open == old(self).ports_open,
            final(self).servers_found == old(self).servers_found,
            final(self).scanned_last == old(self).scanned_total,
            final(self).ports_last == old(self).ports_open,
            final(self).servers_last == old(self).servers_found,
            r.scanned_total == old(self).scanned_total,
            r.ports_open == old(self).ports_open,
            r.servers_found == old(self).servers_found,
            r.scan_delta == old(self).scanned_total - old(self).scanned_last,
            r.port_delta == old(self).ports_open - old(self).ports_last,
            r.server_delta == old(self).servers_found - old(self).servers_last,
            r.total_rate == total_rate_spec(
                old(self).scanned_total as int,
                runtime_secs as int,
            ),
            r.recent_rate == recent_rate_spec(r.scan_delta as int, interval as int),
            r.open_rate_millipercent == millipercent_spec(
                old(self).ports_open as int,
                old(self).scanned_total as int,
            ),
            r.success_rate_millipercent == millipercent_spec(
                old(self).servers_found as int,
                old(self).scanned_total as int,
            ),
            r.has_recent_activity == (r.server_delta > 0 || r.port_delta > 0),
    {
        let scan_delta = self.scanned_total - self.scanned_last;
        let server_delta = self.servers_found - self.servers_last;
        let port_delta = self.ports_open - self.ports_last;
        let total_rate = if runtime_secs > 0 {
            self.scanned_total * 60 / runtime_secs
        } else {
            self.scanned_total
        };
        let recent_rate = if scan_delta > 0 {
            scan_delta * 60 / interval
        } else {
            0
        };
        let open_rate_millipercent = if self.scanned_total > 0 {
            self.ports_open * 100_000 / self.scanned_total
        } else {
            0
        };
        let success_rate_millipercent = if self.scanned_total > 0 {
            self.servers_found * 100_000 / self.scanned_total
        } else {
            0
        };
        let report = StatsReport {
            scanned_total: self.scanned_total,
            ports_open: self.ports_open,
            servers_found: self.servers_found,
            scan_delta,
            port_delta,
            server_delta,
            total_rate,
            recent_rate,
            open_rate_millipercent,
            success_rate_millipercent,
            has_recent_activity: server_delta > 0 || port_delta > 0,
        };
        self.scanned_last = self.scanned_total;
        self.servers_last = self.servers_found;
        self.ports_last = self.ports_open;
        report
    }
}

} // verus!
