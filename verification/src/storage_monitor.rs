//! The storage monitor's integer arithmetic: counters read from
//! `/proc/diskstats`, byte totals and differences between samples, and the
//! windows it keeps and answers for.
use vstd::prelude::*;

use crate::text::{chars_of, parse_u64, split_words, string_of, u64_text, views, words};

verus! {

/// Seconds between two samples.
pub const SAMPLE_INTERVAL_SECONDS: u64 = 30;

/// Days samples are kept.
pub const RETENTION_DAYS: i64 = 7;

/// Width of a history bucket, in seconds.
pub const HISTORY_BUCKET_SECONDS: i64 = 300;

/// Bytes in a disk sector as `/proc/diskstats` counts them.
pub const SECTOR_BYTES: u64 = 512;

/// The window a metrics request asks for.
#[derive(Debug, Clone, Copy)]
pub struct MetricsQuery {
    pub hours: Option<i64>,
}

/// The counters of one disk in `/proc/diskstats`.
#[derive(Debug, Clone, Copy, PartialEq, Eq, Structural)]
pub struct IoCounters {
    pub reads_completed: u64,
    pub writes_completed: u64,
    pub sectors_read: u64,
    pub sectors_written: u64,
    pub io_milliseconds: u64,
}

/// A counter as the database stores it: `i64`, capped at `i64::MAX`.
pub fn to_i64(value: u64) -> (r: i64)
    ensures
        r == (if value <= i64::MAX {
            value as int
        } else {
            i64::MAX as int
        }),
{
    if value <= i64::MAX as u64 {
        value as i64
    } else {
        i64::MAX
    }
}

/// `u64::saturating_mul` by the sector size.
pub open spec fn sector_bytes(sectors: u64) -> u64 {
    if sectors * SECTOR_BYTES > u64::MAX {
        u64::MAX
    } else {
        (sectors * SECTOR_BYTES) as u64
    }
}

/// Bytes of a sector count, saturating.
pub fn bytes_of_sectors(sectors: u64) -> (r: u64)
    ensures
        r == sector_bytes(sectors),
{
    if sectors > u64::MAX / SECTOR_BYTES {
        u64::MAX
    } else {
        sectors * SECTOR_BYTES
    }
}

/// `u64::saturating_sub`.
pub open spec fn grown(new: u64, old: u64) -> u64 {
    if new >= old {
        (new - old) as u64
    } else {
        0
    }
}

fn growth(a: u64, b: u64) -> (d: u64)
    ensures
        d == grown(a, b),
{
    if a >= b {
        a - b
    } else {
        0
    }
}

/// What changed between two samples of a disk: bytes read and written,
/// reads, writes and busy milliseconds, each at least 0.
pub fn counter_growth(new: IoCounters, old: IoCounters) -> (r: (u64, u64, u64, u64, u64))
    ensures
        r == (
            sector_bytes(grown(new.sectors_read, old.sectors_read)),
            sector_bytes(grown(new.sectors_written, old.sectors_written)),
            grown(new.reads_completed, old.reads_completed),
            grown(new.writes_completed, old.writes_completed),
            grown(new.io_milliseconds, old.io_milliseconds),
        ),
{
    (
        bytes_of_sectors(growth(new.sectors_read, old.sectors_read)),
        bytes_of_sectors(growth(new.sectors_written, old.sectors_written)),
        growth(new.reads_completed, old.reads_completed),
        growth(new.writes_completed, old.writes_completed),
        growth(new.io_milliseconds, old.io_milliseconds),
    )
}

/// The hours a metrics request covers: 24 by default, between 1 and the
/// retention of 168.
pub open spec fn metrics_hours_of(q: MetricsQuery) -> i64 {
    let h = match q.hours {
        Some(h) => h,
        None => 24,
    };
    if h < 1 {
        1
    } else if h > RETENTION_DAYS * 24 {
        (RETENTION_DAYS * 24) as i64
    } else {
        h
    }
}

/// The start of the window a metrics request covers, ending at `now`.
pub fn metrics_cutoff(q: &MetricsQuery, now: i64) -> (r: (i64, i64))
    requires
        now >= i64::MIN + 604800,
    ensures
        r.0 == metrics_hours_of(*q),
        r.1 == now - metrics_hours_of(*q) * 3600,
{
    let h = match q.hours {
        Some(h) => h,
        None => 24,
    };
    let hours = if h < 1 {
        1
    } else if h > RETENTION_DAYS * 24 {
        RETENTION_DAYS * 24
    } else {
        h
    };
    (hours, now - hours * 3600)
}

/// Samples older than this are dropped.
pub fn metrics_retention_cutoff(recorded_at: i64) -> (r: i64)
    requires
        recorded_at >= i64::MIN + 604800,
    ensures
        r == recorded_at - RETENTION_DAYS * 86400,
{
    recorded_at - RETENTION_DAYS * 24 * 60 * 60
}

pub open spec fn column_or_zero(w: Seq<Seq<char>>, i: int) -> u64 {
    match u64_text(w[i]) {
        Some(v) => v,
        None => 0,
    }
}

/// The disk name and counters of a `/proc/diskstats` line of at least 14
/// fields; counters that do not parse count as 0.
pub open spec fn diskstats_counters_of(line: Seq<char>) -> Option<(Seq<char>, IoCounters)> {
    let w = words(line);
    if w.len() < 14 {
        None
    } else {
        Some(
            (
                w[2],
                IoCounters {
                    reads_completed: column_or_zero(w, 3),
                    sectors_read: column_or_zero(w, 5),
                    writes_completed: column_or_zero(w, 7),
                    sectors_written: column_or_zero(w, 9),
                    io_milliseconds: column_or_zero(w, 12),
                },
            ),
        )
    }
}

fn column(w: &Vec<Vec<char>>, i: usize) -> (r: u64)
    requires
        i < w.len(),
    ensures
        r == column_or_zero(views(w@), i as int),
{
    match parse_u64(&w[i]) {
        Some(v) => v,
        None => 0,
    }
}

/// Reads one line of `/proc/diskstats`.
pub fn diskstats_counters(line: &str) -> (r: Option<(String, IoCounters)>)
    ensures
        match diskstats_counters_of(line@) {
            Some((name, c)) => r matches Some((s, x)) && s@ == name && x == c,
            None => r is None,
        },
{
    let w = split_words(&chars_of(line));
    if w.len() < 14 {
        return None;
    }
    let counters = IoCounters {
        reads_completed: column(&w, 3),
        sectors_read: column(&w, 5),
        writes_completed: column(&w, 7),
        sectors_written: column(&w, 9),
        io_milliseconds: column(&w, 12),
    };
    Some((string_of(&w[2]), counters))
}

} // verus!
