//! The storage history collector's rules: the windows it answers for, the
//! alerts it raises and clears from SMART readings, and the counters it
//! reads from `/proc/diskstats`.
use vstd::prelude::*;

use crate::text::{
    chars_of, decimal, decimal_of, extend_chars, extend_str, parse_u64, seq_eq, split_words,
    string_of, text_eq, u64_text, views, words,
};

verus! {

/// How long history is kept: seven days.
pub const RETENTION_SECONDS: i64 = 604800;

/// Temperature from which a disk is reported hot.
pub const WARNING_TEMP: i64 = 50;

/// Temperature from which a disk is reported critically hot.
pub const CRITICAL_TEMP: i64 = 55;

/// The window a history request asks for.
#[derive(Debug, Clone)]
pub struct HistoryQuery {
    pub range: Option<String>,
}

/// One temperature reading of a disk.
#[derive(Debug, Clone, Copy)]
pub struct TemperatureHistoryPoint {
    pub timestamp: i64,
    pub temperature_celsius: i64,
}

/// Seconds covered by a window name: `1h`, `24h`, `7d`; anything else is
/// one hour.
pub open spec fn range_seconds_of(range: Seq<char>) -> i64 {
    if range == "1h"@ {
        3600
    } else if range == "24h"@ {
        86400
    } else if range == "7d"@ {
        604800
    } else {
        3600
    }
}

/// Seconds covered by a window name.
pub fn range_seconds(range: &str) -> (r: i64)
    ensures
        r == range_seconds_of(range@),
{
    if text_eq(range, "1h") {
        3600
    } else if text_eq(range, "24h") {
        86400
    } else if text_eq(range, "7d") {
        604800
    } else {
        3600
    }
}

/// The window of a history request ending at `now`: its name (one hour
/// when none is given) and where it starts.
pub fn history_window(query: &HistoryQuery, now: i64) -> (r: (String, i64))
    requires
        now >= i64::MIN + 604800,
    ensures
        r.0@ == match query.range {
            Some(s) => s@,
            None => "1h"@,
        },
        r.1 == now - range_seconds_of(r.0@),
{
    let range = match &query.range {
        Some(s) => s.clone(),
        None => "1h".to_string(),
    };
    let from = now - range_seconds(range.as_str());
    (range, from)
}

/// Readings older than this are dropped.
pub fn retention_cutoff(now: i64) -> (r: i64)
    requires
        now >= i64::MIN + RETENTION_SECONDS,
    ensures
        r == now - RETENTION_SECONDS,
{
    now - RETENTION_SECONDS
}

/// A number as `format!("{}")` writes an `i64`.
pub open spec fn signed_decimal(v: i64) -> Seq<char> {
    if v < 0 {
        "-"@ + decimal((-(v as int)) as nat)
    } else {
        decimal(v as nat)
    }
}

fn signed_text(v: i64) -> (r: Vec<char>)
    ensures
        r@ == signed_decimal(v),
{
    if v < 0 {
        let magnitude: u64 = if v == i64::MIN {
            9223372036854775808
        } else {
            (-v) as u64
        };
        let mut out = chars_of("-");
        let digits = decimal_of(magnitude);
        extend_chars(&mut out, &digits);
        out
    } else {
        decimal_of(v as u64)
    }
}

/// An alert the collector raises (active) or clears (inactive) for a disk.
#[derive(Debug, Clone)]
pub struct AlertDecision {
    pub alert_type: &'static str,
    pub active: bool,
    pub severity: &'static str,
    pub message: String,
    pub value: Option<i64>,
}

pub open spec fn decision_is(
    d: AlertDecision,
    alert_type: Seq<char>,
    active: bool,
    severity: Seq<char>,
    message: Seq<char>,
    value: Option<i64>,
) -> bool {
    d.alert_type@ == alert_type && d.active == active && d.severity@ == severity && d.message@
        == message && d.value == value
}

fn message_with(prefix: &str, v: i64, suffix: &str) -> (r: String)
    ensures
        r@ == prefix@ + signed_decimal(v) + suffix@,
{
    let mut out = chars_of(prefix);
    let digits = signed_text(v);
    extend_chars(&mut out, &digits);
    extend_str(&mut out, suffix);
    string_of(&out)
}

/// The temperature alerts of a reading: critical from 55 °C, a warning
/// from 50 °C below that.
pub fn temperature_alerts(temp: i64) -> (r: (AlertDecision, AlertDecision))
    ensures
        decision_is(
            r.0,
            "temperature_critical"@,
            temp >= CRITICAL_TEMP,
            "critical"@,
            "Disk sıcaklığı kritik seviyede: "@ + signed_decimal(temp) + "°C"@,
            Some(temp),
        ),
        decision_is(
            r.1,
            "temperature_warning"@,
            temp >= WARNING_TEMP && temp < CRITICAL_TEMP,
            "warning"@,
            "Disk sıcaklığı yüksek: "@ + signed_decimal(temp) + "°C"@,
            Some(temp),
        ),
{
    (
        AlertDecision {
            alert_type: "temperature_critical",
            active: temp >= CRITICAL_TEMP,
            severity: "critical",
            message: message_with("Disk sıcaklığı kritik seviyede: ", temp, "°C"),
            value: Some(temp),
        },
        AlertDecision {
            alert_type: "temperature_warning",
            active: temp >= WARNING_TEMP && temp < CRITICAL_TEMP,
            severity: "warning",
            message: message_with("Disk sıcaklığı yüksek: ", temp, "°C"),
            value: Some(temp),
        },
    )
}

/// What a SMART reading says of a disk.
#[derive(Debug, Clone)]
pub struct SmartSample {
    pub device: String,
    pub temperature: Option<i64>,
    pub passed: bool,
    pub reallocated: i64,
    pub pending: i64,
    pub uncorrectable: i64,
}

/// The SMART alerts of a reading, in the order the collector applies them:
/// a failed self-assessment, reallocated sectors (a warning), pending and
/// uncorrectable sectors (critical).
pub fn smart_alerts(sample: &SmartSample) -> (r: Vec<AlertDecision>)
    ensures
        r.len() == 4,
        decision_is(
            r[0],
            "smart_failed"@,
            !sample.passed,
            "critical"@,
            "SMART genel sağlık testi başarısız."@,
            None,
        ),
        decision_is(
            r[1],
            "reallocated_sectors"@,
            sample.reallocated > 0,
            "warning"@,
            "Yeniden eşlenen sektör sayısı: "@ + signed_decimal(sample.reallocated),
            Some(sample.reallocated),
        ),
        decision_is(
            r[2],
            "pending_sectors"@,
            sample.pending > 0,
            "critical"@,
            "Bekleyen sektör sayısı: "@ + signed_decimal(sample.pending),
            Some(sample.pending),
        ),
        decision_is(
            r[3],
            "offline_uncorrectable"@,
            sample.uncorrectable > 0,
            "critical"@,
            "Düzeltilemeyen sektör sayısı: "@ + signed_decimal(sample.uncorrectable),
            Some(sample.uncorrectable),
        ),
{
    let mut r: Vec<AlertDecision> = Vec::new();
    r.push(
        AlertDecision {
            alert_type: "smart_failed",
            active: !sample.passed,
            severity: "critical",
            message: "SMART genel sağlık testi başarısız.".to_string(),
            value: None,
        },
    );
    r.push(
        AlertDecision {
            alert_type: "reallocated_sectors",
            active: sample.reallocated > 0,
            severity: "warning",
            message: message_with("Yeniden eşlenen sektör sayısı: ", sample.reallocated, ""),
            value: Some(sample.reallocated),
        },
    );
    r.push(
        AlertDecision {
            alert_type: "pending_sectors",
            active: sample.pending > 0,
            severity: "critical",
            message: message_with("Bekleyen sektör sayısı: ", sample.pending, ""),
            value: Some(sample.pending),
        },
    );
    r.push(
        AlertDecision {
            alert_type: "offline_uncorrectable",
            active: sample.uncorrectable > 0,
            severity: "critical",
            message: message_with("Düzeltilemeyen sektör sayısı: ", sample.uncorrectable, ""),
            value: Some(sample.uncorrectable),
        },
    );
    proof {
        reveal_strlit("");
        assert(("Yeniden eşlenen sektör sayısı: "@ + signed_decimal(sample.reallocated) + ""@)
            =~= ("Yeniden eşlenen sektör sayısı: "@ + signed_decimal(sample.reallocated)));
        assert(("Bekleyen sektör sayısı: "@ + signed_decimal(sample.pending) + ""@) =~= (
        "Bekleyen sektör sayısı: "@ + signed_decimal(sample.pending)));
        assert(("Düzeltilemeyen sektör sayısı: "@ + signed_decimal(sample.uncorrectable) + ""@)
            =~= ("Düzeltilemeyen sektör sayısı: "@ + signed_decimal(sample.uncorrectable)));
    }
    r
}

/// The counters of one disk in `/proc/diskstats`.
#[derive(Debug, Clone, Copy, PartialEq, Eq, Structural)]
pub struct RawIo {
    pub reads: u64,
    pub sectors_read: u64,
    pub writes: u64,
    pub sectors_written: u64,
    pub io_ms: u64,
}

pub open spec fn field_or_zero(w: Seq<Seq<char>>, i: int) -> u64 {
    match u64_text(w[i]) {
        Some(v) => v,
        None => 0,
    }
}

/// The device and counters of a `/proc/diskstats` line, for a line of at
/// least 14 fields whose device (`/dev/` and the third field) is a physical
/// disk; counters that do not parse count as 0.
pub open spec fn diskstats_entry_of(line: Seq<char>, devices: Seq<Seq<char>>) -> Option<(Seq<char>, RawIo)> {
    let w = words(line);
    if w.len() < 14 {
        None
    } else if !devices.contains("/dev/"@ + w[2]) {
        None
    } else {
        Some(
            (
                "/dev/"@ + w[2],
                RawIo {
                    reads: field_or_zero(w, 3),
                    sectors_read: field_or_zero(w, 5),
                    writes: field_or_zero(w, 7),
                    sectors_written: field_or_zero(w, 9),
                    io_ms: field_or_zero(w, 12),
                },
            ),
        )
    }
}

fn field(w: &Vec<Vec<char>>, i: usize) -> (r: u64)
    requires
        i < w.len(),
    ensures
        r == field_or_zero(views(w@), i as int),
{
    match parse_u64(&w[i]) {
        Some(v) => v,
        None => 0,
    }
}

/// Reads one line of `/proc/diskstats` for the given physical disks.
pub fn diskstats_entry(line: &str, devices: &Vec<String>) -> (r: Option<(String, RawIo)>)
    ensures
        match diskstats_entry_of(line@, Seq::new(devices@.len(), |i: int| devices@[i]@)) {
            Some((d, io)) => r matches Some((s, x)) && s@ == d && x == io,
            None => r is None,
        },
{
    let ghost devs = Seq::new(devices@.len(), |i: int| devices@[i]@);
    let w = split_words(&chars_of(line));
    if w.len() < 14 {
        return None;
    }
    let mut device = chars_of("/dev/");
    extend_chars(&mut device, &w[2]);
    let mut found = false;
    let mut j: usize = 0;
    while j < devices.len()
        invariant
            j <= devices.len(),
            devs == Seq::new(devices@.len(), |i: int| devices@[i]@),
            found == exists|k: int| 0 <= k < j && devs[k] == device@,
        decreases devices.len() - j,
    {
        let candidate = chars_of(devices[j].as_str());
        if seq_eq(&candidate, &device) {
            found = true;
            assert(devs[j as int] == device@);
        }
        j += 1;
    }
    proof {
        if found {
            let k = choose|k: int| 0 <= k < j && devs[k] == device@;
            assert(devs.contains(device@));
        } else {
            assert(!devs.contains(device@));
        }
    }
    if !found {
        return None;
    }
    let io = RawIo {
        reads: field(&w, 3),
        sectors_read: field(&w, 5),
        writes: field(&w, 7),
        sectors_written: field(&w, 9),
        io_ms: field(&w, 12),
    };
    Some((string_of(&device), io))
}

} // verus!
