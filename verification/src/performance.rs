//! The integer side of the performance alert engine: its switches, the CPU
//! counters it reads from `/proc/stat`, and the names of its notifications.
use vstd::prelude::*;

use crate::text::{
    ascii_lower, ascii_lowercase, chars_of, extend_str, has_prefix, parse_u64, seq_eq, split_chars,
    split_on, split_words, starts_with, string_of, trim, trimmed, u64_text, views, words,
};

verus! {

/// Name under which the engine reports.
pub const PRODUCER_NAME: &'static str = "performance-alert-engine";

/// Version under which the engine reports.
pub const PRODUCER_VERSION: &'static str = "1.0B";

/// Seconds between two rounds of the engine.
pub const LOOP_SECONDS: u64 = 15;

/// A switch value that means "on": `1`, `true`, `yes` or `on`, trimmed and
/// in any ASCII case.
pub open spec fn truthy_text(value: Seq<char>) -> bool {
    let k = ascii_lower(trim(value));
    k == "1"@ || k == "true"@ || k == "yes"@ || k == "on"@
}

fn is_word(k: &Vec<char>, word: &str) -> (r: bool)
    ensures
        r == (k@ == word@),
{
    let w = chars_of(word);
    seq_eq(k, &w)
}

/// Whether a switch value means "on".
pub fn truthy(value: &str) -> (r: bool)
    ensures
        r == truthy_text(value@),
{
    let k = ascii_lowercase(&trimmed(&chars_of(value)));
    is_word(&k, "1") || is_word(&k, "true") || is_word(&k, "yes") || is_word(&k, "on")
}

/// Idle and total CPU time of one reading of `/proc/stat`.
#[derive(Debug, Clone, Copy, PartialEq, Eq, Structural)]
pub struct CpuSample {
    pub idle: u64,
    pub total: u64,
}

/// `u64::saturating_add`.
pub open spec fn sat(a: int, b: int) -> int {
    if a + b > u64::MAX {
        u64::MAX as int
    } else {
        a + b
    }
}

/// The first line that starts with `cpu `.
pub open spec fn cpu_line(lines: Seq<Seq<char>>) -> Option<Seq<char>>
    decreases lines.len(),
{
    if lines.len() == 0 {
        None
    } else if has_prefix(lines[0], "cpu "@) {
        Some(lines[0])
    } else {
        cpu_line(lines.drop_first())
    }
}

/// The counter after the label: `None` when it is missing or not a number.
pub open spec fn counter(w: Seq<Seq<char>>, i: int) -> Option<u64> {
    if 0 <= i + 1 < w.len() {
        u64_text(w[i + 1])
    } else {
        None
    }
}

pub open spec fn counter_or_zero(w: Seq<Seq<char>>, i: int) -> int {
    match counter(w, i) {
        Some(v) => v as int,
        None => 0,
    }
}

/// The sample of a `/proc/stat` text: from its first `cpu ` line, the user,
/// nice, system and idle counters must be there; iowait, irq, softirq and
/// steal count as 0 when missing. Idle time includes iowait; the total is
/// the saturating sum of all eight.
pub open spec fn cpu_sample_of(text: Seq<char>) -> Option<CpuSample> {
    match cpu_line(split_on(text, '\n')) {
        None => None,
        Some(line) => {
            let w = words(line);
            if counter(w, 0) is None || counter(w, 1) is None || counter(w, 2) is None || counter(
                w,
                3,
            ) is None {
                None
            } else {
                let user = counter_or_zero(w, 0);
                let nice = counter_or_zero(w, 1);
                let system = counter_or_zero(w, 2);
                let idle = counter_or_zero(w, 3);
                let iowait = counter_or_zero(w, 4);
                let irq = counter_or_zero(w, 5);
                let softirq = counter_or_zero(w, 6);
                let steal = counter_or_zero(w, 7);
                Some(
                    CpuSample {
                        idle: sat(idle, iowait) as u64,
                        total: sat(
                            sat(
                                sat(sat(sat(sat(sat(user, nice), system), idle), iowait), irq),
                                softirq,
                            ),
                            steal,
                        ) as u64,
                    },
                )
            }
        },
    }
}

fn read_counter(w: &Vec<Vec<char>>, i: usize) -> (r: Option<u64>)
    requires
        i < 8,
    ensures
        r == counter(views(w@), i as int),
{
    if i + 1 < w.len() {
        parse_u64(&w[i + 1])
    } else {
        None
    }
}

fn sat_add(a: u64, b: u64) -> (r: u64)
    ensures
        r == sat(a as int, b as int),
{
    if a > u64::MAX - b {
        u64::MAX
    } else {
        a + b
    }
}

/// Reads the CPU sample of a `/proc/stat` text.
pub fn parse_cpu_sample(text: &str) -> (r: Option<CpuSample>)
    ensures
        r == cpu_sample_of(text@),
{
    let chars = chars_of(text);
    let lines = split_chars(&chars, '\n');
    let prefix = chars_of("cpu ");
    let mut i: usize = 0;
    assert(views(lines@).skip(0) =~= views(lines@));
    while i < lines.len() && !starts_with(&lines[i], &prefix)
        invariant
            i <= lines.len(),
            prefix@ == "cpu "@,
            views(lines@) == split_on(text@, '\n'),
            cpu_line(views(lines@)) == cpu_line(views(lines@).skip(i as int)),
        decreases lines.len() - i,
    {
        proof {
            assert(views(lines@).skip(i as int).drop_first() =~= views(lines@).skip(i + 1));
            assert(views(lines@).skip(i as int)[0] == lines@[i as int]@);
        }
        i += 1;
    }
    if i == lines.len() {
        assert(views(lines@).skip(i as int) =~= Seq::<Seq<char>>::empty());
        return None;
    }
    proof {
        assert(views(lines@).skip(i as int)[0] == lines@[i as int]@);
    }
    let w = split_words(&lines[i]);
    let user = match read_counter(&w, 0) {
        Some(v) => v,
        None => return None,
    };
    let nice = match read_counter(&w, 1) {
        Some(v) => v,
        None => return None,
    };
    let system = match read_counter(&w, 2) {
        Some(v) => v,
        None => return None,
    };
    let idle = match read_counter(&w, 3) {
        Some(v) => v,
        None => return None,
    };
    let iowait = match read_counter(&w, 4) {
        Some(v) => v,
        None => 0,
    };
    let irq = match read_counter(&w, 5) {
        Some(v) => v,
        None => 0,
    };
    let softirq = match read_counter(&w, 6) {
        Some(v) => v,
        None => 0,
    };
    let steal = match read_counter(&w, 7) {
        Some(v) => v,
        None => 0,
    };
    let total = sat_add(
        sat_add(
            sat_add(
                sat_add(sat_add(sat_add(sat_add(user, nice), system), idle), iowait),
                irq,
            ),
            softirq,
        ),
        steal,
    );
    Some(CpuSample { idle: sat_add(idle, iowait), total })
}

/// The busy and total CPU time between two samples, when the counters grew
/// and some time passed with no more idle time than total.
pub open spec fn cpu_delta_of(first: CpuSample, second: CpuSample) -> Option<(u64, u64)> {
    if second.total < first.total || second.idle < first.idle {
        None
    } else {
        let total = second.total - first.total;
        let idle = second.idle - first.idle;
        if total == 0 || idle > total {
            None
        } else {
            Some(((total - idle) as u64, total as u64))
        }
    }
}

/// Busy and total CPU time between two samples; the usage is busy over
/// total.
pub fn cpu_delta(first: CpuSample, second: CpuSample) -> (r: Option<(u64, u64)>)
    ensures
        r == cpu_delta_of(first, second),
{
    if second.total < first.total || second.idle < first.idle {
        return None;
    }
    let total = second.total - first.total;
    let idle = second.idle - first.idle;
    if total == 0 || idle > total {
        return None;
    }
    Some((total - idle, total))
}

/// The id of a metric's notification: `performance:` and its code.
pub fn metric_id(code: &str) -> (r: String)
    ensures
        r@ == "performance:"@ + code@,
{
    let mut out = chars_of("performance:");
    extend_str(&mut out, code);
    string_of(&out)
}

/// The code of a metric's notification: `performance_` and its code.
pub fn metric_code(code: &str) -> (r: String)
    ensures
        r@ == "performance_"@ + code@,
{
    let mut out = chars_of("performance_");
    extend_str(&mut out, code);
    string_of(&out)
}

} // verus!
