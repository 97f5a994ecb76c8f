//! The integer and text side of the system metrics page: what it reads from
//! `/proc/stat`, `/proc/meminfo`, `/proc/net/dev`, `/proc/cpuinfo`,
//! `/etc/os-release` and `/etc/hostname`.
use vstd::prelude::*;

use crate::text::{
    chars_of, find_char, first_index, has_prefix, lemma_first_index, lines_chars, lines_of,
    parse_u64, seq_eq, slice_chars, split_words, starts_with, string_of, trim, trimmed,
    u64_text, views, words,
};

verus! {

/// Idle and total CPU time of one reading of `/proc/stat`.
#[derive(Debug, Clone, Copy, PartialEq, Eq, Structural)]
pub struct CpuSnapshot {
    pub idle: u64,
    pub total: u64,
}

/// Memory in bytes.
#[derive(Debug, Clone, Copy, PartialEq, Eq, Structural)]
pub struct MemoryCounts {
    pub total_bytes: u64,
    pub used_bytes: u64,
    pub available_bytes: u64,
}

/// Traffic of one network interface since boot.
#[derive(Debug, Clone)]
pub struct NetworkInterfaceMetrics {
    pub interface: String,
    pub received_bytes: u64,
    pub transmitted_bytes: u64,
}

/// `u64::saturating_add`.
pub open spec fn sat_add(a: int, b: int) -> int {
    if a + b > u64::MAX {
        u64::MAX as int
    } else {
        a + b
    }
}

/// `u64::saturating_mul`.
pub open spec fn sat_mul(a: int, b: int) -> int {
    if a * b > u64::MAX {
        u64::MAX as int
    } else {
        a * b
    }
}

/// The words that parse as numbers, in order.
pub open spec fn numbers_in(w: Seq<Seq<char>>) -> Seq<u64>
    decreases w.len(),
{
    if w.len() == 0 {
        Seq::<u64>::empty()
    } else {
        let prev = numbers_in(w.drop_last());
        match u64_text(w.last()) {
            Some(v) => prev.push(v),
            None => prev,
        }
    }
}

pub open spec fn nth_or_zero(v: Seq<u64>, i: int) -> int {
    if 0 <= i < v.len() {
        v[i] as int
    } else {
        0
    }
}

/// The CPU snapshot of a `/proc/stat` text: the numbers after the label of
/// its first line; at least user, nice, system and idle must be there.
pub open spec fn cpu_snapshot_of(text: Seq<char>) -> Option<CpuSnapshot> {
    let lines = lines_of(text);
    if lines.len() == 0 {
        None
    } else {
        let w = words(lines[0]);
        let v = if w.len() == 0 {
            Seq::<u64>::empty()
        } else {
            numbers_in(w.drop_first())
        };
        if v.len() < 4 {
            None
        } else {
            let idle = sat_add(nth_or_zero(v, 3), nth_or_zero(v, 4));
            let total = sat_add(
                sat_add(
                    sat_add(
                        sat_add(
                            sat_add(
                                sat_add(sat_add(nth_or_zero(v, 0), nth_or_zero(v, 1)), nth_or_zero(v, 2)),
                                nth_or_zero(v, 3),
                            ),
                            nth_or_zero(v, 4),
                        ),
                        nth_or_zero(v, 5),
                    ),
                    nth_or_zero(v, 6),
                ),
                nth_or_zero(v, 7),
            );
            Some(CpuSnapshot { idle: idle as u64, total: total as u64 })
        }
    }
}

fn numbers_of(w: &Vec<Vec<char>>, from: usize) -> (r: Vec<u64>)
    requires
        from <= w.len(),
    ensures
        r@ == numbers_in(views(w@).skip(from as int)),
{
    let mut out: Vec<u64> = Vec::new();
    let mut i: usize = from;
    assert(views(w@).subrange(from as int, from as int) =~= Seq::<Seq<char>>::empty());
    while i < w.len()
        invariant
            from <= i <= w.len(),
            out@ == numbers_in(views(w@).subrange(from as int, i as int)),
        decreases w.len() - i,
    {
        proof {
            assert(views(w@).subrange(from as int, i + 1).drop_last() =~= views(w@).subrange(
                from as int,
                i as int,
            ));
            assert(views(w@).subrange(from as int, i + 1).last() == w@[i as int]@);
        }
        match parse_u64(&w[i]) {
            Some(v) => out.push(v),
            None => {},
        }
        i += 1;
    }
    assert(views(w@).subrange(from as int, w.len() as int) =~= views(w@).skip(from as int));
    out
}

fn nth(v: &Vec<u64>, i: usize) -> (r: u64)
    ensures
        r == nth_or_zero(v@, i as int),
{
    if i < v.len() {
        v[i]
    } else {
        0
    }
}

fn add_sat(a: u64, b: u64) -> (r: u64)
    ensures
        r == sat_add(a as int, b as int),
{
    if a > u64::MAX - b {
        u64::MAX
    } else {
        a + b
    }
}

/// Reads the CPU snapshot of a `/proc/stat` text.
pub fn read_cpu_snapshot(text: &str) -> (r: Option<CpuSnapshot>)
    ensures
        r == cpu_snapshot_of(text@),
{
    let lines = lines_chars(&chars_of(text));
    if lines.len() == 0 {
        return None;
    }
    let w = split_words(&lines[0]);
    let v = if w.len() == 0 {
        Vec::new()
    } else {
        assert(views(w@).drop_first() =~= views(w@).skip(1));
        numbers_of(&w, 1)
    };
    if v.len() < 4 {
        return None;
    }
    let idle = add_sat(nth(&v, 3), nth(&v, 4));
    let total = add_sat(
        add_sat(
            add_sat(
                add_sat(add_sat(add_sat(add_sat(nth(&v, 0), nth(&v, 1)), nth(&v, 2)), nth(&v, 3)), nth(&v, 4)),
                nth(&v, 5),
            ),
            nth(&v, 6),
        ),
        nth(&v, 7),
    );
    Some(CpuSnapshot { idle, total })
}

/// The value of the last line with the given key: the first word after the
/// key as a number of kB, 0 when it does not parse or no line has the key.
pub open spec fn meminfo_value(lines: Seq<Seq<char>>, key: Seq<char>) -> int
    decreases lines.len(),
{
    if lines.len() == 0 {
        0
    } else if has_prefix(lines.last(), key) {
        let w = words(lines.last().skip(key.len() as int));
        if w.len() > 0 {
            match u64_text(w[0]) {
                Some(v) => v as int,
                None => 0,
            }
        } else {
            0
        }
    } else {
        meminfo_value(lines.drop_last(), key)
    }
}

/// Memory from a `/proc/meminfo` text: total and available in bytes, and
/// the used part, all saturating.
pub open spec fn memory_of(text: Seq<char>) -> MemoryCounts {
    let lines = lines_of(text);
    let total = sat_mul(meminfo_value(lines, "MemTotal:"@), 1024);
    let available = sat_mul(meminfo_value(lines, "MemAvailable:"@), 1024);
    MemoryCounts {
        total_bytes: total as u64,
        used_bytes: (if total >= available {
            total - available
        } else {
            0
        }) as u64,
        available_bytes: available as u64,
    }
}

fn value_after(line: &Vec<char>, key_len: usize) -> (r: u64)
    requires
        key_len <= line.len(),
    ensures
        r == ({
            let w = words(line@.skip(key_len as int));
            if w.len() > 0 {
                match u64_text(w[0]) {
                    Some(v) => v as int,
                    None => 0,
                }
            } else {
                0
            }
        }),
{
    let rest = slice_chars(line, key_len, line.len());
    assert(line@.skip(key_len as int) =~= line@.subrange(key_len as int, line.len() as int));
    let w = split_words(&rest);
    if w.len() > 0 {
        match parse_u64(&w[0]) {
            Some(v) => v,
            None => 0,
        }
    } else {
        0
    }
}

fn mul_1024(a: u64) -> (r: u64)
    ensures
        r == sat_mul(a as int, 1024),
{
    if a > u64::MAX / 1024 {
        u64::MAX
    } else {
        a * 1024
    }
}

/// Reads memory from a `/proc/meminfo` text.
pub fn read_memory(text: &str) -> (r: MemoryCounts)
    ensures
        r == memory_of(text@),
{
    let lines = lines_chars(&chars_of(text));
    let total_key = chars_of("MemTotal:");
    let avail_key = chars_of("MemAvailable:");
    let mut total_kb: u64 = 0;
    let mut avail_kb: u64 = 0;
    let mut i: usize = 0;
    while i < lines.len()
        invariant
            i <= lines.len(),
            total_key@ == "MemTotal:"@,
            avail_key@ == "MemAvailable:"@,
            total_kb == meminfo_value(views(lines@).take(i as int), "MemTotal:"@),
            avail_kb == meminfo_value(views(lines@).take(i as int), "MemAvailable:"@),
        decreases lines.len() - i,
    {
        proof {
            assert(views(lines@).take(i + 1).drop_last() =~= views(lines@).take(i as int));
            assert(views(lines@).take(i + 1).last() == lines@[i as int]@);
        }
        if starts_with(&lines[i], &total_key) {
            total_kb = value_after(&lines[i], total_key.len());
        }
        if starts_with(&lines[i], &avail_key) {
            avail_kb = value_after(&lines[i], avail_key.len());
        }
        i += 1;
    }
    assert(views(lines@).take(lines.len() as int) =~= views(lines@));
    let total = mul_1024(total_kb);
    let available = mul_1024(avail_kb);
    let used = if total >= available {
        total - available
    } else {
        0
    };
    MemoryCounts { total_bytes: total, used_bytes: used, available_bytes: available }
}

/// One interface line of `/proc/net/dev`: the name before the first `:`
/// (trimmed, not `lo`) and at least 16 counters after it, of which the
/// received and transmitted bytes must parse.
pub open spec fn interface_of(line: Seq<char>) -> Option<(Seq<char>, u64, u64)> {
    let i = first_index(line, ':');
    if i < 0 {
        None
    } else {
        let name = trim(line.take(i));
        let w = words(line.skip(i + 1));
        if w.len() < 16 || name == "lo"@ {
            None
        } else {
            match (u64_text(w[0]), u64_text(w[8])) {
                (Some(rx), Some(tx)) => Some((name, rx, tx)),
                _ => None,
            }
        }
    }
}

/// The interfaces of a `/proc/net/dev` text, after its two header lines.
pub open spec fn interfaces_of(lines: Seq<Seq<char>>) -> Seq<(Seq<char>, u64, u64)>
    decreases lines.len(),
{
    if lines.len() <= 2 {
        Seq::empty()
    } else {
        let prev = interfaces_of(lines.drop_last());
        match interface_of(lines.last()) {
            Some(x) => prev.push(x),
            None => prev,
        }
    }
}

fn read_interface(line: &Vec<char>) -> (r: Option<NetworkInterfaceMetrics>)
    ensures
        match interface_of(line@) {
            Some((name, rx, tx)) => r matches Some(m) && m.interface@ == name && m.received_bytes
                == rx && m.transmitted_bytes == tx,
            None => r is None,
        },
{
    let i = match find_char(line, ':') {
        Some(i) => i,
        None => return None,
    };
    proof {
        lemma_first_index(line@, ':');
    }
    assert(i < line.len());
    let head = slice_chars(line, 0, i);
    assert(line@.take(i as int) =~= line@.subrange(0, i as int));
    let name = trimmed(&head);
    let rest = slice_chars(line, i + 1, line.len());
    assert(line@.skip(i + 1) =~= line@.subrange(i + 1, line.len() as int));
    let w = split_words(&rest);
    if w.len() < 16 || seq_eq(&name, &chars_of("lo")) {
        return None;
    }
    let rx = match parse_u64(&w[0]) {
        Some(v) => v,
        None => return None,
    };
    let tx = match parse_u64(&w[8]) {
        Some(v) => v,
        None => return None,
    };
    Some(NetworkInterfaceMetrics { interface: string_of(&name), received_bytes: rx, transmitted_bytes: tx })
}

/// Reads the interfaces of a `/proc/net/dev` text.
pub fn read_network(text: &str) -> (r: Vec<NetworkInterfaceMetrics>)
    ensures
        r@.len() == interfaces_of(lines_of(text@)).len(),
        forall|k: int| 0 <= k < r@.len() ==> {
            let (name, rx, tx) = #[trigger] interfaces_of(lines_of(text@))[k];
            r@[k].interface@ == name && r@[k].received_bytes == rx && r@[k].transmitted_bytes == tx
        },
{
    let lines = lines_chars(&chars_of(text));
    let ghost ls = views(lines@);
    let mut out: Vec<NetworkInterfaceMetrics> = Vec::new();
    let mut i: usize = 0;
    while i < lines.len()
        invariant
            i <= lines.len(),
            ls == views(lines@),
            ls == lines_of(text@),
            out@.len() == interfaces_of(ls.take(i as int)).len(),
            forall|k: int| 0 <= k < out@.len() ==> {
                let (name, rx, tx) = #[trigger] interfaces_of(ls.take(i as int))[k];
                out@[k].interface@ == name && out@[k].received_bytes == rx
                    && out@[k].transmitted_bytes == tx
            },
        decreases lines.len() - i,
    {
        proof {
            assert(ls.take(i + 1).drop_last() =~= ls.take(i as int));
            assert(ls.take(i + 1).last() == lines@[i as int]@);
        }
        if i >= 2 {
            match read_interface(&lines[i]) {
                Some(m) => out.push(m),
                None => {},
            }
        } else {
            proof {
                assert(interfaces_of(ls.take(i + 1)) =~= Seq::<(Seq<char>, u64, u64)>::empty());
                assert(interfaces_of(ls.take(i as int)) =~= Seq::<(Seq<char>, u64, u64)>::empty());
            }
        }
        i += 1;
    }
    assert(ls.take(lines.len() as int) =~= ls);
    out
}

/// How many lines start with `processor`.
pub open spec fn processor_lines(lines: Seq<Seq<char>>) -> nat
    decreases lines.len(),
{
    if lines.len() == 0 {
        0
    } else {
        processor_lines(lines.drop_last()) + if has_prefix(lines.last(), "processor"@) {
            1nat
        } else {
            0nat
        }
    }
}

/// The number of CPU cores a `/proc/cpuinfo` text lists, at least one.
pub fn read_cpu_cores(text: &str) -> (r: usize)
    ensures
        r == (if processor_lines(lines_of(text@)) == 0 {
            1
        } else {
            processor_lines(lines_of(text@))
        }),
{
    let lines = lines_chars(&chars_of(text));
    let key = chars_of("processor");
    let mut n: usize = 0;
    let mut i: usize = 0;
    while i < lines.len()
        invariant
            i <= lines.len(),
            key@ == "processor"@,
            n == processor_lines(views(lines@).take(i as int)),
            n <= i,
        decreases lines.len() - i,
    {
        proof {
            assert(views(lines@).take(i + 1).drop_last() =~= views(lines@).take(i as int));
            assert(views(lines@).take(i + 1).last() == lines@[i as int]@);
        }
        if starts_with(&lines[i], &key) {
            n += 1;
        }
        i += 1;
    }
    assert(views(lines@).take(lines.len() as int) =~= views(lines@));
    if n == 0 {
        1
    } else {
        n
    }
}

/// `s` without leading and trailing `"`.
pub open spec fn strip_quotes(s: Seq<char>) -> Seq<char>
    decreases s.len(),
{
    if s.len() > 0 && s[0] == '"' {
        strip_quotes(s.drop_first())
    } else if s.len() > 0 && s.last() == '"' {
        strip_quotes(s.drop_last())
    } else {
        s
    }
}

/// The operating system's name in an `/etc/os-release` text: the first
/// `PRETTY_NAME=` value without quotes, else `Debian GNU/Linux`.
pub open spec fn os_name_of(lines: Seq<Seq<char>>) -> Seq<char>
    decreases lines.len(),
{
    if lines.len() == 0 {
        "Debian GNU/Linux"@
    } else if has_prefix(lines[0], "PRETTY_NAME="@) {
        strip_quotes(lines[0].skip(12))
    } else {
        os_name_of(lines.drop_first())
    }
}

fn unquote(s: &Vec<char>) -> (r: Vec<char>)
    ensures
        r@ == strip_quotes(s@),
{
    let mut from: usize = 0;
    let mut to: usize = s.len();
    assert(s@.subrange(0, s.len() as int) =~= s@);
    while from < to && (s[from] == '"' || s[to - 1] == '"')
        invariant
            from <= to <= s.len(),
            strip_quotes(s@) == strip_quotes(s@.subrange(from as int, to as int)),
        decreases to - from,
    {
        if s[from] == '"' {
            assert(s@.subrange(from as int, to as int).drop_first() =~= s@.subrange(
                from + 1,
                to as int,
            ));
            from += 1;
        } else {
            assert(s@.subrange(from as int, to as int).drop_last() =~= s@.subrange(
                from as int,
                to - 1,
            ));
            to -= 1;
        }
    }
    slice_chars(s, from, to)
}

/// Reads the operating system's name from an `/etc/os-release` text.
pub fn read_os_name(text: &str) -> (r: String)
    ensures
        r@ == os_name_of(lines_of(text@)),
{
    let lines = lines_chars(&chars_of(text));
    let key = chars_of("PRETTY_NAME=");
    proof {
        reveal_strlit("PRETTY_NAME=");
    }
    let mut i: usize = 0;
    assert(views(lines@).skip(0) =~= views(lines@));
    while i < lines.len()
        invariant
            i <= lines.len(),
            key@ == "PRETTY_NAME="@,
            key@.len() == 12,
            views(lines@) == lines_of(text@),
            os_name_of(views(lines@)) == os_name_of(views(lines@).skip(i as int)),
        decreases lines.len() - i,
    {
        proof {
            assert(views(lines@).skip(i as int).drop_first() =~= views(lines@).skip(i + 1));
            assert(views(lines@).skip(i as int)[0] == lines@[i as int]@);
        }
        if starts_with(&lines[i], &key) {
            let rest = slice_chars(&lines[i], 12, lines[i].len());
            assert(lines@[i as int]@.skip(12) =~= rest@);
            return string_of(&unquote(&rest));
        }
        i += 1;
    }
    assert(views(lines@).skip(i as int) =~= Seq::<Seq<char>>::empty());
    "Debian GNU/Linux".to_string()
}

/// The CPU model in a `/proc/cpuinfo` text: the trimmed value of the first
/// line whose key before `:` is `model name` (trimmed), else a note that it
/// is unknown.
pub open spec fn cpu_model_of(lines: Seq<Seq<char>>) -> Seq<char>
    decreases lines.len(),
{
    if lines.len() == 0 {
        "Bilinmeyen işlemci"@
    } else {
        let l = lines[0];
        let i = first_index(l, ':');
        if i >= 0 && trim(l.take(i)) == "model name"@ {
            trim(l.skip(i + 1))
        } else {
            cpu_model_of(lines.drop_first())
        }
    }
}

/// Reads the CPU model from a `/proc/cpuinfo` text.
pub fn read_cpu_model(text: &str) -> (r: String)
    ensures
        r@ == cpu_model_of(lines_of(text@)),
{
    let lines = lines_chars(&chars_of(text));
    let key = chars_of("model name");
    let mut i: usize = 0;
    assert(views(lines@).skip(0) =~= views(lines@));
    while i < lines.len()
        invariant
            i <= lines.len(),
            key@ == "model name"@,
            views(lines@) == lines_of(text@),
            cpu_model_of(views(lines@)) == cpu_model_of(views(lines@).skip(i as int)),
        decreases lines.len() - i,
    {
        proof {
            assert(views(lines@).skip(i as int).drop_first() =~= views(lines@).skip(i + 1));
            assert(views(lines@).skip(i as int)[0] == lines@[i as int]@);
        }
        let l = &lines[i];
        match find_char(l, ':') {
            Some(k) => {
                proof {
                    lemma_first_index(l@, ':');
                }
                let head = slice_chars(l, 0, k);
                assert(l@.take(k as int) =~= l@.subrange(0, k as int));
                if seq_eq(&trimmed(&head), &key) {
                    let rest = slice_chars(l, k + 1, l.len());
                    assert(l@.skip(k + 1) =~= l@.subrange(k + 1, l.len() as int));
                    return string_of(&trimmed(&rest));
                }
            },
            None => {},
        }
        i += 1;
    }
    assert(views(lines@).skip(i as int) =~= Seq::<Seq<char>>::empty());
    "Bilinmeyen işlemci".to_string()
}

/// The host name: the trimmed text of `/etc/hostname`, or `PhotoOS` when it
/// cannot be read.
pub fn read_hostname(text: Option<&str>) -> (r: String)
    ensures
        r@ == match text {
            Some(t) => trim(t@),
            None => trim("PhotoOS"@),
        },
{
    match text {
        Some(t) => string_of(&trimmed(&chars_of(t))),
        None => string_of(&trimmed(&chars_of("PhotoOS"))),
    }
}

} // verus!
