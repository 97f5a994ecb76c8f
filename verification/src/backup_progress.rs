//! Reading rsync's `--info=progress2` lines: which counters a line carries.
//! The percentage and the speed are decimal numbers; they are handed on as
//! text.
use vstd::prelude::*;

use crate::text::{
    chars_of, is_ascii_digit, occurs_at, occurs_at_exec, parse_u64, split_chars,
    split_on, split_words, string_of, u64_text, views, words,
};

verus! {

/// The counters one progress line carries.
#[derive(Debug, Clone)]
pub struct ProgressReading {
    /// The line has a percentage: the copy is under way.
    pub copying: bool,
    /// The percentage without its `%`.
    pub percent_text: Option<String>,
    /// The bytes transferred, from the word before the percentage.
    pub transferred_bytes: Option<u64>,
    /// The speed, the word after the percentage.
    pub speed_text: Option<String>,
    /// The time left, when the line has a word for it: its seconds, or
    /// none when the word is not a time.
    pub eta_seconds: Option<Option<u64>>,
    /// The number of files transferred, after `xfr#`.
    pub files_transferred: Option<u64>,
}

/// Index of the first word from `i` on that ends with `%`, or -1.
pub open spec fn first_percent_from(t: Seq<Seq<char>>, i: int) -> int
    decreases t.len() - i,
{
    if i < 0 || i >= t.len() {
        -1
    } else if t[i].len() > 0 && t[i].last() == '%' {
        i
    } else {
        first_percent_from(t, i + 1)
    }
}

/// `s` without its trailing `%` characters.
pub open spec fn without_percent(s: Seq<char>) -> Seq<char>
    decreases s.len(),
{
    if s.len() > 0 && s.last() == '%' {
        without_percent(s.drop_last())
    } else {
        s
    }
}

/// `s` without `,` and `.`.
pub open spec fn without_separators(s: Seq<char>) -> Seq<char>
    decreases s.len(),
{
    if s.len() == 0 {
        s
    } else if s.last() == ',' || s.last() == '.' {
        without_separators(s.drop_last())
    } else {
        without_separators(s.drop_last()).push(s.last())
    }
}

/// The pieces of a time that parse as numbers, in order.
pub open spec fn time_values(pieces: Seq<Seq<char>>) -> Seq<u64>
    decreases pieces.len(),
{
    if pieces.len() == 0 {
        Seq::<u64>::empty()
    } else {
        match u64_text(pieces.last()) {
            Some(v) => time_values(pieces.drop_last()).push(v),
            None => time_values(pieces.drop_last()),
        }
    }
}

/// Seconds of `h:m:s` or `m:s`; the sum wraps at 2^64.
pub open spec fn seconds_of(values: Seq<u64>) -> Option<u64> {
    if values.len() == 3 {
        Some(((values[0] * 3600 + values[1] * 60 + values[2]) % 0x1_0000_0000_0000_0000) as u64)
    } else if values.len() == 2 {
        Some(((values[0] * 60 + values[1]) % 0x1_0000_0000_0000_0000) as u64)
    } else {
        None
    }
}

/// Index of the first occurrence of `p` in `s` from `i` on, or -1.
pub open spec fn first_at(s: Seq<char>, p: Seq<char>, i: int) -> int
    decreases s.len() + 1 - i,
{
    if i < 0 || i + p.len() > s.len() {
        -1
    } else if occurs_at(s, p, i) {
        i
    } else {
        first_at(s, p, i + 1)
    }
}

/// End of the run of ASCII digits that starts at `i`.
pub open spec fn digits_end(s: Seq<char>, i: int) -> int
    decreases s.len() - i,
{
    if 0 <= i < s.len() && is_ascii_digit(s[i]) {
        digits_end(s, i + 1)
    } else {
        i
    }
}

/// The files-transferred counter of a line: the digits right after the
/// first `xfr#`.
pub open spec fn files_of(line: Seq<char>) -> Option<u64> {
    let j = first_at(line, "xfr#"@, 0);
    if j >= 0 {
        u64_text(line.subrange(j + 4, digits_end(line, j + 4)))
    } else {
        None
    }
}

fn first_percent_word(t: &Vec<Vec<char>>) -> (r: Option<usize>)
    ensures
        match r {
            Some(i) => i < t.len() && first_percent_from(views(t@), 0) == i,
            None => first_percent_from(views(t@), 0) == -1,
        },
{
    let mut i: usize = 0;
    while i < t.len()
        invariant
            i <= t.len(),
            first_percent_from(views(t@), 0) == first_percent_from(views(t@), i as int),
        decreases t.len() - i,
    {
        let w = &t[i];
        proof {
            assert(views(t@)[i as int] == t@[i as int]@);
        }
        if w.len() > 0 && w[w.len() - 1] == '%' {
            return Some(i);
        }
        i += 1;
    }
    None
}

fn strip_percent(w: &Vec<char>) -> (r: Vec<char>)
    ensures
        r@ == without_percent(w@),
{
    let mut n = w.len();
    assert(w@.take(n as int) =~= w@);
    while n > 0 && w[n - 1] == '%'
        invariant
            n <= w.len(),
            without_percent(w@) == without_percent(w@.take(n as int)),
        decreases n,
    {
        assert(w@.take(n as int).drop_last() =~= w@.take(n - 1));
        n -= 1;
    }
    assert(w@.take(n as int).len() == 0 || w@.take(n as int).last() != '%');
    let mut out: Vec<char> = Vec::new();
    let mut i: usize = 0;
    while i < n
        invariant
            i <= n <= w.len(),
            out@ == w@.take(i as int),
        decreases n - i,
    {
        out.push(w[i]);
        assert(w@.take(i + 1) =~= w@.take(i as int).push(w@[i as int]));
        i += 1;
    }
    out
}

fn strip_separators(w: &Vec<char>) -> (r: Vec<char>)
    ensures
        r@ == without_separators(w@),
{
    let mut out: Vec<char> = Vec::new();
    let mut i: usize = 0;
    while i < w.len()
        invariant
            i <= w.len(),
            out@ == without_separators(w@.take(i as int)),
        decreases w.len() - i,
    {
        assert(w@.take(i + 1).drop_last() =~= w@.take(i as int));
        if w[i] != ',' && w[i] != '.' {
            out.push(w[i]);
        }
        i += 1;
    }
    assert(w@.take(w.len() as int) =~= w@);
    out
}

fn eta_of(w: &Vec<char>) -> (r: Option<u64>)
    ensures
        r == seconds_of(time_values(split_on(w@, ':'))),
{
    let pieces = split_chars(w, ':');
    let mut values: Vec<u64> = Vec::new();
    let mut i: usize = 0;
    while i < pieces.len()
        invariant
            i <= pieces.len(),
            views(pieces@) == split_on(w@, ':'),
            values@ == time_values(views(pieces@).take(i as int)),
        decreases pieces.len() - i,
    {
        proof {
            assert(views(pieces@).take(i + 1).drop_last() =~= views(pieces@).take(i as int));
            assert(views(pieces@).take(i + 1).last() == pieces@[i as int]@);
        }
        match parse_u64(&pieces[i]) {
            Some(v) => values.push(v),
            None => {},
        }
        i += 1;
    }
    assert(views(pieces@).take(pieces.len() as int) =~= views(pieces@));
    if values.len() == 3 {
        let total: u128 = (values[0] as u128) * 3600 + (values[1] as u128) * 60 + (values[2] as u128);
        Some((total % 0x1_0000_0000_0000_0000u128) as u64)
    } else if values.len() == 2 {
        let total: u128 = (values[0] as u128) * 60 + (values[1] as u128);
        Some((total % 0x1_0000_0000_0000_0000u128) as u64)
    } else {
        None
    }
}

fn find_marker(line: &Vec<char>, marker: &Vec<char>) -> (r: Option<usize>)
    requires
        marker.len() > 0,
    ensures
        match r {
            Some(j) => j + marker.len() <= line.len() && first_at(line@, marker@, 0) == j,
            None => first_at(line@, marker@, 0) == -1,
        },
{
    let mut i: usize = 0;
    while i <= line.len() && line.len() - i >= marker.len()
        invariant
            marker.len() > 0,
            first_at(line@, marker@, 0) == first_at(line@, marker@, i as int),
        decreases line.len() + 1 - i,
    {
        if occurs_at_exec(line, marker, i) {
            return Some(i);
        }
        i += 1;
    }
    None
}

fn files_counter(line: &Vec<char>) -> (r: Option<u64>)
    ensures
        r == files_of(line@),
{
    let marker = chars_of("xfr#");
    proof {
        reveal_strlit("xfr#");
    }
    let j = match find_marker(line, &marker) {
        Some(j) => j,
        None => {
            return None;
        },
    };
    let mut e: usize = j + 4;
    while e < line.len() && '0' <= line[e] && line[e] <= '9'
        invariant
            j + 4 <= e <= line.len(),
            digits_end(line@, j + 4) == digits_end(line@, e as int),
        decreases line.len() - e,
    {
        e += 1;
    }
    let mut digits: Vec<char> = Vec::new();
    let mut k: usize = j + 4;
    while k < e
        invariant
            j + 4 <= k <= e <= line.len(),
            digits@ == line@.subrange(j + 4, k as int),
        decreases e - k,
    {
        digits.push(line[k]);
        assert(line@.subrange(j + 4, k + 1) =~= line@.subrange(j + 4, k as int).push(line@[k as int]));
        k += 1;
    }
    parse_u64(&digits)
}

/// Reads the counters of one rsync progress line.
pub fn read_progress_line(line: &str) -> (r: ProgressReading)
    ensures
        ({
            let t = words(line@);
            let p = first_percent_from(t, 0);
            &&& r.copying == (p >= 0)
            &&& p < 0 ==> r.percent_text is None && r.transferred_bytes is None && r.speed_text is None
                && r.eta_seconds is None
            &&& p >= 0 ==> (r.percent_text matches Some(s) && s@ == without_percent(t[p]))
            &&& p >= 0 ==> r.transferred_bytes == (if p > 0 {
                u64_text(without_separators(t[p - 1]))
            } else {
                None
            })
            &&& p >= 0 ==> (if p + 1 < t.len() {
                r.speed_text matches Some(s) && s@ == t[p + 1]
            } else {
                r.speed_text is None
            })
            &&& p >= 0 ==> r.eta_seconds == (if p + 2 < t.len() {
                Some(seconds_of(time_values(split_on(t[p + 2], ':'))))
            } else {
                None
            })
            &&& r.files_transferred == files_of(line@)
        }),
{
    let chars = chars_of(line);
    let t = split_words(&chars);
    let files_transferred = files_counter(&chars);
    let p = match first_percent_word(&t) {
        Some(p) => p,
        None => {
            return ProgressReading {
                copying: false,
                percent_text: None,
                transferred_bytes: None,
                speed_text: None,
                eta_seconds: None,
                files_transferred,
            };
        },
    };
    proof {
        assert(views(t@)[p as int] == t@[p as int]@);
    }
    let percent_text = Some(string_of(&strip_percent(&t[p])));
    let transferred_bytes = if p > 0 {
        proof {
            assert(views(t@)[p - 1] == t@[p - 1]@);
        }
        parse_u64(&strip_separators(&t[p - 1]))
    } else {
        None
    };
    let speed_text = if t.len() - p > 1 {
        proof {
            assert(views(t@)[p + 1] == t@[p + 1]@);
        }
        Some(string_of(&t[p + 1]))
    } else {
        None
    };
    let eta_seconds = if t.len() - p > 2 {
        proof {
            assert(views(t@)[p + 2] == t@[p + 2]@);
        }
        Some(eta_of(&t[p + 2]))
    } else {
        None
    };
    ProgressReading {
        copying: true,
        percent_text,
        transferred_bytes,
        speed_text,
        eta_seconds,
        files_transferred,
    }
}

} // verus!
