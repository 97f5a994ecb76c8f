//! The system-log API's whitelist of services, the syslog priority names,
//! query normalisation and entry filtering.
use vstd::prelude::*;

use crate::text::{
    ascii_lower, ascii_lowercase, chars_of, contains_sub, extend_chars, extend_str, has_sub, parse_u64,
    seq_eq, string_of, text_eq, trim, trimmed, u64_text,
};

verus! {

/// Query parameters of the log API.
#[derive(Debug, Clone, Default)]
pub struct LogsQuery {
    pub service: Option<String>,
    pub limit: Option<usize>,
    pub since_minutes: Option<u64>,
    pub priority: Option<String>,
    pub search: Option<String>,
}

/// A query after defaults, bounds and whitelists were applied.
#[derive(Debug, Clone)]
pub struct NormalizedLogsQuery {
    pub service: String,
    pub limit: usize,
    pub since_minutes: u64,
    pub priority: String,
    pub search: Option<String>,
}

pub open spec fn priority_name(p: u8) -> Seq<char> {
    if p == 0 {
        "emergency"@
    } else if p == 1 {
        "alert"@
    } else if p == 2 {
        "critical"@
    } else if p == 3 {
        "error"@
    } else if p == 4 {
        "warning"@
    } else if p == 5 {
        "notice"@
    } else if p == 6 {
        "info"@
    } else if p == 7 {
        "debug"@
    } else {
        "unknown"@
    }
}

/// Syslog name of a journal priority.
pub fn priority_level(p: u8) -> (r: &'static str)
    ensures
        r@ == priority_name(p),
{
    match p {
        0 => "emergency",
        1 => "alert",
        2 => "critical",
        3 => "error",
        4 => "warning",
        5 => "notice",
        6 => "info",
        7 => "debug",
        _ => "unknown",
    }
}

pub open spec fn photoos_units() -> Seq<Seq<char>> {
    seq!["photoos.service"@]
}

pub open spec fn storage_units() -> Seq<Seq<char>> {
    seq!["photoos-storage-core.service"@, "photoos-storage-helper.service"@]
}

pub open spec fn notification_units() -> Seq<Seq<char>> {
    seq![
        "photoos-notification-aggregator.service"@,
        "photoos-storage-notification-producer.service"@,
    ]
}

pub open spec fn update_units() -> Seq<Seq<char>> {
    seq!["photoos-update-agent.service"@]
}

pub open spec fn installer_units() -> Seq<Seq<char>> {
    seq!["photoos-firstboot-installer.service"@, "photoos-setup-provisioner.service"@]
}

pub open spec fn ssh_units() -> Seq<Seq<char>> {
    seq!["ssh.service"@]
}

/// The systemd units whose journal a service key covers; `all` covers every
/// whitelisted unit once, in whitelist order.
pub open spec fn units_of(key: Seq<char>) -> Option<Seq<Seq<char>>> {
    if key == "all"@ {
        Some(
            photoos_units() + storage_units() + notification_units() + update_units()
                + installer_units() + ssh_units(),
        )
    } else if key == "photoos"@ {
        Some(photoos_units())
    } else if key == "storage"@ {
        Some(storage_units())
    } else if key == "notifications"@ {
        Some(notification_units())
    } else if key == "update"@ {
        Some(update_units())
    } else if key == "installer"@ {
        Some(installer_units())
    } else if key == "ssh"@ {
        Some(ssh_units())
    } else {
        None
    }
}

pub open spec fn str_views(v: Seq<&'static str>) -> Seq<Seq<char>> {
    Seq::new(v.len(), |i: int| v[i]@)
}

fn push_unit(v: &mut Vec<&'static str>, u: &'static str)
    ensures
        str_views(final(v)@) == str_views(old(v)@).push(u@),
{
    v.push(u);
    assert(str_views(v@) =~= str_views(old(v)@).push(u@));
}

fn is_key(key: &str, literal: &str) -> (r: bool)
    ensures
        r == (key@ == literal@),
{
    crate::text::text_eq(key, literal)
}

proof fn lemma_service_keys()
    ensures
        "all"@.len() == 3 && "all"@[0] == 'a',
        "photoos"@.len() == 7 && "photoos"@[0] == 'p',
        "storage"@.len() == 7 && "storage"@[0] == 's',
        "notifications"@.len() == 13 && "notifications"@[0] == 'n',
        "update"@.len() == 6 && "update"@[0] == 'u',
        "installer"@.len() == 9 && "installer"@[0] == 'i',
        "ssh"@.len() == 3 && "ssh"@[0] == 's',
{
    reveal_strlit("all");
    reveal_strlit("photoos");
    reveal_strlit("storage");
    reveal_strlit("notifications");
    reveal_strlit("update");
    reveal_strlit("installer");
    reveal_strlit("ssh");
}

/// The units of a whitelisted service key; any other key is refused.
pub fn service_units(key: &str) -> (r: Option<Vec<&'static str>>)
    ensures
        match units_of(key@) {
            Some(u) => r matches Some(v) && str_views(v@) == u,
            None => r is None,
        },
{
    proof {
        lemma_service_keys();
    }
    let mut v: Vec<&'static str> = Vec::new();
    assert(str_views(v@) =~= Seq::<Seq<char>>::empty());
    if is_key(key, "all") {
        push_unit(&mut v, "photoos.service");
        push_unit(&mut v, "photoos-storage-core.service");
        push_unit(&mut v, "photoos-storage-helper.service");
        push_unit(&mut v, "photoos-notification-aggregator.service");
        push_unit(&mut v, "photoos-storage-notification-producer.service");
        push_unit(&mut v, "photoos-update-agent.service");
        push_unit(&mut v, "photoos-firstboot-installer.service");
        push_unit(&mut v, "photoos-setup-provisioner.service");
        push_unit(&mut v, "ssh.service");
        assert(str_views(v@) =~= units_of(key@).unwrap());
        Some(v)
    } else if is_key(key, "photoos") {
        push_unit(&mut v, "photoos.service");
        assert(str_views(v@) =~= photoos_units());
        Some(v)
    } else if is_key(key, "storage") {
        push_unit(&mut v, "photoos-storage-core.service");
        push_unit(&mut v, "photoos-storage-helper.service");
        assert(str_views(v@) =~= storage_units());
        Some(v)
    } else if is_key(key, "notifications") {
        push_unit(&mut v, "photoos-notification-aggregator.service");
        push_unit(&mut v, "photoos-storage-notification-producer.service");
        assert(str_views(v@) =~= notification_units());
        Some(v)
    } else if is_key(key, "update") {
        push_unit(&mut v, "photoos-update-agent.service");
        assert(str_views(v@) =~= update_units());
        Some(v)
    } else if is_key(key, "installer") {
        push_unit(&mut v, "photoos-firstboot-installer.service");
        push_unit(&mut v, "photoos-setup-provisioner.service");
        assert(str_views(v@) =~= installer_units());
        Some(v)
    } else if is_key(key, "ssh") {
        push_unit(&mut v, "ssh.service");
        assert(str_views(v@) =~= ssh_units());
        Some(v)
    } else {
        None
    }
}

/// The accepted priority filters.
pub open spec fn priority_filter_ok(p: Seq<char>) -> bool {
    p == "all"@ || p == "emergency"@ || p == "alert"@ || p == "critical"@ || p == "error"@ || p
        == "warning"@ || p == "notice"@ || p == "info"@ || p == "debug"@
}

pub open spec fn clamp(v: int, lo: int, hi: int) -> int {
    if v < lo {
        lo
    } else if v > hi {
        hi
    } else {
        v
    }
}

pub open spec fn opt_or(o: Option<String>, d: Seq<char>) -> Seq<char> {
    match o {
        Some(s) => s@,
        None => d,
    }
}

/// The normalised service key.
pub open spec fn service_key(q: LogsQuery) -> Seq<char> {
    ascii_lower(trim(opt_or(q.service, "photoos"@)))
}

/// The normalised priority filter.
pub open spec fn priority_key(q: LogsQuery) -> Seq<char> {
    ascii_lower(trim(opt_or(q.priority, "all"@)))
}

/// The normalised search text: trimmed, lower-cased, absent when empty.
pub open spec fn search_key(q: LogsQuery) -> Option<Seq<char>> {
    match q.search {
        Some(s) => if trim(s@).len() == 0 {
            None
        } else {
            Some(ascii_lower(trim(s@)))
        },
        None => None,
    }
}

fn lowered_trim(s: &str) -> (r: Vec<char>)
    ensures
        r@ == ascii_lower(trim(s@)),
{
    let c = chars_of(s);
    let t = trimmed(&c);
    ascii_lowercase(&t)
}

fn in_list(p: &Vec<char>, literal: &str) -> (r: bool)
    ensures
        r == (p@ == literal@),
{
    let l = chars_of(literal);
    seq_eq(p, &l)
}

/// Applies defaults, whitelists and bounds to a log query: the service and
/// priority are trimmed and lower-cased and must be whitelisted, the limit is
/// clamped to 1..=2000 (default 200) and the window to 1..=43200 minutes
/// (default 120).
pub fn normalize_query(q: &LogsQuery) -> (r: Result<NormalizedLogsQuery, String>)
    ensures
        units_of(service_key(*q)) is None ==> r is Err,
        units_of(service_key(*q)) is Some && !priority_filter_ok(priority_key(*q)) ==> r is Err,
        units_of(service_key(*q)) is Some && priority_filter_ok(priority_key(*q)) ==> (r matches Ok(
            n,
        ) && {
            &&& n.service@ == service_key(*q)
            &&& n.priority@ == priority_key(*q)
            &&& n.limit == clamp(
                match q.limit {
                    Some(l) => l as int,
                    None => 200,
                },
                1,
                2000,
            )
            &&& n.since_minutes == clamp(
                match q.since_minutes {
                    Some(m) => m as int,
                    None => 120,
                },
                1,
                43200,
            )
            &&& match search_key(*q) {
                Some(s) => n.search matches Some(t) && t@ == s,
                None => n.search is None,
            }
        }),
{
    let service = match &q.service {
        Some(s) => lowered_trim(s.as_str()),
        None => lowered_trim("photoos"),
    };
    let service_text = string_of(&service);
    if service_units(service_text.as_str()).is_none() {
        return Err("Bilinmeyen log servisi.".to_string());
    }
    let priority = match &q.priority {
        Some(s) => lowered_trim(s.as_str()),
        None => lowered_trim("all"),
    };
    if !(in_list(&priority, "all") || in_list(&priority, "emergency") || in_list(&priority, "alert")
        || in_list(&priority, "critical") || in_list(&priority, "error") || in_list(
        &priority,
        "warning",
    ) || in_list(&priority, "notice") || in_list(&priority, "info") || in_list(
        &priority,
        "debug",
    )) {
        return Err("Bilinmeyen log seviyesi.".to_string());
    }
    let search = match &q.search {
        Some(s) => {
            let c = chars_of(s.as_str());
            let t = trimmed(&c);
            if t.len() == 0 {
                None
            } else {
                let l = ascii_lowercase(&t);
                Some(string_of(&l))
            }
        },
        None => None,
    };
    let limit_raw: usize = match q.limit {
        Some(l) => l,
        None => 200,
    };
    let limit: usize = if limit_raw < 1 {
        1
    } else if limit_raw > 2000 {
        2000
    } else {
        limit_raw
    };
    let since_raw: u64 = match q.since_minutes {
        Some(m) => m,
        None => 120,
    };
    let since_minutes: u64 = if since_raw < 1 {
        1
    } else if since_raw > 43200 {
        43200
    } else {
        since_raw
    };
    Ok(
        NormalizedLogsQuery {
            service: service_text,
            limit,
            since_minutes,
            priority: string_of(&priority),
            search,
        },
    )
}

/// The text a search is matched against: message, unit and identifier
/// separated by single spaces, lower-cased.
pub open spec fn searchable(message: Seq<char>, unit: Seq<char>, identifier: Seq<char>) -> Seq<char> {
    ascii_lower(message + " "@ + unit + " "@ + identifier)
}

/// Whether a journal entry passes the normalised query's priority filter
/// and search.
pub fn log_entry_matches(
    level: &str,
    message: &str,
    unit: &Option<String>,
    identifier: &Option<String>,
    q: &NormalizedLogsQuery,
) -> (r: bool)
    ensures
        r == ((q.priority@ == "all"@ || level@ == q.priority@) && match q.search {
            None => true,
            Some(s) => has_sub(
                searchable(message@, opt_or(*unit, Seq::empty()), opt_or(*identifier, Seq::empty())),
                s@,
            ),
        }),
{
    if !crate::text::text_eq(q.priority.as_str(), "all") && !crate::text::text_eq(
        level,
        q.priority.as_str(),
    ) {
        return false;
    }
    match &q.search {
        None => true,
        Some(s) => {
            let mut text = chars_of(message);
            let space = chars_of(" ");
            extend_chars(&mut text, &space);
            match unit {
                Some(u) => {
                    let uc = chars_of(u.as_str());
                    extend_chars(&mut text, &uc);
                },
                None => {},
            }
            extend_chars(&mut text, &space);
            match identifier {
                Some(i) => {
                    let ic = chars_of(i.as_str());
                    extend_chars(&mut text, &ic);
                },
                None => {},
            }
            proof {
                assert(text@ =~= message@ + " "@ + opt_or(*unit, Seq::empty()) + " "@ + opt_or(
                    *identifier,
                    Seq::empty(),
                ));
            }
            let lower = ascii_lowercase(&text);
            let needle = chars_of(s.as_str());
            contains_sub(&lower, &needle)
        },
    }
}

/// Entries counted per syslog level.
#[derive(Debug, Clone, Copy, PartialEq, Eq, Default)]
pub struct LevelCounts {
    pub emergency: u64,
    pub alert: u64,
    pub critical: u64,
    pub error: u64,
    pub warning: u64,
    pub notice: u64,
    pub info: u64,
    pub debug: u64,
    pub unknown: u64,
}

pub open spec fn count_level(levels: Seq<String>, name: Seq<char>) -> nat
    decreases levels.len(),
{
    if levels.len() == 0 {
        0
    } else {
        count_level(levels.drop_last(), name) + if levels.last()@ == name {
            1nat
        } else {
            0nat
        }
    }
}

pub open spec fn known_level(l: Seq<char>) -> bool {
    l == "emergency"@ || l == "alert"@ || l == "critical"@ || l == "error"@ || l == "warning"@ || l
        == "notice"@ || l == "info"@ || l == "debug"@
}

pub open spec fn count_unknown(levels: Seq<String>) -> nat
    decreases levels.len(),
{
    if levels.len() == 0 {
        0
    } else {
        count_unknown(levels.drop_last()) + if known_level(levels.last()@) {
            0nat
        } else {
            1nat
        }
    }
}

proof fn lemma_level_names()
    ensures
        "emergency"@.len() == 9 && "emergency"@[0] == 'e',
        "alert"@.len() == 5 && "alert"@[0] == 'a',
        "critical"@.len() == 8 && "critical"@[0] == 'c',
        "error"@.len() == 5 && "error"@[0] == 'e',
        "warning"@.len() == 7 && "warning"@[0] == 'w',
        "notice"@.len() == 6 && "notice"@[0] == 'n',
        "info"@.len() == 4 && "info"@[0] == 'i',
        "debug"@.len() == 5 && "debug"@[0] == 'd',
{
    reveal_strlit("emergency");
    reveal_strlit("alert");
    reveal_strlit("critical");
    reveal_strlit("error");
    reveal_strlit("warning");
    reveal_strlit("notice");
    reveal_strlit("info");
    reveal_strlit("debug");
}

/// Counts the entries of each level; levels outside the syslog names are
/// counted as unknown.
pub fn summarize_levels(levels: &Vec<String>) -> (c: LevelCounts)
    requires
        levels.len() < u64::MAX,
    ensures
        c.emergency == count_level(levels@, "emergency"@),
        c.alert == count_level(levels@, "alert"@),
        c.critical == count_level(levels@, "critical"@),
        c.error == count_level(levels@, "error"@),
        c.warning == count_level(levels@, "warning"@),
        c.notice == count_level(levels@, "notice"@),
        c.info == count_level(levels@, "info"@),
        c.debug == count_level(levels@, "debug"@),
        c.unknown == count_unknown(levels@),
{
    let mut c = LevelCounts {
        emergency: 0,
        alert: 0,
        critical: 0,
        error: 0,
        warning: 0,
        notice: 0,
        info: 0,
        debug: 0,
        unknown: 0,
    };
    let mut i: usize = 0;
    while i < levels.len()
        invariant
            i <= levels.len(),
            levels.len() < u64::MAX,
            c.emergency == count_level(levels@.take(i as int), "emergency"@),
            c.alert == count_level(levels@.take(i as int), "alert"@),
            c.critical == count_level(levels@.take(i as int), "critical"@),
            c.error == count_level(levels@.take(i as int), "error"@),
            c.warning == count_level(levels@.take(i as int), "warning"@),
            c.notice == count_level(levels@.take(i as int), "notice"@),
            c.info == count_level(levels@.take(i as int), "info"@),
            c.debug == count_level(levels@.take(i as int), "debug"@),
            c.unknown == count_unknown(levels@.take(i as int)),
            c.emergency <= i && c.alert <= i && c.critical <= i && c.error <= i && c.warning <= i
                && c.notice <= i && c.info <= i && c.debug <= i && c.unknown <= i,
        decreases levels.len() - i,
    {
        proof {
            assert(levels@.take(i + 1).drop_last() =~= levels@.take(i as int));
            assert(levels@.take(i + 1).last() == levels@[i as int]);
        }
        proof {
            lemma_level_names();
        }
        let l = levels[i].as_str();
        if crate::text::text_eq(l, "emergency") {
            c.emergency = c.emergency + 1;
        } else if crate::text::text_eq(l, "alert") {
            c.alert = c.alert + 1;
        } else if crate::text::text_eq(l, "critical") {
            c.critical = c.critical + 1;
        } else if crate::text::text_eq(l, "error") {
            c.error = c.error + 1;
        } else if crate::text::text_eq(l, "warning") {
            c.warning = c.warning + 1;
        } else if crate::text::text_eq(l, "notice") {
            c.notice = c.notice + 1;
        } else if crate::text::text_eq(l, "info") {
            c.info = c.info + 1;
        } else if crate::text::text_eq(l, "debug") {
            c.debug = c.debug + 1;
        } else {
            c.unknown = c.unknown + 1;
        }
        i += 1;
    }
    assert(levels@.take(levels.len() as int) =~= levels@);
    c
}

/// The query bounds always hold: between 1 and 2000 entries, between 1 and
/// 43200 minutes, and a service and priority from the whitelists.
pub proof fn lemma_normalized_query_is_bounded(q: LogsQuery, n: NormalizedLogsQuery)
    requires
        units_of(service_key(q)) is Some,
        priority_filter_ok(priority_key(q)),
        n.service@ == service_key(q),
        n.priority@ == priority_key(q),
        n.limit == clamp(
            match q.limit {
                Some(l) => l as int,
                None => 200,
            },
            1,
            2000,
        ),
        n.since_minutes == clamp(
            match q.since_minutes {
                Some(m) => m as int,
                None => 120,
            },
            1,
            43200,
        ),
    ensures
        1 <= n.limit <= 2000,
        1 <= n.since_minutes <= 43200,
        units_of(n.service@) is Some,
        priority_filter_ok(n.priority@),
{
}

/// Entries fetched from the journal for a query: five times the limit
/// (saturating), kept between the limit and 10000.
pub open spec fn journal_fetch_of(limit: usize) -> int {
    let wanted = if limit * 5 > usize::MAX {
        usize::MAX as int
    } else {
        limit * 5
    };
    if wanted < limit {
        limit as int
    } else if wanted > 10000 {
        10000
    } else {
        wanted
    }
}

/// How many entries to ask the journal for.
pub fn journal_fetch_count(limit: usize) -> (r: usize)
    requires
        limit <= 10000,
    ensures
        r == journal_fetch_of(limit),
{
    let wanted: usize = if limit > usize::MAX / 5 {
        usize::MAX
    } else {
        limit * 5
    };
    if wanted < limit {
        limit
    } else if wanted > 10000 {
        10000
    } else {
        wanted
    }
}

// ---------------------------------------------------------------------------
// Journal entries
// ---------------------------------------------------------------------------

/// Each key of the list is there once.
pub open spec fn unique_keys(entries: Seq<(Seq<char>, Option<Seq<char>>)>) -> bool {
    forall|i: int, j: int| 0 <= i < j < entries.len() ==> entries[i].0 != entries[j].0
}

/// What `serde_json::from_str` makes of a journal line read as a JSON
/// object: its entries in the order of `serde_json::Map` (the line's own
/// order, as the crate is built with `preserve_order`), each
/// with its value as text where that is a string (as is), a number (as
/// serde_json writes it) or a boolean (`true` or `false`), and no text for
/// null, arrays and objects; `None` when the line is not a JSON object.
pub uninterp spec fn json_scalar_entries(line: Seq<char>) -> Option<Seq<(Seq<char>, Option<Seq<char>>)>>;

/// Decodes a journal line with `serde_json::from_str` into a
/// `serde_json::Map` and turns each value into text as
/// `json_scalar_entries` says. Trusted: the result is
/// `json_scalar_entries` of the line, and a map holds each key once.
#[verifier::external_body]
fn json_scalar_fields(line: &str) -> (r: Option<Vec<(String, Option<String>)>>)
    ensures
        r.deep_view() == json_scalar_entries(line@),
        r is Some ==> unique_keys(r.unwrap().deep_view()),
{
    let object: serde_json::Map<String, serde_json::Value> = serde_json::from_str(line).ok()?;
    let mut out = Vec::new();
    for (key, value) in object {
        let text = match value {
            serde_json::Value::String(s) => Some(s),
            serde_json::Value::Number(n) => Some(n.to_string()),
            serde_json::Value::Bool(b) => Some(b.to_string()),
            _ => None,
        };
        out.push((key, text));
    }
    Some(out)
}

/// The text of a field from position `i` on: the first entry with the key.
pub open spec fn field_from(entries: Seq<(Seq<char>, Option<Seq<char>>)>, key: Seq<char>, i: int) -> Option<
    Seq<char>,
>
    decreases entries.len() - i,
{
    if i < 0 || i >= entries.len() {
        None
    } else if entries[i].0 == key {
        entries[i].1
    } else {
        field_from(entries, key, i + 1)
    }
}

/// The text of a field of a journal entry, if it has one.
pub open spec fn json_field(entries: Seq<(Seq<char>, Option<Seq<char>>)>, key: Seq<char>) -> Option<Seq<char>> {
    field_from(entries, key, 0)
}

/// The text of a field of a journal entry.
fn field_text(entries: &Vec<(String, Option<String>)>, key: &str) -> (r: Option<String>)
    ensures
        r.deep_view() == json_field(entries.deep_view(), key@),
{
    let ghost e = entries.deep_view();
    let mut i: usize = 0;
    while i < entries.len()
        invariant
            i <= entries.len(),
            e == entries.deep_view(),
            field_from(e, key@, 0) == field_from(e, key@, i as int),
        decreases entries.len() - i,
    {
        assert(e[i as int] == entries[i as int].deep_view());
        if text_eq(entries[i].0.as_str(), key) {
            return match &entries[i].1 {
                Some(t) => Some(t.clone()),
                None => None,
            };
        }
        i += 1;
    }
    None
}

/// A journal entry as the log API lists it, its time in microseconds.
#[derive(Debug, Clone)]
pub struct JournalRecord {
    pub id: String,
    pub timestamp_micros: u64,
    pub priority: u8,
    pub level: String,
    pub unit: Option<String>,
    pub identifier: Option<String>,
    pub pid: Option<String>,
    pub boot_id: Option<String>,
    pub message: String,
}

/// The priority of an entry: its `PRIORITY` as a number that fits a byte,
/// else 255.
pub open spec fn journal_priority(e: Seq<(Seq<char>, Option<Seq<char>>)>) -> u8 {
    match json_field(e, "PRIORITY"@) {
        Some(t) => match u64_text(t) {
            Some(n) => if n <= 255 {
                n as u8
            } else {
                255
            },
            None => 255,
        },
        None => 255,
    }
}

/// The id of an entry: its journal cursor, else the raw time stamp, the
/// process id (or `-`) and the identifier (else the unit, else `system`),
/// joined by colons.
pub open spec fn journal_id(e: Seq<(Seq<char>, Option<Seq<char>>)>, raw: Seq<char>) -> Seq<char> {
    match json_field(e, "__CURSOR"@) {
        Some(c) => c,
        None => raw + ":"@ + match json_field(e, "_PID"@) {
            Some(p) => p,
            None => "-"@,
        } + ":"@ + match (json_field(e, "SYSLOG_IDENTIFIER"@), json_field(e, "_SYSTEMD_UNIT"@)) {
            (Some(i), _) => i,
            (None, Some(u)) => u,
            (None, None) => "system"@,
        },
    }
}

/// What a journal entry lists: nothing without a `__REALTIME_TIMESTAMP`
/// that is a number of microseconds; else that time, the priority and its
/// level, unit, identifier, process and boot id, the message (empty when
/// missing) and the id.
pub open spec fn journal_record_spec(e: Seq<(Seq<char>, Option<Seq<char>>)>, r: Option<JournalRecord>) -> bool {
    match json_field(e, "__REALTIME_TIMESTAMP"@) {
        None => r is None,
        Some(raw) => match u64_text(raw) {
            None => r is None,
            Some(micros) => r matches Some(x) && {
                &&& x.timestamp_micros == micros
                &&& x.priority == journal_priority(e)
                &&& x.level@ == priority_name(x.priority)
                &&& x.unit.deep_view() == json_field(e, "_SYSTEMD_UNIT"@)
                &&& x.identifier.deep_view() == json_field(e, "SYSLOG_IDENTIFIER"@)
                &&& x.pid.deep_view() == json_field(e, "_PID"@)
                &&& x.boot_id.deep_view() == json_field(e, "_BOOT_ID"@)
                &&& x.message@ == match json_field(e, "MESSAGE"@) {
                    Some(m) => m,
                    None => Seq::<char>::empty(),
                }
                &&& x.id@ == journal_id(e, raw)
            },
        },
    }
}

fn or_default(o: &Option<String>) -> (r: String)
    ensures
        r@ == match o {
            Some(m) => m@,
            None => Seq::<char>::empty(),
        },
{
    match o {
        Some(m) => m.clone(),
        None => String::new(),
    }
}

/// The entry that the fields of a journal line describe.
pub fn record_from_fields(entries: &Vec<(String, Option<String>)>) -> (r: Option<JournalRecord>)
    ensures
        journal_record_spec(entries.deep_view(), r),
{
    let raw = match field_text(entries, "__REALTIME_TIMESTAMP") {
        Some(t) => t,
        None => return None,
    };
    let micros = match parse_u64(&chars_of(raw.as_str())) {
        Some(n) => n,
        None => return None,
    };
    let priority: u8 = match field_text(entries, "PRIORITY") {
        Some(t) => match parse_u64(&chars_of(t.as_str())) {
            Some(n) => if n <= 255 {
                n as u8
            } else {
                255
            },
            None => 255,
        },
        None => 255,
    };
    let unit = field_text(entries, "_SYSTEMD_UNIT");
    let identifier = field_text(entries, "SYSLOG_IDENTIFIER");
    let pid = field_text(entries, "_PID");
    let boot_id = field_text(entries, "_BOOT_ID");
    let message = or_default(&field_text(entries, "MESSAGE"));
    let id = match field_text(entries, "__CURSOR") {
        Some(c) => c,
        None => {
            let mut out = chars_of(raw.as_str());
            extend_str(&mut out, ":");
            match &pid {
                Some(p) => extend_str(&mut out, p.as_str()),
                None => extend_str(&mut out, "-"),
            }
            extend_str(&mut out, ":");
            match (&identifier, &unit) {
                (Some(i), _) => extend_str(&mut out, i.as_str()),
                (None, Some(u)) => extend_str(&mut out, u.as_str()),
                (None, None) => extend_str(&mut out, "system"),
            }
            string_of(&out)
        },
    };
    let level = priority_level(priority).to_string();
    Some(JournalRecord { id, timestamp_micros: micros, priority, level, unit, identifier, pid, boot_id, message })
}

/// The entry a line of `journalctl --output=json` describes, if any.
pub fn journal_record(line: &str) -> (r: Option<JournalRecord>)
    ensures
        match json_scalar_entries(line@) {
            None => r is None,
            Some(e) => journal_record_spec(e, r),
        },
{
    match json_scalar_fields(line) {
        None => None,
        Some(entries) => record_from_fields(&entries),
    }
}

} // verus!
