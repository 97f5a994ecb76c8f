//! The notification centre: what producers report, how each report is
//! normalised, and the aggregate of all reports with its counts, its lists
//! and its overall state.
use vstd::prelude::*;
use vstd::relations::{sorted_by, total_ordering};
use vstd::seq_lib::lemma_sorted_unique;

use crate::mobile::{sat_sub, saturating_sub};
use crate::paths::{file_extension, file_name, file_name_of, file_stem, file_stem_of, last_index};
use crate::text::{
    ascii_lower, ascii_lowercase, chars_of, decimal, decimal_of, extend_chars, extend_str, seq_eq,
    string_of, trim, trimmed, views, text_eq, str_ends_with, has_suffix,
};

verus! {

/// Seconds after which a producer report counts as stale.
pub const NOTIFICATION_FRESH_SECONDS: i64 = 120;

/// Seconds between two refreshes of the aggregate.
pub const NOTIFICATION_RUNTIME_INTERVAL_SECONDS: u64 = 15;

/// One report of a notification producer.
#[derive(Debug, Clone)]
pub struct NotificationItem {
    pub id: String,
    pub producer: String,
    pub producer_version: String,
    pub status: String,
    pub level: String,
    pub code: String,
    pub title: String,
    pub message: String,
    pub error: String,
    pub generated_at: Option<i64>,
    pub age_seconds: Option<i64>,
    pub fresh: bool,
    pub state_file: String,
    pub active: bool,
}

/// How many reports fall in each class.
#[derive(Debug, Clone, Default)]
pub struct NotificationCounts {
    pub total: usize,
    pub active: usize,
    pub success: usize,
    pub info: usize,
    pub warning: usize,
    pub error: usize,
    pub critical: usize,
    pub fresh: usize,
    pub stale: usize,
}

/// The state of the system as all reports together give it.
#[derive(Debug, Clone, Default)]
pub struct NotificationOverall {
    pub status: String,
    pub level: String,
    pub code: String,
    pub title: String,
    pub message: String,
}

/// Everything the producers reported, classified.
#[derive(Debug, Clone)]
pub struct NotificationAggregate {
    pub schema_version: u32,
    pub producer_name: String,
    pub producer_version: String,
    pub generated_at: i64,
    pub overall: NotificationOverall,
    pub counts: NotificationCounts,
    pub notifications: Vec<NotificationItem>,
    pub problems: Vec<NotificationItem>,
    pub information: Vec<NotificationItem>,
    pub healthy: Vec<NotificationItem>,
}

// ---------------------------------------------------------------------------
// Levels and statuses
// ---------------------------------------------------------------------------

/// A level or status as it is compared: trimmed and ASCII-lower-cased.
pub open spec fn level_key(s: Seq<char>) -> Seq<char> {
    ascii_lower(trim(s))
}

/// The rank of a level: critical 5, error 4, warning 3, info 2, success 1,
/// anything else 0.
pub open spec fn level_rank(level: Seq<char>) -> u8 {
    let k = level_key(level);
    if k == "critical"@ {
        5
    } else if k == "error"@ || k == "danger"@ {
        4
    } else if k == "warning"@ || k == "warn"@ {
        3
    } else if k == "info"@ || k == "information"@ {
        2
    } else if k == "success"@ || k == "healthy"@ || k == "ok"@ {
        1
    } else {
        0
    }
}

/// A level that by itself makes a report a problem.
pub open spec fn level_active(level: Seq<char>) -> bool {
    let k = level_key(level);
    k == "warning"@ || k == "warn"@ || k == "error"@ || k == "danger"@ || k == "critical"@
}

/// A status that makes a report a problem.
pub open spec fn status_problem(status: Seq<char>) -> bool {
    let k = level_key(status);
    k == "problem"@ || k == "warning"@ || k == "error"@ || k == "critical"@ || k == "degraded"@
        || k == "failed"@
}

pub open spec fn success_level(level: Seq<char>) -> bool {
    let k = level_key(level);
    k == "success"@ || k == "healthy"@ || k == "ok"@
}

pub open spec fn info_level(level: Seq<char>) -> bool {
    let k = level_key(level);
    k == "info"@ || k == "information"@
}

pub open spec fn warning_level(level: Seq<char>) -> bool {
    let k = level_key(level);
    k == "warning"@ || k == "warn"@
}

pub open spec fn error_level(level: Seq<char>) -> bool {
    let k = level_key(level);
    k == "error"@ || k == "danger"@
}

/// Critical reports are recognised without trimming the level.
pub open spec fn critical_level(level: Seq<char>) -> bool {
    ascii_lower(level) == "critical"@
}

fn key_of(s: &str) -> (r: Vec<char>)
    ensures
        r@ == level_key(s@),
{
    let c = chars_of(s);
    let t = trimmed(&c);
    ascii_lowercase(&t)
}

fn is_word(k: &Vec<char>, word: &str) -> (r: bool)
    ensures
        r == (k@ == word@),
{
    let w = chars_of(word);
    seq_eq(k, &w)
}

/// The rank by which reports are ordered.
pub fn notification_level_rank(level: &str) -> (r: u8)
    ensures
        r == level_rank(level@),
{
    let k = key_of(level);
    if is_word(&k, "critical") {
        5
    } else if is_word(&k, "error") || is_word(&k, "danger") {
        4
    } else if is_word(&k, "warning") || is_word(&k, "warn") {
        3
    } else if is_word(&k, "info") || is_word(&k, "information") {
        2
    } else if is_word(&k, "success") || is_word(&k, "healthy") || is_word(&k, "ok") {
        1
    } else {
        0
    }
}

/// Whether a level by itself makes a report a problem.
pub fn notification_level_active(level: &str) -> (r: bool)
    ensures
        r == level_active(level@),
{
    let k = key_of(level);
    is_word(&k, "warning") || is_word(&k, "warn") || is_word(&k, "error") || is_word(&k, "danger")
        || is_word(&k, "critical")
}

fn status_is_problem(status: &str) -> (r: bool)
    ensures
        r == status_problem(status@),
{
    let k = key_of(status);
    is_word(&k, "problem") || is_word(&k, "warning") || is_word(&k, "error") || is_word(
        &k,
        "critical",
    ) || is_word(&k, "degraded") || is_word(&k, "failed")
}

/// The severity that the realtime channel shows for a level (lower-cased,
/// not trimmed).
pub open spec fn severity_of(level: Seq<char>) -> Seq<char> {
    let k = ascii_lower(level);
    if k == "critical"@ {
        "critical"@
    } else if k == "error"@ {
        "error"@
    } else if k == "warning"@ {
        "warning"@
    } else if k == "success"@ || k == "healthy"@ {
        "success"@
    } else {
        "info"@
    }
}

/// The severity of a level on the realtime channel.
pub fn websocket_severity(level: &str) -> (r: &'static str)
    ensures
        r@ == severity_of(level@),
{
    let c = chars_of(level);
    let k = ascii_lowercase(&c);
    if is_word(&k, "critical") {
        "critical"
    } else if is_word(&k, "error") {
        "error"
    } else if is_word(&k, "warning") {
        "warning"
    } else if is_word(&k, "success") || is_word(&k, "healthy") {
        "success"
    } else {
        "info"
    }
}

// ---------------------------------------------------------------------------
// One report
// ---------------------------------------------------------------------------

fn copy_item(item: &NotificationItem) -> (r: NotificationItem)
    ensures
        r == *item,
{
    NotificationItem {
        id: item.id.clone(),
        producer: item.producer.clone(),
        producer_version: item.producer_version.clone(),
        status: item.status.clone(),
        level: item.level.clone(),
        code: item.code.clone(),
        title: item.title.clone(),
        message: item.message.clone(),
        error: item.error.clone(),
        generated_at: item.generated_at,
        age_seconds: item.age_seconds,
        fresh: item.fresh,
        state_file: item.state_file.clone(),
        active: item.active,
    }
}

/// The key under which the realtime channel recognises a report again:
/// producer and id, else producer and code, else producer, title and
/// message, joined with `:`.
pub open spec fn identity_of(item: NotificationItem) -> Seq<char> {
    if trim(item.id@).len() != 0 {
        item.producer@ + ":"@ + item.id@
    } else if trim(item.code@).len() != 0 {
        item.producer@ + ":"@ + item.code@
    } else {
        item.producer@ + ":"@ + item.title@ + ":"@ + item.message@
    }
}

/// The identity of a report.
pub fn notification_identity(item: &NotificationItem) -> (r: String)
    ensures
        r@ == identity_of(*item),
{
    let mut out = chars_of(item.producer.as_str());
    extend_str(&mut out, ":");
    let id = chars_of(item.id.as_str());
    let code = chars_of(item.code.as_str());
    if trimmed(&id).len() != 0 {
        extend_chars(&mut out, &id);
    } else if trimmed(&code).len() != 0 {
        extend_chars(&mut out, &code);
    } else {
        extend_str(&mut out, item.title.as_str());
        extend_str(&mut out, ":");
        extend_str(&mut out, item.message.as_str());
    }
    string_of(&out)
}

pub open spec fn bool_text(b: bool) -> Seq<char> {
    if b {
        "true"@
    } else {
        "false"@
    }
}

/// What a report says, as the realtime channel compares it: status, level,
/// code, title, message, error and activity, joined with `|`.
pub open spec fn content_signature_of(item: NotificationItem) -> Seq<char> {
    item.status@ + "|"@ + item.level@ + "|"@ + item.code@ + "|"@ + item.title@ + "|"@
        + item.message@ + "|"@ + item.error@ + "|"@ + bool_text(item.active)
}

/// The content signature of a report.
pub fn notification_content_signature(item: &NotificationItem) -> (r: String)
    ensures
        r@ == content_signature_of(*item),
{
    let mut out = chars_of(item.status.as_str());
    extend_str(&mut out, "|");
    extend_str(&mut out, item.level.as_str());
    extend_str(&mut out, "|");
    extend_str(&mut out, item.code.as_str());
    extend_str(&mut out, "|");
    extend_str(&mut out, item.title.as_str());
    extend_str(&mut out, "|");
    extend_str(&mut out, item.message.as_str());
    extend_str(&mut out, "|");
    extend_str(&mut out, item.error.as_str());
    extend_str(&mut out, "|");
    if item.active {
        extend_str(&mut out, "true");
    } else {
        extend_str(&mut out, "false");
    }
    string_of(&out)
}

/// The time a report stands for: its own, else `now`.
pub open spec fn report_time(item: NotificationItem, now: i64) -> i64 {
    match item.generated_at {
        Some(t) => t,
        None => now,
    }
}

pub open spec fn default_level(item: NotificationItem) -> Seq<char> {
    if trim(item.level@).len() == 0 {
        if item.active {
            "warning"@
        } else {
            "info"@
        }
    } else {
        item.level@
    }
}

pub open spec fn default_status(item: NotificationItem) -> Seq<char> {
    if trim(item.status@).len() == 0 {
        if item.active {
            "problem"@
        } else {
            "healthy"@
        }
    } else {
        item.status@
    }
}

/// Fills in what a producer left out and derives age, freshness and
/// activity: an empty id becomes `producer:code` (both trimmed), an empty
/// producer the stem of the state file (or `unknown`), an empty version
/// `1.0`, an empty level `warning` or `info` and an empty status `problem`
/// or `healthy` as the report is active or not, a missing time `now`; the
/// report is fresh when at most 120 seconds old, and active when it was so
/// already or its level or status marks a problem.
pub fn normalize_notification_item(item: NotificationItem, state_file: &str, now: i64) -> (r:
    NotificationItem)
    ensures
        r.id@ == (if trim(item.id@).len() == 0 {
            trim(item.producer@) + ":"@ + trim(item.code@)
        } else {
            item.id@
        }),
        r.producer@ == (if trim(item.producer@).len() == 0 {
            match file_stem(state_file@) {
                Some(stem) => stem,
                None => "unknown"@,
            }
        } else {
            item.producer@
        }),
        r.producer_version@ == (if trim(item.producer_version@).len() == 0 {
            "1.0"@
        } else {
            item.producer_version@
        }),
        r.level@ == default_level(item),
        r.status@ == default_status(item),
        r.code == item.code,
        r.title == item.title,
        r.message == item.message,
        r.error == item.error,
        r.generated_at == Some(report_time(item, now)),
        r.age_seconds == Some(sat_sub(now, report_time(item, now)) as i64),
        r.fresh == (sat_sub(now, report_time(item, now)) <= NOTIFICATION_FRESH_SECONDS),
        r.state_file@ == state_file@,
        r.active == (item.active || level_active(default_level(item)) || status_problem(
            default_status(item),
        )),
{
    let mut item = item;
    let id = chars_of(item.id.as_str());
    if trimmed(&id).len() == 0 {
        let producer = chars_of(item.producer.as_str());
        let code = chars_of(item.code.as_str());
        let mut out = trimmed(&producer);
        extend_str(&mut out, ":");
        let tc = trimmed(&code);
        extend_chars(&mut out, &tc);
        item.id = string_of(&out);
    }
    let producer = chars_of(item.producer.as_str());
    if trimmed(&producer).len() == 0 {
        item.producer = match file_stem_of(state_file) {
            Some(stem) => stem,
            None => string_of(&chars_of("unknown")),
        };
    }
    let version = chars_of(item.producer_version.as_str());
    if trimmed(&version).len() == 0 {
        item.producer_version = string_of(&chars_of("1.0"));
    }
    let level = chars_of(item.level.as_str());
    if trimmed(&level).len() == 0 {
        item.level = if item.active {
            string_of(&chars_of("warning"))
        } else {
            string_of(&chars_of("info"))
        };
    }
    let status = chars_of(item.status.as_str());
    if trimmed(&status).len() == 0 {
        item.status = if item.active {
            string_of(&chars_of("problem"))
        } else {
            string_of(&chars_of("healthy"))
        };
    }
    let generated_at = match item.generated_at {
        Some(t) => t,
        None => now,
    };
    item.generated_at = Some(generated_at);
    let age = saturating_sub(now, generated_at);
    item.age_seconds = Some(age);
    item.fresh = age <= NOTIFICATION_FRESH_SECONDS;
    item.state_file = string_of(&chars_of(state_file));
    if !item.active {
        item.active = notification_level_active(item.level.as_str()) || status_is_problem(
            item.status.as_str(),
        );
    }
    item
}

// ---------------------------------------------------------------------------
// The aggregate
// ---------------------------------------------------------------------------

/// A class of reports that the aggregate counts or lists.
pub enum ReportClass {
    Active,
    Success,
    Info,
    Warning,
    Error,
    Critical,
    Fresh,
    Information,
    Healthy,
}

/// Whether a report belongs to a class. `Information` is the inactive
/// info reports, `Healthy` all inactive ones.
pub open spec fn in_class(c: ReportClass, item: NotificationItem) -> bool {
    match c {
        ReportClass::Active => item.active,
        ReportClass::Success => success_level(item.level@),
        ReportClass::Info => info_level(item.level@),
        ReportClass::Warning => warning_level(item.level@),
        ReportClass::Error => error_level(item.level@),
        ReportClass::Critical => critical_level(item.level@),
        ReportClass::Fresh => item.fresh,
        ReportClass::Information => !item.active && info_level(item.level@),
        ReportClass::Healthy => !item.active,
    }
}

/// The reports of a class, in their order.
pub open spec fn of_class(items: Seq<NotificationItem>, c: ReportClass) -> Seq<NotificationItem> {
    items.filter(|item: NotificationItem| in_class(c, item))
}

/// How many reports belong to a class.
pub open spec fn class_count(items: Seq<NotificationItem>, c: ReportClass) -> nat {
    of_class(items, c).len()
}

proof fn lemma_of_class_step(items: Seq<NotificationItem>, c: ReportClass, i: int)
    requires
        0 <= i < items.len(),
    ensures
        of_class(items.take(i + 1), c) == (if in_class(c, items[i]) {
            of_class(items.take(i), c).push(items[i])
        } else {
            of_class(items.take(i), c)
        }),
{
    reveal(Seq::filter);
    assert(items.take(i + 1).drop_last() =~= items.take(i));
    assert(items.take(i + 1).last() == items[i]);
}

proof fn lemma_of_class_bound(items: Seq<NotificationItem>, c: ReportClass)
    ensures
        class_count(items, c) <= items.len(),
{
    items.lemma_filter_len(|item: NotificationItem| in_class(c, item));
}

fn belongs(item: &NotificationItem, c: &ReportClass) -> (r: bool)
    ensures
        r == in_class(*c, *item),
{
    match c {
        ReportClass::Active => item.active,
        ReportClass::Success => {
            let k = key_of(item.level.as_str());
            is_word(&k, "success") || is_word(&k, "healthy") || is_word(&k, "ok")
        },
        ReportClass::Info => {
            let k = key_of(item.level.as_str());
            is_word(&k, "info") || is_word(&k, "information")
        },
        ReportClass::Warning => {
            let k = key_of(item.level.as_str());
            is_word(&k, "warning") || is_word(&k, "warn")
        },
        ReportClass::Error => {
            let k = key_of(item.level.as_str());
            is_word(&k, "error") || is_word(&k, "danger")
        },
        ReportClass::Critical => {
            let l = chars_of(item.level.as_str());
            let k = ascii_lowercase(&l);
            is_word(&k, "critical")
        },
        ReportClass::Fresh => item.fresh,
        ReportClass::Information => {
            let k = key_of(item.level.as_str());
            !item.active && (is_word(&k, "info") || is_word(&k, "information"))
        },
        ReportClass::Healthy => !item.active,
    }
}

fn count_class(items: &Vec<NotificationItem>, c: ReportClass) -> (r: usize)
    ensures
        r == class_count(items@, c),
{
    let mut n: usize = 0;
    let mut i: usize = 0;
    while i < items.len()
        invariant
            i <= items.len(),
            n == class_count(items@.take(i as int), c),
            n <= i,
        decreases items.len() - i,
    {
        proof {
            lemma_of_class_step(items@, c, i as int);
        }
        if belongs(&items[i], &c) {
            n = n + 1;
        }
        i += 1;
    }
    assert(items@.take(items.len() as int) =~= items@);
    n
}

fn select_class(items: &Vec<NotificationItem>, c: ReportClass) -> (r: Vec<NotificationItem>)
    ensures
        r@ == of_class(items@, c),
{
    let mut out: Vec<NotificationItem> = Vec::new();
    let mut i: usize = 0;
    while i < items.len()
        invariant
            i <= items.len(),
            out@ == of_class(items@.take(i as int), c),
        decreases items.len() - i,
    {
        proof {
            lemma_of_class_step(items@, c, i as int);
        }
        if belongs(&items[i], &c) {
            out.push(copy_item(&items[i]));
        }
        i += 1;
    }
    assert(items@.take(items.len() as int) =~= items@);
    out
}

/// The overall state: the worst of critical, error and warning reports,
/// else healthy. Fields are status, level, code, title and message.
pub open spec fn overall_of(critical: nat, error: nat, warning: nat, empty: bool) -> (
    Seq<char>,
    Seq<char>,
    Seq<char>,
    Seq<char>,
    Seq<char>,
) {
    if critical > 0 {
        (
            "critical"@,
            "critical"@,
            "notification_critical"@,
            "Kritik sistem uyarıları"@,
            decimal(critical) + " kritik bildirim aktif."@,
        )
    } else if error > 0 {
        (
            "error"@,
            "error"@,
            "notification_error"@,
            "Sistem hataları"@,
            decimal(error) + " hata bildirimi aktif."@,
        )
    } else if warning > 0 {
        (
            "warning"@,
            "warning"@,
            "notification_warning"@,
            "Sistem uyarıları"@,
            decimal(warning) + " uyarı bildirimi aktif."@,
        )
    } else {
        (
            "healthy"@,
            "success"@,
            "notification_healthy"@,
            "Sistem bildirimleri normal"@,
            if empty {
                "Aktif bildirim üreticisi bulunmuyor."@
            } else {
                "Aktif bir sistem problemi bulunmuyor."@
            },
        )
    }
}

pub open spec fn overall_fields(o: NotificationOverall) -> (
    Seq<char>,
    Seq<char>,
    Seq<char>,
    Seq<char>,
    Seq<char>,
) {
    (o.status@, o.level@, o.code@, o.title@, o.message@)
}

fn text(s: &str) -> (r: String)
    ensures
        r@ == s@,
{
    string_of(&chars_of(s))
}

fn count_message(n: usize, tail: &str) -> (r: String)
    ensures
        r@ == decimal(n as nat) + tail@,
{
    let mut out = decimal_of(n as u64);
    extend_str(&mut out, tail);
    string_of(&out)
}

fn overall_state(critical: usize, error: usize, warning: usize, empty: bool) -> (r:
    NotificationOverall)
    ensures
        overall_fields(r) == overall_of(critical as nat, error as nat, warning as nat, empty),
{
    if critical > 0 {
        NotificationOverall {
            status: text("critical"),
            level: text("critical"),
            code: text("notification_critical"),
            title: text("Kritik sistem uyarıları"),
            message: count_message(critical, " kritik bildirim aktif."),
        }
    } else if error > 0 {
        NotificationOverall {
            status: text("error"),
            level: text("error"),
            code: text("notification_error"),
            title: text("Sistem hataları"),
            message: count_message(error, " hata bildirimi aktif."),
        }
    } else if warning > 0 {
        NotificationOverall {
            status: text("warning"),
            level: text("warning"),
            code: text("notification_warning"),
            title: text("Sistem uyarıları"),
            message: count_message(warning, " uyarı bildirimi aktif."),
        }
    } else {
        NotificationOverall {
            status: text("healthy"),
            level: text("success"),
            code: text("notification_healthy"),
            title: text("Sistem bildirimleri normal"),
            message: if empty {
                text("Aktif bildirim üreticisi bulunmuyor.")
            } else {
                text("Aktif bir sistem problemi bulunmuyor.")
            },
        }
    }
}

/// Builds the aggregate of the given reports at time `now`: the reports in
/// their order; the active ones as problems, the inactive info ones as
/// information and all inactive ones as healthy; the count of each class,
/// stale being those not fresh; and the overall state.
pub fn build_notification_aggregate(notifications: Vec<NotificationItem>, now: i64) -> (a:
    NotificationAggregate)
    ensures
        a.schema_version == 1,
        a.producer_name@ == "photoos-notification-runtime"@,
        a.producer_version@ == "6.0a"@,
        a.generated_at == now,
        a.notifications@ == notifications@,
        a.problems@ == of_class(notifications@, ReportClass::Active),
        a.information@ == of_class(notifications@, ReportClass::Information),
        a.healthy@ == of_class(notifications@, ReportClass::Healthy),
        a.counts.total == notifications.len(),
        a.counts.active == class_count(notifications@, ReportClass::Active),
        a.counts.success == class_count(notifications@, ReportClass::Success),
        a.counts.info == class_count(notifications@, ReportClass::Info),
        a.counts.warning == class_count(notifications@, ReportClass::Warning),
        a.counts.error == class_count(notifications@, ReportClass::Error),
        a.counts.critical == class_count(notifications@, ReportClass::Critical),
        a.counts.fresh == class_count(notifications@, ReportClass::Fresh),
        a.counts.stale == notifications.len() - class_count(notifications@, ReportClass::Fresh),
        overall_fields(a.overall) == overall_of(
            class_count(notifications@, ReportClass::Critical),
            class_count(notifications@, ReportClass::Error),
            class_count(notifications@, ReportClass::Warning),
            notifications.len() == 0,
        ),
{
    let active = count_class(&notifications, ReportClass::Active);
    let success = count_class(&notifications, ReportClass::Success);
    let info = count_class(&notifications, ReportClass::Info);
    let warning = count_class(&notifications, ReportClass::Warning);
    let error = count_class(&notifications, ReportClass::Error);
    let critical = count_class(&notifications, ReportClass::Critical);
    let fresh = count_class(&notifications, ReportClass::Fresh);
    proof {
        lemma_of_class_bound(notifications@, ReportClass::Fresh);
    }
    let stale = notifications.len() - fresh;
    let problems = select_class(&notifications, ReportClass::Active);
    let information = select_class(&notifications, ReportClass::Information);
    let healthy = select_class(&notifications, ReportClass::Healthy);
    let overall = overall_state(critical, error, warning, notifications.len() == 0);
    NotificationAggregate {
        schema_version: 1,
        producer_name: text("photoos-notification-runtime"),
        producer_version: text("6.0a"),
        generated_at: now,
        overall,
        counts: NotificationCounts {
            total: notifications.len(),
            active,
            success,
            info,
            warning,
            error,
            critical,
            fresh,
            stale,
        },
        notifications,
        problems,
        information,
        healthy,
    }
}

// ---------------------------------------------------------------------------
// Laws of the aggregate
// ---------------------------------------------------------------------------

/// Every report is either a problem or healthy, never both: the two lists
/// together have as many entries as there are reports.
pub proof fn lemma_problems_and_healthy_partition(items: Seq<NotificationItem>)
    ensures
        class_count(items, ReportClass::Active) + class_count(items, ReportClass::Healthy)
            == items.len(),
    decreases items.len(),
{
    if items.len() == 0 {
        reveal(Seq::filter);
    } else {
        let n = items.len() - 1;
        lemma_problems_and_healthy_partition(items.take(n));
        lemma_of_class_step(items, ReportClass::Active, n);
        lemma_of_class_step(items, ReportClass::Healthy, n);
        assert(items.take(n + 1) =~= items);
    }
}

/// The information list is the info reports among the healthy ones.
pub proof fn lemma_information_is_healthy_info(items: Seq<NotificationItem>)
    ensures
        of_class(items, ReportClass::Information) == of_class(
            of_class(items, ReportClass::Healthy),
            ReportClass::Info,
        ),
    decreases items.len(),
{
    if items.len() == 0 {
        reveal(Seq::filter);
        assert(of_class(items, ReportClass::Information) =~= Seq::<NotificationItem>::empty());
        assert(of_class(items, ReportClass::Healthy) =~= Seq::<NotificationItem>::empty());
        assert(of_class(Seq::<NotificationItem>::empty(), ReportClass::Info)
            =~= Seq::<NotificationItem>::empty());
    } else {
        let n = items.len() - 1;
        lemma_information_is_healthy_info(items.take(n));
        lemma_of_class_step(items, ReportClass::Information, n);
        lemma_of_class_step(items, ReportClass::Healthy, n);
        let h = of_class(items.take(n), ReportClass::Healthy);
        if !items[n].active {
            lemma_of_class_step(h.push(items[n]), ReportClass::Info, h.len() as int);
            assert(h.push(items[n]).take(h.len() as int) =~= h);
            assert(h.push(items[n]).take(h.len() as int + 1) =~= h.push(items[n]));
        }
        assert(items.take(n + 1) =~= items);
    }
}

/// Fresh and stale reports together are all reports.
pub proof fn lemma_fresh_and_stale_cover(items: Seq<NotificationItem>)
    ensures
        class_count(items, ReportClass::Fresh) + (items.len() - class_count(
            items,
            ReportClass::Fresh,
        )) == items.len(),
        class_count(items, ReportClass::Fresh) <= items.len(),
{
    lemma_of_class_bound(items, ReportClass::Fresh);
}

/// The overall state is healthy exactly when no report is critical, an
/// error or a warning, and critical whenever one is critical.
pub proof fn lemma_overall_reflects_worst(critical: nat, error: nat, warning: nat, empty: bool)
    ensures
        (overall_of(critical, error, warning, empty).0 == "healthy"@) <==> (critical == 0 && error
            == 0 && warning == 0),
        critical > 0 ==> overall_of(critical, error, warning, empty).1 == "critical"@,
{
    reveal_strlit("healthy");
    reveal_strlit("critical");
    reveal_strlit("error");
    reveal_strlit("warning");
    assert("healthy"@[0] != "warning"@[0]);
    assert("healthy"@.len() != "critical"@.len());
    assert("healthy"@.len() != "error"@.len());
}

// ---------------------------------------------------------------------------
// Order of the reports
// ---------------------------------------------------------------------------

/// What reports are ordered by: the rank of their level, then their time
/// (a missing time counting as 0), both descending.
pub open spec fn report_key(item: NotificationItem) -> (int, int) {
    (
        level_rank(item.level@) as int,
        match item.generated_at {
            Some(t) => t as int,
            None => 0,
        },
    )
}

/// `a` comes strictly before `b`.
pub open spec fn ahead(a: NotificationItem, b: NotificationItem) -> bool {
    let ka = report_key(a);
    let kb = report_key(b);
    ka.0 > kb.0 || (ka.0 == kb.0 && ka.1 > kb.1)
}

/// No report comes strictly before one that precedes it.
pub open spec fn in_report_order(s: Seq<NotificationItem>) -> bool {
    forall|i: int, j: int| 0 <= i < j < s.len() ==> !ahead(#[trigger] s[j], #[trigger] s[i])
}

/// The reports with a given key, in their order.
pub open spec fn with_key(s: Seq<NotificationItem>, k: (int, int)) -> Seq<NotificationItem> {
    s.filter(|x: NotificationItem| report_key(x) == k)
}

/// A level that none of the severity classes names.
pub open spec fn unranked_level(level: Seq<char>) -> bool {
    &&& level_key(level) != "critical"@
    &&& !error_level(level)
    &&& !warning_level(level)
    &&& !info_level(level)
    &&& !success_level(level)
}

/// The rank of a level follows its severity: critical above error and
/// danger, above warning and warn, above info and information, above
/// success, healthy and ok, above anything else; the words of one class
/// rank alike.
pub proof fn lemma_rank_follows_severity(a: Seq<char>, b: Seq<char>)
    ensures
        level_key(a) == "critical"@ && error_level(b) ==> level_rank(a) > level_rank(b),
        error_level(a) && warning_level(b) ==> level_rank(a) > level_rank(b),
        warning_level(a) && info_level(b) ==> level_rank(a) > level_rank(b),
        info_level(a) && success_level(b) ==> level_rank(a) > level_rank(b),
        success_level(a) && unranked_level(b) ==> level_rank(a) > level_rank(b),
        level_key(a) == "critical"@ && level_key(b) == "critical"@ ==> level_rank(a) == level_rank(b),
        error_level(a) && error_level(b) ==> level_rank(a) == level_rank(b),
        warning_level(a) && warning_level(b) ==> level_rank(a) == level_rank(b),
        info_level(a) && info_level(b) ==> level_rank(a) == level_rank(b),
        success_level(a) && success_level(b) ==> level_rank(a) == level_rank(b),
        unranked_level(a) && unranked_level(b) ==> level_rank(a) == level_rank(b),
{
    reveal_strlit("critical");
    reveal_strlit("error");
    reveal_strlit("danger");
    reveal_strlit("warning");
    reveal_strlit("warn");
    reveal_strlit("info");
    reveal_strlit("information");
    reveal_strlit("success");
    reveal_strlit("healthy");
    reveal_strlit("ok");
    let words = seq![
        "critical"@,
        "error"@,
        "danger"@,
        "warning"@,
        "warn"@,
        "info"@,
        "information"@,
        "success"@,
        "healthy"@,
        "ok"@,
    ];
    assert(words[0].len() == 8 && words[0][0] == 'c');
    assert(words[1].len() == 5 && words[1][0] == 'e');
    assert(words[2].len() == 6 && words[2][0] == 'd');
    assert(words[3].len() == 7 && words[3][0] == 'w');
    assert(words[4].len() == 4 && words[4][0] == 'w');
    assert(words[5].len() == 4 && words[5][0] == 'i');
    assert(words[6].len() == 11 && words[6][0] == 'i');
    assert(words[7].len() == 7 && words[7][0] == 's');
    assert(words[8].len() == 7 && words[8][0] == 'h');
    assert(words[9].len() == 2 && words[9][0] == 'o');
}

/// In reports in order, a less severe report never comes before a more
/// severe one: no success before info, no info before a warning, no
/// warning before an error, no error before a critical report.
pub proof fn lemma_ordered_reports_put_severe_first(s: Seq<NotificationItem>, i: int, j: int)
    requires
        in_report_order(s),
        0 <= i < j < s.len(),
    ensures
        !(success_level(s[i].level@) && info_level(s[j].level@)),
        !(info_level(s[i].level@) && warning_level(s[j].level@)),
        !(warning_level(s[i].level@) && error_level(s[j].level@)),
        !(error_level(s[i].level@) && level_key(s[j].level@) == "critical"@),
{
    lemma_rank_follows_severity(s[j].level@, s[i].level@);
    assert(!ahead(s[j], s[i]));
}

fn report_ahead(a: &NotificationItem, b: &NotificationItem) -> (r: bool)
    ensures
        r == ahead(*a, *b),
{
    let ra = notification_level_rank(a.level.as_str());
    let rb = notification_level_rank(b.level.as_str());
    let ta: i64 = match a.generated_at {
        Some(t) => t,
        None => 0,
    };
    let tb: i64 = match b.generated_at {
        Some(t) => t,
        None => 0,
    };
    ra > rb || (ra == rb && ta > tb)
}

proof fn lemma_with_key_step(s: Seq<NotificationItem>, i: int, k: (int, int))
    requires
        0 <= i < s.len(),
    ensures
        with_key(s.take(i + 1), k) == (if report_key(s[i]) == k {
            with_key(s.take(i), k).push(s[i])
        } else {
            with_key(s.take(i), k)
        }),
{
    reveal(Seq::filter);
    assert(s.take(i + 1).drop_last() =~= s.take(i));
    assert(s.take(i + 1).last() == s[i]);
}

proof fn lemma_with_key_none(s: Seq<NotificationItem>, k: (int, int))
    requires
        forall|q: int| 0 <= q < s.len() ==> report_key(#[trigger] s[q]) != k,
    ensures
        with_key(s, k) == Seq::<NotificationItem>::empty(),
{
    let f = with_key(s, k);
    if f.len() > 0 {
        s.lemma_filter_pred(|x: NotificationItem| report_key(x) == k, 0);
        s.lemma_filter_contains_rev(|x: NotificationItem| report_key(x) == k, f[0]);
        assert(f.contains(f[0]));
        let q = choose|q: int| 0 <= q < s.len() && s[q] == f[0];
        assert(report_key(s[q]) != k);
    }
    assert(f =~= Seq::<NotificationItem>::empty());
}

proof fn lemma_insert_with_key(s: Seq<NotificationItem>, p: int, x: NotificationItem, k: (int, int))
    requires
        0 <= p <= s.len(),
        forall|q: int| p <= q < s.len() ==> ahead(x, #[trigger] s[q]),
    ensures
        with_key(s.insert(p, x), k) == (if report_key(x) == k {
            with_key(s, k).push(x)
        } else {
            with_key(s, k)
        }),
{
    broadcast use Seq::filter_distributes_over_add;

    let pred = |y: NotificationItem| report_key(y) == k;
    let head = s.subrange(0, p);
    let tail = s.subrange(p, s.len() as int);
    assert(s =~= head + tail);
    assert(s.insert(p, x) =~= head.push(x) + tail);
    assert(with_key(s, k) == head.filter(pred) + tail.filter(pred));
    assert(with_key(s.insert(p, x), k) == head.push(x).filter(pred) + tail.filter(pred));
    assert(head.push(x).filter(pred) == (if pred(x) {
        head.filter(pred).push(x)
    } else {
        head.filter(pred)
    })) by {
        reveal(Seq::filter);
        assert(head.push(x).drop_last() =~= head);
    }
    if report_key(x) == k {
        assert forall|q: int| 0 <= q < tail.len() implies report_key(#[trigger] tail[q]) != k by {
            assert(tail[q] == s[p + q]);
            assert(ahead(x, s[p + q]));
        }
        lemma_with_key_none(tail, k);
        assert(tail.filter(pred) =~= Seq::<NotificationItem>::empty());
        assert(head.filter(pred).push(x) + tail.filter(pred) =~= (head.filter(pred)
            + tail.filter(pred)).push(x));
    }
}

/// Orders producer reports as the notification centre lists them: higher
/// rank first, then newer first; reports with the same rank and time keep
/// their order.
pub fn order_notifications(items: Vec<NotificationItem>) -> (r: Vec<NotificationItem>)
    ensures
        r.len() == items.len(),
        in_report_order(r@),
        forall|k: (int, int)| #[trigger] with_key(r@, k) == with_key(items@, k),
{
    let mut out: Vec<NotificationItem> = Vec::new();
    let mut i: usize = 0;
    proof {
        assert forall|k: (int, int)| #[trigger]
            with_key(out@, k) == with_key(items@.take(0), k) by {
            reveal(Seq::filter);
            assert(items@.take(0) =~= Seq::<NotificationItem>::empty());
        }
    }
    while i < items.len()
        invariant
            i <= items.len(),
            out.len() == i,
            in_report_order(out@),
            forall|k: (int, int)| #[trigger] with_key(out@, k) == with_key(items@.take(i as int), k),
        decreases items.len() - i,
    {
        let x = copy_item(&items[i]);
        let mut p: usize = 0;
        while p < out.len() && !report_ahead(&x, &out[p])
            invariant
                p <= out.len(),
                forall|q: int| 0 <= q < p ==> !ahead(x, #[trigger] out@[q]),
            decreases out.len() - p,
        {
            p += 1;
        }
        proof {
            assert forall|q: int| p <= q < out.len() implies ahead(x, #[trigger] out@[q]) by {
                if q > p {
                    assert(!ahead(out@[q], out@[p as int]));
                }
            }
        }
        let ghost old_out = out@;
        out.insert(p, x);
        proof {
            assert forall|a: int, b: int| 0 <= a < b < out.len() implies !ahead(
                #[trigger] out@[b],
                #[trigger] out@[a],
            ) by {
                if b < p {
                    assert(out@[a] == old_out[a] && out@[b] == old_out[b]);
                } else if b == p {
                    assert(out@[a] == old_out[a]);
                } else if a < p {
                    assert(out@[a] == old_out[a] && out@[b] == old_out[b - 1]);
                } else if a == p {
                    assert(out@[b] == old_out[b - 1]);
                    assert(ahead(x, old_out[b - 1]));
                } else {
                    assert(out@[a] == old_out[a - 1] && out@[b] == old_out[b - 1]);
                }
            }
            assert forall|k: (int, int)| #[trigger]
                with_key(out@, k) == with_key(items@.take(i + 1), k) by {
                lemma_insert_with_key(old_out, p as int, x, k);
                lemma_with_key_step(items@, i as int, k);
            }
        }
        i += 1;
    }
    proof {
        assert(items@.take(items.len() as int) =~= items@);
    }
    out
}

// ---------------------------------------------------------------------------
// Signature of an aggregate
// ---------------------------------------------------------------------------

/// `a` sorts strictly before `b`, comparing characters by code point as
/// `String`'s order does (UTF-8 keeps the code point order).
pub open spec fn text_before(a: Seq<char>, b: Seq<char>) -> bool
    decreases a.len(),
{
    if b.len() == 0 {
        false
    } else if a.len() == 0 {
        true
    } else if a[0] != b[0] {
        (a[0] as int) < (b[0] as int)
    } else {
        text_before(a.drop_first(), b.drop_first())
    }
}

/// The order of strings: `a` does not sort strictly after `b`.
pub open spec fn text_order() -> spec_fn(Seq<char>, Seq<char>) -> bool {
    |a: Seq<char>, b: Seq<char>| !text_before(b, a)
}

/// No entry sorts strictly before one that precedes it.
pub open spec fn texts_sorted(s: Seq<Seq<char>>) -> bool {
    forall|i: int, j: int| 0 <= i < j < s.len() ==> !text_before(#[trigger] s[j], #[trigger] s[i])
}

pub proof fn lemma_text_before_asymmetric(a: Seq<char>, b: Seq<char>)
    ensures
        text_before(a, b) ==> !text_before(b, a),
        !text_before(a, a),
    decreases a.len(),
{
    if a.len() > 0 && b.len() > 0 && a[0] == b[0] {
        lemma_text_before_asymmetric(a.drop_first(), b.drop_first());
    }
    if a.len() > 0 {
        lemma_text_before_asymmetric(a.drop_first(), a.drop_first());
    }
}

pub proof fn lemma_text_before_total(a: Seq<char>, b: Seq<char>)
    ensures
        a != b ==> text_before(a, b) || text_before(b, a),
    decreases a.len(),
{
    if a.len() == 0 || b.len() == 0 {
        if a.len() == 0 && b.len() == 0 {
            assert(a =~= b);
        }
    } else if a[0] != b[0] {
        assert((a[0] as int) != (b[0] as int));
    } else {
        let (ta, tb) = (a.drop_first(), b.drop_first());
        lemma_text_before_total(ta, tb);
        if ta == tb {
            assert forall|i: int| 0 <= i < a.len() implies a[i] == b[i] by {
                if i > 0 {
                    assert(a[i] == ta[i - 1]);
                    assert(b[i] == tb[i - 1]);
                }
            }
            assert(a =~= b);
        }
    }
}

pub proof fn lemma_text_before_transitive(a: Seq<char>, b: Seq<char>, c: Seq<char>)
    requires
        text_before(a, b),
        text_before(b, c),
    ensures
        text_before(a, c),
    decreases a.len(),
{
    if a.len() > 0 && a[0] == b[0] && b[0] == c[0] {
        lemma_text_before_transitive(a.drop_first(), b.drop_first(), c.drop_first());
    }
}

proof fn lemma_text_order_total()
    ensures
        total_ordering(text_order()),
{
    assert forall|x: Seq<char>| #[trigger] text_order()(x, x) by {
        lemma_text_before_asymmetric(x, x);
    }
    assert forall|x: Seq<char>, y: Seq<char>| #[trigger] text_order()(x, y) && #[trigger]
        text_order()(y, x) implies x == y by {
        lemma_text_before_total(x, y);
    }
    assert forall|x: Seq<char>, y: Seq<char>, z: Seq<char>| #[trigger] text_order()(x, y)
        && #[trigger] text_order()(y, z) implies text_order()(x, z) by {
        lemma_text_before_total(x, y);
        if text_before(z, x) {
            if x == y {
            } else {
                lemma_text_before_transitive(z, x, y);
            }
        }
    }
    assert forall|x: Seq<char>, y: Seq<char>| #[trigger] text_order()(x, y) || #[trigger]
        text_order()(y, x) by {
        lemma_text_before_asymmetric(x, y);
    }
}

fn chars_before(a: &Vec<char>, b: &Vec<char>) -> (r: bool)
    ensures
        r == text_before(a@, b@),
{
    let mut i: usize = 0;
    assert(a@.skip(0) =~= a@ && b@.skip(0) =~= b@);
    while i < a.len() && i < b.len() && a[i] == b[i]
        invariant
            i <= a.len(),
            i <= b.len(),
            text_before(a@, b@) == text_before(a@.skip(i as int), b@.skip(i as int)),
        decreases a.len() - i,
    {
        proof {
            assert(a@.skip(i as int).drop_first() =~= a@.skip(i + 1));
            assert(b@.skip(i as int).drop_first() =~= b@.skip(i + 1));
        }
        i += 1;
    }
    if i == b.len() {
        false
    } else if i == a.len() {
        true
    } else {
        assert(a@.skip(i as int)[0] == a[i as int]);
        assert(b@.skip(i as int)[0] == b[i as int]);
        a[i] < b[i]
    }
}

/// Sorts strings ascending.
fn sort_texts(items: Vec<Vec<char>>) -> (r: Vec<Vec<char>>)
    ensures
        views(r@) == views(items@).sort_by(text_order()),
{
    broadcast use vstd::seq_lib::group_to_multiset_ensures;

    let mut out: Vec<Vec<char>> = Vec::new();
    let mut i: usize = 0;
    assert(views(items@).take(0) =~= Seq::<Seq<char>>::empty());
    assert(views(out@) =~= Seq::<Seq<char>>::empty());
    while i < items.len()
        invariant
            i <= items.len(),
            texts_sorted(views(out@)),
            views(out@).to_multiset() == views(items@).take(i as int).to_multiset(),
        decreases items.len() - i,
    {
        let x = items[i].clone();
        let mut p: usize = 0;
        while p < out.len() && !chars_before(&x, &out[p])
            invariant
                p <= out.len(),
                forall|q: int| 0 <= q < p ==> !text_before(x@, #[trigger] views(out@)[q]),
            decreases out.len() - p,
        {
            p += 1;
        }
        let ghost old_out = views(out@);
        proof {
            assert forall|q: int| p <= q < old_out.len() implies text_before(
                x@,
                #[trigger] old_out[q],
            ) by {
                if q > p {
                    assert(!text_before(old_out[q], old_out[p as int]));
                    lemma_text_before_total(old_out[q], old_out[p as int]);
                    if old_out[q] != old_out[p as int] {
                        lemma_text_before_transitive(x@, old_out[p as int], old_out[q]);
                    }
                }
            }
        }
        out.insert(p, x);
        proof {
            assert(views(out@) =~= old_out.insert(p as int, x@));
            let n = views(out@);
            assert forall|a: int, b: int| 0 <= a < b < n.len() implies !text_before(
                #[trigger] n[b],
                #[trigger] n[a],
            ) by {
                if b < p {
                    assert(n[a] == old_out[a] && n[b] == old_out[b]);
                } else if b == p {
                    assert(n[a] == old_out[a]);
                } else if a < p {
                    assert(n[a] == old_out[a] && n[b] == old_out[b - 1]);
                } else if a == p {
                    assert(n[b] == old_out[b - 1]);
                    lemma_text_before_asymmetric(x@, old_out[b - 1]);
                } else {
                    assert(n[a] == old_out[a - 1] && n[b] == old_out[b - 1]);
                }
            }
            assert(n.remove(p as int) =~= old_out);
            assert(n[p as int] == x@);
            assert(n.contains(x@));
            n.to_multiset_ensures();
            assert(n.to_multiset().count(x@) > 0);
            assert(old_out.to_multiset() == n.to_multiset().remove(x@));
            assert(n.to_multiset() =~= old_out.to_multiset().insert(x@)) by {
                broadcast use vstd::multiset::group_multiset_axioms;

            }
            assert(views(items@).take(i + 1) =~= views(items@).take(i as int).push(x@));
            views(items@).take(i as int).to_multiset_ensures();
        }
        i += 1;
    }
    assert(views(items@).take(items.len() as int) =~= views(items@));
    proof {
        lemma_text_order_total();
        views(items@).lemma_sort_by_ensures(text_order());
        assert(sorted_by(views(out@), text_order()));
        lemma_sorted_unique(views(out@), views(items@).sort_by(text_order()), text_order());
    }
    out
}

/// Strings joined with a separator.
pub open spec fn joined_with(parts: Seq<Seq<char>>, sep: Seq<char>) -> Seq<char>
    decreases parts.len(),
{
    if parts.len() == 0 {
        Seq::<char>::empty()
    } else if parts.len() == 1 {
        parts[0]
    } else {
        joined_with(parts.drop_last(), sep) + sep + parts.last()
    }
}

fn join_texts(parts: &Vec<Vec<char>>, sep: &str) -> (r: Vec<char>)
    ensures
        r@ == joined_with(views(parts@), sep@),
{
    let mut out: Vec<char> = Vec::new();
    let mut i: usize = 0;
    while i < parts.len()
        invariant
            i <= parts.len(),
            out@ == joined_with(views(parts@).take(i as int), sep@),
        decreases parts.len() - i,
    {
        let ghost prev = views(parts@).take(i as int);
        proof {
            assert(views(parts@).take(i + 1).drop_last() =~= prev);
            assert(views(parts@).take(i + 1).last() == parts@[i as int]@);
        }
        if i > 0 {
            extend_str(&mut out, sep);
        }
        extend_chars(&mut out, &parts[i]);
        proof {
            if i == 0 {
                assert(out@ =~= joined_with(views(parts@).take(1), sep@));
            }
        }
        i += 1;
    }
    assert(views(parts@).take(parts.len() as int) =~= views(parts@));
    out
}

/// The entry of one report in the aggregate signature: its identity and
/// its content signature, joined with `|`.
pub open spec fn signature_entry(item: NotificationItem) -> Seq<char> {
    identity_of(item) + "|"@ + content_signature_of(item)
}

pub open spec fn signature_entries(items: Seq<NotificationItem>) -> Seq<Seq<char>> {
    Seq::new(items.len(), |i: int| signature_entry(items[i]))
}

/// What the realtime channel compares to see whether anything changed: the
/// overall status, level and code, then the entries of all reports in
/// ascending order joined with `||`, all joined with `|`.
pub open spec fn aggregate_signature_of(a: NotificationAggregate) -> Seq<char> {
    a.overall.status@ + "|"@ + a.overall.level@ + "|"@ + a.overall.code@ + "|"@ + joined_with(
        signature_entries(a.notifications@).sort_by(text_order()),
        "||"@,
    )
}

/// The signature of an aggregate.
pub fn aggregate_content_signature(aggregate: &NotificationAggregate) -> (r: String)
    ensures
        r@ == aggregate_signature_of(*aggregate),
{
    let items = &aggregate.notifications;
    let mut entries: Vec<Vec<char>> = Vec::new();
    let mut i: usize = 0;
    while i < items.len()
        invariant
            i <= items.len(),
            items == &aggregate.notifications,
            views(entries@) == signature_entries(items@).take(i as int),
        decreases items.len() - i,
    {
        let identity = notification_identity(&items[i]);
        let content = notification_content_signature(&items[i]);
        let mut entry = chars_of(identity.as_str());
        extend_str(&mut entry, "|");
        extend_str(&mut entry, content.as_str());
        let ghost before = views(entries@);
        entries.push(entry);
        proof {
            assert(views(entries@) =~= before.push(entry@));
            assert(signature_entries(items@).take(i + 1) =~= signature_entries(items@).take(
                i as int,
            ).push(signature_entry(items@[i as int])));
        }
        i += 1;
    }
    assert(signature_entries(items@).take(items.len() as int) =~= signature_entries(items@));
    let sorted = sort_texts(entries);
    let joined = join_texts(&sorted, "||");
    let mut out = chars_of(aggregate.overall.status.as_str());
    extend_str(&mut out, "|");
    extend_str(&mut out, aggregate.overall.level.as_str());
    extend_str(&mut out, "|");
    extend_str(&mut out, aggregate.overall.code.as_str());
    extend_str(&mut out, "|");
    extend_chars(&mut out, &joined);
    string_of(&out)
}

// ---------------------------------------------------------------------------
// Producer files and the aggregate's age
// ---------------------------------------------------------------------------

/// A file of the producer directory that holds a producer's report: a
/// `.json` file that is neither the aggregate itself nor a `.tmp` file.
pub open spec fn producer_state_file(p: Seq<char>) -> bool {
    let name = match file_name(p) {
        Some(n) => n,
        None => Seq::<char>::empty(),
    };
    name != "notifications-aggregate.json"@ && !has_suffix(name, ".tmp"@) && file_extension(p)
        == Some("json"@)
}

/// Whether a file of the producer directory holds a producer's report.
pub fn is_producer_state_file(path: &str) -> (r: bool)
    ensures
        r == producer_state_file(path@),
{
    let name = match file_name_of(path) {
        Some(n) => n,
        None => string_of(&Vec::new()),
    };
    if text_eq(name.as_str(), "notifications-aggregate.json") || str_ends_with(
        name.as_str(),
        ".tmp",
    ) {
        return false;
    }
    let chars = chars_of(name.as_str());
    let mut i: usize = chars.len();
    assert(chars@.take(i as int) =~= chars@);
    while i > 0 && chars[i - 1] != '.'
        invariant
            i <= chars.len(),
            last_index(chars@, '.') == last_index(chars@.take(i as int), '.'),
        decreases i,
    {
        proof {
            assert(chars@.take(i as int).drop_last() =~= chars@.take(i - 1));
        }
        i -= 1;
    }
    proof {
        if i > 0 {
            assert(chars@.take(i as int).last() == '.');
        } else {
            assert(chars@.take(0) =~= Seq::<char>::empty());
        }
    }
    if i <= 1 {
        return false;
    }
    let mut ext: Vec<char> = Vec::new();
    let mut j: usize = i;
    while j < chars.len()
        invariant
            i <= j <= chars.len(),
            ext@ == chars@.subrange(i as int, j as int),
        decreases chars.len() - j,
    {
        ext.push(chars[j]);
        assert(chars@.subrange(i as int, j + 1) =~= chars@.subrange(i as int, j as int).push(
            chars@[j as int],
        ));
        j += 1;
    }
    assert(chars@.subrange(i as int, chars.len() as int) =~= chars@.skip(i as int));
    let json = chars_of("json");
    seq_eq(&ext, &json)
}

/// A producer file that holds one report rather than a list: it names a
/// producer, a code or a title.
pub open spec fn single_report(item: NotificationItem) -> bool {
    trim(item.producer@).len() != 0 || trim(item.code@).len() != 0 || trim(item.title@).len() != 0
}

/// Whether a decoded producer file is one report.
pub fn is_single_report(item: &NotificationItem) -> (r: bool)
    ensures
        r == single_report(*item),
{
    let p = chars_of(item.producer.as_str());
    let c = chars_of(item.code.as_str());
    let t = chars_of(item.title.as_str());
    trimmed(&p).len() != 0 || trimmed(&c).len() != 0 || trimmed(&t).len() != 0
}

/// The age of an aggregate for the listing: none when it carries no time.
pub fn generated_age_seconds(generated_at: i64, now: i64) -> (r: Option<i64>)
    ensures
        r == (if generated_at > 0 {
            Some(sat_sub(now, generated_at) as i64)
        } else {
            None
        }),
{
    if generated_at > 0 {
        Some(saturating_sub(now, generated_at))
    } else {
        None
    }
}

/// An aggregate is fresh when it carries a time at most 120 seconds ago.
pub fn aggregate_is_fresh(generated_at: i64, now: i64) -> (r: bool)
    ensures
        r == (generated_at > 0 && sat_sub(now, generated_at) <= NOTIFICATION_FRESH_SECONDS),
{
    generated_at > 0 && saturating_sub(now, generated_at) <= NOTIFICATION_FRESH_SECONDS
}

/// The active reports of an aggregate, as the summary lists them.
pub fn active_notifications(aggregate: &NotificationAggregate) -> (r: Vec<NotificationItem>)
    ensures
        r@ == of_class(aggregate.notifications@, ReportClass::Active),
{
    select_class(&aggregate.notifications, ReportClass::Active)
}

/// Why the notification listing could not be served.
#[derive(Debug, Clone)]
pub enum NotificationApiError {
    /// The aggregate file is missing; holds its path.
    FileNotFound(String),
    /// The aggregate file could not be read; holds the reason.
    ReadFailed(String),
    /// The aggregate file is not valid JSON; holds the reason.
    InvalidJson(String),
}

/// The HTTP status, error code and message a listing error is answered with.
pub open spec fn notification_error_reply(e: NotificationApiError) -> (u16, Seq<char>, Seq<char>) {
    match e {
        NotificationApiError::FileNotFound(p) => (
            503,
            "notification_aggregate_missing"@,
            "Notification aggregate dosyası bulunamadı: "@ + p@,
        ),
        NotificationApiError::ReadFailed(m) => (
            500,
            "notification_aggregate_read_failed"@,
            "Notification aggregate okunamadı: "@ + m@,
        ),
        NotificationApiError::InvalidJson(m) => (
            500,
            "notification_aggregate_invalid_json"@,
            "Notification aggregate JSON geçersiz: "@ + m@,
        ),
    }
}

impl NotificationApiError {
    /// The HTTP status, error code and message of the error.
    pub fn reply(&self) -> (r: (u16, &'static str, String))
        ensures
            (r.0, r.1@, r.2@) == notification_error_reply(*self),
    {
        match self {
            NotificationApiError::FileNotFound(p) => {
                let mut out = chars_of("Notification aggregate dosyası bulunamadı: ");
                extend_str(&mut out, p.as_str());
                (503, "notification_aggregate_missing", string_of(&out))
            },
            NotificationApiError::ReadFailed(m) => {
                let mut out = chars_of("Notification aggregate okunamadı: ");
                extend_str(&mut out, m.as_str());
                (500, "notification_aggregate_read_failed", string_of(&out))
            },
            NotificationApiError::InvalidJson(m) => {
                let mut out = chars_of("Notification aggregate JSON geçersiz: ");
                extend_str(&mut out, m.as_str());
                (500, "notification_aggregate_invalid_json", string_of(&out))
            },
        }
    }
}

} // verus!
