//! RAID planning: which disks may join an array, what a requested array
//! needs, how much it would hold, and the command an administrator would run.
use vstd::prelude::*;

use crate::text::{
    chars_of, contains_char, contains_sub, decimal, decimal_of, ends_with, extend_chars, extend_str,
    has_char, has_prefix, has_sub, has_suffix, parse_u64, slice_chars, split_chars, split_on,
    split_words, starts_with, str_starts_with, string_of, text_eq, trim, trimmed, u64_text, views,
    words,
};

verus! {

/// A disk offered for a new array.
#[derive(Debug, Clone)]
pub struct RaidDiskCandidate {
    pub device: String,
    pub model: String,
    pub serial: String,
    pub size_bytes: u64,
    pub mounted: bool,
    pub mountpoints: Vec<String>,
    pub system_disk: bool,
    pub photoos_disk: bool,
    pub eligible: bool,
    pub reason: String,
}

/// A requested array.
#[derive(Debug, Clone)]
pub struct RaidPlanRequest {
    pub level: String,
    pub devices: Vec<String>,
    pub array_name: Option<String>,
}

/// The plan for a requested array. Plans are never executed by the server.
#[derive(Debug, Clone)]
pub struct RaidPlanResponse {
    pub valid: bool,
    pub destructive: bool,
    pub level: String,
    pub devices: Vec<String>,
    pub array_device: String,
    pub estimated_usable_bytes: u64,
    pub warnings: Vec<String>,
    pub command_preview: String,
    pub execution_enabled: bool,
}

/// Texts joined with a separator.
pub open spec fn join_texts(parts: Seq<Seq<char>>, sep: Seq<char>) -> Seq<char>
    decreases parts.len(),
{
    if parts.len() == 0 {
        Seq::<char>::empty()
    } else if parts.len() == 1 {
        parts[0]
    } else {
        join_texts(parts.drop_last(), sep) + sep + parts.last()
    }
}

pub open spec fn texts(v: Seq<String>) -> Seq<Seq<char>> {
    Seq::new(v.len(), |i: int| v[i]@)
}

fn join_strings(parts: &Vec<String>, sep: &str) -> (r: Vec<char>)
    ensures
        r@ == join_texts(texts(parts@), sep@),
{
    let mut out: Vec<char> = Vec::new();
    let mut i: usize = 0;
    while i < parts.len()
        invariant
            i <= parts.len(),
            out@ == join_texts(texts(parts@).take(i as int), sep@),
        decreases parts.len() - i,
    {
        proof {
            assert(texts(parts@).take(i + 1).drop_last() =~= texts(parts@).take(i as int));
            assert(texts(parts@).take(i + 1).last() == parts@[i as int]@);
        }
        if i > 0 {
            extend_str(&mut out, sep);
        }
        extend_str(&mut out, parts[i].as_str());
        proof {
            if i == 0 {
                assert(out@ =~= join_texts(texts(parts@).take(1), sep@));
            }
        }
        i += 1;
    }
    assert(texts(parts@).take(parts.len() as int) =~= texts(parts@));
    out
}

/// Whether a disk may join an array, and why: the system disk, PhotoOS data
/// disks and disks with mounted partitions are excluded.
pub open spec fn candidate_verdict(
    mounted: bool,
    system_disk: bool,
    photoos_disk: bool,
    mountpoints: Seq<Seq<char>>,
) -> (bool, Seq<char>) {
    (
        !mounted && !system_disk && !photoos_disk,
        if system_disk {
            "Sistem diski; kullanılamaz"@
        } else if photoos_disk {
            "PhotoOS veri diski; önce yedekleme ve taşıma gerekir"@
        } else if mounted {
            "Bağlı bölüm var: "@ + join_texts(mountpoints, ", "@)
        } else {
            "RAID için uygun, boş ve bağlı olmayan fiziksel disk"@
        },
    )
}

/// Whether a disk may join an array, and why.
pub fn raid_candidate_verdict(system_disk: bool, photoos_disk: bool, mountpoints: &Vec<String>) -> (r: (
    bool,
    String,
))
    ensures
        (r.0, r.1@) == candidate_verdict(
            mountpoints.len() != 0,
            system_disk,
            photoos_disk,
            texts(mountpoints@),
        ),
{
    let mounted = mountpoints.len() != 0;
    let eligible = !mounted && !system_disk && !photoos_disk;
    let reason = if system_disk {
        "Sistem diski; kullanılamaz".to_string()
    } else if photoos_disk {
        "PhotoOS veri diski; önce yedekleme ve taşıma gerekir".to_string()
    } else if mounted {
        let mut out = chars_of("Bağlı bölüm var: ");
        let joined = join_strings(mountpoints, ", ");
        extend_chars(&mut out, &joined);
        string_of(&out)
    } else {
        "RAID için uygun, boş ve bağlı olmayan fiziksel disk".to_string()
    };
    (eligible, reason)
}

/// The levels an array may have and the disks each needs at least.
pub open spec fn minimum_disks(level: Seq<char>) -> Option<nat> {
    if level == "raid0"@ || level == "raid1"@ {
        Some(2)
    } else if level == "raid5"@ {
        Some(3)
    } else if level == "raid6"@ || level == "raid10"@ {
        Some(4)
    } else {
        None
    }
}

/// `s` without all leading copies of `p`.
pub open spec fn strip_all(s: Seq<char>, p: Seq<char>) -> Seq<char>
    decreases s.len(),
{
    if p.len() > 0 && has_prefix(s, p) {
        strip_all(s.skip(p.len() as int), p)
    } else {
        s
    }
}

/// The smallest positive size, or 0.
pub open spec fn smallest_positive(sizes: Seq<u64>) -> nat
    decreases sizes.len(),
{
    if sizes.len() == 0 {
        0
    } else {
        let rest = smallest_positive(sizes.drop_last());
        let s = sizes.last();
        if s == 0 {
            rest
        } else if rest == 0 || s < rest {
            s as nat
        } else {
            rest
        }
    }
}

/// The usable size of an array of `n` disks whose smallest member has `s`
/// bytes.
pub open spec fn usable_bytes(level: Seq<char>, s: nat, n: nat) -> int {
    if level == "raid0"@ {
        (s * n) as int
    } else if level == "raid1"@ {
        s as int
    } else if level == "raid5"@ {
        s * (n - 1)
    } else if level == "raid6"@ {
        s * (n - 2)
    } else if level == "raid10"@ {
        (s * (n / 2)) as int
    } else {
        0
    }
}

/// Why a requested array cannot be planned: an unknown level, too few
/// disks, or a disk that is not a `/dev/` path.
pub open spec fn plan_refusal(level: Seq<char>, devices: Seq<Seq<char>>) -> Option<Seq<char>> {
    match minimum_disks(level) {
        None => Some("Desteklenmeyen RAID seviyesi"@),
        Some(min) => if devices.len() < min {
            Some(level + " için en az "@ + decimal(min) + " disk gerekir"@)
        } else if exists|i: int| 0 <= i < devices.len() && !has_prefix(#[trigger] devices[i], "/dev/"@) {
            Some("Geçersiz disk yolu"@)
        } else {
            None
        },
    }
}

proof fn lemma_level_names(level: Seq<char>)
    ensures
        minimum_disks(level) is Some ==> level.len() >= 5,
{
    reveal_strlit("raid0");
    reveal_strlit("raid1");
    reveal_strlit("raid5");
    reveal_strlit("raid6");
    reveal_strlit("raid10");
}

fn minimum_for(level: &str) -> (r: Option<usize>)
    ensures
        match minimum_disks(level@) {
            Some(m) => r == Some(m as usize),
            None => r is None,
        },
{
    if text_eq(level, "raid0") || text_eq(level, "raid1") {
        Some(2)
    } else if text_eq(level, "raid5") {
        Some(3)
    } else if text_eq(level, "raid6") || text_eq(level, "raid10") {
        Some(4)
    } else {
        None
    }
}

fn strip_dev(name: &str) -> (r: Vec<char>)
    ensures
        r@ == strip_all(name@, "/dev/"@),
{
    let c = chars_of(name);
    let p = chars_of("/dev/");
    proof {
        reveal_strlit("/dev/");
    }
    let mut i: usize = 0;
    assert(c@.skip(0) =~= c@);
    assert(p@ =~= seq!['/', 'd', 'e', 'v', '/']);
    while c.len() - i >= 5 && c[i] == '/' && c[i + 1] == 'd' && c[i + 2] == 'e' && c[i + 3] == 'v'
        && c[i + 4] == '/'
        invariant
            i <= c.len(),
            p@ == "/dev/"@,
            p@ == seq!['/', 'd', 'e', 'v', '/'],
            strip_all(c@, p@) == strip_all(c@.skip(i as int), p@),
        decreases c.len() - i,
    {
        proof {
            assert(c@.skip(i as int).subrange(0, 5) =~= p@);
            assert(c@.skip(i as int).skip(5) =~= c@.skip(i + 5));
        }
        i += 5;
    }
    proof {
        if has_prefix(c@.skip(i as int), p@) {
            assert(c@.skip(i as int).subrange(0, 5) == p@);
            assert(c@[i as int] == c@.skip(i as int)[0]);
            assert(c@[i + 1] == c@.skip(i as int)[1]);
            assert(c@[i + 2] == c@.skip(i as int)[2]);
            assert(c@[i + 3] == c@.skip(i as int)[3]);
            assert(c@[i + 4] == c@.skip(i as int)[4]);
        }
    }
    crate::text::slice_chars(&c, i, c.len())
}

fn smallest_of(sizes: &Vec<u64>) -> (r: u64)
    ensures
        r == smallest_positive(sizes@),
{
    let mut best: u64 = 0;
    let mut i: usize = 0;
    while i < sizes.len()
        invariant
            i <= sizes.len(),
            best == smallest_positive(sizes@.take(i as int)),
        decreases sizes.len() - i,
    {
        proof {
            assert(sizes@.take(i + 1).drop_last() =~= sizes@.take(i as int));
            assert(sizes@.take(i + 1).last() == sizes@[i as int]);
        }
        let s = sizes[i];
        if s != 0 && (best == 0 || s < best) {
            best = s;
        }
        i += 1;
    }
    assert(sizes@.take(sizes.len() as int) =~= sizes@);
    best
}

pub proof fn lemma_smallest_is_a_size(sizes: Seq<u64>)
    ensures
        smallest_positive(sizes) == 0 || exists|i: int| 0 <= i < sizes.len() && sizes[i]
            == smallest_positive(sizes),
    decreases sizes.len(),
{
    if sizes.len() > 0 {
        lemma_smallest_is_a_size(sizes.drop_last());
        if smallest_positive(sizes) != 0 && smallest_positive(sizes) != sizes.last() {
            let i = choose|i: int| 0 <= i < sizes.drop_last().len() && sizes.drop_last()[i]
                == smallest_positive(sizes.drop_last());
            assert(sizes[i] == sizes.drop_last()[i]);
        }
    }
}

/// The warnings every plan carries: data loss, the data disks' exclusion
/// from automatic selection, and that only a plan is produced.
pub open spec fn raid_plan_warnings() -> Seq<Seq<char>> {
    seq![
        "Bu işlem seçilen disklerdeki tüm verileri kalıcı olarak siler."@,
        "PhotoOS1 ve PhotoOS2 şu anda veri diski olduğundan otomatik seçime kapalıdır."@,
        "V1 güvenlik nedeniyle yalnızca plan üretir; web arayüzünden mdadm çalıştırmaz."@,
    ]
}

/// Plans a requested array from the sizes of its disks (as `blockdev`
/// reports them, 0 when unknown): the array device is `/dev/` and the
/// requested name (default `md0`) without leading `/dev/`; the usable size
/// follows the level from the smallest known disk.
pub fn create_raid_plan(req: RaidPlanRequest, sizes: &Vec<u64>) -> (r: Result<RaidPlanResponse, String>)
    requires
        sizes.len() == req.devices.len(),
        forall|i: int| 0 <= i < sizes.len() ==> sizes[i] * sizes.len() <= u64::MAX,
    ensures
        match plan_refusal(req.level@, texts(req.devices@)) {
            Some(m) => r matches Err(s) && s@ == m,
            None => r matches Ok(plan) && {
                &&& plan.valid && plan.destructive && !plan.execution_enabled
                &&& plan.level@ == req.level@
                &&& texts(plan.devices@) == texts(req.devices@)
                &&& plan.array_device@ == "/dev/"@ + strip_all(
                    match req.array_name {
                        Some(n) => n@,
                        None => "md0"@,
                    },
                    "/dev/"@,
                )
                &&& plan.estimated_usable_bytes == usable_bytes(
                    req.level@,
                    smallest_positive(sizes@),
                    req.devices.len() as nat,
                )
                &&& plan.command_preview@ == "sudo mdadm --create "@ + plan.array_device@
                    + " --level="@ + req.level@.skip(4) + " --raid-devices="@ + decimal(
                    req.devices.len() as nat,
                ) + " "@ + join_texts(texts(req.devices@), " "@)
                &&& texts(plan.warnings@) == raid_plan_warnings()
            },
        },
{
    let minimum = match minimum_for(req.level.as_str()) {
        Some(m) => m,
        None => return Err("Desteklenmeyen RAID seviyesi".to_string()),
    };
    if req.devices.len() < minimum {
        let mut out = chars_of(req.level.as_str());
        extend_str(&mut out, " için en az ");
        let digits = decimal_of(minimum as u64);
        extend_chars(&mut out, &digits);
        extend_str(&mut out, " disk gerekir");
        return Err(string_of(&out));
    }
    proof {
        lemma_level_names(req.level@);
    }
    let mut i: usize = 0;
    while i < req.devices.len()
        invariant
            i <= req.devices.len(),
            req.devices.len() >= minimum,
            minimum_disks(req.level@) == Some(minimum as nat),
            forall|k: int| 0 <= k < i ==> has_prefix(#[trigger] texts(req.devices@)[k], "/dev/"@),
        decreases req.devices.len() - i,
    {
        if !str_starts_with(req.devices[i].as_str(), "/dev/") {
            assert(!has_prefix(texts(req.devices@)[i as int], "/dev/"@));
            return Err("Geçersiz disk yolu".to_string());
        }
        i += 1;
    }
    let name = match &req.array_name {
        Some(n) => strip_dev(n.as_str()),
        None => strip_dev("md0"),
    };
    let mut array_device = chars_of("/dev/");
    extend_chars(&mut array_device, &name);
    let smallest = smallest_of(sizes);
    let n = req.devices.len() as u64;
    proof {
        lemma_smallest_is_a_size(sizes@);
        if smallest != 0 {
            let k = choose|k: int| 0 <= k < sizes@.len() && sizes@[k] == smallest;
            assert(sizes[k] * sizes.len() <= u64::MAX);
        }
        assert(smallest * n <= u64::MAX);
    }
    let estimated: u64 = if text_eq(req.level.as_str(), "raid0") {
        smallest * n
    } else if text_eq(req.level.as_str(), "raid1") {
        smallest
    } else if text_eq(req.level.as_str(), "raid5") {
        assert(smallest * (n - 1) <= smallest * n) by (nonlinear_arith)
            requires
                n >= 1,
        ;
        smallest * (n - 1)
    } else if text_eq(req.level.as_str(), "raid6") {
        assert(smallest * (n - 2) <= smallest * n) by (nonlinear_arith)
            requires
                n >= 2,
        ;
        smallest * (n - 2)
    } else {
        assert(smallest * (n / 2) <= smallest * n) by (nonlinear_arith);
        smallest * (n / 2)
    };
    let level = chars_of(req.level.as_str());
    let mut preview = chars_of("sudo mdadm --create ");
    extend_chars(&mut preview, &array_device);
    extend_str(&mut preview, " --level=");
    let level_number = crate::text::slice_chars(&level, 4, level.len());
    extend_chars(&mut preview, &level_number);
    extend_str(&mut preview, " --raid-devices=");
    let count = decimal_of(n);
    extend_chars(&mut preview, &count);
    extend_str(&mut preview, " ");
    let joined = join_strings(&req.devices, " ");
    extend_chars(&mut preview, &joined);
    assert(level@.skip(4) =~= level@.subrange(4, level@.len() as int));
    let mut warnings: Vec<String> = Vec::new();
    warnings.push("Bu işlem seçilen disklerdeki tüm verileri kalıcı olarak siler.".to_string());
    warnings.push(
        "PhotoOS1 ve PhotoOS2 şu anda veri diski olduğundan otomatik seçime kapalıdır.".to_string(),
    );
    warnings.push(
        "V1 güvenlik nedeniyle yalnızca plan üretir; web arayüzünden mdadm çalıştırmaz.".to_string(),
    );
    assert(texts(warnings@) =~= raid_plan_warnings());
    Ok(
        RaidPlanResponse {
            valid: true,
            destructive: true,
            level: req.level,
            devices: req.devices,
            array_device: string_of(&array_device),
            estimated_usable_bytes: estimated,
            warnings,
            command_preview: string_of(&preview),
            execution_enabled: false,
        },
    )
}

// ---------------------------------------------------------------------------
// Arrays in /proc/mdstat
// ---------------------------------------------------------------------------

/// An array described in `/proc/mdstat`. The sync progress is kept as the
/// text before its `%`.
#[derive(Debug, Clone)]
pub struct MdArray {
    pub device: String,
    pub name: String,
    pub level: String,
    pub state: String,
    pub active_devices: usize,
    pub total_devices: usize,
    pub failed_devices: usize,
    pub spare_devices: usize,
    pub sync_action: Option<String>,
    pub sync_percent_text: Option<String>,
    pub detail: String,
}

/// An array as values.
pub struct MdArrayView {
    pub device: Seq<char>,
    pub name: Seq<char>,
    pub level: Seq<char>,
    pub state: Seq<char>,
    pub active_devices: nat,
    pub total_devices: nat,
    pub failed_devices: nat,
    pub spare_devices: nat,
    pub sync_action: Option<Seq<char>>,
    pub sync_percent_text: Option<Seq<char>>,
    pub detail: Seq<char>,
}

pub open spec fn opt_view(o: Option<String>) -> Option<Seq<char>> {
    match o {
        Some(s) => Some(s@),
        None => None,
    }
}

impl View for MdArray {
    type V = MdArrayView;

    open spec fn view(&self) -> MdArrayView {
        MdArrayView {
            device: self.device@,
            name: self.name@,
            level: self.level@,
            state: self.state@,
            active_devices: self.active_devices as nat,
            total_devices: self.total_devices as nat,
            failed_devices: self.failed_devices as nat,
            spare_devices: self.spare_devices as nat,
            sync_action: opt_view(self.sync_action),
            sync_percent_text: opt_view(self.sync_percent_text),
            detail: self.detail@,
        }
    }
}

/// The word at `i`, or a default.
pub open spec fn word_or(w: Seq<Seq<char>>, i: int, default: Seq<char>) -> Seq<char> {
    if 0 <= i < w.len() {
        w[i]
    } else {
        default
    }
}

/// A word like `[2/2]`: it opens with `[` and holds a `/`.
pub open spec fn counts_word(w: Seq<char>) -> bool {
    has_prefix(w, "["@) && has_char(w, '/')
}

/// A word like `[UU]`: it opens with `[` and holds no `/`.
pub open spec fn health_word(w: Seq<char>) -> bool {
    has_prefix(w, "["@) && !has_char(w, '/')
}

/// The first word that is a counts word.
pub open spec fn first_counts(w: Seq<Seq<char>>) -> Option<Seq<char>>
    decreases w.len(),
{
    if w.len() == 0 {
        None
    } else if counts_word(w[0]) {
        Some(w[0])
    } else {
        first_counts(w.drop_first())
    }
}

/// The first word that is a health word.
pub open spec fn first_health(w: Seq<Seq<char>>) -> Option<Seq<char>>
    decreases w.len(),
{
    if w.len() == 0 {
        None
    } else if health_word(w[0]) {
        Some(w[0])
    } else {
        first_health(w.drop_first())
    }
}

/// The first word that ends with `%`.
pub open spec fn first_percent(w: Seq<Seq<char>>) -> Option<Seq<char>>
    decreases w.len(),
{
    if w.len() == 0 {
        None
    } else if has_suffix(w[0], "%"@) {
        Some(w[0])
    } else {
        first_percent(w.drop_first())
    }
}

pub open spec fn is_bracket(c: char) -> bool {
    c == '[' || c == ']'
}

/// Without leading brackets.
pub open spec fn strip_lead_brackets(s: Seq<char>) -> Seq<char>
    decreases s.len(),
{
    if s.len() > 0 && is_bracket(s[0]) {
        strip_lead_brackets(s.drop_first())
    } else {
        s
    }
}

/// Without trailing copies of `c`.
pub open spec fn strip_trail(s: Seq<char>, c: char) -> Seq<char>
    decreases s.len(),
{
    if s.len() > 0 && s.last() == c {
        strip_trail(s.drop_last(), c)
    } else {
        s
    }
}

/// Without trailing brackets.
pub open spec fn strip_trail_brackets(s: Seq<char>) -> Seq<char>
    decreases s.len(),
{
    if s.len() > 0 && is_bracket(s.last()) {
        strip_trail_brackets(s.drop_last())
    } else {
        s
    }
}

/// How many times `c` occurs in `s`.
pub open spec fn count_char(s: Seq<char>, c: char) -> nat
    decreases s.len(),
{
    if s.len() == 0 {
        0
    } else {
        count_char(s.drop_last(), c) + if s.last() == c {
            1nat
        } else {
            0nat
        }
    }
}

/// A member word like `sdb1[0]`: it holds a `[` but does not open with one.
pub open spec fn member_word(w: Seq<char>) -> bool {
    has_char(w, '[') && !has_prefix(w, "["@)
}

/// How many member words there are.
pub open spec fn member_count(w: Seq<Seq<char>>) -> nat
    decreases w.len(),
{
    if w.len() == 0 {
        0
    } else {
        member_count(w.drop_last()) + if member_word(w.last()) {
            1nat
        } else {
            0nat
        }
    }
}

/// The recovery action a progress text names, checked in this order.
pub open spec fn sync_action_of(text: Seq<char>) -> Option<Seq<char>> {
    if has_sub(text, "recovery"@) {
        Some("recovery"@)
    } else if has_sub(text, "resync"@) {
        Some("resync"@)
    } else if has_sub(text, "reshape"@) {
        Some("reshape"@)
    } else if has_sub(text, "check"@) {
        Some("check"@)
    } else {
        None
    }
}

/// `str::parse::<usize>`.
pub open spec fn usize_text(s: Seq<char>) -> Option<nat> {
    match u64_text(s) {
        Some(v) => if v <= usize::MAX {
            Some(v as nat)
        } else {
            None
        },
        None => None,
    }
}

pub open spec fn line_at(lines: Seq<Seq<char>>, i: int) -> Seq<char> {
    if 0 <= i < lines.len() {
        trim(lines[i])
    } else {
        Seq::<char>::empty()
    }
}

/// A line that describes an array: trimmed, it opens with `md` and holds
/// ` : `.
pub open spec fn array_header(line: Seq<char>) -> bool {
    has_prefix(trim(line), "md"@) && has_sub(trim(line), " : "@)
}

/// The array described at line `i`: name, state and level from its first
/// words, device counts from the `[n/m]` word of the next line (else the
/// number of members), failed members from the `_` of its `[UU]` word, and
/// the sync action and progress from the two lines after it.
pub open spec fn md_array_at(lines: Seq<Seq<char>>, i: int) -> MdArrayView {
    let line = trim(lines[i]);
    let w = words(line);
    let name = word_or(w, 0, "md?"@);
    let members = if 4 < w.len() {
        member_count(w.skip(4))
    } else {
        0
    };
    let detail = line_at(lines, i + 1);
    let combined = detail + " "@ + line_at(lines, i + 2);
    let dw = words(detail);
    let counts = match first_counts(dw) {
        Some(c) => strip_trail_brackets(strip_lead_brackets(c)),
        None => "0/0"@,
    };
    let parts = split_on(counts, '/');
    let total = match usize_text(parts[0]) {
        Some(v) => v,
        None => members,
    };
    let active = if parts.len() > 1 {
        match usize_text(parts[1]) {
            Some(v) => v,
            None => members,
        }
    } else {
        members
    };
    let health = match first_health(dw) {
        Some(h) => h,
        None => Seq::<char>::empty(),
    };
    MdArrayView {
        device: "/dev/"@ + name,
        name,
        level: word_or(w, 3, "unknown"@),
        state: word_or(w, 2, "inactive"@),
        active_devices: active,
        total_devices: total,
        failed_devices: count_char(health, '_'),
        spare_devices: 0,
        sync_action: sync_action_of(combined),
        sync_percent_text: match first_percent(words(combined)) {
            Some(p) => Some(strip_trail(p, '%')),
            None => None,
        },
        detail: line,
    }
}

/// The arrays described among the first `n` lines.
pub open spec fn md_arrays(lines: Seq<Seq<char>>, n: int) -> Seq<MdArrayView>
    decreases n,
{
    if n <= 0 {
        Seq::<MdArrayView>::empty()
    } else if array_header(lines[n - 1]) {
        md_arrays(lines, n - 1).push(md_array_at(lines, n - 1))
    } else {
        md_arrays(lines, n - 1)
    }
}

fn is_counts_word(w: &Vec<char>) -> (r: bool)
    ensures
        r == counts_word(w@),
{
    let open = chars_of("[");
    starts_with(w, &open) && contains_char(w, '/')
}

fn is_health_word(w: &Vec<char>) -> (r: bool)
    ensures
        r == health_word(w@),
{
    let open = chars_of("[");
    starts_with(w, &open) && !contains_char(w, '/')
}

fn find_counts(w: &Vec<Vec<char>>) -> (r: Option<usize>)
    ensures
        match first_counts(views(w@)) {
            Some(c) => r matches Some(i) && i < w.len() && w@[i as int]@ == c,
            None => r is None,
        },
{
    let mut i: usize = 0;
    assert(views(w@).skip(0) =~= views(w@));
    while i < w.len()
        invariant
            i <= w.len(),
            first_counts(views(w@)) == first_counts(views(w@).skip(i as int)),
        decreases w.len() - i,
    {
        proof {
            assert(views(w@).skip(i as int).drop_first() =~= views(w@).skip(i + 1));
            assert(views(w@).skip(i as int)[0] == w@[i as int]@);
        }
        if is_counts_word(&w[i]) {
            return Some(i);
        }
        i += 1;
    }
    assert(views(w@).skip(i as int) =~= Seq::<Seq<char>>::empty());
    None
}

fn find_health(w: &Vec<Vec<char>>) -> (r: Option<usize>)
    ensures
        match first_health(views(w@)) {
            Some(c) => r matches Some(i) && i < w.len() && w@[i as int]@ == c,
            None => r is None,
        },
{
    let mut i: usize = 0;
    assert(views(w@).skip(0) =~= views(w@));
    while i < w.len()
        invariant
            i <= w.len(),
            first_health(views(w@)) == first_health(views(w@).skip(i as int)),
        decreases w.len() - i,
    {
        proof {
            assert(views(w@).skip(i as int).drop_first() =~= views(w@).skip(i + 1));
            assert(views(w@).skip(i as int)[0] == w@[i as int]@);
        }
        if is_health_word(&w[i]) {
            return Some(i);
        }
        i += 1;
    }
    assert(views(w@).skip(i as int) =~= Seq::<Seq<char>>::empty());
    None
}

fn find_percent(w: &Vec<Vec<char>>) -> (r: Option<usize>)
    ensures
        match first_percent(views(w@)) {
            Some(c) => r matches Some(i) && i < w.len() && w@[i as int]@ == c,
            None => r is None,
        },
{
    let pct = chars_of("%");
    let mut i: usize = 0;
    assert(views(w@).skip(0) =~= views(w@));
    while i < w.len()
        invariant
            i <= w.len(),
            pct@ == "%"@,
            first_percent(views(w@)) == first_percent(views(w@).skip(i as int)),
        decreases w.len() - i,
    {
        proof {
            assert(views(w@).skip(i as int).drop_first() =~= views(w@).skip(i + 1));
            assert(views(w@).skip(i as int)[0] == w@[i as int]@);
        }
        if ends_with(&w[i], &pct) {
            return Some(i);
        }
        i += 1;
    }
    assert(views(w@).skip(i as int) =~= Seq::<Seq<char>>::empty());
    None
}

fn strip_brackets(s: &Vec<char>) -> (r: Vec<char>)
    ensures
        r@ == strip_trail_brackets(strip_lead_brackets(s@)),
{
    let mut from: usize = 0;
    assert(s@.skip(0) =~= s@);
    while from < s.len() && (s[from] == '[' || s[from] == ']')
        invariant
            from <= s.len(),
            strip_lead_brackets(s@) == strip_lead_brackets(s@.skip(from as int)),
        decreases s.len() - from,
    {
        proof {
            assert(s@.skip(from as int).drop_first() =~= s@.skip(from + 1));
        }
        from += 1;
    }
    let mut to: usize = s.len();
    let ghost mid = s@.skip(from as int);
    assert(s@.subrange(from as int, to as int) =~= mid);
    while to > from && (s[to - 1] == '[' || s[to - 1] == ']')
        invariant
            from <= to <= s.len(),
            mid == s@.skip(from as int),
            strip_lead_brackets(s@) == mid,
            strip_trail_brackets(mid) == strip_trail_brackets(s@.subrange(from as int, to as int)),
        decreases to - from,
    {
        proof {
            assert(s@.subrange(from as int, to as int).drop_last() =~= s@.subrange(
                from as int,
                to - 1,
            ));
        }
        to -= 1;
    }
    slice_chars(s, from, to)
}

fn strip_percent(s: &Vec<char>) -> (r: Vec<char>)
    ensures
        r@ == strip_trail(s@, '%'),
{
    let mut to: usize = s.len();
    assert(s@.subrange(0, to as int) =~= s@);
    while to > 0 && s[to - 1] == '%'
        invariant
            to <= s.len(),
            strip_trail(s@, '%') == strip_trail(s@.subrange(0, to as int), '%'),
        decreases to,
    {
        proof {
            assert(s@.subrange(0, to as int).drop_last() =~= s@.subrange(0, to - 1));
        }
        to -= 1;
    }
    slice_chars(s, 0, to)
}

fn count_of(s: &Vec<char>, c: char) -> (r: usize)
    ensures
        r == count_char(s@, c),
{
    let mut n: usize = 0;
    let mut i: usize = 0;
    while i < s.len()
        invariant
            i <= s.len(),
            n == count_char(s@.take(i as int), c),
            n <= i,
        decreases s.len() - i,
    {
        proof {
            assert(s@.take(i + 1).drop_last() =~= s@.take(i as int));
        }
        if s[i] == c {
            n += 1;
        }
        i += 1;
    }
    assert(s@.take(s.len() as int) =~= s@);
    n
}

fn members_after(w: &Vec<Vec<char>>, from: usize) -> (r: usize)
    ensures
        r == (if from < w.len() {
            member_count(views(w@).skip(from as int))
        } else {
            0
        }),
{
    if from >= w.len() {
        return 0;
    }
    let open = chars_of("[");
    let mut n: usize = 0;
    let mut i: usize = from;
    while i < w.len()
        invariant
            from <= i <= w.len(),
            open@ == "["@,
            n == member_count(views(w@).subrange(from as int, i as int)),
            n <= i - from,
        decreases w.len() - i,
    {
        proof {
            assert(views(w@).subrange(from as int, i + 1).drop_last() =~= views(w@).subrange(
                from as int,
                i as int,
            ));
            assert(views(w@).subrange(from as int, i + 1).last() == w@[i as int]@);
        }
        if contains_char(&w[i], '[') && !starts_with(&w[i], &open) {
            n += 1;
        }
        i += 1;
    }
    assert(views(w@).subrange(from as int, w.len() as int) =~= views(w@).skip(from as int));
    n
}

fn sync_action(text: &Vec<char>) -> (r: Option<String>)
    ensures
        opt_view(r) == sync_action_of(text@),
{
    if contains_sub(text, &chars_of("recovery")) {
        Some("recovery".to_string())
    } else if contains_sub(text, &chars_of("resync")) {
        Some("resync".to_string())
    } else if contains_sub(text, &chars_of("reshape")) {
        Some("reshape".to_string())
    } else if contains_sub(text, &chars_of("check")) {
        Some("check".to_string())
    } else {
        None
    }
}

fn parse_usize(s: &Vec<char>) -> (r: Option<usize>)
    ensures
        match usize_text(s@) {
            Some(v) => r == Some(v as usize),
            None => r is None,
        },
{
    match parse_u64(s) {
        Some(v) => {
            if v <= usize::MAX as u64 {
                Some(v as usize)
            } else {
                None
            }
        },
        None => None,
    }
}

fn word_or_exec(w: &Vec<Vec<char>>, i: usize, default: &str) -> (r: Vec<char>)
    ensures
        r@ == word_or(views(w@), i as int, default@),
{
    if i < w.len() {
        w[i].clone()
    } else {
        chars_of(default)
    }
}

fn line_at_exec(lines: &Vec<Vec<char>>, i: usize) -> (r: Vec<char>)
    ensures
        r@ == line_at(views(lines@), i as int),
{
    if i < lines.len() {
        trimmed(&lines[i])
    } else {
        Vec::new()
    }
}

/// Reads the array described at line `i`.
fn md_array(lines: &Vec<Vec<char>>, i: usize) -> (r: MdArray)
    requires
        i < lines.len(),
    ensures
        r@ == md_array_at(views(lines@), i as int),
{
    let line = trimmed(&lines[i]);
    let w = split_words(&line);
    let name = word_or_exec(&w, 0, "md?");
    let members = members_after(&w, 4);
    let detail = line_at_exec(lines, i + 1);
    let mut combined = detail.clone();
    crate::text::extend_str(&mut combined, " ");
    let bitmap = if i + 1 < lines.len() {
        line_at_exec(lines, i + 2)
    } else {
        Vec::new()
    };
    extend_chars(&mut combined, &bitmap);
    let dw = split_words(&detail);
    let counts = match find_counts(&dw) {
        Some(k) => strip_brackets(&dw[k]),
        None => chars_of("0/0"),
    };
    let parts = split_chars(&counts, '/');
    proof {
        crate::text::lemma_split_nonempty(counts@, '/');
    }
    let total = match parse_usize(&parts[0]) {
        Some(v) => v,
        None => members,
    };
    let active = if parts.len() > 1 {
        match parse_usize(&parts[1]) {
            Some(v) => v,
            None => members,
        }
    } else {
        members
    };
    let failed = match find_health(&dw) {
        Some(k) => count_of(&dw[k], '_'),
        None => 0,
    };
    proof {
        if first_health(views(dw@)) is None {
            assert(count_char(Seq::<char>::empty(), '_') == 0);
        }
    }
    let cw = split_words(&combined);
    let percent = match find_percent(&cw) {
        Some(k) => Some(string_of(&strip_percent(&cw[k]))),
        None => None,
    };
    let mut device = chars_of("/dev/");
    extend_chars(&mut device, &name);
    MdArray {
        device: string_of(&device),
        name: string_of(&name),
        level: string_of(&word_or_exec(&w, 3, "unknown")),
        state: string_of(&word_or_exec(&w, 2, "inactive")),
        active_devices: active,
        total_devices: total,
        failed_devices: failed,
        spare_devices: 0,
        sync_action: sync_action(&combined),
        sync_percent_text: percent,
        detail: string_of(&line),
    }
}

fn is_array_header(line: &Vec<char>) -> (r: bool)
    ensures
        r == array_header(line@),
{
    let t = trimmed(line);
    starts_with(&t, &chars_of("md")) && contains_sub(&t, &chars_of(" : "))
}

/// The arrays `/proc/mdstat` describes, in its order.
pub fn parse_mdstat(text: &str) -> (r: Vec<MdArray>)
    ensures
        r@.len() == md_arrays(split_on(text@, '\n'), split_on(text@, '\n').len() as int).len(),
        forall|k: int| 0 <= k < r@.len() ==> #[trigger] r@[k]@ == md_arrays(
            split_on(text@, '\n'),
            split_on(text@, '\n').len() as int,
        )[k],
{
    let lines = split_chars(&chars_of(text), '\n');
    let ghost ls = views(lines@);
    let mut out: Vec<MdArray> = Vec::new();
    let mut i: usize = 0;
    while i < lines.len()
        invariant
            i <= lines.len(),
            ls == views(lines@),
            ls == split_on(text@, '\n'),
            out@.len() == md_arrays(ls, i as int).len(),
            forall|k: int| 0 <= k < out@.len() ==> #[trigger] out@[k]@ == md_arrays(ls, i as int)[k],
        decreases lines.len() - i,
    {
        if is_array_header(&lines[i]) {
            assert(ls[i as int] == lines@[i as int]@);
            let a = md_array(&lines, i);
            out.push(a);
        } else {
            assert(ls[i as int] == lines@[i as int]@);
        }
        i += 1;
    }
    out
}

/// The state of all arrays: configured when there is one, healthy when no
/// array has a failed member or fewer active than total devices.
pub open spec fn raid_status_of(arrays: Seq<MdArrayView>) -> (bool, bool, Seq<char>) {
    let configured = arrays.len() != 0;
    let healthy = configured && forall|i: int| 0 <= i < arrays.len() ==> (#[trigger] arrays[i]).failed_devices == 0
        && arrays[i].active_devices >= arrays[i].total_devices;
    (configured, healthy, if !configured {
        "RAID yapılandırılmamış"@
    } else if healthy {
        "RAID dizileri sağlıklı"@
    } else {
        "RAID dizilerinden biri dikkat gerektiriyor"@
    })
}

/// Whether arrays are configured and healthy, and the status shown.
pub fn raid_status(arrays: &Vec<MdArray>) -> (r: (bool, bool, String))
    ensures
        (r.0, r.1, r.2@) == raid_status_of(Seq::new(arrays@.len(), |i: int| arrays@[i]@)),
{
    let ghost v = Seq::new(arrays@.len(), |i: int| arrays@[i]@);
    let configured = arrays.len() != 0;
    let mut all_ok = true;
    let mut i: usize = 0;
    while i < arrays.len()
        invariant
            i <= arrays.len(),
            v == Seq::new(arrays@.len(), |i: int| arrays@[i]@),
            all_ok == forall|k: int| 0 <= k < i ==> (#[trigger] v[k]).failed_devices == 0
                && v[k].active_devices >= v[k].total_devices,
        decreases arrays.len() - i,
    {
        let ok = arrays[i].failed_devices == 0 && arrays[i].active_devices >= arrays[i].total_devices;
        assert(ok == (v[i as int].failed_devices == 0 && v[i as int].active_devices
            >= v[i as int].total_devices));
        all_ok = all_ok && ok;
        i += 1;
    }
    let healthy = configured && all_ok;
    let status = if !configured {
        "RAID yapılandırılmamış".to_string()
    } else if healthy {
        "RAID dizileri sağlıklı".to_string()
    } else {
        "RAID dizilerinden biri dikkat gerektiriyor".to_string()
    };
    (configured, healthy, status)
}

} // verus!
