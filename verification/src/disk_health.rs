//! Disk health as the storage API reports it: SMART verdicts, the RAID
//! state read from `/proc/mdstat`, how block devices are classified and
//! ordered, and which devices a SMART test may be run on.
use vstd::prelude::*;

use crate::text::{
    chars_of, extend_str, has_prefix, has_sub, is_ascii_alphanumeric, seq_eq, split_chars,
    split_on, starts_with, str_contains, str_starts_with, string_of, text_eq, trim, trimmed,
    views,
};

verus! {

/// The SMART health of one physical disk.
#[derive(Debug, Clone)]
pub struct SmartDiskHealth {
    pub device: String,
    pub model: String,
    pub serial: String,
    pub smart_available: bool,
    pub smart_passed: bool,
    pub status: String,
    pub temperature_celsius: Option<i64>,
    pub power_on_hours: Option<i64>,
    pub reallocated_sectors: Option<i64>,
    pub pending_sectors: Option<i64>,
    pub offline_uncorrectable: Option<i64>,
    pub crc_errors: Option<i64>,
}

/// The state of the software RAID.
#[derive(Debug, Clone)]
pub struct RaidHealth {
    pub configured: bool,
    pub status: String,
    pub details: String,
}

/// The storage health report.
#[derive(Debug, Clone)]
pub struct StorageHealthResponse {
    pub disks: Vec<SmartDiskHealth>,
    pub raid: RaidHealth,
    pub checked_at: String,
}

/// The answer to a request to start a SMART test.
#[derive(Debug, Clone)]
pub struct SmartTestResponse {
    pub device: String,
    pub success: bool,
    pub message: String,
}

pub open spec fn positive(v: Option<i64>) -> bool {
    match v {
        Some(n) => n > 0,
        None => false,
    }
}

/// The verdict shown for a disk's SMART data: unsupported, healthy when the
/// self-assessment passed and no sector was reallocated, pending or
/// uncorrectable, a warning when it passed with such sectors, else failing.
pub open spec fn smart_status_of(
    available: bool,
    passed: bool,
    reallocated: Option<i64>,
    pending: Option<i64>,
    uncorrectable: Option<i64>,
) -> Seq<char> {
    let sector_warning = positive(reallocated) || positive(pending) || positive(uncorrectable);
    if !available {
        "SMART desteklenmiyor"@
    } else if passed && !sector_warning {
        "Sağlıklı"@
    } else if passed {
        "Uyarı"@
    } else {
        "Arızalı"@
    }
}

/// A disk whose SMART data is available and whose self-assessment passed
/// is healthy exactly when no reallocated, pending or uncorrectable sector
/// count is positive; any positive count, pending sectors included, makes
/// it a warning. A failed self-assessment is a failure whatever the counts,
/// and without SMART data nothing is judged.
pub proof fn lemma_passed_disk_is_healthy_only_without_bad_sectors(
    reallocated: Option<i64>,
    pending: Option<i64>,
    uncorrectable: Option<i64>,
)
    ensures
        (reallocated matches Some(n) && n > 0) ==> smart_status_of(true, true, reallocated, pending, uncorrectable)
            == "Uyarı"@,
        (pending matches Some(n) && n > 0) ==> smart_status_of(true, true, reallocated, pending, uncorrectable)
            == "Uyarı"@,
        (uncorrectable matches Some(n) && n > 0) ==> smart_status_of(true, true, reallocated, pending, uncorrectable)
            == "Uyarı"@,
        smart_status_of(true, true, reallocated, pending, uncorrectable) == "Sağlıklı"@ <==> (!(reallocated matches Some(
            n,
        ) && n > 0) && !(pending matches Some(n) && n > 0) && !(uncorrectable matches Some(n) && n > 0)),
        smart_status_of(true, false, reallocated, pending, uncorrectable) == "Arızalı"@,
        smart_status_of(false, true, reallocated, pending, uncorrectable) == "SMART desteklenmiyor"@,
{
    reveal_strlit("Uyarı");
    reveal_strlit("Sağlıklı");
    assert("Uyarı"@.len() == 5);
    assert("Sağlıklı"@.len() == 8);
}

fn is_positive(v: Option<i64>) -> (r: bool)
    ensures
        r == positive(v),
{
    match v {
        Some(n) => n > 0,
        None => false,
    }
}

/// The verdict shown for a disk's SMART data.
pub fn smart_status(
    available: bool,
    passed: bool,
    reallocated: Option<i64>,
    pending: Option<i64>,
    uncorrectable: Option<i64>,
) -> (r: &'static str)
    ensures
        r@ == smart_status_of(available, passed, reallocated, pending, uncorrectable),
{
    let sector_warning = is_positive(reallocated) || is_positive(pending) || is_positive(
        uncorrectable,
    );
    if !available {
        "SMART desteklenmiyor"
    } else if passed && !sector_warning {
        "Sağlıklı"
    } else if passed {
        "Uyarı"
    } else {
        "Arızalı"
    }
}

/// A line of `/proc/mdstat` that describes an array.
pub open spec fn array_line(line: Seq<char>) -> bool {
    let t = trim(line);
    t.len() != 0 && !has_prefix(t, "Personalities"@) && !has_prefix(t, "unused devices"@)
        && has_sub(t, " : "@)
}

/// The RAID state of an `/proc/mdstat` text: configured when a line
/// describes an array; then a warning when a member is missing or an array
/// is inactive, else healthy, with the text as details.
pub open spec fn raid_health_of(text: Seq<char>) -> (bool, Seq<char>, Seq<char>) {
    let lines = split_on(text, '\n');
    let configured = exists|i: int| 0 <= i < lines.len() && array_line(#[trigger] lines[i]);
    if configured {
        let degraded = has_sub(text, "[_"@) || has_sub(text, "_]"@) || has_sub(text, "inactive"@);
        (true, if degraded {
            "Uyarı"@
        } else {
            "Sağlıklı"@
        }, trim(text))
    } else {
        (false, "RAID yapılandırılmamış"@, "Bağımsız diskler kullanılıyor."@)
    }
}

fn is_array_line(line: &Vec<char>) -> (r: bool)
    ensures
        r == array_line(line@),
{
    let t = trimmed(line);
    let p1 = chars_of("Personalities");
    let p2 = chars_of("unused devices");
    let sep = chars_of(" : ");
    t.len() != 0 && !starts_with(&t, &p1) && !starts_with(&t, &p2) && crate::text::contains_sub(
        &t,
        &sep,
    )
}

/// The RAID state of an `/proc/mdstat` text.
pub fn raid_health(text: &str) -> (r: RaidHealth)
    ensures
        (r.configured, r.status@, r.details@) == raid_health_of(text@),
{
    let chars = chars_of(text);
    let lines = split_chars(&chars, '\n');
    let mut configured = false;
    let mut i: usize = 0;
    while i < lines.len()
        invariant
            i <= lines.len(),
            views(lines@) == split_on(text@, '\n'),
            configured == exists|k: int| 0 <= k < i && array_line(#[trigger] views(lines@)[k]),
        decreases lines.len() - i,
    {
        if is_array_line(&lines[i]) {
            configured = true;
            assert(array_line(views(lines@)[i as int]));
        }
        proof {
            if !configured {
                assert forall|k: int| 0 <= k < i + 1 implies !array_line(
                    #[trigger] views(lines@)[k],
                ) by {
                    if k == i {
                        assert(views(lines@)[k] == lines@[i as int]@);
                    }
                }
            }
        }
        i += 1;
    }
    if configured {
        let degraded = str_contains(text, "[_") || str_contains(text, "_]") || str_contains(
            text,
            "inactive",
        );
        RaidHealth {
            configured: true,
            status: if degraded {
                "Uyarı".to_string()
            } else {
                "Sağlıklı".to_string()
            },
            details: string_of(&trimmed(&chars)),
        }
    } else {
        RaidHealth {
            configured: false,
            status: "RAID yapılandırılmamış".to_string(),
            details: "Bağımsız diskler kullanılıyor.".to_string(),
        }
    }
}

/// The first mount point of a device that is not blank, as listed.
pub open spec fn first_mountpoint_of(points: Seq<Option<String>>) -> Seq<char>
    decreases points.len(),
{
    if points.len() == 0 {
        Seq::<char>::empty()
    } else {
        match points[0] {
            Some(p) => if trim(p@).len() != 0 {
                p@
            } else {
                first_mountpoint_of(points.drop_first())
            },
            None => first_mountpoint_of(points.drop_first()),
        }
    }
}

fn first_listed(v: &Vec<Option<String>>) -> (r: String)
    ensures
        r@ == first_mountpoint_of(v@),
{
    let mut i: usize = 0;
    assert(v@.skip(0) =~= v@);
    while i < v.len()
        invariant
            i <= v.len(),
            first_mountpoint_of(v@) == first_mountpoint_of(v@.skip(i as int)),
        decreases v.len() - i,
    {
        proof {
            assert(v@.skip(i as int).drop_first() =~= v@.skip(i + 1));
            assert(v@.skip(i as int)[0] == v@[i as int]);
        }
        if let Some(p) = &v[i] {
            if trimmed(&chars_of(p.as_str())).len() != 0 {
                return p.clone();
            }
        }
        i += 1;
    }
    assert(v@.skip(i as int) =~= Seq::<Option<String>>::empty());
    String::new()
}

/// The first mount point of a device that is not blank, or an empty string.
pub fn first_mountpoint(mountpoints: &Option<Vec<Option<String>>>) -> (r: String)
    ensures
        r@ == match mountpoints {
            Some(v) => first_mountpoint_of(v@),
            None => Seq::<char>::empty(),
        },
{
    match mountpoints {
        Some(v) => first_listed(v),
        None => String::new(),
    }
}

/// How the storage API classifies a block device by its mount point: mounted,
/// the system disk (`/` or `/boot`), a PhotoOS data disk.
pub open spec fn device_roles(mountpoint: Seq<char>) -> (bool, bool, bool) {
    (
        mountpoint.len() != 0,
        mountpoint == "/"@ || mountpoint == "/boot"@,
        has_prefix(mountpoint, "/srv/photoos/disks/"@),
    )
}

/// Whether a device is mounted, the system disk, a PhotoOS data disk.
pub fn classify_mountpoint(mountpoint: &str) -> (r: (bool, bool, bool))
    ensures
        r == device_roles(mountpoint@),
{
    (
        mountpoint.unicode_len() != 0,
        text_eq(mountpoint, "/") || text_eq(mountpoint, "/boot"),
        str_starts_with(mountpoint, "/srv/photoos/disks/"),
    )
}

/// Block devices the storage API lists: disks, partitions and arrays.
pub open spec fn listed_type(t: Seq<char>) -> bool {
    t == "disk"@ || t == "part"@ || t == "raid"@ || t == "md"@
}

/// Whether a block device type is listed.
pub fn is_listed_device_type(device_type: &str) -> (r: bool)
    ensures
        r == listed_type(device_type@),
{
    text_eq(device_type, "disk") || text_eq(device_type, "part") || text_eq(device_type, "raid")
        || text_eq(device_type, "md")
}

/// The order of the device list: the system disk, then data disks, then
/// other disks, then the rest.
pub open spec fn device_rank(system: bool, data: bool, device_type: Seq<char>) -> u8 {
    if system {
        0
    } else if data {
        1
    } else if device_type == "disk"@ {
        2
    } else {
        3
    }
}

/// The rank of a device in the device list.
pub fn device_order(system: bool, data: bool, device_type: &str) -> (r: u8)
    ensures
        r == device_rank(system, data, device_type@),
{
    if system {
        0
    } else if data {
        1
    } else if text_eq(device_type, "disk") {
        2
    } else {
        3
    }
}

/// The device path of a block device: its path, or `/dev/` and its name.
pub fn device_path(name: &str, path: &str) -> (r: String)
    ensures
        r@ == (if path@.len() == 0 {
            "/dev/"@ + name@
        } else {
            path@
        }),
{
    if path.unicode_len() == 0 {
        let mut out = chars_of("/dev/");
        extend_str(&mut out, name);
        string_of(&out)
    } else {
        path.to_string()
    }
}

/// A device name a client may name for a SMART test: non-empty ASCII
/// letters, digits, `_` and `-`.
pub open spec fn device_name_ok(name: Seq<char>) -> bool {
    name.len() != 0 && forall|i: int| 0 <= i < name.len() ==> (is_ascii_alphanumeric(
        #[trigger] name[i],
    ) || name[i] == '_' || name[i] == '-')
}

/// The physical disk a client names: `/dev/` and the name, if the name is
/// acceptable and that path is among the physical disks.
pub open spec fn resolved_device(requested: Seq<char>, physical: Seq<Seq<char>>) -> Option<Seq<char>> {
    let path = "/dev/"@ + requested;
    if device_name_ok(requested) && physical.contains(path) {
        Some(path)
    } else {
        None
    }
}

/// Resolves the device a client names against the physical disks.
pub fn resolve_physical_device(requested_device: &str, physical: &Vec<String>) -> (r: Option<String>)
    ensures
        match resolved_device(requested_device@, Seq::new(physical@.len(), |i: int| physical@[i]@)) {
            Some(p) => r matches Some(s) && s@ == p,
            None => r is None,
        },
{
    let ghost phys = Seq::new(physical@.len(), |i: int| physical@[i]@);
    let name = chars_of(requested_device);
    if name.len() == 0 {
        return None;
    }
    let mut i: usize = 0;
    while i < name.len()
        invariant
            i <= name.len(),
            name@ == requested_device@,
            forall|k: int| 0 <= k < i ==> (is_ascii_alphanumeric(#[trigger] name@[k]) || name@[k]
                == '_' || name@[k] == '-'),
        decreases name.len() - i,
    {
        let c = name[i];
        if !(('a' <= c && c <= 'z') || ('A' <= c && c <= 'Z') || ('0' <= c && c <= '9') || c == '_'
            || c == '-') {
            return None;
        }
        i += 1;
    }
    assert(device_name_ok(requested_device@));
    let mut path = chars_of("/dev/");
    extend_str(&mut path, requested_device);
    let mut j: usize = 0;
    while j < physical.len()
        invariant
            j <= physical.len(),
            device_name_ok(requested_device@),
            path@ == "/dev/"@ + requested_device@,
            phys == Seq::new(physical@.len(), |i: int| physical@[i]@),
            forall|k: int| 0 <= k < j ==> phys[k] != path@,
        decreases physical.len() - j,
    {
        let candidate = chars_of(physical[j].as_str());
        if seq_eq(&candidate, &path) {
            assert(phys[j as int] == path@);
            assert(phys.contains(path@));
            return Some(string_of(&path));
        }
        j += 1;
    }
    proof {
        assert(!phys.contains(path@));
    }
    None
}

/// What `String::from_utf8_lossy` makes of bytes.
pub uninterp spec fn utf8_lossy(bytes: Seq<u8>) -> Seq<char>;

/// Calls `String::from_utf8_lossy` and takes ownership of the text.
/// Trusted: the result is `utf8_lossy` of the bytes.
#[verifier::external_body]
fn lossy_text(bytes: &[u8]) -> (r: String)
    ensures
        r@ == utf8_lossy(bytes@),
{
    String::from_utf8_lossy(bytes).into_owned()
}

/// What smartctl said: its standard output, else its error output (both
/// trimmed), else a note that it said nothing.
pub fn smartctl_message(stdout: &[u8], stderr: &[u8]) -> (r: String)
    ensures
        r@ == (if trim(utf8_lossy(stdout@)).len() != 0 {
            trim(utf8_lossy(stdout@))
        } else if trim(utf8_lossy(stderr@)).len() != 0 {
            trim(utf8_lossy(stderr@))
        } else {
            "smartctl çıktı üretmedi."@
        }),
{
    let out = trimmed(&chars_of(lossy_text(stdout).as_str()));
    let err = trimmed(&chars_of(lossy_text(stderr).as_str()));
    if out.len() != 0 {
        string_of(&out)
    } else if err.len() != 0 {
        string_of(&err)
    } else {
        "smartctl çıktı üretmedi.".to_string()
    }
}

} // verus!
