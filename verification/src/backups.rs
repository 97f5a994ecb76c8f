//! Backup targets on the data disks, and the rule that a backup path must
//! lie on one of them.
use vstd::prelude::*;

use crate::paths::{has_parent_component, has_parent_part, is_absolute, parts_of, path_parts};
use crate::text::{chars_of, extend_chars, extend_str, seq_eq, string_of, trim, trimmed, views};

verus! {

/// A backup run the client asks for.
#[derive(Debug, Clone)]
pub struct StartBackupRequest {
    pub source: String,
    pub target: String,
    pub delete_extraneous: bool,
}

/// A plain success/failure answer.
#[derive(Debug, Clone)]
pub struct ApiMessage {
    pub success: bool,
    pub message: String,
}

/// A backup source or destination offered to the client.
#[derive(Debug, Clone)]
pub struct BackupTarget {
    pub name: String,
    pub path: String,
    pub available: bool,
    pub kind: String,
}

#[derive(Debug, Clone)]
pub struct BackupTargetsResponse {
    pub sources: Vec<BackupTarget>,
    pub targets: Vec<BackupTarget>,
}

/// A finished or running backup job as recorded.
#[derive(Debug, Clone)]
pub struct BackupHistoryEntry {
    pub id: i64,
    pub source: String,
    pub target: String,
    pub status: String,
    pub transferred_bytes: i64,
    pub total_bytes: i64,
    pub files_transferred: i64,
    pub started_at: i64,
    pub finished_at: Option<i64>,
    pub message: String,
}

#[derive(Debug, Clone)]
pub struct BackupHistoryResponse {
    pub history: Vec<BackupHistoryEntry>,
}

/// `s` without its trailing `/` characters.
pub open spec fn without_trailing_slashes(s: Seq<char>) -> Seq<char>
    decreases s.len(),
{
    if s.len() > 0 && s.last() == '/' {
        without_trailing_slashes(s.drop_last())
    } else {
        s
    }
}

proof fn lemma_trailing(s: Seq<char>, n: int)
    requires
        0 <= n <= s.len(),
        forall|i: int| n <= i < s.len() ==> s[i] == '/',
        n == 0 || s[n - 1] != '/',
    ensures
        without_trailing_slashes(s) == s.take(n),
    decreases s.len(),
{
    if s.len() > n {
        lemma_trailing(s.drop_last(), n);
        assert(s.drop_last().take(n) =~= s.take(n));
    } else {
        assert(s.take(n) =~= s);
    }
}

/// The backup directory of a data disk: `<disk>/backups/photoos`, named
/// `<name> Yedekleri`. The directory need not exist yet.
pub fn backup_target_for_disk(name: &str, disk_path: &str, available: bool) -> (r: BackupTarget)
    ensures
        r.name@ == name@ + " Yedekleri"@,
        r.path@ == without_trailing_slashes(disk_path@) + "/backups/photoos"@,
        r.available == available,
        r.kind@ == "backup_directory"@,
{
    let mut path = without_trailing_slash_chars(&chars_of(disk_path));
    extend_str(&mut path, "/backups/photoos");
    let mut label = chars_of(name);
    extend_str(&mut label, " Yedekleri");
    BackupTarget {
        name: string_of(&label),
        path: string_of(&path),
        available,
        kind: "backup_directory".to_string(),
    }
}

/// The data disk a path lies on: `/srv/photoos/disks/<disk>` for a path
/// whose components start with `srv`, `photoos`, `disks` and a named disk.
pub open spec fn disk_root_of(p: Seq<char>) -> Option<Seq<char>> {
    let parts = path_parts(p);
    if is_absolute(p) && parts.len() >= 4 && parts[0] == "srv"@ && parts[1] == "photoos"@
        && parts[2] == "disks"@ && parts[3] != ".."@ {
        Some("/srv/photoos/disks/"@ + parts[3])
    } else {
        None
    }
}

fn part_is(parts: &Vec<Vec<char>>, i: usize, literal: &str) -> (r: bool)
    requires
        i < parts.len(),
    ensures
        r == (parts@[i as int]@ == literal@),
{
    let l = chars_of(literal);
    seq_eq(&parts[i], &l)
}

/// The data-disk root that contains `path`, if the path is below
/// `/srv/photoos/disks/<disk>`.
pub fn photoos_disk_root(path: &str) -> (r: Option<String>)
    ensures
        match disk_root_of(path@) {
            Some(d) => r matches Some(s) && s@ == d,
            None => r is None,
        },
{
    let p = chars_of(path);
    let parts = parts_of(&p);
    proof {
        assert(views(parts@).len() == parts@.len());
    }
    if p.len() == 0 || p[0] != '/' || parts.len() < 4 {
        return None;
    }
    proof {
        assert(views(parts@)[0] == parts@[0]@);
        assert(views(parts@)[1] == parts@[1]@);
        assert(views(parts@)[2] == parts@[2]@);
        assert(views(parts@)[3] == parts@[3]@);
    }
    if !part_is(&parts, 0, "srv") || !part_is(&parts, 1, "photoos") || !part_is(&parts, 2, "disks")
        || part_is(&parts, 3, "..") {
        return None;
    }
    let mut out = chars_of("/srv/photoos/disks/");
    extend_chars(&mut out, &parts[3]);
    Some(string_of(&out))
}

/// A disk root found for a path is a direct child of the disks directory
/// and a prefix of the path's components.
pub proof fn lemma_disk_root_is_child_of_disks(p: Seq<char>)
    requires
        disk_root_of(p) is Some,
    ensures
        is_absolute(p),
        path_parts(p).len() >= 4,
        disk_root_of(p) == Some("/srv/photoos/disks/"@ + path_parts(p)[3]),
        path_parts(p)[3] != ".."@,
{
}

/// The directory every backup source and destination must lie below.
pub const BACKUP_ROOT: &'static str = "/srv/photoos/disks";

/// A path whose components begin with `/srv/photoos/disks`.
pub open spec fn under_disks(p: Seq<char>) -> bool {
    let parts = path_parts(p);
    is_absolute(p) && parts.len() >= 3 && parts[0] == "srv"@ && parts[1] == "photoos"@
        && parts[2] == "disks"@
}

/// A requested backup path, trimmed, if it is absolute, has no `..`
/// component and lies below `/srv/photoos/disks`; otherwise the refusal.
pub open spec fn allowed_path_of(value: Seq<char>) -> Result<Seq<char>, Seq<char>> {
    let raw = trim(value);
    if !is_absolute(raw) {
        Err("Yol mutlak olmalıdır."@)
    } else if has_parent_part(raw) {
        Err("Yolda '..' kullanılamaz."@)
    } else if !under_disks(raw) {
        Err("Yalnızca /srv/photoos/disks altındaki yollar kullanılabilir."@)
    } else {
        Ok(raw)
    }
}

/// Checks a requested backup source or destination.
pub fn normalize_allowed_path(value: &str) -> (r: Result<String, String>)
    ensures
        match allowed_path_of(value@) {
            Ok(p) => r matches Ok(s) && s@ == p,
            Err(m) => r matches Err(s) && s@ == m,
        },
{
    let raw = trimmed(&chars_of(value));
    if raw.len() == 0 || raw[0] != '/' {
        return Err("Yol mutlak olmalıdır.".to_string());
    }
    if has_parent_component(&raw) {
        return Err("Yolda '..' kullanılamaz.".to_string());
    }
    let parts = parts_of(&raw);
    proof {
        assert(views(parts@).len() == parts@.len());
    }
    if parts.len() < 3 {
        return Err("Yalnızca /srv/photoos/disks altındaki yollar kullanılabilir.".to_string());
    }
    proof {
        assert(views(parts@)[0] == parts@[0]@);
        assert(views(parts@)[1] == parts@[1]@);
        assert(views(parts@)[2] == parts@[2]@);
    }
    if !part_is(&parts, 0, "srv") || !part_is(&parts, 1, "photoos") || !part_is(&parts, 2, "disks") {
        return Err("Yalnızca /srv/photoos/disks altındaki yollar kullanılabilir.".to_string());
    }
    Ok(string_of(&raw))
}

/// The components of `a` begin the components of `b`.
pub open spec fn parts_prefix(a: Seq<Seq<char>>, b: Seq<Seq<char>>) -> bool {
    a.len() <= b.len() && b.take(a.len() as int) == a
}

/// For absolute paths, `target == source || target.starts_with(source)`,
/// compared component by component as `Path` does.
pub open spec fn target_within_source(source: Seq<char>, target: Seq<char>) -> bool {
    parts_prefix(path_parts(source), path_parts(target))
}

/// A backup whose destination is its source, or lies below it, is refused.
pub fn backup_overlap_refusal(source: &str, target: &str) -> (r: Option<String>)
    requires
        is_absolute(source@),
        is_absolute(target@),
    ensures
        target_within_source(source@, target@) <==> r is Some,
        r matches Some(m) ==> m@ == "Hedef, kaynakla aynı veya kaynağın altında olamaz."@,
{
    let a = parts_of(&chars_of(source));
    let b = parts_of(&chars_of(target));
    proof {
        assert(views(a@).len() == a@.len());
        assert(views(b@).len() == b@.len());
    }
    if a.len() > b.len() {
        return None;
    }
    let mut i: usize = 0;
    while i < a.len()
        invariant
            i <= a.len() <= b.len(),
            views(a@) == path_parts(source@),
            views(b@) == path_parts(target@),
            forall|k: int| 0 <= k < i ==> a@[k]@ == b@[k]@,
        decreases a.len() - i,
    {
        if !seq_eq(&a[i], &b[i]) {
            proof {
                assert(views(a@)[i as int] != views(b@).take(a.len() as int)[i as int]);
            }
            return None;
        }
        i += 1;
    }
    assert(views(b@).take(a.len() as int) =~= views(a@));
    Some("Hedef, kaynakla aynı veya kaynağın altında olamaz.".to_string())
}

/// The path argument handed to rsync: the path without trailing `/`, then
/// one `/`, so that the directory's contents are copied.
pub fn rsync_path_arg(path: &str) -> (r: String)
    ensures
        r@ == without_trailing_slashes(path@) + "/"@,
{
    let mut out = without_trailing_slash_chars(&chars_of(path));
    out.push('/');
    proof {
        reveal_strlit("/");
        assert(out@ =~= without_trailing_slashes(path@) + "/"@);
    }
    string_of(&out)
}

/// `s` without its trailing `/` characters.
fn without_trailing_slash_chars(d: &Vec<char>) -> (r: Vec<char>)
    ensures
        r@ == without_trailing_slashes(d@),
{
    let mut n = d.len();
    while n > 0 && d[n - 1] == '/'
        invariant
            n <= d.len(),
            forall|i: int| n <= i < d.len() ==> d@[i] == '/',
        decreases n,
    {
        n -= 1;
    }
    proof {
        lemma_trailing(d@, n as int);
    }
    let mut path: Vec<char> = Vec::new();
    let mut i: usize = 0;
    while i < n
        invariant
            i <= n <= d.len(),
            path@ == d@.take(i as int),
        decreases n - i,
    {
        path.push(d[i]);
        assert(d@.take(i + 1) =~= d@.take(i as int).push(d@[i as int]));
        i += 1;
    }
    path
}

/// A backup can start only when none is running.
pub fn start_refusal(running: bool) -> (r: Option<(u16, String)>)
    ensures
        running <==> r is Some,
        r matches Some((status, m)) ==> status == 409 && m@ == "Başka bir yedekleme zaten çalışıyor."@,
{
    if running {
        Some((409, "Başka bir yedekleme zaten çalışıyor.".to_string()))
    } else {
        None
    }
}

/// A stop request needs a running backup.
pub fn stop_refusal(running: bool) -> (r: Option<(u16, String)>)
    ensures
        !running <==> r is Some,
        r matches Some((status, m)) ==> status == 409 && m@ == "Çalışan yedekleme yok."@,
{
    if !running {
        Some((409, "Çalışan yedekleme yok.".to_string()))
    } else {
        None
    }
}

/// How a finished rsync run is recorded: the phase and the message.
pub open spec fn backup_outcome(exit_success: bool, stopping: bool, last_error: Seq<char>) -> (Seq<char>, Seq<char>) {
    let success = exit_success && !stopping;
    if stopping {
        ("stopped"@, "Yedekleme kullanıcı tarafından durduruldu."@)
    } else if success {
        ("completed"@, "Yedekleme başarıyla tamamlandı."@)
    } else if last_error.len() == 0 {
        ("failed"@, "Yedekleme başarısız oldu."@)
    } else {
        ("failed"@, last_error)
    }
}

/// The phase and message of a finished run: a stop request wins, then the
/// exit status; a failure carries rsync's last error line when there is one.
pub fn finish_backup(exit_success: bool, stopping: bool, last_error: &str) -> (r: (&'static str, String))
    ensures
        (r.0@, r.1@) == backup_outcome(exit_success, stopping, last_error@),
{
    if stopping {
        ("stopped", "Yedekleme kullanıcı tarafından durduruldu.".to_string())
    } else if exit_success {
        ("completed", "Yedekleme başarıyla tamamlandı.".to_string())
    } else if last_error.unicode_len() == 0 {
        ("failed", "Yedekleme başarısız oldu.".to_string())
    } else {
        ("failed", last_error.to_string())
    }
}

/// Every accepted backup path is absolute, free of `..` and lies below
/// `/srv/photoos/disks`.
pub proof fn lemma_allowed_backup_path_stays_on_disks(value: Seq<char>)
    requires
        allowed_path_of(value) is Ok,
    ensures
        is_absolute(allowed_path_of(value)->Ok_0),
        !has_parent_part(allowed_path_of(value)->Ok_0),
        under_disks(allowed_path_of(value)->Ok_0),
        allowed_path_of(value)->Ok_0 == trim(value),
{
}

/// A destination equal to its source is always refused, whatever the
/// spelling of trailing slashes.
pub proof fn lemma_same_path_overlaps(source: Seq<char>, target: Seq<char>)
    requires
        path_parts(source) == path_parts(target),
    ensures
        target_within_source(source, target),
{
    assert(path_parts(target).take(path_parts(source).len() as int) =~= path_parts(source));
}

} // verus!
