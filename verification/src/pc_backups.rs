//! PC backup protocol rules: computer names, relative upload paths, upload
//! ids and the pairing windows.
use vstd::prelude::*;

use crate::backups::parts_prefix;
use crate::mobile::{all_digits, all_digits_exec, device_token_of, mobile_bearer_token};
use crate::paths::{
    has_parent_component, has_parent_part, is_absolute, joined, join_parts, parts_of, path_parts,
};
use crate::text::{
    views, ascii_lower, ascii_lowercase, chars_of, contains_char, control, decimal, decimal_of,
    extend_chars, extend_str, has_char, has_prefix,
    is_ascii_alphanumeric, is_control, seq_eq, string_of, text_eq, trim, trimmed, utf8_len,
    utf8_len_capped,
};

verus! {

pub const PC_PAIRING_TTL_SECONDS: i64 = 600;

pub const PC_ONLINE_SECONDS: i64 = 120;

pub const MAX_PC_CHUNK_BYTES: usize = 64 * 1024 * 1024;

pub const MAX_PC_FILE_BYTES: u64 = 4 * 1024 * 1024 * 1024 * 1024;

/// Why a PC backup request failed.
#[derive(Debug, Clone)]
pub enum PcError {
    Unauthorized,
    Forbidden,
    RateLimited,
    BadRequest(String),
    NotFound(String),
    Conflict(String),
    NotConfigured,
    Database,
    Io,
}

/// The HTTP status, error code and message of a PC backup error.
pub open spec fn pc_reply(e: PcError) -> (u16, Seq<char>, Seq<char>) {
    match e {
        PcError::Unauthorized => (
            401,
            "unauthorized"@,
            "PC istemcisi veya PhotoOS oturumu doğrulanamadı."@,
        ),
        PcError::Forbidden => (
            403,
            "forbidden"@,
            "Bu PC Backup işlemi yalnızca yöneticiler tarafından yapılabilir."@,
        ),
        PcError::RateLimited => (
            429,
            "rate_limited"@,
            "Çok fazla eşleştirme denemesi yapıldı. Kısa süre sonra tekrar deneyin."@,
        ),
        PcError::BadRequest(m) => (400, "invalid_request"@, m@),
        PcError::NotFound(m) => (404, "not_found"@, m@),
        PcError::Conflict(m) => (409, "conflict"@, m@),
        PcError::NotConfigured => (503, "pc_backup_not_configured"@, "PC Ana Yedek diski atanmamış."@),
        PcError::Database => (500, "database_error"@, "PC Backup veritabanı işlemi başarısız."@),
        PcError::Io => (500, "io_error"@, "PC Backup dosya işlemi başarısız."@),
    }
}

impl PcError {
    /// The HTTP status, error code and message of the error.
    pub fn reply(&self) -> (r: (u16, &'static str, String))
        ensures
            (r.0, r.1@, r.2@) == pc_reply(*self),
    {
        match self {
            PcError::Unauthorized => (
                401,
                "unauthorized",
                "PC istemcisi veya PhotoOS oturumu doğrulanamadı.".to_string(),
            ),
            PcError::Forbidden => (
                403,
                "forbidden",
                "Bu PC Backup işlemi yalnızca yöneticiler tarafından yapılabilir.".to_string(),
            ),
            PcError::RateLimited => (
                429,
                "rate_limited",
                "Çok fazla eşleştirme denemesi yapıldı. Kısa süre sonra tekrar deneyin.".to_string(),
            ),
            PcError::BadRequest(m) => (400, "invalid_request", m.clone()),
            PcError::NotFound(m) => (404, "not_found", m.clone()),
            PcError::Conflict(m) => (409, "conflict", m.clone()),
            PcError::NotConfigured => (
                503,
                "pc_backup_not_configured",
                "PC Ana Yedek diski atanmamış.".to_string(),
            ),
            PcError::Database => (
                500,
                "database_error",
                "PC Backup veritabanı işlemi başarısız.".to_string(),
            ),
            PcError::Io => (500, "io_error", "PC Backup dosya işlemi başarısız.".to_string()),
        }
    }
}

/// A request to pair a computer with a pairing code.
#[derive(Debug, Clone)]
pub struct PairDeviceRequest {
    pub code: String,
    pub device_name: String,
}

/// Query of a single-shot file upload.
#[derive(Debug, Clone)]
pub struct PcUploadQuery {
    pub path: String,
    pub modified_at: Option<i64>,
}

/// Query of a chunked upload.
#[derive(Debug, Clone)]
pub struct PcChunkQuery {
    pub path: String,
    pub upload_id: String,
    pub offset: u64,
    pub complete: bool,
    pub modified_at: Option<i64>,
}

/// Query of the backup browser.
#[derive(Debug, Clone)]
pub struct PcBrowseQuery {
    pub disk: u32,
    pub computer: String,
    pub path: String,
}

/// A computer-name character: not a control character, `/`, `\` or `:`.
pub open spec fn name_char_ok(c: char) -> bool {
    !is_control(c) && c != '/' && c != '\\' && c != ':' && c != '\0'
}

/// The trimmed computer name, if it is usable: non-empty, at most 120
/// bytes, no separators or control characters, not `.` or `..`, and not the
/// reserved staging directory `.photoos-parts` in any ASCII case.
pub open spec fn device_name_of(name: Seq<char>) -> Option<Seq<char>> {
    let t = trim(name);
    if t.len() == 0 || utf8_len(t) > 120 || !(forall|i: int| 0 <= i < t.len() ==> name_char_ok(
        #[trigger] t[i],
    )) || t == "."@ || t == ".."@ || ascii_lower(t) == ".photoos-parts"@ {
        None
    } else {
        Some(t)
    }
}

fn name_chars_ok(v: &Vec<char>) -> (r: bool)
    ensures
        r == (forall|i: int| 0 <= i < v@.len() ==> name_char_ok(#[trigger] v@[i])),
{
    let mut i: usize = 0;
    while i < v.len()
        invariant
            i <= v.len(),
            forall|k: int| 0 <= k < i ==> name_char_ok(#[trigger] v@[k]),
        decreases v.len() - i,
    {
        let c = v[i];
        if control(c) || c == '/' || c == '\\' || c == ':' || c == '\0' {
            return false;
        }
        i += 1;
    }
    true
}

fn is(v: &Vec<char>, literal: &str) -> (r: bool)
    ensures
        r == (v@ == literal@),
{
    let l = chars_of(literal);
    seq_eq(v, &l)
}

/// The trimmed computer name, or a refusal.
pub fn validate_device_name(name: &str) -> (r: Result<String, PcError>)
    ensures
        match device_name_of(name@) {
            Some(t) => r matches Ok(s) && s@ == t,
            None => r matches Err(PcError::BadRequest(m)) && m@ == "Geçerli bir bilgisayar adı gereklidir."@,
        },
{
    let c = chars_of(name);
    let t = trimmed(&c);
    let lower = ascii_lowercase(&t);
    if t.len() == 0 || utf8_len_capped(&t, 120) > 120 || !name_chars_ok(&t) || is(&t, ".") || is(
        &t,
        "..",
    ) || is(&lower, ".photoos-parts") {
        return Err(PcError::BadRequest("Geçerli bir bilgisayar adı gereklidir.".to_string()));
    }
    Ok(string_of(&t))
}

/// `\` replaced by `/`.
pub open spec fn slashes(s: Seq<char>) -> Seq<char> {
    Seq::new(
        s.len(),
        |i: int|
            if s[i] == '\\' {
                '/'
            } else {
                s[i]
            },
    )
}

/// The path starts with a `.` component (`Component::CurDir`).
pub open spec fn starts_with_cur_dir(p: Seq<char>) -> bool {
    p == "."@ || has_prefix(p, "./"@)
}

pub open spec fn part_ok(part: Seq<char>) -> bool {
    forall|i: int| 0 <= i < part.len() ==> !is_control(#[trigger] part[i]) && part[i] != ':'
}

/// The relative path a client names for an upload, normalised to `/`
/// separators, if it is safe: non-blank, no NUL, not absolute, only named
/// components without `..`, control characters or `:`.
pub open spec fn relative_path_of(raw: Seq<char>) -> Option<Seq<char>> {
    let n = slashes(raw);
    let parts = path_parts(n);
    if trim(raw).len() == 0 || has_char(raw, '\0') {
        None
    } else if is_absolute(n) || starts_with_cur_dir(n) || has_parent_part(n) {
        None
    } else if !(forall|i: int| 0 <= i < parts.len() ==> part_ok(#[trigger] parts[i])) {
        None
    } else if parts.len() == 0 {
        None
    } else {
        Some(joined(parts))
    }
}

fn part_ok_exec(v: &Vec<char>) -> (r: bool)
    ensures
        r == part_ok(v@),
{
    let mut i: usize = 0;
    while i < v.len()
        invariant
            i <= v.len(),
            forall|k: int| 0 <= k < i ==> !is_control(#[trigger] v@[k]) && v@[k] != ':',
        decreases v.len() - i,
    {
        if control(v[i]) || v[i] == ':' {
            return false;
        }
        i += 1;
    }
    true
}

/// Normalises and checks the relative path of an uploaded file.
pub fn safe_relative_path(raw: &str) -> (r: Result<String, PcError>)
    ensures
        match relative_path_of(raw@) {
            Some(p) => r matches Ok(s) && s@ == p,
            None => r matches Err(PcError::BadRequest(m)) && m@ == "Geçersiz dosya yolu."@,
        },
{
    let c = chars_of(raw);
    let t = trimmed(&c);
    if t.len() == 0 || contains_char(&c, '\0') {
        return Err(PcError::BadRequest("Geçersiz dosya yolu.".to_string()));
    }
    let mut n: Vec<char> = Vec::new();
    let mut i: usize = 0;
    while i < c.len()
        invariant
            i <= c.len(),
            n@.len() == i,
            forall|k: int| 0 <= k < i ==> n@[k] == (if c@[k] == '\\' {
                '/'
            } else {
                c@[k]
            }),
        decreases c.len() - i,
    {
        if c[i] == '\\' {
            n.push('/');
        } else {
            n.push(c[i]);
        }
        i += 1;
    }
    assert(n@ =~= slashes(raw@));
    let dot = chars_of(".");
    let dot_slash = chars_of("./");
    if (n.len() > 0 && n[0] == '/') || seq_eq(&n, &dot) || crate::text::starts_with(&n, &dot_slash)
        || crate::paths::has_parent_component(&n) {
        return Err(PcError::BadRequest("Geçersiz dosya yolu.".to_string()));
    }
    let parts = parts_of(&n);
    let mut j: usize = 0;
    while j < parts.len()
        invariant
            j <= parts.len(),
            crate::text::views(parts@) == path_parts(n@),
            n@ == slashes(raw@),
            trim(raw@).len() != 0,
            !has_char(raw@, '\0'),
            !is_absolute(n@),
            !starts_with_cur_dir(n@),
            !has_parent_part(n@),
            forall|k: int| 0 <= k < j ==> part_ok(#[trigger] path_parts(n@)[k]),
        decreases parts.len() - j,
    {
        if !part_ok_exec(&parts[j]) {
            assert(!part_ok(path_parts(n@)[j as int]));
            return Err(PcError::BadRequest("Geçersiz dosya yolu.".to_string()));
        }
        j += 1;
    }
    if parts.len() == 0 {
        return Err(PcError::BadRequest("Geçersiz dosya yolu.".to_string()));
    }
    let joined_chars = join_parts(&parts);
    Ok(string_of(&joined_chars))
}

/// The browser's path: empty for a blank request, otherwise a safe relative
/// path.
pub fn safe_browse_path(raw: &str) -> (r: Result<String, PcError>)
    ensures
        trim(raw@).len() == 0 ==> (r matches Ok(s) && s@.len() == 0),
        trim(raw@).len() != 0 ==> match relative_path_of(raw@) {
            Some(p) => r matches Ok(s) && s@ == p,
            None => r matches Err(PcError::BadRequest(m)) && m@ == "Geçersiz dosya yolu."@,
        },
{
    let c = chars_of(raw);
    let t = trimmed(&c);
    if t.len() == 0 {
        return Ok(String::new());
    }
    safe_relative_path(raw)
}

pub open spec fn upload_id_char(c: char) -> bool {
    is_ascii_alphanumeric(c) || c == '-' || c == '_'
}

/// The trimmed upload id, if it is 1 to 128 ASCII letters, digits, `-` or `_`.
pub open spec fn upload_id_of(value: Seq<char>) -> Option<Seq<char>> {
    let t = trim(value);
    if t.len() == 0 || t.len() > 128 || !(forall|i: int| 0 <= i < t.len() ==> upload_id_char(
        #[trigger] t[i],
    )) {
        None
    } else {
        Some(t)
    }
}

/// Checks a chunked upload id.
pub fn validate_upload_id(value: &str) -> (r: Result<String, PcError>)
    ensures
        match upload_id_of(value@) {
            Some(t) => r matches Ok(s) && s@ == t,
            None => r matches Err(PcError::BadRequest(m)) && m@ == "Geçersiz upload_id."@,
        },
{
    let c = chars_of(value);
    let t = trimmed(&c);
    if t.len() == 0 || t.len() > 128 {
        return Err(PcError::BadRequest("Geçersiz upload_id.".to_string()));
    }
    let mut i: usize = 0;
    while i < t.len()
        invariant
            i <= t.len(),
            t@ == trim(value@),
            forall|k: int| 0 <= k < i ==> upload_id_char(#[trigger] t@[k]),
        decreases t.len() - i,
    {
        let ch = t[i];
        if !(('a' <= ch && ch <= 'z') || ('A' <= ch && ch <= 'Z') || ('0' <= ch && ch <= '9') || ch
            == '-' || ch == '_') {
            assert(!upload_id_char(trim(value@)[i as int]));
            return Err(PcError::BadRequest("Geçersiz upload_id.".to_string()));
        }
        i += 1;
    }
    Ok(string_of(&t))
}

/// A safe relative path never leaves the directory it is joined to: it is
/// not absolute, has no `..` component and is made of named components.
pub proof fn lemma_relative_path_stays_inside(raw: Seq<char>)
    requires
        relative_path_of(raw) is Some,
    ensures
        !is_absolute(slashes(raw)),
        !has_parent_part(slashes(raw)),
        path_parts(slashes(raw)).len() > 0,
        relative_path_of(raw) == Some(joined(path_parts(slashes(raw)))),
{
}

// ---------------------------------------------------------------------------
// Chunked uploads
// ---------------------------------------------------------------------------

/// Where a chunk ends in its file, if it may be written: at most 64 MiB,
/// no overflow, and the file stays within 4 TiB.
pub open spec fn chunk_end_of(offset: u64, len: nat) -> Result<u64, Seq<char>> {
    if len > MAX_PC_CHUNK_BYTES {
        Err("PC Backup chunk boyut sınırını aşıyor."@)
    } else if offset + len > u64::MAX {
        Err("Chunk offset taşması."@)
    } else if offset + len > MAX_PC_FILE_BYTES {
        Err("PC Backup dosya boyut sınırını aşıyor."@)
    } else {
        Ok((offset + len) as u64)
    }
}

/// The end offset of a chunk, or why it is refused.
pub fn chunk_end(offset: u64, body_len: usize) -> (r: Result<u64, PcError>)
    ensures
        match chunk_end_of(offset, body_len as nat) {
            Ok(end) => r == Ok::<u64, PcError>(end),
            Err(m) => r matches Err(PcError::BadRequest(s)) && s@ == m,
        },
{
    if body_len > MAX_PC_CHUNK_BYTES {
        return Err(PcError::BadRequest("PC Backup chunk boyut sınırını aşıyor.".to_string()));
    }
    let len = body_len as u64;
    if offset > u64::MAX - len {
        return Err(PcError::BadRequest("Chunk offset taşması.".to_string()));
    }
    let end = offset + len;
    if end > MAX_PC_FILE_BYTES {
        return Err(PcError::BadRequest("PC Backup dosya boyut sınırını aşıyor.".to_string()));
    }
    Ok(end)
}

/// A chunk after the first continues the partial file only where it ends:
/// the partial file must exist and be exactly `offset` bytes long.
pub fn chunk_continues(existing_len: Option<u64>, offset: u64) -> (r: Result<(), PcError>)
    ensures
        offset == 0 ==> r is Ok,
        offset != 0 ==> match existing_len {
            None => r matches Err(PcError::Conflict(m)) && m@ == "Chunk sırası eşleşmiyor."@,
            Some(n) => if n == offset {
                r is Ok
            } else {
                r matches Err(PcError::Conflict(m)) && m@
                    == "Chunk offset değeri mevcut dosya boyutuyla eşleşmiyor."@
            },
        },
{
    if offset == 0 {
        return Ok(());
    }
    match existing_len {
        None => Err(PcError::Conflict("Chunk sırası eşleşmiyor.".to_string())),
        Some(n) => {
            if n == offset {
                Ok(())
            } else {
                Err(
                    PcError::Conflict(
                        "Chunk offset değeri mevcut dosya boyutuyla eşleşmiyor.".to_string(),
                    ),
                )
            }
        },
    }
}

/// After writing, the partial file must end where the chunk ends.
pub fn chunk_received(received: u64, end: u64) -> (r: Result<(), PcError>)
    ensures
        received == end ==> r is Ok,
        received != end ==> (r matches Err(PcError::Conflict(m)) && m@
            == "Chunk uzunluğu beklenen offset ile eşleşmiyor."@),
{
    if received != end {
        return Err(PcError::Conflict("Chunk uzunluğu beklenen offset ile eşleşmiyor.".to_string()));
    }
    Ok(())
}

/// The length of a partial file, if it exists.
pub open spec fn part_len(part: Option<Seq<u8>>) -> Option<nat> {
    match part {
        Some(p) => Some(p.len()),
        None => None,
    }
}

/// Whether a chunk is taken: its end is within the limits, and a chunk
/// after the first starts exactly where the partial file ends.
pub open spec fn chunk_taken(existing: Option<nat>, offset: u64, len: nat) -> bool {
    &&& chunk_end_of(offset, len) is Ok
    &&& (offset == 0 || existing == Some(offset as nat))
}

/// The partial file after a chunk: a chunk at offset 0 starts it anew,
/// a later chunk is appended, and a refused chunk leaves it as it was.
pub open spec fn part_after(part: Option<Seq<u8>>, offset: u64, body: Seq<u8>) -> Option<Seq<u8>> {
    if !chunk_taken(part_len(part), offset, body.len()) {
        part
    } else if offset == 0 {
        Some(body)
    } else {
        Some(part->Some_0 + body)
    }
}

/// The partial file after a series of chunks, each an offset and a body.
pub open spec fn part_after_all(part: Option<Seq<u8>>, chunks: Seq<(u64, Seq<u8>)>) -> Option<Seq<u8>>
    decreases chunks.len(),
{
    if chunks.len() == 0 {
        part
    } else {
        part_after(part_after_all(part, chunks.drop_last()), chunks.last().0, chunks.last().1)
    }
}

/// Every chunk of the series was taken.
pub open spec fn all_taken(part: Option<Seq<u8>>, chunks: Seq<(u64, Seq<u8>)>) -> bool
    decreases chunks.len(),
{
    chunks.len() == 0 || (all_taken(part, chunks.drop_last()) && chunk_taken(
        part_len(part_after_all(part, chunks.drop_last())),
        chunks.last().0,
        chunks.last().1.len(),
    ))
}

/// The bodies of a series of chunks, one after another.
pub open spec fn bodies(chunks: Seq<(u64, Seq<u8>)>) -> Seq<u8>
    decreases chunks.len(),
{
    if chunks.len() == 0 {
        Seq::empty()
    } else {
        bodies(chunks.drop_last()) + chunks.last().1
    }
}

/// Decides a chunk against the partial file: the end of the chunk where it
/// is taken, else why not (size and offset limits first, then the order).
pub fn take_chunk(existing_len: Option<u64>, offset: u64, body_len: usize) -> (r: Result<u64, PcError>)
    ensures
        r is Ok <==> chunk_taken(
            match existing_len {
                Some(n) => Some(n as nat),
                None => None,
            },
            offset,
            body_len as nat,
        ),
        r is Ok ==> r == Ok::<u64, PcError>((offset + body_len) as u64),
        chunk_end_of(offset, body_len as nat) matches Err(m) ==> (r matches Err(PcError::BadRequest(e))
            && e@ == m),
{
    let end = chunk_end(offset, body_len)?;
    chunk_continues(existing_len, offset)?;
    Ok(end)
}

/// Chunks taken one after another, the first at offset 0 and every later
/// one where the previous ended, build the partial file as the
/// concatenation of their bodies: each chunk's offset is the length of the
/// bodies before it, and the file ends where the last chunk ends.
pub proof fn lemma_chunks_concatenate(chunks: Seq<(u64, Seq<u8>)>)
    requires
        chunks.len() >= 1,
        chunks[0].0 == 0,
        forall|i: int| 1 <= i < chunks.len() ==> chunks[i].0 != 0,
        all_taken(None, chunks),
    ensures
        part_after_all(None, chunks) == Some(bodies(chunks)),
        forall|i: int| 0 <= i < chunks.len() ==> chunks[i].0 == bodies(#[trigger] chunks.take(i)).len(),
    decreases chunks.len(),
{
    let front = chunks.drop_last();
    if chunks.len() == 1 {
        assert(front.len() == 0);
        assert(bodies(front) =~= Seq::<u8>::empty());
        assert(bodies(chunks) =~= chunks[0].1);
        assert forall|i: int| 0 <= i < chunks.len() implies chunks[i].0 == bodies(
            #[trigger] chunks.take(i),
        ).len() by {
            assert(chunks.take(0).len() == 0);
        }
    } else {
        assert forall|i: int| 1 <= i < front.len() implies front[i].0 != 0 by {
            assert(front[i] == chunks[i]);
        }
        lemma_chunks_concatenate(front);
        assert forall|i: int| 0 <= i < chunks.len() implies chunks[i].0 == bodies(
            #[trigger] chunks.take(i),
        ).len() by {
            if i < front.len() {
                assert(chunks.take(i) =~= front.take(i));
                assert(front[i] == chunks[i]);
                assert(front[i].0 == bodies(front.take(i)).len());
            } else {
                assert(chunks.take(i) =~= front);
            }
        }
    }
}

/// A refused chunk leaves the partial file as it was.
pub proof fn lemma_refused_chunk_changes_nothing(part: Option<Seq<u8>>, offset: u64, body: Seq<u8>)
    requires
        !chunk_taken(part_len(part), offset, body.len()),
    ensures
        part_after(part, offset, body) == part,
{
}

/// The partial file of an upload: its id and `.part`.
pub fn part_file_name(upload_id: &str) -> (r: String)
    ensures
        r@ == upload_id@ + ".part"@,
{
    let mut out = chars_of(upload_id);
    extend_str(&mut out, ".part");
    string_of(&out)
}

/// The modification time given to a completed file, as `touch -d` takes
/// it: `@` and the seconds, for a positive time only.
pub fn touch_timestamp(modified_at: Option<i64>) -> (r: Option<String>)
    ensures
        match modified_at {
            Some(t) => if t > 0 {
                r matches Some(s) && s@ == "@"@ + decimal(t as nat)
            } else {
                r is None
            },
            None => r is None,
        },
{
    match modified_at {
        Some(t) => {
            if t > 0 {
                let mut out = chars_of("@");
                let digits = decimal_of(t as u64);
                extend_chars(&mut out, &digits);
                Some(string_of(&out))
            } else {
                None
            }
        },
        None => None,
    }
}

/// The token a computer's request carries.
pub fn pc_bearer_token(raw: Option<&str>) -> (r: Result<String, PcError>)
    ensures
        match device_token_of(
            match raw {
                Some(h) => Some(h@),
                None => None,
            },
        ) {
            Some(t) => r matches Ok(s) && s@ == t,
            None => r matches Err(PcError::Unauthorized),
        },
{
    match mobile_bearer_token(raw) {
        Ok(t) => Ok(t),
        Err(_) => Err(PcError::Unauthorized),
    }
}

// ---------------------------------------------------------------------------
// Disks assigned to PC backups
// ---------------------------------------------------------------------------

/// One entry of the storage assignment document.
#[derive(Debug, Clone)]
pub struct AssignmentRecord {
    pub slot: u32,
    pub slot_name: String,
    pub role: String,
    pub mountpoint: String,
}

/// A disk that holds PC backups.
#[derive(Debug, Clone)]
pub struct PcDisk {
    pub index: u32,
    pub name: String,
    pub root: String,
    pub primary: bool,
}

/// A disk as values: index, name, root and whether it is the primary.
pub type PcDiskView = (u32, Seq<char>, Seq<char>, bool);

pub open spec fn disk_view(d: PcDisk) -> PcDiskView {
    (d.index, d.name@, d.root@, d.primary)
}

pub open spec fn disk_views(s: Seq<PcDisk>) -> Seq<PcDiskView> {
    Seq::new(s.len(), |i: int| disk_view(s[i]))
}

/// The disk an assignment describes: only PC roles with an absolute,
/// `..`-free mount point; named after its role and slot, with the slot's
/// own name in brackets when it has one.
pub open spec fn disk_of(r: AssignmentRecord) -> Option<PcDiskView> {
    let primary = r.role@ == "pc_primary"@;
    let root = trim(r.mountpoint@);
    if !(primary || r.role@ == "pc_backup"@) {
        None
    } else if !is_absolute(root) || has_parent_part(root) {
        None
    } else {
        let label = if primary {
            "PC Ana Yedek "@ + decimal(r.slot as nat)
        } else {
            "PC İkincil Yedek "@ + decimal(r.slot as nat)
        };
        let name = if trim(r.slot_name@).len() == 0 {
            label
        } else {
            label + " ("@ + r.slot_name@ + ")"@
        };
        Some((r.slot, name, root, primary))
    }
}

/// The disks of the assignments, in the assignments' order.
pub open spec fn disks_of(records: Seq<AssignmentRecord>) -> Seq<PcDiskView>
    decreases records.len(),
{
    if records.len() == 0 {
        Seq::<PcDiskView>::empty()
    } else {
        let prev = disks_of(records.drop_last());
        match disk_of(records.last()) {
            Some(d) => prev.push(d),
            None => prev,
        }
    }
}

/// Disks are listed primary first, then by index.
pub open spec fn disk_key(d: PcDiskView) -> (int, int) {
    (
        if d.3 {
            0
        } else {
            1
        },
        d.0 as int,
    )
}

pub open spec fn disk_before(a: PcDiskView, b: PcDiskView) -> bool {
    let ka = disk_key(a);
    let kb = disk_key(b);
    ka.0 < kb.0 || (ka.0 == kb.0 && ka.1 < kb.1)
}

pub open spec fn disks_ordered(s: Seq<PcDiskView>) -> bool {
    forall|i: int, j: int| 0 <= i < j < s.len() ==> !disk_before(#[trigger] s[j], #[trigger] s[i])
}

pub open spec fn disks_with_key(s: Seq<PcDiskView>, k: (int, int)) -> Seq<PcDiskView> {
    s.filter(|d: PcDiskView| disk_key(d) == k)
}

fn disk_from(r: &AssignmentRecord) -> (d: Option<PcDisk>)
    ensures
        match disk_of(*r) {
            Some(v) => d matches Some(x) && disk_view(x) == v,
            None => d is None,
        },
{
    let primary = text_eq(r.role.as_str(), "pc_primary");
    if !(primary || text_eq(r.role.as_str(), "pc_backup")) {
        return None;
    }
    let root = trimmed(&chars_of(r.mountpoint.as_str()));
    if root.len() == 0 || root[0] != '/' || has_parent_component(&root) {
        return None;
    }
    let mut name = if primary {
        chars_of("PC Ana Yedek ")
    } else {
        chars_of("PC İkincil Yedek ")
    };
    let digits = decimal_of(r.slot as u64);
    extend_chars(&mut name, &digits);
    let slot_name = chars_of(r.slot_name.as_str());
    if trimmed(&slot_name).len() != 0 {
        extend_str(&mut name, " (");
        extend_chars(&mut name, &slot_name);
        extend_str(&mut name, ")");
    }
    Some(PcDisk { index: r.slot, name: string_of(&name), root: string_of(&root), primary })
}

proof fn lemma_disks_with_key_step(s: Seq<PcDiskView>, i: int, k: (int, int))
    requires
        0 <= i < s.len(),
    ensures
        disks_with_key(s.take(i + 1), k) == (if disk_key(s[i]) == k {
            disks_with_key(s.take(i), k).push(s[i])
        } else {
            disks_with_key(s.take(i), k)
        }),
{
    reveal(Seq::filter);
    assert(s.take(i + 1).drop_last() =~= s.take(i));
    assert(s.take(i + 1).last() == s[i]);
}

proof fn lemma_disks_with_key_none(s: Seq<PcDiskView>, k: (int, int))
    requires
        forall|q: int| 0 <= q < s.len() ==> disk_key(#[trigger] s[q]) != k,
    ensures
        disks_with_key(s, k) == Seq::<PcDiskView>::empty(),
{
    let f = disks_with_key(s, k);
    if f.len() > 0 {
        s.lemma_filter_pred(|d: PcDiskView| disk_key(d) == k, 0);
        s.lemma_filter_contains_rev(|d: PcDiskView| disk_key(d) == k, f[0]);
        assert(f.contains(f[0]));
        let q = choose|q: int| 0 <= q < s.len() && s[q] == f[0];
        assert(disk_key(s[q]) != k);
    }
    assert(f =~= Seq::<PcDiskView>::empty());
}

proof fn lemma_disk_insert_with_key(s: Seq<PcDiskView>, p: int, x: PcDiskView, k: (int, int))
    requires
        0 <= p <= s.len(),
        forall|q: int| p <= q < s.len() ==> disk_before(x, #[trigger] s[q]),
    ensures
        disks_with_key(s.insert(p, x), k) == (if disk_key(x) == k {
            disks_with_key(s, k).push(x)
        } else {
            disks_with_key(s, k)
        }),
{
    broadcast use Seq::filter_distributes_over_add;

    let pred = |d: PcDiskView| disk_key(d) == k;
    let head = s.subrange(0, p);
    let tail = s.subrange(p, s.len() as int);
    assert(s =~= head + tail);
    assert(s.insert(p, x) =~= head.push(x) + tail);
    assert(disks_with_key(s, k) == head.filter(pred) + tail.filter(pred));
    assert(disks_with_key(s.insert(p, x), k) == head.push(x).filter(pred) + tail.filter(pred));
    assert(head.push(x).filter(pred) == (if pred(x) {
        head.filter(pred).push(x)
    } else {
        head.filter(pred)
    })) by {
        reveal(Seq::filter);
        assert(head.push(x).drop_last() =~= head);
    }
    if disk_key(x) == k {
        assert forall|q: int| 0 <= q < tail.len() implies disk_key(#[trigger] tail[q]) != k by {
            assert(tail[q] == s[p + q]);
            assert(disk_before(x, s[p + q]));
        }
        lemma_disks_with_key_none(tail, k);
        assert(tail.filter(pred) =~= Seq::<PcDiskView>::empty());
        assert(head.filter(pred).push(x) + tail.filter(pred) =~= (head.filter(pred)
            + tail.filter(pred)).push(x));
    }
}

fn disk_ahead(a: &PcDisk, b: &PcDisk) -> (r: bool)
    ensures
        r == disk_before(disk_view(*a), disk_view(*b)),
{
    let ka: u8 = if a.primary {
        0
    } else {
        1
    };
    let kb: u8 = if b.primary {
        0
    } else {
        1
    };
    ka < kb || (ka == kb && a.index < b.index)
}

/// The disks of the storage assignments that hold PC backups, primary
/// first, then by index; disks with the same key keep the assignments'
/// order.
pub fn parse_pc_disks(records: &Vec<AssignmentRecord>) -> (r: Vec<PcDisk>)
    ensures
        disks_ordered(disk_views(r@)),
        disk_views(r@).len() == disks_of(records@).len(),
        forall|k: (int, int)| #[trigger]
            disks_with_key(disk_views(r@), k) == disks_with_key(disks_of(records@), k),
{
    let mut out: Vec<PcDisk> = Vec::new();
    let mut i: usize = 0;
    proof {
        assert forall|k: (int, int)| #[trigger]
            disks_with_key(disk_views(out@), k) == disks_with_key(disks_of(records@.take(0)), k) by {
            reveal(Seq::filter);
            assert(records@.take(0) =~= Seq::<AssignmentRecord>::empty());
            assert(disk_views(out@) =~= Seq::<PcDiskView>::empty());
        }
    }
    while i < records.len()
        invariant
            i <= records.len(),
            disk_views(out@).len() == disks_of(records@.take(i as int)).len(),
            disks_ordered(disk_views(out@)),
            forall|k: (int, int)| #[trigger]
                disks_with_key(disk_views(out@), k) == disks_with_key(
                    disks_of(records@.take(i as int)),
                    k,
                ),
        decreases records.len() - i,
    {
        proof {
            assert(records@.take(i + 1).drop_last() =~= records@.take(i as int));
            assert(records@.take(i + 1).last() == records@[i as int]);
        }
        let next = disk_from(&records[i]);
        match next {
            None => {},
            Some(x) => {
                let ghost xv = disk_view(x);
                let mut p: usize = 0;
                while p < out.len() && !disk_ahead(&x, &out[p])
                    invariant
                        p <= out.len(),
                        forall|q: int| 0 <= q < p ==> !disk_before(xv, #[trigger] disk_views(out@)[q]),
                        xv == disk_view(x),
                    decreases out.len() - p,
                {
                    p += 1;
                }
                let ghost old_out = disk_views(out@);
                proof {
                    assert forall|q: int| p <= q < old_out.len() implies disk_before(
                        xv,
                        #[trigger] old_out[q],
                    ) by {
                        if q > p {
                            assert(!disk_before(old_out[q], old_out[p as int]));
                        }
                    }
                }
                out.insert(p, x);
                proof {
                    assert(disk_views(out@) =~= old_out.insert(p as int, xv));
                    let n = disk_views(out@);
                    assert forall|a: int, b: int| 0 <= a < b < n.len() implies !disk_before(
                        #[trigger] n[b],
                        #[trigger] n[a],
                    ) by {
                        if b < p {
                            assert(n[a] == old_out[a] && n[b] == old_out[b]);
                        } else if b == p {
                            assert(n[a] == old_out[a]);
                        } else if a < p {
                            assert(n[a] == old_out[a] && n[b] == old_out[b - 1]);
                        } else if a == p {
                            assert(n[b] == old_out[b - 1]);
                            assert(disk_before(xv, old_out[b - 1]));
                        } else {
                            assert(n[a] == old_out[a - 1] && n[b] == old_out[b - 1]);
                        }
                    }
                    let before = disks_of(records@.take(i as int));
                    assert(disks_of(records@.take(i + 1)) == before.push(xv));
                    assert forall|k: (int, int)| #[trigger]
                        disks_with_key(disk_views(out@), k) == disks_with_key(
                            disks_of(records@.take(i + 1)),
                            k,
                        ) by {
                        lemma_disk_insert_with_key(old_out, p as int, xv, k);
                        lemma_disks_with_key_step(before.push(xv), before.len() as int, k);
                        assert(before.push(xv).take(before.len() as int) =~= before);
                        assert(before.push(xv).take(before.len() as int + 1) =~= before.push(xv));
                    }
                }
            },
        }
        i += 1;
    }
    proof {
        assert(records@.take(records.len() as int) =~= records@);
    }
    out
}

/// A computer's pairing request: a six-digit code (trimmed) and a usable
/// computer name.
pub fn validate_pc_pair_request(request: &PairDeviceRequest) -> (r: Result<(String, String), PcError>)
    ensures
        !(trim(request.code@).len() == 6 && all_digits(trim(request.code@))) ==> (r matches Err(
            PcError::BadRequest(m),
        ) && m@ == "Eşleştirme kodu 6 rakam olmalıdır."@),
        trim(request.code@).len() == 6 && all_digits(trim(request.code@)) ==> match device_name_of(
            request.device_name@,
        ) {
            Some(n) => r matches Ok((c, d)) && c@ == trim(request.code@) && d@ == n,
            None => r matches Err(PcError::BadRequest(m)) && m@
                == "Geçerli bir bilgisayar adı gereklidir."@,
        },
{
    let code = trimmed(&chars_of(request.code.as_str()));
    if code.len() != 6 || !all_digits_exec(&code) {
        return Err(PcError::BadRequest("Eşleştirme kodu 6 rakam olmalıdır.".to_string()));
    }
    let name = validate_device_name(request.device_name.as_str())?;
    Ok((string_of(&code), name))
}

/// The directory PC backup roots must lie below.
pub const PC_ALLOWED_ROOT: &'static str = "/srv/photoos/disks";

/// The shape a backup root must have before the disk is looked at: both
/// paths absolute, the root below the allowed directory component by
/// component, and no `..` in the root.
pub open spec fn root_shape_ok(root: Seq<char>, allowed: Seq<char>) -> bool {
    &&& is_absolute(root)
    &&& is_absolute(allowed)
    &&& parts_prefix(path_parts(allowed), path_parts(root))
    &&& !has_parent_part(root)
}

/// Whether the components of `a` begin those of `b`.
fn parts_begin(a: &Vec<Vec<char>>, b: &Vec<Vec<char>>) -> (r: bool)
    ensures
        r == parts_prefix(views(a@), views(b@)),
{
    if a.len() > b.len() {
        return false;
    }
    let mut i: usize = 0;
    while i < a.len()
        invariant
            i <= a.len() <= b.len(),
            forall|k: int| 0 <= k < i ==> a@[k]@ == b@[k]@,
        decreases a.len() - i,
    {
        if !seq_eq(&a[i], &b[i]) {
            assert(views(a@)[i as int] != views(b@).take(a.len() as int)[i as int]);
            return false;
        }
        i += 1;
    }
    assert(views(b@).take(a.len() as int) =~= views(a@));
    true
}

/// Checks the shape of a backup root against the allowed directory; a root
/// of the wrong shape means PC backups are not configured.
pub fn check_root_shape(root: &str, allowed: &str) -> (r: Result<(), PcError>)
    ensures
        root_shape_ok(root@, allowed@) ==> r is Ok,
        !root_shape_ok(root@, allowed@) ==> r matches Err(PcError::NotConfigured),
{
    let rc = chars_of(root);
    let ac = chars_of(allowed);
    if rc.len() == 0 || rc[0] != '/' || ac.len() == 0 || ac[0] != '/' {
        return Err(PcError::NotConfigured);
    }
    let rp = parts_of(&rc);
    let ap = parts_of(&ac);
    if !parts_begin(&ap, &rp) || has_parent_component(&rc) {
        return Err(PcError::NotConfigured);
    }
    Ok(())
}

/// Once both paths are resolved on disk, the resolved root must still lie
/// below the resolved allowed directory.
pub fn check_resolved_root(canonical_root: &str, canonical_allowed: &str) -> (r: Result<(), PcError>)
    ensures
        parts_prefix(path_parts(canonical_allowed@), path_parts(canonical_root@)) ==> r is Ok,
        !parts_prefix(path_parts(canonical_allowed@), path_parts(canonical_root@)) ==> r matches Err(
            PcError::NotConfigured,
        ),
{
    let rp = parts_of(&chars_of(canonical_root));
    let ap = parts_of(&chars_of(canonical_allowed));
    if !parts_begin(&ap, &rp) {
        return Err(PcError::NotConfigured);
    }
    Ok(())
}

/// Index of the first primary disk, or -1.
pub open spec fn first_primary(disks: Seq<PcDiskView>) -> int
    decreases disks.len(),
{
    if disks.len() == 0 {
        -1
    } else if first_primary(disks.drop_last()) >= 0 {
        first_primary(disks.drop_last())
    } else if disks.last().3 {
        disks.len() - 1
    } else {
        -1
    }
}

/// The disk PC backups are written to: the first primary disk; none means
/// PC backups are not configured.
pub fn selected_primary_disk(disks: &Vec<PcDisk>) -> (r: Result<PcDisk, PcError>)
    ensures
        first_primary(disk_views(disks@)) >= 0 ==> (r matches Ok(d) && disk_view(d) == disk_views(
            disks@,
        )[first_primary(disk_views(disks@))]),
        first_primary(disk_views(disks@)) < 0 ==> r matches Err(PcError::NotConfigured),
{
    let mut i: usize = 0;
    while i < disks.len()
        invariant
            i <= disks.len(),
            first_primary(disk_views(disks@).take(i as int)) == -1,
        decreases disks.len() - i,
    {
        proof {
            assert(disk_views(disks@).take(i + 1).drop_last() =~= disk_views(disks@).take(i as int));
        }
        if disks[i].primary {
            proof {
                lemma_first_primary_prefix(disk_views(disks@), i as int + 1);
            }
            let d = PcDisk {
                index: disks[i].index,
                name: disks[i].name.clone(),
                root: disks[i].root.clone(),
                primary: true,
            };
            return Ok(d);
        }
        i += 1;
    }
    assert(disk_views(disks@).take(disks.len() as int) =~= disk_views(disks@));
    Err(PcError::NotConfigured)
}

proof fn lemma_first_primary_prefix(s: Seq<PcDiskView>, n: int)
    requires
        0 <= n <= s.len(),
        first_primary(s.take(n)) >= 0,
    ensures
        first_primary(s) == first_primary(s.take(n)),
    decreases s.len() - n,
{
    if n < s.len() {
        assert(s.take(n + 1).drop_last() =~= s.take(n));
        lemma_first_primary_prefix(s, n + 1);
    } else {
        assert(s.take(n) =~= s);
    }
}

} // verus!
