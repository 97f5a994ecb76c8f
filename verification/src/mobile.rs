//! Mobile pairing and upload rules: pairing requests, the pairing rate
//! limit, media type detection from file signatures, upload source
//! classification and safe original file names.
use vstd::prelude::*;

use crate::paths::{file_name, file_name_of};
use crate::text::{
    ascii_lower, ascii_lowercase, chars_of, contains_sub, control, digit_char, has_prefix, has_sub,
    extend_str, i64_text, is_ascii_digit, is_control, parse_i64, seq_eq, slice_chars, starts_with,
    str_starts_with, string_of, text_eq, trim, trimmed, utf8_len, utf8_len_capped, find_char, first_index,
    lemma_first_index,
};
use crate::storage::MediaKind;
use crate::digest::{hex_of, sha256_digest, stream_input, StreamHasher};

verus! {

pub const PAIRING_TTL_SECONDS: i64 = 600;

pub const MOBILE_ONLINE_SECONDS: i64 = 120;

pub const MAX_MOBILE_UPLOAD_BYTES: u64 = 2_000_000_000;

pub const PAIR_RATE_LIMIT_MAX: usize = 10;

pub const PAIR_RATE_LIMIT_WINDOW_SECONDS: i64 = 60;

/// A request to pair a phone with a pairing code.
#[derive(Debug, Clone)]
pub struct PairRequest {
    pub code: String,
    pub device_name: String,
}

/// Why a pairing request was refused.
#[derive(Debug, Clone, Copy, PartialEq, Eq, Structural)]
pub enum PairRequestError {
    InvalidCode,
    InvalidDeviceName,
}

/// The message a refused pairing request is answered with.
pub open spec fn pair_error_message(e: PairRequestError) -> Seq<char> {
    match e {
        PairRequestError::InvalidCode => "Eşleştirme kodu 6 rakam olmalıdır."@,
        PairRequestError::InvalidDeviceName => "Geçerli bir cihaz adı gereklidir."@,
    }
}

impl PairRequestError {
    pub fn message(&self) -> (r: &'static str)
        ensures
            r@ == pair_error_message(*self),
    {
        match self {
            PairRequestError::InvalidCode => "Eşleştirme kodu 6 rakam olmalıdır.",
            PairRequestError::InvalidDeviceName => "Geçerli bir cihaz adı gereklidir.",
        }
    }
}

pub open spec fn all_digits(s: Seq<char>) -> bool {
    forall|i: int| 0 <= i < s.len() ==> is_ascii_digit(#[trigger] s[i])
}

pub open spec fn no_control(s: Seq<char>) -> bool {
    forall|i: int| 0 <= i < s.len() ==> !is_control(#[trigger] s[i])
}

/// A device name: trimmed, non-empty, at most 120 bytes, no control
/// characters.
pub open spec fn device_name_ok(name: Seq<char>) -> bool {
    name.len() != 0 && utf8_len(name) <= 120 && no_control(name)
}

pub fn all_digits_exec(v: &Vec<char>) -> (r: bool)
    ensures
        r == all_digits(v@),
{
    let mut i: usize = 0;
    while i < v.len()
        invariant
            i <= v.len(),
            forall|k: int| 0 <= k < i ==> is_ascii_digit(#[trigger] v@[k]),
        decreases v.len() - i,
    {
        if !('0' <= v[i] && v[i] <= '9') {
            return false;
        }
        i += 1;
    }
    true
}

pub fn no_control_exec(v: &Vec<char>) -> (r: bool)
    ensures
        r == no_control(v@),
{
    let mut i: usize = 0;
    while i < v.len()
        invariant
            i <= v.len(),
            forall|k: int| 0 <= k < i ==> !is_control(#[trigger] v@[k]),
        decreases v.len() - i,
    {
        if control(v[i]) {
            return false;
        }
        i += 1;
    }
    true
}

/// Checks a pairing request: a code of exactly six ASCII digits and a
/// usable device name, both trimmed; returns them trimmed.
pub fn validate_pair_request(request: &PairRequest) -> (r: Result<(String, String), PairRequestError>)
    ensures
        !(trim(request.code@).len() == 6 && all_digits(trim(request.code@))) ==> r == Err::<
            (String, String),
            PairRequestError,
        >(PairRequestError::InvalidCode),
        trim(request.code@).len() == 6 && all_digits(trim(request.code@)) ==> (if device_name_ok(
            trim(request.device_name@),
        ) {
            r matches Ok((c, n)) && c@ == trim(request.code@) && n@ == trim(request.device_name@)
        } else {
            r == Err::<(String, String), PairRequestError>(PairRequestError::InvalidDeviceName)
        }),
{
    let code_chars = chars_of(request.code.as_str());
    let code = trimmed(&code_chars);
    if code.len() != 6 || !all_digits_exec(&code) {
        return Err(PairRequestError::InvalidCode);
    }
    let name_chars = chars_of(request.device_name.as_str());
    let name = trimmed(&name_chars);
    if name.len() == 0 || utf8_len_capped(&name, 120) > 120 || !no_control_exec(&name) {
        return Err(PairRequestError::InvalidDeviceName);
    }
    Ok((string_of(&code), string_of(&name)))
}

// ---------------------------------------------------------------------------
// Pairing rate limit
// ---------------------------------------------------------------------------

/// `i64::saturating_sub`.
pub open spec fn sat_sub(a: i64, b: i64) -> int {
    let d = a - b;
    if d > i64::MAX {
        i64::MAX as int
    } else if d < i64::MIN {
        i64::MIN as int
    } else {
        d
    }
}

/// `i64::saturating_sub`.
pub fn saturating_sub(a: i64, b: i64) -> (r: i64)
    ensures
        r == sat_sub(a, b),
{
    let d: i128 = (a as i128) - (b as i128);
    if d > i64::MAX as i128 {
        i64::MAX
    } else if d < i64::MIN as i128 {
        i64::MIN
    } else {
        d as i64
    }
}

/// The attempts still inside the window at `now`: stale attempts are
/// dropped from the front.
pub open spec fn prune(a: Seq<i64>, now: i64) -> Seq<i64>
    decreases a.len(),
{
    if a.len() > 0 && sat_sub(now, a[0]) >= PAIR_RATE_LIMIT_WINDOW_SECONDS {
        prune(a.drop_first(), now)
    } else {
        a
    }
}

/// Recent pairing attempts of one client address.
#[derive(Debug, Clone, Default)]
pub struct PairAttempts {
    pub attempts: Vec<i64>,
}

impl PairAttempts {
    pub fn new() -> (r: Self)
        ensures
            r.attempts@.len() == 0,
    {
        PairAttempts { attempts: Vec::new() }
    }

    /// Records an attempt at `now` if fewer than `PAIR_RATE_LIMIT_MAX`
    /// attempts remain inside the window; reports whether it was allowed.
    pub fn allow(&mut self, now: i64) -> (allowed: bool)
        ensures
            allowed == (prune(old(self).attempts@, now).len() < PAIR_RATE_LIMIT_MAX),
            allowed ==> final(self).attempts@ == prune(old(self).attempts@, now).push(now),
            !allowed ==> final(self).attempts@ == prune(old(self).attempts@, now),
    {
        loop
            invariant
                prune(self.attempts@, now) == prune(old(self).attempts@, now),
            ensures
                prune(self.attempts@, now) == self.attempts@,
                prune(self.attempts@, now) == prune(old(self).attempts@, now),
            decreases self.attempts.len(),
        {
            if self.attempts.len() == 0 {
                break;
            }
            let d = saturating_sub(now, self.attempts[0]);
            if d < PAIR_RATE_LIMIT_WINDOW_SECONDS {
                break;
            }
            self.attempts.remove(0);
        }
        if self.attempts.len() >= PAIR_RATE_LIMIT_MAX {
            return false;
        }
        self.attempts.push(now);
        true
    }
}

/// However attempts arrive, a client never has more than
/// `PAIR_RATE_LIMIT_MAX` attempts on record, so at most that many are
/// accepted within one window.
pub proof fn lemma_rate_limit_bound(before: Seq<i64>, now: i64, allowed: bool, after: Seq<i64>)
    requires
        before.len() <= PAIR_RATE_LIMIT_MAX,
        allowed == (prune(before, now).len() < PAIR_RATE_LIMIT_MAX),
        allowed ==> after == prune(before, now).push(now),
        !allowed ==> after == prune(before, now),
    ensures
        after.len() <= PAIR_RATE_LIMIT_MAX,
{
    lemma_prune_shrinks(before, now);
}

pub proof fn lemma_prune_shrinks(a: Seq<i64>, now: i64)
    ensures
        prune(a, now).len() <= a.len(),
    decreases a.len(),
{
    if a.len() > 0 && sat_sub(now, a[0]) >= PAIR_RATE_LIMIT_WINDOW_SECONDS {
        lemma_prune_shrinks(a.drop_first(), now);
    }
}

// ---------------------------------------------------------------------------
// Media signatures
// ---------------------------------------------------------------------------

/// Media type recognised from the first bytes of a file.
#[derive(Debug, Clone, Copy, PartialEq, Eq)]
pub struct DetectedMedia {
    pub mime_type: &'static str,
    pub extension: &'static str,
    pub video: bool,
}

pub open spec fn bytes_at(b: Seq<u8>, i: int, p: Seq<u8>) -> bool {
    0 <= i && i + p.len() <= b.len() && b.subrange(i, i + p.len()) == p
}

pub open spec fn brand_is(b: Seq<u8>, brand: Seq<u8>) -> bool {
    bytes_at(b, 8, brand)
}

/// The media type a file's signature announces: MIME type, extension and
/// whether it is a video.
pub open spec fn media_of(b: Seq<u8>) -> Option<(Seq<char>, Seq<char>, bool)> {
    if bytes_at(b, 0, seq![0xffu8, 0xd8u8, 0xffu8]) {
        Some(("image/jpeg"@, "jpg"@, false))
    } else if bytes_at(b, 0, seq![0x89u8, 0x50u8, 0x4eu8, 0x47u8, 0x0du8, 0x0au8, 0x1au8, 0x0au8]) {
        Some(("image/png"@, "png"@, false))
    } else if b.len() >= 12 && bytes_at(b, 0, seq![0x52u8, 0x49u8, 0x46u8, 0x46u8]) && bytes_at(
        b,
        8,
        seq![0x57u8, 0x45u8, 0x42u8, 0x50u8],
    ) {
        Some(("image/webp"@, "webp"@, false))
    } else if bytes_at(b, 0, seq![0x47u8, 0x49u8, 0x46u8, 0x38u8, 0x37u8, 0x61u8]) || bytes_at(
        b,
        0,
        seq![0x47u8, 0x49u8, 0x46u8, 0x38u8, 0x39u8, 0x61u8],
    ) {
        Some(("image/gif"@, "gif"@, false))
    } else if bytes_at(b, 0, seq![0x1au8, 0x45u8, 0xdfu8, 0xa3u8]) {
        Some(("video/webm"@, "webm"@, true))
    } else if b.len() >= 12 && bytes_at(b, 4, seq![0x66u8, 0x74u8, 0x79u8, 0x70u8]) {
        let brand = b.subrange(8, 12);
        if heic_brand(brand) {
            Some(("image/heic"@, "heic"@, false))
        } else if brand == seq![0x61u8, 0x76u8, 0x69u8, 0x66u8] || brand == seq![
            0x61u8,
            0x76u8,
            0x69u8,
            0x73u8,
        ] {
            Some(("image/avif"@, "avif"@, false))
        } else if brand == seq![0x71u8, 0x74u8, 0x20u8, 0x20u8] {
            Some(("video/quicktime"@, "mov"@, true))
        } else if mp4_brand(brand) {
            Some(("video/mp4"@, "mp4"@, true))
        } else {
            None
        }
    } else {
        None
    }
}

/// `heic`, `heix`, `hevc`, `hevx`, `heim`, `heis`, `mif1`, `msf1`.
pub open spec fn heic_brand(x: Seq<u8>) -> bool {
    x == seq![0x68u8, 0x65u8, 0x69u8, 0x63u8] || x == seq![0x68u8, 0x65u8, 0x69u8, 0x78u8] || x
        == seq![0x68u8, 0x65u8, 0x76u8, 0x63u8] || x == seq![0x68u8, 0x65u8, 0x76u8, 0x78u8] || x
        == seq![0x68u8, 0x65u8, 0x69u8, 0x6du8] || x == seq![0x68u8, 0x65u8, 0x69u8, 0x73u8] || x
        == seq![0x6du8, 0x69u8, 0x66u8, 0x31u8] || x == seq![0x6du8, 0x73u8, 0x66u8, 0x31u8]
}

/// `isom`, `iso2`, `mp41`, `mp42`, `avc1`, `M4V `, `3gp4`, `3gp5`.
pub open spec fn mp4_brand(x: Seq<u8>) -> bool {
    x == seq![0x69u8, 0x73u8, 0x6fu8, 0x6du8] || x == seq![0x69u8, 0x73u8, 0x6fu8, 0x32u8] || x
        == seq![0x6du8, 0x70u8, 0x34u8, 0x31u8] || x == seq![0x6du8, 0x70u8, 0x34u8, 0x32u8] || x
        == seq![0x61u8, 0x76u8, 0x63u8, 0x31u8] || x == seq![0x4du8, 0x34u8, 0x56u8, 0x20u8] || x
        == seq![0x33u8, 0x67u8, 0x70u8, 0x34u8] || x == seq![0x33u8, 0x67u8, 0x70u8, 0x35u8]
}

/// An ISO media file (a box size below 16 MiB, so a zero first byte, then
/// `ftyp` at offset 4) with one of the HEIF brands `heic`, `heix`, `hevc`,
/// `hevx`, `heim`, `heis`, `mif1` or `msf1` at offset 8 is a HEIC photo.
pub proof fn lemma_heif_brands_are_heic_photos(b: Seq<u8>)
    requires
        b.len() >= 12,
        b[0] == 0u8,
        b.subrange(4, 8) == seq![0x66u8, 0x74u8, 0x79u8, 0x70u8],
        ({
            let brand = b.subrange(8, 12);
            ||| brand == seq![0x68u8, 0x65u8, 0x69u8, 0x63u8]
            ||| brand == seq![0x68u8, 0x65u8, 0x69u8, 0x78u8]
            ||| brand == seq![0x68u8, 0x65u8, 0x76u8, 0x63u8]
            ||| brand == seq![0x68u8, 0x65u8, 0x76u8, 0x78u8]
            ||| brand == seq![0x68u8, 0x65u8, 0x69u8, 0x6du8]
            ||| brand == seq![0x68u8, 0x65u8, 0x69u8, 0x73u8]
            ||| brand == seq![0x6du8, 0x69u8, 0x66u8, 0x31u8]
            ||| brand == seq![0x6du8, 0x73u8, 0x66u8, 0x31u8]
        }),
    ensures
        media_of(b) == Some(("image/heic"@, "heic"@, false)),
{
    assert(b.subrange(0, 3)[0] == b[0]);
    assert(b.subrange(0, 8)[0] == b[0]);
    assert(b.subrange(0, 4)[0] == b[0]);
    assert(b.subrange(0, 6)[0] == b[0]);
}

/// The other ISO media brands: `avif` and `avis` are AVIF photos, `qt  `
/// is a QuickTime video, and `isom`, `iso2`, `mp41`, `mp42`, `avc1`, `M4V `,
/// `3gp4` and `3gp5` are MP4 videos; any other brand is not accepted.
pub proof fn lemma_iso_brand_table(b: Seq<u8>)
    requires
        b.len() >= 12,
        b[0] == 0u8,
        b.subrange(4, 8) == seq![0x66u8, 0x74u8, 0x79u8, 0x70u8],
    ensures
        ({
            let brand = b.subrange(8, 12);
            brand == seq![0x61u8, 0x76u8, 0x69u8, 0x66u8] || brand == seq![0x61u8, 0x76u8, 0x69u8, 0x73u8]
        }) ==> media_of(b) == Some(("image/avif"@, "avif"@, false)),
        b.subrange(8, 12) == seq![0x71u8, 0x74u8, 0x20u8, 0x20u8] ==> media_of(b) == Some(
            ("video/quicktime"@, "mov"@, true),
        ),
        ({
            let brand = b.subrange(8, 12);
            ||| brand == seq![0x69u8, 0x73u8, 0x6fu8, 0x6du8]
            ||| brand == seq![0x69u8, 0x73u8, 0x6fu8, 0x32u8]
            ||| brand == seq![0x6du8, 0x70u8, 0x34u8, 0x31u8]
            ||| brand == seq![0x6du8, 0x70u8, 0x34u8, 0x32u8]
            ||| brand == seq![0x61u8, 0x76u8, 0x63u8, 0x31u8]
            ||| brand == seq![0x4du8, 0x34u8, 0x56u8, 0x20u8]
            ||| brand == seq![0x33u8, 0x67u8, 0x70u8, 0x34u8]
            ||| brand == seq![0x33u8, 0x67u8, 0x70u8, 0x35u8]
        }) ==> media_of(b) == Some(("video/mp4"@, "mp4"@, true)),
        media_of(b) matches Some(m) ==> (m.2 <==> (m.0 == "video/quicktime"@ || m.0 == "video/mp4"@)),
{
    assert(b.subrange(0, 3)[0] == b[0]);
    assert(b.subrange(0, 8)[0] == b[0]);
    assert(b.subrange(0, 4)[0] == b[0]);
    assert(b.subrange(0, 6)[0] == b[0]);
    reveal_strlit("video/quicktime");
    reveal_strlit("video/mp4");
    reveal_strlit("image/heic");
    reveal_strlit("image/avif");
}

/// Files are recognised by their leading bytes: `FF D8 FF` is a JPEG
/// photo, the PNG signature a PNG photo, `GIF87a` or `GIF89a` a GIF, a
/// RIFF file with `WEBP` at offset 8 a WebP photo, and `1A 45 DF A3` a
/// WebM video.
pub proof fn lemma_leading_bytes_name_the_format(b: Seq<u8>)
    ensures
        b.len() >= 3 && b[0] == 0xffu8 && b[1] == 0xd8u8 && b[2] == 0xffu8 ==> media_of(b) == Some(
            ("image/jpeg"@, "jpg"@, false),
        ),
        b.len() >= 8 && b.subrange(0, 8) == seq![0x89u8, 0x50u8, 0x4eu8, 0x47u8, 0x0du8, 0x0au8, 0x1au8, 0x0au8]
            ==> media_of(b) == Some(("image/png"@, "png"@, false)),
        b.len() >= 12 && b.subrange(0, 4) == seq![0x52u8, 0x49u8, 0x46u8, 0x46u8] && b.subrange(8, 12)
            == seq![0x57u8, 0x45u8, 0x42u8, 0x50u8] ==> media_of(b) == Some(("image/webp"@, "webp"@, false)),
        b.len() >= 6 && (b.subrange(0, 6) == seq![0x47u8, 0x49u8, 0x46u8, 0x38u8, 0x37u8, 0x61u8] || b.subrange(
            0,
            6,
        ) == seq![0x47u8, 0x49u8, 0x46u8, 0x38u8, 0x39u8, 0x61u8]) ==> media_of(b) == Some(
            ("image/gif"@, "gif"@, false),
        ),
        b.len() >= 4 && b.subrange(0, 4) == seq![0x1au8, 0x45u8, 0xdfu8, 0xa3u8] ==> media_of(b) == Some(
            ("video/webm"@, "webm"@, true),
        ),
{
    if b.len() >= 3 && b[0] == 0xffu8 && b[1] == 0xd8u8 && b[2] == 0xffu8 {
        assert(b.subrange(0, 3) =~= seq![0xffu8, 0xd8u8, 0xffu8]);
    }
    if b.len() >= 8 {
        assert(b.subrange(0, 3)[0] == b.subrange(0, 8)[0]);
    }
    if b.len() >= 12 {
        assert(b.subrange(0, 3)[0] == b.subrange(0, 4)[0]);
        assert(b.subrange(0, 8)[0] == b.subrange(0, 4)[0]);
    }
    if b.len() >= 6 {
        assert(b.subrange(0, 3)[0] == b.subrange(0, 6)[0]);
        if b.len() >= 8 {
            assert(b.subrange(0, 8)[0] == b.subrange(0, 6)[0]);
        }
        if b.len() >= 4 {
            assert(b.subrange(0, 4)[0] == b.subrange(0, 6)[0]);
        }
    }
    if b.len() >= 4 {
        assert(b.subrange(0, 3)[0] == b.subrange(0, 4)[0]);
        if b.len() >= 8 {
            assert(b.subrange(0, 8)[0] == b.subrange(0, 4)[0]);
        }
        if b.len() >= 6 {
            assert(b.subrange(0, 6)[0] == b.subrange(0, 4)[0]);
        }
    }
}

/// Two ISO media files (zero first byte, `ftyp` at offset 4) with the same
/// brand at offset 8 are recognised alike: the brand alone decides.
pub proof fn lemma_iso_media_is_decided_by_brand(b1: Seq<u8>, b2: Seq<u8>)
    requires
        b1.len() >= 12,
        b2.len() >= 12,
        b1[0] == 0u8,
        b2[0] == 0u8,
        b1.subrange(4, 8) == seq![0x66u8, 0x74u8, 0x79u8, 0x70u8],
        b2.subrange(4, 8) == seq![0x66u8, 0x74u8, 0x79u8, 0x70u8],
        b1.subrange(8, 12) == b2.subrange(8, 12),
    ensures
        media_of(b1) == media_of(b2),
{
    assert(b1.subrange(0, 3)[0] == b1[0]);
    assert(b1.subrange(0, 8)[0] == b1[0]);
    assert(b1.subrange(0, 4)[0] == b1[0]);
    assert(b1.subrange(0, 6)[0] == b1[0]);
    assert(b2.subrange(0, 3)[0] == b2[0]);
    assert(b2.subrange(0, 8)[0] == b2[0]);
    assert(b2.subrange(0, 4)[0] == b2[0]);
    assert(b2.subrange(0, 6)[0] == b2[0]);
}

fn at(b: &[u8], i: usize, p: &[u8]) -> (r: bool)
    ensures
        r == bytes_at(b@, i as int, p@),
{
    if i > b.len() || p.len() > b.len() - i {
        return false;
    }
    let mut j: usize = 0;
    while j < p.len()
        invariant
            i + p.len() <= b.len(),
            j <= p.len(),
            forall|k: int| 0 <= k < j ==> b@[i + k] == p@[k],
        decreases p.len() - j,
    {
        if b[i + j] != p[j] {
            assert(b@.subrange(i as int, i + p.len())[j as int] != p@[j as int]);
            return false;
        }
        j += 1;
    }
    assert(b@.subrange(i as int, i + p.len()) =~= p@);
    true
}

fn brand(b: &[u8], p: &[u8]) -> (r: bool)
    requires
        b@.len() >= 12,
        p@.len() == 4,
    ensures
        r == (b@.subrange(8, 12) == p@),
{
    let r = at(b, 8, p);
    proof {
        if r {
            assert(b@.subrange(8, 12) == p@);
        } else {
            assert(b@.subrange(8, 8 + p@.len() as int) == b@.subrange(8, 12));
        }
    }
    r
}

fn media(mime_type: &'static str, extension: &'static str, video: bool) -> (m: DetectedMedia)
    ensures
        m.mime_type == mime_type,
        m.extension == extension,
        m.video == video,
{
    DetectedMedia { mime_type, extension, video }
}

pub open spec fn media_view(m: Option<DetectedMedia>) -> Option<(Seq<char>, Seq<char>, bool)> {
    match m {
        Some(d) => Some((d.mime_type@, d.extension@, d.video)),
        None => None,
    }
}

/// Recognises JPEG, PNG, WebP, GIF, WebM and the ISO media family (HEIC,
/// AVIF, QuickTime, MP4) by their leading bytes.
pub fn detect_media_signature(bytes: &[u8]) -> (r: Option<DetectedMedia>)
    ensures
        media_view(r) == media_of(bytes@),
{
    let b = bytes;
    let jpeg: [u8; 3] = [0xff, 0xd8, 0xff];
    let png: [u8; 8] = [0x89, 0x50, 0x4e, 0x47, 0x0d, 0x0a, 0x1a, 0x0a];
    let riff: [u8; 4] = [0x52, 0x49, 0x46, 0x46];
    let webp: [u8; 4] = [0x57, 0x45, 0x42, 0x50];
    let gif7: [u8; 6] = [0x47, 0x49, 0x46, 0x38, 0x37, 0x61];
    let gif9: [u8; 6] = [0x47, 0x49, 0x46, 0x38, 0x39, 0x61];
    let webm: [u8; 4] = [0x1a, 0x45, 0xdf, 0xa3];
    let ftyp: [u8; 4] = [0x66, 0x74, 0x79, 0x70];
    proof {
        assert(jpeg@ =~= seq![0xffu8, 0xd8u8, 0xffu8]);
        assert(png@ =~= seq![0x89u8, 0x50u8, 0x4eu8, 0x47u8, 0x0du8, 0x0au8, 0x1au8, 0x0au8]);
        assert(riff@ =~= seq![0x52u8, 0x49u8, 0x46u8, 0x46u8]);
        assert(webp@ =~= seq![0x57u8, 0x45u8, 0x42u8, 0x50u8]);
        assert(gif7@ =~= seq![0x47u8, 0x49u8, 0x46u8, 0x38u8, 0x37u8, 0x61u8]);
        assert(gif9@ =~= seq![0x47u8, 0x49u8, 0x46u8, 0x38u8, 0x39u8, 0x61u8]);
        assert(webm@ =~= seq![0x1au8, 0x45u8, 0xdfu8, 0xa3u8]);
        assert(ftyp@ =~= seq![0x66u8, 0x74u8, 0x79u8, 0x70u8]);
    }
    if at(b, 0, jpeg.as_slice()) {
        return Some(media("image/jpeg", "jpg", false));
    }
    if at(b, 0, png.as_slice()) {
        return Some(media("image/png", "png", false));
    }
    if b.len() >= 12 && at(b, 0, riff.as_slice()) && at(b, 8, webp.as_slice()) {
        return Some(media("image/webp", "webp", false));
    }
    if at(b, 0, gif7.as_slice()) || at(b, 0, gif9.as_slice()) {
        return Some(media("image/gif", "gif", false));
    }
    if at(b, 0, webm.as_slice()) {
        return Some(media("video/webm", "webm", true));
    }
    if b.len() >= 12 && at(b, 4, ftyp.as_slice()) {
        let heic: [u8; 4] = [0x68, 0x65, 0x69, 0x63];
        let heix: [u8; 4] = [0x68, 0x65, 0x69, 0x78];
        let hevc: [u8; 4] = [0x68, 0x65, 0x76, 0x63];
        let hevx: [u8; 4] = [0x68, 0x65, 0x76, 0x78];
        let heim: [u8; 4] = [0x68, 0x65, 0x69, 0x6d];
        let heis: [u8; 4] = [0x68, 0x65, 0x69, 0x73];
        let mif1: [u8; 4] = [0x6d, 0x69, 0x66, 0x31];
        let msf1: [u8; 4] = [0x6d, 0x73, 0x66, 0x31];
        let avif: [u8; 4] = [0x61, 0x76, 0x69, 0x66];
        let avis: [u8; 4] = [0x61, 0x76, 0x69, 0x73];
        let qt: [u8; 4] = [0x71, 0x74, 0x20, 0x20];
        let isom: [u8; 4] = [0x69, 0x73, 0x6f, 0x6d];
        let iso2: [u8; 4] = [0x69, 0x73, 0x6f, 0x32];
        let mp41: [u8; 4] = [0x6d, 0x70, 0x34, 0x31];
        let mp42: [u8; 4] = [0x6d, 0x70, 0x34, 0x32];
        let avc1: [u8; 4] = [0x61, 0x76, 0x63, 0x31];
        let m4v: [u8; 4] = [0x4d, 0x34, 0x56, 0x20];
        let g4: [u8; 4] = [0x33, 0x67, 0x70, 0x34];
        let g5: [u8; 4] = [0x33, 0x67, 0x70, 0x35];
        proof {
            assert(heic@ =~= seq![0x68u8, 0x65u8, 0x69u8, 0x63u8]);
            assert(heix@ =~= seq![0x68u8, 0x65u8, 0x69u8, 0x78u8]);
            assert(hevc@ =~= seq![0x68u8, 0x65u8, 0x76u8, 0x63u8]);
            assert(hevx@ =~= seq![0x68u8, 0x65u8, 0x76u8, 0x78u8]);
            assert(heim@ =~= seq![0x68u8, 0x65u8, 0x69u8, 0x6du8]);
            assert(heis@ =~= seq![0x68u8, 0x65u8, 0x69u8, 0x73u8]);
            assert(mif1@ =~= seq![0x6du8, 0x69u8, 0x66u8, 0x31u8]);
            assert(msf1@ =~= seq![0x6du8, 0x73u8, 0x66u8, 0x31u8]);
            assert(avif@ =~= seq![0x61u8, 0x76u8, 0x69u8, 0x66u8]);
            assert(avis@ =~= seq![0x61u8, 0x76u8, 0x69u8, 0x73u8]);
            assert(qt@ =~= seq![0x71u8, 0x74u8, 0x20u8, 0x20u8]);
            assert(isom@ =~= seq![0x69u8, 0x73u8, 0x6fu8, 0x6du8]);
            assert(iso2@ =~= seq![0x69u8, 0x73u8, 0x6fu8, 0x32u8]);
            assert(mp41@ =~= seq![0x6du8, 0x70u8, 0x34u8, 0x31u8]);
            assert(mp42@ =~= seq![0x6du8, 0x70u8, 0x34u8, 0x32u8]);
            assert(avc1@ =~= seq![0x61u8, 0x76u8, 0x63u8, 0x31u8]);
            assert(m4v@ =~= seq![0x4du8, 0x34u8, 0x56u8, 0x20u8]);
            assert(g4@ =~= seq![0x33u8, 0x67u8, 0x70u8, 0x34u8]);
            assert(g5@ =~= seq![0x33u8, 0x67u8, 0x70u8, 0x35u8]);
        }
        if brand(b, heic.as_slice()) || brand(b, heix.as_slice()) || brand(b, hevc.as_slice())
            || brand(b, hevx.as_slice()) || brand(b, heim.as_slice()) || brand(b, heis.as_slice())
            || brand(b, mif1.as_slice()) || brand(b, msf1.as_slice()) {
            return Some(media("image/heic", "heic", false));
        }
        if brand(b, avif.as_slice()) || brand(b, avis.as_slice()) {
            return Some(media("image/avif", "avif", false));
        }
        if brand(b, qt.as_slice()) {
            return Some(media("video/quicktime", "mov", true));
        }
        if brand(b, isom.as_slice()) || brand(b, iso2.as_slice()) || brand(b, mp41.as_slice())
            || brand(b, mp42.as_slice()) || brand(b, avc1.as_slice()) || brand(b, m4v.as_slice())
            || brand(b, g4.as_slice()) || brand(b, g5.as_slice()) {
            return Some(media("video/mp4", "mp4", true));
        }
    }
    None
}

// ---------------------------------------------------------------------------
// Upload source and names
// ---------------------------------------------------------------------------

/// The source types a client may name explicitly.
pub open spec fn allowed_source(s: Seq<char>) -> bool {
    s == "camera"@ || s == "whatsapp_received"@ || s == "whatsapp_sent"@ || s == "screenshot"@ || s
        == "download"@ || s == "telegram"@ || s == "other"@
}

/// Source type guessed from the file's path on the phone.
pub open spec fn source_from_path(path: Seq<char>) -> Seq<char> {
    let p = ascii_lower(path);
    if has_sub(p, "whatsapp"@) && has_sub(p, "sent"@) {
        "whatsapp_sent"@
    } else if has_sub(p, "whatsapp"@) {
        "whatsapp_received"@
    } else if has_sub(p, "screenshot"@) {
        "screenshot"@
    } else if has_sub(p, "telegram"@) {
        "telegram"@
    } else if has_sub(p, "download"@) {
        "download"@
    } else if has_sub(p, "dcim"@) || has_sub(p, "camera"@) {
        "camera"@
    } else {
        "other"@
    }
}

pub open spec fn source_type_of(explicit: Option<Seq<char>>, path: Option<Seq<char>>) -> Seq<char> {
    match explicit {
        Some(e) if allowed_source(ascii_lower(trim(e))) => ascii_lower(trim(e)),
        _ => source_from_path(
            match path {
                Some(p) => p,
                None => Seq::empty(),
            },
        ),
    }
}

fn has(p: &Vec<char>, needle: &str) -> (r: bool)
    ensures
        r == has_sub(p@, needle@),
{
    let n = chars_of(needle);
    contains_sub(p, &n)
}

fn is(p: &Vec<char>, literal: &str) -> (r: bool)
    ensures
        r == (p@ == literal@),
{
    let n = chars_of(literal);
    seq_eq(p, &n)
}

pub open spec fn opt_str(o: Option<&str>) -> Option<Seq<char>> {
    match o {
        Some(s) => Some(s@),
        None => None,
    }
}

/// The upload's source type: the client's own if it is one of the known
/// types (after trimming and lower-casing), otherwise guessed from the path.
pub fn normalize_source_type(explicit: Option<&str>, source_path: Option<&str>) -> (r: String)
    ensures
        r@ == source_type_of(opt_str(explicit), opt_str(source_path)),
{
    if let Some(value) = explicit {
        let c = chars_of(value);
        let t = trimmed(&c);
        let v = ascii_lowercase(&t);
        if is(&v, "camera") || is(&v, "whatsapp_received") || is(&v, "whatsapp_sent") || is(
            &v,
            "screenshot",
        ) || is(&v, "download") || is(&v, "telegram") || is(&v, "other") {
            return string_of(&v);
        }
    }
    let raw = match source_path {
        Some(p) => chars_of(p),
        None => Vec::new(),
    };
    proof {
        if source_path is None {
            assert(raw@ =~= Seq::<char>::empty());
        }
    }
    let p = ascii_lowercase(&raw);
    let name = if has(&p, "whatsapp") && has(&p, "sent") {
        "whatsapp_sent"
    } else if has(&p, "whatsapp") {
        "whatsapp_received"
    } else if has(&p, "screenshot") {
        "screenshot"
    } else if has(&p, "telegram") {
        "telegram"
    } else if has(&p, "download") {
        "download"
    } else if has(&p, "dcim") || has(&p, "camera") {
        "camera"
    } else {
        "other"
    };
    name.to_string()
}

/// Name a stored upload keeps: the file name of the client's name, trimmed,
/// or `mobile-upload`, cut to 255 characters.
pub open spec fn original_name_of(value: Seq<char>) -> Seq<char> {
    let base = match file_name(value) {
        Some(n) => if trim(n).len() != 0 {
            trim(n)
        } else {
            "mobile-upload"@
        },
        None => "mobile-upload"@,
    };
    if base.len() > 255 {
        base.take(255)
    } else {
        base
    }
}

pub fn safe_original_name(value: &str) -> (r: String)
    ensures
        r@ == original_name_of(value@),
{
    let base: Vec<char> = match file_name_of(value) {
        Some(n) => {
            let c = chars_of(n.as_str());
            let t = trimmed(&c);
            if t.len() != 0 {
                t
            } else {
                chars_of("mobile-upload")
            }
        },
        None => chars_of("mobile-upload"),
    };
    if base.len() > 255 {
        crate::text::string_of_range(&base, 0, 255)
    } else {
        string_of(&base)
    }
}

// ---------------------------------------------------------------------------
// Errors, device tokens and pairing codes
// ---------------------------------------------------------------------------

/// Why a mobile request failed.
#[derive(Debug, Clone)]
pub enum MobileError {
    Unauthorized,
    RateLimited,
    BadRequest(String),
    UnsupportedMedia,
    NotFound(String),
    Conflict(String),
    Database,
    Storage,
    Io,
}

/// The HTTP status, error code and message of a mobile error.
pub open spec fn mobile_reply(e: MobileError) -> (u16, Seq<char>, Seq<char>) {
    match e {
        MobileError::Unauthorized => (
            401,
            "unauthorized"@,
            "Cihaz veya PhotoOS oturumu doğrulanamadı."@,
        ),
        MobileError::RateLimited => (
            429,
            "rate_limited"@,
            "Çok fazla eşleştirme denemesi yapıldı. Kısa süre sonra tekrar deneyin."@,
        ),
        MobileError::UnsupportedMedia => (
            415,
            "unsupported_media_type"@,
            "Dosya içeriği desteklenen bir fotoğraf veya video değil."@,
        ),
        MobileError::BadRequest(m) => (400, "invalid_request"@, m@),
        MobileError::NotFound(m) => (404, "not_found"@, m@),
        MobileError::Conflict(m) => (409, "conflict"@, m@),
        MobileError::Database => (500, "database_error"@, "Mobile veritabanı işlemi başarısız."@),
        MobileError::Storage => (
            503,
            "storage_unavailable"@,
            "PhotoOS depolama alanı kullanılamıyor."@,
        ),
        MobileError::Io => (500, "io_error"@, "Mobile dosya işlemi başarısız."@),
    }
}

impl MobileError {
    /// The HTTP status, error code and message of the error.
    pub fn reply(&self) -> (r: (u16, &'static str, String))
        ensures
            (r.0, r.1@, r.2@) == mobile_reply(*self),
    {
        match self {
            MobileError::Unauthorized => (
                401,
                "unauthorized",
                "Cihaz veya PhotoOS oturumu doğrulanamadı.".to_string(),
            ),
            MobileError::RateLimited => (
                429,
                "rate_limited",
                "Çok fazla eşleştirme denemesi yapıldı. Kısa süre sonra tekrar deneyin.".to_string(),
            ),
            MobileError::UnsupportedMedia => (
                415,
                "unsupported_media_type",
                "Dosya içeriği desteklenen bir fotoğraf veya video değil.".to_string(),
            ),
            MobileError::BadRequest(m) => (400, "invalid_request", m.clone()),
            MobileError::NotFound(m) => (404, "not_found", m.clone()),
            MobileError::Conflict(m) => (409, "conflict", m.clone()),
            MobileError::Database => (
                500,
                "database_error",
                "Mobile veritabanı işlemi başarısız.".to_string(),
            ),
            MobileError::Storage => (
                503,
                "storage_unavailable",
                "PhotoOS depolama alanı kullanılamıyor.".to_string(),
            ),
            MobileError::Io => (500, "io_error", "Mobile dosya işlemi başarısız.".to_string()),
        }
    }
}

/// The token of an `Authorization` header: without a leading `Bearer `,
/// trimmed; absent or empty means unauthorised.
pub open spec fn device_token_of(raw: Option<Seq<char>>) -> Option<Seq<char>> {
    match raw {
        None => None,
        Some(h) => {
            let t = if has_prefix(h, "Bearer "@) {
                trim(h.skip(7))
            } else {
                trim(h)
            };
            if t.len() == 0 {
                None
            } else {
                Some(t)
            }
        },
    }
}

/// The device token a request carries.
pub fn mobile_bearer_token(raw: Option<&str>) -> (r: Result<String, MobileError>)
    ensures
        match device_token_of(
            match raw {
                Some(h) => Some(h@),
                None => None,
            },
        ) {
            Some(t) => r matches Ok(s) && s@ == t,
            None => r matches Err(MobileError::Unauthorized),
        },
{
    let h = match raw {
        Some(h) => h,
        None => return Err(MobileError::Unauthorized),
    };
    let c = chars_of(h);
    let p = chars_of("Bearer ");
    proof {
        reveal_strlit("Bearer ");
    }
    let body = if starts_with(&c, &p) {
        assert(c@.skip(7) =~= c@.subrange(7, c.len() as int));
        slice_chars(&c, 7, c.len())
    } else {
        c
    };
    let t = trimmed(&body);
    if t.len() == 0 {
        return Err(MobileError::Unauthorized);
    }
    Ok(string_of(&t))
}

/// Six decimal digits with leading zeros.
pub open spec fn six_digits(v: nat) -> Seq<char> {
    seq![
        digit_char((v / 100000) % 10),
        digit_char((v / 10000) % 10),
        digit_char((v / 1000) % 10),
        digit_char((v / 100) % 10),
        digit_char((v / 10) % 10),
        digit_char(v % 10),
    ]
}

fn digit(d: u32) -> (c: char)
    requires
        d < 10,
    ensures
        c == digit_char(d as nat),
{
    ((d as u8) + 48) as char
}

/// The pairing code shown for a random number: its value below one
/// million, as six digits.
pub fn pairing_code(random: u32) -> (r: String)
    ensures
        r@ == six_digits((random % 1000000) as nat),
{
    let v = random % 1000000;
    let mut out: Vec<char> = Vec::new();
    out.push(digit((v / 100000) % 10));
    out.push(digit((v / 10000) % 10));
    out.push(digit((v / 1000) % 10));
    out.push(digit((v / 100) % 10));
    out.push(digit((v / 10) % 10));
    out.push(digit(v % 10));
    assert(out@ =~= six_digits(v as nat));
    string_of(&out)
}

/// When a pairing code made at `now` expires.
pub fn pairing_expires_at(now: i64) -> (r: i64)
    requires
        now <= i64::MAX - PAIRING_TTL_SECONDS,
    ensures
        r == now + PAIRING_TTL_SECONDS,
{
    now + PAIRING_TTL_SECONDS
}

/// The address a proxy names first in `X-Forwarded-For`: the header's
/// first comma-separated entry, trimmed.
pub open spec fn forwarded_entry(header: Seq<char>) -> Seq<char> {
    let i = first_index(header, ',');
    trim(
        if i < 0 {
            header
        } else {
            header.take(i)
        },
    )
}

/// The first entry of an `X-Forwarded-For` header, trimmed.
pub fn first_forwarded_entry(header: &str) -> (r: String)
    ensures
        r@ == forwarded_entry(header@),
{
    let v = chars_of(header);
    let head = match find_char(&v, ',') {
        Some(i) => {
            proof {
                lemma_first_index(v@, ',');
            }
            slice_chars(&v, 0, i)
        },
        None => v,
    };
    string_of(&trimmed(&head))
}

/// The client address of a request. Only a proxy on the same machine (a
/// loopback peer) may name the client: by `X-Real-IP`, else by the first
/// `X-Forwarded-For` entry, each counting only where it is an IP address
/// (`real_ip`, `forwarded_ip`); otherwise the peer is the client.
pub fn request_ip(
    peer: String,
    peer_is_loopback: bool,
    real_ip: Option<String>,
    forwarded_ip: Option<String>,
) -> (r: String)
    ensures
        r == (if !peer_is_loopback {
            peer
        } else {
            match (real_ip, forwarded_ip) {
                (Some(a), _) => a,
                (None, Some(a)) => a,
                (None, None) => peer,
            }
        }),
{
    if !peer_is_loopback {
        return peer;
    }
    match (real_ip, forwarded_ip) {
        (Some(a), _) => a,
        (None, Some(a)) => a,
        (None, None) => peer,
    }
}

// ---------------------------------------------------------------------------
// Uploads
// ---------------------------------------------------------------------------

/// The metadata fields a phone sends beside the file.
#[derive(Debug, Clone, Default)]
pub struct UploadMetadata {
    pub source_type: Option<String>,
    pub source_path: Option<String>,
    pub media_store_id: Option<i64>,
    pub modified_at: Option<i64>,
    pub taken_at: Option<String>,
}

/// The metadata fields as values.
pub struct MetadataView {
    pub source_type: Option<Seq<char>>,
    pub source_path: Option<Seq<char>>,
    pub media_store_id: Option<i64>,
    pub modified_at: Option<i64>,
    pub taken_at: Option<Seq<char>>,
}

pub open spec fn opt_text(o: Option<String>) -> Option<Seq<char>> {
    match o {
        Some(s) => Some(s@),
        None => None,
    }
}

impl View for UploadMetadata {
    type V = MetadataView;

    open spec fn view(&self) -> MetadataView {
        MetadataView {
            source_type: opt_text(self.source_type),
            source_path: opt_text(self.source_path),
            media_store_id: self.media_store_id,
            modified_at: self.modified_at,
            taken_at: opt_text(self.taken_at),
        }
    }
}

/// The metadata after one form field was recorded.
pub open spec fn metadata_after(m: MetadataView, name: Seq<char>, text: Seq<char>) -> MetadataView {
    if name == "source_type"@ {
        MetadataView { source_type: Some(text), ..m }
    } else if name == "source_path"@ {
        MetadataView { source_path: Some(text), ..m }
    } else if name == "media_store_id"@ {
        MetadataView { media_store_id: i64_text(trim(text)), ..m }
    } else if name == "modified_at"@ {
        MetadataView { modified_at: i64_text(trim(text)), ..m }
    } else if name == "taken_at"@ && trim(text).len() != 0 {
        MetadataView { taken_at: Some(trim(text)), ..m }
    } else {
        m
    }
}

/// Records one metadata field of an upload form: the source type and path
/// as sent, the media store id and modification time when they parse as
/// integers (else none), a non-empty trimmed capture time; other fields
/// are ignored.
pub fn apply_metadata_field(metadata: &mut UploadMetadata, name: &str, text: String)
    ensures
        final(metadata)@ == metadata_after(old(metadata)@, name@, text@),
{
    if text_eq(name, "source_type") {
        metadata.source_type = Some(text);
    } else if text_eq(name, "source_path") {
        metadata.source_path = Some(text);
    } else if text_eq(name, "media_store_id") {
        let t = trimmed(&chars_of(text.as_str()));
        metadata.media_store_id = parse_i64(&t);
    } else if text_eq(name, "modified_at") {
        let t = trimmed(&chars_of(text.as_str()));
        metadata.modified_at = parse_i64(&t);
    } else if text_eq(name, "taken_at") {
        let t = trimmed(&chars_of(text.as_str()));
        if t.len() != 0 {
            metadata.taken_at = Some(string_of(&t));
        }
    }
}

/// What has been read of an upload form so far: whether its media file
/// came, and the metadata fields.
#[derive(Debug, Clone)]
pub struct UploadForm {
    pub has_file: bool,
    pub metadata: UploadMetadata,
}

/// The refusal of a second media file in one upload.
pub open spec fn second_file_message() -> Seq<char> {
    "Her istekte yalnızca bir medya dosyası gönderilebilir."@
}

/// The refusal of an upload form without a media file.
pub open spec fn missing_file_message() -> Seq<char> {
    "Yüklenecek medya dosyası bulunamadı."@
}

impl UploadForm {
    /// Nothing read yet.
    pub fn new() -> (r: Self)
        ensures
            !r.has_file,
            r.metadata@ == (MetadataView {
                source_type: None,
                source_path: None,
                media_store_id: None,
                modified_at: None,
                taken_at: None,
            }),
    {
        UploadForm {
            has_file: false,
            metadata: UploadMetadata {
                source_type: None,
                source_path: None,
                media_store_id: None,
                modified_at: None,
                taken_at: None,
            },
        }
    }

    /// A part that carries a file: each request holds one media file, and
    /// a second one is refused (400).
    pub fn file_part(&mut self) -> (r: Result<(), MobileError>)
        ensures
            final(self).metadata@ == old(self).metadata@,
            final(self).has_file,
            old(self).has_file ==> (r matches Err(MobileError::BadRequest(m)) && m@ == second_file_message()),
            !old(self).has_file ==> r is Ok,
    {
        if self.has_file {
            return Err(MobileError::BadRequest("Her istekte yalnızca bir medya dosyası gönderilebilir.".to_string()));
        }
        self.has_file = true;
        Ok(())
    }

    /// A text part: recorded as a metadata field.
    pub fn text_part(&mut self, name: &str, text: String)
        ensures
            final(self).has_file == old(self).has_file,
            final(self).metadata@ == metadata_after(old(self).metadata@, name@, text@),
    {
        apply_metadata_field(&mut self.metadata, name, text);
    }

    /// The form is complete: it must have carried a media file (else 400).
    pub fn finish(&self) -> (r: Result<(), MobileError>)
        ensures
            self.has_file ==> r is Ok,
            !self.has_file ==> (r matches Err(MobileError::BadRequest(m)) && m@ == missing_file_message()),
    {
        if self.has_file {
            Ok(())
        } else {
            Err(MobileError::BadRequest("Yüklenecek medya dosyası bulunamadı.".to_string()))
        }
    }
}

/// What the look-up of an upload's content hash among the user's photos
/// found.
#[derive(Debug, Clone)]
pub enum DuplicateLookup {
    /// A photo with the same content: its file name and URL.
    Found { filename: String, url: Option<String> },
    Absent,
    Failed,
}

/// What becomes of an upload after the duplicate look-up.
#[derive(Debug, Clone)]
pub enum DuplicateDecision {
    /// Already stored: answered 200 with `duplicate: true`, the stored
    /// photo's name and URL and the content hash; the upload is dropped.
    Duplicate { filename: String, url: Option<String>, content_hash: String },
    /// New content: store it.
    Store,
    /// The look-up failed.
    Refuse(MobileError),
}

/// An upload whose content the user already has is answered as a
/// duplicate of the stored photo, with the upload's content hash (the
/// SHA-256 of the bytes received); new content is stored; a failed look-up
/// is a database error.
pub fn duplicate_decision(lookup: DuplicateLookup, upload: &ReceivedUpload) -> (r: DuplicateDecision)
    ensures
        match lookup {
            DuplicateLookup::Found { filename, url } => r matches DuplicateDecision::Duplicate {
                filename: f,
                url: u,
                content_hash: h,
            } && f@ == filename@ && u == url && h@ == upload.content_hash@,
            DuplicateLookup::Absent => r is Store,
            DuplicateLookup::Failed => r matches DuplicateDecision::Refuse(MobileError::Database),
        },
{
    match lookup {
        DuplicateLookup::Found { filename, url } => DuplicateDecision::Duplicate {
            filename,
            url,
            content_hash: upload.content_hash.clone(),
        },
        DuplicateLookup::Absent => DuplicateDecision::Store,
        DuplicateLookup::Failed => DuplicateDecision::Refuse(MobileError::Database),
    }
}

/// Bytes of an upload kept to recognise its media type.
pub const UPLOAD_PROBE_BYTES: usize = 32;

/// What has been received of an uploaded file so far: its size, its first
/// 32 bytes, and a SHA-256 hasher fed with every byte; `received` is what
/// came, for the contracts.
pub struct UploadProgress {
    pub size_bytes: u64,
    pub probe: Vec<u8>,
    pub hasher: StreamHasher,
    pub received: Ghost<Seq<u8>>,
}

pub open spec fn sat_add(a: u64, b: int) -> u64 {
    if a + b > u64::MAX {
        u64::MAX
    } else {
        (a + b) as u64
    }
}

/// The probe length for a file of `n` bytes: at most 32.
pub open spec fn probe_len(n: nat) -> int {
    if n < UPLOAD_PROBE_BYTES {
        n as int
    } else {
        UPLOAD_PROBE_BYTES as int
    }
}

/// The progress agrees with what was received: its size, its first bytes,
/// and every byte fed to the hasher.
pub open spec fn progress_ok(p: UploadProgress) -> bool {
    &&& p.size_bytes == p.received@.len()
    &&& p.probe@ == p.received@.take(probe_len(p.received@.len()))
    &&& stream_input(p.hasher) == p.received@
}

/// What the server knows of a completely received upload: its size, its
/// first bytes and the hex SHA-256 of its content.
#[derive(Debug, Clone)]
pub struct ReceivedUpload {
    pub size_bytes: u64,
    pub probe: Vec<u8>,
    pub content_hash: String,
}

impl UploadProgress {
    pub fn new() -> (r: Self)
        ensures
            r.size_bytes == 0,
            r.probe@ == Seq::<u8>::empty(),
            r.received@ == Seq::<u8>::empty(),
            progress_ok(r),
    {
        let r = UploadProgress {
            size_bytes: 0,
            probe: Vec::new(),
            hasher: StreamHasher::new(),
            received: Ghost(Seq::empty()),
        };
        assert(r.received@.take(0) =~= Seq::<u8>::empty());
        r
    }

    /// Takes the next chunk: the size grows by its length (saturating) and
    /// must stay within the upload limit; then the chunk counts as
    /// received: the probe is filled up to 32 bytes from the start of the
    /// file and the hasher is fed the chunk.
    pub fn absorb(&mut self, chunk: &[u8]) -> (r: Result<(), MobileError>)
        requires
            old(self).probe@.len() <= UPLOAD_PROBE_BYTES,
        ensures
            final(self).size_bytes == sat_add(old(self).size_bytes, chunk@.len() as int),
            final(self).size_bytes > MAX_MOBILE_UPLOAD_BYTES ==> (r matches Err(
                MobileError::BadRequest(m),
            ) && m@ == "Mobil yükleme boyut sınırını aşıyor."@),
            final(self).size_bytes <= MAX_MOBILE_UPLOAD_BYTES ==> r is Ok && final(self).probe@
                == (old(self).probe@ + chunk@).take(
                if old(self).probe@.len() + chunk@.len() < UPLOAD_PROBE_BYTES {
                    (old(self).probe@.len() + chunk@.len()) as int
                } else {
                    UPLOAD_PROBE_BYTES as int
                },
            ),
            final(self).probe@.len() <= UPLOAD_PROBE_BYTES,
            r is Ok ==> final(self).received@ == old(self).received@ + chunk@,
            r is Ok ==> stream_input(final(self).hasher) == stream_input(old(self).hasher) + chunk@,
            r is Err ==> stream_input(final(self).hasher) == stream_input(old(self).hasher),
            r is Ok && progress_ok(*old(self)) ==> progress_ok(*final(self)),
    {
        let len = chunk.len() as u64;
        self.size_bytes = if self.size_bytes > u64::MAX - len {
            u64::MAX
        } else {
            self.size_bytes + len
        };
        if self.size_bytes > MAX_MOBILE_UPLOAD_BYTES {
            return Err(MobileError::BadRequest("Mobil yükleme boyut sınırını aşıyor.".to_string()));
        }
        let ghost start = self.probe@;
        let ghost size = self.size_bytes;
        let ghost before = self.received@;
        let mut i: usize = 0;
        while self.probe.len() < UPLOAD_PROBE_BYTES && i < chunk.len()
            invariant
                self.size_bytes == size,
                i <= chunk@.len(),
                start.len() <= UPLOAD_PROBE_BYTES,
                self.probe@ == start + chunk@.take(i as int),
                self.probe@.len() <= UPLOAD_PROBE_BYTES,
                self.received@ == before,
                stream_input(self.hasher) == stream_input(old(self).hasher),
            decreases chunk.len() - i,
        {
            self.probe.push(chunk[i]);
            assert(chunk@.take(i + 1) =~= chunk@.take(i as int).push(chunk@[i as int]));
            i += 1;
        }
        assert(self.probe@ =~= (start + chunk@).take(self.probe@.len() as int));
        self.hasher.feed(chunk);
        self.received = Ghost(before + chunk@);
        proof {
            if progress_ok(*old(self)) {
                let all = before + chunk@;
                assert(all.take(probe_len(all.len())) =~= (start + chunk@).take(self.probe@.len() as int));
            }
        }
        Ok(())
    }

    /// The upload is complete: its size, first bytes and the hex SHA-256 of
    /// everything received.
    pub fn finish(&self) -> (r: ReceivedUpload)
        requires
            progress_ok(*self),
        ensures
            r.size_bytes == self.received@.len(),
            r.probe@ == self.received@.take(probe_len(self.received@.len())),
            r.content_hash@ == hex_of(sha256_digest(self.received@)),
    {
        ReceivedUpload {
            size_bytes: self.size_bytes,
            probe: self.probe.clone(),
            content_hash: self.hasher.hex(),
        }
    }
}

/// The name under which an upload is stored: a fresh id and the detected
/// extension.
pub fn stored_media_name(id: &str, extension: &str) -> (r: String)
    ensures
        r@ == id@ + "."@ + extension@,
{
    let mut out = chars_of(id);
    extend_str(&mut out, ".");
    extend_str(&mut out, extension);
    string_of(&out)
}

/// The URL under which a stored upload is served.
pub fn media_file_url(filename: &str) -> (r: String)
    ensures
        r@ == "/api/v1/photos/file/"@ + filename@,
{
    let mut out = chars_of("/api/v1/photos/file/");
    extend_str(&mut out, filename);
    string_of(&out)
}

/// Videos are stored as videos, everything else as photos.
pub fn upload_media_kind(mime_type: &str) -> (r: MediaKind)
    ensures
        r == (if has_prefix(mime_type@, "video/"@) {
            MediaKind::Video
        } else {
            MediaKind::Photo
        }),
{
    if str_starts_with(mime_type, "video/") {
        MediaKind::Video
    } else {
        MediaKind::Photo
    }
}

/// Where an upload sorts in the timeline: the phone's modification time,
/// else the time of upload (both in milliseconds).
pub fn upload_sort_timestamp(modified_at: Option<i64>, now_millis: i64) -> (r: i64)
    ensures
        r == match modified_at {
            Some(t) => t,
            None => now_millis,
        },
{
    match modified_at {
        Some(t) => t,
        None => now_millis,
    }
}

} // verus!
