//! The photo library's rules: paging, where uploads are stored and served,
//! the type a stored file is served as, capture times read from EXIF, and
//! thumbnails.
use vstd::prelude::*;

use crate::paths::{file_extension, file_extension_of};
use crate::text::{
    chars_of, extend_str, has_suffix, str_ends_with, string_of, trim, trimmed,
};

verus! {

/// What a web upload answers.
#[derive(Debug, Clone)]
pub struct UploadResponse {
    pub success: bool,
    pub filename: String,
    pub path: String,
}

/// A photo as the library lists it.
#[derive(Debug, Clone)]
pub struct PhotoItem {
    pub id: i64,
    pub filename: String,
    pub original_name: String,
    pub url: String,
    pub size_bytes: i64,
    pub mime_type: String,
    pub uploaded_at: String,
    pub taken_at: Option<String>,
    pub user_id: i64,
    pub owner_username: String,
    pub source_type: String,
    pub source_path: Option<String>,
    pub device_name: Option<String>,
}

/// The photos a client wants as one archive.
#[derive(Debug, Clone)]
pub struct DownloadZipRequest {
    pub filenames: Vec<String>,
}

/// Paging of the photo list.
#[derive(Debug, Clone, Copy)]
pub struct PhotoListParams {
    pub limit: Option<i64>,
    pub offset: Option<i64>,
}

/// Most photos listed at once.
pub const MAX_PHOTO_PAGE: i64 = 100000;

/// The page a listing asks for: at most 100000 photos (all by default) and
/// at least one, from a non-negative offset (0 by default).
pub open spec fn page_of(p: PhotoListParams) -> (i64, i64) {
    let limit = match p.limit {
        Some(l) => l,
        None => MAX_PHOTO_PAGE,
    };
    let offset = match p.offset {
        Some(o) => o,
        None => 0,
    };
    (
        if limit < 1 {
            1
        } else if limit > MAX_PHOTO_PAGE {
            MAX_PHOTO_PAGE
        } else {
            limit
        },
        if offset < 0 {
            0
        } else {
            offset
        },
    )
}

/// The limit and offset of a listing.
pub fn photo_page(p: &PhotoListParams) -> (r: (i64, i64))
    ensures
        r == page_of(*p),
{
    let limit = match p.limit {
        Some(l) => l,
        None => MAX_PHOTO_PAGE,
    };
    let offset = match p.offset {
        Some(o) => o,
        None => 0,
    };
    (
        if limit < 1 {
            1
        } else if limit > MAX_PHOTO_PAGE {
            MAX_PHOTO_PAGE
        } else {
            limit
        },
        if offset < 0 {
            0
        } else {
            offset
        },
    )
}

/// The type a stored file is served as, by its name.
pub open spec fn served_type(filename: Seq<char>) -> Seq<char> {
    if has_suffix(filename, ".png"@) {
        "image/png"@
    } else if has_suffix(filename, ".jpg"@) || has_suffix(filename, ".jpeg"@) {
        "image/jpeg"@
    } else if has_suffix(filename, ".webp"@) {
        "image/webp"@
    } else if has_suffix(filename, ".mp4"@) {
        "video/mp4"@
    } else if has_suffix(filename, ".mov"@) {
        "video/quicktime"@
    } else {
        "application/octet-stream"@
    }
}

/// The type a stored file is served as.
pub fn photo_content_type(filename: &str) -> (r: &'static str)
    ensures
        r@ == served_type(filename@),
{
    if str_ends_with(filename, ".png") {
        "image/png"
    } else if str_ends_with(filename, ".jpg") || str_ends_with(filename, ".jpeg") {
        "image/jpeg"
    } else if str_ends_with(filename, ".webp") {
        "image/webp"
    } else if str_ends_with(filename, ".mp4") {
        "video/mp4"
    } else if str_ends_with(filename, ".mov") {
        "video/quicktime"
    } else {
        "application/octet-stream"
    }
}

/// Where a file is looked for when the database has no path for it.
pub fn legacy_photo_path(filename: &str) -> (r: String)
    ensures
        r@ == "storage/photos/"@ + filename@,
{
    let mut out = chars_of("storage/photos/");
    extend_str(&mut out, filename);
    string_of(&out)
}

/// Where the thumbnail of a file is cached.
pub fn thumbnail_path(filename: &str) -> (r: String)
    ensures
        r@ == "storage/thumbs/"@ + filename@ + ".jpg"@,
{
    let mut out = chars_of("storage/thumbs/");
    extend_str(&mut out, filename);
    extend_str(&mut out, ".jpg");
    string_of(&out)
}

/// Where a web upload goes and how it is served, from the uploader's name,
/// the year and month of the upload, the name the browser gave (default
/// `photo.jpg`) and a fresh id: the file keeps the extension of the given
/// name (default `jpg`).
pub struct UploadPlacement {
    pub original_name: String,
    pub filename: String,
    pub directory: String,
    pub path: String,
    pub url: String,
}

pub open spec fn upload_extension(original: Seq<char>) -> Seq<char> {
    match file_extension(original) {
        Some(e) => e,
        None => "jpg"@,
    }
}

/// Where a web upload goes.
pub fn upload_placement(
    username: &str,
    year: &str,
    month: &str,
    browser_name: Option<&str>,
    id: &str,
) -> (r: UploadPlacement)
    ensures
        r.original_name@ == match browser_name {
            Some(n) => n@,
            None => "photo.jpg"@,
        },
        r.filename@ == id@ + "."@ + upload_extension(r.original_name@),
        r.directory@ == "storage/users/"@ + username@ + "/photos/"@ + year@ + "/"@ + month@,
        r.path@ == r.directory@ + "/"@ + r.filename@,
        r.url@ == "/api/v1/photos/file/"@ + r.filename@,
{
    let original_name = match browser_name {
        Some(n) => n.to_string(),
        None => "photo.jpg".to_string(),
    };
    let extension = match file_extension_of(original_name.as_str()) {
        Some(e) => e,
        None => "jpg".to_string(),
    };
    let mut filename = chars_of(id);
    extend_str(&mut filename, ".");
    extend_str(&mut filename, extension.as_str());
    let mut directory = chars_of("storage/users/");
    extend_str(&mut directory, username);
    extend_str(&mut directory, "/photos/");
    extend_str(&mut directory, year);
    extend_str(&mut directory, "/");
    extend_str(&mut directory, month);
    let mut path = directory.clone();
    extend_str(&mut path, "/");
    crate::text::extend_chars(&mut path, &filename);
    let mut url = chars_of("/api/v1/photos/file/");
    crate::text::extend_chars(&mut url, &filename);
    UploadPlacement {
        original_name,
        filename: string_of(&filename),
        directory: string_of(&directory),
        path: string_of(&path),
        url: string_of(&url),
    }
}

/// The name a photo gets inside a download archive: its original name, or
/// `dosya` when that is blank.
pub fn archive_entry_name(original_name: &str) -> (r: String)
    ensures
        r@ == (if trim(original_name@).len() == 0 {
            "dosya"@
        } else {
            original_name@
        }),
{
    if trimmed(&chars_of(original_name)).len() == 0 {
        "dosya".to_string()
    } else {
        original_name.to_string()
    }
}

/// The name of an archive entry for a photo's original name.
pub open spec fn entry_name_of(name: Seq<char>) -> Seq<char> {
    if trim(name).len() == 0 {
        "dosya"@
    } else {
        name
    }
}

/// A photo as it goes into a download archive: its entry name and bytes.
pub open spec fn entry_of(file: (Seq<char>, Seq<u8>)) -> (Seq<char>, Seq<u8>) {
    (entry_name_of(file.0), file.1)
}

/// The entries of a download archive, in the order of the photos.
pub open spec fn archive_entries(files: Seq<(Seq<char>, Seq<u8>)>) -> Seq<(Seq<char>, Seq<u8>)> {
    Seq::new(files.len(), |i: int| entry_of(files[i]))
}

/// What `zip::ZipWriter` writes into memory for the entries, one after
/// another, each deflated and stamped with the MS-DOS date and time (an
/// invalid pair stamps 1980-01-01 00:00), an entry whose start fails being
/// left out.
pub uninterp spec fn deflated_zip(entries: Seq<(Seq<char>, Seq<u8>)>, dos_date: u16, dos_time: u16) -> Seq<u8>;

/// Writes a ZIP archive into memory with `zip::ZipWriter`: each entry is
/// started with `start_file` (deflated, with the given time stamp) and its
/// bytes written, then the archive is finished. Trusted: the bytes are
/// `deflated_zip` of the entries and the time stamp.
#[verifier::external_body]
fn zip_archive(entries: &Vec<(String, Vec<u8>)>, dos_date: u16, dos_time: u16) -> (r: Vec<u8>)
    ensures
        r@ == deflated_zip(entries.deep_view(), dos_date, dos_time),
{
    let stamp = zip::DateTime::try_from_msdos(dos_date, dos_time).unwrap_or_default();
    let options = zip::write::SimpleFileOptions::default()
        .compression_method(zip::CompressionMethod::Deflated)
        .last_modified_time(stamp);
    let mut cursor = std::io::Cursor::new(Vec::new());
    let mut archive = zip::ZipWriter::new(&mut cursor);
    for (name, bytes) in entries.iter() {
        if archive.start_file(name.as_str(), options).is_ok() {
            let _ = std::io::Write::write_all(&mut archive, bytes);
        }
    }
    let _ = archive.finish();
    cursor.into_inner()
}

/// The download archive of photos, each an original name and its bytes:
/// every photo becomes an entry, in order, named by `archive_entry_name`,
/// stamped with the given MS-DOS date and time.
pub fn download_archive(files: Vec<(String, Vec<u8>)>, dos_date: u16, dos_time: u16) -> (r: Vec<u8>)
    ensures
        r@ == deflated_zip(archive_entries(files.deep_view()), dos_date, dos_time),
{
    let ghost original = files.deep_view();
    let n = files.len();
    let mut rest = files;
    let mut reversed: Vec<(String, Vec<u8>)> = Vec::new();
    while rest.len() > 0
        invariant
            n == original.len(),
            rest.len() + reversed.len() == n,
            rest.deep_view() =~= original.take(rest.len() as int),
            forall|j: int| 0 <= j < reversed.len() ==> #[trigger] reversed.deep_view()[j] == entry_of(original[n - 1 - j]),
        decreases rest.len(),
    {
        let ghost before = rest.deep_view();
        let (name, bytes) = rest.pop().unwrap();
        proof {
            assert(rest.deep_view() =~= before.drop_last());
            assert(before.last() == (name@, bytes@));
        }
        let ghost old_rev = reversed.deep_view();
        reversed.push((archive_entry_name(&name), bytes));
        proof {
            assert forall|j: int| 0 <= j < reversed.len() implies #[trigger] reversed.deep_view()[j] == entry_of(
                original[n - 1 - j],
            ) by {
                if j < reversed.len() - 1 {
                    assert(reversed.deep_view()[j] == old_rev[j]);
                }
            }
        }
    }
    let mut entries: Vec<(String, Vec<u8>)> = Vec::new();
    while reversed.len() > 0
        invariant
            n == original.len(),
            reversed.len() + entries.len() == n,
            forall|j: int| 0 <= j < reversed.len() ==> #[trigger] reversed.deep_view()[j] == entry_of(original[n - 1 - j]),
            forall|k: int| 0 <= k < entries.len() ==> #[trigger] entries.deep_view()[k] == entry_of(original[k]),
        decreases reversed.len(),
    {
        let ghost old_rev = reversed.deep_view();
        let ghost old_entries = entries.deep_view();
        let e = reversed.pop().unwrap();
        proof {
            assert(e.deep_view() == old_rev[old_rev.len() - 1]);
            assert forall|j: int| 0 <= j < reversed.len() implies #[trigger] reversed.deep_view()[j] == entry_of(
                original[n - 1 - j],
            ) by {
                assert(reversed.deep_view()[j] == old_rev[j]);
            }
        }
        entries.push(e);
        proof {
            assert forall|k: int| 0 <= k < entries.len() implies #[trigger] entries.deep_view()[k] == entry_of(
                original[k],
            ) by {
                if k < entries.len() - 1 {
                    assert(entries.deep_view()[k] == old_entries[k]);
                }
            }
        }
    }
    assert(entries.deep_view() =~= archive_entries(original));
    zip_archive(&entries, dos_date, dos_time)
}

/// The text of the capture-time tag of an image's EXIF data, as
/// `kamadak-exif` displays it with its unit: `DateTimeOriginal` when
/// `original`, else `DateTime`.
pub uninterp spec fn exif_field(data: Seq<u8>, original: bool) -> Option<Seq<char>>;

/// Reads the EXIF data of an image with `exif::Reader::read_from_container`
/// and displays one capture-time tag of the primary image. Trusted: the
/// result is `exif_field` of the bytes and the choice of tag.
#[verifier::external_body]
fn exif_tag_text(data: &[u8], original: bool) -> (r: Option<String>)
    ensures
        opt_seq(r) == exif_field(data@, original),
{
    let exif = exif::Reader::new().read_from_container(&mut std::io::Cursor::new(data)).ok()?;
    let tag = if original {
        exif::Tag::DateTimeOriginal
    } else {
        exif::Tag::DateTime
    };
    let field = exif.get_field(tag, exif::In::PRIMARY)?;
    Some(field.display_value().with_unit(&exif).to_string())
}

pub open spec fn opt_seq(o: Option<String>) -> Option<Seq<char>> {
    match o {
        Some(s) => Some(s@),
        None => None,
    }
}

/// The layout of an EXIF date and time, as `chrono` format items.
pub const EXIF_TIME_FORMAT: &'static str = "%Y:%m:%d %H:%M:%S";

/// What `chrono::NaiveDateTime::parse_from_str` makes of a text with a
/// format, written as RFC 3339 in UTC.
pub uninterp spec fn exif_time_rfc3339(text: Seq<char>, format: Seq<char>) -> Option<Seq<char>>;

/// Calls `chrono::NaiveDateTime::parse_from_str` with the format and writes
/// the time, taken as UTC, with `to_rfc3339`. Trusted: the result is
/// `exif_time_rfc3339` of the text and the format.
#[verifier::external_body]
fn exif_time_to_rfc3339(text: &str, format: &str) -> (r: Option<String>)
    ensures
        opt_seq(r) == exif_time_rfc3339(text@, format@),
{
    chrono::NaiveDateTime::parse_from_str(text, format).ok().map(|naive| naive.and_utc().to_rfc3339())
}

/// The capture time of an image: its EXIF `DateTimeOriginal`, else
/// `DateTime`, trimmed and read as an EXIF time.
pub open spec fn taken_at_of(data: Seq<u8>) -> Option<Seq<char>> {
    let text = match exif_field(data, true) {
        Some(t) => Some(t),
        None => exif_field(data, false),
    };
    match text {
        Some(t) => exif_time_rfc3339(trim(t), EXIF_TIME_FORMAT@),
        None => None,
    }
}

/// The capture time of an image, from its EXIF data.
pub fn read_taken_at_from_exif(data: &[u8]) -> (r: Option<String>)
    ensures
        opt_seq(r) == taken_at_of(data@),
{
    let text = match exif_tag_text(data, true) {
        Some(t) => t,
        None => match exif_tag_text(data, false) {
            Some(t) => t,
            None => return None,
        },
    };
    let t = string_of(&trimmed(&chars_of(text.as_str())));
    exif_time_to_rfc3339(t.as_str(), EXIF_TIME_FORMAT)
}

/// Why no thumbnail could be made.
#[derive(Debug, Clone, Copy, PartialEq, Eq, Structural)]
pub enum ThumbnailFailure {
    /// The image could not be decoded (answered 415).
    Undecodable,
    /// The thumbnail could not be encoded (answered 500).
    EncodeFailed,
}

/// The resampling filters of `image`'s resize.
#[derive(Debug, Clone, Copy, PartialEq, Eq, Structural)]
pub enum ResizeFilter {
    Nearest,
    Triangle,
    CatmullRom,
    Gaussian,
    Lanczos3,
}

/// The longest edge of a thumbnail, in pixels.
pub const THUMBNAIL_EDGE: u32 = 420;

/// The JPEG quality of a thumbnail.
pub const THUMBNAIL_QUALITY: u8 = 72;

/// What `image` makes of an image: decoded with `load_from_memory`, resized
/// with `resize` to fit `width`×`height` with the filter, and encoded as
/// JPEG of the quality.
pub uninterp spec fn thumbnail_of(
    data: Seq<u8>,
    width: u32,
    height: u32,
    filter: ResizeFilter,
    quality: u8,
) -> Result<Seq<u8>, ThumbnailFailure>;

/// Decodes with `image::load_from_memory`, resizes with
/// `DynamicImage::resize` and encodes with `JpegEncoder::new_with_quality`.
/// Trusted: the result is `thumbnail_of` of the arguments.
#[verifier::external_body]
fn encode_thumbnail(data: &[u8], width: u32, height: u32, filter: ResizeFilter, quality: u8) -> (r: Result<
    Vec<u8>,
    ThumbnailFailure,
>)
    ensures
        match r {
            Ok(v) => thumbnail_of(data@, width, height, filter, quality) == Ok::<Seq<u8>, ThumbnailFailure>(v@),
            Err(e) => thumbnail_of(data@, width, height, filter, quality) == Err::<Seq<u8>, ThumbnailFailure>(e),
        },
{
    let filter = match filter {
        ResizeFilter::Nearest => image::imageops::FilterType::Nearest,
        ResizeFilter::Triangle => image::imageops::FilterType::Triangle,
        ResizeFilter::CatmullRom => image::imageops::FilterType::CatmullRom,
        ResizeFilter::Gaussian => image::imageops::FilterType::Gaussian,
        ResizeFilter::Lanczos3 => image::imageops::FilterType::Lanczos3,
    };
    let decoded = image::load_from_memory(data).map_err(|_| ThumbnailFailure::Undecodable)?;
    let mut out = Vec::new();
    let mut encoder = image::codecs::jpeg::JpegEncoder::new_with_quality(&mut out, quality);
    encoder.encode_image(&decoded.resize(width, height, filter)).map_err(|_| ThumbnailFailure::EncodeFailed)?;
    Ok(out)
}

/// The thumbnail of an image (fitting 420×420, triangle filter, JPEG
/// quality 72), or the HTTP status that answers its failure.
pub fn make_thumbnail(data: &[u8]) -> (r: Result<Vec<u8>, u16>)
    ensures
        match thumbnail_of(data@, THUMBNAIL_EDGE, THUMBNAIL_EDGE, ResizeFilter::Triangle, THUMBNAIL_QUALITY) {
            Ok(v) => r matches Ok(x) && x@ == v,
            Err(ThumbnailFailure::Undecodable) => r == Err::<Vec<u8>, u16>(415),
            Err(ThumbnailFailure::EncodeFailed) => r == Err::<Vec<u8>, u16>(500),
        },
{
    match encode_thumbnail(data, THUMBNAIL_EDGE, THUMBNAIL_EDGE, ResizeFilter::Triangle, THUMBNAIL_QUALITY) {
        Ok(v) => Ok(v),
        Err(ThumbnailFailure::Undecodable) => Err(415),
        Err(ThumbnailFailure::EncodeFailed) => Err(500),
    }
}

} // verus!
