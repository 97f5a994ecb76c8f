//! The dashboard's figures, assembled from the counts the database gives.
use vstd::prelude::*;

verus! {

/// How many media one user uploaded.
#[derive(Debug, Clone)]
pub struct MediaByUser {
    pub username: String,
    pub count: i64,
}

/// Media per upload source.
#[derive(Debug, Clone, Copy)]
pub struct SourceStats {
    pub camera: i64,
    pub whatsapp_received: i64,
    pub whatsapp_sent: i64,
    pub screenshot: i64,
    pub download: i64,
    pub telegram: i64,
    pub other: i64,
}

/// Uploads per period.
#[derive(Debug, Clone, Copy)]
pub struct UploadPeriodStats {
    pub today: i64,
    pub this_week: i64,
    pub this_month: i64,
    pub this_year: i64,
}

/// Everything the dashboard shows.
#[derive(Debug, Clone)]
pub struct DashboardStats {
    pub user_count: i64,
    pub total_media_count: i64,
    pub photo_count: i64,
    pub video_count: i64,
    pub source_stats: SourceStats,
    pub upload_periods: UploadPeriodStats,
    pub media_by_user: Vec<MediaByUser>,
    pub version: String,
}

/// The upload sources the dashboard counts, in the order it shows them.
pub open spec fn dashboard_sources() -> Seq<Seq<char>> {
    seq![
        "camera"@,
        "whatsapp_received"@,
        "whatsapp_sent"@,
        "screenshot"@,
        "download"@,
        "telegram"@,
        "other"@,
    ]
}

/// The upload sources the dashboard counts.
pub fn dashboard_source_types() -> (r: Vec<&'static str>)
    ensures
        r@.len() == 7,
        forall|i: int| 0 <= i < 7 ==> #[trigger] r@[i]@ == dashboard_sources()[i],
{
    let mut r: Vec<&'static str> = Vec::new();
    r.push("camera");
    r.push("whatsapp_received");
    r.push("whatsapp_sent");
    r.push("screenshot");
    r.push("download");
    r.push("telegram");
    r.push("other");
    r
}

/// The source statistics from the counts of the sources, in the order of
/// `dashboard_source_types`.
pub fn source_stats_from_counts(counts: &Vec<i64>) -> (r: SourceStats)
    requires
        counts.len() == 7,
    ensures
        r.camera == counts[0],
        r.whatsapp_received == counts[1],
        r.whatsapp_sent == counts[2],
        r.screenshot == counts[3],
        r.download == counts[4],
        r.telegram == counts[5],
        r.other == counts[6],
{
    SourceStats {
        camera: counts[0],
        whatsapp_received: counts[1],
        whatsapp_sent: counts[2],
        screenshot: counts[3],
        download: counts[4],
        telegram: counts[5],
        other: counts[6],
    }
}

/// The dashboard from the database's counts: photos are the media that are
/// not videos.
pub fn dashboard_from_counts(
    user_count: i64,
    total_media_count: i64,
    video_count: i64,
    source_stats: SourceStats,
    upload_periods: UploadPeriodStats,
    media_by_user: Vec<MediaByUser>,
) -> (r: DashboardStats)
    requires
        i64::MIN <= total_media_count - video_count <= i64::MAX,
    ensures
        r.user_count == user_count,
        r.total_media_count == total_media_count,
        r.video_count == video_count,
        r.photo_count == total_media_count - video_count,
        r.source_stats == source_stats,
        r.upload_periods == upload_periods,
        r.media_by_user@ == media_by_user@,
        r.version@ == "1.0.0"@,
{
    DashboardStats {
        user_count,
        total_media_count,
        photo_count: total_media_count - video_count,
        video_count,
        source_stats,
        upload_periods,
        media_by_user,
        version: "1.0.0".to_string(),
    }
}

} // verus!
