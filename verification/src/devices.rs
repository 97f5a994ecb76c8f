//! Paired devices: what the device list shows and when a device counts as
//! online.
use vstd::prelude::*;

use crate::mobile::{sat_sub, saturating_sub, MOBILE_ONLINE_SECONDS};

verus! {

/// A paired device with what it has uploaded.
#[derive(Debug, Clone)]
pub struct DeviceSummary {
    pub device_id: String,
    pub device_name: String,
    pub total_media_count: i64,
    pub photo_count: i64,
    pub video_count: i64,
    pub total_bytes: i64,
    pub ip_address: Option<String>,
    pub network_scope: Option<String>,
    pub last_filename: Option<String>,
    pub last_source_type: Option<String>,
    pub first_upload_at: Option<String>,
    pub last_upload_at: Option<String>,
    pub online: bool,
}

/// The earliest last-seen time at which a device still counts as online at
/// `now`: two minutes earlier, saturating.
pub fn online_cutoff(now: i64) -> (r: i64)
    ensures
        r == sat_sub(now, MOBILE_ONLINE_SECONDS),
{
    saturating_sub(now, MOBILE_ONLINE_SECONDS)
}

/// Whether a device last seen at `last_seen` counts as online at `now`.
pub fn device_online(last_seen: i64, now: i64) -> (r: bool)
    ensures
        r == (last_seen >= sat_sub(now, MOBILE_ONLINE_SECONDS)),
{
    last_seen >= online_cutoff(now)
}

} // verus!
