//! Albums: what an album and its photos look like to a client, and the
//! checks made before an album is created or read.
use vstd::prelude::*;

use crate::text::{chars_of, string_of, trim, trimmed};

verus! {

/// An album as listed to a user.
#[derive(Debug, Clone)]
pub struct AlbumItem {
    pub id: i64,
    pub user_id: i64,
    pub title: String,
    pub description: Option<String>,
    pub created_at: String,
    pub photo_count: i64,
    pub cover_url: Option<String>,
}

/// A photo inside an album.
#[derive(Debug, Clone)]
pub struct AlbumPhotoItem {
    pub id: i64,
    pub filename: String,
    pub original_name: String,
    pub url: String,
    pub size_bytes: i64,
    pub mime_type: String,
    pub uploaded_at: String,
    pub taken_at: Option<String>,
    pub user_id: i64,
    pub owner_username: String,
}

/// An album with its photos.
#[derive(Debug, Clone)]
pub struct AlbumDetailResponse {
    pub album: AlbumItem,
    pub photos: Vec<AlbumPhotoItem>,
}

/// What a client sends to create an album.
#[derive(Debug, Clone)]
pub struct CreateAlbumRequest {
    pub title: String,
    pub description: Option<String>,
}

/// What a client sends to add photos to an album.
#[derive(Debug, Clone)]
pub struct AddPhotosToAlbumRequest {
    pub photo_ids: Vec<i64>,
}

/// The title an album is created with: the request's title, trimmed; an
/// empty title is refused.
pub fn album_title(request: &CreateAlbumRequest) -> (r: Option<String>)
    ensures
        match r {
            Some(t) => t@ == trim(request.title@) && t@.len() > 0,
            None => trim(request.title@).len() == 0,
        },
{
    let t = trimmed(&chars_of(request.title.as_str()));
    if t.len() == 0 {
        None
    } else {
        Some(string_of(&t))
    }
}

} // verus!
