//! Read-only queries over the catalogue, one module per resource.
pub mod artists;
pub mod communities;
pub mod tracks;

use vstd::prelude::*;

verus! {

/// Why a query has no answer.
#[derive(Debug, PartialEq, Eq, Structural)]
pub enum ApiError {
    /// No artist has the identifier asked for.
    ArtistNotFound,
    /// No track has the identifier asked for.
    TrackNotFound,
    /// The track identifier is not a UUID.
    InvalidTrackId,
}

impl ApiError {
    /// The HTTP status that answers this error.
    pub open spec fn status_code(&self) -> u16 {
        match self {
            ApiError::InvalidTrackId => 400,
            _ => 404,
        }
    }

    /// The HTTP status that answers this error.
    pub fn status(&self) -> (r: u16)
        ensures
            r == self.status_code(),
    {
        match self {
            ApiError::InvalidTrackId => 400,
            _ => 404,
        }
    }

    /// The plain-text body that answers this error.
    pub fn message(&self) -> (r: String)
        ensures
            r@ == match self {
                ApiError::ArtistNotFound => "Artist not found"@,
                ApiError::TrackNotFound => "Track not found"@,
                ApiError::InvalidTrackId => "Invalid track ID format"@,
            },
    {
        match self {
            ApiError::ArtistNotFound => "Artist not found".to_owned(),
            ApiError::TrackNotFound => "Track not found".to_owned(),
            ApiError::InvalidTrackId => "Invalid track ID format".to_owned(),
        }
    }
}

} // verus!
