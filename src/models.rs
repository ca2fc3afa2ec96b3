//! The catalogue's records. Identifiers are 128-bit values (the numeric form
//! of a UUID).
use vstd::prelude::*;

verus! {

/// An artist of the catalogue.
#[derive(Debug, Clone)]
pub struct Artist {
    pub id: u128,
    pub name: String,
    pub bio: String,
}

/// An audio track of the catalogue.
#[derive(Debug, Clone)]
pub struct Track {
    pub id: u128,
    pub title: String,
    /// The artist credited with the track.
    pub artist_id: u128,
    /// The performing artist's display name, which may be a side project's.
    pub artist_name: String,
    pub genre: String,
    /// Public path under which the audio bytes are served.
    pub url: String,
    /// The file extension: `mp3`, `m4a` or `wav`.
    pub file_type: String,
}

/// One scan's snapshot: every artist and every track.
#[derive(Debug, Clone)]
pub struct TrackCollection {
    pub artists: Vec<Artist>,
    pub tracks: Vec<Track>,
}

/// What the request handlers share: the catalogue built at start-up.
#[derive(Debug, Clone)]
pub struct AppState {
    pub track_collection: TrackCollection,
}

/// An artist as a community lists it.
#[derive(Debug, Clone)]
pub struct ArtistSummary {
    pub id: u128,
    pub name: String,
}

/// A named group of artists.
#[derive(Debug, Clone)]
pub struct Community {
    pub name: String,
    pub artists: Vec<ArtistSummary>,
}

/// Some artist of `artists` has identifier `id`.
pub open spec fn has_artist(artists: Seq<Artist>, id: u128) -> bool {
    exists|i: int| 0 <= i < artists.len() && (#[trigger] artists[i]).id == id
}

impl TrackCollection {
    /// Identifiers are unique among artists and among tracks, and every track
    /// credits an artist of the collection.
    pub open spec fn wf(&self) -> bool {
        &&& forall|i: int, j: int|
            0 <= i < j < self.artists@.len() ==> (#[trigger] self.artists@[i]).id
                != (#[trigger] self.artists@[j]).id
        &&& forall|i: int, j: int|
            0 <= i < j < self.tracks@.len() ==> (#[trigger] self.tracks@[i]).id
                != (#[trigger] self.tracks@[j]).id
        &&& forall|i: int|
            0 <= i < self.tracks@.len() ==> has_artist(
                self.artists@,
                (#[trigger] self.tracks@[i]).artist_id,
            )
    }
}

impl Default for AppState {
    fn default() -> (r: AppState)
        ensures
            r.track_collection.artists@.len() == 0,
            r.track_collection.tracks@.len() == 0,
            r.track_collection.wf(),
    {
        AppState { track_collection: TrackCollection { artists: Vec::new(), tracks: Vec::new() } }
    }
}

} // verus!
