//! Queries on tracks.
use vstd::prelude::*;
use crate::models::{AppState, Track};
use crate::routes::ApiError;
use vstd::string::StringSliceAdditionalSpecFns;

verus! {

/// What `uuid::Uuid::parse_str` reads from a string, as a 128-bit value.
pub uninterp spec fn parsed_id(s: Seq<char>) -> Option<u128>;

/// Relies on uuid::Uuid::parse_str, read back with Uuid::as_u128: the value
/// depends on the text alone, and only texts of 32, 36, 38 or 45 bytes parse.
#[verifier::external_body]
fn parse_id(s: &str) -> (r: Option<u128>)
    ensures
        r == parsed_id(s@),
        !(s.spec_bytes().len() == 32 || s.spec_bytes().len() == 36 || s.spec_bytes().len() == 38
            || s.spec_bytes().len() == 45) ==> r is None,
{
    match uuid::Uuid::parse_str(s) {
        Ok(u) => Some(u.as_u128()),
        Err(_) => None,
    }
}

/// Some track of `tracks` has identifier `id`.
pub open spec fn has_track(tracks: Seq<Track>, id: u128) -> bool {
    exists|i: int| 0 <= i < tracks.len() && (#[trigger] tracks[i]).id == id
}

/// The first track of `tracks` with identifier `id`.
pub open spec fn track_with_id(tracks: Seq<Track>, id: u128) -> Option<Track>
    decreases tracks.len(),
{
    if tracks.len() == 0 {
        None
    } else if tracks[0].id == id {
        Some(tracks[0])
    } else {
        track_with_id(tracks.drop_first(), id)
    }
}

/// What asking for the track whose identifier reads `raw` answers.
pub open spec fn track_lookup(tracks: Seq<Track>, raw: Seq<char>) -> Result<Track, ApiError> {
    match parsed_id(raw) {
        None => Err(ApiError::InvalidTrackId),
        Some(id) => match track_with_id(tracks, id) {
            Some(t) => Ok(t),
            None => Err(ApiError::TrackNotFound),
        },
    }
}

/// Every track, in scan order.
pub fn get_all_tracks(data: &AppState) -> (r: &Vec<Track>)
    ensures
        r@ == data.track_collection.tracks@,
{
    &data.track_collection.tracks
}

/// The first track with identifier `id`.
pub fn find_track(data: &AppState, id: u128) -> (r: Option<&Track>)
    ensures
        match r {
            Some(t) => track_with_id(data.track_collection.tracks@, id) == Some(*t),
            None => track_with_id(data.track_collection.tracks@, id) is None,
        },
        r is Some <==> has_track(data.track_collection.tracks@, id),
        r matches Some(t) ==> t.id == id,
{
    proof {
        lemma_track_with_id_iff(data.track_collection.tracks@, id);
    }
    let tracks = &data.track_collection.tracks;
    let ghost all = tracks@;
    let mut i: usize = 0;
    assert(all.subrange(0, all.len() as int) =~= all);
    while i < tracks.len()
        invariant
            i <= all.len(),
            all == data.track_collection.tracks@,
            tracks@ == all,
            track_with_id(all, id) == track_with_id(all.subrange(i as int, all.len() as int), id),
        decreases tracks.len() - i,
    {
        let ghost rest = all.subrange(i as int, all.len() as int);
        assert(rest.drop_first() =~= all.subrange(i + 1, all.len() as int));
        assert(rest[0] == all[i as int]);
        if tracks[i].id == id {
            return Some(&tracks[i]);
        }
        i = i + 1;
    }
    None
}

/// The track whose identifier reads `raw`: an error when `raw` is no UUID or
/// no track has it.
pub fn get_track_by_id<'a>(data: &'a AppState, raw: &str) -> (r: Result<&'a Track, ApiError>)
    ensures
        match r {
            Ok(t) => track_lookup(data.track_collection.tracks@, raw@) == Ok::<Track, ApiError>(*t),
            Err(e) => track_lookup(data.track_collection.tracks@, raw@) == Err::<Track, ApiError>(e),
        },
{
    let id = match parse_id(raw) {
        Some(id) => id,
        None => return Err(ApiError::InvalidTrackId),
    };
    match find_track(data, id) {
        Some(t) => Ok(t),
        None => Err(ApiError::TrackNotFound),
    }
}

/// A track is found exactly when some track has the identifier, and the one
/// found has it.
pub proof fn lemma_track_with_id_iff(tracks: Seq<Track>, id: u128)
    ensures
        track_with_id(tracks, id) is Some <==> has_track(tracks, id),
        track_with_id(tracks, id) matches Some(t) ==> t.id == id,
    decreases tracks.len(),
{
    if tracks.len() > 0 {
        let rest = tracks.drop_first();
        lemma_track_with_id_iff(rest, id);
        if has_track(rest, id) {
            let j = choose|j: int| 0 <= j < rest.len() && rest[j].id == id;
            assert(tracks[j + 1].id == id);
        }
        if has_track(tracks, id) && tracks[0].id != id {
            let j = choose|j: int| 0 <= j < tracks.len() && tracks[j].id == id;
            assert(rest[j - 1].id == id);
        }
    }
}

} // verus!
