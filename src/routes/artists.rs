//! Queries on artists.
use vstd::prelude::*;
use crate::models::{has_artist, AppState, Artist, Track};
use crate::routes::ApiError;

verus! {

broadcast use vstd::seq_lib::group_filter_ensures;

/// The first artist of `artists` with identifier `id`.
pub open spec fn artist_with_id(artists: Seq<Artist>, id: u128) -> Option<Artist>
    decreases artists.len(),
{
    if artists.len() == 0 {
        None
    } else if artists[0].id == id {
        Some(artists[0])
    } else {
        artist_with_id(artists.drop_first(), id)
    }
}

/// The tracks of `tracks` that credit artist `id`, in their order.
pub open spec fn tracks_of(tracks: Seq<Track>, id: u128) -> Seq<Track> {
    tracks.filter(|t: Track| t.artist_id == id)
}

/// What asking for the tracks of artist `id` answers.
pub open spec fn artist_tracks(artists: Seq<Artist>, tracks: Seq<Track>, id: u128) -> Result<
    Seq<Track>,
    ApiError,
> {
    if has_artist(artists, id) {
        Ok(tracks_of(tracks, id))
    } else {
        Err(ApiError::ArtistNotFound)
    }
}

/// Every artist, in scan order.
pub fn get_all(data: &AppState) -> (r: &Vec<Artist>)
    ensures
        r@ == data.track_collection.artists@,
{
    &data.track_collection.artists
}

/// The artist with identifier `id`.
pub fn get_by_id(data: &AppState, id: u128) -> (r: Result<&Artist, ApiError>)
    ensures
        match r {
            Ok(a) => artist_with_id(data.track_collection.artists@, id) == Some(*a),
            Err(e) => artist_with_id(data.track_collection.artists@, id) is None
                && e == ApiError::ArtistNotFound,
        },
        r is Ok <==> has_artist(data.track_collection.artists@, id),
        r matches Ok(a) ==> a.id == id,
{
    proof {
        lemma_artist_with_id_iff(data.track_collection.artists@, id);
    }
    let artists = &data.track_collection.artists;
    let ghost all = artists@;
    let mut i: usize = 0;
    assert(all.subrange(0, all.len() as int) =~= all);
    while i < artists.len()
        invariant
            i <= all.len(),
            all == data.track_collection.artists@,
            artists@ == all,
            artist_with_id(all, id) == artist_with_id(all.subrange(i as int, all.len() as int), id),
        decreases artists.len() - i,
    {
        let ghost rest = all.subrange(i as int, all.len() as int);
        assert(rest.drop_first() =~= all.subrange(i + 1, all.len() as int));
        assert(rest[0] == all[i as int]);
        if artists[i].id == id {
            return Ok(&artists[i]);
        }
        i = i + 1;
    }
    Err(ApiError::ArtistNotFound)
}

/// The tracks that credit artist `id`, in scan order: empty for a known
/// artist with none, an error for an unknown one.
pub fn get_tracks(data: &AppState, id: u128) -> (r: Result<Vec<&Track>, ApiError>)
    ensures
        match r {
            Ok(v) => artist_tracks(data.track_collection.artists@, data.track_collection.tracks@, id)
                == Ok::<Seq<Track>, ApiError>(v@.map_values(|t: &Track| *t)),
            Err(e) => artist_tracks(data.track_collection.artists@, data.track_collection.tracks@, id)
                == Err::<Seq<Track>, ApiError>(e),
        },
{
    let known = get_by_id(data, id).is_ok();
    proof {
        lemma_artist_with_id_iff(data.track_collection.artists@, id);
    }
    if !known {
        return Err(ApiError::ArtistNotFound);
    }
    let tracks = &data.track_collection.tracks;
    let ghost all = tracks@;
    let mut out: Vec<&Track> = Vec::new();
    let mut i: usize = 0;
    while i < tracks.len()
        invariant
            i <= all.len(),
            all == data.track_collection.tracks@,
            tracks@ == all,
            out@.map_values(|t: &Track| *t) == tracks_of(all.subrange(0, i as int), id),
        decreases tracks.len() - i,
    {
        let ghost before = out@;
        assert(all.subrange(0, i + 1) =~= all.subrange(0, i as int).push(all[i as int]));
        proof {
            all.subrange(0, i as int).lemma_filter_push(all[i as int], |t: Track| t.artist_id == id);
        }
        if tracks[i].artist_id == id {
            out.push(&tracks[i]);
            assert(out@.map_values(|t: &Track| *t) =~= before.map_values(|t: &Track| *t).push(
                all[i as int],
            ));
        }
        assert(out@.map_values(|t: &Track| *t) == tracks_of(all.subrange(0, i + 1), id));
        i = i + 1;
    }
    assert(all.subrange(0, all.len() as int) =~= all);
    Ok(out)
}

/// An artist is found exactly when some artist has the identifier, and the
/// one found has it.
pub proof fn lemma_artist_with_id_iff(artists: Seq<Artist>, id: u128)
    ensures
        artist_with_id(artists, id) is Some <==> has_artist(artists, id),
        artist_with_id(artists, id) matches Some(a) ==> a.id == id,
    decreases artists.len(),
{
    if artists.len() > 0 {
        let rest = artists.drop_first();
        lemma_artist_with_id_iff(rest, id);
        if has_artist(rest, id) {
            let j = choose|j: int| 0 <= j < rest.len() && rest[j].id == id;
            assert(artists[j + 1].id == id);
        }
        if has_artist(artists, id) && artists[0].id != id {
            let j = choose|j: int| 0 <= j < artists.len() && artists[j].id == id;
            assert(rest[j - 1].id == id);
        }
    }
}

} // verus!
