//! Properties that relate the library's operations to one another.
use vstd::prelude::*;
use crate::classify::directory_artist;
use crate::models::{has_artist, Artist, Track, TrackCollection};
use crate::routes::artists::{artist_tracks, artist_with_id, lemma_artist_with_id_iff, tracks_of};
use crate::routes::tracks::{has_track, lemma_track_with_id_iff, parsed_id, track_lookup};
use crate::routes::ApiError;
use crate::track_service::{file_entries, is_scan_of, scan_entries, DirListing};

verus! {

broadcast use vstd::seq_lib::group_filter_ensures;

/// Looking up an identifier that no record has answers "not found": for an
/// artist, for an artist's tracks, and for a track whose identifier is well
/// formed.
pub proof fn lemma_unknown_ids_not_found(
    artists: Seq<Artist>,
    tracks: Seq<Track>,
    id: u128,
    raw: Seq<char>,
)
    ensures
        !has_artist(artists, id) ==> artist_with_id(artists, id) is None,
        !has_artist(artists, id) ==> artist_tracks(artists, tracks, id) == Err::<Seq<Track>, ApiError>(
            ApiError::ArtistNotFound,
        ),
        parsed_id(raw) == Some(id) && !has_track(tracks, id) ==> track_lookup(tracks, raw) == Err::<
            Track,
            ApiError,
        >(ApiError::TrackNotFound),
{
    lemma_artist_with_id_iff(artists, id);
    lemma_track_with_id_iff(tracks, id);
}

/// A track identifier that is not a UUID is answered with status 400.
pub proof fn lemma_malformed_track_id_is_bad_request(tracks: Seq<Track>, raw: Seq<char>)
    requires
        parsed_id(raw) is None,
    ensures
        track_lookup(tracks, raw) matches Err(e) && e.status_code() == 400,
{
}

/// The tracks of a known artist are exactly the catalogue's tracks that
/// credit that artist, in catalogue order; an artist with none gets an empty
/// list, not "not found".
pub proof fn lemma_artist_tracks_are_filtered(artists: Seq<Artist>, tracks: Seq<Track>, id: u128)
    requires
        has_artist(artists, id),
    ensures
        artist_tracks(artists, tracks, id) == Ok::<Seq<Track>, ApiError>(tracks_of(tracks, id)),
        forall|i: int|
            0 <= i < tracks_of(tracks, id).len() ==> (#[trigger] tracks_of(tracks, id)[i]).artist_id
                == id && tracks.contains(tracks_of(tracks, id)[i]),
        forall|i: int|
            0 <= i < tracks.len() && (#[trigger] tracks[i]).artist_id == id ==> tracks_of(
                tracks,
                id,
            ).contains(tracks[i]),
        (forall|i: int| 0 <= i < tracks.len() ==> (#[trigger] tracks[i]).artist_id != id) ==> tracks_of(
            tracks,
            id,
        ).len() == 0,
{
    let keep = |t: Track| t.artist_id == id;
    assert forall|i: int| 0 <= i < tracks_of(tracks, id).len() implies (#[trigger] tracks_of(
        tracks,
        id,
    )[i]).artist_id == id && tracks.contains(tracks_of(tracks, id)[i]) by {
        assert(tracks.filter(keep).contains(tracks.filter(keep)[i]));
        tracks.lemma_filter_contains_rev(keep, tracks.filter(keep)[i]);
    }
    if forall|i: int| 0 <= i < tracks.len() ==> (#[trigger] tracks[i]).artist_id != id {
        if tracks_of(tracks, id).len() > 0 {
            let t = tracks.filter(keep)[0];
            assert(tracks.filter(keep).contains(t));
            tracks.lemma_filter_contains_rev(keep, t);
        }
    }
}

/// Two scans of the same listing give as many artists and tracks, with the
/// same names, titles, performers, genres, file types and URLs, each track
/// crediting the artist at the same position; only identifiers may differ.
pub proof fn lemma_rescan_reproduces(
    c1: TrackCollection,
    c2: TrackCollection,
    prefix: Seq<char>,
    dirs: Seq<DirListing>,
)
    requires
        is_scan_of(c1, prefix, dirs),
        is_scan_of(c2, prefix, dirs),
    ensures
        c1.artists@.len() == c2.artists@.len(),
        forall|k: int|
            0 <= k < c1.artists@.len() ==> (#[trigger] c1.artists@[k]).name@ == c2.artists@[k].name@
                && c1.artists@[k].bio@ == c2.artists@[k].bio@,
        c1.tracks@.len() == c2.tracks@.len(),
        forall|i: int|
            #![trigger c1.tracks@[i]]
            0 <= i < c1.tracks@.len() ==> {
                let (t1, t2) = (c1.tracks@[i], c2.tracks@[i]);
                &&& t1.title@ == t2.title@
                &&& t1.artist_name@ == t2.artist_name@
                &&& t1.genre@ == t2.genre@
                &&& t1.file_type@ == t2.file_type@
                &&& t1.url@ == t2.url@
                &&& exists|k: int|
                    0 <= k < c1.artists@.len() && t1.artist_id == (#[trigger] c1.artists@[k]).id
                        && t2.artist_id == c2.artists@[k].id
            },
{
    let entries = scan_entries(prefix, dirs);
    assert forall|i: int| #![trigger c1.tracks@[i]] 0 <= i < c1.tracks@.len() implies {
        let (t1, t2) = (c1.tracks@[i], c2.tracks@[i]);
        &&& t1.title@ == t2.title@
        &&& t1.artist_name@ == t2.artist_name@
        &&& t1.genre@ == t2.genre@
        &&& t1.file_type@ == t2.file_type@
        &&& t1.url@ == t2.url@
        &&& exists|k: int|
            0 <= k < c1.artists@.len() && t1.artist_id == (#[trigger] c1.artists@[k]).id
                && t2.artist_id == c2.artists@[k].id
    } by {
        let k = entries[i].0.artist as int;
        assert(c1.tracks@[i].artist_id == c1.artists@[k].id);
        assert(c2.tracks@[i].artist_id == c2.artists@[k].id);
    }
}

proof fn lemma_unknown_directory_files(prefix: Seq<char>, dir: Seq<char>, files: Seq<String>)
    requires
        directory_artist(dir) is None,
    ensures
        file_entries(prefix, dir, files).len() == 0,
    decreases files.len(),
{
    if files.len() > 0 {
        lemma_unknown_directory_files(prefix, dir, files.drop_last());
    }
}

proof fn lemma_scan_entries_concat(prefix: Seq<char>, a: Seq<DirListing>, b: Seq<DirListing>)
    ensures
        scan_entries(prefix, a + b) == scan_entries(prefix, a) + scan_entries(prefix, b),
    decreases b.len(),
{
    if b.len() == 0 {
        assert(a + b =~= a);
        assert(scan_entries(prefix, a) + scan_entries(prefix, b) =~= scan_entries(prefix, a));
    } else {
        assert((a + b).drop_last() =~= a + b.drop_last());
        lemma_scan_entries_concat(prefix, a, b.drop_last());
        assert((a + b).last() == b.last());
        let fe = file_entries(prefix, b.last().name@, b.last().files@);
        assert(scan_entries(prefix, a) + scan_entries(prefix, b.drop_last()) + fe =~= scan_entries(
            prefix,
            a,
        ) + (scan_entries(prefix, b.drop_last()) + fe));
    }
}

/// A directory that belongs to no known artist adds no track: the scan gives
/// the same tracks without it (and the artists never depend on the listing).
pub proof fn lemma_unknown_directory_contributes_nothing(
    prefix: Seq<char>,
    dirs: Seq<DirListing>,
    i: int,
)
    requires
        0 <= i < dirs.len(),
        directory_artist(dirs[i].name@) is None,
    ensures
        scan_entries(prefix, dirs) == scan_entries(prefix, dirs.remove(i)),
{
    let before = dirs.subrange(0, i);
    let after = dirs.subrange(i + 1, dirs.len() as int);
    let one = seq![dirs[i]];
    assert(dirs =~= before + one + after);
    assert(dirs.remove(i) =~= before + after);
    lemma_scan_entries_concat(prefix, before + one, after);
    lemma_scan_entries_concat(prefix, before, one);
    lemma_scan_entries_concat(prefix, before, after);
    assert(one.drop_last() =~= Seq::<DirListing>::empty());
    lemma_unknown_directory_files(prefix, dirs[i].name@, dirs[i].files@);
    assert(one.last() == dirs[i]);
    assert(scan_entries(prefix, one.drop_last()).len() == 0);
    assert(scan_entries(prefix, one) =~= Seq::empty());
    assert(scan_entries(prefix, before) + scan_entries(prefix, one) =~= scan_entries(prefix, before));
}

} // verus!
