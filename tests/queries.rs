use backend::models::{AppState, Artist, Track, TrackCollection};
use backend::routes::artists::{get_all, get_by_id, get_tracks};
use backend::routes::communities::get_communities;
use backend::routes::tracks::{find_track, get_all_tracks, get_track_by_id};
use backend::routes::ApiError;
use backend::track_service::{DirListing, TrackService};

fn artist(id: u128, name: &str) -> Artist {
    Artist { id, name: name.to_string(), bio: String::new() }
}

fn track(id: u128, artist_id: u128, title: &str) -> Track {
    Track {
        id,
        title: title.to_string(),
        artist_id,
        artist_name: String::new(),
        genre: "Jazz".to_string(),
        url: format!("/t/{}", title),
        file_type: "mp3".to_string(),
    }
}

fn state() -> AppState {
    AppState {
        track_collection: TrackCollection {
            artists: vec![
                artist(1, "SYM1"),
                artist(2, "Patrick Amunson"),
                artist(3, "Hans Larson Trio"),
                artist(4, "Kiyan Saifi"),
            ],
            tracks: vec![track(10, 2, "a"), track(11, 1, "b"), track(12, 2, "c")],
        },
    }
}

#[test]
fn artist_lookup_returns_matching_id() {
    let s = state();
    assert_eq!(get_all(&s).len(), 4);
    for id in 1..=4u128 {
        assert_eq!(get_by_id(&s, id).ok().unwrap().id, id);
    }
    assert_eq!(get_by_id(&s, 2).ok().unwrap().name, "Patrick Amunson");
}

#[test]
fn unknown_ids_are_not_found() {
    let s = state();
    assert_eq!(get_by_id(&s, 99).err(), Some(ApiError::ArtistNotFound));
    assert_eq!(get_tracks(&s, 99).err(), Some(ApiError::ArtistNotFound));
    assert!(find_track(&s, 99).is_none());
    let raw = uuid::Uuid::from_u128(99).to_string();
    assert_eq!(get_track_by_id(&s, &raw).err(), Some(ApiError::TrackNotFound));
    assert_eq!(ApiError::TrackNotFound.status(), 404);
    assert_eq!(ApiError::ArtistNotFound.message(), "Artist not found");
}

#[test]
fn malformed_track_id_is_bad_request() {
    let s = state();
    for raw in ["", "not-a-uuid", "12", "zzzzzzzz-zzzz-zzzz-zzzz-zzzzzzzzzzzz"] {
        let e = get_track_by_id(&s, raw).err().unwrap();
        assert_eq!(e, ApiError::InvalidTrackId);
        assert_eq!(e.status(), 400);
        assert_eq!(e.message(), "Invalid track ID format");
    }
}

#[test]
fn track_lookup_parses_every_uuid_form() {
    let s = state();
    let id: u128 = 12;
    let u = uuid::Uuid::from_u128(id);
    for raw in [
        u.hyphenated().to_string(),
        u.simple().to_string(),
        u.braced().to_string(),
        u.urn().to_string(),
    ] {
        let t = get_track_by_id(&s, &raw).ok().unwrap();
        assert_eq!(t.id, 12);
        assert_eq!(t.title, "c");
    }
    assert_eq!(get_all_tracks(&s).len(), 3);
}

#[test]
fn artist_tracks_are_filtered_in_order() {
    let s = state();
    let v = get_tracks(&s, 2).ok().unwrap();
    let ids: Vec<u128> = v.iter().map(|t| t.id).collect();
    assert_eq!(ids, vec![10, 12]);
    let none = get_tracks(&s, 3).ok().unwrap();
    assert!(none.is_empty());
}

#[test]
fn communities_group_known_names() {
    let s = state();
    let c = get_communities(&s);
    assert_eq!(c.len(), 2);
    assert_eq!(c[0].name, "Twin Cities");
    assert_eq!(c[0].artists.len(), 3);
    let twin: Vec<u128> = c[0].artists.iter().map(|a| a.id).collect();
    assert_eq!(twin, vec![1, 2, 3]);
    assert_eq!(c[1].name, "DMV");
    assert_eq!(c[1].artists.len(), 1);
    assert_eq!(c[1].artists[0].name, "Kiyan Saifi");
    assert_eq!(c[1].artists[0].id, 4);
}

#[test]
fn empty_community_is_still_listed() {
    let s = AppState::default();
    let c = get_communities(&s);
    assert_eq!(c.len(), 2);
    assert!(c[0].artists.is_empty());
    assert!(c[1].artists.is_empty());
}

#[test]
fn scanned_catalogue_answers_queries() {
    let service = TrackService::new("assets/tracks", "/api/assets/tracks");
    let dirs = vec![DirListing {
        name: "PatrickAmunson".to_string(),
        files: vec!["Fireye - Rush Hour.m4a".to_string()],
    }];
    let s = AppState { track_collection: service.scan_tracks(Some(&dirs)).ok().unwrap() };
    let patrick = s.track_collection.artists[1].id;
    let v = get_tracks(&s, patrick).ok().unwrap();
    assert_eq!(v.len(), 1);
    assert_eq!(v[0].title, "Rush Hour");
    let hans = s.track_collection.artists[0].id;
    assert!(get_tracks(&s, hans).ok().unwrap().is_empty());
    let raw = uuid::Uuid::from_u128(v[0].id).to_string();
    assert_eq!(get_track_by_id(&s, &raw).ok().unwrap().id, v[0].id);
    let c = get_communities(&s);
    assert_eq!(c[0].artists.len(), 3);
    assert_eq!(c[1].artists.len(), 0);
}
