use backend::track_service::{DirListing, TrackService, TrackServiceError};

fn listing(dirs: &[(&str, &[&str])]) -> Vec<DirListing> {
    dirs.iter()
        .map(|(name, files)| DirListing {
            name: name.to_string(),
            files: files.iter().map(|f| f.to_string()).collect(),
        })
        .collect()
}

fn sample() -> Vec<DirListing> {
    listing(&[
        ("SYM1", &["SYM1 - Right 1 4 Me Master.mp3", "cover.jpg"]),
        ("Strangers", &["Song.mp3"]),
        ("HansLarsonTrio", &["Touch Earth Jam.wav"]),
        ("PatrickAmunson", &["Fireye - Rush Hour.m4a", "Sunday.mp3"]),
    ])
}

#[test]
fn new_keeps_path_and_prefix() {
    let s = TrackService::new("assets/tracks", "/api/assets/tracks");
    assert_eq!(s.base_path, "assets/tracks");
    assert_eq!(s.url_prefix, "/api/assets/tracks");
}

#[test]
fn missing_base_path_is_an_error() {
    let s = TrackService::new("nowhere/tracks", "/api/assets/tracks");
    match s.scan_tracks(None) {
        Err(TrackServiceError::InvalidPath(p)) => assert_eq!(p, "nowhere/tracks"),
        _ => panic!("expected an invalid path"),
    }
}

#[test]
fn scan_seeds_artists_and_classifies_files() {
    let s = TrackService::new("assets/tracks", "/api/assets/tracks/");
    let dirs = sample();
    let c = s.scan_tracks(Some(&dirs)).ok().unwrap();
    let names: Vec<&str> = c.artists.iter().map(|a| a.name.as_str()).collect();
    assert_eq!(names, vec!["Hans Larson Trio", "Patrick Amunson", "SYM1"]);
    assert!(c.artists[0].bio.starts_with("A dynamic jazz trio"));
    assert_eq!(c.tracks.len(), 4);
    let t = &c.tracks[0];
    assert_eq!(t.title, "Right 1 4 Me");
    assert_eq!(t.url, "/api/assets/tracks/SYM1/SYM1 - Right 1 4 Me Master.mp3");
    assert_eq!(t.artist_id, c.artists[2].id);
    assert_eq!(c.tracks[1].title, "Touch Earth Jam");
    assert_eq!(c.tracks[1].artist_id, c.artists[0].id);
    let fireye = &c.tracks[2];
    assert_eq!(fireye.artist_name, "Fireye");
    assert_eq!(fireye.genre, "Electronic");
    assert_eq!(fireye.artist_id, c.artists[1].id);
    assert_eq!(c.tracks[3].genre, "Pop/Rock");
    assert_eq!(c.tracks[3].url, "/api/assets/tracks/PatrickAmunson/Sunday.mp3");
}

#[test]
fn identifiers_are_unique_random_uuids() {
    let s = TrackService::new("assets/tracks", "/p");
    let dirs = sample();
    let c = s.scan_tracks(Some(&dirs)).ok().unwrap();
    let mut ids: Vec<u128> = c.artists.iter().map(|a| a.id).collect();
    ids.extend(c.tracks.iter().map(|t| t.id));
    for id in &ids {
        assert_eq!((id >> 76) & 0xF, 4);
        assert_eq!((id >> 62) & 0x3, 2);
    }
    let mut sorted = ids.clone();
    sorted.sort();
    sorted.dedup();
    assert_eq!(sorted.len(), ids.len());
}

#[test]
fn rescan_reproduces_everything_but_ids() {
    let s = TrackService::new("assets/tracks", "/api/assets/tracks");
    let dirs = sample();
    let a = s.scan_tracks(Some(&dirs)).ok().unwrap();
    let b = s.scan_tracks(Some(&dirs)).ok().unwrap();
    assert_eq!(a.artists.len(), b.artists.len());
    assert_eq!(a.tracks.len(), b.tracks.len());
    for (x, y) in a.tracks.iter().zip(b.tracks.iter()) {
        assert_eq!(x.title, y.title);
        assert_eq!(x.genre, y.genre);
        assert_eq!(x.url, y.url);
        assert_eq!(x.artist_name, y.artist_name);
        assert_eq!(x.file_type, y.file_type);
    }
    assert_ne!(a.artists[0].id, b.artists[0].id);
}

#[test]
fn unknown_directory_adds_nothing() {
    let s = TrackService::new("assets/tracks", "/p");
    let only_unknown = listing(&[("Kiyan Saifi", &["Live at Rhizome.m4a"]), ("Misc", &["a.mp3"])]);
    let c = s.scan_tracks(Some(&only_unknown)).ok().unwrap();
    assert_eq!(c.artists.len(), 3);
    assert_eq!(c.tracks.len(), 0);
    let empty = s.scan_tracks(Some(&Vec::new())).ok().unwrap();
    assert_eq!(empty.artists.len(), 3);
    assert_eq!(empty.tracks.len(), 0);
}
