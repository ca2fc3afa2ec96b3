use backend::classify::{audio_extension_of, classify, directory_artist_of, genre_for};

#[test]
fn sym1_master_title_is_corrected() {
    let c = classify("SYM1", "SYM1 - Right 1 4 Me Master.mp3").unwrap();
    assert_eq!(c.title, "Right 1 4 Me");
    assert_eq!(c.artist_name, "SYM1");
    assert_eq!(c.genre, "R&B");
    assert_eq!(c.file_type, "mp3");
    assert_eq!(c.artist, 2);
}

#[test]
fn name_without_separator_uses_directory_artist() {
    let c = classify("HansLarsonTrio", "Touch Earth Jam.wav").unwrap();
    assert_eq!(c.title, "Touch Earth Jam");
    assert_eq!(c.artist_name, "Hans Larson Trio");
    assert_eq!(c.genre, "Jazz Fusion");
    assert_eq!(c.file_type, "wav");
    assert_eq!(c.artist, 0);
}

#[test]
fn fireye_alias_credits_patrick_amunson() {
    let c = classify("PatrickAmunson", "Fireye - Rush Hour.m4a").unwrap();
    assert_eq!(c.title, "Rush Hour");
    assert_eq!(c.artist_name, "Fireye");
    assert_eq!(c.genre, "Electronic");
    assert_eq!(c.file_type, "m4a");
    assert_eq!(c.artist, 1);
}

#[test]
fn other_genres_by_directory() {
    assert_eq!(classify("HansLarsonTrio", "Blue Room.mp3").unwrap().genre, "Jazz");
    assert_eq!(classify("PatrickAmunson", "Sunday.mp3").unwrap().genre, "Pop/Rock");
    assert_eq!(classify("PatrickAmunson", "Rushing.mp3").unwrap().genre, "Electronic");
    // The spaced directory name is known but has no genre rule of its own.
    let c = classify("Hans Larson Trio", "Touch Earth.mp3").unwrap();
    assert_eq!(c.genre, "Other");
    assert_eq!(c.artist_name, "Hans Larson Trio");
    assert_eq!(c.artist, 0);
}

#[test]
fn unknown_performer_keeps_directory_artist() {
    let c = classify("SYM1", "Guest Star - Night Drive.mp3").unwrap();
    assert_eq!(c.artist_name, "Guest Star");
    assert_eq!(c.title, "Night Drive");
    assert_eq!(c.artist, 2);
    assert_eq!(c.genre, "R&B");
}

#[test]
fn split_uses_first_separator_and_trims() {
    let c = classify("PatrickAmunson", "  Patrick Amunson  - A - B .mp3").unwrap();
    assert_eq!(c.artist_name, "Patrick Amunson");
    assert_eq!(c.title, "A - B ");
    assert_eq!(c.artist, 1);
}

#[test]
fn repeated_extension_is_stripped() {
    let c = classify("SYM1", "Loop.mp3.mp3").unwrap();
    assert_eq!(c.title, "Loop");
    assert_eq!(c.file_type, "mp3");
}

#[test]
fn non_audio_files_are_ignored() {
    assert!(classify("SYM1", "cover.jpg").is_none());
    assert!(classify("SYM1", "song.MP3").is_none());
    assert!(classify("SYM1", ".mp3").is_none());
    assert!(classify("SYM1", "notes").is_none());
    assert_eq!(audio_extension_of("..mp3"), Some("mp3"));
    assert_eq!(audio_extension_of("a.m4a"), Some("m4a"));
    assert_eq!(audio_extension_of("a.wav.txt"), None);
}

#[test]
fn unknown_directory_gives_no_track() {
    assert!(classify("Kiyan Saifi", "Live at Rhizome.m4a").is_none());
    assert_eq!(directory_artist_of("Unknown Artist"), None);
    assert_eq!(directory_artist_of("Patrick Amunson"), Some(1));
}

#[test]
fn genre_falls_back_to_other() {
    assert_eq!(genre_for("Elsewhere", "Someone", "Anything"), "Other");
}
