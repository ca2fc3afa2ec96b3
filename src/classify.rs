//! The rules that turn an artist directory's name and a file name into a
//! track's title, performer, genre and credited artist.
//!
//! The known artists are numbered in the order the catalogue lists them:
//! 0 is Hans Larson Trio, 1 is Patrick Amunson, 2 is SYM1.
use vstd::prelude::*;
use crate::text::{
    contains, ends_with, find_first, first_index, occurs_at_exec, same_text, strip_suffixes,
    strip_suffixes_text, trim, trim_text,
};

verus! {

/// How many artists the catalogue is seeded with.
pub const KNOWN_ARTISTS: usize = 3;

/// The separator between performer and title in a file name.
pub open spec fn separator() -> Seq<char> {
    " - "@
}

/// The known artist that a directory of this name belongs to.
pub open spec fn directory_artist(dir: Seq<char>) -> Option<usize> {
    if dir == "HansLarsonTrio"@ || dir == "Hans Larson Trio"@ {
        Some(0)
    } else if dir == "PatrickAmunson"@ || dir == "Patrick Amunson"@ {
        Some(1)
    } else if dir == "SYM1"@ {
        Some(2)
    } else {
        None
    }
}

/// The display name of the artist owning a directory.
pub open spec fn display_name(dir: Seq<char>) -> Seq<char> {
    if dir == "HansLarsonTrio"@ {
        "Hans Larson Trio"@
    } else if dir == "PatrickAmunson"@ {
        "Patrick Amunson"@
    } else {
        dir
    }
}

/// The known artist that a performer's name stands for, aliases included.
pub open spec fn alias_artist(performer: Seq<char>) -> Option<usize> {
    if performer == "Hans Larson Trio"@ {
        Some(0)
    } else if performer == "PatrickAmunson"@ || performer == "Patrick Amunson"@
        || performer == "Fireye"@ {
        Some(1)
    } else if performer == "SYM1"@ {
        Some(2)
    } else {
        None
    }
}

/// A title as corrected by the literal title rules.
pub open spec fn corrected_title(performer: Seq<char>, title: Seq<char>) -> Seq<char> {
    if performer == "SYM1"@ && contains(title, "Right 1 4 Me Master"@) {
        "Right 1 4 Me"@
    } else {
        title
    }
}

/// The genre of a track, by its directory, performer and (corrected) title.
pub open spec fn genre_of(dir: Seq<char>, performer: Seq<char>, title: Seq<char>) -> Seq<char> {
    if dir == "HansLarsonTrio"@ {
        if contains(title, "Touch Earth"@) {
            "Jazz Fusion"@
        } else {
            "Jazz"@
        }
    } else if dir == "PatrickAmunson"@ {
        if performer == "Fireye"@ || contains(title, "Rush"@) {
            "Electronic"@
        } else {
            "Pop/Rock"@
        }
    } else if dir == "SYM1"@ {
        "R&B"@
    } else {
        "Other"@
    }
}

/// `name` has the audio extension `ext`: it ends with a dot and `ext`, and
/// something stands before that dot.
pub open spec fn has_extension(name: Seq<char>, ext: Seq<char>) -> bool {
    name.len() > ext.len() + 1 && ends_with(name, seq!['.'] + ext)
}

/// The extension of an audio file's name; none for any other name.
pub open spec fn audio_extension(name: Seq<char>) -> Option<Seq<char>> {
    if has_extension(name, "mp3"@) {
        Some("mp3"@)
    } else if has_extension(name, "m4a"@) {
        Some("m4a"@)
    } else if has_extension(name, "wav"@) {
        Some("wav"@)
    } else {
        None
    }
}

/// Title (before correction) and performer read from a file name with
/// extension `ext`.
pub open spec fn split_name(dir: Seq<char>, name: Seq<char>, ext: Seq<char>) -> (
    Seq<char>,
    Seq<char>,
) {
    if contains(name, separator()) {
        let i = first_index(name, separator());
        (
            strip_suffixes(trim(name.subrange(i + separator().len(), name.len() as int)), seq!['.'] + ext),
            trim(name.subrange(0, i)),
        )
    } else {
        (strip_suffixes(name, seq!['.'] + ext), display_name(dir))
    }
}

/// What the rules derive for one file.
pub struct TrackInfo {
    pub title: Seq<char>,
    pub artist_name: Seq<char>,
    pub genre: Seq<char>,
    pub file_type: Seq<char>,
    /// The credited known artist.
    pub artist: usize,
}

/// What the rules derive for file `name` in directory `dir`: nothing when the
/// directory belongs to no known artist or the file is no audio file.
pub open spec fn classification(dir: Seq<char>, name: Seq<char>) -> Option<TrackInfo> {
    match (directory_artist(dir), audio_extension(name)) {
        (Some(owner), Some(ext)) => {
            let (raw_title, performer) = split_name(dir, name, ext);
            let title = corrected_title(performer, raw_title);
            Some(
                TrackInfo {
                    title,
                    artist_name: performer,
                    genre: genre_of(dir, performer, title),
                    file_type: ext,
                    artist: match alias_artist(performer) {
                        Some(a) => a,
                        None => owner,
                    },
                },
            )
        },
        _ => None,
    }
}

/// A classified file.
pub struct Classified {
    pub title: String,
    pub artist_name: String,
    pub genre: String,
    pub file_type: String,
    /// The credited known artist, below `KNOWN_ARTISTS`.
    pub artist: usize,
}

impl View for Classified {
    type V = TrackInfo;

    open spec fn view(&self) -> TrackInfo {
        TrackInfo {
            title: self.title@,
            artist_name: self.artist_name@,
            genre: self.genre@,
            file_type: self.file_type@,
            artist: self.artist,
        }
    }
}

/// The known artist that a directory of this name belongs to.
pub fn directory_artist_of(dir: &str) -> (r: Option<usize>)
    ensures
        r == directory_artist(dir@),
        r matches Some(a) ==> a < KNOWN_ARTISTS,
{
    if same_text(dir, "HansLarsonTrio") || same_text(dir, "Hans Larson Trio") {
        Some(0)
    } else if same_text(dir, "PatrickAmunson") || same_text(dir, "Patrick Amunson") {
        Some(1)
    } else if same_text(dir, "SYM1") {
        Some(2)
    } else {
        None
    }
}

/// The display name of the artist owning a directory.
pub fn display_name_of(dir: &str) -> (r: String)
    ensures
        r@ == display_name(dir@),
{
    if same_text(dir, "HansLarsonTrio") {
        "Hans Larson Trio".to_owned()
    } else if same_text(dir, "PatrickAmunson") {
        "Patrick Amunson".to_owned()
    } else {
        dir.to_owned()
    }
}

/// The known artist that a performer's name stands for.
pub fn alias_artist_of(performer: &str) -> (r: Option<usize>)
    ensures
        r == alias_artist(performer@),
        r matches Some(a) ==> a < KNOWN_ARTISTS,
{
    if same_text(performer, "Hans Larson Trio") {
        Some(0)
    } else if same_text(performer, "PatrickAmunson") || same_text(performer, "Patrick Amunson")
        || same_text(performer, "Fireye") {
        Some(1)
    } else if same_text(performer, "SYM1") {
        Some(2)
    } else {
        None
    }
}

/// Tells whether `text` contains `part`.
pub fn contains_text(text: &str, part: &str) -> (r: bool)
    ensures
        r == contains(text@, part@),
{
    find_first(text, part).is_some()
}

/// A title as corrected by the literal title rules.
pub fn correct_title(performer: &str, title: String) -> (r: String)
    ensures
        r@ == corrected_title(performer@, title@),
{
    if same_text(performer, "SYM1") && contains_text(title.as_str(), "Right 1 4 Me Master") {
        "Right 1 4 Me".to_owned()
    } else {
        title
    }
}

/// The genre of a track, by its directory, performer and corrected title.
pub fn genre_for(dir: &str, performer: &str, title: &str) -> (r: String)
    ensures
        r@ == genre_of(dir@, performer@, title@),
{
    if same_text(dir, "HansLarsonTrio") {
        if contains_text(title, "Touch Earth") {
            "Jazz Fusion".to_owned()
        } else {
            "Jazz".to_owned()
        }
    } else if same_text(dir, "PatrickAmunson") {
        if same_text(performer, "Fireye") || contains_text(title, "Rush") {
            "Electronic".to_owned()
        } else {
            "Pop/Rock".to_owned()
        }
    } else if same_text(dir, "SYM1") {
        "R&B".to_owned()
    } else {
        "Other".to_owned()
    }
}

/// Tells whether `name` has the extension `ext`.
fn has_extension_exec(name: &str, ext: &str) -> (r: bool)
    ensures
        r == has_extension(name@, ext@),
{
    let n = name.unicode_len();
    let m = ext.unicode_len();
    if n <= m || n - m <= 1 {
        return false;
    }
    let dot_at = n - m - 1;
    let found = name.get_char(dot_at) == '.' && occurs_at_exec(name, ext, n - m);
    proof {
        let tail = name@.subrange(dot_at as int, n as int);
        if found {
            assert(tail =~= seq!['.'] + ext@) by {
                assert(name@.subrange((n - m) as int, n as int) == ext@);
                assert forall|k: int| 0 <= k < tail.len() implies tail[k] == (seq!['.'] + ext@)[k] by {
                    if k > 0 {
                        assert(tail[k] == name@.subrange((n - m) as int, n as int)[k - 1]);
                    }
                }
            }
        } else if ends_with(name@, seq!['.'] + ext@) {
            assert(tail == seq!['.'] + ext@);
            assert(tail[0] == '.');
            assert(name@.subrange((n - m) as int, n as int) =~= tail.subrange(1, tail.len() as int));
            assert(tail.subrange(1, tail.len() as int) =~= ext@);
        }
    }
    found
}

/// The extension of an audio file's name; none for any other name.
pub fn audio_extension_of(name: &str) -> (r: Option<&'static str>)
    ensures
        match r {
            Some(e) => audio_extension(name@) == Some(e@),
            None => audio_extension(name@) is None,
        },
{
    if has_extension_exec(name, "mp3") {
        Some("mp3")
    } else if has_extension_exec(name, "m4a") {
        Some("m4a")
    } else if has_extension_exec(name, "wav") {
        Some("wav")
    } else {
        None
    }
}

/// Applies the rules to file `name` in directory `dir`.
pub fn classify(dir: &str, name: &str) -> (r: Option<Classified>)
    ensures
        match r {
            Some(c) => classification(dir@, name@) == Some(c@) && c.artist < KNOWN_ARTISTS,
            None => classification(dir@, name@) is None,
        },
{
    let owner = match directory_artist_of(dir) {
        Some(a) => a,
        None => return None,
    };
    let ext = match audio_extension_of(name) {
        Some(e) => e,
        None => return None,
    };
    proof {
        reveal_strlit(".");
    }
    let suffix = ".".to_owned().concat(ext);
    assert(suffix@ =~= seq!['.'] + ext@);
    proof {
        reveal_strlit(" - ");
    }
    let (raw_title, performer) = match find_first(name, " - ") {
        Some(i) => {
            let n = name.unicode_len();
            let rest = trim_text(name.substring_char(i + 3, n));
            let title = strip_suffixes_text(rest, suffix.as_str()).to_owned();
            let performer = trim_text(name.substring_char(0, i)).to_owned();
            (title, performer)
        },
        None => (strip_suffixes_text(name, suffix.as_str()).to_owned(), display_name_of(dir)),
    };
    let title = correct_title(performer.as_str(), raw_title);
    let genre = genre_for(dir, performer.as_str(), title.as_str());
    let artist = match alias_artist_of(performer.as_str()) {
        Some(a) => a,
        None => owner,
    };
    Some(Classified { title, artist_name: performer, genre, file_type: ext.to_owned(), artist })
}

} // verus!
