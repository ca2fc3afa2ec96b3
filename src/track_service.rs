//! Building the catalogue from a listing of the assets directory.
use vstd::prelude::*;
use vstd::set_lib::{lemma_int_range, lemma_len_subset, set_int_range};
use crate::classify::{classification, classify, TrackInfo, KNOWN_ARTISTS};
use crate::models::{has_artist, Artist, Track, TrackCollection};
use crate::text::{strip_suffixes, strip_suffixes_text};

verus! {

/// Declares std::io::Error, which a scan error carries unread.
#[verifier::external_type_specification]
#[verifier::external_body]
pub struct ExIoError(std::io::Error);

/// Why a scan fails.
#[derive(Debug)]
pub enum TrackServiceError {
    /// Reading the directory tree failed.
    Io(std::io::Error),
    /// The base path does not exist; it holds that path.
    InvalidPath(String),
}

/// Builds catalogues from the tracks below a base directory.
pub struct TrackService {
    /// Base path for all track assets.
    pub base_path: String,
    /// Public URL prefix for serving tracks.
    pub url_prefix: String,
}

/// One artist directory directly below the base path: its name and the names
/// of the regular files directly inside it, in enumeration order.
#[derive(Debug, Clone)]
pub struct DirListing {
    pub name: String,
    pub files: Vec<String>,
}

/// The name of seeded artist `k`.
pub open spec fn seed_name(k: int) -> Seq<char> {
    if k == 0 {
        "Hans Larson Trio"@
    } else if k == 1 {
        "Patrick Amunson"@
    } else {
        "SYM1"@
    }
}

/// The biography of seeded artist `k`.
pub open spec fn seed_bio(k: int) -> Seq<char> {
    if k == 0 {
        "A dynamic jazz trio exploring new musical horizons with innovative compositions and improvisation."@
    } else if k == 1 {
        "A versatile musician bringing soulful melodies and rhythmic innovation to contemporary music."@
    } else {
        "An electronic music producer crafting immersive soundscapes and cutting-edge beats."@
    }
}

/// The public URL of file `name` in directory `dir`: the prefix without its
/// trailing slashes, then the path relative to the base, joined by `/`.
pub open spec fn track_url(prefix: Seq<char>, dir: Seq<char>, name: Seq<char>) -> Seq<char> {
    strip_suffixes(prefix, seq!['/']) + seq!['/'] + dir + seq!['/'] + name
}

/// The tracks, without identifiers, that the files of one directory give.
pub open spec fn file_entries(prefix: Seq<char>, dir: Seq<char>, files: Seq<String>) -> Seq<
    (TrackInfo, Seq<char>),
>
    decreases files.len(),
{
    if files.len() == 0 {
        Seq::empty()
    } else {
        let before = file_entries(prefix, dir, files.drop_last());
        match classification(dir, files.last()@) {
            Some(info) => before.push((info, track_url(prefix, dir, files.last()@))),
            None => before,
        }
    }
}

/// The tracks, without identifiers, that a whole listing gives, in order.
pub open spec fn scan_entries(prefix: Seq<char>, dirs: Seq<DirListing>) -> Seq<
    (TrackInfo, Seq<char>),
>
    decreases dirs.len(),
{
    if dirs.len() == 0 {
        Seq::empty()
    } else {
        scan_entries(prefix, dirs.drop_last()) + file_entries(
            prefix,
            dirs.last().name@,
            dirs.last().files@,
        )
    }
}

/// Track `t` is the one that entry `e` describes, crediting an artist of `artists`.
pub open spec fn track_matches(t: Track, e: (TrackInfo, Seq<char>), artists: Seq<Artist>) -> bool {
    &&& t.title@ == e.0.title
    &&& t.artist_name@ == e.0.artist_name
    &&& t.genre@ == e.0.genre
    &&& t.file_type@ == e.0.file_type
    &&& t.url@ == e.1
    &&& e.0.artist < artists.len()
    &&& t.artist_id == artists[e.0.artist as int].id
}

/// `c` is a catalogue that scanning `dirs` with URL prefix `prefix` gives:
/// the seeded artists, and one track per audio file of a known artist's
/// directory, in listing order; identifiers are fresh.
pub open spec fn is_scan_of(c: TrackCollection, prefix: Seq<char>, dirs: Seq<DirListing>) -> bool {
    let entries = scan_entries(prefix, dirs);
    &&& c.wf()
    &&& c.artists@.len() == KNOWN_ARTISTS
    &&& forall|k: int|
        0 <= k < KNOWN_ARTISTS ==> (#[trigger] c.artists@[k]).name@ == seed_name(k)
            && c.artists@[k].bio@ == seed_bio(k)
    &&& c.tracks@.len() == entries.len()
    &&& forall|i: int|
        0 <= i < entries.len() ==> track_matches(#[trigger] c.tracks@[i], entries[i], c.artists@)
}

/// Relies on uuid::Uuid::new_v4, read back with Uuid::as_u128: a random
/// identifier whose version nibble is 4 and whose variant bits are `10`.
#[verifier::external_body]
fn random_id() -> (r: u128)
    ensures
        r & 0xF000_C000_0000_0000_0000u128 == 0x4000_8000_0000_0000_0000u128,
{
    uuid::Uuid::new_v4().as_u128()
}

/// Tells whether `id` is among `ids`.
fn holds_id(ids: &Vec<u128>, id: u128) -> (r: bool)
    ensures
        r == ids@.contains(id),
{
    let mut i: usize = 0;
    while i < ids.len()
        invariant
            i <= ids@.len(),
            forall|j: int| 0 <= j < i ==> ids@[j] != id,
        decreases ids.len() - i,
    {
        if ids[i] == id {
            return true;
        }
        i = i + 1;
    }
    false
}

/// An identifier that is not among `used`: a random one, or, should that
/// collide, the least value that is free.
fn fresh_id(used: &Vec<u128>) -> (r: u128)
    ensures
        !used@.contains(r),
{
    let candidate = random_id();
    if !holds_id(used, candidate) {
        return candidate;
    }
    let n = used.len();
    let mut c: usize = 0;
    while c <= n
        invariant
            n == used@.len(),
            c <= n,
            forall|k: u128| (k as int) < c ==> #[trigger] used@.contains(k),
        decreases n + 1 - c,
    {
        if !holds_id(used, c as u128) {
            return c as u128;
        }
        if c == n {
            proof {
                let ints = used@.map_values(|x: u128| x as int);
                assert(set_int_range(0, n + 1).subset_of(ints.to_set())) by {
                    assert forall|k: int| set_int_range(0, n + 1).contains(k) implies ints.to_set().contains(k) by {
                        assert(used@.contains(k as u128));
                        let j = choose|j: int| 0 <= j < used@.len() && used@[j] == k as u128;
                        assert(ints[j] == k);
                    }
                }
                lemma_int_range(0, n + 1);
                ints.lemma_cardinality_of_set();
                lemma_len_subset(set_int_range(0, n + 1), ints.to_set());
            }
            return c as u128;
        }
        c = c + 1;
    }
    0
}

/// The public URL of file `name` in directory `dir`, from the trimmed prefix.
fn track_url_of(trimmed: &str, dir: &str, name: &str) -> (r: String)
    ensures
        r@ == trimmed@ + seq!['/'] + dir@ + seq!['/'] + name@,
{
    proof {
        reveal_strlit("/");
    }
    trimmed.to_owned().concat("/").concat(dir).concat("/").concat(name)
}

impl TrackService {
    /// A service for the tracks below `base_path`, served under `url_prefix`.
    pub fn new(base_path: &str, url_prefix: &str) -> (r: TrackService)
        ensures
            r.base_path@ == base_path@,
            r.url_prefix@ == url_prefix@,
    {
        TrackService { base_path: base_path.to_owned(), url_prefix: url_prefix.to_owned() }
    }

    /// Builds the catalogue from `listing`, the artist directories found
    /// directly below the base path; `None` stands for a base path that does
    /// not exist.
    pub fn scan_tracks(&self, listing: Option<&Vec<DirListing>>) -> (r: Result<
        TrackCollection,
        TrackServiceError,
    >)
        ensures
            listing is None <==> r is Err,
            r matches Err(TrackServiceError::InvalidPath(p)) ==> p@ == self.base_path@,
            r is Err ==> r matches Err(TrackServiceError::InvalidPath(_)),
            match (r, listing) {
                (Ok(c), Some(dirs)) => is_scan_of(c, self.url_prefix@, dirs@),
                _ => true,
            },
    {
        let dirs = match listing {
            Some(d) => d,
            None => return Err(TrackServiceError::InvalidPath(self.base_path.clone())),
        };
        let mut used: Vec<u128> = Vec::new();
        let hans_id = fresh_id(&used);
        used.push(hans_id);
        let patrick_id = fresh_id(&used);
        used.push(patrick_id);
        let sym1_id = fresh_id(&used);
        used.push(sym1_id);
        assert(used@ == seq![hans_id, patrick_id, sym1_id]);
        let mut artists: Vec<Artist> = Vec::new();
        artists.push(
            Artist {
                id: hans_id,
                name: "Hans Larson Trio".to_owned(),
                bio: "A dynamic jazz trio exploring new musical horizons with innovative compositions and improvisation.".to_owned(),
            },
        );
        artists.push(
            Artist {
                id: patrick_id,
                name: "Patrick Amunson".to_owned(),
                bio: "A versatile musician bringing soulful melodies and rhythmic innovation to contemporary music.".to_owned(),
            },
        );
        artists.push(
            Artist {
                id: sym1_id,
                name: "SYM1".to_owned(),
                bio: "An electronic music producer crafting immersive soundscapes and cutting-edge beats.".to_owned(),
            },
        );
        proof {
            reveal_strlit("/");
            assert("/"@ =~= seq!['/']);
        }
        let trimmed = strip_suffixes_text(self.url_prefix.as_str(), "/");
        let ghost prefix = self.url_prefix@;
        let mut tracks: Vec<Track> = Vec::new();
        let mut d: usize = 0;
        while d < dirs.len()
            invariant
                d <= dirs@.len(),
                trimmed@ == strip_suffixes(prefix, seq!['/']),
                prefix == self.url_prefix@,
                artists@.len() == KNOWN_ARTISTS,
                forall|k: int|
                    0 <= k < KNOWN_ARTISTS ==> (#[trigger] artists@[k]).name@ == seed_name(k)
                        && artists@[k].bio@ == seed_bio(k),
                forall|k: int| 0 <= k < KNOWN_ARTISTS ==> used@.contains((#[trigger] artists@[k]).id),
                forall|i: int, j: int|
                    0 <= i < j < artists@.len() ==> (#[trigger] artists@[i]).id
                        != (#[trigger] artists@[j]).id,
                forall|i: int| 0 <= i < tracks@.len() ==> used@.contains((#[trigger] tracks@[i]).id),
                forall|i: int, j: int|
                    0 <= i < j < tracks@.len() ==> (#[trigger] tracks@[i]).id
                        != (#[trigger] tracks@[j]).id,
                tracks@.len() == scan_entries(prefix, dirs@.subrange(0, d as int)).len(),
                forall|i: int|
                    0 <= i < tracks@.len() ==> track_matches(
                        #[trigger] tracks@[i],
                        scan_entries(prefix, dirs@.subrange(0, d as int))[i],
                        artists@,
                    ),
            decreases dirs.len() - d,
        {
            let dir = &dirs[d];
            let ghost done = scan_entries(prefix, dirs@.subrange(0, d as int));
            let mut f: usize = 0;
            while f < dir.files.len()
                invariant
                    d < dirs@.len(),
                    *dir == dirs@[d as int],
                    f <= dir.files@.len(),
                    trimmed@ == strip_suffixes(prefix, seq!['/']),
                    artists@.len() == KNOWN_ARTISTS,
                    forall|k: int|
                        0 <= k < KNOWN_ARTISTS ==> (#[trigger] artists@[k]).name@ == seed_name(k)
                            && artists@[k].bio@ == seed_bio(k),
                    forall|k: int| 0 <= k < KNOWN_ARTISTS ==> used@.contains((#[trigger] artists@[k]).id),
                    forall|i: int, j: int|
                        0 <= i < j < artists@.len() ==> (#[trigger] artists@[i]).id
                            != (#[trigger] artists@[j]).id,
                    forall|i: int| 0 <= i < tracks@.len() ==> used@.contains((#[trigger] tracks@[i]).id),
                    forall|i: int, j: int|
                        0 <= i < j < tracks@.len() ==> (#[trigger] tracks@[i]).id
                            != (#[trigger] tracks@[j]).id,
                    tracks@.len() == (done + file_entries(
                        prefix,
                        dir.name@,
                        dir.files@.subrange(0, f as int),
                    )).len(),
                    forall|i: int|
                        0 <= i < tracks@.len() ==> track_matches(
                            #[trigger] tracks@[i],
                            (done + file_entries(prefix, dir.name@, dir.files@.subrange(0, f as int)))[i],
                            artists@,
                        ),
                decreases dir.files.len() - f,
            {
                let name = dir.files[f].as_str();
                let ghost before = done + file_entries(prefix, dir.name@, dir.files@.subrange(0, f as int));
                assert(dir.files@.subrange(0, f + 1).drop_last() =~= dir.files@.subrange(0, f as int));
                match classify(dir.name.as_str(), name) {
                    Some(c) => {
                        let id = fresh_id(&used);
                        let url = track_url_of(trimmed, dir.name.as_str(), name);
                        let artist_id = artists[c.artist].id;
                        let track = Track {
                            id,
                            title: c.title,
                            artist_id,
                            artist_name: c.artist_name,
                            genre: c.genre,
                            url,
                            file_type: c.file_type,
                        };
                        let ghost used_before = used@;
                        tracks.push(track);
                        used.push(id);
                        proof {
                            let after = done + file_entries(prefix, dir.name@, dir.files@.subrange(0, f + 1));
                            assert(after =~= before.push((c@, track_url(prefix, dir.name@, name@))));
                            assert forall|i: int| 0 <= i < tracks@.len() implies used@.contains(
                                (#[trigger] tracks@[i]).id,
                            ) by {
                                if i < tracks@.len() - 1 {
                                    let j = choose|j: int| 0 <= j < used_before.len() && used_before[j] == tracks@[i].id;
                                    assert(used@[j] == tracks@[i].id);
                                } else {
                                    assert(used@[used@.len() - 1] == id);
                                }
                            }
                            assert forall|k: int| 0 <= k < KNOWN_ARTISTS implies used@.contains(
                                (#[trigger] artists@[k]).id,
                            ) by {
                                let j = choose|j: int| 0 <= j < used_before.len() && used_before[j] == artists@[k].id;
                                assert(used@[j] == artists@[k].id);
                            }
                        }
                    },
                    None => {
                        proof {
                            let after = done + file_entries(prefix, dir.name@, dir.files@.subrange(0, f + 1));
                            assert(after =~= before);
                        }
                    },
                }
                f = f + 1;
            }
            proof {
                assert(dir.files@.subrange(0, dir.files@.len() as int) =~= dir.files@);
                assert(dirs@.subrange(0, d + 1).drop_last() =~= dirs@.subrange(0, d as int));
            }
            d = d + 1;
        }
        assert(dirs@.subrange(0, dirs@.len() as int) =~= dirs@);
        let c = TrackCollection { artists, tracks };
        proof {
            assert forall|i: int| 0 <= i < c.tracks@.len() implies has_artist(
                c.artists@,
                (#[trigger] c.tracks@[i]).artist_id,
            ) by {
                let e = scan_entries(prefix, dirs@)[i];
                assert(track_matches(c.tracks@[i], e, c.artists@));
                let k = e.0.artist as int;
                assert(0 <= k < c.artists@.len() && c.artists@[k].id == c.tracks@[i].artist_id);
            }
        }
        Ok(c)
    }
}

} // verus!
