//! The communities: fixed, named groups of artists.
use vstd::prelude::*;
use crate::models::{AppState, Artist, ArtistSummary, Community};
use crate::text::same_text;

verus! {

/// An artist of this name belongs to the Twin Cities community.
pub open spec fn in_twin_cities(name: Seq<char>) -> bool {
    name == "SYM1"@ || name == "Patrick Amunson"@ || name == "Hans Larson Trio"@
}

/// An artist of this name belongs to the DMV community.
pub open spec fn in_dmv(name: Seq<char>) -> bool {
    name == "Kiyan Saifi"@
}

/// An artist of this name belongs to the first community (Twin Cities), or
/// with `dmv` to the second (DMV).
pub open spec fn belongs(dmv: bool, name: Seq<char>) -> bool {
    if dmv {
        in_dmv(name)
    } else {
        in_twin_cities(name)
    }
}

/// Identifier and name of each artist of `artists` that belongs to the
/// community, in order.
pub open spec fn members(artists: Seq<Artist>, dmv: bool) -> Seq<(u128, Seq<char>)>
    decreases artists.len(),
{
    if artists.len() == 0 {
        Seq::empty()
    } else {
        let before = members(artists.drop_last(), dmv);
        if belongs(dmv, artists.last().name@) {
            before.push((artists.last().id, artists.last().name@))
        } else {
            before
        }
    }
}

/// Identifier and name of each summary.
pub open spec fn summaries(s: Seq<ArtistSummary>) -> Seq<(u128, Seq<char>)> {
    s.map_values(|a: ArtistSummary| (a.id, a.name@))
}

fn belongs_exec(dmv: bool, name: &str) -> (r: bool)
    ensures
        r == belongs(dmv, name@),
{
    if dmv {
        same_text(name, "Kiyan Saifi")
    } else {
        same_text(name, "SYM1") || same_text(name, "Patrick Amunson") || same_text(
            name,
            "Hans Larson Trio",
        )
    }
}

fn members_of(artists: &Vec<Artist>, dmv: bool) -> (r: Vec<ArtistSummary>)
    ensures
        summaries(r@) == members(artists@, dmv),
{
    let mut out: Vec<ArtistSummary> = Vec::new();
    let mut i: usize = 0;
    while i < artists.len()
        invariant
            i <= artists@.len(),
            summaries(out@) == members(artists@.subrange(0, i as int), dmv),
        decreases artists.len() - i,
    {
        let ghost before = out@;
        assert(artists@.subrange(0, i + 1).drop_last() =~= artists@.subrange(0, i as int));
        let a = &artists[i];
        if belongs_exec(dmv, a.name.as_str()) {
            out.push(ArtistSummary { id: a.id, name: a.name.clone() });
            assert(summaries(out@) =~= summaries(before).push((a.id, a.name@)));
        }
        i = i + 1;
    }
    assert(artists@.subrange(0, artists@.len() as int) =~= artists@);
    out
}

/// The communities, Twin Cities then DMV, each with its artists in catalogue
/// order; a community with no artist is listed too.
pub fn get_communities(data: &AppState) -> (r: Vec<Community>)
    ensures
        r@.len() == 2,
        r@[0].name@ == "Twin Cities"@,
        summaries(r@[0].artists@) == members(data.track_collection.artists@, false),
        r@[1].name@ == "DMV"@,
        summaries(r@[1].artists@) == members(data.track_collection.artists@, true),
{
    let all = &data.track_collection.artists;
    let twin_cities = members_of(all, false);
    let dmv = members_of(all, true);
    let mut r: Vec<Community> = Vec::new();
    r.push(Community { name: "Twin Cities".to_owned(), artists: twin_cities });
    r.push(Community { name: "DMV".to_owned(), artists: dmv });
    r
}

} // verus!
