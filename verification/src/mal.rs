//! The catalog-A side: the season enumeration and the shape of a
//! seasonal listing as the source hands it over. The network client
//! that fetches listings lives outside the library; these types carry
//! the plain values its responses decode to.

use vstd::prelude::*;

verus! {

/// One quarter of a broadcast year.
#[derive(Debug, Clone, Copy, PartialEq, Eq, Structural)]
pub enum Season {
    Winter,
    Spring,
    Summer,
    Fall,
}

/// The lower-case name of a season, as it appears in period labels and
/// query paths.
pub open spec fn season_name(s: Season) -> Seq<char> {
    match s {
        Season::Winter => "winter"@,
        Season::Spring => "spring"@,
        Season::Summer => "summer"@,
        Season::Fall => "fall"@,
    }
}

impl Season {
    /// The lower-case name of the season.
    pub fn as_str(&self) -> (s: &'static str)
        ensures
            s@ == season_name(*self),
    {
        match self {
            Season::Winter => "winter",
            Season::Spring => "spring",
            Season::Summer => "summer",
            Season::Fall => "fall",
        }
    }
}

/// Alternative titles of one listing entry.
#[derive(Debug, Clone)]
pub struct AlternativeTitles {
    pub en: Option<String>,
    pub ja: Option<String>,
    pub synonyms: Vec<String>,
}

/// The period under which an entry first aired.
#[derive(Debug, Clone)]
pub struct StartSeason {
    pub year: u32,
    pub season: Season,
}

/// Broadcast slot of an entry.
#[derive(Debug, Clone)]
pub struct Broadcast {
    pub day_of_the_week: Option<String>,
    pub start_time: Option<String>,
}

/// A production studio.
#[derive(Debug, Clone)]
pub struct Studio {
    pub id: u64,
    pub name: String,
}

/// Artwork attached to an entry.
#[derive(Debug, Clone)]
pub struct MainPicture {
    pub medium: String,
    pub large: String,
}

/// One entry of the seasonal listing, as catalog A describes it.
#[derive(Debug, Clone)]
pub struct AnimeNode {
    pub id: u64,
    pub title: String,
    pub main_picture: Option<MainPicture>,
    pub alternative_titles: Option<AlternativeTitles>,
    pub start_date: Option<String>,
    pub end_date: Option<String>,
    pub synopsis: Option<String>,
    pub media_type: Option<String>,
    pub status: Option<String>,
    pub num_episodes: Option<u32>,
    pub start_season: Option<StartSeason>,
    pub broadcast: Option<Broadcast>,
    pub source: Option<String>,
    pub studios: Vec<Studio>,
    pub rating: Option<String>,
}

/// One element of a listing page.
#[derive(Debug, Clone)]
pub struct AnimeEntry {
    pub node: AnimeNode,
}

/// Pagination cursors of a listing page.
#[derive(Debug, Clone)]
pub struct Paging {
    pub next: Option<String>,
    pub previous: Option<String>,
}

/// The period a listing page belongs to.
#[derive(Debug, Clone)]
pub struct SeasonInfo {
    pub year: u32,
    pub season: Season,
}

/// One page of a seasonal listing.
#[derive(Debug, Clone)]
pub struct SeasonalAnimeResponse {
    pub data: Vec<AnimeEntry>,
    pub paging: Paging,
    pub season: Option<SeasonInfo>,
}

/// Unwraps a page of listing elements to the nodes they carry,
/// preserving order.
pub fn collect_nodes(entries: Vec<AnimeEntry>) -> (nodes: Vec<AnimeNode>)
    ensures
        nodes@.len() == entries@.len(),
        forall|i: int| 0 <= i < entries@.len() ==> nodes@[i] == entries@[i].node,
{
    let ghost orig = entries@;
    let mut rest = entries;
    let mut nodes: Vec<AnimeNode> = Vec::new();
    while rest.len() > 0
        invariant
            nodes@.len() + rest@.len() == orig.len(),
            forall|i: int| 0 <= i < nodes@.len() ==> nodes@[i] == orig[i].node,
            forall|j: int| 0 <= j < rest@.len() ==> rest@[j] == orig[nodes@.len() + j],
        decreases rest@.len(),
    {
        let e = rest.remove(0);
        nodes.push(e.node);
    }
    nodes
}

} // verus!
