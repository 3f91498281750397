//! The reconciliation data model: how a link between a catalog-A entry
//! and a catalog-B entry is recorded, and the period-level result set
//! those records live in.

use vstd::prelude::*;
use vstd::string::StringExecFns;
use std::collections::HashSet;

use crate::mal::{AnimeNode, Season, season_name};
use crate::text::{dec_digits, str_eq, u64_to_string};

verus! {

broadcast use vstd::std_specs::hash::group_hash_axioms;

/// How a link between a catalog-A entry and a catalog-B entry was
/// established.
#[derive(Debug, Clone, Copy, PartialEq, Eq, Structural)]
pub enum ConfirmStatus {
    /// No accepted link; candidates may be attached for later review.
    Unconfirmed,
    /// The native-language title equals a candidate's primary name.
    Match,
    /// A model-assisted disambiguation selected exactly one candidate.
    Model,
    /// A manual override; never produced here, always preserved.
    Human,
}

/// A status counts as confirmed exactly when it is not `Unconfirmed`.
pub open spec fn status_confirmed(s: ConfirmStatus) -> bool {
    !(s is Unconfirmed)
}

impl ConfirmStatus {
    /// Whether the status records an accepted link.
    pub fn is_confirmed(&self) -> (r: bool)
        ensures
            r == status_confirmed(*self),
    {
        match self {
            ConfirmStatus::Unconfirmed => false,
            _ => true,
        }
    }
}

impl Default for ConfirmStatus {
    /// A fresh link starts unconfirmed.
    fn default() -> (r: Self)
        ensures
            r is Unconfirmed,
    {
        ConfirmStatus::Unconfirmed
    }
}

/// Audience rating, collapsed from the source's finer vocabulary.
#[derive(Debug, Clone, Copy, PartialEq, Eq, Structural)]
pub enum Rating {
    Kids,
    General,
    R18,
}

/// The collapse of a raw source rating: `g` and `pg` are for kids,
/// `r+` and `rx` are adult, everything else (or no rating) is general.
pub open spec fn rating_code(r: Option<Seq<char>>) -> Rating {
    match r {
        Some(s) => if s == "g"@ || s == "pg"@ {
            Rating::Kids
        } else if s == "r+"@ || s == "rx"@ {
            Rating::R18
        } else {
            Rating::General
        },
        None => Rating::General,
    }
}

impl Rating {
    /// Collapses a raw source rating string.
    pub fn from_mal(rating: Option<&str>) -> (r: Self)
        ensures
            r == rating_code(rating.deep_view()),
    {
        match rating {
            Some(s) => {
                if str_eq(s, "g") || str_eq(s, "pg") {
                    Rating::Kids
                } else if str_eq(s, "r+") || str_eq(s, "rx") {
                    Rating::R18
                } else {
                    Rating::General
                }
            },
            None => Rating::General,
        }
    }
}

/// The closed classification set of media kinds that become records.
#[derive(Debug, Clone, Copy, PartialEq, Eq, Structural)]
pub enum MediaType {
    Tv,
    Ova,
    Ona,
    Movie,
    Special,
    TvSpecial,
}

/// The normalization of a raw media-type string. `None` means the
/// entry lies outside the closed set (music, promotional videos, ...)
/// and is to be skipped entirely.
pub open spec fn media_code(m: Option<Seq<char>>) -> Option<MediaType> {
    match m {
        Some(s) => if s == "tv"@ {
            Some(MediaType::Tv)
        } else if s == "ova"@ {
            Some(MediaType::Ova)
        } else if s == "ona"@ {
            Some(MediaType::Ona)
        } else if s == "movie"@ {
            Some(MediaType::Movie)
        } else if s == "special"@ {
            Some(MediaType::Special)
        } else if s == "tv_special"@ {
            Some(MediaType::TvSpecial)
        } else {
            None
        },
        None => None,
    }
}

impl MediaType {
    /// Normalizes a raw media-type string; `None` means skip the entry.
    pub fn from_mal(media_type: Option<&str>) -> (r: Option<Self>)
        ensures
            r == media_code(media_type.deep_view()),
    {
        match media_type {
            Some(s) => {
                if str_eq(s, "tv") {
                    Some(MediaType::Tv)
                } else if str_eq(s, "ova") {
                    Some(MediaType::Ova)
                } else if str_eq(s, "ona") {
                    Some(MediaType::Ona)
                } else if str_eq(s, "movie") {
                    Some(MediaType::Movie)
                } else if str_eq(s, "special") {
                    Some(MediaType::Special)
                } else if str_eq(s, "tv_special") {
                    Some(MediaType::TvSpecial)
                } else {
                    None
                }
            },
            None => None,
        }
    }
}

/// The catalog-A half of a link record, immutable per fetch.
#[derive(Debug, Clone)]
pub struct MalInfo {
    pub id: u64,
    pub title: String,
    pub title_ja: Option<String>,
    pub media_type: MediaType,
    pub rating: Rating,
}

/// Mathematical image of a `MalInfo`.
pub ghost struct MalInfoView {
    pub id: u64,
    pub title: Seq<char>,
    pub title_ja: Option<Seq<char>>,
    pub media_type: MediaType,
    pub rating: Rating,
}

impl DeepView for MalInfo {
    type V = MalInfoView;

    open spec fn deep_view(&self) -> MalInfoView {
        MalInfoView {
            id: self.id,
            title: self.title@,
            title_ja: self.title_ja.deep_view(),
            media_type: self.media_type,
            rating: self.rating,
        }
    }
}

/// The native-language title a listing node carries, if any.
pub open spec fn node_title_ja(node: AnimeNode) -> Option<Seq<char>> {
    match node.alternative_titles {
        Some(t) => match t.ja {
            Some(j) => Some(j@),
            None => None,
        },
        None => None,
    }
}

/// The raw media-type string of a listing node.
pub open spec fn node_media(node: AnimeNode) -> Option<Seq<char>> {
    match node.media_type {
        Some(m) => Some(m@),
        None => None,
    }
}

/// The raw rating string of a listing node.
pub open spec fn node_rating(node: AnimeNode) -> Option<Seq<char>> {
    match node.rating {
        Some(r) => Some(r@),
        None => None,
    }
}

/// The record a retained listing node normalizes to. Meaningful only
/// when `media_code(node_media(node))` is `Some`.
pub open spec fn mal_view_of(node: AnimeNode) -> MalInfoView {
    MalInfoView {
        id: node.id,
        title: node.title@,
        title_ja: node_title_ja(node),
        media_type: match media_code(node_media(node)) {
            Some(m) => m,
            None => MediaType::Tv,
        },
        rating: rating_code(node_rating(node)),
    }
}

/// Borrows the contents of an optional string.
pub fn opt_as_deref(o: &Option<String>) -> (r: Option<&str>)
    ensures
        r.deep_view() == o.deep_view(),
{
    match o {
        Some(s) => Some(s.as_str()),
        None => None,
    }
}

impl MalInfo {
    /// Normalizes one listing node; `None` means its media kind lies
    /// outside the closed classification set and the entry is skipped.
    pub fn from_anime_node(node: &AnimeNode) -> (r: Option<Self>)
        ensures
            (r is Some) == (media_code(node_media(*node)) is Some),
            r matches Some(info) ==> info.deep_view() == mal_view_of(*node),
    {
        let media_type = match MediaType::from_mal(opt_as_deref(&node.media_type)) {
            Some(m) => m,
            None => {
                return None;
            },
        };
        let rating = Rating::from_mal(opt_as_deref(&node.rating));
        let title_ja = match &node.alternative_titles {
            Some(t) => match &t.ja {
                Some(j) => Some(j.clone()),
                None => None,
            },
            None => None,
        };
        Some(MalInfo { id: node.id, title: node.title.clone(), title_ja, media_type, rating })
    }
}

/// A proposed catalog-B counterpart, produced transiently by search.
#[derive(Debug, Clone)]
pub struct BgmCandidate {
    pub bgm_id: u64,
    pub bgm_name: String,
    pub bgm_name_cn: Option<String>,
}

/// Mathematical image of a `BgmCandidate`.
pub ghost struct CandidateView {
    pub bgm_id: u64,
    pub bgm_name: Seq<char>,
    pub bgm_name_cn: Option<Seq<char>>,
}

impl DeepView for BgmCandidate {
    type V = CandidateView;

    open spec fn deep_view(&self) -> CandidateView {
        CandidateView {
            bgm_id: self.bgm_id,
            bgm_name: self.bgm_name@,
            bgm_name_cn: self.bgm_name_cn.deep_view(),
        }
    }
}

/// One row of a result set: the link (or absence of one) for a single
/// catalog-A entry.
#[derive(Debug, Clone)]
pub struct SeasonItem {
    pub status: ConfirmStatus,
    pub bgm_id: Option<u64>,
    pub bgm_name: Option<String>,
    pub bgm_name_cn: Option<String>,
    pub candidates: Vec<BgmCandidate>,
    pub mal: MalInfo,
}

/// Mathematical image of a `SeasonItem`.
pub ghost struct ItemView {
    pub status: ConfirmStatus,
    pub bgm_id: Option<u64>,
    pub bgm_name: Option<Seq<char>>,
    pub bgm_name_cn: Option<Seq<char>>,
    pub candidates: Seq<CandidateView>,
    pub mal: MalInfoView,
}

impl DeepView for SeasonItem {
    type V = ItemView;

    open spec fn deep_view(&self) -> ItemView {
        ItemView {
            status: self.status,
            bgm_id: self.bgm_id,
            bgm_name: self.bgm_name.deep_view(),
            bgm_name_cn: self.bgm_name_cn.deep_view(),
            candidates: self.candidates.deep_view(),
            mal: self.mal.deep_view(),
        }
    }
}

/// Well-formedness of one link record: the resolved catalog-B fields
/// are present exactly when the link is confirmed, and a confirmed
/// record keeps no candidate list.
pub open spec fn item_wf(it: ItemView) -> bool {
    &&& status_confirmed(it.status) ==> it.bgm_id is Some && it.bgm_name is Some
        && it.candidates.len() == 0
    &&& !status_confirmed(it.status) ==> it.bgm_id is None && it.bgm_name is None
        && it.bgm_name_cn is None
}

/// The unit of persistence: one period's ordered list of link records.
#[derive(Debug, Clone)]
pub struct SeasonData {
    pub season: String,
    pub update_time: String,
    pub items: Vec<SeasonItem>,
}

/// Mathematical image of a `SeasonData`.
pub ghost struct SeasonDataView {
    pub season: Seq<char>,
    pub update_time: Seq<char>,
    pub items: Seq<ItemView>,
}

impl DeepView for SeasonData {
    type V = SeasonDataView;

    open spec fn deep_view(&self) -> SeasonDataView {
        SeasonDataView {
            season: self.season@,
            update_time: self.update_time@,
            items: self.items.deep_view(),
        }
    }
}

/// No two records of the sequence share a catalog-A identifier.
pub open spec fn ids_unique(items: Seq<ItemView>) -> bool {
    forall|i: int, j: int|
        0 <= i < j < items.len() ==> #[trigger] items[i].mal.id != #[trigger] items[j].mal.id
}

/// Whether some record of the sequence carries this catalog-A
/// identifier.
pub open spec fn has_id(items: Seq<ItemView>, id: u64) -> bool {
    exists|i: int| 0 <= i < items.len() && #[trigger] items[i].mal.id == id
}

/// Whether some confirmed record among the first `n` carries this
/// catalog-A identifier.
pub open spec fn id_confirmed_before(items: Seq<ItemView>, n: int, id: u64) -> bool {
    exists|k: int|
        0 <= k < n && #[trigger] items[k].mal.id == id && status_confirmed(items[k].status)
}

/// Whether some confirmed record of the sequence carries this
/// catalog-A identifier.
pub open spec fn id_confirmed_in(items: Seq<ItemView>, id: u64) -> bool {
    id_confirmed_before(items, items.len() as int, id)
}

/// The period label `<year>-<season>`.
pub open spec fn season_label(year: u32, season: Season) -> Seq<char> {
    dec_digits(year as nat) + "-"@ + season_name(season)
}

/// Relies on chrono's `Local::now` and its `format`: the current local
/// time rendered as an ISO-8601 timestamp with offset. The result
/// depends on the clock, so nothing is promised of it.
#[verifier::external_body]
fn now_timestamp() -> String {
    chrono::Local::now().fixed_offset().format("%Y-%m-%dT%H:%M:%S%:z").to_string()
}

impl SeasonData {
    /// A fresh, empty result set for the given period, stamped with the
    /// current local time.
    pub fn new(year: u32, season: Season) -> (d: Self)
        ensures
            d.season@ == season_label(year, season),
            d.items@.len() == 0,
    {
        let mut label = u64_to_string(year as u64);
        label.append("-");
        label.append(season.as_str());
        SeasonData { season: label, update_time: now_timestamp(), items: Vec::new() }
    }

    /// The set of catalog-A identifiers whose links are already
    /// confirmed; re-running reconciliation must never disturb these.
    pub fn confirmed_mal_ids(&self) -> (ids: HashSet<u64>)
        ensures
            forall|id: u64| #[trigger]
                ids@.contains(id) <==> id_confirmed_in(self.items.deep_view(), id),
    {
        let mut ids: HashSet<u64> = HashSet::new();
        let mut i: usize = 0;
        while i < self.items.len()
            invariant
                i <= self.items.len(),
                forall|id: u64| #[trigger]
                    ids@.contains(id) <==> id_confirmed_before(
                        self.items.deep_view(),
                        i as int,
                        id,
                    ),
            decreases self.items.len() - i,
        {
            let ghost items = self.items.deep_view();
            let ghost pre = ids@;
            let ghost n = i as int;
            let item = &self.items[i];
            if item.status.is_confirmed() {
                ids.insert(item.mal.id);
            }
            proof {
                assert forall|id: u64| #[trigger]
                    ids@.contains(id) <==> id_confirmed_before(items, n + 1, id) by {
                    if ids@.contains(id) {
                        if pre.contains(id) {
                            let k = choose|k: int|
                                0 <= k < n && #[trigger] items[k].mal.id == id
                                    && status_confirmed(items[k].status);
                            assert(items[k].mal.id == id && status_confirmed(items[k].status));
                        } else {
                            assert(items[n].mal.id == id && status_confirmed(items[n].status));
                        }
                    }
                    if id_confirmed_before(items, n + 1, id) {
                        let k = choose|k: int|
                            0 <= k < n + 1 && #[trigger] items[k].mal.id == id
                                && status_confirmed(items[k].status);
                        if k < n {
                            assert(id_confirmed_before(items, n, id));
                        } else {
                            assert(items[n].mal.id == id);
                        }
                    }
                };
            }
            i = i + 1;
        }
        ids
    }
}

/// The scoped search window of a period, as an inclusive start date and
/// inclusive end date.
pub open spec fn date_range_start(year: u32, season: Season) -> Seq<char> {
    match season {
        Season::Winter => dec_digits((year - 1) as nat) + "-12-01"@,
        Season::Spring => dec_digits(year as nat) + "-03-01"@,
        Season::Summer => dec_digits(year as nat) + "-06-01"@,
        Season::Fall => dec_digits(year as nat) + "-09-01"@,
    }
}

/// The end of a period's scoped search window.
pub open spec fn date_range_end(year: u32, season: Season) -> Seq<char> {
    match season {
        Season::Winter => dec_digits(year as nat) + "-03-31"@,
        Season::Spring => dec_digits(year as nat) + "-06-30"@,
        Season::Summer => dec_digits(year as nat) + "-09-30"@,
        Season::Fall => dec_digits(year as nat) + "-12-31"@,
    }
}

fn year_with_suffix(year: u32, suffix: &str) -> (s: String)
    ensures
        s@ == dec_digits(year as nat) + suffix@,
{
    let mut s = u64_to_string(year as u64);
    s.append(suffix);
    s
}

/// The date window used to scope catalog-B search for a period. Winter
/// reaches back into December of the previous year, so the year must be
/// positive.
pub fn season_date_range(year: u32, season: Season) -> (r: (String, String))
    requires
        year >= 1,
    ensures
        r.0@ == date_range_start(year, season),
        r.1@ == date_range_end(year, season),
{
    match season {
        Season::Winter => (year_with_suffix(year - 1, "-12-01"), year_with_suffix(year, "-03-31")),
        Season::Spring => (year_with_suffix(year, "-03-01"), year_with_suffix(year, "-06-30")),
        Season::Summer => (year_with_suffix(year, "-06-01"), year_with_suffix(year, "-09-30")),
        Season::Fall => (year_with_suffix(year, "-09-01"), year_with_suffix(year, "-12-31")),
    }
}

} // verus!
