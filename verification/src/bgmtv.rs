//! The catalog-B side: subject records as the community database
//! describes them, and the request builders for its search endpoint.
//! The network client that posts the requests lives outside the
//! library; these types carry the plain values of its wire format.

use vstd::prelude::*;
use vstd::string::StringExecFns;

verus! {

/// The kind of subject a catalog-B record describes.
#[derive(Debug, Clone, Copy, PartialEq, Eq, Structural)]
pub enum SubjectType {
    Book,
    Anime,
    Music,
    Game,
    Real,
}

/// The numeric code catalog B uses for each subject kind.
pub open spec fn subject_type_code(t: SubjectType) -> u8 {
    match t {
        SubjectType::Book => 1,
        SubjectType::Anime => 2,
        SubjectType::Music => 3,
        SubjectType::Game => 4,
        SubjectType::Real => 6,
    }
}

impl From<SubjectType> for u8 {
    /// The numeric code of a subject kind.
    fn from(t: SubjectType) -> (r: u8) {
        match t {
            SubjectType::Book => 1,
            SubjectType::Anime => 2,
            SubjectType::Music => 3,
            SubjectType::Game => 4,
            SubjectType::Real => 6,
        }
    }
}

impl vstd::std_specs::convert::FromSpecImpl<SubjectType> for u8 {
    open spec fn obeys_from_spec() -> bool {
        true
    }

    open spec fn from_spec(t: SubjectType) -> u8 {
        subject_type_code(t)
    }
}

/// Artwork attached to a subject.
#[derive(Debug, Clone)]
pub struct Images {
    pub large: Option<String>,
    pub common: Option<String>,
    pub medium: Option<String>,
    pub small: Option<String>,
    pub grid: Option<String>,
}

/// Vote tallies per score bucket.
#[derive(Debug, Clone)]
pub struct RatingCount {
    pub score_1: Option<u32>,
    pub score_2: Option<u32>,
    pub score_3: Option<u32>,
    pub score_4: Option<u32>,
    pub score_5: Option<u32>,
    pub score_6: Option<u32>,
    pub score_7: Option<u32>,
    pub score_8: Option<u32>,
    pub score_9: Option<u32>,
    pub score_10: Option<u32>,
}

/// Collection tallies of a subject.
#[derive(Debug, Clone)]
pub struct Collection {
    pub wish: Option<u32>,
    pub collect: Option<u32>,
    pub doing: Option<u32>,
    pub on_hold: Option<u32>,
    pub dropped: Option<u32>,
}

/// A user tag with its count.
#[derive(Debug, Clone)]
pub struct Tag {
    pub name: String,
    pub count: u32,
}

/// A catalog-B subject record, reduced to the plain values the
/// reconciliation logic reads.
#[derive(Debug, Clone)]
pub struct Subject {
    pub id: u64,
    pub subject_type: u8,
    pub name: Option<String>,
    pub name_cn: Option<String>,
    pub summary: Option<String>,
    pub series: Option<bool>,
    pub nsfw: Option<bool>,
    pub locked: Option<bool>,
    pub date: Option<String>,
    pub platform: Option<String>,
    pub images: Option<Images>,
    pub volumes: Option<u32>,
    pub eps: Option<u32>,
    pub total_episodes: Option<u32>,
    pub collection: Option<Collection>,
    pub meta_tags: Option<Vec<String>>,
    pub tags: Option<Vec<Tag>>,
}

/// Restrictions applied to a catalog-B search.
#[derive(Debug, Clone)]
pub struct SearchFilter {
    pub subject_type: Option<Vec<u8>>,
    pub meta_tags: Option<Vec<String>>,
    pub tag: Option<Vec<String>>,
    pub air_date: Option<Vec<String>>,
    pub rating: Option<Vec<String>>,
    pub rating_count: Option<Vec<String>>,
    pub rank: Option<Vec<String>>,
    pub nsfw: Option<bool>,
}

/// A filter with no restrictions.
pub open spec fn filter_empty(f: SearchFilter) -> bool {
    &&& f.subject_type is None
    &&& f.meta_tags is None
    &&& f.tag is None
    &&& f.air_date is None
    &&& f.rating is None
    &&& f.rating_count is None
    &&& f.rank is None
    &&& f.nsfw is None
}

impl SearchFilter {
    /// A filter with no restrictions.
    pub fn new() -> (r: Self)
        ensures
            filter_empty(r),
    {
        SearchFilter {
            subject_type: None,
            meta_tags: None,
            tag: None,
            air_date: None,
            rating: None,
            rating_count: None,
            rank: None,
            nsfw: None,
        }
    }

    /// A filter restricted to one subject kind.
    pub fn with_type(subject_type: SubjectType) -> (r: Self)
        ensures
            r.subject_type matches Some(t) && t.deep_view() == seq![subject_type_code(
                subject_type,
            )],
            r.meta_tags is None,
            r.tag is None,
            r.air_date is None,
            r.rating is None,
            r.rating_count is None,
            r.rank is None,
            r.nsfw is None,
    {
        let mut codes: Vec<u8> = Vec::new();
        codes.push(u8::from(subject_type));
        let mut f = SearchFilter::new();
        f.subject_type = Some(codes);
        proof {
            assert(f.subject_type matches Some(t) && t.deep_view() =~= seq![subject_type_code(
                subject_type,
            )]);
        }
        f
    }

    /// A filter restricted to anime subjects.
    pub fn anime() -> (r: Self)
        ensures
            r.subject_type matches Some(t) && t.deep_view() == seq![subject_type_code(
                SubjectType::Anime,
            )],
            r.meta_tags is None,
            r.tag is None,
            r.air_date is None,
            r.rating is None,
            r.rating_count is None,
            r.rank is None,
            r.nsfw is None,
    {
        SearchFilter::with_type(SubjectType::Anime)
    }

    /// Restricts the air date to `start <= date < end`, written in the
    /// comparison syntax the search endpoint expects.
    pub fn air_date_range(self, start: &str, end: &str) -> (r: Self)
        ensures
            r.air_date matches Some(d) && d.deep_view() == seq![">="@ + start@, "<"@ + end@],
            r.subject_type == self.subject_type,
            r.meta_tags == self.meta_tags,
            r.tag == self.tag,
            r.rating == self.rating,
            r.rating_count == self.rating_count,
            r.rank == self.rank,
            r.nsfw == self.nsfw,
    {
        let mut lower = String::from_str(">=");
        lower.append(start);
        let mut upper = String::from_str("<");
        upper.append(end);
        let mut dates: Vec<String> = Vec::new();
        dates.push(lower);
        dates.push(upper);
        let mut f = self;
        f.air_date = Some(dates);
        proof {
            assert(f.air_date matches Some(d) && d.deep_view() =~= seq![
                ">="@ + start@,
                "<"@ + end@,
            ]);
        }
        f
    }

    /// Asks the search to include not-safe-for-work subjects.
    pub fn include_nsfw(self) -> (r: Self)
        ensures
            r.nsfw == Some(true),
            r.subject_type == self.subject_type,
            r.meta_tags == self.meta_tags,
            r.tag == self.tag,
            r.air_date == self.air_date,
            r.rating == self.rating,
            r.rating_count == self.rating_count,
            r.rank == self.rank,
    {
        let mut f = self;
        f.nsfw = Some(true);
        f
    }
}

/// The order in which search results are returned.
#[derive(Debug, Clone, Copy, PartialEq, Eq, Structural)]
pub enum SortOrder {
    Match,
    Heat,
    Rank,
    Score,
}

impl Default for SortOrder {
    /// Results are ordered by match quality unless asked otherwise.
    fn default() -> (r: Self)
        ensures
            r is Match,
    {
        SortOrder::Match
    }
}

/// A catalog-B search request: a keyword, a sort order, and an
/// optional filter.
#[derive(Debug, Clone)]
pub struct SearchRequest {
    pub keyword: String,
    pub sort: SortOrder,
    pub filter: Option<SearchFilter>,
}

impl SearchRequest {
    /// A request for this keyword, sorted by match quality, with no
    /// filter.
    pub fn new(keyword: &str) -> (r: Self)
        ensures
            r.keyword@ == keyword@,
            r.sort is Match,
            r.filter is None,
    {
        SearchRequest { keyword: keyword.to_owned(), sort: SortOrder::Match, filter: None }
    }

    /// The same request with another sort order.
    pub fn with_sort(self, sort: SortOrder) -> (r: Self)
        ensures
            r.sort == sort,
            r.keyword == self.keyword,
            r.filter == self.filter,
    {
        let mut req = self;
        req.sort = sort;
        req
    }

    /// The same request with a filter attached.
    pub fn with_filter(self, filter: SearchFilter) -> (r: Self)
        ensures
            r.filter == Some(filter),
            r.keyword == self.keyword,
            r.sort == self.sort,
    {
        let mut req = self;
        req.filter = Some(filter);
        req
    }
}

/// One page of search results.
#[derive(Debug, Clone)]
pub struct PagedSubject {
    pub total: u32,
    pub limit: u32,
    pub offset: u32,
    pub data: Vec<Subject>,
}

} // verus!
