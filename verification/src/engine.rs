//! The reconciliation engine: the decision logic of one period run.
//!
//! A run walks the catalog-A listing in order. Each retained entry is
//! either carried forward verbatim from the prior result set (when its
//! link is already confirmed), or classified through the cascade
//! exact match -> model-assisted -> unresolved. The engine is a state
//! machine: the caller performs the outside work (the scoped search,
//! the unscoped retry, the model call) and feeds the plain results
//! back; every decision between those calls is made, and proved, here.

use vstd::prelude::*;

use crate::bgmtv::Subject;
use crate::mal::{AnimeNode, Season};
use crate::model::{
    BgmCandidate, CandidateView, ConfirmStatus, ItemView, MalInfo, MalInfoView, SeasonData,
    SeasonItem, has_id, id_confirmed_in, ids_unique, mal_view_of, media_code, node_media,
    opt_as_deref, season_label, status_confirmed,
};
use crate::ds::{build_match_input, match_input};
use crate::text::str_eq;

verus! {

/// Whether a listing node is announced under this very period;
/// continuing entries first aired under an earlier one are skipped.
pub open spec fn node_is_new(node: AnimeNode, year: u32, season: Season) -> bool {
    match node.start_season {
        Some(s) => s.year == year && s.season == season,
        None => false,
    }
}

/// Whether a listing node becomes a record at all: announced under
/// this period and classified inside the closed media set.
pub open spec fn node_retained(node: AnimeNode, year: u32, season: Season) -> bool {
    node_is_new(node, year, season) && media_code(node_media(node)) is Some
}

/// The candidate a search hit reduces to: identifier, primary name
/// (empty when the hit carries none), optional localized name.
pub open spec fn candidate_of_subject(s: Subject) -> CandidateView {
    CandidateView {
        bgm_id: s.id,
        bgm_name: match s.name {
            Some(n) => n@,
            None => Seq::<char>::empty(),
        },
        bgm_name_cn: match s.name_cn {
            Some(cn) => Some(cn@),
            None => None,
        },
    }
}

/// The candidates a page of search hits reduces to, in order.
pub open spec fn candidates_of_subjects(subs: Seq<Subject>) -> Seq<CandidateView> {
    subs.map_values(|s: Subject| candidate_of_subject(s))
}

/// The keyword an entry is searched under: the native-language title
/// when present, else the display title.
pub open spec fn keyword_of(m: MalInfoView) -> Seq<char> {
    match m.title_ja {
        Some(j) => j,
        None => m.title,
    }
}

/// The first candidate whose primary name equals the native title
/// exactly (ordinal comparison, no normalization); `None` when the
/// entry has no native title.
pub open spec fn exact_idx(cands: Seq<CandidateView>, ja: Option<Seq<char>>) -> Option<int>
    decreases cands.len(),
{
    if cands.len() == 0 {
        None
    } else if ja == Some(cands[0].bgm_name) {
        Some(0)
    } else {
        match exact_idx(cands.drop_first(), ja) {
            Some(i) => Some(i + 1),
            None => None,
        }
    }
}

/// The first candidate carrying this catalog-B identifier.
pub open spec fn first_with_id(cands: Seq<CandidateView>, id: u64) -> Option<int>
    decreases cands.len(),
{
    if cands.len() == 0 {
        None
    } else if cands[0].bgm_id == id {
        Some(0)
    } else {
        match first_with_id(cands.drop_first(), id) {
            Some(i) => Some(i + 1),
            None => None,
        }
    }
}

/// The first record of the prior result set carrying this catalog-A
/// identifier.
pub open spec fn first_item_with_id(items: Seq<ItemView>, id: u64) -> Option<int>
    decreases items.len(),
{
    if items.len() == 0 {
        None
    } else if items[0].mal.id == id {
        Some(0)
    } else {
        match first_item_with_id(items.drop_first(), id) {
            Some(i) => Some(i + 1),
            None => None,
        }
    }
}

/// An unresolved record: no link, the candidate list attached for
/// later manual review.
pub open spec fn unconfirmed_item(m: MalInfoView, cands: Seq<CandidateView>) -> ItemView {
    ItemView {
        status: ConfirmStatus::Unconfirmed,
        bgm_id: None,
        bgm_name: None,
        bgm_name_cn: None,
        candidates: cands,
        mal: m,
    }
}

/// A record accepted for this candidate, with the given status.
pub open spec fn accepted_item(m: MalInfoView, status: ConfirmStatus, c: CandidateView) -> ItemView {
    ItemView {
        status: status,
        bgm_id: Some(c.bgm_id),
        bgm_name: Some(c.bgm_name),
        bgm_name_cn: c.bgm_name_cn,
        candidates: Seq::<CandidateView>::empty(),
        mal: m,
    }
}

/// The classification cascade for one new entry, over the candidates
/// the search produced and the model's selection, if any. An exact
/// native-title match wins outright; otherwise a model selection that
/// names one of the candidates is accepted; otherwise the entry stays
/// unresolved with its candidates attached.
pub open spec fn classify_v(
    m: MalInfoView,
    cands: Seq<CandidateView>,
    choice: Option<u64>,
) -> ItemView {
    match exact_idx(cands, m.title_ja) {
        Some(i) => accepted_item(m, ConfirmStatus::Match, cands[i]),
        None => if cands.len() > 0 {
            match choice {
                Some(id) => match first_with_id(cands, id) {
                    Some(i) => accepted_item(m, ConfirmStatus::Model, cands[i]),
                    None => unconfirmed_item(m, cands),
                },
                None => unconfirmed_item(m, cands),
            }
        } else {
            unconfirmed_item(m, cands)
        },
    }
}

/// The record a confirmed entry is carried forward as: the first prior
/// record under its identifier, verbatim.
pub open spec fn carried_item(prior: Seq<ItemView>, m: MalInfoView) -> ItemView {
    match first_item_with_id(prior, m.id) {
        Some(i) => prior[i],
        None => unconfirmed_item(m, Seq::<CandidateView>::empty()),
    }
}

/// The candidates an entry ends up with: the scoped search when it
/// found anything, else the unscoped retry.
pub open spec fn cands_for(
    scoped: spec_fn(Seq<char>) -> Seq<CandidateView>,
    unscoped: spec_fn(Seq<char>) -> Seq<CandidateView>,
    kw: Seq<char>,
) -> Seq<CandidateView> {
    if scoped(kw).len() > 0 {
        scoped(kw)
    } else {
        unscoped(kw)
    }
}

/// The record one retained listing node contributes, given the prior
/// result set and the outcomes of search and disambiguation.
pub open spec fn entry_item(
    prior: Seq<ItemView>,
    node: AnimeNode,
    scoped: spec_fn(Seq<char>) -> Seq<CandidateView>,
    unscoped: spec_fn(Seq<char>) -> Seq<CandidateView>,
    choice: spec_fn(MalInfoView, Seq<CandidateView>) -> Option<u64>,
) -> ItemView {
    let m = mal_view_of(node);
    if id_confirmed_in(prior, m.id) {
        carried_item(prior, m)
    } else {
        let cands = cands_for(scoped, unscoped, keyword_of(m));
        classify_v(m, cands, choice(m, cands))
    }
}

/// The whole run over a listing: retained entries contribute one
/// record each, in listing order; entries of another period, entries
/// outside the media set, and repeated identifiers contribute nothing.
pub open spec fn run_items(
    prior: Seq<ItemView>,
    listing: Seq<AnimeNode>,
    year: u32,
    season: Season,
    scoped: spec_fn(Seq<char>) -> Seq<CandidateView>,
    unscoped: spec_fn(Seq<char>) -> Seq<CandidateView>,
    choice: spec_fn(MalInfoView, Seq<CandidateView>) -> Option<u64>,
) -> Seq<ItemView>
    decreases listing.len(),
{
    if listing.len() == 0 {
        Seq::<ItemView>::empty()
    } else {
        let rest = run_items(prior, listing.drop_last(), year, season, scoped, unscoped, choice);
        let node = listing.last();
        if node_retained(node, year, season) && !has_id(rest, mal_view_of(node).id) {
            rest.push(entry_item(prior, node, scoped, unscoped, choice))
        } else {
            rest
        }
    }
}

// ------------------------------------------------------------------
// Supporting lemmas about the first-index functions.
// ------------------------------------------------------------------

/// Where a scan finds the first record under an identifier, the
/// recursive first-index function agrees.
pub proof fn lemma_first_item_at(items: Seq<ItemView>, id: u64, i: int)
    requires
        0 <= i < items.len(),
        forall|k: int| 0 <= k < i ==> items[k].mal.id != id,
        items[i].mal.id == id,
    ensures
        first_item_with_id(items, id) == Some(i),
    decreases i,
{
    if i > 0 {
        let rest = items.drop_first();
        assert forall|k: int| 0 <= k < i - 1 implies rest[k].mal.id != id by {
            assert(rest[k] == items[k + 1]);
        }
        assert(rest[i - 1] == items[i]);
        lemma_first_item_at(rest, id, i - 1);
    }
}

/// A sequence without the identifier has no first record under it.
pub proof fn lemma_first_item_none(items: Seq<ItemView>, id: u64)
    requires
        forall|k: int| 0 <= k < items.len() ==> #[trigger] items[k].mal.id != id,
    ensures
        first_item_with_id(items, id) is None,
    decreases items.len(),
{
    if items.len() > 0 {
        let rest = items.drop_first();
        assert forall|k: int| 0 <= k < rest.len() implies #[trigger] rest[k].mal.id != id by {
            assert(rest[k] == items[k + 1]);
        }
        lemma_first_item_none(rest, id);
    }
}

/// What the first-index function finds is a record under the
/// identifier, and the earliest one.
pub proof fn lemma_first_item_found(items: Seq<ItemView>, id: u64)
    requires
        first_item_with_id(items, id) is Some,
    ensures
        ({
            let i = first_item_with_id(items, id)->Some_0;
            &&& 0 <= i < items.len()
            &&& items[i].mal.id == id
            &&& forall|k: int| 0 <= k < i ==> items[k].mal.id != id
        }),
    decreases items.len(),
{
    if items.len() > 0 && items[0].mal.id != id {
        let rest = items.drop_first();
        lemma_first_item_found(rest, id);
        let i = first_item_with_id(items, id)->Some_0;
        assert(rest[i - 1] == items[i]);
        assert forall|k: int| 0 <= k < i implies items[k].mal.id != id by {
            if k > 0 {
                assert(rest[k - 1] == items[k]);
            }
        }
    }
}

/// A confirmed identifier is found by the first-index function.
pub proof fn lemma_confirmed_has_first(items: Seq<ItemView>, id: u64)
    requires
        id_confirmed_in(items, id),
    ensures
        first_item_with_id(items, id) is Some,
    decreases items.len(),
{
    if items.len() > 0 && items[0].mal.id != id {
        let rest = items.drop_first();
        let k = choose|k: int|
            0 <= k < items.len() && #[trigger] items[k].mal.id == id && status_confirmed(
                items[k].status,
            );
        assert(rest[k - 1] == items[k]);
        assert(id_confirmed_in(rest, id));
        lemma_confirmed_has_first(rest, id);
    }
}

/// Where the exact-match scan finds an index, the recursive function
/// agrees.
pub proof fn lemma_exact_at(cands: Seq<CandidateView>, ja: Option<Seq<char>>, i: int)
    requires
        0 <= i < cands.len(),
        forall|k: int| 0 <= k < i ==> ja != Some(#[trigger] cands[k].bgm_name),
        ja == Some(cands[i].bgm_name),
    ensures
        exact_idx(cands, ja) == Some(i),
    decreases i,
{
    if i > 0 {
        let rest = cands.drop_first();
        assert forall|k: int| 0 <= k < i - 1 implies ja != Some(#[trigger] rest[k].bgm_name) by {
            assert(rest[k] == cands[k + 1]);
        }
        assert(rest[i - 1] == cands[i]);
        lemma_exact_at(rest, ja, i - 1);
    }
}

/// A candidate list without an exact match has no exact index.
pub proof fn lemma_exact_none(cands: Seq<CandidateView>, ja: Option<Seq<char>>)
    requires
        forall|k: int| 0 <= k < cands.len() ==> ja != Some(#[trigger] cands[k].bgm_name),
    ensures
        exact_idx(cands, ja) is None,
    decreases cands.len(),
{
    if cands.len() > 0 {
        let rest = cands.drop_first();
        assert forall|k: int| 0 <= k < rest.len() implies ja != Some(#[trigger] rest[k].bgm_name)
            by {
            assert(rest[k] == cands[k + 1]);
        }
        lemma_exact_none(rest, ja);
    }
}

/// Where the identifier scan finds an index among candidates, the
/// recursive function agrees.
pub proof fn lemma_cand_id_at(cands: Seq<CandidateView>, id: u64, i: int)
    requires
        0 <= i < cands.len(),
        forall|k: int| 0 <= k < i ==> #[trigger] cands[k].bgm_id != id,
        cands[i].bgm_id == id,
    ensures
        first_with_id(cands, id) == Some(i),
    decreases i,
{
    if i > 0 {
        let rest = cands.drop_first();
        assert forall|k: int| 0 <= k < i - 1 implies #[trigger] rest[k].bgm_id != id by {
            assert(rest[k] == cands[k + 1]);
        }
        assert(rest[i - 1] == cands[i]);
        lemma_cand_id_at(rest, id, i - 1);
    }
}

/// A candidate list without the identifier has no index under it.
pub proof fn lemma_cand_id_none(cands: Seq<CandidateView>, id: u64)
    requires
        forall|k: int| 0 <= k < cands.len() ==> #[trigger] cands[k].bgm_id != id,
    ensures
        first_with_id(cands, id) is None,
    decreases cands.len(),
{
    if cands.len() > 0 {
        let rest = cands.drop_first();
        assert forall|k: int| 0 <= k < rest.len() implies #[trigger] rest[k].bgm_id != id by {
            assert(rest[k] == cands[k + 1]);
        }
        lemma_cand_id_none(rest, id);
    }
}

/// Appending a record under a fresh identifier keeps identifiers
/// unique.
pub proof fn lemma_push_unique(items: Seq<ItemView>, it: ItemView)
    requires
        ids_unique(items),
        !has_id(items, it.mal.id),
    ensures
        ids_unique(items.push(it)),
{
    let pushed = items.push(it);
    assert forall|i: int, j: int|
        0 <= i < j < pushed.len() implies #[trigger] pushed[i].mal.id != #[trigger] pushed[j].mal.id by {
        if j < items.len() {
        } else {
            assert(pushed[j] == it);
            assert(pushed[i] == items[i]);
        }
    }
}

// ------------------------------------------------------------------
// Executable helpers.
// ------------------------------------------------------------------

/// Copies an optional string by contents.
fn clone_opt_string(o: &Option<String>) -> (r: Option<String>)
    ensures
        r == *o,
{
    match o {
        Some(s) => Some(s.clone()),
        None => None,
    }
}

fn copy_candidates(v: &Vec<BgmCandidate>) -> (r: Vec<BgmCandidate>)
    ensures
        r@ == v@,
{
    let mut r: Vec<BgmCandidate> = Vec::new();
    let mut i: usize = 0;
    while i < v.len()
        invariant
            i <= v@.len(),
            r@.len() == i,
            forall|k: int| 0 <= k < i ==> r@[k] == v@[k],
        decreases v@.len() - i,
    {
        let c = &v[i];
        r.push(
            BgmCandidate {
                bgm_id: c.bgm_id,
                bgm_name: c.bgm_name.clone(),
                bgm_name_cn: clone_opt_string(&c.bgm_name_cn),
            },
        );
        i = i + 1;
    }
    proof {
        assert(r@ =~= v@);
    }
    r
}

/// A verbatim copy of one link record.
fn duplicate_item(it: &SeasonItem) -> (r: SeasonItem)
    ensures
        r.deep_view() == it.deep_view(),
{
    SeasonItem {
        status: it.status,
        bgm_id: it.bgm_id,
        bgm_name: clone_opt_string(&it.bgm_name),
        bgm_name_cn: clone_opt_string(&it.bgm_name_cn),
        candidates: copy_candidates(&it.candidates),
        mal: MalInfo {
            id: it.mal.id,
            title: it.mal.title.clone(),
            title_ja: clone_opt_string(&it.mal.title_ja),
            media_type: it.mal.media_type,
            rating: it.mal.rating,
        },
    }
}

fn has_id_exec(items: &Vec<SeasonItem>, id: u64) -> (r: bool)
    ensures
        r == has_id(items.deep_view(), id),
{
    let mut i: usize = 0;
    while i < items.len()
        invariant
            i <= items@.len(),
            forall|k: int| 0 <= k < i ==> items.deep_view()[k].mal.id != id,
        decreases items@.len() - i,
    {
        if items[i].mal.id == id {
            assert(items.deep_view()[i as int].mal.id == id);
            return true;
        }
        i = i + 1;
    }
    false
}

fn id_confirmed_exec(items: &Vec<SeasonItem>, id: u64) -> (r: bool)
    ensures
        r == id_confirmed_in(items.deep_view(), id),
{
    let mut i: usize = 0;
    while i < items.len()
        invariant
            i <= items@.len(),
            forall|k: int|
                0 <= k < i ==> !(items.deep_view()[k].mal.id == id && status_confirmed(
                    #[trigger] items.deep_view()[k].status,
                )),
        decreases items@.len() - i,
    {
        if items[i].mal.id == id && items[i].status.is_confirmed() {
            assert(items.deep_view()[i as int].mal.id == id && status_confirmed(
                items.deep_view()[i as int].status,
            ));
            return true;
        }
        i = i + 1;
    }
    false
}

fn find_by_id(items: &Vec<SeasonItem>, id: u64) -> (r: Option<usize>)
    ensures
        match r {
            Some(i) => i < items@.len() && first_item_with_id(items.deep_view(), id) == Some(
                i as int,
            ),
            None => first_item_with_id(items.deep_view(), id) is None,
        },
{
    let mut i: usize = 0;
    while i < items.len()
        invariant
            i <= items@.len(),
            forall|k: int| 0 <= k < i ==> items.deep_view()[k].mal.id != id,
        decreases items@.len() - i,
    {
        if items[i].mal.id == id {
            proof {
                lemma_first_item_at(items.deep_view(), id, i as int);
            }
            return Some(i);
        }
        i = i + 1;
    }
    proof {
        lemma_first_item_none(items.deep_view(), id);
    }
    None
}

fn find_exact(title_ja: &Option<String>, cands: &Vec<BgmCandidate>) -> (r: Option<usize>)
    ensures
        match r {
            Some(i) => i < cands@.len() && exact_idx(cands.deep_view(), title_ja.deep_view())
                == Some(i as int),
            None => exact_idx(cands.deep_view(), title_ja.deep_view()) is None,
        },
{
    let ja = match title_ja {
        Some(j) => j,
        None => {
            proof {
                lemma_exact_none(cands.deep_view(), title_ja.deep_view());
            }
            return None;
        },
    };
    let mut i: usize = 0;
    while i < cands.len()
        invariant
            i <= cands@.len(),
            title_ja matches Some(j) && j == ja,
            forall|k: int|
                0 <= k < i ==> title_ja.deep_view() != Some(
                    #[trigger] cands.deep_view()[k].bgm_name,
                ),
        decreases cands@.len() - i,
    {
        if str_eq(cands[i].bgm_name.as_str(), ja.as_str()) {
            proof {
                lemma_exact_at(cands.deep_view(), title_ja.deep_view(), i as int);
            }
            return Some(i);
        }
        i = i + 1;
    }
    proof {
        lemma_exact_none(cands.deep_view(), title_ja.deep_view());
    }
    None
}

fn find_cand_id(cands: &Vec<BgmCandidate>, id: u64) -> (r: Option<usize>)
    ensures
        match r {
            Some(i) => i < cands@.len() && first_with_id(cands.deep_view(), id) == Some(i as int),
            None => first_with_id(cands.deep_view(), id) is None,
        },
{
    let mut i: usize = 0;
    while i < cands.len()
        invariant
            i <= cands@.len(),
            forall|k: int| 0 <= k < i ==> #[trigger] cands.deep_view()[k].bgm_id != id,
        decreases cands@.len() - i,
    {
        if cands[i].bgm_id == id {
            proof {
                lemma_cand_id_at(cands.deep_view(), id, i as int);
            }
            return Some(i);
        }
        i = i + 1;
    }
    proof {
        lemma_cand_id_none(cands.deep_view(), id);
    }
    None
}

/// Reduces a page of search hits to candidates, in order.
pub fn to_candidates(subjects: &Vec<Subject>) -> (r: Vec<BgmCandidate>)
    ensures
        r.deep_view() == candidates_of_subjects(subjects@),
{
    let mut r: Vec<BgmCandidate> = Vec::new();
    let mut i: usize = 0;
    while i < subjects.len()
        invariant
            i <= subjects@.len(),
            r@.len() == i,
            forall|k: int|
                0 <= k < i ==> r.deep_view()[k] == candidate_of_subject(#[trigger] subjects@[k]),
        decreases subjects@.len() - i,
    {
        let s = &subjects[i];
        let bgm_name = match &s.name {
            Some(n) => n.clone(),
            None => String::new(),
        };
        r.push(
            BgmCandidate { bgm_id: s.id, bgm_name, bgm_name_cn: clone_opt_string(&s.name_cn) },
        );
        i = i + 1;
    }
    proof {
        assert(r.deep_view() =~= candidates_of_subjects(subjects@));
    }
    r
}

/// The classification cascade, executably.
pub fn classify(mal: MalInfo, candidates: Vec<BgmCandidate>, choice: Option<u64>) -> (item:
    SeasonItem)
    ensures
        item.deep_view() == classify_v(mal.deep_view(), candidates.deep_view(), choice),
{
    match find_exact(&mal.title_ja, &candidates) {
        Some(i) => {
            let c = &candidates[i];
            let item = SeasonItem {
                status: ConfirmStatus::Match,
                bgm_id: Some(c.bgm_id),
                bgm_name: Some(c.bgm_name.clone()),
                bgm_name_cn: clone_opt_string(&c.bgm_name_cn),
                candidates: Vec::new(),
                mal,
            };
            proof {
                assert(item.deep_view().candidates =~= Seq::<CandidateView>::empty());
            }
            item
        },
        None => {
            if candidates.len() > 0 {
                let selected: Option<usize> = match choice {
                    Some(id) => find_cand_id(&candidates, id),
                    None => None,
                };
                match selected {
                    Some(i) => {
                        let c = &candidates[i];
                        let item = SeasonItem {
                            status: ConfirmStatus::Model,
                            bgm_id: Some(c.bgm_id),
                            bgm_name: Some(c.bgm_name.clone()),
                            bgm_name_cn: clone_opt_string(&c.bgm_name_cn),
                            candidates: Vec::new(),
                            mal,
                        };
                        proof {
                            assert(item.deep_view().candidates =~= Seq::<CandidateView>::empty());
                        }
                        item
                    },
                    None => SeasonItem {
                        status: ConfirmStatus::Unconfirmed,
                        bgm_id: None,
                        bgm_name: None,
                        bgm_name_cn: None,
                        candidates,
                        mal,
                    },
                }
            } else {
                SeasonItem {
                    status: ConfirmStatus::Unconfirmed,
                    bgm_id: None,
                    bgm_name: None,
                    bgm_name_cn: None,
                    candidates,
                    mal,
                }
            }
        },
    }
}

// ------------------------------------------------------------------
// The run state machine.
// ------------------------------------------------------------------

/// What the engine asks of the caller for the entry under
/// consideration.
#[derive(Debug)]
pub enum Disposition {
    /// The entry contributes nothing: another period, a media kind
    /// outside the closed set, or an identifier already emitted.
    Skipped,
    /// The entry's link was already confirmed; its prior record was
    /// copied verbatim. No search is to be made.
    Carried,
    /// The entry is new: run a date-scoped search for this keyword.
    NeedsSearch { keyword: String },
}

/// What the engine asks after seeing search results.
#[derive(Debug)]
pub enum SearchStep {
    /// The scoped search found nothing: retry the same keyword with no
    /// date window.
    RetryUnscoped { keyword: String },
    /// Candidates were found but none matches exactly: put this
    /// payload to the disambiguation collaborator, then report its
    /// selection through `choice_result` (report `None` when no
    /// collaborator is configured or its answer is unusable).
    AskModel { input: String },
    /// The entry's record has been classified and appended.
    Settled,
}

/// Where the engine stands between calls.
pub enum Phase {
    /// Ready for the next listing entry.
    Idle,
    /// A scoped search for this entry is outstanding.
    AwaitScoped { mal: MalInfo },
    /// The unscoped retry for this entry is outstanding.
    AwaitUnscoped { mal: MalInfo },
    /// A disambiguation verdict over these candidates is outstanding.
    AwaitChoice { mal: MalInfo, candidates: Vec<BgmCandidate> },
}

/// The entry a non-idle phase is working on.
pub open spec fn pending_mal(p: Phase) -> MalInfoView {
    match p {
        Phase::Idle => arbitrary(),
        Phase::AwaitScoped { mal } => mal.deep_view(),
        Phase::AwaitUnscoped { mal } => mal.deep_view(),
        Phase::AwaitChoice { mal, candidates: _ } => mal.deep_view(),
    }
}

/// One reconciliation run in progress.
pub struct Reconciler {
    /// The records of the prior result set (empty when absent).
    pub prior_items: Vec<SeasonItem>,
    /// The result set under construction.
    pub out: SeasonData,
    /// The period's year.
    pub year: u32,
    /// The period's season.
    pub season: Season,
    /// Where the run stands between calls.
    pub phase: Phase,
}

impl Reconciler {
    /// The records emitted so far.
    pub open spec fn items(self) -> Seq<ItemView> {
        self.out.items.deep_view()
    }

    /// The prior records the run carries forward from.
    pub open spec fn prior(self) -> Seq<ItemView> {
        self.prior_items.deep_view()
    }

    /// Emitted identifiers are unique, and the entry under
    /// consideration is not among them.
    pub open spec fn wf(self) -> bool {
        &&& ids_unique(self.items())
        &&& match self.phase {
            Phase::Idle => true,
            Phase::AwaitScoped { mal } => !has_id(self.items(), mal.id),
            Phase::AwaitUnscoped { mal } => !has_id(self.items(), mal.id),
            Phase::AwaitChoice { mal, candidates: _ } => !has_id(self.items(), mal.id),
        }
    }

    /// Starts a run against the prior result set (absent means empty).
    pub fn new(existing: Option<SeasonData>, year: u32, season: Season) -> (r: Self)
        ensures
            r.phase is Idle,
            r.wf(),
            r.items() == Seq::<ItemView>::empty(),
            r.out.season@ == season_label(year, season),
            r.prior() == match existing {
                Some(d) => d.items.deep_view(),
                None => Seq::<ItemView>::empty(),
            },
            r.year == year,
            r.season == season,
    {
        let prior_items = match existing {
            Some(d) => d.items,
            None => Vec::new(),
        };
        let out = SeasonData::new(year, season);
        proof {
            assert(out.items.deep_view() =~= Seq::<ItemView>::empty());
        }
        Reconciler { prior_items, out, year, season, phase: Phase::Idle }
    }

    /// Considers the next listing entry, in listing order. Entries of
    /// another period, outside the media set, or under an identifier
    /// already emitted are skipped; a confirmed entry's prior record
    /// is copied verbatim with no outside call; anything else opens a
    /// scoped search.
    pub fn begin_entry(&mut self, node: &AnimeNode) -> (d: Disposition)
        requires
            old(self).phase is Idle,
            old(self).wf(),
        ensures
            final(self).wf(),
            same_run(*old(self), *final(self)),
            begin_entry_post(*old(self), *final(self), *node, d),
    {
        let is_new = match &node.start_season {
            Some(s) => s.year == self.year && s.season == self.season,
            None => false,
        };
        if !is_new {
            return Disposition::Skipped;
        }
        let mal = match MalInfo::from_anime_node(node) {
            Some(m) => m,
            None => {
                return Disposition::Skipped;
            },
        };
        if has_id_exec(&self.out.items, mal.id) {
            return Disposition::Skipped;
        }
        if id_confirmed_exec(&self.prior_items, mal.id) {
            let idx = match find_by_id(&self.prior_items, mal.id) {
                Some(i) => i,
                None => {
                    proof {
                        lemma_confirmed_has_first(self.prior_items.deep_view(), mal.id);
                    }
                    unreached()
                },
            };
            let copy = duplicate_item(&self.prior_items[idx]);
            let ghost items0 = self.out.items.deep_view();
            proof {
                lemma_first_item_found(self.prior_items.deep_view(), mal.id);
                lemma_push_unique(items0, copy.deep_view());
            }
            self.out.items.push(copy);
            proof {
                assert(self.out.items.deep_view() =~= items0.push(copy.deep_view()));
            }
            return Disposition::Carried;
        }
        let keyword = match &mal.title_ja {
            Some(j) => j.clone(),
            None => mal.title.clone(),
        };
        self.phase = Phase::AwaitScoped { mal };
        Disposition::NeedsSearch { keyword }
    }

    /// Classifies the entry under consideration against these
    /// candidates, or leaves it pending a model verdict.
    fn settle(&mut self, mal: MalInfo, candidates: Vec<BgmCandidate>) -> (step: SearchStep)
        requires
            old(self).phase is Idle,
            ids_unique(old(self).items()),
            !has_id(old(self).items(), mal.deep_view().id),
        ensures
            final(self).wf(),
            same_run(*old(self), *final(self)),
            settles(*old(self), *final(self), mal.deep_view(), candidates.deep_view(), step),
    {
        let has_exact = match find_exact(&mal.title_ja, &candidates) {
            Some(_) => true,
            None => false,
        };
        if has_exact || candidates.len() == 0 {
            let item = classify(mal, candidates, None);
            let ghost items0 = self.out.items.deep_view();
            proof {
                lemma_push_unique(items0, item.deep_view());
            }
            self.out.items.push(item);
            proof {
                assert(self.out.items.deep_view() =~= items0.push(item.deep_view()));
            }
            return SearchStep::Settled;
        }
        let input = build_match_input(mal.title.as_str(), opt_as_deref(&mal.title_ja), &candidates);
        self.phase = Phase::AwaitChoice { mal, candidates };
        SearchStep::AskModel { input }
    }

    /// Feeds the scoped search's hits for the entry under
    /// consideration. An empty page asks for the unscoped retry.
    pub fn scoped_results(&mut self, subjects: &Vec<Subject>) -> (step: SearchStep)
        requires
            old(self).phase matches Phase::AwaitScoped { mal: _ },
            old(self).wf(),
        ensures
            final(self).wf(),
            same_run(*old(self), *final(self)),
            ({
                let m = pending_mal(old(self).phase);
                if subjects@.len() == 0 {
                    &&& (step matches SearchStep::RetryUnscoped { keyword } && keyword@
                        == keyword_of(m))
                    &&& (final(self).phase matches Phase::AwaitUnscoped { mal } && mal.deep_view()
                        == m)
                    &&& final(self).items() == old(self).items()
                } else {
                    settles(
                        *old(self),
                        *final(self),
                        m,
                        candidates_of_subjects(subjects@),
                        step,
                    )
                }
            }),
    {
        let mut ph = Phase::Idle;
        core::mem::swap(&mut ph, &mut self.phase);
        let mal = match ph {
            Phase::AwaitScoped { mal } => mal,
            _ => unreached(),
        };
        if subjects.len() == 0 {
            let keyword = match &mal.title_ja {
                Some(j) => j.clone(),
                None => mal.title.clone(),
            };
            self.phase = Phase::AwaitUnscoped { mal };
            return SearchStep::RetryUnscoped { keyword };
        }
        let candidates = to_candidates(subjects);
        self.settle(mal, candidates)
    }

    /// Feeds the unscoped retry's hits for the entry under
    /// consideration. An empty page settles the entry unresolved with
    /// no candidates.
    pub fn unscoped_results(&mut self, subjects: &Vec<Subject>) -> (step: SearchStep)
        requires
            old(self).phase matches Phase::AwaitUnscoped { mal: _ },
            old(self).wf(),
        ensures
            final(self).wf(),
            same_run(*old(self), *final(self)),
            settles(
                *old(self),
                *final(self),
                pending_mal(old(self).phase),
                candidates_of_subjects(subjects@),
                step,
            ),
            !(step is RetryUnscoped),
    {
        let mut ph = Phase::Idle;
        core::mem::swap(&mut ph, &mut self.phase);
        let mal = match ph {
            Phase::AwaitUnscoped { mal } => mal,
            _ => unreached(),
        };
        let candidates = to_candidates(subjects);
        self.settle(mal, candidates)
    }

    /// Feeds the disambiguation verdict for the entry under
    /// consideration: the selected catalog-B identifier, or `None`
    /// when no collaborator is configured, its answer was malformed,
    /// or it declined to select. The record is classified and
    /// appended.
    pub fn choice_result(&mut self, selection: Option<u64>)
        requires
            old(self).phase matches Phase::AwaitChoice { mal: _, candidates: _ },
            old(self).wf(),
        ensures
            final(self).wf(),
            same_run(*old(self), *final(self)),
            final(self).phase is Idle,
            (old(self).phase matches Phase::AwaitChoice { mal, candidates } ==> final(self).items()
                == old(self).items().push(
                classify_v(mal.deep_view(), candidates.deep_view(), selection),
            )),
    {
        let mut ph = Phase::Idle;
        core::mem::swap(&mut ph, &mut self.phase);
        let (mal, candidates) = match ph {
            Phase::AwaitChoice { mal, candidates } => (mal, candidates),
            _ => unreached(),
        };
        let item = classify(mal, candidates, selection);
        let ghost items0 = self.out.items.deep_view();
        proof {
            lemma_push_unique(items0, item.deep_view());
        }
        self.out.items.push(item);
        proof {
            assert(self.out.items.deep_view() =~= items0.push(item.deep_view()));
        }
    }

    /// Closes the run and hands over the result set, ready to be
    /// persisted.
    pub fn finish(self) -> (d: SeasonData)
        requires
            self.phase is Idle,
            self.wf(),
        ensures
            d == self.out,
            ids_unique(d.items.deep_view()),
    {
        self.out
    }
}

/// The parts of a run no step may touch: the period, the prior
/// records, and the result set's label and timestamp.
pub open spec fn same_run(a: Reconciler, b: Reconciler) -> bool {
    &&& b.prior_items == a.prior_items
    &&& b.year == a.year
    &&& b.season == a.season
    &&& b.out.season == a.out.season
    &&& b.out.update_time == a.out.update_time
}

/// How a step over a fixed candidate list ends: an exact match or an
/// empty list settles the record at once (the disambiguator is never
/// consulted); anything else leaves the run awaiting its verdict over
/// exactly these candidates.
pub open spec fn settles(
    pre: Reconciler,
    post: Reconciler,
    m: MalInfoView,
    cands: Seq<CandidateView>,
    step: SearchStep,
) -> bool {
    if exact_idx(cands, m.title_ja) is Some || cands.len() == 0 {
        &&& step is Settled
        &&& post.phase is Idle
        &&& post.items() == pre.items().push(classify_v(m, cands, None))
    } else {
        &&& (step matches SearchStep::AskModel { input } && input@ == match_input(
            m.title,
            m.title_ja,
            cands,
        ))
        &&& (post.phase matches Phase::AwaitChoice { mal, candidates } && mal.deep_view() == m
            && candidates.deep_view() == cands)
        &&& post.items() == pre.items()
    }
}

/// What holds of one considered entry: how the dispatch in
/// `begin_entry` relates the entry to the run's records and phase.
pub open spec fn begin_entry_post(
    pre: Reconciler,
    post: Reconciler,
    node: AnimeNode,
    d: Disposition,
) -> bool {
    let m = mal_view_of(node);
    if !node_retained(node, pre.year, pre.season) || has_id(pre.items(), m.id) {
        &&& d is Skipped
        &&& post.phase is Idle
        &&& post.items() == pre.items()
    } else if id_confirmed_in(pre.prior(), m.id) {
        &&& d is Carried
        &&& post.phase is Idle
        &&& post.items() == pre.items().push(carried_item(pre.prior(), m))
    } else {
        &&& (d matches Disposition::NeedsSearch { keyword } && keyword@ == keyword_of(m))
        &&& (post.phase matches Phase::AwaitScoped { mal } && mal.deep_view() == m)
        &&& post.items() == pre.items()
    }
}

} // verus!
