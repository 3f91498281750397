//! The engine's guarantees, stated and proved over the run model of
//! `engine`: uniqueness of emitted identifiers, verbatim carry-forward
//! of confirmed records, precedence of exact matches, the fallback
//! behaviour without a disambiguation collaborator, closure of the
//! media classification, and idempotency of a whole run.

use vstd::prelude::*;

use crate::engine::{
    cands_for, carried_item, classify_v, entry_item, exact_idx, first_item_with_id, keyword_of,
    lemma_confirmed_has_first, lemma_exact_none, lemma_first_item_at, lemma_first_item_found,
    lemma_push_unique, node_retained, run_items,
};
use crate::mal::{AnimeNode, Season};
use crate::model::{
    CandidateView, ItemView, MalInfoView, has_id, id_confirmed_in, ids_unique, mal_view_of,
    status_confirmed,
};

verus! {

/// Every record a run emits carries the identifier of the entry it
/// was emitted for.
proof fn lemma_entry_item_id(
    prior: Seq<ItemView>,
    node: AnimeNode,
    scoped: spec_fn(Seq<char>) -> Seq<CandidateView>,
    unscoped: spec_fn(Seq<char>) -> Seq<CandidateView>,
    choice: spec_fn(MalInfoView, Seq<CandidateView>) -> Option<u64>,
)
    ensures
        entry_item(prior, node, scoped, unscoped, choice).mal.id == mal_view_of(node).id,
{
    let m = mal_view_of(node);
    if id_confirmed_in(prior, m.id) {
        if first_item_with_id(prior, m.id) is Some {
            lemma_first_item_found(prior, m.id);
        }
    }
}

/// Uniqueness: no two records of a run's output carry the same
/// catalog-A identifier, whatever the listing and the prior set hold.
pub proof fn lemma_run_ids_unique(
    prior: Seq<ItemView>,
    listing: Seq<AnimeNode>,
    year: u32,
    season: Season,
    scoped: spec_fn(Seq<char>) -> Seq<CandidateView>,
    unscoped: spec_fn(Seq<char>) -> Seq<CandidateView>,
    choice: spec_fn(MalInfoView, Seq<CandidateView>) -> Option<u64>,
)
    ensures
        ids_unique(run_items(prior, listing, year, season, scoped, unscoped, choice)),
    decreases listing.len(),
{
    if listing.len() > 0 {
        lemma_run_ids_unique(prior, listing.drop_last(), year, season, scoped, unscoped, choice);
        let rest = run_items(prior, listing.drop_last(), year, season, scoped, unscoped, choice);
        let node = listing.last();
        if node_retained(node, year, season) && !has_id(rest, mal_view_of(node).id) {
            lemma_entry_item_id(prior, node, scoped, unscoped, choice);
            lemma_push_unique(rest, entry_item(prior, node, scoped, unscoped, choice));
        }
    }
}

/// A run over a longer listing extends the run over a prefix of it.
proof fn lemma_run_prefix(
    prior: Seq<ItemView>,
    listing: Seq<AnimeNode>,
    t: int,
    year: u32,
    season: Season,
    scoped: spec_fn(Seq<char>) -> Seq<CandidateView>,
    unscoped: spec_fn(Seq<char>) -> Seq<CandidateView>,
    choice: spec_fn(MalInfoView, Seq<CandidateView>) -> Option<u64>,
)
    requires
        0 <= t <= listing.len(),
    ensures
        run_items(prior, listing.take(t), year, season, scoped, unscoped, choice).is_prefix_of(
            run_items(prior, listing, year, season, scoped, unscoped, choice),
        ),
    decreases listing.len(),
{
    let part = run_items(prior, listing.take(t), year, season, scoped, unscoped, choice);
    let whole = run_items(prior, listing, year, season, scoped, unscoped, choice);
    if t == listing.len() {
        assert(listing.take(t) =~= listing);
        assert(part.is_prefix_of(whole));
    } else {
        assert(listing.drop_last().take(t) =~= listing.take(t));
        lemma_run_prefix(prior, listing.drop_last(), t, year, season, scoped, unscoped, choice);
        let rest = run_items(prior, listing.drop_last(), year, season, scoped, unscoped, choice);
        assert(part.is_prefix_of(rest));
        assert(rest.is_prefix_of(whole));
        assert(part =~= whole.subrange(0, part.len() as int));
    }
}

/// Carry-forward: a confirmed record of the prior result set whose
/// entry is retained in the listing stands in the run's output
/// verbatim; only its position may differ.
pub proof fn lemma_carry_forward(
    prior: Seq<ItemView>,
    listing: Seq<AnimeNode>,
    year: u32,
    season: Season,
    scoped: spec_fn(Seq<char>) -> Seq<CandidateView>,
    unscoped: spec_fn(Seq<char>) -> Seq<CandidateView>,
    choice: spec_fn(MalInfoView, Seq<CandidateView>) -> Option<u64>,
    k: int,
    j: int,
)
    requires
        ids_unique(prior),
        0 <= k < prior.len(),
        status_confirmed(prior[k].status),
        0 <= j < listing.len(),
        node_retained(listing[j], year, season),
        mal_view_of(listing[j]).id == prior[k].mal.id,
    ensures
        ({
            let out = run_items(prior, listing, year, season, scoped, unscoped, choice);
            exists|i: int| 0 <= i < out.len() && #[trigger] out[i] == prior[k]
        }),
    decreases listing.len(),
{
    let id = prior[k].mal.id;
    let out = run_items(prior, listing, year, season, scoped, unscoped, choice);
    let rest = run_items(prior, listing.drop_last(), year, season, scoped, unscoped, choice);
    let node = listing.last();
    assert(id_confirmed_in(prior, id));
    if j < listing.len() - 1 {
        assert(listing.drop_last()[j] == listing[j]);
        lemma_carry_forward(
            prior,
            listing.drop_last(),
            year,
            season,
            scoped,
            unscoped,
            choice,
            k,
            j,
        );
        let i = choose|i: int| 0 <= i < rest.len() && #[trigger] rest[i] == prior[k];
        assert(out[i] == prior[k]);
    } else {
        // The entry under this identifier is the last listing node.
        if has_id(rest, id) {
            // An earlier node already carried the same identifier; what
            // it emitted was carried forward from the very same prior
            // record.
            lemma_some_node_emitted(
                prior,
                listing.drop_last(),
                year,
                season,
                scoped,
                unscoped,
                choice,
                k,
            );
            let i = choose|i: int| 0 <= i < rest.len() && #[trigger] rest[i].mal.id == id;
            lemma_confirmed_verbatim(
                prior,
                listing.drop_last(),
                year,
                season,
                scoped,
                unscoped,
                choice,
                k,
                i,
            );
            assert(out[i] == prior[k]);
        } else {
            lemma_confirmed_carries(prior, node, scoped, unscoped, choice, k);
            assert(out[rest.len() as int] == prior[k]);
        }
    }
}

/// A retained node under a confirmed identifier contributes the prior
/// record itself.
proof fn lemma_confirmed_carries(
    prior: Seq<ItemView>,
    node: AnimeNode,
    scoped: spec_fn(Seq<char>) -> Seq<CandidateView>,
    unscoped: spec_fn(Seq<char>) -> Seq<CandidateView>,
    choice: spec_fn(MalInfoView, Seq<CandidateView>) -> Option<u64>,
    k: int,
)
    requires
        ids_unique(prior),
        0 <= k < prior.len(),
        status_confirmed(prior[k].status),
        mal_view_of(node).id == prior[k].mal.id,
    ensures
        entry_item(prior, node, scoped, unscoped, choice) == prior[k],
{
    let id = prior[k].mal.id;
    assert(id_confirmed_in(prior, id));
    assert forall|kk: int| 0 <= kk < k implies prior[kk].mal.id != id by {}
    lemma_first_item_at(prior, id, k);
}

/// Every record a run emits under a confirmed prior identifier is that
/// prior record, unchanged.
proof fn lemma_confirmed_verbatim(
    prior: Seq<ItemView>,
    listing: Seq<AnimeNode>,
    year: u32,
    season: Season,
    scoped: spec_fn(Seq<char>) -> Seq<CandidateView>,
    unscoped: spec_fn(Seq<char>) -> Seq<CandidateView>,
    choice: spec_fn(MalInfoView, Seq<CandidateView>) -> Option<u64>,
    k: int,
    i: int,
)
    requires
        ids_unique(prior),
        0 <= k < prior.len(),
        status_confirmed(prior[k].status),
        ({
            let out = run_items(prior, listing, year, season, scoped, unscoped, choice);
            0 <= i < out.len() && out[i].mal.id == prior[k].mal.id
        }),
    ensures
        run_items(prior, listing, year, season, scoped, unscoped, choice)[i] == prior[k],
    decreases listing.len(),
{
    let id = prior[k].mal.id;
    let out = run_items(prior, listing, year, season, scoped, unscoped, choice);
    let rest = run_items(prior, listing.drop_last(), year, season, scoped, unscoped, choice);
    let node = listing.last();
    if i < rest.len() {
        lemma_confirmed_verbatim(
            prior,
            listing.drop_last(),
            year,
            season,
            scoped,
            unscoped,
            choice,
            k,
            i,
        );
    } else {
        lemma_entry_item_id(prior, node, scoped, unscoped, choice);
        lemma_confirmed_carries(prior, node, scoped, unscoped, choice, k);
    }
}

/// When a retained listing node carries a confirmed identifier, the
/// run's output holds a record under that identifier.
proof fn lemma_some_node_emitted(
    prior: Seq<ItemView>,
    listing: Seq<AnimeNode>,
    year: u32,
    season: Season,
    scoped: spec_fn(Seq<char>) -> Seq<CandidateView>,
    unscoped: spec_fn(Seq<char>) -> Seq<CandidateView>,
    choice: spec_fn(MalInfoView, Seq<CandidateView>) -> Option<u64>,
    k: int,
)
    requires
        0 <= k < prior.len(),
        has_id(run_items(prior, listing, year, season, scoped, unscoped, choice), prior[k].mal.id),
    ensures
        ({
            let out = run_items(prior, listing, year, season, scoped, unscoped, choice);
            exists|i: int| 0 <= i < out.len() && #[trigger] out[i].mal.id == prior[k].mal.id
        }),
{
}

/// Exact-match precedence: when some candidate's primary name equals
/// the native title byte for byte, classification accepts it with
/// status `Match`, and no disambiguation verdict — whatever it says —
/// can change the record.
pub proof fn lemma_exact_match_precedence(
    m: MalInfoView,
    cands: Seq<CandidateView>,
    verdict_a: Option<u64>,
    verdict_b: Option<u64>,
)
    requires
        exact_idx(cands, m.title_ja) is Some,
    ensures
        classify_v(m, cands, verdict_a).status is Match,
        classify_v(m, cands, verdict_a) == classify_v(m, cands, verdict_b),
{
}

/// Fallback search: when the scoped search finds nothing and the
/// unscoped retry exactly one candidate that is no exact match, a run
/// with no disambiguation collaborator (every verdict absent) leaves
/// the entry unresolved, with that one candidate attached.
pub proof fn lemma_fallback_single_candidate(
    m: MalInfoView,
    c: CandidateView,
    scoped: spec_fn(Seq<char>) -> Seq<CandidateView>,
    unscoped: spec_fn(Seq<char>) -> Seq<CandidateView>,
)
    requires
        scoped(keyword_of(m)).len() == 0,
        unscoped(keyword_of(m)) == seq![c],
        m.title_ja != Some(c.bgm_name),
    ensures
        ({
            let item = classify_v(m, cands_for(scoped, unscoped, keyword_of(m)), None);
            &&& item.status is Unconfirmed
            &&& item.candidates == seq![c]
            &&& item.bgm_id is None
        }),
{
    let cands = cands_for(scoped, unscoped, keyword_of(m));
    assert(cands == seq![c]);
    assert forall|k: int| 0 <= k < cands.len() implies m.title_ja != Some(
        #[trigger] cands[k].bgm_name,
    ) by {
        assert(cands[k] == c);
    }
    lemma_exact_none(cands, m.title_ja);
}

/// A record stems from some retained entry of the listing.
pub open spec fn from_retained(
    listing: Seq<AnimeNode>,
    year: u32,
    season: Season,
    it: ItemView,
) -> bool {
    exists|j: int|
        0 <= j < listing.len() && node_retained(#[trigger] listing[j], year, season) && it.mal.id
            == mal_view_of(listing[j]).id
}

proof fn lemma_from_retained_extend(
    listing: Seq<AnimeNode>,
    year: u32,
    season: Season,
    it: ItemView,
)
    requires
        listing.len() > 0,
        from_retained(listing.drop_last(), year, season, it),
    ensures
        from_retained(listing, year, season, it),
{
    let shorter = listing.drop_last();
    let j = choose|j: int|
        0 <= j < shorter.len() && node_retained(#[trigger] shorter[j], year, season) && it.mal.id
            == mal_view_of(shorter[j]).id;
    assert(shorter[j] == listing[j]);
    assert(node_retained(listing[j], year, season) && it.mal.id == mal_view_of(listing[j]).id);
}

/// Classification closure: every record of a run's output stems from a
/// retained listing entry — announced under the period and inside the
/// closed media set. An entry outside the set leaves nothing behind,
/// not even an unresolved record.
pub proof fn lemma_classification_closure(
    prior: Seq<ItemView>,
    listing: Seq<AnimeNode>,
    year: u32,
    season: Season,
    scoped: spec_fn(Seq<char>) -> Seq<CandidateView>,
    unscoped: spec_fn(Seq<char>) -> Seq<CandidateView>,
    choice: spec_fn(MalInfoView, Seq<CandidateView>) -> Option<u64>,
)
    ensures
        ({
            let out = run_items(prior, listing, year, season, scoped, unscoped, choice);
            forall|i: int|
                0 <= i < out.len() ==> from_retained(listing, year, season, #[trigger] out[i])
        }),
    decreases listing.len(),
{
    let out = run_items(prior, listing, year, season, scoped, unscoped, choice);
    if listing.len() > 0 {
        lemma_classification_closure(
            prior,
            listing.drop_last(),
            year,
            season,
            scoped,
            unscoped,
            choice,
        );
        let rest = run_items(prior, listing.drop_last(), year, season, scoped, unscoped, choice);
        let node = listing.last();
        assert forall|i: int| 0 <= i < out.len() implies from_retained(
            listing,
            year,
            season,
            #[trigger] out[i],
        ) by {
            if i < rest.len() {
                assert(out[i] == rest[i]);
                lemma_from_retained_extend(listing, year, season, rest[i]);
            } else {
                lemma_entry_item_id(prior, node, scoped, unscoped, choice);
                let j = listing.len() - 1;
                assert(listing[j] == node);
                assert(node_retained(listing[j], year, season) && out[i].mal.id == mal_view_of(
                    listing[j],
                ).id);
            }
        }
    }
}

/// A prefix agrees with the whole sequence position by position.
proof fn lemma_prefix_index(a: Seq<ItemView>, b: Seq<ItemView>, i: int)
    requires
        a.is_prefix_of(b),
        0 <= i < a.len(),
    ensures
        a[i] == b[i],
{
    assert(a[i] == b.subrange(0, a.len() as int)[i]);
}

/// One step of the second run emits what the first run emitted.
proof fn lemma_second_run_prefix(
    prior: Seq<ItemView>,
    listing: Seq<AnimeNode>,
    t: int,
    year: u32,
    season: Season,
    scoped: spec_fn(Seq<char>) -> Seq<CandidateView>,
    unscoped: spec_fn(Seq<char>) -> Seq<CandidateView>,
    choice: spec_fn(MalInfoView, Seq<CandidateView>) -> Option<u64>,
)
    requires
        ids_unique(prior),
        0 <= t <= listing.len(),
    ensures
        ({
            let first = run_items(prior, listing, year, season, scoped, unscoped, choice);
            run_items(first, listing.take(t), year, season, scoped, unscoped, choice) == run_items(
                prior,
                listing.take(t),
                year,
                season,
                scoped,
                unscoped,
                choice,
            )
        }),
    decreases t,
{
    let first = run_items(prior, listing, year, season, scoped, unscoped, choice);
    if t > 0 {
        lemma_second_run_prefix(prior, listing, t - 1, year, season, scoped, unscoped, choice);
        assert(listing.take(t).drop_last() =~= listing.take(t - 1));
        let rest1 = run_items(prior, listing.take(t - 1), year, season, scoped, unscoped, choice);
        let rest2 = run_items(first, listing.take(t - 1), year, season, scoped, unscoped, choice);
        assert(rest2 == rest1);
        let node = listing[t - 1];
        assert(listing.take(t).last() == node);
        let m = mal_view_of(node);
        if node_retained(node, year, season) && !has_id(rest1, m.id) {
            // The first run pushed a record for this very node; it is
            // the only record of the first run under this identifier.
            let e1 = entry_item(prior, node, scoped, unscoped, choice);
            lemma_run_prefix(prior, listing, t, year, season, scoped, unscoped, choice);
            lemma_run_prefix(prior, listing, t - 1, year, season, scoped, unscoped, choice);
            let part = run_items(prior, listing.take(t), year, season, scoped, unscoped, choice);
            assert(part == rest1.push(e1));
            assert(part.is_prefix_of(first));
            lemma_prefix_index(part, first, rest1.len() as int);
            assert(first[rest1.len() as int] == e1);
            lemma_entry_item_id(prior, node, scoped, unscoped, choice);
            lemma_run_ids_unique(prior, listing, year, season, scoped, unscoped, choice);
            assert forall|kk: int| 0 <= kk < rest1.len() implies first[kk].mal.id != m.id by {
                lemma_prefix_index(part, first, kk);
                assert(part[kk] == rest1[kk]);
            }
            lemma_first_item_at(first, m.id, rest1.len() as int);
            let e2 = entry_item(first, node, scoped, unscoped, choice);
            if status_confirmed(e1.status) {
                // The second run carries the first run's record forward.
                assert(id_confirmed_in(first, m.id));
                assert(carried_item(first, m) == e1);
                assert(e2 == e1);
            } else {
                // The identifier is not confirmed in the first run's
                // output: its only record under it is this unconfirmed
                // one, so the second run classifies again, over the
                // same search results and the same verdict.
                assert forall|kk: int|
                    0 <= kk < first.len() && #[trigger] first[kk].mal.id == m.id implies !status_confirmed(
                    first[kk].status,
                ) by {
                    if kk != rest1.len() as int {
                        assert(first[rest1.len() as int].mal.id == m.id);
                        assert(false);
                    }
                }
                assert(!id_confirmed_in(first, m.id));
                if id_confirmed_in(prior, m.id) {
                    // Then the first run would have carried a confirmed
                    // record, contradicting e1 unconfirmed.
                    lemma_confirmed_has_first(prior, m.id);
                    lemma_first_item_found(prior, m.id);
                    let kk = first_item_with_id(prior, m.id)->Some_0;
                    assert(prior[kk].mal.id == m.id);
                    let kc = choose|kc: int|
                        0 <= kc < prior.len() && #[trigger] prior[kc].mal.id == m.id
                            && status_confirmed(prior[kc].status);
                    assert(kc == kk);
                    assert(e1 == prior[kk]);
                    assert(false);
                }
                assert(e2 == e1);
            }
            assert(run_items(first, listing.take(t), year, season, scoped, unscoped, choice)
                =~= run_items(prior, listing.take(t), year, season, scoped, unscoped, choice));
        }
    }
}

/// Idempotency: running reconciliation a second time over the same
/// listing, with the prior state replaced by the first run's output
/// and the same search results and verdicts, emits exactly the same
/// records — and, by carry-forward, does so without re-evaluating any
/// record the first run confirmed.
pub proof fn lemma_idempotent(
    prior: Seq<ItemView>,
    listing: Seq<AnimeNode>,
    year: u32,
    season: Season,
    scoped: spec_fn(Seq<char>) -> Seq<CandidateView>,
    unscoped: spec_fn(Seq<char>) -> Seq<CandidateView>,
    choice: spec_fn(MalInfoView, Seq<CandidateView>) -> Option<u64>,
)
    requires
        ids_unique(prior),
    ensures
        ({
            let first = run_items(prior, listing, year, season, scoped, unscoped, choice);
            run_items(first, listing, year, season, scoped, unscoped, choice) == first
        }),
{
    lemma_second_run_prefix(
        prior,
        listing,
        listing.len() as int,
        year,
        season,
        scoped,
        unscoped,
        choice,
    );
    assert(listing.take(listing.len() as int) =~= listing);
}

} // verus!
