use season_data::bgmtv::Subject;
use season_data::engine::{Disposition, Reconciler, SearchStep};
use season_data::mal::{AlternativeTitles, AnimeNode, Season, StartSeason};
use season_data::model::{ConfirmStatus, SeasonData, SeasonItem};

fn node(id: u64, title: &str, ja: Option<&str>, media: &str, year: u32, season: Season) -> AnimeNode {
    AnimeNode {
        id,
        title: title.to_string(),
        main_picture: None,
        alternative_titles: ja.map(|j| AlternativeTitles {
            en: None,
            ja: Some(j.to_string()),
            synonyms: vec![],
        }),
        start_date: None,
        end_date: None,
        synopsis: None,
        media_type: Some(media.to_string()),
        status: None,
        num_episodes: None,
        start_season: Some(StartSeason { year, season }),
        broadcast: None,
        source: None,
        studios: vec![],
        rating: Some("pg_13".to_string()),
    }
}

fn subject(id: u64, name: &str, name_cn: Option<&str>) -> Subject {
    Subject {
        id,
        subject_type: 2,
        name: Some(name.to_string()),
        name_cn: name_cn.map(|s| s.to_string()),
        summary: None,
        series: None,
        nsfw: None,
        locked: None,
        date: None,
        platform: None,
        images: None,
        volumes: None,
        eps: None,
        total_episodes: None,
        collection: None,
        meta_tags: None,
        tags: None,
    }
}

fn assert_item_eq(a: &SeasonItem, b: &SeasonItem) {
    assert_eq!(a.status, b.status);
    assert_eq!(a.bgm_id, b.bgm_id);
    assert_eq!(a.bgm_name, b.bgm_name);
    assert_eq!(a.bgm_name_cn, b.bgm_name_cn);
    assert_eq!(a.candidates.len(), b.candidates.len());
    for (ca, cb) in a.candidates.iter().zip(b.candidates.iter()) {
        assert_eq!(ca.bgm_id, cb.bgm_id);
        assert_eq!(ca.bgm_name, cb.bgm_name);
        assert_eq!(ca.bgm_name_cn, cb.bgm_name_cn);
    }
    assert_eq!(a.mal.id, b.mal.id);
    assert_eq!(a.mal.title, b.mal.title);
    assert_eq!(a.mal.title_ja, b.mal.title_ja);
    assert_eq!(a.mal.media_type, b.mal.media_type);
    assert_eq!(a.mal.rating, b.mal.rating);
}

/// One full run over a three-entry listing: an exact match, a
/// model-assisted match, and an unresolved entry.
fn run_once(prior: Option<SeasonData>) -> (SeasonData, Vec<bool>) {
    let listing = vec![
        node(10, "Alpha", Some("A"), "tv", 2026, Season::Winter),
        node(20, "Beta", Some("B"), "tv", 2026, Season::Winter),
        node(30, "Gamma", Some("C"), "tv", 2026, Season::Winter),
    ];
    let mut searched = vec![false, false, false];
    let mut rec = Reconciler::new(prior, 2026, Season::Winter);
    for (k, n) in listing.iter().enumerate() {
        match rec.begin_entry(n) {
            Disposition::Skipped => {}
            Disposition::Carried => {}
            Disposition::NeedsSearch { keyword } => {
                searched[k] = true;
                // The canned search behaviour per entry.
                let scoped: Vec<Subject> = match keyword.as_str() {
                    "A" => vec![subject(111, "A", Some("A-cn"))],
                    "B" => vec![subject(201, "B1", None), subject(202, "B2", None)],
                    _ => vec![],
                };
                let step = rec.scoped_results(&scoped);
                match step {
                    SearchStep::Settled => {}
                    SearchStep::AskModel { input: _ } => {
                        // The collaborator picks the second candidate for B.
                        let choice = if keyword == "B" { Some(202) } else { None };
                        rec.choice_result(choice);
                    }
                    SearchStep::RetryUnscoped { keyword: _ } => {
                        let step2 = rec.unscoped_results(&vec![]);
                        match step2 {
                            SearchStep::Settled => {}
                            SearchStep::AskModel { input: _ } => rec.choice_result(None),
                            SearchStep::RetryUnscoped { .. } => unreachable!(),
                        }
                    }
                }
            }
        }
    }
    (rec.finish(), searched)
}

#[test]
fn idempotent_rerun_is_unchanged() {
    let (first, searched1) = run_once(None);
    assert_eq!(searched1, vec![true, true, true]);
    assert_eq!(first.items.len(), 3);
    assert_eq!(first.items[0].status, ConfirmStatus::Match);
    assert_eq!(first.items[1].status, ConfirmStatus::Model);
    assert_eq!(first.items[2].status, ConfirmStatus::Unconfirmed);

    let (second, searched2) = run_once(Some(first.clone()));
    // Confirmed entries are carried without any search call.
    assert_eq!(searched2, vec![false, false, true]);
    assert_eq!(second.items.len(), first.items.len());
    for (a, b) in second.items.iter().zip(first.items.iter()) {
        assert_item_eq(a, b);
    }
}

#[test]
fn carry_forward_preserves_human_confirmation() {
    let prior = SeasonData {
        season: "2026-winter".to_string(),
        update_time: "2026-01-01T00:00:00+08:00".to_string(),
        items: vec![SeasonItem {
            status: ConfirmStatus::Human,
            bgm_id: Some(999),
            bgm_name: Some("Hand picked".to_string()),
            bgm_name_cn: None,
            candidates: vec![],
            mal: season_data::model::MalInfo {
                id: 10,
                title: "Alpha".to_string(),
                title_ja: Some("A".to_string()),
                media_type: season_data::model::MediaType::Tv,
                rating: season_data::model::Rating::General,
            },
        }],
    };
    let mut rec = Reconciler::new(Some(prior.clone()), 2026, Season::Winter);
    let n = node(10, "Alpha", Some("A"), "tv", 2026, Season::Winter);
    match rec.begin_entry(&n) {
        Disposition::Carried => {}
        _ => panic!("a confirmed entry must be carried forward"),
    }
    let out = rec.finish();
    assert_eq!(out.items.len(), 1);
    assert_item_eq(&out.items[0], &prior.items[0]);
}

#[test]
fn exact_match_wins_without_asking_the_model() {
    let mut rec = Reconciler::new(None, 2026, Season::Winter);
    let n = node(1, "X show", Some("X"), "tv", 2026, Season::Winter);
    match rec.begin_entry(&n) {
        Disposition::NeedsSearch { keyword } => assert_eq!(keyword, "X"),
        _ => panic!("a new entry must open a search"),
    }
    // Candidates include an exact native-title match plus others.
    let hits = vec![
        subject(7, "X the movie", None),
        subject(8, "X", Some("X-cn")),
        subject(9, "X 2", None),
    ];
    match rec.scoped_results(&hits) {
        SearchStep::Settled => {}
        _ => panic!("an exact match must settle at once, with no model call"),
    }
    let out = rec.finish();
    assert_eq!(out.items.len(), 1);
    assert_eq!(out.items[0].status, ConfirmStatus::Match);
    assert_eq!(out.items[0].bgm_id, Some(8));
    assert_eq!(out.items[0].bgm_name, Some("X".to_string()));
    assert_eq!(out.items[0].bgm_name_cn, Some("X-cn".to_string()));
    assert!(out.items[0].candidates.is_empty());
}

#[test]
fn fallback_search_keeps_single_candidate_unconfirmed() {
    let mut rec = Reconciler::new(None, 2026, Season::Winter);
    let n = node(2, "Y show", Some("Y"), "tv", 2026, Season::Winter);
    match rec.begin_entry(&n) {
        Disposition::NeedsSearch { .. } => {}
        _ => panic!("a new entry must open a search"),
    }
    // The scoped search finds nothing; the unscoped retry one candidate
    // that is no exact match; no collaborator is configured.
    match rec.scoped_results(&vec![]) {
        SearchStep::RetryUnscoped { keyword } => assert_eq!(keyword, "Y"),
        _ => panic!("an empty scoped search must fall back"),
    }
    match rec.unscoped_results(&vec![subject(5, "X", None)]) {
        SearchStep::AskModel { input: _ } => rec.choice_result(None),
        _ => panic!("one inexact candidate must go to disambiguation"),
    }
    let out = rec.finish();
    assert_eq!(out.items.len(), 1);
    assert_eq!(out.items[0].status, ConfirmStatus::Unconfirmed);
    assert_eq!(out.items[0].bgm_id, None);
    assert_eq!(out.items[0].candidates.len(), 1);
    assert_eq!(out.items[0].candidates[0].bgm_id, 5);
}

#[test]
fn entries_outside_media_set_leave_no_record() {
    let mut rec = Reconciler::new(None, 2026, Season::Winter);
    let music = node(3, "Some Music", None, "music", 2026, Season::Winter);
    match rec.begin_entry(&music) {
        Disposition::Skipped => {}
        _ => panic!("a music entry must be dropped entirely"),
    }
    let continuing = node(4, "Continuing", None, "tv", 2025, Season::Fall);
    match rec.begin_entry(&continuing) {
        Disposition::Skipped => {}
        _ => panic!("an entry of another period must be dropped"),
    }
    let out = rec.finish();
    assert!(out.items.is_empty());
}

#[test]
fn duplicate_ids_yield_one_record() {
    let mut rec = Reconciler::new(None, 2026, Season::Winter);
    let first = node(6, "Dup", Some("D"), "tv", 2026, Season::Winter);
    match rec.begin_entry(&first) {
        Disposition::NeedsSearch { .. } => {}
        _ => panic!("a new entry must open a search"),
    }
    match rec.scoped_results(&vec![subject(60, "D", None)]) {
        SearchStep::Settled => {}
        _ => panic!("an exact match must settle at once"),
    }
    let again = node(6, "Dup", Some("D"), "tv", 2026, Season::Winter);
    match rec.begin_entry(&again) {
        Disposition::Skipped => {}
        _ => panic!("a repeated identifier must be dropped"),
    }
    let out = rec.finish();
    assert_eq!(out.items.len(), 1);
    for i in 0..out.items.len() {
        for j in 0..i {
            assert_ne!(out.items[i].mal.id, out.items[j].mal.id);
        }
    }
}

#[test]
fn end_to_end_single_entry_scenario() {
    let mut n = node(
        59978,
        "Sousou no Frieren 2nd Season",
        Some("葬送のフリーレン 第2期"),
        "tv",
        2026,
        Season::Winter,
    );
    n.rating = Some("pg_13".to_string());
    let mut rec = Reconciler::new(None, 2026, Season::Winter);
    match rec.begin_entry(&n) {
        Disposition::NeedsSearch { keyword } => assert_eq!(keyword, "葬送のフリーレン 第2期"),
        _ => panic!("a new entry must open a search"),
    }
    let hits = vec![subject(400602, "葬送のフリーレン 第2期", None)];
    match rec.scoped_results(&hits) {
        SearchStep::Settled => {}
        _ => panic!("the exact candidate must settle the entry"),
    }
    let out = rec.finish();
    assert_eq!(out.season, "2026-winter");
    assert_eq!(out.items.len(), 1);
    let item = &out.items[0];
    assert_eq!(item.status, ConfirmStatus::Match);
    assert_eq!(item.bgm_id, Some(400602));
    assert_eq!(item.bgm_name, Some("葬送のフリーレン 第2期".to_string()));
    assert!(item.candidates.is_empty());
    assert_eq!(item.mal.id, 59978);
    assert_eq!(item.mal.media_type, season_data::model::MediaType::Tv);
    assert_eq!(item.mal.rating, season_data::model::Rating::General);
}
