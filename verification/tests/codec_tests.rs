use season_data::codec::{from_json, is_absent_content, to_json};
use season_data::model::{
    BgmCandidate, ConfirmStatus, MalInfo, MediaType, Rating, SeasonData, SeasonItem,
};

fn frieren_data() -> SeasonData {
    SeasonData {
        season: "2026-winter".to_string(),
        update_time: "2026-01-22T10:36:29+08:00".to_string(),
        items: vec![SeasonItem {
            status: ConfirmStatus::Match,
            bgm_id: Some(400602),
            bgm_name: Some("葬送のフリーレン 第2期".to_string()),
            bgm_name_cn: Some("葬送的芙莉莲 第二季".to_string()),
            candidates: vec![],
            mal: MalInfo {
                id: 59978,
                title: "Sousou no Frieren 2nd Season".to_string(),
                title_ja: Some("葬送のフリーレン 第2期".to_string()),
                media_type: MediaType::Tv,
                rating: Rating::General,
            },
        }],
    }
}

fn assert_data_eq(a: &SeasonData, b: &SeasonData) {
    assert_eq!(a.season, b.season);
    assert_eq!(a.update_time, b.update_time);
    assert_eq!(a.items.len(), b.items.len());
    for (x, y) in a.items.iter().zip(b.items.iter()) {
        assert_eq!(x.status, y.status);
        assert_eq!(x.bgm_id, y.bgm_id);
        assert_eq!(x.bgm_name, y.bgm_name);
        assert_eq!(x.bgm_name_cn, y.bgm_name_cn);
        assert_eq!(x.candidates.len(), y.candidates.len());
        for (ca, cb) in x.candidates.iter().zip(y.candidates.iter()) {
            assert_eq!(ca.bgm_id, cb.bgm_id);
            assert_eq!(ca.bgm_name, cb.bgm_name);
            assert_eq!(ca.bgm_name_cn, cb.bgm_name_cn);
        }
        assert_eq!(x.mal.id, y.mal.id);
        assert_eq!(x.mal.title, y.mal.title);
        assert_eq!(x.mal.title_ja, y.mal.title_ja);
        assert_eq!(x.mal.media_type, y.mal.media_type);
        assert_eq!(x.mal.rating, y.mal.rating);
    }
}

#[test]
fn test_season_data_serialization() {
    let data = frieren_data();
    let json = to_json(&data);
    assert!(json.contains("\"season\":\"2026-winter\""));
    assert!(json.contains("\"bgm_id\":400602"));
    assert!(json.contains("\"status\":\"match\""));

    let parsed = from_json(&json).unwrap();
    assert_eq!(parsed.season, "2026-winter");
    assert_eq!(parsed.items.len(), 1);
    assert_eq!(parsed.items[0].bgm_id, Some(400602));
    assert_eq!(parsed.items[0].status, ConfirmStatus::Match);
}

#[test]
fn status_names_in_written_form() {
    let mut data = frieren_data();
    let mut mk = |id: u64, status: ConfirmStatus| SeasonItem {
        status,
        bgm_id: if status == ConfirmStatus::Unconfirmed { None } else { Some(id) },
        bgm_name: if status == ConfirmStatus::Unconfirmed { None } else { Some("n".to_string()) },
        bgm_name_cn: None,
        candidates: vec![],
        mal: MalInfo {
            id,
            title: "t".to_string(),
            title_ja: None,
            media_type: MediaType::Tv,
            rating: Rating::General,
        },
    };
    data.items = vec![
        mk(1, ConfirmStatus::Unconfirmed),
        mk(2, ConfirmStatus::Match),
        mk(3, ConfirmStatus::Model),
        mk(4, ConfirmStatus::Human),
    ];
    let json = to_json(&data);
    assert!(json.contains("\"unconfirmed\""));
    assert!(json.contains("\"match\""));
    assert!(json.contains("\"model\""));
    assert!(json.contains("\"human\""));
}

#[test]
fn round_trip_reproduces_every_field() {
    let data = frieren_data();
    let reread = from_json(&to_json(&data)).unwrap();
    assert_data_eq(&reread, &data);
}

#[test]
fn round_trip_with_candidates_and_escapes() {
    let data = SeasonData {
        season: "2025-fall".to_string(),
        update_time: "2025-10-01T00:00:00+00:00".to_string(),
        items: vec![
            SeasonItem {
                status: ConfirmStatus::Unconfirmed,
                bgm_id: None,
                bgm_name: None,
                bgm_name_cn: None,
                candidates: vec![
                    BgmCandidate {
                        bgm_id: 1,
                        bgm_name: "A \"quoted\" name".to_string(),
                        bgm_name_cn: Some("back\\slash".to_string()),
                    },
                    BgmCandidate {
                        bgm_id: 2,
                        bgm_name: "".to_string(),
                        bgm_name_cn: None,
                    },
                ],
                mal: MalInfo {
                    id: 77,
                    title: "Title with , and : and {braces}".to_string(),
                    title_ja: None,
                    media_type: MediaType::Ona,
                    rating: Rating::R18,
                },
            },
            SeasonItem {
                status: ConfirmStatus::Human,
                bgm_id: Some(18446744073709551615),
                bgm_name: Some("max id".to_string()),
                bgm_name_cn: None,
                candidates: vec![],
                mal: MalInfo {
                    id: 0,
                    title: "zero".to_string(),
                    title_ja: Some("零".to_string()),
                    media_type: MediaType::TvSpecial,
                    rating: Rating::Kids,
                },
            },
        ],
    };
    let json = to_json(&data);
    let reread = from_json(&json).unwrap();
    assert_data_eq(&reread, &data);
}

#[test]
fn empty_candidate_list_is_normalized_away() {
    let data = frieren_data();
    let json = to_json(&data);
    assert!(!json.contains("candidates"));
    let reread = from_json(&json).unwrap();
    assert!(reread.items[0].candidates.is_empty());
}

#[test]
fn absent_state_forms() {
    assert!(is_absent_content(""));
    assert!(is_absent_content("   \n\t"));
    assert!(is_absent_content("{}"));
    assert!(is_absent_content("  {} \n"));
    assert!(!is_absent_content("{ }"));
    assert!(!is_absent_content(&to_json(&frieren_data())));
}

#[test]
fn malformed_text_reads_to_nothing() {
    assert_eq!(from_json("").map(|_| ()), None);
    assert_eq!(from_json("{}").map(|_| ()), None);
    assert_eq!(from_json("{\"season\":\"x\"}").map(|_| ()), None);
    let good = to_json(&frieren_data());
    let mut truncated = good.clone();
    truncated.pop();
    assert_eq!(from_json(&truncated).map(|_| ()), None);
    let trailing = format!("{} ", good);
    assert_eq!(from_json(&trailing).map(|_| ()), None);
}
