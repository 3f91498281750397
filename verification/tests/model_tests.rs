use season_data::mal::{AlternativeTitles, AnimeNode, Season};
use season_data::model::{ConfirmStatus, MalInfo, MediaType, Rating, season_date_range};

fn bare_node(id: u64, title: &str, media_type: Option<&str>) -> AnimeNode {
    AnimeNode {
        id,
        title: title.to_string(),
        main_picture: None,
        alternative_titles: None,
        start_date: None,
        end_date: None,
        synopsis: None,
        media_type: media_type.map(|s| s.to_string()),
        status: None,
        num_episodes: None,
        start_season: None,
        broadcast: None,
        source: None,
        studios: vec![],
        rating: None,
    }
}

#[test]
fn test_rating_from_mal() {
    assert_eq!(Rating::from_mal(Some("g")), Rating::Kids);
    assert_eq!(Rating::from_mal(Some("pg")), Rating::Kids);
    assert_eq!(Rating::from_mal(Some("pg_13")), Rating::General);
    assert_eq!(Rating::from_mal(Some("r")), Rating::General);
    assert_eq!(Rating::from_mal(Some("r+")), Rating::R18);
    assert_eq!(Rating::from_mal(Some("rx")), Rating::R18);
    assert_eq!(Rating::from_mal(None), Rating::General);
}

#[test]
fn test_media_type_from_mal() {
    assert_eq!(MediaType::from_mal(Some("tv")), Some(MediaType::Tv));
    assert_eq!(MediaType::from_mal(Some("ova")), Some(MediaType::Ova));
    assert_eq!(MediaType::from_mal(Some("ona")), Some(MediaType::Ona));
    assert_eq!(MediaType::from_mal(Some("movie")), Some(MediaType::Movie));
    assert_eq!(MediaType::from_mal(Some("special")), Some(MediaType::Special));
    assert_eq!(MediaType::from_mal(Some("tv_special")), Some(MediaType::TvSpecial));
    assert_eq!(MediaType::from_mal(Some("music")), None);
    assert_eq!(MediaType::from_mal(Some("pv")), None);
    assert_eq!(MediaType::from_mal(None), None);
}

#[test]
fn test_season_date_range() {
    let (start, end) = season_date_range(2026, Season::Winter);
    assert_eq!(start, "2025-12-01");
    assert_eq!(end, "2026-03-31");

    let (start, end) = season_date_range(2026, Season::Spring);
    assert_eq!(start, "2026-03-01");
    assert_eq!(end, "2026-06-30");

    let (start, end) = season_date_range(2026, Season::Summer);
    assert_eq!(start, "2026-06-01");
    assert_eq!(end, "2026-09-30");

    let (start, end) = season_date_range(2026, Season::Fall);
    assert_eq!(start, "2026-09-01");
    assert_eq!(end, "2026-12-31");
}

#[test]
fn test_season_display() {
    assert_eq!(Season::Winter.as_str(), "winter");
    assert_eq!(Season::Spring.as_str(), "spring");
    assert_eq!(Season::Summer.as_str(), "summer");
    assert_eq!(Season::Fall.as_str(), "fall");
}

#[test]
fn test_confirm_status() {
    assert!(!ConfirmStatus::Unconfirmed.is_confirmed());
    assert!(ConfirmStatus::Match.is_confirmed());
    assert!(ConfirmStatus::Model.is_confirmed());
    assert!(ConfirmStatus::Human.is_confirmed());
}

#[test]
fn test_mal_info_from_anime_node() {
    let mut node = bare_node(59978, "Sousou no Frieren 2nd Season", Some("tv"));
    node.alternative_titles = Some(AlternativeTitles {
        en: Some("Frieren Season 2".to_string()),
        ja: Some("葬送のフリーレン 第2期".to_string()),
        synonyms: vec![],
    });
    node.start_date = Some("2026-01-16".to_string());
    node.num_episodes = Some(12);
    node.rating = Some("pg_13".to_string());

    let info = MalInfo::from_anime_node(&node).unwrap();
    assert_eq!(info.id, 59978);
    assert_eq!(info.title, "Sousou no Frieren 2nd Season");
    assert_eq!(info.title_ja, Some("葬送のフリーレン 第2期".to_string()));
    assert_eq!(info.media_type, MediaType::Tv);
    assert_eq!(info.rating, Rating::General);
}

#[test]
fn test_skip_music_and_pv() {
    let music_node = bare_node(1, "Some Music", Some("music"));
    assert!(MalInfo::from_anime_node(&music_node).is_none());

    let pv_node = bare_node(2, "Some PV", Some("pv"));
    assert!(MalInfo::from_anime_node(&pv_node).is_none());
}
