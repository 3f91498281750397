use season_data::bgmtv::{SearchFilter, SearchRequest, SortOrder, SubjectType};
use season_data::ds::{
    ChatResponse, Choice, Message, Role, Usage, build_match_input, match_system_prompt,
    parse_match_result,
};
use season_data::model::BgmCandidate;

#[test]
fn test_subject_type_values() {
    assert_eq!(u8::from(SubjectType::Book), 1);
    assert_eq!(u8::from(SubjectType::Anime), 2);
    assert_eq!(u8::from(SubjectType::Music), 3);
    assert_eq!(u8::from(SubjectType::Game), 4);
    assert_eq!(u8::from(SubjectType::Real), 6);
}

#[test]
fn test_search_filter_anime() {
    let filter = SearchFilter::anime();
    assert_eq!(filter.subject_type, Some(vec![2]));
}

#[test]
fn test_search_filter_with_date_range() {
    let filter = SearchFilter::anime().air_date_range("2020-07-01", "2020-10-01");
    assert_eq!(
        filter.air_date,
        Some(vec![">=2020-07-01".to_string(), "<2020-10-01".to_string()])
    );
}

#[test]
fn test_search_request_builders() {
    let request = SearchRequest::new("葬送的芙莉莲")
        .with_sort(SortOrder::Rank)
        .with_filter(SearchFilter::anime().include_nsfw());
    assert_eq!(request.keyword, "葬送的芙莉莲");
    assert_eq!(request.sort, SortOrder::Rank);
    let filter = request.filter.unwrap();
    assert_eq!(filter.subject_type, Some(vec![2]));
    assert_eq!(filter.nsfw, Some(true));
}

#[test]
fn test_message_creation() {
    let system = Message::system("你是助手");
    assert_eq!(system.role, Role::System);
    assert_eq!(system.content, "你是助手");

    let user = Message::user("你好");
    assert_eq!(user.role, Role::User);
}

#[test]
fn test_chat_response_content() {
    let response = ChatResponse {
        id: "chatcmpl-123".to_string(),
        object: "chat.completion".to_string(),
        created: 1700000000,
        model: "deepseek-chat".to_string(),
        choices: vec![Choice {
            index: 0,
            message: Message::assistant("你好！"),
            finish_reason: Some("stop".to_string()),
        }],
        usage: Usage {
            prompt_tokens: 10,
            completion_tokens: 5,
            total_tokens: 15,
            prompt_cache_hit_tokens: Some(8),
            prompt_cache_miss_tokens: Some(2),
        },
    };
    assert_eq!(response.content(), Some("你好！"));

    let empty = ChatResponse {
        id: "chatcmpl-124".to_string(),
        object: "chat.completion".to_string(),
        created: 1700000000,
        model: "deepseek-chat".to_string(),
        choices: vec![],
        usage: Usage {
            prompt_tokens: 1,
            completion_tokens: 0,
            total_tokens: 1,
            prompt_cache_hit_tokens: None,
            prompt_cache_miss_tokens: None,
        },
    };
    assert_eq!(empty.content(), None);
}

#[test]
fn test_system_prompt_is_compact() {
    assert!(match_system_prompt().len() < 150);
}

#[test]
fn test_match_result_deserialize() {
    let result = parse_match_result("{\"id\":400602}");
    assert_eq!(result, Some(Some(400602)));

    let result_null = parse_match_result("{\"id\":null}");
    assert_eq!(result_null, Some(None));
}

#[test]
fn test_match_result_rejects_malformed() {
    assert_eq!(parse_match_result(""), None);
    assert_eq!(parse_match_result("the best match is 400602"), None);
    assert_eq!(parse_match_result("{\"id\":}"), None);
    assert_eq!(parse_match_result("{\"id\":0123}"), None);
    assert_eq!(parse_match_result("{\"id\":12.5}"), None);
    assert_eq!(parse_match_result("{\"id\":1} trailing"), None);
    assert_eq!(parse_match_result("  { \"id\" : 7 }  "), Some(Some(7)));
}

#[test]
fn test_build_match_input_layout() {
    let candidates = vec![
        BgmCandidate {
            bgm_id: 400602,
            bgm_name: "葬送のフリーレン 第2期".to_string(),
            bgm_name_cn: Some("葬送的芙莉莲 第二季".to_string()),
        },
        BgmCandidate {
            bgm_id: 303864,
            bgm_name: "葬送のフリーレン".to_string(),
            bgm_name_cn: None,
        },
    ];
    let input = build_match_input(
        "Sousou no Frieren 2nd Season",
        Some("葬送のフリーレン 第2期"),
        &candidates,
    );
    assert_eq!(
        input,
        "MAL:Sousou no Frieren 2nd Season|葬送のフリーレン 第2期\nBGM:\n400602:葬送のフリーレン 第2期|葬送的芙莉莲 第二季\n303864:葬送のフリーレン"
    );
}
