use es_tools::content::Content;
use es_tools::json::{Json, JsonNumber, JsonObject};
use es_tools::limits::{
    max_index_list, max_response_chars, max_search_size, parse_count, SafetyLimits,
    DEFAULT_MAX_INDEX_LIST, DEFAULT_MAX_RESPONSE_CHARS, DEFAULT_MAX_SEARCH_SIZE,
    MAX_INDEX_LIST_VAR, MAX_RESPONSE_CHARS_VAR, MAX_SEARCH_SIZE_VAR,
};
use es_tools::query::augment;
use es_tools::tools::EsBaseTools;
use es_tools::truncate::{maybe_truncate, NOTICE_HEAD, NOTICE_MIDDLE, NOTICE_TAIL};

fn notice(max_chars: usize, total: usize) -> String {
    format!("{}{}{}{}{}", NOTICE_HEAD, max_chars, NOTICE_MIDDLE, total, NOTICE_TAIL)
}

#[test]
fn test_truncation_logic() {
    // Mixed ASCII and three-byte characters: byte 8 lies inside the first of them.
    let test_str = "Hello 世界".to_string();
    let max_chars = 8;

    let (content, truncated) = maybe_truncate(test_str.clone(), max_chars);
    assert!(truncated);
    let end = content.find(NOTICE_HEAD).unwrap();

    assert!(end > 0, "Should find valid boundary");
    assert!(test_str.is_char_boundary(end), "End should be valid char boundary");
    assert_eq!(&test_str[..end], "Hello ", "Should truncate at char boundary before Chinese char");
    assert_eq!(&content[..end], "Hello ");
    assert_eq!(content, format!("Hello {}", notice(8, 12)));
}

#[test]
fn test_size_limit_enforcement() {
    let mut query_body = JsonObject::new();
    query_body.insert("size".to_string(), Json::Number(JsonNumber::Unsigned(500)));

    let hard_max = 200u64;

    let query_body = augment(query_body, &Vec::new(), hard_max);

    assert_eq!(query_body.get("size").unwrap().as_u64().unwrap(), 200);
}

#[test]
fn test_size_limit_no_change_when_within_limit() {
    let mut query_body = JsonObject::new();
    query_body.insert("size".to_string(), Json::Number(JsonNumber::Unsigned(50)));

    let hard_max = 200u64;
    let original_size = query_body.get("size").unwrap().as_u64().unwrap();

    let query_body = augment(query_body, &Vec::new(), hard_max);

    assert_eq!(query_body.get("size").unwrap().as_u64().unwrap(), original_size);
}

#[test]
fn test_index_list_truncation() {
    let response: Vec<Json> = (0..150)
        .map(|i| {
            let mut row = JsonObject::new();
            row.insert("index".to_string(), Json::Text(format!("test-{}", i)));
            Json::Object(row)
        })
        .collect();
    let first = response[0].clone();
    let last_shown = response[99].clone();

    let max_list = 100;
    let limits = SafetyLimits { max_response_chars: 15_000, max_search_size: 200, max_index_list: max_list };
    let parts = EsBaseTools::new(limits).list_indices_detailed(response);

    assert_eq!(parts.len(), 2);
    let truncated = parts[0]
        == Content::Text(
            "Found 150 indices (showing first 100, use index_pattern to filter):".to_string(),
        );
    match &parts[1] {
        Content::CappedJson { data: Json::Array(response), max_chars } => {
            assert_eq!(response.len(), 100);
            assert_eq!(response[0], first);
            assert_eq!(response[99], last_shown);
            assert_eq!(*max_chars, 15_000);
        }
        other => panic!("unexpected part {:?}", other),
    }
    assert!(truncated);
}

#[test]
fn test_env_var_defaults() {
    // What the limits are where the configuration holds nothing under their names.
    let max_response = max_response_chars(None);
    let max_size = max_search_size(None);
    let max_list = max_index_list(None);

    assert_eq!(max_response, 15_000);
    assert_eq!(max_size, 200);
    assert_eq!(max_list, 100);
    assert_eq!(DEFAULT_MAX_RESPONSE_CHARS, 15_000);
    assert_eq!(DEFAULT_MAX_SEARCH_SIZE, 200);
    assert_eq!(DEFAULT_MAX_INDEX_LIST, 100);
}

#[test]
fn test_env_var_override() {
    let max_response = max_response_chars(Some("20000"));
    let max_size = max_search_size(Some("300"));
    let max_list = max_index_list(Some("150"));

    assert_eq!(max_response, 20_000);
    assert_eq!(max_size, 300);
    assert_eq!(max_list, 150);
}

#[test]
fn configuration_names() {
    assert_eq!(MAX_RESPONSE_CHARS_VAR, "MCP_MAX_RESPONSE_CHARS");
    assert_eq!(MAX_SEARCH_SIZE_VAR, "MCP_MAX_SEARCH_SIZE");
    assert_eq!(MAX_INDEX_LIST_VAR, "MCP_MAX_INDEX_LIST");
}

#[test]
fn unreadable_values_fall_back() {
    for raw in ["", "abc", "-5", "1.5", " 7", "7 ", "99999999999999999999999999"] {
        assert_eq!(max_response_chars(Some(raw)), 15_000, "on {:?}", raw);
        assert_eq!(max_search_size(Some(raw)), 200, "on {:?}", raw);
        assert_eq!(max_index_list(Some(raw)), 100, "on {:?}", raw);
    }
    assert_eq!(max_search_size(Some("0")), 0);
    assert_eq!(max_search_size(Some("+12")), 12);
    assert_eq!(max_search_size(Some("18446744073709551615")), u64::MAX);
}

#[test]
fn parse_count_agrees_with_std_on_edge_cases() {
    let cases = [
        "", "+", "-", "0", "+0", "007", "+15", "-1", " 5", "5 ", "1_000", "12a", "++1",
        "18446744073709551615", "18446744073709551616", "99999999999999999999999", "٣",
    ];
    for text in cases {
        assert_eq!(parse_count(text), text.parse::<u64>().ok(), "on {:?}", text);
    }
}

#[test]
fn limits_resolve_each_value_on_its_own() {
    let limits = SafetyLimits::resolve(Some("abc"), Some("7"), None);
    assert_eq!(limits.max_response_chars, 15_000);
    assert_eq!(limits.max_search_size, 7);
    assert_eq!(limits.max_index_list, 100);
    assert_eq!(SafetyLimits::default(), SafetyLimits::resolve(None, None, None));
}

#[test]
fn text_within_budget_is_unchanged() {
    assert_eq!(maybe_truncate("abc".to_string(), 5), ("abc".to_string(), false));
    assert_eq!(maybe_truncate("abc".to_string(), 3), ("abc".to_string(), false));
    assert_eq!(maybe_truncate(String::new(), 0), (String::new(), false));
    // The budget counts bytes: "世界" has six.
    assert_eq!(maybe_truncate("世界".to_string(), 6), ("世界".to_string(), false));
}

#[test]
fn text_just_over_budget_is_cut() {
    assert_eq!(maybe_truncate("abcd".to_string(), 3), (format!("abc{}", notice(3, 4)), true));
    assert_eq!(maybe_truncate("世界".to_string(), 5), (format!("世{}", notice(5, 6)), true));
    assert_eq!(maybe_truncate("世界".to_string(), 4), (format!("世{}", notice(4, 6)), true));
    assert_eq!(maybe_truncate("世界".to_string(), 3), (format!("世{}", notice(3, 6)), true));
    assert_eq!(maybe_truncate("世界".to_string(), 2), (notice(2, 6), true));
}

#[test]
fn zero_budget_keeps_nothing_but_the_notice() {
    assert_eq!(maybe_truncate("abc".to_string(), 0), (notice(0, 3), true));
}

#[test]
fn notice_wording() {
    let (content, truncated) = maybe_truncate("x".repeat(20_000), 15_000);
    assert!(truncated);
    assert_eq!(
        &content[15_000..],
        "\n\n[已截断：响应超过 15000 字符（共 20000 字符），请缩小查询范围、添加过滤条件或指定 _source 字段]"
    );
    assert_eq!(&content[..15_000], "x".repeat(15_000));
}

#[test]
fn cut_never_splits_a_character() {
    let text = "aé世🦀z".to_string();
    for max in 0..text.len() {
        let (content, truncated) = maybe_truncate(text.clone(), max);
        assert!(truncated);
        let end = content.find(NOTICE_HEAD).unwrap();
        assert!(end <= max);
        assert!(text.is_char_boundary(end));
        assert_eq!(&content[..end], &text[..end]);
        // No later place within the budget lies between two characters.
        assert!((end + 1..=max).all(|k| !text.is_char_boundary(k)));
        assert_eq!(&content[end..], notice(max, text.len()));
    }
    assert_eq!(maybe_truncate(text.clone(), text.len()), (text, false));
}

#[test]
fn a_text_that_reads_as_its_own_truncation_comes_back_equal() {
    // Ten letters followed by the notice for a budget of ten and for the
    // length of the whole: cutting it gives the same text again.
    let mut total = 0;
    let mut text = String::new();
    for guess in 10..1000 {
        let candidate = format!("0123456789{}", notice(10, guess));
        if candidate.len() == guess {
            total = guess;
            text = candidate;
        }
    }
    assert!(total > 10);
    let (content, truncated) = maybe_truncate(text.clone(), 10);
    assert!(truncated);
    assert_eq!(content, text);
}
