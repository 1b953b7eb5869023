use codex_widget::api::{usage_completions_url, usage_costs_url, ApiParams, BASE_URL};
use codex_widget::fetcher::{merge_fetch_errors, DataFetcher};

#[test]
fn urls_point_at_the_reporting_endpoints() {
    assert_eq!(BASE_URL, "https://api.openai.com/v1");
    assert_eq!(
        usage_completions_url(),
        "https://api.openai.com/v1/organization/usage/completions"
    );
    assert_eq!(usage_costs_url(), "https://api.openai.com/v1/organization/costs");
}

#[test]
fn query_pairs_list_range_width_and_groups() {
    let params = ApiParams {
        start_time: -5,
        end_time: 1700000000,
        bucket_width: "1d".to_string(),
        group_by: vec!["model".to_string(), "project_id".to_string()],
    };
    let pairs = params.to_query_pairs();
    let expected: Vec<(&str, String)> = vec![
        ("start_time", "-5".to_string()),
        ("end_time", "1700000000".to_string()),
        ("bucket_width", "1d".to_string()),
        ("group_by[]", "model".to_string()),
        ("group_by[]", "project_id".to_string()),
    ];
    assert_eq!(pairs, expected);
}

#[test]
fn query_pairs_without_groups_and_extreme_times() {
    let params = ApiParams {
        start_time: i64::MIN,
        end_time: 0,
        bucket_width: "1h".to_string(),
        group_by: vec![],
    };
    let pairs = params.to_query_pairs();
    assert_eq!(pairs.len(), 3);
    assert_eq!(pairs[0], ("start_time", "-9223372036854775808".to_string()));
    assert_eq!(pairs[1], ("end_time", "0".to_string()));
    assert_eq!(pairs[2], ("bucket_width", "1h".to_string()));
}

#[test]
fn headers_carry_the_key_and_the_organization_when_set() {
    let f = DataFetcher::new("sk-test".to_string(), "org-1".to_string());
    let h = f.request_headers();
    assert_eq!(
        h,
        vec![
            ("Authorization", "Bearer sk-test".to_string()),
            ("OpenAI-Organization", "org-1".to_string()),
        ]
    );
    let g = DataFetcher::new("k".to_string(), String::new());
    assert_eq!(g.request_headers(), vec![("Authorization", "Bearer k".to_string())]);
}

#[test]
fn request_windows_are_seven_and_thirty_days() {
    let u = DataFetcher::usage_params(1_000_000);
    assert_eq!(u.start_time, 1_000_000 - 7 * 86400);
    assert_eq!(u.end_time, 1_000_000);
    assert_eq!(u.bucket_width, "1d");
    assert_eq!(u.group_by, vec!["model".to_string(), "project_id".to_string()]);
    let c = DataFetcher::cost_params(3_000_000);
    assert_eq!(c.start_time, 3_000_000 - 30 * 86400);
    assert_eq!(c.end_time, 3_000_000);
    assert_eq!(c.bucket_width, "1d");
    assert!(c.group_by.is_empty());
}

#[test]
fn fetch_errors_are_joined() {
    assert_eq!(merge_fetch_errors(None, None), None);
    assert_eq!(
        merge_fetch_errors(Some("timeout".to_string()), None),
        Some("Usage API error: timeout".to_string())
    );
    assert_eq!(
        merge_fetch_errors(None, Some("401".to_string())),
        Some("Costs API error: 401".to_string())
    );
    assert_eq!(
        merge_fetch_errors(Some("a".to_string()), Some("b".to_string())),
        Some("Usage API error: a; Costs API error: b".to_string())
    );
}
