use codex_widget::fetcher::DataFetcher;
use codex_widget::usage::{
    sort_models_by_tokens, summarize_usage, ModelUsage, UsageBucket, UsageResponse, UsageResult,
};

fn result(model: Option<&str>, input: u64, output: u64, requests: u64) -> UsageResult {
    UsageResult {
        input_tokens: input,
        output_tokens: output,
        num_model_requests: requests,
        model: model.map(|m| m.to_string()),
        project_id: None,
    }
}

fn line(model: &str, input: u64, output: u64, requests: u64) -> ModelUsage {
    ModelUsage { model: model.to_string(), input_tokens: input, output_tokens: output, requests }
}

fn sample() -> UsageResponse {
    UsageResponse {
        data: vec![
            UsageBucket {
                start_time: 0,
                end_time: 86400,
                results: vec![
                    result(Some("gpt-4o"), 100, 50, 2),
                    result(Some("o3"), 10, 5, 1),
                    result(None, 7, 3, 1),
                ],
            },
            UsageBucket { start_time: 86400, end_time: 172800, results: vec![] },
            UsageBucket {
                start_time: 172800,
                end_time: 259200,
                results: vec![result(Some("o3"), 400, 100, 4), result(Some("gpt-4o"), 1, 1, 1)],
            },
        ],
    }
}

#[test]
fn totals_sum_every_result() {
    let s = summarize_usage(&sample());
    assert_eq!(s.total_input, 518);
    assert_eq!(s.total_output, 159);
    assert_eq!(s.total_tokens, 677);
    assert_eq!(s.total_requests, 9);
}

#[test]
fn lines_follow_first_occurrence_before_sorting() {
    let s = summarize_usage(&sample());
    let names: Vec<&str> = s.models.iter().map(|m| m.model.as_str()).collect();
    assert_eq!(names, vec!["gpt-4o", "o3", "unknown"]);
    assert_eq!(s.models[0].input_tokens, 101);
    assert_eq!(s.models[0].output_tokens, 51);
    assert_eq!(s.models[0].requests, 3);
}

#[test]
fn aggregate_usage_lists_models_largest_first() {
    let f = DataFetcher::new("k".to_string(), String::new());
    let s = f.aggregate_usage(&sample());
    let got: Vec<(String, u64, u64, u64)> = s
        .models
        .iter()
        .map(|m| (m.model.clone(), m.input_tokens, m.output_tokens, m.requests))
        .collect();
    assert_eq!(
        got,
        vec![
            ("o3".to_string(), 410, 105, 5),
            ("gpt-4o".to_string(), 101, 51, 3),
            ("unknown".to_string(), 7, 3, 1),
        ]
    );
    assert_eq!(s.total_tokens, 677);
}

#[test]
fn model_lines_add_up_to_the_totals() {
    let f = DataFetcher::new("k".to_string(), String::new());
    let s = f.aggregate_usage(&sample());
    let input: u64 = s.models.iter().map(|m| m.input_tokens).sum();
    let output: u64 = s.models.iter().map(|m| m.output_tokens).sum();
    let requests: u64 = s.models.iter().map(|m| m.requests).sum();
    assert_eq!((input, output, requests), (s.total_input, s.total_output, s.total_requests));
}

#[test]
fn empty_report_gives_nothing() {
    let f = DataFetcher::new("k".to_string(), String::new());
    let s = f.aggregate_usage(&UsageResponse { data: vec![] });
    assert_eq!(s.total_tokens, 0);
    assert_eq!(s.total_requests, 0);
    assert!(s.models.is_empty());
}

#[test]
fn sorting_keeps_ties_in_order() {
    let lines = vec![line("a", 1, 1, 0), line("b", 5, 0, 0), line("c", 2, 0, 1), line("d", 0, 5, 0)];
    let sorted = sort_models_by_tokens(&lines);
    let names: Vec<&str> = sorted.iter().map(|m| m.model.as_str()).collect();
    assert_eq!(names, vec!["b", "d", "a", "c"]);
}

#[test]
fn large_counters_at_the_limit() {
    let resp = UsageResponse {
        data: vec![UsageBucket {
            start_time: 0,
            end_time: 1,
            results: vec![result(Some("m"), u64::MAX - 1, 1, u64::MAX)],
        }],
    };
    let f = DataFetcher::new("k".to_string(), String::new());
    let s = f.aggregate_usage(&resp);
    assert_eq!(s.total_tokens, u64::MAX);
    assert_eq!(s.total_requests, u64::MAX);
    assert_eq!(s.models.len(), 1);
}
