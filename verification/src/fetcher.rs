//! What the client sends to the usage and cost endpoints, and what it makes
//! of their answers.

use vstd::prelude::*;

use crate::api::ApiParams;
use crate::usage::{
    all_results, breakdown_of, by_tokens_descending, lemma_line_tokens_fit, lemma_rearranged_breakdown,
    sort_models_by_tokens, summarize_usage, total, totals_fit, UsageResponse, UsageSummary, counter_input,
    counter_output, counter_requests,
};

verus! {

/// Client of the platform's usage and cost endpoints: the credentials it
/// sends.
pub struct DataFetcher {
    api_key: String,
    org_id: String,
}

/// Seconds in a day.
pub const SECS_PER_DAY: i64 = 86400;

/// The header pairs of a request: the bearer token, and the organization
/// when one is set.
pub open spec fn request_headers_for(api_key: Seq<char>, org_id: Seq<char>) -> Seq<(Seq<char>, Seq<char>)> {
    seq![("Authorization"@, "Bearer "@ + api_key)] + if org_id.len() == 0 {
        Seq::empty()
    } else {
        seq![("OpenAI-Organization"@, org_id)]
    }
}

/// The error text of a refresh: one part for each endpoint that failed,
/// joined by `; `.
pub open spec fn fetch_error_text(usage_error: Option<Seq<char>>, costs_error: Option<Seq<char>>) -> Option<Seq<char>> {
    match (usage_error, costs_error) {
        (None, None) => None,
        (Some(u), None) => Some("Usage API error: "@ + u),
        (None, Some(c)) => Some("Costs API error: "@ + c),
        (Some(u), Some(c)) => Some("Usage API error: "@ + u + "; "@ + ("Costs API error: "@ + c)),
    }
}

/// The text of an optional error.
pub open spec fn opt_text(e: Option<String>) -> Option<Seq<char>> {
    match e {
        Some(s) => Some(s@),
        None => None,
    }
}

impl DataFetcher {
    /// The API key sent with each request.
    pub closed spec fn spec_api_key(&self) -> Seq<char> {
        self.api_key@
    }

    /// The organization sent with each request (none when empty).
    pub closed spec fn spec_org_id(&self) -> Seq<char> {
        self.org_id@
    }

    /// A client that authenticates with `api_key`, for organization `org_id`.
    pub fn new(api_key: String, org_id: String) -> (f: DataFetcher)
        ensures
            f.spec_api_key() == api_key@,
            f.spec_org_id() == org_id@,
    {
        DataFetcher { api_key, org_id }
    }

    /// The header pairs of every request.
    pub fn request_headers(&self) -> (headers: Vec<(&'static str, String)>)
        ensures
            headers@.len() == request_headers_for(self.spec_api_key(), self.spec_org_id()).len(),
            forall|i: int|
                0 <= i < headers@.len() ==> (#[trigger] headers@[i]).0@ == request_headers_for(
                    self.spec_api_key(),
                    self.spec_org_id(),
                )[i].0 && headers@[i].1@ == request_headers_for(self.spec_api_key(), self.spec_org_id())[i].1,
    {
        let mut headers: Vec<(&'static str, String)> = Vec::new();
        headers.push(("Authorization", String::from_str("Bearer ").concat(self.api_key.as_str())));
        if !self.org_id.as_str().is_empty() {
            headers.push(("OpenAI-Organization", self.org_id.clone()));
        }
        proof {
            let expected = request_headers_for(self.spec_api_key(), self.spec_org_id());
            if self.org_id@.len() == 0 {
                assert(expected =~= seq![("Authorization"@, "Bearer "@ + self.api_key@)]);
            } else {
                assert(expected =~= seq![("Authorization"@, "Bearer "@ + self.api_key@), ("OpenAI-Organization"@, self.org_id@)]);
            }
        }
        headers
    }

    /// Parameters of the usage request: the seven days up to `now`, by day,
    /// grouped by model and project.
    pub fn usage_params(now: i64) -> (params: ApiParams)
        requires
            now >= i64::MIN + 7 * SECS_PER_DAY,
        ensures
            params.start_time == now - 7 * SECS_PER_DAY,
            params.end_time == now,
            params.bucket_width@ == "1d"@,
            params.group_by@.len() == 2,
            params.group_by@[0]@ == "model"@,
            params.group_by@[1]@ == "project_id"@,
    {
        let mut group_by: Vec<String> = Vec::new();
        group_by.push(String::from_str("model"));
        group_by.push(String::from_str("project_id"));
        ApiParams {
            start_time: now - 7 * SECS_PER_DAY,
            end_time: now,
            bucket_width: String::from_str("1d"),
            group_by,
        }
    }

    /// Parameters of the cost request: the thirty days up to `now`, by day.
    pub fn cost_params(now: i64) -> (params: ApiParams)
        requires
            now >= i64::MIN + 30 * SECS_PER_DAY,
        ensures
            params.start_time == now - 30 * SECS_PER_DAY,
            params.end_time == now,
            params.bucket_width@ == "1d"@,
            params.group_by@.len() == 0,
    {
        ApiParams {
            start_time: now - 30 * SECS_PER_DAY,
            end_time: now,
            bucket_width: String::from_str("1d"),
            group_by: Vec::new(),
        }
    }

    /// Totals of a usage report, with one line per model, the lines with
    /// the most tokens first.
    pub fn aggregate_usage(&self, resp: &UsageResponse) -> (s: UsageSummary)
        requires
            totals_fit(*resp),
        ensures
            s.total_input == total(all_results(resp.data@), counter_input()),
            s.total_output == total(all_results(resp.data@), counter_output()),
            s.total_requests == total(all_results(resp.data@), counter_requests()),
            s.total_tokens == s.total_input + s.total_output,
            breakdown_of(s.models@, all_results(resp.data@)),
            by_tokens_descending(s.models@),
    {
        let summary = summarize_usage(resp);
        proof {
            lemma_line_tokens_fit(summary.models@, all_results(resp.data@));
        }
        let models = sort_models_by_tokens(&summary.models);
        proof {
            lemma_rearranged_breakdown(models@, summary.models@, all_results(resp.data@));
        }
        UsageSummary { models, ..summary }
    }
}

/// The error text of a refresh, from the error texts of the usage and the
/// cost request.
pub fn merge_fetch_errors(usage_error: Option<String>, costs_error: Option<String>) -> (text: Option<String>)
    ensures
        opt_text(text) == fetch_error_text(opt_text(usage_error), opt_text(costs_error)),
{
    let error = match usage_error {
        Some(e) => Some(String::from_str("Usage API error: ").concat(e.as_str())),
        None => None,
    };
    match costs_error {
        Some(e) => {
            let msg = String::from_str("Costs API error: ").concat(e.as_str());
            match error {
                Some(prev) => Some(prev.concat("; ").concat(msg.as_str())),
                None => Some(msg),
            }
        },
        None => error,
    }
}

/// The error shown when a refresh fails as a whole.
pub fn refresh_failure_text(error: &str) -> (text: String)
    ensures
        text@ == "Refresh failed: "@ + error@,
{
    String::from_str("Refresh failed: ").concat(error)
}

} // verus!
