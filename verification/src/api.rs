//! Endpoints of the usage and cost reporting API, and their query strings.

use vstd::prelude::*;

use crate::text::{i64_to_string, signed_decimal};

verus! {

/// Root of the platform API.
pub const BASE_URL: &'static str = "https://api.openai.com/v1";

/// Address of the token-usage report, relative to `BASE_URL`.
pub open spec fn usage_completions_path() -> Seq<char> {
    "/organization/usage/completions"@
}

/// Address of the cost report, relative to `BASE_URL`.
pub open spec fn usage_costs_path() -> Seq<char> {
    "/organization/costs"@
}

/// Usage completions endpoint (token usage by model and project).
pub fn usage_completions_url() -> (url: String)
    ensures
        url@ == BASE_URL@ + usage_completions_path(),
{
    String::from_str(BASE_URL).concat("/organization/usage/completions")
}

/// Cost reporting endpoint.
pub fn usage_costs_url() -> (url: String)
    ensures
        url@ == BASE_URL@ + usage_costs_path(),
{
    String::from_str(BASE_URL).concat("/organization/costs")
}

/// Query parameters of the usage and cost endpoints.
pub struct ApiParams {
    pub start_time: i64,
    pub end_time: i64,
    pub bucket_width: String,
    pub group_by: Vec<String>,
}

impl ApiParams {
    /// The query pairs, in the order they are sent: the time range, the
    /// bucket width, then one `group_by[]` pair for each grouping key.
    pub open spec fn spec_query_pairs(&self) -> Seq<(Seq<char>, Seq<char>)> {
        seq![
            ("start_time"@, signed_decimal(self.start_time as int)),
            ("end_time"@, signed_decimal(self.end_time as int)),
            ("bucket_width"@, self.bucket_width@),
        ] + Seq::new(self.group_by@.len(), |i: int| ("group_by[]"@, self.group_by@[i]@))
    }

    /// Builds the query string pairs.
    pub fn to_query_pairs(&self) -> (pairs: Vec<(&'static str, String)>)
        ensures
            pairs@.len() == self.spec_query_pairs().len(),
            forall|i: int|
                0 <= i < pairs@.len() ==> (#[trigger] pairs@[i]).0@ == self.spec_query_pairs()[i].0
                    && pairs@[i].1@ == self.spec_query_pairs()[i].1,
    {
        let mut pairs: Vec<(&'static str, String)> = Vec::new();
        pairs.push(("start_time", i64_to_string(self.start_time)));
        pairs.push(("end_time", i64_to_string(self.end_time)));
        pairs.push(("bucket_width", self.bucket_width.clone()));
        let n = self.group_by.len();
        for k in 0..n
            invariant
                n == self.group_by@.len(),
                pairs@.len() == 3 + k,
                forall|i: int|
                    0 <= i < pairs@.len() ==> (#[trigger] pairs@[i]).0@ == self.spec_query_pairs()[i].0
                        && pairs@[i].1@ == self.spec_query_pairs()[i].1,
        {
            pairs.push(("group_by[]", self.group_by[k].clone()));
        }
        pairs
    }
}

} // verus!
