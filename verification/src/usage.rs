//! Token usage reports: their buckets, and the totals per model that the
//! widget lists.

use vstd::prelude::*;

verus! {

/// One line of a usage bucket: the tokens and requests of one model (and
/// project) in the bucket's time span.
#[derive(Debug, Clone)]
pub struct UsageResult {
    pub input_tokens: u64,
    pub output_tokens: u64,
    pub num_model_requests: u64,
    pub model: Option<String>,
    pub project_id: Option<String>,
}

/// The usage of one time span (a day).
#[derive(Debug, Clone)]
pub struct UsageBucket {
    pub start_time: i64,
    pub end_time: i64,
    pub results: Vec<UsageResult>,
}

/// A usage report: its buckets in time order.
#[derive(Debug, Clone)]
pub struct UsageResponse {
    pub data: Vec<UsageBucket>,
}

/// Tokens and requests of one model over the whole report.
#[derive(Debug, Clone)]
pub struct ModelUsage {
    pub model: String,
    pub input_tokens: u64,
    pub output_tokens: u64,
    pub requests: u64,
}

/// Totals of a usage report, and the per-model lines, the largest first.
#[derive(Debug, Clone)]
pub struct UsageSummary {
    pub total_input: u64,
    pub total_output: u64,
    pub total_tokens: u64,
    pub total_requests: u64,
    pub models: Vec<ModelUsage>,
}

/// The counter of input tokens.
pub open spec fn counter_input() -> int {
    0
}

/// The counter of output tokens.
pub open spec fn counter_output() -> int {
    1
}

/// The counter of requests.
pub open spec fn counter_requests() -> int {
    2
}

/// The counter `k` of a result.
pub open spec fn counter(r: UsageResult, k: int) -> nat {
    if k == counter_input() {
        r.input_tokens as nat
    } else if k == counter_output() {
        r.output_tokens as nat
    } else {
        r.num_model_requests as nat
    }
}

/// The model a result is counted under: its name, or `unknown`.
pub open spec fn model_key(r: UsageResult) -> Seq<char> {
    match r.model {
        Some(m) => m@,
        None => "unknown"@,
    }
}

/// `name` is what result `r` calls its model: the model it names, or
/// `unknown` where it names none.
pub open spec fn names_model(r: UsageResult, name: Seq<char>) -> bool {
    match r.model {
        Some(m) => m@ == name,
        None => name == "unknown"@,
    }
}

/// A result is counted under the name of its model alone, whatever its
/// project or other fields: under `unknown` only where it names no model.
pub proof fn lemma_result_counted_under_model_name(r: UsageResult)
    ensures
        r.model matches Some(m) ==> model_key(r) == m@,
        r.model is None ==> model_key(r) == "unknown"@,
        names_model(r, model_key(r)),
{
}

/// Two results that name the same model (or both none) are counted under
/// the same line, however else they differ (their projects among it).
pub proof fn lemma_same_model_same_line(r1: UsageResult, r2: UsageResult)
    requires
        (r1.model is None && r2.model is None) || (r1.model is Some && r2.model is Some && r1.model.unwrap()@
            == r2.model.unwrap()@),
    ensures
        model_key(r1) == model_key(r2),
{
}

/// All results of the buckets, in order.
pub open spec fn all_results(buckets: Seq<UsageBucket>) -> Seq<UsageResult>
    decreases buckets.len(),
{
    if buckets.len() == 0 {
        Seq::empty()
    } else {
        buckets[0].results@ + all_results(buckets.skip(1))
    }
}

/// The sum of counter `k` over `rs`.
pub open spec fn total(rs: Seq<UsageResult>, k: int) -> nat
    decreases rs.len(),
{
    if rs.len() == 0 {
        0
    } else {
        total(rs.drop_last(), k) + counter(rs.last(), k)
    }
}

/// The sum of counter `k` over the results of model `name`.
pub open spec fn model_total(rs: Seq<UsageResult>, k: int, name: Seq<char>) -> nat
    decreases rs.len(),
{
    if rs.len() == 0 {
        0
    } else {
        model_total(rs.drop_last(), k, name) + (if model_key(rs.last()) == name {
            counter(rs.last(), k)
        } else {
            0
        })
    }
}

/// How many results belong to model `name`.
pub open spec fn model_count(rs: Seq<UsageResult>, name: Seq<char>) -> nat
    decreases rs.len(),
{
    if rs.len() == 0 {
        0
    } else {
        model_count(rs.drop_last(), name) + (if model_key(rs.last()) == name { 1nat } else { 0nat })
    }
}

/// Tokens of a model line: input and output together.
pub open spec fn line_tokens(m: ModelUsage) -> int {
    m.input_tokens + m.output_tokens
}

/// No model is listed twice.
pub open spec fn distinct_models(ms: Seq<ModelUsage>) -> bool {
    forall|a: int, b: int|
        0 <= a < b < ms.len() ==> (#[trigger] ms[a]).model@ != (#[trigger] ms[b]).model@
}

/// The line `m` holds the totals of its model over `rs`, and the model occurs there.
pub open spec fn line_of(m: ModelUsage, rs: Seq<UsageResult>) -> bool {
    &&& m.input_tokens == model_total(rs, counter_input(), m.model@)
    &&& m.output_tokens == model_total(rs, counter_output(), m.model@)
    &&& m.requests == model_total(rs, counter_requests(), m.model@)
    &&& model_count(rs, m.model@) > 0
}

/// `ms` is the per-model breakdown of `rs`, in some order: one line for each
/// model that occurs, holding that model's totals.
pub open spec fn breakdown_of(ms: Seq<ModelUsage>, rs: Seq<UsageResult>) -> bool {
    &&& distinct_models(ms)
    &&& forall|a: int| 0 <= a < ms.len() ==> line_of(#[trigger] ms[a], rs)
    &&& forall|name: Seq<char>|
        #[trigger] model_count(rs, name) > 0 ==> exists|a: int| 0 <= a < ms.len() && (#[trigger] ms[a]).model@ == name
}

/// Lines with more tokens come first.
pub open spec fn by_tokens_descending(ms: Seq<ModelUsage>) -> bool {
    forall|a: int, b: int| 0 <= a < b < ms.len() ==> line_tokens(#[trigger] ms[a]) >= line_tokens(#[trigger] ms[b])
}

/// The report's totals fit in the counters: input and output tokens
/// together, and requests.
pub open spec fn totals_fit(resp: UsageResponse) -> bool {
    let rs = all_results(resp.data@);
    &&& total(rs, counter_input()) + total(rs, counter_output()) <= u64::MAX
    &&& total(rs, counter_requests()) <= u64::MAX
}

proof fn lemma_total_append(a: Seq<UsageResult>, b: Seq<UsageResult>, k: int)
    ensures
        total(a + b, k) == total(a, k) + total(b, k),
    decreases b.len(),
{
    if b.len() > 0 {
        assert((a + b).drop_last() =~= a + b.drop_last());
        lemma_total_append(a, b.drop_last(), k);
    } else {
        assert(a + b =~= a);
    }
}

proof fn lemma_model_total_bounded(rs: Seq<UsageResult>, k: int, name: Seq<char>)
    ensures
        model_total(rs, k, name) <= total(rs, k),
    decreases rs.len(),
{
    if rs.len() > 0 {
        lemma_model_total_bounded(rs.drop_last(), k, name);
    }
}

proof fn lemma_absent_model_total(rs: Seq<UsageResult>, k: int, name: Seq<char>)
    requires
        model_count(rs, name) == 0,
    ensures
        model_total(rs, k, name) == 0,
    decreases rs.len(),
{
    if rs.len() > 0 {
        lemma_absent_model_total(rs.drop_last(), k, name);
    }
}

proof fn lemma_all_results_step(buckets: Seq<UsageBucket>, i: int)
    requires
        0 <= i < buckets.len(),
    ensures
        all_results(buckets.skip(i)) == buckets[i].results@ + all_results(buckets.skip(i + 1)),
{
    assert(buckets.skip(i).skip(1) =~= buckets.skip(i + 1));
}

fn model_name_of(r: &UsageResult) -> (name: String)
    ensures
        name@ == model_key(*r),
        r.model matches Some(m) ==> name@ == m@,
        r.model is None ==> name@ == "unknown"@,
{
    match &r.model {
        Some(m) => m.clone(),
        None => String::from_str("unknown"),
    }
}

fn find_model(models: &Vec<ModelUsage>, name: &String) -> (found: Option<usize>)
    ensures
        match found {
            Some(k) => k < models@.len() && models@[k as int].model@ == name@,
            None => forall|a: int| 0 <= a < models@.len() ==> (#[trigger] models@[a]).model@ != name@,
        },
{
    let n = models.len();
    for a in 0..n
        invariant
            n == models@.len(),
            forall|b: int| 0 <= b < a ==> (#[trigger] models@[b]).model@ != name@,
    {
        if models[a].model == *name {
            return Some(a);
        }
    }
    None
}

/// Adds one result to the per-model lines and the running totals.
proof fn lemma_breakdown_push(ms: Seq<ModelUsage>, done: Seq<UsageResult>, r: UsageResult, ms2: Seq<ModelUsage>)
    requires
        breakdown_of(ms, done),
        ms2.len() == ms.len() + 1,
        forall|a: int| 0 <= a < ms.len() ==> ms2[a] == ms[a],
        ms2.last().model@ == model_key(r),
        ms2.last().input_tokens == r.input_tokens,
        ms2.last().output_tokens == r.output_tokens,
        ms2.last().requests == r.num_model_requests,
        forall|a: int| 0 <= a < ms.len() ==> (#[trigger] ms[a]).model@ != model_key(r),
    ensures
        breakdown_of(ms2, done.push(r)),
{
    let done2 = done.push(r);
    assert(done2.drop_last() =~= done);
    assert(model_count(done, model_key(r)) == 0) by {
        if model_count(done, model_key(r)) > 0 {
            let a = choose|a: int| 0 <= a < ms.len() && (#[trigger] ms[a]).model@ == model_key(r);
            assert(ms[a].model@ == model_key(r));
        }
    }
    lemma_absent_model_total(done, counter_input(), model_key(r));
    lemma_absent_model_total(done, counter_output(), model_key(r));
    lemma_absent_model_total(done, counter_requests(), model_key(r));
    assert forall|a: int| 0 <= a < ms2.len() implies line_of(#[trigger] ms2[a], done2) by {
        if a < ms.len() {
            assert(ms2[a] == ms[a]);
            assert(line_of(ms[a], done));
        }
    }
    assert forall|name: Seq<char>| #[trigger] model_count(done2, name) > 0 implies exists|a: int|
        0 <= a < ms2.len() && (#[trigger] ms2[a]).model@ == name by {
        if name == model_key(r) {
            assert(ms2[ms.len() as int].model@ == name);
        } else {
            assert(model_count(done, name) > 0);
            let a = choose|a: int| 0 <= a < ms.len() && (#[trigger] ms[a]).model@ == name;
            assert(ms2[a] == ms[a]);
        }
    }
    assert forall|a: int, b: int| 0 <= a < b < ms2.len() implies (#[trigger] ms2[a]).model@ != (#[trigger] ms2[b]).model@ by {
        if b < ms.len() {
            assert(ms2[a] == ms[a] && ms2[b] == ms[b]);
        } else {
            assert(ms2[a] == ms[a]);
        }
    }
}

/// Adds one result to the line at `k`, which is the result's model.
proof fn lemma_breakdown_update(ms: Seq<ModelUsage>, done: Seq<UsageResult>, r: UsageResult, k: int, ms2: Seq<ModelUsage>)
    requires
        breakdown_of(ms, done),
        0 <= k < ms.len(),
        ms[k].model@ == model_key(r),
        ms2.len() == ms.len(),
        forall|a: int| 0 <= a < ms.len() && a != k ==> ms2[a] == ms[a],
        ms2[k].model@ == ms[k].model@,
        ms2[k].input_tokens == ms[k].input_tokens + r.input_tokens,
        ms2[k].output_tokens == ms[k].output_tokens + r.output_tokens,
        ms2[k].requests == ms[k].requests + r.num_model_requests,
    ensures
        breakdown_of(ms2, done.push(r)),
{
    let done2 = done.push(r);
    assert(done2.drop_last() =~= done);
    assert(line_of(ms[k], done));
    assert forall|a: int| 0 <= a < ms2.len() implies line_of(#[trigger] ms2[a], done2) by {
        if a != k {
            assert(ms2[a] == ms[a]);
            assert(line_of(ms[a], done));
            if a < k {
                assert(ms[a].model@ != ms[k].model@);
            } else {
                assert(ms[k].model@ != ms[a].model@);
            }
        }
    }
    assert forall|name: Seq<char>| #[trigger] model_count(done2, name) > 0 implies exists|a: int|
        0 <= a < ms2.len() && (#[trigger] ms2[a]).model@ == name by {
        if name == model_key(r) {
            assert(ms2[k].model@ == name);
        } else {
            assert(model_count(done, name) > 0);
            let a = choose|a: int| 0 <= a < ms.len() && (#[trigger] ms[a]).model@ == name;
            if a == k {
                assert(false);
            }
            assert(ms2[a] == ms[a]);
        }
    }
    assert forall|a: int, b: int| 0 <= a < b < ms2.len() implies (#[trigger] ms2[a]).model@ != (#[trigger] ms2[b]).model@ by {
        assert(ms[a].model@ != ms[b].model@);
        if a != k {
            assert(ms2[a] == ms[a]);
        }
        if b != k {
            assert(ms2[b] == ms[b]);
        }
    }
}

/// Model `x` occurs in `rs` no later than model `y`: every prefix of `rs`
/// that holds `y` holds `x`.
pub open spec fn seen_no_later(rs: Seq<UsageResult>, x: Seq<char>, y: Seq<char>) -> bool {
    forall|k: int| 0 <= k <= rs.len() && #[trigger] model_count(rs.take(k), y) > 0 ==> model_count(rs.take(k), x) > 0
}

/// The lines come in the order in which their models first occur in `rs`.
pub open spec fn in_first_occurrence_order(ms: Seq<ModelUsage>, rs: Seq<UsageResult>) -> bool {
    forall|a: int, b: int| 0 <= a < b < ms.len() ==> seen_no_later(rs, (#[trigger] ms[a]).model@, (#[trigger] ms[b]).model@)
}

proof fn lemma_prefix_count_bounded(rs: Seq<UsageResult>, k: int, name: Seq<char>)
    requires
        0 <= k <= rs.len(),
    ensures
        model_count(rs.take(k), name) <= model_count(rs, name),
    decreases rs.len() - k,
{
    if k < rs.len() {
        lemma_prefix_count_bounded(rs, k + 1, name);
        assert(rs.take(k + 1).drop_last() =~= rs.take(k));
    } else {
        assert(rs.take(k) =~= rs);
    }
}

proof fn lemma_seen_push(done: Seq<UsageResult>, r: UsageResult, x: Seq<char>, y: Seq<char>)
    requires
        seen_no_later(done, x, y),
        model_count(done, x) > 0 || model_count(done.push(r), y) == 0,
    ensures
        seen_no_later(done.push(r), x, y),
{
    let done2 = done.push(r);
    assert(done2.drop_last() =~= done);
    assert forall|k: int| 0 <= k <= done2.len() && #[trigger] model_count(done2.take(k), y) > 0 implies model_count(
        done2.take(k),
        x,
    ) > 0 by {
        if k <= done.len() {
            assert(done2.take(k) =~= done.take(k));
            if model_count(done, x) == 0 {
                lemma_prefix_count_bounded(done2, k, y);
            }
        } else {
            assert(done2.take(k) =~= done2);
        }
    }
}

/// Adding a result to a line keeps the lines in first-occurrence order.
proof fn lemma_order_update(ms: Seq<ModelUsage>, done: Seq<UsageResult>, r: UsageResult, ms2: Seq<ModelUsage>)
    requires
        breakdown_of(ms, done),
        in_first_occurrence_order(ms, done),
        ms2.len() == ms.len(),
        forall|a: int| 0 <= a < ms.len() ==> (#[trigger] ms2[a]).model@ == ms[a].model@,
    ensures
        in_first_occurrence_order(ms2, done.push(r)),
{
    assert forall|a: int, b: int| 0 <= a < b < ms2.len() implies seen_no_later(
        done.push(r),
        (#[trigger] ms2[a]).model@,
        (#[trigger] ms2[b]).model@,
    ) by {
        assert(ms2[a].model@ == ms[a].model@ && ms2[b].model@ == ms[b].model@);
        assert(seen_no_later(done, ms[a].model@, ms[b].model@));
        assert(line_of(ms[a], done));
        lemma_seen_push(done, r, ms[a].model@, ms[b].model@);
    }
}

/// A line for a model that has not occurred comes after all others.
proof fn lemma_order_push(ms: Seq<ModelUsage>, done: Seq<UsageResult>, r: UsageResult, ms2: Seq<ModelUsage>)
    requires
        breakdown_of(ms, done),
        in_first_occurrence_order(ms, done),
        ms2.len() == ms.len() + 1,
        forall|a: int| 0 <= a < ms.len() ==> ms2[a] == ms[a],
        ms2.last().model@ == model_key(r),
        forall|a: int| 0 <= a < ms.len() ==> (#[trigger] ms[a]).model@ != model_key(r),
    ensures
        in_first_occurrence_order(ms2, done.push(r)),
{
    assert(model_count(done, model_key(r)) == 0) by {
        if model_count(done, model_key(r)) > 0 {
            let a = choose|a: int| 0 <= a < ms.len() && (#[trigger] ms[a]).model@ == model_key(r);
            assert(ms[a].model@ == model_key(r));
        }
    }
    assert forall|a: int, b: int| 0 <= a < b < ms2.len() implies seen_no_later(
        done.push(r),
        (#[trigger] ms2[a]).model@,
        (#[trigger] ms2[b]).model@,
    ) by {
        assert(ms2[a] == ms[a]);
        assert(line_of(ms[a], done));
        if b < ms.len() {
            assert(ms2[b] == ms[b]);
            assert(seen_no_later(done, ms[a].model@, ms[b].model@));
        } else {
            assert forall|k: int| 0 <= k <= done.len() && #[trigger] model_count(done.take(k), model_key(r)) > 0
                implies model_count(done.take(k), ms[a].model@) > 0 by {
                lemma_prefix_count_bounded(done, k, model_key(r));
            }
        }
        lemma_seen_push(done, r, ms[a].model@, ms2[b].model@);
    }
}

/// Sums a usage report per model, keeping the lines in the order in which
/// their models first occur.
pub fn summarize_usage(resp: &UsageResponse) -> (s: UsageSummary)
    requires
        totals_fit(*resp),
    ensures
        s.total_input == total(all_results(resp.data@), counter_input()),
        s.total_output == total(all_results(resp.data@), counter_output()),
        s.total_requests == total(all_results(resp.data@), counter_requests()),
        s.total_tokens == s.total_input + s.total_output,
        breakdown_of(s.models@, all_results(resp.data@)),
        in_first_occurrence_order(s.models@, all_results(resp.data@)),
{
    let ghost rs = all_results(resp.data@);
    let ghost mut done: Seq<UsageResult> = Seq::empty();
    let mut total_input: u64 = 0;
    let mut total_output: u64 = 0;
    let mut total_requests: u64 = 0;
    let mut models: Vec<ModelUsage> = Vec::new();
    let nb = resp.data.len();
    assert(resp.data@.skip(0) =~= resp.data@);
    assert(rs == done + all_results(resp.data@.skip(0)));
    for i in 0..nb
        invariant
            nb == resp.data@.len(),
            rs == all_results(resp.data@),
            totals_fit(*resp),
            rs == done + all_results(resp.data@.skip(i as int)),
            total_input == total(done, counter_input()),
            total_output == total(done, counter_output()),
            total_requests == total(done, counter_requests()),
            breakdown_of(models@, done),
            in_first_occurrence_order(models@, done),
    {
        let bucket = &resp.data[i];
        proof {
            lemma_all_results_step(resp.data@, i as int);
            assert(bucket.results@.skip(0) =~= bucket.results@);
        }
        let nr = bucket.results.len();
        for j in 0..nr
            invariant
                nb == resp.data@.len(),
                i < nb,
                bucket == resp.data@[i as int],
                nr == bucket.results@.len(),
                rs == all_results(resp.data@),
                totals_fit(*resp),
                rs == done + (bucket.results@.skip(j as int) + all_results(resp.data@.skip(i + 1))),
                total_input == total(done, counter_input()),
                total_output == total(done, counter_output()),
                total_requests == total(done, counter_requests()),
                breakdown_of(models@, done),
                in_first_occurrence_order(models@, done),
        {
            let r = &bucket.results[j];
            let ghost rest = bucket.results@.skip(j as int) + all_results(resp.data@.skip(i + 1));
            let ghost done2 = done.push(*r);
            let ghost rest2 = bucket.results@.skip(j + 1) + all_results(resp.data@.skip(i + 1));
            proof {
                assert(rest[0] == *r);
                assert(rest2 =~= rest.drop_first());
                assert(done2 + rest2 =~= done + rest);
                assert(done2.drop_last() =~= done);
                lemma_total_append(done2, rest2, counter_input());
                lemma_total_append(done2, rest2, counter_output());
                lemma_total_append(done2, rest2, counter_requests());
                lemma_model_total_bounded(done2, counter_input(), model_key(*r));
                lemma_model_total_bounded(done2, counter_output(), model_key(*r));
                lemma_model_total_bounded(done2, counter_requests(), model_key(*r));
            }
            total_input = total_input + r.input_tokens;
            total_output = total_output + r.output_tokens;
            total_requests = total_requests + r.num_model_requests;
            let name = model_name_of(r);
            match find_model(&models, &name) {
                Some(k) => {
                    let ghost ms = models@;
                    proof {
                        assert(line_of(ms[k as int], done));
                    }
                    let updated = ModelUsage {
                        model: name,
                        input_tokens: models[k].input_tokens + r.input_tokens,
                        output_tokens: models[k].output_tokens + r.output_tokens,
                        requests: models[k].requests + r.num_model_requests,
                    };
                    models[k] = updated;
                    proof {
                        lemma_breakdown_update(ms, done, *r, k as int, models@);
                        lemma_order_update(ms, done, *r, models@);
                    }
                },
                None => {
                    let ghost ms = models@;
                    models.push(
                        ModelUsage {
                            model: name,
                            input_tokens: r.input_tokens,
                            output_tokens: r.output_tokens,
                            requests: r.num_model_requests,
                        },
                    );
                    proof {
                        lemma_order_push(ms, done, *r, models@);
                        lemma_breakdown_push(ms, done, *r, models@);
                    }
                },
            }
            proof {
                done = done2;
            }
        }
        proof {
            assert(bucket.results@.skip(nr as int) =~= Seq::<UsageResult>::empty());
            assert(Seq::<UsageResult>::empty() + all_results(resp.data@.skip(i + 1)) =~= all_results(resp.data@.skip(i + 1)));
        }
    }
    proof {
        assert(resp.data@.skip(nb as int) =~= Seq::<UsageBucket>::empty());
        assert(done + Seq::<UsageResult>::empty() =~= done);
        lemma_total_append(Seq::empty(), rs, counter_input());
    }
    UsageSummary {
        total_input,
        total_output,
        total_tokens: total_input + total_output,
        total_requests,
        models,
    }
}

impl ModelUsage {
    /// A copy of the line.
    pub fn duplicate(&self) -> (c: ModelUsage)
        ensures
            c == *self,
    {
        ModelUsage {
            model: self.model.clone(),
            input_tokens: self.input_tokens,
            output_tokens: self.output_tokens,
            requests: self.requests,
        }
    }
}

/// `out` and `ms` are as long, and each line of either is a line of the other.
pub open spec fn rearranges(out: Seq<ModelUsage>, ms: Seq<ModelUsage>) -> bool {
    &&& out.len() == ms.len()
    &&& forall|a: int| 0 <= a < out.len() ==> ms.contains(#[trigger] out[a])
    &&& forall|j: int| 0 <= j < ms.len() ==> out.contains(#[trigger] ms[j])
}

/// `out` takes each line of `ms` once, the line at `a` from position
/// `from[a]`, and lines with equal tokens keep the order they have in `ms`.
pub open spec fn stable_arrangement(out: Seq<ModelUsage>, ms: Seq<ModelUsage>, from: Seq<int>) -> bool {
    &&& out.len() == ms.len()
    &&& from.len() == out.len()
    &&& forall|a: int| 0 <= a < out.len() ==> 0 <= #[trigger] from[a] < ms.len() && out[a] == ms[from[a]]
    &&& forall|a: int, b: int| 0 <= a < b < out.len() ==> #[trigger] from[a] != #[trigger] from[b]
    &&& forall|a: int, b: int|
        0 <= a < b < out.len() && line_tokens(#[trigger] out[a]) == line_tokens(#[trigger] out[b]) ==> from[a] < from[b]
}

/// The first `i` lines of `ms` are placed in `sorted`, the line at `a` from
/// position `from[a]`: sorted by tokens, each once, equal tokens in their
/// order in `ms`, and models kept apart.
#[verifier::opaque]
spec fn placed(sorted: Seq<ModelUsage>, ms: Seq<ModelUsage>, from: Seq<int>, i: int) -> bool {
    &&& from.len() == sorted.len()
    &&& by_tokens_descending(sorted)
    &&& forall|a: int| 0 <= a < sorted.len() ==> 0 <= #[trigger] from[a] < i && sorted[a] == ms[from[a]]
    &&& forall|a: int, b: int| 0 <= a < b < sorted.len() ==> #[trigger] from[a] != #[trigger] from[b]
    &&& forall|a: int, b: int|
        0 <= a < b < sorted.len() && line_tokens(#[trigger] sorted[a]) == line_tokens(#[trigger] sorted[b])
            ==> from[a] < from[b]
    &&& distinct_models(ms) ==> distinct_models(sorted)
}

/// Orders the lines by tokens, the largest first; lines with equal tokens
/// keep their order.
#[verifier::spinoff_prover]
pub fn sort_models_by_tokens(models: &Vec<ModelUsage>) -> (sorted: Vec<ModelUsage>)
    requires
        forall|j: int| 0 <= j < models@.len() ==> line_tokens(#[trigger] models@[j]) <= u64::MAX,
    ensures
        by_tokens_descending(sorted@),
        rearranges(sorted@, models@),
        exists|from: Seq<int>| #[trigger] stable_arrangement(sorted@, models@, from),
        distinct_models(models@) ==> distinct_models(sorted@),
{
    let n = models.len();
    let mut sorted: Vec<ModelUsage> = Vec::new();
    let ghost mut from: Seq<int> = Seq::empty();
    let ghost mut to: Seq<int> = Seq::empty();
    assert(placed(sorted@, models@, from, 0)) by {
        reveal(placed);
    }
    for i in 0..n
        invariant
            n == models@.len(),
            forall|j: int| 0 <= j < models@.len() ==> line_tokens(#[trigger] models@[j]) <= u64::MAX,
            sorted@.len() == i,
            placed(sorted@, models@, from, i as int),
            to.len() == i,
            forall|j: int| 0 <= j < i ==> 0 <= #[trigger] to[j] < sorted@.len() && sorted@[to[j]] == models@[j],
    {
        let item = models[i].duplicate();
        let key: u64 = item.input_tokens + item.output_tokens;
        let len = sorted.len();
        let mut p: usize = 0;
        while p < len && sorted[p].input_tokens as u128 + sorted[p].output_tokens as u128 >= key as u128
            invariant
                len == sorted@.len(),
                p <= len,
                key == line_tokens(item),
                forall|a: int| 0 <= a < p ==> line_tokens(#[trigger] sorted@[a]) >= key,
            decreases len - p,
        {
            p = p + 1;
        }
        let ghost old_sorted = sorted@;
        let ghost old_from = from;
        let ghost old_to = to;
        proof {
            assert(by_tokens_descending(old_sorted)) by {
                reveal(placed);
            }
            if p < len {
                assert forall|b: int| p <= b < len implies line_tokens(#[trigger] old_sorted[b]) < key by {
                    if b > p {
                        assert(line_tokens(old_sorted[p as int]) >= line_tokens(old_sorted[b]));
                    }
                }
            }
        }
        sorted.insert(p, item);
        proof {
            from = old_from.insert(p as int, i as int);
            assert(sorted@ == old_sorted.insert(p as int, models@[i as int]));
            lemma_stable_insert(models@, old_sorted, old_from, i as int, p as int);
            to = lemma_track_insert(models@, old_sorted, old_to, i as int, p as int);
        }
    }
    proof {
        assert(by_tokens_descending(sorted@) && (distinct_models(models@) ==> distinct_models(sorted@))) by {
            lemma_placed_all(sorted@, models@, from, to);
        }
        assert(stable_arrangement(sorted@, models@, from)) by {
            lemma_placed_all(sorted@, models@, from, to);
        }
        lemma_arrangement_rearranges(sorted@, models@, from, to);
    }
    sorted
}

/// Once every line is placed, the lines are a stable rearrangement sorted
/// by tokens.
proof fn lemma_placed_all(sorted: Seq<ModelUsage>, models: Seq<ModelUsage>, from: Seq<int>, to: Seq<int>)
    requires
        sorted.len() == models.len(),
        placed(sorted, models, from, models.len() as int),
        to.len() == models.len(),
        forall|j: int| 0 <= j < models.len() ==> 0 <= #[trigger] to[j] < sorted.len() && sorted[to[j]] == models[j],
    ensures
        by_tokens_descending(sorted),
        stable_arrangement(sorted, models, from),
        distinct_models(models) ==> distinct_models(sorted),
{
    reveal(placed);
}

/// A stable arrangement of `models` in which line `j` stands at `to[j]`
/// holds the same lines as `models`.
proof fn lemma_arrangement_rearranges(sorted: Seq<ModelUsage>, models: Seq<ModelUsage>, from: Seq<int>, to: Seq<int>)
    requires
        stable_arrangement(sorted, models, from),
        to.len() == models.len(),
        forall|j: int| 0 <= j < models.len() ==> 0 <= #[trigger] to[j] < sorted.len() && sorted[to[j]] == models[j],
    ensures
        rearranges(sorted, models),
{
    assert forall|a: int| 0 <= a < sorted.len() implies models.contains(#[trigger] sorted[a]) by {
        assert(models[from[a]] == sorted[a]);
    }
    assert forall|j: int| 0 <= j < models.len() implies sorted.contains(#[trigger] models[j]) by {
        assert(sorted[to[j]] == models[j]);
    }
}

/// Where line `j < i` of `models` stands once line `i` is inserted at `p`
/// into `sorted`, given where each stood before: one place further on from
/// `p` on, and line `i` itself at `p`.
proof fn lemma_track_insert(models: Seq<ModelUsage>, sorted: Seq<ModelUsage>, to: Seq<int>, i: int, p: int) -> (new_to: Seq<int>)
    requires
        0 <= i < models.len(),
        0 <= p <= sorted.len(),
        to.len() == i,
        forall|j: int| 0 <= j < i ==> 0 <= #[trigger] to[j] < sorted.len() && sorted[to[j]] == models[j],
    ensures
        new_to.len() == i + 1,
        forall|j: int| 0 <= j < i + 1 ==> 0 <= #[trigger] new_to[j] < sorted.len() + 1
            && sorted.insert(p, models[i])[new_to[j]] == models[j],
{
    let new_to = Seq::new(i as nat, |j: int| if to[j] >= p { to[j] + 1 } else { to[j] }).push(p);
    let new_sorted = sorted.insert(p, models[i]);
    assert forall|j: int| 0 <= j < i + 1 implies 0 <= #[trigger] new_to[j] < sorted.len() + 1
        && new_sorted[new_to[j]] == models[j] by {
        if j < i {
            assert(sorted[to[j]] == models[j]);
        }
    }
    new_to
}

/// Inserting line `i` of `ms` at `p`, after every line with at least as many
/// tokens and before every line with fewer, keeps the lines sorted and
/// stable, and keeps models apart.
proof fn lemma_stable_insert(models: Seq<ModelUsage>, old_sorted: Seq<ModelUsage>, old_from: Seq<int>, i: int, p: int)
    requires
        0 <= i < models.len(),
        0 <= p <= old_sorted.len(),
        placed(old_sorted, models, old_from, i),
        forall|a: int| 0 <= a < p ==> line_tokens(#[trigger] old_sorted[a]) >= line_tokens(models[i]),
        forall|b: int| p <= b < old_sorted.len() ==> line_tokens(#[trigger] old_sorted[b]) < line_tokens(models[i]),
    ensures
        placed(old_sorted.insert(p, models[i]), models, old_from.insert(p, i), i + 1),
{
    reveal(placed);
    let new_sorted = old_sorted.insert(p, models[i]);
    let new_from = old_from.insert(p, i);
    assert forall|a: int, b: int| 0 <= a < b < new_sorted.len() implies line_tokens(#[trigger] new_sorted[a])
        >= line_tokens(#[trigger] new_sorted[b]) by {
        if a < p && b < p {
            assert(new_sorted[a] == old_sorted[a] && new_sorted[b] == old_sorted[b]);
        } else if a < p && b == p {
            assert(new_sorted[a] == old_sorted[a]);
        } else if a < p {
            assert(new_sorted[a] == old_sorted[a] && new_sorted[b] == old_sorted[b - 1]);
        } else if a == p {
            assert(new_sorted[b] == old_sorted[b - 1]);
        } else {
            assert(new_sorted[a] == old_sorted[a - 1] && new_sorted[b] == old_sorted[b - 1]);
        }
    }
    assert forall|a: int| 0 <= a < new_sorted.len() implies 0 <= #[trigger] new_from[a] < i + 1 && new_sorted[a]
        == models[new_from[a]] by {
        if a < p {
            assert(new_from[a] == old_from[a]);
        } else if a > p {
            assert(new_from[a] == old_from[a - 1]);
        }
    }
    assert forall|a: int, b: int| 0 <= a < b < new_sorted.len() implies #[trigger] new_from[a] != #[trigger] new_from[b] by {
        if a != p && b != p {
            let oa = if a < p { a } else { a - 1 };
            let ob = if b < p { b } else { b - 1 };
            assert(new_from[a] == old_from[oa] && new_from[b] == old_from[ob]);
            assert(old_from[oa] != old_from[ob]);
        } else if a == p {
            assert(new_from[b] == old_from[b - 1]);
        } else {
            assert(new_from[a] == old_from[a]);
        }
    }
    assert forall|a: int, b: int|
        0 <= a < b < new_sorted.len() && line_tokens(#[trigger] new_sorted[a]) == line_tokens(#[trigger] new_sorted[b])
            implies new_from[a] < new_from[b] by {
        if a != p && b != p {
            let oa = if a < p { a } else { a - 1 };
            let ob = if b < p { b } else { b - 1 };
            assert(new_from[a] == old_from[oa] && new_from[b] == old_from[ob]);
            assert(new_sorted[a] == old_sorted[oa] && new_sorted[b] == old_sorted[ob]);
        } else if a == p {
            assert(new_sorted[b] == old_sorted[b - 1]);
            assert(line_tokens(old_sorted[b - 1]) < line_tokens(models[i]));
        } else {
            assert(new_from[a] == old_from[a]);
        }
    }
    if distinct_models(models) {
        assert forall|a: int, b: int| 0 <= a < b < new_sorted.len() implies (#[trigger] new_sorted[a]).model@
            != (#[trigger] new_sorted[b]).model@ by {
            let fa = new_from[a];
            let fb = new_from[b];
            if a != p && b != p {
                let oa = if a < p { a } else { a - 1 };
                let ob = if b < p { b } else { b - 1 };
                assert(new_sorted[a] == old_sorted[oa] && new_sorted[b] == old_sorted[ob]);
                assert(old_sorted[oa].model@ != old_sorted[ob].model@);
            } else {
                assert(fa != fb);
                if fa < fb {
                    assert(models[fa].model@ != models[fb].model@);
                } else {
                    assert(models[fb].model@ != models[fa].model@);
                }
            }
        }
    }
}

/// A rearrangement of a breakdown, with no model listed twice, is a breakdown.
pub proof fn lemma_rearranged_breakdown(out: Seq<ModelUsage>, ms: Seq<ModelUsage>, rs: Seq<UsageResult>)
    requires
        breakdown_of(ms, rs),
        rearranges(out, ms),
        distinct_models(out),
    ensures
        breakdown_of(out, rs),
{
    assert forall|a: int| 0 <= a < out.len() implies line_of(#[trigger] out[a], rs) by {
        let j = choose|j: int| 0 <= j < ms.len() && ms[j] == out[a];
        assert(line_of(ms[j], rs));
    }
    assert forall|name: Seq<char>| #[trigger] model_count(rs, name) > 0 implies exists|a: int|
        0 <= a < out.len() && (#[trigger] out[a]).model@ == name by {
        let j = choose|j: int| 0 <= j < ms.len() && (#[trigger] ms[j]).model@ == name;
        assert(out.contains(ms[j]));
        let a = choose|a: int| 0 <= a < out.len() && out[a] == ms[j];
        assert(out[a].model@ == name);
    }
}

/// A model with results in `rs` is named by one of them.
proof fn lemma_counted_model_occurs(rs: Seq<UsageResult>, name: Seq<char>)
    requires
        model_count(rs, name) > 0,
    ensures
        exists|i: int| 0 <= i < rs.len() && model_key(#[trigger] rs[i]) == name,
    decreases rs.len(),
{
    if model_key(rs.last()) == name {
        assert(model_key(rs[rs.len() - 1]) == name);
    } else {
        lemma_counted_model_occurs(rs.drop_last(), name);
        let i = choose|i: int| 0 <= i < rs.drop_last().len() && model_key(#[trigger] rs.drop_last()[i]) == name;
        assert(rs[i] == rs.drop_last()[i]);
    }
}

/// Every line of a breakdown is named after a model of the report: some
/// result names that model (a line `unknown` may also come from results
/// naming none), so no line carries a name that no result gives its model.
pub proof fn lemma_lines_named_after_models(ms: Seq<ModelUsage>, rs: Seq<UsageResult>)
    requires
        breakdown_of(ms, rs),
    ensures
        forall|a: int| 0 <= a < ms.len() ==> exists|i: int| 0 <= i < rs.len() && names_model(
            #[trigger] rs[i],
            (#[trigger] ms[a]).model@,
        ),
{
    assert forall|a: int| 0 <= a < ms.len() implies exists|i: int| 0 <= i < rs.len() && names_model(
        #[trigger] rs[i],
        (#[trigger] ms[a]).model@,
    ) by {
        assert(line_of(ms[a], rs));
        lemma_counted_model_occurs(rs, ms[a].model@);
        let i = choose|i: int| 0 <= i < rs.len() && model_key(#[trigger] rs[i]) == ms[a].model@;
        lemma_result_counted_under_model_name(rs[i]);
    }
}

/// Each line of a breakdown of a report whose totals fit has a token count
/// that fits.
pub proof fn lemma_line_tokens_fit(ms: Seq<ModelUsage>, rs: Seq<UsageResult>)
    requires
        breakdown_of(ms, rs),
        total(rs, counter_input()) + total(rs, counter_output()) <= u64::MAX,
    ensures
        forall|j: int| 0 <= j < ms.len() ==> line_tokens(#[trigger] ms[j]) <= u64::MAX,
{
    assert forall|j: int| 0 <= j < ms.len() implies line_tokens(#[trigger] ms[j]) <= u64::MAX by {
        assert(line_of(ms[j], rs));
        lemma_model_total_bounded(rs, counter_input(), ms[j].model@);
        lemma_model_total_bounded(rs, counter_output(), ms[j].model@);
    }
}

/// The counter `k` of a line: input tokens, output tokens or requests.
pub open spec fn line_counter(m: ModelUsage, k: int) -> nat {
    if k == counter_input() {
        m.input_tokens as nat
    } else if k == counter_output() {
        m.output_tokens as nat
    } else {
        m.requests as nat
    }
}

/// The sum of counter `k` over the lines.
pub open spec fn lines_total(ms: Seq<ModelUsage>, k: int) -> nat
    decreases ms.len(),
{
    if ms.len() == 0 {
        0
    } else {
        lines_total(ms.drop_last(), k) + line_counter(ms.last(), k)
    }
}

/// The sum, over the lines' models, of each model's total of counter `k` in `rs`.
spec fn named_totals(ms: Seq<ModelUsage>, rs: Seq<UsageResult>, k: int) -> nat
    decreases ms.len(),
{
    if ms.len() == 0 {
        0
    } else {
        named_totals(ms.drop_last(), rs, k) + model_total(rs, k, ms.last().model@)
    }
}

/// The number of lines whose model is `name`, times `v`.
spec fn matching_lines(ms: Seq<ModelUsage>, name: Seq<char>, v: nat) -> nat
    decreases ms.len(),
{
    if ms.len() == 0 {
        0
    } else {
        matching_lines(ms.drop_last(), name, v) + (if ms.last().model@ == name { v } else { 0 })
    }
}

proof fn lemma_matching_lines_none(ms: Seq<ModelUsage>, name: Seq<char>, v: nat)
    requires
        forall|a: int| 0 <= a < ms.len() ==> (#[trigger] ms[a]).model@ != name,
    ensures
        matching_lines(ms, name, v) == 0,
    decreases ms.len(),
{
    if ms.len() > 0 {
        assert forall|a: int| 0 <= a < ms.drop_last().len() implies (#[trigger] ms.drop_last()[a]).model@ != name by {
            assert(ms.drop_last()[a] == ms[a]);
        }
        lemma_matching_lines_none(ms.drop_last(), name, v);
        assert(ms.last() == ms[ms.len() - 1]);
    }
}

proof fn lemma_matching_lines_one(ms: Seq<ModelUsage>, name: Seq<char>, v: nat, j: int)
    requires
        distinct_models(ms),
        0 <= j < ms.len(),
        ms[j].model@ == name,
    ensures
        matching_lines(ms, name, v) == v,
    decreases ms.len(),
{
    let init = ms.drop_last();
    if j == ms.len() - 1 {
        assert forall|a: int| 0 <= a < init.len() implies (#[trigger] init[a]).model@ != name by {
            assert(init[a] == ms[a]);
            assert(ms[a].model@ != ms[j].model@);
        }
        lemma_matching_lines_none(init, name, v);
    } else {
        assert forall|a: int, b: int| 0 <= a < b < init.len() implies (#[trigger] init[a]).model@
            != (#[trigger] init[b]).model@ by {
            assert(init[a] == ms[a] && init[b] == ms[b]);
        }
        assert(init[j] == ms[j]);
        lemma_matching_lines_one(init, name, v, j);
        assert(ms[j].model@ != ms[ms.len() - 1].model@);
    }
}

proof fn lemma_named_totals_step(ms: Seq<ModelUsage>, rs: Seq<UsageResult>, r: UsageResult, k: int)
    ensures
        named_totals(ms, rs.push(r), k) == named_totals(ms, rs, k) + matching_lines(ms, model_key(r), counter(r, k)),
    decreases ms.len(),
{
    assert(rs.push(r).drop_last() =~= rs);
    if ms.len() > 0 {
        lemma_named_totals_step(ms.drop_last(), rs, r, k);
    }
}

proof fn lemma_named_totals_cover(ms: Seq<ModelUsage>, rs: Seq<UsageResult>, k: int)
    requires
        distinct_models(ms),
        forall|name: Seq<char>|
            #[trigger] model_count(rs, name) > 0 ==> exists|a: int| 0 <= a < ms.len() && (#[trigger] ms[a]).model@ == name,
    ensures
        named_totals(ms, rs, k) == total(rs, k),
    decreases rs.len(),
{
    if rs.len() == 0 {
        lemma_named_totals_zero(ms, rs, k);
    } else {
        let init = rs.drop_last();
        let r = rs.last();
        assert(init.push(r) =~= rs);
        assert forall|name: Seq<char>| #[trigger] model_count(init, name) > 0 implies exists|a: int|
            0 <= a < ms.len() && (#[trigger] ms[a]).model@ == name by {
            assert(model_count(rs, name) > 0);
        }
        lemma_named_totals_cover(ms, init, k);
        lemma_named_totals_step(ms, init, r, k);
        assert(model_count(rs, model_key(r)) > 0);
        let j = choose|a: int| 0 <= a < ms.len() && (#[trigger] ms[a]).model@ == model_key(r);
        lemma_matching_lines_one(ms, model_key(r), counter(r, k), j);
    }
}

proof fn lemma_named_totals_zero(ms: Seq<ModelUsage>, rs: Seq<UsageResult>, k: int)
    requires
        rs.len() == 0,
    ensures
        named_totals(ms, rs, k) == 0,
    decreases ms.len(),
{
    if ms.len() > 0 {
        lemma_named_totals_zero(ms.drop_last(), rs, k);
    }
}

proof fn lemma_lines_are_named_totals(ms: Seq<ModelUsage>, rs: Seq<UsageResult>, k: int)
    requires
        k == counter_input() || k == counter_output() || k == counter_requests(),
        forall|a: int| 0 <= a < ms.len() ==> line_of(#[trigger] ms[a], rs),
    ensures
        lines_total(ms, k) == named_totals(ms, rs, k),
    decreases ms.len(),
{
    if ms.len() > 0 {
        let init = ms.drop_last();
        assert forall|a: int| 0 <= a < init.len() implies line_of(#[trigger] init[a], rs) by {
            assert(init[a] == ms[a]);
        }
        lemma_lines_are_named_totals(init, rs, k);
        assert(line_of(ms[ms.len() - 1], rs));
    }
}

/// The per-model lines account for every token and request of the report:
/// summed over the lines, each counter gives the report's total.
pub proof fn lemma_breakdown_conserves_totals(ms: Seq<ModelUsage>, rs: Seq<UsageResult>)
    requires
        breakdown_of(ms, rs),
    ensures
        lines_total(ms, counter_input()) == total(rs, counter_input()),
        lines_total(ms, counter_output()) == total(rs, counter_output()),
        lines_total(ms, counter_requests()) == total(rs, counter_requests()),
{
    lemma_lines_are_named_totals(ms, rs, counter_input());
    lemma_lines_are_named_totals(ms, rs, counter_output());
    lemma_lines_are_named_totals(ms, rs, counter_requests());
    lemma_named_totals_cover(ms, rs, counter_input());
    lemma_named_totals_cover(ms, rs, counter_output());
    lemma_named_totals_cover(ms, rs, counter_requests());
}

} // verus!
