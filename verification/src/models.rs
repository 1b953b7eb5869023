//! The account and rate-limit messages of the Codex app server, and the
//! display model that the widget renders from them.

use vstd::prelude::*;

use crate::clock::system_clock_secs;
use crate::text::{decimal, push_decimal, push_signed_decimal, signed_decimal};

verus! {

/// Error member of a JSON-RPC response.
#[derive(Debug, Clone)]
pub struct JsonRpcError {
    pub code: i64,
    pub message: String,
}

/// Answer to `account/read`.
#[derive(Debug, Clone)]
pub struct GetAccountResponse {
    pub account: Option<Account>,
    pub requires_openai_auth: bool,
}

/// The signed-in account: a ChatGPT login or an API key.
#[derive(Debug, Clone)]
pub enum Account {
    ChatGpt { email: String, plan_type: PlanType },
    ApiKey,
}

/// Subscription plan of a ChatGPT account.
#[derive(Debug, Clone, Copy, PartialEq, Eq, Structural)]
pub enum PlanType {
    Free,
    Go,
    Plus,
    Pro,
    Team,
    Business,
    Enterprise,
    Edu,
    Unknown,
}

/// The name under which a plan is shown.
pub open spec fn plan_name(p: PlanType) -> Seq<char> {
    match p {
        PlanType::Free => "Free"@,
        PlanType::Go => "Go"@,
        PlanType::Plus => "Plus"@,
        PlanType::Pro => "Pro"@,
        PlanType::Team => "Team"@,
        PlanType::Business => "Business"@,
        PlanType::Enterprise => "Enterprise"@,
        PlanType::Edu => "Edu"@,
        PlanType::Unknown => "Unknown"@,
    }
}

/// Each plan is shown under the name of its kind: Free as `Free`, Go as
/// `Go`, Plus as `Plus`, Pro as `Pro`, Team as `Team`, Business as
/// `Business`, Enterprise as `Enterprise`, Edu as `Edu`, and a plan the
/// server did not name as `Unknown`.
pub proof fn lemma_plans_shown_by_name()
    ensures
        plan_name(PlanType::Free) == "Free"@,
        plan_name(PlanType::Go) == "Go"@,
        plan_name(PlanType::Plus) == "Plus"@,
        plan_name(PlanType::Pro) == "Pro"@,
        plan_name(PlanType::Team) == "Team"@,
        plan_name(PlanType::Business) == "Business"@,
        plan_name(PlanType::Enterprise) == "Enterprise"@,
        plan_name(PlanType::Edu) == "Edu"@,
        plan_name(PlanType::Unknown) == "Unknown"@,
{
}

/// Distinct plans are shown under distinct names, so the name tells the
/// plan.
pub proof fn lemma_plan_names_distinct(a: PlanType, b: PlanType)
    requires
        a != b,
    ensures
        plan_name(a) != plan_name(b),
{
    reveal_strlit("Free");
    reveal_strlit("Go");
    reveal_strlit("Plus");
    reveal_strlit("Pro");
    reveal_strlit("Team");
    reveal_strlit("Business");
    reveal_strlit("Enterprise");
    reveal_strlit("Edu");
    reveal_strlit("Unknown");
    if plan_name(a) == plan_name(b) {
        assert(plan_name(a)[0] == plan_name(b)[0]);
        assert(plan_name(a).len() == plan_name(b).len());
        if plan_name(a).len() > 1 {
            assert(plan_name(a)[1] == plan_name(b)[1]);
        }
    }
}

impl PlanType {
    /// The plan's display name (what `Display` writes for it).
    pub fn to_display_string(&self) -> (s: String)
        ensures
            s@ == plan_name(*self),
    {
        match self {
            PlanType::Free => String::from_str("Free"),
            PlanType::Go => String::from_str("Go"),
            PlanType::Plus => String::from_str("Plus"),
            PlanType::Pro => String::from_str("Pro"),
            PlanType::Team => String::from_str("Team"),
            PlanType::Business => String::from_str("Business"),
            PlanType::Enterprise => String::from_str("Enterprise"),
            PlanType::Edu => String::from_str("Edu"),
            PlanType::Unknown => String::from_str("Unknown"),
        }
    }
}

/// Answer to `account/rateLimits/read`.
#[derive(Debug, Clone)]
pub struct GetAccountRateLimitsResponse {
    pub rate_limits: RateLimitSnapshot,
}

/// The account's rate-limit windows and credits at one moment.
#[derive(Debug, Clone)]
pub struct RateLimitSnapshot {
    pub primary: Option<RateLimitWindow>,
    pub secondary: Option<RateLimitWindow>,
    pub credits: Option<CreditsSnapshot>,
    pub plan_type: Option<PlanType>,
}

/// One rate-limit window: how much of it is used, and when it resets.
#[derive(Debug, Clone, Copy)]
pub struct RateLimitWindow {
    pub used_percent: i32,
    pub resets_at: Option<i64>,
    pub window_duration_mins: Option<i64>,
}

/// Credit balance of the account.
#[derive(Debug, Clone)]
pub struct CreditsSnapshot {
    pub has_credits: bool,
    pub unlimited: bool,
    pub balance: Option<String>,
}

/// Everything the widget shows.
#[derive(Debug, Clone)]
pub struct WidgetData {
    pub email: Option<String>,
    pub plan_type: Option<PlanType>,
    pub primary_window: Option<WindowDisplay>,
    pub secondary_window: Option<WindowDisplay>,
    pub credits: Option<CreditsDisplay>,
    pub last_updated: i64,
    pub error: Option<String>,
}

/// A rate-limit window as shown: a label, the used and the remaining share.
#[derive(Debug, Clone)]
pub struct WindowDisplay {
    pub label: String,
    pub used_percent: i32,
    pub remaining_percent: i32,
    pub resets_at: Option<i64>,
    pub window_duration_mins: Option<i64>,
}

/// Credits as shown.
#[derive(Debug, Clone)]
pub struct CreditsDisplay {
    pub has_credits: bool,
    pub unlimited: bool,
    pub balance: Option<String>,
}

impl Default for WidgetData {
    fn default() -> (d: WidgetData)
        ensures
            d.email is None,
            d.plan_type is None,
            d.primary_window is None,
            d.secondary_window is None,
            d.credits is None,
            d.last_updated == 0,
            d.error is None,
    {
        WidgetData {
            email: None,
            plan_type: None,
            primary_window: None,
            secondary_window: None,
            credits: None,
            last_updated: 0,
            error: None,
        }
    }
}

/// The label of a window of the given length in minutes: whole days from a
/// day up, whole hours from an hour up, minutes below that, and a generic
/// label when the length is unknown.
pub open spec fn window_label(duration_mins: Option<i64>) -> Seq<char> {
    match duration_mins {
        Some(m) => if m >= 1440 {
            decimal((m / 1440) as nat) + "日間"@
        } else if m >= 60 {
            decimal((m / 60) as nat) + "時間枠"@
        } else {
            signed_decimal(m as int) + "分枠"@
        },
        None => "使用枠"@,
    }
}

/// The share of a window that is left: `100 - min(used, 100)`.
pub open spec fn remaining_percent(used: i32) -> int {
    100 - (if used < 100 { used as int } else { 100int })
}

/// `used_percent` values for which `100 - min(used, 100)` fits in an `i32`.
pub open spec fn percent_in_range(w: Option<RateLimitWindow>) -> bool {
    w matches Some(x) ==> x.used_percent >= 100 - i32::MAX
}

/// `d` shows the window `w`.
pub open spec fn shows_window(d: WindowDisplay, w: RateLimitWindow) -> bool {
    &&& d.label@ == window_label(w.window_duration_mins)
    &&& d.used_percent == w.used_percent
    &&& d.remaining_percent == remaining_percent(w.used_percent)
    &&& d.resets_at == w.resets_at
    &&& d.window_duration_mins == w.window_duration_mins
}

/// A window is shown exactly when the snapshot has one.
pub open spec fn shows_optional_window(d: Option<WindowDisplay>, w: Option<RateLimitWindow>) -> bool {
    match w {
        Some(x) => d matches Some(y) && shows_window(y, x),
        None => d is None,
    }
}

/// The e-mail address of a ChatGPT login.
pub open spec fn account_email(a: Option<&GetAccountResponse>) -> Option<String> {
    match a {
        Some(resp) => match resp.account {
            Some(Account::ChatGpt { email, plan_type }) => Some(email),
            _ => None,
        },
        None => None,
    }
}

/// The plan of a ChatGPT login.
pub open spec fn account_plan(a: Option<&GetAccountResponse>) -> Option<PlanType> {
    match a {
        Some(resp) => match resp.account {
            Some(Account::ChatGpt { email, plan_type }) => Some(plan_type),
            _ => None,
        },
        None => None,
    }
}

/// The plan shown: the account's own, else the one in the rate-limit snapshot.
pub open spec fn shown_plan(
    a: Option<&GetAccountResponse>,
    l: Option<&GetAccountRateLimitsResponse>,
) -> Option<PlanType> {
    match account_plan(a) {
        Some(p) => Some(p),
        None => match l {
            Some(lim) => lim.rate_limits.plan_type,
            None => None,
        },
    }
}

/// The rate-limit window of the snapshot, `primary` or else `secondary`.
pub open spec fn snapshot_window(l: Option<&GetAccountRateLimitsResponse>, primary: bool) -> Option<RateLimitWindow> {
    match l {
        Some(lim) => if primary { lim.rate_limits.primary } else { lim.rate_limits.secondary },
        None => None,
    }
}

/// The credits shown: a copy of the snapshot's.
pub open spec fn shown_credits(l: Option<&GetAccountRateLimitsResponse>) -> Option<CreditsDisplay> {
    match l {
        Some(lim) => match lim.rate_limits.credits {
            Some(c) => Some(CreditsDisplay { has_credits: c.has_credits, unlimited: c.unlimited, balance: c.balance }),
            None => None,
        },
        None => None,
    }
}

/// The answers can be shown: no window's remaining share overflows.
pub open spec fn limits_displayable(l: Option<&GetAccountRateLimitsResponse>) -> bool {
    percent_in_range(snapshot_window(l, true)) && percent_in_range(snapshot_window(l, false))
}

/// What `from_rpc` makes of the two answers, the time of the update aside.
pub open spec fn shows_rpc(
    d: WidgetData,
    a: Option<&GetAccountResponse>,
    l: Option<&GetAccountRateLimitsResponse>,
) -> bool {
    &&& d.email == account_email(a)
    &&& d.plan_type == shown_plan(a, l)
    &&& shows_optional_window(d.primary_window, snapshot_window(l, true))
    &&& shows_optional_window(d.secondary_window, snapshot_window(l, false))
    &&& d.credits == shown_credits(l)
    &&& d.error is None
}

/// Label of a window of `duration_mins` minutes.
pub fn format_window_label(duration_mins: Option<i64>) -> (label: String)
    ensures
        label@ == window_label(duration_mins),
{
    match duration_mins {
        Some(m) => {
            let mut s = String::new();
            if m >= 1440 {
                push_decimal(&mut s, (m as u64) / 1440);
                s.append("日間");
            } else if m >= 60 {
                push_decimal(&mut s, (m as u64) / 60);
                s.append("時間枠");
            } else {
                push_signed_decimal(&mut s, m);
                s.append("分枠");
            }
            s
        },
        None => String::from_str("使用枠"),
    }
}

fn window_display(w: &RateLimitWindow) -> (d: WindowDisplay)
    requires
        w.used_percent >= 100 - i32::MAX,
    ensures
        shows_window(d, *w),
{
    let capped: i32 = if w.used_percent < 100 { w.used_percent } else { 100 };
    WindowDisplay {
        label: format_window_label(w.window_duration_mins),
        used_percent: w.used_percent,
        remaining_percent: 100 - capped,
        resets_at: w.resets_at,
        window_duration_mins: w.window_duration_mins,
    }
}

fn optional_window_display(w: &Option<RateLimitWindow>) -> (d: Option<WindowDisplay>)
    requires
        percent_in_range(*w),
    ensures
        shows_optional_window(d, *w),
{
    match w {
        Some(x) => Some(window_display(x)),
        None => None,
    }
}

fn clone_optional_string(s: &Option<String>) -> (c: Option<String>)
    ensures
        c == *s,
{
    match s {
        Some(x) => Some(x.clone()),
        None => None,
    }
}

impl WidgetData {
    /// Builds the display model from the two answers, stamped with `now`.
    pub fn from_rpc_at(
        account_resp: Option<&GetAccountResponse>,
        limits_resp: Option<&GetAccountRateLimitsResponse>,
        now: i64,
    ) -> (data: WidgetData)
        requires
            limits_displayable(limits_resp),
        ensures
            shows_rpc(data, account_resp, limits_resp),
            data.last_updated == now,
    {
        let mut email: Option<String> = None;
        let mut plan_type: Option<PlanType> = None;
        if let Some(acct) = account_resp {
            if let Some(Account::ChatGpt { email: e, plan_type: p }) = &acct.account {
                email = Some(e.clone());
                plan_type = Some(*p);
            }
        }
        let mut primary_window: Option<WindowDisplay> = None;
        let mut secondary_window: Option<WindowDisplay> = None;
        let mut credits: Option<CreditsDisplay> = None;
        if let Some(limits) = limits_resp {
            let snap = &limits.rate_limits;
            if plan_type.is_none() {
                plan_type = snap.plan_type;
            }
            primary_window = optional_window_display(&snap.primary);
            secondary_window = optional_window_display(&snap.secondary);
            if let Some(c) = &snap.credits {
                credits = Some(
                    CreditsDisplay {
                        has_credits: c.has_credits,
                        unlimited: c.unlimited,
                        balance: clone_optional_string(&c.balance),
                    },
                );
            }
        }
        WidgetData {
            email,
            plan_type,
            primary_window,
            secondary_window,
            credits,
            last_updated: now,
            error: None,
        }
    }

    /// Builds the display model from the two answers, stamped with the
    /// current time of the system clock (its reading in seconds since the
    /// epoch, taken as an `i64`). Everything but the stamp is fixed by the
    /// answers; which instant the stamp holds depends on the clock alone, so
    /// the contract says nothing of it (`from_rpc_at` is exact for a given
    /// reading).
    pub fn from_rpc(
        account_resp: Option<&GetAccountResponse>,
        limits_resp: Option<&GetAccountRateLimitsResponse>,
    ) -> (data: WidgetData)
        requires
            limits_displayable(limits_resp),
        ensures
            shows_rpc(data, account_resp, limits_resp),
    {
        let secs = system_clock_secs();
        Self::from_rpc_at(account_resp, limits_resp, secs as i64)
    }
}

/// The used and the remaining share of a window make up the whole: the
/// remaining share is never negative, and is what is left of 100 while the
/// used share is at most 100, none beyond.
pub proof fn lemma_remaining_percent_complements(used: i32)
    ensures
        remaining_percent(used) >= 0,
        used <= 100 ==> used + remaining_percent(used) == 100,
        used >= 100 ==> remaining_percent(used) == 0,
{
}

} // verus!
