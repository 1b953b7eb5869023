use codex_widget::models::{
    format_window_label, Account, CreditsSnapshot, GetAccountRateLimitsResponse, GetAccountResponse,
    JsonRpcError, PlanType, RateLimitSnapshot, RateLimitWindow, WidgetData,
};

fn window(used: i32, mins: Option<i64>) -> RateLimitWindow {
    RateLimitWindow { used_percent: used, resets_at: Some(1_700_000_000), window_duration_mins: mins }
}

fn chatgpt(plan: PlanType) -> GetAccountResponse {
    GetAccountResponse {
        account: Some(Account::ChatGpt { email: "me@example.com".to_string(), plan_type: plan }),
        requires_openai_auth: false,
    }
}

fn limits(plan: Option<PlanType>) -> GetAccountRateLimitsResponse {
    GetAccountRateLimitsResponse {
        rate_limits: RateLimitSnapshot {
            primary: Some(window(42, Some(300))),
            secondary: Some(window(130, Some(10080))),
            credits: Some(CreditsSnapshot {
                has_credits: true,
                unlimited: false,
                balance: Some("12.50".to_string()),
            }),
            plan_type: plan,
        },
    }
}

#[test]
fn window_labels() {
    assert_eq!(format_window_label(Some(10080)), "7日間");
    assert_eq!(format_window_label(Some(1440)), "1日間");
    assert_eq!(format_window_label(Some(2000)), "1日間");
    assert_eq!(format_window_label(Some(300)), "5時間枠");
    assert_eq!(format_window_label(Some(60)), "1時間枠");
    assert_eq!(format_window_label(Some(59)), "59分枠");
    assert_eq!(format_window_label(Some(0)), "0分枠");
    assert_eq!(format_window_label(Some(-5)), "-5分枠");
    assert_eq!(format_window_label(None), "使用枠");
}

#[test]
fn plan_names() {
    assert_eq!(PlanType::Plus.to_display_string(), "Plus");
    assert_eq!(PlanType::Enterprise.to_display_string(), "Enterprise");
    assert_eq!(PlanType::Unknown.to_display_string(), "Unknown");
}

#[test]
fn from_rpc_fills_every_field() {
    let acct = chatgpt(PlanType::Pro);
    let lim = limits(Some(PlanType::Free));
    let d = WidgetData::from_rpc_at(Some(&acct), Some(&lim), 123);
    assert_eq!(d.email.as_deref(), Some("me@example.com"));
    assert_eq!(d.plan_type, Some(PlanType::Pro));
    let p = d.primary_window.unwrap();
    assert_eq!(p.label, "5時間枠");
    assert_eq!(p.used_percent, 42);
    assert_eq!(p.remaining_percent, 58);
    assert_eq!(p.resets_at, Some(1_700_000_000));
    assert_eq!(p.window_duration_mins, Some(300));
    let s = d.secondary_window.unwrap();
    assert_eq!(s.label, "7日間");
    assert_eq!(s.remaining_percent, 0);
    let c = d.credits.unwrap();
    assert!(c.has_credits);
    assert!(!c.unlimited);
    assert_eq!(c.balance.as_deref(), Some("12.50"));
    assert_eq!(d.last_updated, 123);
    assert!(d.error.is_none());
}

#[test]
fn snapshot_plan_is_used_without_a_chatgpt_login() {
    let api_key = GetAccountResponse { account: Some(Account::ApiKey), requires_openai_auth: true };
    let lim = limits(Some(PlanType::Team));
    let d = WidgetData::from_rpc_at(Some(&api_key), Some(&lim), 0);
    assert_eq!(d.email, None);
    assert_eq!(d.plan_type, Some(PlanType::Team));
    let d2 = WidgetData::from_rpc_at(None, Some(&lim), 0);
    assert_eq!(d2.plan_type, Some(PlanType::Team));
}

#[test]
fn nothing_received_gives_an_empty_model() {
    let d = WidgetData::from_rpc_at(None, None, 9);
    assert!(d.email.is_none() && d.plan_type.is_none());
    assert!(d.primary_window.is_none() && d.secondary_window.is_none() && d.credits.is_none());
    assert_eq!(d.last_updated, 9);
    let acct = chatgpt(PlanType::Go);
    let d2 = WidgetData::from_rpc_at(Some(&acct), None, 0);
    assert_eq!(d2.plan_type, Some(PlanType::Go));
    assert!(d2.primary_window.is_none());
}

#[test]
fn remaining_share_for_negative_and_extreme_use() {
    let lim = GetAccountRateLimitsResponse {
        rate_limits: RateLimitSnapshot {
            primary: Some(window(-20, None)),
            secondary: Some(window(i32::MAX, Some(45))),
            credits: None,
            plan_type: None,
        },
    };
    let d = WidgetData::from_rpc_at(None, Some(&lim), 0);
    let p = d.primary_window.unwrap();
    assert_eq!(p.remaining_percent, 120);
    assert_eq!(p.label, "使用枠");
    let s = d.secondary_window.unwrap();
    assert_eq!(s.remaining_percent, 0);
    assert_eq!(s.label, "45分枠");
    assert!(d.credits.is_none());
}

#[test]
fn from_rpc_stamps_the_current_time() {
    let d = WidgetData::from_rpc(None, None);
    assert!(d.last_updated > 1_600_000_000);
}

#[test]
fn default_widget_data_is_empty() {
    let d = WidgetData::default();
    assert!(d.email.is_none() && d.error.is_none());
    assert_eq!(d.last_updated, 0);
}

#[test]
fn json_rpc_error_holds_code_and_message() {
    let e = JsonRpcError { code: -32600, message: "Invalid Request".to_string() };
    assert_eq!(e.code, -32600);
    assert_eq!(e.message, "Invalid Request");
}
