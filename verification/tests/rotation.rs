use codex_addons::accounts::login::activate_next_auth_profile_response;
use codex_addons::accounts::model::{Account, PlanType, RateLimitSnapshot, RateLimitWindow};
use codex_addons::accounts::rotation::{
    select_next_auth_profile, select_next_index, window_left_percent, AuthProfileSummary,
};
use codex_addons::accounts::rpc::RpcErrorKind;

fn pro() -> PlanType {
    PlanType { name: "pro".to_string(), label: "Pro".to_string() }
}

fn window(used_percent: u8, minutes: i64) -> RateLimitWindow {
    RateLimitWindow {
        window_duration_mins: Some(minutes),
        used_percent: used_percent.into(),
        resets_at: Some(1_700_000_000),
    }
}

fn chatgpt_profile(
    name: &str,
    active: bool,
    primary_used_percent: Option<u8>,
    secondary_used_percent: Option<u8>,
) -> AuthProfileSummary {
    AuthProfileSummary {
        name: name.to_string(),
        account: Some(Account::Chatgpt {
            email: Some(format!("{name}@example.com")),
            plan_type: pro(),
        }),
        rate_limits: Some(RateLimitSnapshot {
            limit_id: Some("codex".to_string()),
            limit_name: None,
            plan_type: Some(pro()),
            primary: primary_used_percent.map(|used| window(used, 300)),
            secondary: secondary_used_percent.map(|used| window(used, 10_080)),
            rest: "{}".to_string(),
        }),
        active,
    }
}

#[test]
fn selects_next_profile_within_top_capacity_band() {
    let profiles = vec![
        chatgpt_profile("active", true, Some(20), Some(20)),
        chatgpt_profile("best", false, Some(2), Some(3)),
        chatgpt_profile("also-best", false, Some(5), Some(4)),
        chatgpt_profile("low", false, Some(55), Some(80)),
    ];

    let selected =
        select_next_auth_profile(&profiles).expect("a next auth profile should be selected");

    assert_eq!(selected.name, "best");
}

#[test]
fn skips_exhausted_profiles() {
    let profiles = vec![
        chatgpt_profile("active", true, Some(100), Some(100)),
        chatgpt_profile("exhausted", false, Some(100), Some(20)),
        chatgpt_profile("available", false, Some(10), Some(10)),
    ];

    let selected =
        select_next_auth_profile(&profiles).expect("a next auth profile should be selected");

    assert_eq!(selected.name, "available");
}

#[test]
fn falls_back_to_unknown_profiles_when_no_scored_profile_exists() {
    let mut unknown = chatgpt_profile("unknown", false, None, None);
    unknown.rate_limits = Some(RateLimitSnapshot {
        limit_id: Some("codex".to_string()),
        limit_name: None,
        plan_type: Some(pro()),
        primary: None,
        secondary: None,
        rest: "{}".to_string(),
    });

    let profiles = vec![chatgpt_profile("active", true, Some(100), Some(100)), unknown];

    let selected =
        select_next_auth_profile(&profiles).expect("a fallback auth profile should be selected");

    assert_eq!(selected.name, "unknown");
}

#[test]
fn returns_none_when_no_alternative_profile_is_available() {
    let profiles = vec![chatgpt_profile("active", true, Some(10), Some(10))];

    assert_eq!(select_next_auth_profile(&profiles), None);
    let error = activate_next_auth_profile_response(&profiles).unwrap_err();
    assert_eq!(error.kind, RpcErrorKind::InvalidRequest);
    assert_eq!(
        error.message,
        "no alternative saved account with available ChatGPT capacity"
    );
}

#[test]
fn the_turn_goes_round_from_the_account_in_use() {
    let profiles = vec![
        chatgpt_profile("first", false, Some(0), Some(0)),
        chatgpt_profile("active", true, Some(100), Some(100)),
        chatgpt_profile("second", false, Some(1), Some(1)),
    ];
    assert_eq!(
        activate_next_auth_profile_response(&profiles),
        Ok("second".to_string())
    );
    assert_eq!(select_next_index(&[0, 2], Some(2)), Some(0));
    assert_eq!(select_next_index(&[0, 2], Some(0)), Some(2));
    assert_eq!(select_next_index(&[1, 2], None), Some(1));
    assert_eq!(select_next_index(&[], Some(0)), None);
}

#[test]
fn accounts_without_chatgpt_are_not_turned_to() {
    let mut key = chatgpt_profile("key", false, Some(0), Some(0));
    key.account = Some(Account::ApiKey);
    let profiles = vec![chatgpt_profile("active", true, Some(100), Some(100)), key];
    assert_eq!(select_next_auth_profile(&profiles), None);
}

#[test]
fn what_a_window_leaves_stays_within_bounds() {
    let mut window = window(25, 300);
    assert_eq!(window_left_percent(&Some(window)), Some(75));
    window = RateLimitWindow { used_percent: 140, window_duration_mins: None, resets_at: None };
    assert_eq!(window_left_percent(&Some(window)), Some(0));
    window = RateLimitWindow { used_percent: -3, window_duration_mins: None, resets_at: None };
    assert_eq!(window_left_percent(&Some(window)), Some(100));
    assert_eq!(window_left_percent(&None), None);
}
