use codex_addons::accounts::backend::{
    asks_for_reserve, check_backend_auth, invalid_thread_id, workspace_message_timestamp,
    workspace_message_timestamp_from_backend, workspace_message_type_from_backend,
    workspace_messages_feature_disabled, AccountRequestProcessor, AccountTokenUsageDailyBucket,
    AccountTokenUsageSummary, AddCreditsNudgeCreditType, AddCreditsNudgeEmailStatus, BackendAuth,
    BackendAddCreditsNudgeCreditType, BackendFailure, BackendPurpose, BackendRateLimits, BackendReply,
    BackendWorkspaceMessage, BackendWorkspaceMessageType, BackendWorkspaceMessagesResponse,
    CurrentAuth, GetAccountTokenUsageResponse, GetWorkspaceMessagesResponse,
    RateLimitResetCreditsSummary, ThreadUsage, TokenUsageProfile, TokenUsageProfileStats,
    WorkspaceMessage, WorkspaceMessageType,
};
use codex_addons::accounts::model::{Account, AuthMode, PlanType, RateLimitSnapshot};
use codex_addons::accounts::rpc::{operation_error, AccountOperation, RpcErrorKind};

fn profile() -> TokenUsageProfile {
    TokenUsageProfile {
        stats: TokenUsageProfileStats {
            lifetime_tokens: Some(123),
            peak_daily_tokens: Some(45),
            longest_running_turn_sec: Some(67),
            current_streak_days: Some(8),
            longest_streak_days: Some(9),
            daily_usage_buckets: Some(vec![AccountTokenUsageDailyBucket {
                start_date: "2026-05-29".to_string(),
                tokens: 10,
            }]),
        },
    }
}

#[test]
fn account_token_usage_response_maps_profile_stats_and_daily_buckets() {
    let response = AccountRequestProcessor::account_token_usage_response(profile());

    assert_eq!(
        response,
        GetAccountTokenUsageResponse {
            summary: AccountTokenUsageSummary {
                lifetime_tokens: Some(123),
                peak_daily_tokens: Some(45),
                longest_running_turn_sec: Some(67),
                current_streak_days: Some(8),
                longest_streak_days: Some(9),
            },
            daily_usage_buckets: Some(vec![AccountTokenUsageDailyBucket {
                start_date: "2026-05-29".to_string(),
                tokens: 10,
            }]),
            thread_usage: None,
        }
    );
}

fn headline() -> BackendWorkspaceMessagesResponse {
    BackendWorkspaceMessagesResponse {
        messages: vec![BackendWorkspaceMessage {
            message_id: "headline-id".to_string(),
            message_type: BackendWorkspaceMessageType::Headline,
            message_body: "Headline body".to_string(),
            created_at: Some("2026-06-14T00:00:00Z".to_string()),
            archived_at: Some("2026-06-15T00:00:00Z".to_string()),
        }],
    }
}

#[test]
fn workspace_messages_response_maps_backend_messages() {
    let response = AccountRequestProcessor::workspace_messages_response(
        headline(),
        /*feature_enabled*/ true,
    )
    .expect("workspace message timestamps should parse");

    assert_eq!(
        response,
        GetWorkspaceMessagesResponse {
            feature_enabled: true,
            messages: vec![WorkspaceMessage {
                message_id: "headline-id".to_string(),
                message_type: WorkspaceMessageType::Headline,
                message_body: "Headline body".to_string(),
                created_at: Some(1_781_395_200),
                archived_at: Some(1_781_481_600),
            }],
        }
    );
}

fn failure(status: Option<u16>) -> BackendFailure {
    BackendFailure {
        status,
        message: "GET https://example.test/api/codex/workspace-messages failed".to_string(),
    }
}

#[test]
fn workspace_messages_feature_disabled_only_for_not_found() {
    let cases = [(404, true), (401, false), (403, false)];

    for (status, expected) in cases {
        assert_eq!(workspace_messages_feature_disabled(&failure(Some(status))), expected);
    }
    assert!(!workspace_messages_feature_disabled(&failure(None)));
}

#[test]
fn a_disabled_feature_is_no_failure() {
    let response =
        AccountRequestProcessor::get_workspace_messages_response(BackendReply::Failed(failure(
            Some(404),
        )))
        .expect("a response");
    assert_eq!(
        response,
        GetWorkspaceMessagesResponse { feature_enabled: false, messages: Vec::new() }
    );
    let error =
        AccountRequestProcessor::get_workspace_messages_response(BackendReply::Failed(failure(
            Some(500),
        )))
        .unwrap_err();
    assert_eq!(error.kind, RpcErrorKind::Internal);
    assert!(AccountRequestProcessor::get_workspace_messages_response(BackendReply::TimedOut)
        .unwrap_err()
        .message
        .contains("timed out"));
    let answered =
        AccountRequestProcessor::get_workspace_messages_response(BackendReply::Answered(headline()))
            .expect("a response");
    assert!(answered.feature_enabled);
}

#[test]
fn times_are_read_in_seconds() {
    let read = |text: &str| workspace_message_timestamp_from_backend(&Some(text.to_string()));
    assert_eq!(read("1970-01-01T00:00:00Z"), Ok(Some(0)));
    assert_eq!(read("1970-01-01T02:00:00.9+01:00"), Ok(Some(3600)));
    assert_eq!(read("yesterday").unwrap_err().kind, RpcErrorKind::Internal);
    assert_eq!(workspace_message_timestamp_from_backend(&None), Ok(None));
    assert_eq!(workspace_message_timestamp("x", Ok(7)), Ok(Some(7)));
    let error = workspace_message_timestamp("x", Err("premature end".to_string())).unwrap_err();
    assert!(error.message.contains("premature end"));
    assert_eq!(
        workspace_message_type_from_backend(BackendWorkspaceMessageType::Announcement),
        WorkspaceMessageType::Announcement
    );
}

fn auth() -> BackendAuth {
    BackendAuth {
        uses_codex_backend: true,
        auth_mode: AuthMode::Chatgpt,
        is_fedramp_account: false,
        account_id: Some("account".to_string()),
        chatgpt_user_id: Some("user".to_string()),
    }
}

fn snapshot(limit_id: &str) -> RateLimitSnapshot {
    RateLimitSnapshot {
        limit_id: Some(limit_id.to_string()),
        limit_name: None,
        primary: None,
        secondary: None,
        plan_type: None,
        rest: "{}".to_string(),
    }
}

fn limits(account: &str, user: &str) -> BackendRateLimits {
    BackendRateLimits {
        rate_limits: vec![snapshot("other"), snapshot("codex")],
        reset_credits_available: Some(3),
        account_id: Some(account.to_string()),
        user_id: Some(user.to_string()),
        ordinary_usage_allowed: Some(true),
        rate_limit_upsell: Some("{\"offer\":1}".to_string()),
    }
}

#[test]
fn rate_limits_are_passed_on_for_the_account_at_hand() {
    let answer = AccountRequestProcessor::get_account_rate_limits_response(
        &auth(),
        Ok(limits("account", "user")),
        None,
    )
    .expect("limits");
    assert_eq!(answer.rate_limits.limit_id.as_deref(), Some("codex"));
    assert_eq!(answer.ordinary_usage_allowed, Some(true));
    assert_eq!(answer.rate_limit_upsell.as_deref(), Some("{\"offer\":1}"));
    assert_eq!(
        answer.rate_limit_reset_credits,
        Some(RateLimitResetCreditsSummary { available_count: 3, credits: None })
    );
    let ids: Vec<&str> =
        answer.rate_limits_by_limit_id.iter().map(|entry| entry.limit_id.as_str()).collect();
    assert_eq!(ids, vec!["other", "codex"]);

    let foreign = AccountRequestProcessor::get_account_rate_limits_response(
        &auth(),
        Ok(limits("account", "someone else")),
        None,
    )
    .expect("limits");
    assert_eq!(foreign.ordinary_usage_allowed, None);
    assert_eq!(foreign.rate_limit_upsell, None);
}

#[test]
fn missing_rate_limits_are_failures() {
    let mut empty = limits("account", "user");
    empty.rate_limits.clear();
    assert_eq!(
        AccountRequestProcessor::get_account_rate_limits_response(&auth(), Ok(empty), None)
            .unwrap_err()
            .message,
        "failed to fetch codex rate limits: no snapshots returned"
    );
    assert_eq!(
        AccountRequestProcessor::get_account_rate_limits_response(
            &auth(),
            Err("offline".to_string()),
            None
        )
        .unwrap_err()
        .message,
        "failed to fetch codex rate limits: offline"
    );
}

#[test]
fn requests_need_a_chatgpt_login() {
    assert_eq!(check_backend_auth(&Some(auth()), BackendPurpose::RateLimits), Ok(()));
    let key = BackendAuth { uses_codex_backend: false, ..auth() };
    assert_eq!(
        check_backend_auth(&Some(key), BackendPurpose::TokenUsage).unwrap_err().message,
        "chatgpt authentication required to read token usage"
    );
    assert_eq!(
        check_backend_auth(&None, BackendPurpose::WorkspaceOwner).unwrap_err().message,
        "codex account authentication required to notify workspace owner"
    );
    assert!(asks_for_reserve(true, &auth()));
    assert!(!asks_for_reserve(false, &auth()));
    assert!(!asks_for_reserve(true, &BackendAuth { is_fedramp_account: true, ..auth() }));
}

#[test]
fn usage_is_passed_on() {
    let answered =
        AccountRequestProcessor::get_account_token_usage_response(BackendReply::Answered(profile()))
            .expect("usage");
    assert_eq!(answered.summary.lifetime_tokens, Some(123));
    assert!(AccountRequestProcessor::get_account_token_usage_response(BackendReply::TimedOut)
        .is_err());
    let thread = ThreadUsage {
        thread_id: "thread".to_string(),
        estimated_usage_credits_micros: Some(1),
        estimated_usage_usd_micros: None,
        groups: Vec::new(),
    };
    let usage = AccountRequestProcessor::thread_usage_response(BackendReply::Answered(thread))
        .expect("usage");
    assert_eq!(usage.summary.lifetime_tokens, None);
    assert_eq!(usage.thread_usage.map(|thread| thread.thread_id).as_deref(), Some("thread"));
    assert_eq!(
        invalid_thread_id("bad length").kind,
        RpcErrorKind::InvalidRequest
    );
}

#[test]
fn reminders_are_sent_or_cooling_down() {
    let send = AccountRequestProcessor::send_add_credits_nudge_email_response;
    assert_eq!(send(Ok(())), Ok(AddCreditsNudgeEmailStatus::Sent));
    assert_eq!(
        send(Err(failure(Some(429)))),
        Ok(AddCreditsNudgeEmailStatus::CooldownActive)
    );
    assert!(send(Err(failure(Some(500)))).is_err());
    assert_eq!(
        AccountRequestProcessor::backend_credit_type(AddCreditsNudgeCreditType::UsageLimit),
        BackendAddCreditsNudgeCreditType::UsageLimit
    );
}

#[test]
fn accounts_are_told_from_the_credentials_in_use() {
    let plan = || PlanType { name: "pro".to_string(), label: "Pro".to_string() };
    let current = |email: Option<&str>, plan_type: Option<PlanType>| CurrentAuth {
        is_api_key: false,
        is_bedrock: false,
        is_chatgpt: true,
        email: email.map(str::to_string),
        plan_type,
    };
    assert_eq!(
        AccountRequestProcessor::account_from_codex_auth(&current(
            Some("a@example.com"),
            Some(plan())
        )),
        Some(Account::Chatgpt { email: Some("a@example.com".to_string()), plan_type: plan() })
    );
    assert_eq!(
        AccountRequestProcessor::account_from_codex_auth(&current(None, Some(plan()))),
        None
    );
}

#[test]
fn failures_say_what_was_being_done() {
    let error = operation_error(AccountOperation::SwitchSession, "no such account");
    assert_eq!(error.kind, RpcErrorKind::Internal);
    assert_eq!(error.message, "failed to switch account session: no such account");
    let error = operation_error(AccountOperation::StartPriming, "busy");
    assert_eq!(error.kind, RpcErrorKind::InvalidRequest);
    assert_eq!(error.message, "failed to start account priming: busy");
}
