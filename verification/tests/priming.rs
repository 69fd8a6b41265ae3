use codex_addons::accounts::auth_profiles::PlanCatalog;
use codex_addons::accounts::login::start_account_priming;
use codex_addons::accounts::model::{
    Account, AuthDotJson, AuthMode, ErrorKind, IdTokenInfo, PlanType, RateLimitSnapshot,
    RateLimitWindow, StoreError, TokenData,
};
use codex_addons::accounts::priming::{
    after_event, cancellable, is_primable, next_pass, prime, priming_model, priming_request,
    unlisted_pass, AccountAction, AccountAttempt, AccountEvent, AccountPrimingProfileOutcome,
    AccountPrimingRunSummary, AccountPrimingState, PrimingEvent, PrimingPass, PrimingReply,
    RunMode,
    DEFAULT_ACCOUNT_PRIMING_INTERVAL_SECONDS,
};
use codex_addons::accounts::rpc::RpcErrorKind;
use codex_addons::accounts::sessions::{AccountSession, AccountSessionsResponse};
use codex_addons::accounts::slots::CredentialSlots;
use codex_addons::accounts::store::{AccountSessionsStore, ActiveStore, IndexFile};
use codex_addons::accounts::usage::{
    account_profile, activated_profile, after_first_reply, after_refresh,
    backend_client_for_profile_auth, begin_usage, changed_credentials, finish_usage, select_snapshot,
    with_account_rate_limits, RateLimitCache, UsageAuth, UsageReply, UsageStep,
    ACCOUNT_RATE_LIMIT_CACHE_TTL,
};
use codex_addons::ids::fresh_session_ids;

fn plan(name: &str) -> PlanType {
    PlanType { name: name.to_string(), label: name.to_uppercase() }
}

fn account(id: &str, email: Option<&str>) -> AccountSession {
    AccountSession {
        session_id: id.to_string(),
        account: Some(Account::Chatgpt {
            email: email.map(str::to_string),
            plan_type: plan("plus"),
        }),
        rate_limits: None,
        email: email.map(str::to_string),
        user_id: None,
        display_name: None,
        image_url: None,
        last_used_at: 0,
        is_active: false,
        selected_workspace_account_id: None,
        workspaces: Vec::new(),
    }
}

fn usage(active: bool) -> RateLimitSnapshot {
    let window = |minutes: i64| RateLimitWindow {
        used_percent: 1,
        window_duration_mins: Some(minutes),
        resets_at: Some(2_000_000_000),
    };
    RateLimitSnapshot {
        limit_id: Some("codex".to_string()),
        limit_name: None,
        primary: if active { Some(window(300)) } else { None },
        secondary: if active { Some(window(10_080)) } else { None },
        plan_type: Some(plan("pro")),
        rest: "{}".to_string(),
    }
}

fn saved_auth(access_token: &str) -> AuthDotJson {
    AuthDotJson {
        auth_mode: Some(AuthMode::Chatgpt),
        openai_api_key: None,
        tokens: Some(TokenData {
            id_token: IdTokenInfo {
                raw: "raw".to_string(),
                email: Some("saved@example.com".to_string()),
                chatgpt_plan_type: None,
                chatgpt_user_id: None,
                chatgpt_account_id: Some("from-token".to_string()),
                chatgpt_account_is_fedramp: true,
            },
            access_token: access_token.to_string(),
            refresh_token: "refresh".to_string(),
            account_id: None,
        }),
        last_refresh: None,
        agent_identity: None,
        personal_access_token: None,
        bedrock_api_key: None,
        bedrock_access_keys: None,
    }
}

fn other(message: &str) -> StoreError {
    StoreError { kind: ErrorKind::Other, message: message.to_string() }
}

#[test]
fn manual_priming_uses_saved_browser_auth_without_tools_or_project_context() {
    let attempt = AccountAttempt::begin(&account("id", Some("saved@example.com")));
    assert!(is_primable(true, &saved_auth("saved-token"), Some(AuthMode::Chatgpt)));
    let (attempt, action) = attempt.process_account(AccountEvent::Loaded { primable: true });
    assert_eq!(action, AccountAction::FetchUsage);
    let (attempt, action) = attempt.process_account(AccountEvent::Usage(Ok(usage(false))));
    assert_eq!(action, AccountAction::Prime);
    let (attempt, action) = attempt.process_account(AccountEvent::Primed(Ok(())));
    assert_eq!(action, AccountAction::FetchUsage);
    let (attempt, action) = attempt.process_account(AccountEvent::Usage(Ok(usage(true))));
    assert_eq!(action, AccountAction::SaveCredentials);
    let (attempt, action) = attempt.process_account(AccountEvent::Saved(Ok(false)));
    assert_eq!(action, AccountAction::Finish);
    let mut summary = AccountPrimingRunSummary::begin(10);
    assert!(summary.record(attempt.result, false));
    summary.end(false, 20);
    assert_eq!(
        (summary.primed_count, summary.unsupported_count, summary.failed_count),
        (1, 0, 0)
    );
    assert_eq!(summary.results[0].profile_name, "saved@example.com");
    assert_eq!(summary.results[0].outcome, AccountPrimingProfileOutcome::Primed);
    assert_eq!((summary.started_at, summary.completed_at), (10, 20));

    let request = priming_request("mock-model").expect("a request");
    let body: serde_json::Value = serde_json::from_str(&request).expect("JSON");
    assert_eq!(body["instructions"], "Reply briefly to the greeting.");
    let input: serde_json::Value = serde_json::from_str(
        "[{\"role\": \"user\", \"content\": [{\"type\": \"input_text\", \"text\": \"hi\"}]}]",
    )
    .expect("JSON");
    assert_eq!(body["input"], input);
    assert_eq!(body["tools"].as_array().map(Vec::len), Some(0));
    assert_eq!(body["tool_choice"], "none");
    assert_eq!(body["model"], "mock-model");
    let configured = Some("mock-model".to_string());
    assert_eq!(priming_model("openai", &configured), (true, configured));
    assert_eq!(priming_model("other", &Some("mock-model".to_string())), (false, None));
}

#[test]
fn priming_recovers_rejected_access_token_and_preserves_rotated_credentials() {
    let rejected = || UsageReply::Failed { unauthorized: true, message: "401".to_string() };
    assert_eq!(
        begin_usage(Some(UsageAuth { uses_codex_backend: true, managed: true })),
        Ok(true)
    );
    assert_eq!(after_first_reply(true, rejected(), false), UsageStep::RefreshAndRetry);
    assert_eq!(after_first_reply(true, rejected(), true), UsageStep::Done(Err(other("401"))));
    assert_eq!(after_first_reply(false, rejected(), false), UsageStep::Done(Err(other("401"))));
    assert_eq!(after_refresh(Ok(()), true), Ok(()));
    assert_eq!(finish_usage(UsageReply::Answered(vec![usage(true)])), Ok(usage(true)));

    let auth = AuthDotJson {
        openai_api_key: Some("browser-companion-key".to_string()),
        ..saved_auth("saved-token")
    };
    let mut store = AccountSessionsStore::new(
        IndexFile::Missing,
        CredentialSlots::new(),
        None,
        Some(auth),
        ActiveStore::Configured,
        Vec::new(),
        PlanCatalog { known: vec![plan("pro")], unknown: plan("unknown") },
    );
    let stored = store.open(&fresh_session_ids(1), 1).expect("a list");
    let listed = store.list(&stored);
    let mut pass = PrimingPass::begin(listed.sessions, 1);
    let place = pass.next_account(false).expect("an account");
    let id = pass.accounts[place].session_id.clone();
    let stored = store.open(&fresh_session_ids(1), 1).expect("a list");
    let snapshot = store.snapshot_session_credentials(&stored, &id).expect("credentials");
    assert_eq!(
        pass.process(AccountEvent::Loaded { primable: true }),
        AccountAction::FetchUsage
    );
    let mut renewed = snapshot.auth.copy();
    let tokens = renewed.tokens.as_mut().expect("tokens");
    tokens.access_token = "renewed-token".to_string();
    tokens.refresh_token = "renewed-refresh-token".to_string();
    assert_eq!(
        pass.process(AccountEvent::Usage(Ok(usage(true)))),
        AccountAction::SaveCredentials
    );
    let changed = changed_credentials(&snapshot.auth, Some(renewed)).expect("credentials");
    let stored = store.open(&fresh_session_ids(1), 1).expect("a list");
    let saved = store.persist_session_credentials_if_unchanged(
        stored,
        &snapshot,
        &changed.expect("renewed credentials"),
    );
    assert!(saved);
    assert_eq!(pass.process(AccountEvent::Saved(Ok(saved))), AccountAction::Finish);
    pass.end_account(false);
    assert_eq!(pass.next_account(false), None);
    let summary = pass.finish(false, 2);
    assert_eq!((summary.already_active_count, summary.failed_count), (1, 0));
    let active = store.load_active_auth().expect("credentials");
    assert_eq!(store.load_session_auth(&id), Some(active.copy()));
    let tokens = active.tokens.expect("tokens");
    assert_eq!(
        (tokens.access_token.as_str(), tokens.refresh_token.as_str()),
        ("renewed-token", "renewed-refresh-token")
    );
    assert_eq!(tokens.id_token.email.as_deref(), Some("saved@example.com"));
}

fn finish_account(pass: &mut PrimingPass) {
    assert_eq!(
        pass.process(AccountEvent::Loaded { primable: false }),
        AccountAction::Finish
    );
}

fn three_accounts() -> PrimingPass {
    let accounts = vec![
        account("id-1", Some("first@example.com")),
        account("id-2", None),
        account("id-3", Some("third@example.com")),
    ];
    PrimingPass::begin(accounts, 10)
}

fn names(summary: &AccountPrimingRunSummary) -> Vec<&str> {
    summary.results.iter().map(|result| result.profile_name.as_str()).collect()
}

#[test]
fn a_pass_reports_every_account_in_order() {
    let mut pass = three_accounts();
    let mut places = Vec::new();
    while let Some(place) = pass.next_account(false) {
        places.push(place);
        finish_account(&mut pass);
        pass.end_account(false);
    }
    assert_eq!(places, [0, 1, 2]);
    let summary = pass.finish(false, 20);
    assert_eq!(names(&summary), ["first@example.com", "id-2", "third@example.com"]);
    assert_eq!((summary.unsupported_count, summary.cancelled), (3, false));
    assert_eq!((summary.started_at, summary.completed_at), (10, 20));
}

#[test]
fn a_cancelled_pass_leaves_out_the_account_in_hand() {
    let mut pass = three_accounts();
    assert_eq!(pass.next_account(false), Some(0));
    finish_account(&mut pass);
    pass.end_account(false);
    assert_eq!(pass.next_account(false), Some(1));
    finish_account(&mut pass);
    pass.end_account(true);
    assert_eq!(pass.next_account(true), None);
    let summary = pass.finish(true, 20);
    assert_eq!(names(&summary), ["first@example.com"]);
    assert!(summary.cancelled);

    let mut pass = three_accounts();
    assert_eq!(pass.next_account(true), None);
    let summary = pass.finish(true, 20);
    assert!(summary.cancelled && summary.results.is_empty());

    let summary = unlisted_pass("no list", 10, false, 20);
    assert_eq!(names(&summary), ["<accounts>"]);
    assert_eq!((summary.failed_count, summary.cancelled), (1, false));
    assert_eq!(
        summary.results[0].error.as_deref(),
        Some("failed to list saved accounts: no list")
    );
}

#[test]
fn manual_pass_reserves_worker_and_stop_cancels_in_flight_request() {
    let mut state = AccountPrimingState::new();
    assert!(state.launch(RunMode::Once, 1, 100).expect("a worker").running);
    state.begin_account(1, 101, &account("id", Some("saved@example.com")));
    let status = state.status();
    assert_eq!(
        (status.running, status.interval_seconds, status.current_profile_name.as_deref()),
        (true, None, Some("saved@example.com"))
    );
    let error = state.launch(RunMode::Periodic(300), 2, 102).unwrap_err();
    assert!(error.message.contains("already running"));
    assert_eq!(state.present_worker(), Some(1));
    assert_eq!(
        cancellable(PrimingReply::Canceled).unwrap_err().kind,
        ErrorKind::Interrupted
    );

    let mut summary = AccountPrimingRunSummary::begin(101);
    let attempt = AccountAttempt::begin(&account("id", Some("saved@example.com")));
    assert!(!summary.record(attempt.result, true));
    summary.end(true, 103);
    assert!(summary.cancelled);
    assert_eq!((summary.primed_count, summary.failed_count), (0, 0));
    state.end_pass(1, summary);
    state.release(1);
    assert!(!state.status().running);

    let (fresh, started) = state.launch_worker(RunMode::Once, 104).expect("a worker");
    assert!(started.running);
    assert_eq!(state.present_worker(), Some(fresh));
    assert_eq!((fresh >> 76) & 0xf, 4);
    assert!(state.launch_worker(RunMode::Once, 104).is_err());
    state.release(fresh);
    assert!(state.launch(RunMode::Periodic(300), 3, 104).expect("a worker").running);
    state.release(1);
    assert_eq!(state.present_worker(), Some(3));
    state.release(3);
    assert!(!state.status().running);
    assert!(state.status().last_run.expect("a pass").cancelled);
}

#[test]
fn failures_are_recorded_with_their_cause() {
    let loading = AccountAttempt::begin(&account("id", None));
    assert_eq!(loading.result.profile_name, "id");
    let (attempt, action) =
        loading.process_account(AccountEvent::NotLoaded("gone".to_string()));
    assert_eq!(action, AccountAction::Finish);
    assert_eq!(
        attempt.result.error.as_deref(),
        Some("failed to load saved account: gone")
    );

    let (attempt, action) = AccountAttempt::begin(&account("id", None))
        .process_account(AccountEvent::Loaded { primable: false });
    assert_eq!(action, AccountAction::Finish);
    assert_eq!(attempt.result.outcome, AccountPrimingProfileOutcome::UnsupportedAuth);
    assert_eq!(
        attempt.result.error.as_deref(),
        Some("Priming requires a saved ChatGPT login")
    );

    let (attempt, _) = AccountAttempt::begin(&account("id", None))
        .process_account(AccountEvent::Loaded { primable: true });
    let (attempt, _) = attempt.process_account(AccountEvent::Usage(Ok(usage(false))));
    let (attempt, _) = attempt.process_account(AccountEvent::Primed(Ok(())));
    let (attempt, action) = attempt.process_account(AccountEvent::Usage(Ok(usage(false))));
    assert_eq!(action, AccountAction::SaveCredentials);
    let (attempt, _) = attempt.process_account(AccountEvent::Saved(Ok(true)));
    assert_eq!(attempt.result.outcome, AccountPrimingProfileOutcome::Failed);
    assert_eq!(
        attempt.result.error.as_deref(),
        Some("failed to prime account: usage windows were still inactive after priming")
    );

    let (attempt, _) = AccountAttempt::begin(&account("id", None))
        .process_account(AccountEvent::Loaded { primable: true });
    let (attempt, _) = attempt.process_account(AccountEvent::Usage(Err(other("offline"))));
    let (attempt, _) = attempt.process_account(AccountEvent::Saved(Err(other("disk full"))));
    assert_eq!(
        attempt.result.error.as_deref(),
        Some("failed to prime account: disk full")
    );

    let mut summary = AccountPrimingRunSummary::begin(1);
    summary.record_listing_failure("no list");
    assert_eq!(summary.failed_count, 1);
}

#[test]
fn passes_are_repeated_until_they_are_canceled() {
    assert_eq!(next_pass(RunMode::Periodic(300), false), Some(300));
    assert_eq!(next_pass(RunMode::Periodic(300), true), None);
    assert_eq!(next_pass(RunMode::Once, false), None);
    assert_eq!(
        start_account_priming(None),
        Ok(DEFAULT_ACCOUNT_PRIMING_INTERVAL_SECONDS)
    );
    assert_eq!(start_account_priming(Some(1)), Ok(1));
    assert_eq!(
        start_account_priming(Some(0)).unwrap_err().kind,
        RpcErrorKind::InvalidParams
    );
}

#[test]
fn answers_end_with_their_completion() {
    assert_eq!(after_event(PrimingEvent::Other), None);
    assert_eq!(after_event(PrimingEvent::Completed), Some(Ok(())));
    assert_eq!(
        after_event(PrimingEvent::Failed("overloaded".to_string())),
        Some(Err("overloaded".to_string()))
    );
    assert_eq!(
        after_event(PrimingEvent::End),
        Some(Err("priming response ended before completion".to_string()))
    );
    assert_eq!(
        cancellable(PrimingReply::TimedOut).unwrap_err().kind,
        ErrorKind::TimedOut
    );
    assert_eq!(cancellable(PrimingReply::Ended(Ok(()))), Ok(()));
    assert_eq!(
        cancellable(PrimingReply::Ended(Err("x".to_string()))),
        Err(other("x"))
    );
    assert_eq!(prime(true, true), Ok(()));
    assert_eq!(prime(false, true), Err(other("saved account has no auth")));
    assert_eq!(
        prime(true, false),
        Err(other("OpenAI provider is unavailable for account priming"))
    );
    assert!(!is_primable(false, &saved_auth("t"), Some(AuthMode::Chatgpt)));
    assert!(!is_primable(true, &saved_auth("t"), Some(AuthMode::ApiKey)));
}

#[test]
fn usage_is_remembered_for_a_minute() {
    let mut cache = RateLimitCache::new();
    let auth = saved_auth("t");
    cache.insert("id", auth.copy(), usage(true), 1_000);
    let last = 1_000 + ACCOUNT_RATE_LIMIT_CACHE_TTL;
    assert_eq!(cache.get("id", &auth, last), Some(usage(true)));
    assert_eq!(cache.get("id", &auth, last + 1), None);
    assert_eq!(cache.get("id", &saved_auth("rotated"), 1_000), None);
    assert_eq!(cache.get("other", &auth, 1_000), None);
    let rotated = saved_auth("rotated");
    cache.insert("other", auth.copy(), usage(true), 1_000);
    cache.insert("id", rotated.copy(), usage(false), 2_000);
    assert_eq!(cache.entries.len(), 2);
    assert_eq!(cache.get("id", &auth, 2_000), None);
    assert_eq!(cache.get("id", &rotated, 2_000), Some(usage(false)));
    assert_eq!(cache.get("other", &auth, 2_000), Some(usage(true)));
    cache.retain(&AccountSessionsResponse { active_session_id: None, sessions: Vec::new() });
    assert_eq!(cache.get("id", &auth, 1_000), None);
}

#[test]
fn activated_accounts_are_found_in_the_list() {
    let limits = with_account_rate_limits(account("first", None), Some(usage(true)));
    assert_eq!(
        limits.account,
        Some(Account::Chatgpt { email: None, plan_type: plan("pro") })
    );
    let profile = account_profile(limits);
    assert_eq!((profile.name.as_str(), profile.active), ("first", false));
    let none = AccountSessionsResponse {
        active_session_id: None,
        sessions: vec![account("first", None)],
    };
    assert_eq!(
        activated_profile(none).unwrap_err().message,
        "activated saved account disappeared unexpectedly"
    );
}

#[test]
fn the_main_limit_is_shown() {
    let mut first = usage(true);
    first.limit_id = Some("other".to_string());
    assert_eq!(select_snapshot(&vec![first.copy(), usage(false)]), Some(usage(false)));
    assert_eq!(select_snapshot(&vec![first.copy()]), Some(first));
    assert_eq!(select_snapshot(&Vec::new()), None);
    assert_eq!(
        finish_usage(UsageReply::Answered(Vec::new())),
        Err(other("no rate-limit snapshots returned"))
    );
    assert_eq!(finish_usage(UsageReply::TimedOut).unwrap_err().kind, ErrorKind::TimedOut);
    assert_eq!(finish_usage(UsageReply::Canceled).unwrap_err().kind, ErrorKind::Interrupted);
    assert_eq!(begin_usage(None), Err(other("saved account has no auth")));
    assert_eq!(after_refresh(Err("x".to_string()), true), Err(other("x")));
    assert_eq!(after_refresh(Ok(()), false), Err(other("saved account has no auth")));
    assert!(begin_usage(Some(UsageAuth { uses_codex_backend: false, managed: true })).is_err());
}

#[test]
fn requests_are_made_with_the_tokens_of_the_account() {
    let client = backend_client_for_profile_auth(&saved_auth("t"))
        .expect("a client")
        .expect("a client");
    assert_eq!(client.access_token, "t");
    assert_eq!(client.account_id.as_deref(), Some("from-token"));
    assert!(client.fedramp);
    assert_eq!(
        backend_client_for_profile_auth(&saved_auth("")),
        Err(other("chatgpt auth profile is missing access token"))
    );
    let mut key = saved_auth("t");
    key.openai_api_key = Some("key".to_string());
    assert_eq!(backend_client_for_profile_auth(&key), Ok(None));
}
