use codex_addons::accounts::login::{
    AccountLoginCompletedNotification, CancelLoginAccountStatus, LoginAccountParams,
    LoginAccountResponse,
};
use codex_addons::accounts::model::{Account, PlanType, RateLimitSnapshot, RateLimitWindow};
use codex_addons::accounts::priming::{
    AccountPrimingProfileOutcome, AccountPrimingProfileResult, AccountPrimingRunSummary,
    AccountPrimingStatus,
};
use codex_addons::accounts::sessions::{
    AccountSession, AccountSessionWorkspace, AccountSessionsResponse,
};
use codex_addons::table::{
    column_width, kept_parts, pad_table_cell, truncate_display_width, width_within,
};
use codex_addons::tui::account_commands;
use codex_addons::tui::account_commands::{
    format_account_sessions, format_window_left, show_account_sessions, AccountCommand,
    ResetLabels, ACCOUNTS_HINT,
};
use codex_addons::tui::account_login::{login_params, LoginCall, LoginTracker};
use codex_addons::tui::account_priming;
use codex_addons::tui::account_priming::{
    format_account_priming_run_output, format_account_priming_status_output, RunLabels,
    StatusLabels,
};
use codex_addons::tui::actions::{
    AccountLoginMethod, AppEvent, AuthProfileSwitchTrigger, LineStyle, UiAction,
};
use codex_addons::tui::chatwidget::{ChatWidget, StopLoopMode};

fn pro() -> PlanType {
    PlanType { name: "pro".to_string(), label: "Pro".to_string() }
}

fn window(used_percent: i32, minutes: i64) -> RateLimitWindow {
    RateLimitWindow {
        used_percent,
        window_duration_mins: Some(minutes),
        resets_at: Some(1_789_000_000),
    }
}

fn response() -> AccountSessionsResponse {
    AccountSessionsResponse {
        active_session_id: Some("account-1".to_string()),
        sessions: vec![
            AccountSession {
                session_id: "account-1".to_string(),
                account: Some(Account::Chatgpt {
                    email: Some("user@example.com".to_string()),
                    plan_type: pro(),
                }),
                rate_limits: Some(RateLimitSnapshot {
                    limit_id: None,
                    limit_name: None,
                    primary: Some(window(25, 300)),
                    secondary: Some(window(64, 10_080)),
                    plan_type: Some(pro()),
                    rest: "{}".to_string(),
                }),
                email: Some("user@example.com".to_string()),
                user_id: Some("user-1".to_string()),
                display_name: Some("Codex User".to_string()),
                image_url: None,
                last_used_at: 0,
                is_active: true,
                selected_workspace_account_id: Some("workspace-1".to_string()),
                workspaces: vec![AccountSessionWorkspace {
                    account_id: "workspace-1".to_string(),
                    name: Some("Example Team".to_string()),
                    image_url: None,
                    kind: None,
                }],
            },
            AccountSession {
                session_id: "account-2".to_string(),
                account: Some(Account::ApiKey),
                rate_limits: None,
                email: None,
                user_id: None,
                display_name: None,
                image_url: None,
                last_used_at: 0,
                is_active: false,
                selected_workspace_account_id: None,
                workspaces: Vec::new(),
            },
        ],
    }
}

fn labels() -> Vec<ResetLabels> {
    vec![
        ResetLabels {
            five_hour: Some("17:00".to_string()),
            weekly: Some("12:00 on 18 Sep".to_string()),
        },
        ResetLabels { five_hour: None, weekly: None },
    ]
}

#[test]
fn formats_active_account_and_selected_workspace_without_credentials() {
    let shown = format_account_sessions(&response(), &labels());
    let expected = [
        "Saved accounts (* = current):",
        "CUR  ACCOUNT           PLAN  5H LEFT  5H RESET  WEEKLY LEFT  WEEKLY RESET",
        "---  ----------------  ----  -------  --------  -----------  ---------------",
        "*    user@example.com  Pro   75%      17:00     36%          12:00 on 18 Sep",
        "    ID: account-1",
        "    → Example Team (workspace-1)",
        "     API key           -     -        -         -            -",
        "    ID: account-2",
    ]
    .join("\n");
    assert_eq!(shown, expected);
}

#[test]
fn accounts_go_by_what_is_known_of_them() {
    let mut response = response();
    response.sessions[1].account = None;
    response.sessions[1].display_name = Some("Somebody".to_string());
    response.sessions[0].workspaces[0].name = None;
    response.sessions[0].selected_workspace_account_id = None;
    let shown = format_account_sessions(&response, &labels());
    assert!(shown.contains("     Somebody"));
    assert!(shown.contains("      unnamed workspace (workspace-1)"));
    response.sessions.clear();
    assert_eq!(format_account_sessions(&response, &Vec::new()), "No saved accounts.");
}

#[test]
fn replies_to_commands_are_shown() {
    let shown = show_account_sessions(AccountCommand::Switch, &Ok(response()), &labels());
    assert_eq!(
        shown[0],
        UiAction::Info {
            message: "Account switched. New turns will use the selected account.".to_string(),
            hint: None,
        }
    );
    assert_eq!(
        shown[1],
        UiAction::Info {
            message: format_account_sessions(&response(), &labels()),
            hint: Some(ACCOUNTS_HINT.to_string()),
        }
    );
    let failed =
        show_account_sessions(AccountCommand::LogOut, &Err("offline".to_string()), &Vec::new());
    assert_eq!(failed, vec![UiAction::Error("Could not log out account: offline".to_string())]);
}

#[test]
fn what_a_window_leaves_is_shown_in_percent() {
    assert_eq!(format_window_left(&Some(window(25, 300))), "75%");
    assert_eq!(format_window_left(&Some(window(130, 300))), "0%");
    assert_eq!(format_window_left(&Some(window(-30, 300))), "100%");
    assert_eq!(format_window_left(&None), "-");
    let mut open = window(25, 300);
    open.resets_at = None;
    assert_eq!(
        account_commands::format_window_reset(&Some(open), &Some("17:00".to_string())),
        "-"
    );
}

fn texts(parts: &[&str]) -> Vec<String> {
    parts.iter().map(|part| part.to_string()).collect()
}

#[test]
fn texts_are_cut_off_between_characters() {
    assert_eq!(truncate_display_width("plain", 5), "plain");
    assert_eq!(truncate_display_width("plain", 4), "pla…");
    assert_eq!(truncate_display_width("plain", 1), "…");
    assert_eq!(truncate_display_width("plain", 0), "");
    assert_eq!(truncate_display_width("日本語", 4), "日…");
    assert_eq!(truncate_display_width("e\u{301}e\u{301}e\u{301}", 2), "e\u{301}…");
    assert_eq!(kept_parts(&texts(&["ab", "c", "d"]), &vec![2, 1, 1], 3), "abc");
    assert_eq!(kept_parts(&texts(&["ab", "c"]), &vec![2, 1], 1), "");
}

#[test]
fn cells_fill_their_columns() {
    assert_eq!(pad_table_cell("ab", 4), "ab  ");
    assert_eq!(pad_table_cell("日", 4), "日  ");
    assert_eq!(pad_table_cell("abcdef", 4), "abc…");
    assert_eq!(column_width("HEAD", &texts(&["a", "日本語日本"]), 40), 10);
    assert_eq!(column_width("HEAD", &texts(&["a"]), 40), 4);
    assert_eq!(column_width("HEAD", &texts(&["aaaaaaaa"]), 6), 6);
    assert_eq!(width_within(4, &vec![1, 9, 3], 40), 9);
    assert_eq!(width_within(4, &Vec::new(), 40), 4);
    let cells = texts(&["a ", "b ", "  "]);
    assert_eq!(account_commands::join_table_cells(&cells), "a   b");
    assert_eq!(account_priming::join_table_cells(&cells), "a   b     ");
}

fn summary() -> AccountPrimingRunSummary {
    AccountPrimingRunSummary {
        started_at: 1,
        completed_at: 2,
        cancelled: true,
        primed_count: 1,
        already_active_count: 0,
        unsupported_count: 0,
        failed_count: 12,
        results: vec![AccountPrimingProfileResult {
            profile_name: "saved@example.com".to_string(),
            account: Some(Account::Chatgpt {
                email: Some("saved@example.com".to_string()),
                plan_type: pro(),
            }),
            outcome: AccountPrimingProfileOutcome::Primed,
            before_rate_limits: Some(RateLimitSnapshot {
                limit_id: None,
                limit_name: None,
                primary: Some(window(1, 300)),
                secondary: None,
                plan_type: None,
                rest: "{}".to_string(),
            }),
            after_rate_limits: None,
            error: None,
        }],
    }
}

fn run_labels() -> RunLabels {
    RunLabels {
        completed: "2026-09-11 12:00:00 UTC".to_string(),
        rows: vec![ResetLabels { five_hour: Some("17:00".to_string()), weekly: None }],
    }
}

#[test]
fn passes_are_shown_as_a_table() {
    let shown = format_account_priming_run_output(&summary(), &run_labels());
    let expected = [
        "Last priming run: 2026-09-11 12:00:00 UTC | primed 1 | active 0 | unsupported 0 | failed 12 | cancelled",
        "PROFILE            ACCOUNT            RESULT  5H RESET  WEEKLY RESET  DETAIL         ",
        "-----------------  -----------------  ------  --------  ------------  ---------------",
        "saved@example.com  saved@example.com  primed  17:00     -             window inactive",
    ]
    .join("\n");
    assert_eq!(shown, expected);
}

#[test]
fn priming_is_shown_with_its_last_pass() {
    let mut status = AccountPrimingStatus {
        running: true,
        interval_seconds: Some(300),
        started_at: Some(1),
        current_run_started_at: None,
        current_profile_name: Some("saved@example.com".to_string()),
        last_run: None,
    };
    let labels = StatusLabels {
        started: "yesterday".to_string(),
        current_run: "today".to_string(),
        last_run: run_labels(),
    };
    assert_eq!(
        format_account_priming_status_output(&status, &labels),
        "Account priming\nSTATE: running\nINTERVAL: 300s\nSTARTED: yesterday\nCURRENT RUN: -\nCURRENT PROFILE: saved@example.com\nLAST RUN: none"
    );
    status.running = false;
    status.last_run = Some(summary());
    let shown = format_account_priming_status_output(&status, &labels);
    assert!(shown.contains("STATE: stopped"));
    assert!(shown.contains("\n\nLast priming run: "));
}

fn device_reply(login_id: &str) -> Result<LoginAccountResponse, String> {
    Ok(LoginAccountResponse::ChatgptDeviceCode {
        login_id: login_id.to_string(),
        verification_url: "https://auth.example.com/codex/device".to_string(),
        user_code: "ABCD-EFGH".to_string(),
    })
}

fn login_completed(login_id: &str, result: Result<(), &str>) -> AccountLoginCompletedNotification {
    AccountLoginCompletedNotification {
        login_id: Some(login_id.to_string()),
        success: result.is_ok(),
        error: result.err().map(str::to_string),
        onboarding_entrypoint: None,
    }
}

fn info(message: &str) -> UiAction {
    UiAction::Info { message: message.to_string(), hint: None }
}

#[test]
fn device_login_renders_instructions_and_cancels_superseded_attempts() {
    let mut app = LoginTracker::new();
    assert_eq!(app.start_account_login(), LoginCall::Start);
    let shown = app.on_login_started(device_reply("first"));
    assert_eq!(app.account_login_id.as_deref(), Some("first"));
    let UiAction::Lines(lines) = &shown[0] else {
        panic!("instructions");
    };
    assert_eq!(lines[3].text, "https://auth.example.com/codex/device");
    assert_eq!(lines[3].style, LineStyle::Link);
    assert_eq!(lines[6].text, "ABCD-EFGH");
    assert_eq!(lines[6].style, LineStyle::Code);

    assert_eq!(app.start_account_login(), LoginCall::Cancel("first".to_string()));
    app.on_login_canceled(Ok(CancelLoginAccountStatus::Canceled));
    assert!(app.may_start());
    app.on_login_started(device_reply("second"));
    assert_eq!(app.account_login_id.as_deref(), Some("second"));
    assert_eq!(
        app.on_account_login_completed(&login_completed("first", Err("canceled"))),
        Vec::new()
    );
    assert_eq!(app.account_login_id.as_deref(), Some("second"));

    assert_eq!(app.cancel_account_login(), Ok("second".to_string()));
    assert_eq!(
        app.on_login_canceled(Ok(CancelLoginAccountStatus::Canceled)),
        vec![info("Account login canceled.")]
    );
    assert_eq!(app.account_login_id, None);
    assert_eq!(
        app.on_account_login_completed(&login_completed("second", Ok(()))),
        Vec::new()
    );
}

#[test]
fn failed_cancellation_keeps_the_attempt_until_retry_succeeds() {
    let mut app = LoginTracker::new();
    app.on_login_started(device_reply("first"));
    assert_eq!(app.start_account_login(), LoginCall::Cancel("first".to_string()));
    assert_eq!(
        app.on_login_canceled(Err("cancellation unavailable".to_string())),
        vec![UiAction::Error("Could not cancel login: cancellation unavailable".to_string())]
    );
    assert!(!app.may_start());
    assert_eq!(app.account_login_id.as_deref(), Some("first"));
    app.on_login_canceled(Ok(CancelLoginAccountStatus::Canceled));
    app.on_login_started(device_reply("second"));
    assert_eq!(app.account_login_id.as_deref(), Some("second"));
}

#[test]
fn login_completion_refreshes_accounts_and_failures_allow_retry() {
    let mut app = LoginTracker::new();
    app.on_login_started(device_reply("success"));
    assert_eq!(
        app.on_account_login_completed(&login_completed("success", Ok(()))),
        vec![
            info("ChatGPT account added. Use /account to view or switch accounts."),
            UiAction::Send(AppEvent::ListAccountSessions),
        ]
    );
    assert_eq!(app.account_login_id, None);

    assert_eq!(
        app.on_login_started(Err("device code unavailable".to_string())),
        vec![UiAction::Error(
            "Login failed: device code unavailable. Use /login to try again.".to_string()
        )]
    );
    assert_eq!(app.account_login_id, None);
    app.on_login_started(device_reply("failure"));
    assert_eq!(
        app.on_account_login_completed(&login_completed("failure", Err("Code expired"))),
        vec![UiAction::Error(
            "Login failed: Code expired. Use /login to try again.".to_string()
        )]
    );
    assert_eq!(app.account_login_id, None);
}

#[test]
fn browser_login_routes_to_account_sessions_and_finished_cancellation_refreshes_accounts() {
    assert_eq!(
        login_params(AccountLoginMethod::Browser),
        LoginAccountParams::Chatgpt {
            app_brand: None,
            codex_streamlined_login: false,
            use_hosted_login_success_page: false,
        }
    );
    assert_eq!(
        login_params(AccountLoginMethod::DeviceCode),
        LoginAccountParams::ChatgptDeviceCode
    );
    let mut app = LoginTracker { account_login_id: Some("browser".to_string()) };
    assert_eq!(
        app.on_login_canceled(Ok(CancelLoginAccountStatus::NotFound)),
        vec![
            UiAction::Send(AppEvent::ListAccountSessions),
            info("Login is no longer pending. Checking saved accounts."),
        ]
    );
    assert_eq!(app.account_login_id, None);
    assert_eq!(
        app.cancel_account_login(),
        Err(info("No account login is in progress."))
    );
    let shown = app.on_login_started(Ok(LoginAccountResponse::Chatgpt {
        login_id: "browser".to_string(),
        auth_url: "https://auth.example.com/authorize".to_string(),
    }));
    assert_eq!(
        shown[0],
        UiAction::OpenUrl("https://auth.example.com/authorize".to_string())
    );
    assert_eq!(
        app.on_login_started(Ok(LoginAccountResponse::ApiKey)),
        vec![UiAction::Error(
            "Unexpected accountSession/login/start response: ApiKey".to_string()
        )]
    );
}

fn started(method: AccountLoginMethod) -> UiAction {
    UiAction::Send(AppEvent::StartAccountLogin { method })
}

#[test]
fn the_login_command_names_a_method() {
    let run = |args: &str| {
        let mut chat = ChatWidget::new();
        chat.handle_account_login_command(args);
        chat.actions
    };
    assert_eq!(run(" browser "), vec![started(AccountLoginMethod::Browser)]);
    assert_eq!(run("device"), vec![started(AccountLoginMethod::DeviceCode)]);
    assert_eq!(run("--device-auth"), vec![started(AccountLoginMethod::DeviceCode)]);
    assert_eq!(run("cancel"), vec![UiAction::Send(AppEvent::CancelAccountLogin)]);
    assert_eq!(
        run("elsewhere"),
        vec![UiAction::Error("Usage: /login [browser|device|cancel]".to_string())]
    );
    let asked = run("  ");
    assert_eq!(asked.len(), 3);
    let UiAction::Select(view) = &asked[0] else {
        panic!("a choice");
    };
    assert_eq!(view.title, "Add a ChatGPT account");
    assert_eq!(view.items[1].name, "Device code");
    assert_eq!(asked[1], UiAction::DeferInput);
}

#[test]
fn loops_send_their_prompt_after_a_turn() {
    let mut chat = ChatWidget::new();
    assert!(!chat.maybe_run_stop_loop());
    chat.set_stop_loop(StopLoopMode::Once, " go on ".to_string());
    assert_eq!(chat.actions, vec![info("Loop armed for next successful turn: go on")]);
    chat.task_running = true;
    assert!(!chat.maybe_run_stop_loop());
    chat.task_running = false;
    chat.queued_follow_up_messages = 1;
    assert!(!chat.maybe_run_stop_loop());
    chat.queued_follow_up_messages = 0;
    assert!(chat.maybe_run_stop_loop());
    assert_eq!(chat.actions.last(), Some(&UiAction::Submit("go on".to_string())));
    assert!(!chat.maybe_run_stop_loop());

    chat.set_stop_loop(StopLoopMode::Always, "again".to_string());
    assert!(chat.maybe_run_stop_loop());
    assert!(chat.maybe_run_stop_loop());
    chat.show_stop_loop_status();
    assert_eq!(chat.actions.last(), Some(&info("Loop is armed persistently: again")));
    chat.set_stop_loop(StopLoopMode::Once, "  ".to_string());
    assert_eq!(
        chat.actions.last(),
        Some(&UiAction::Error("Loop prompt cannot be empty.".to_string()))
    );
    assert!(chat.stop_loop.is_some());
    chat.disable_stop_loop_due_to_limit();
    assert_eq!(chat.stop_loop, None);
    chat.show_stop_loop_status();
    assert_eq!(chat.actions.last(), Some(&info("Loop is off.")));
}

#[test]
fn sending_waits_for_another_account_after_a_rate_limit() {
    let mut chat = ChatWidget::new();
    chat.set_auto_switch_auth_profile_on_rate_limit(true);
    chat.show_auth_profile_auto_switch_status();
    assert_eq!(
        chat.actions,
        vec![info("Automatic account switching on rate limits is on for this session.")]
    );
    chat.request_next_auth_profile(AuthProfileSwitchTrigger::RateLimit);
    assert!(chat.queue_autosend_suppressed);
    chat.actions.clear();
    chat.on_auth_profile_next_activated(
        AuthProfileSwitchTrigger::RateLimit,
        Ok("second".to_string()),
    );
    assert!(!chat.queue_autosend_suppressed);
    assert_eq!(
        chat.actions,
        vec![
            UiAction::ClearTokenUsage,
            UiAction::ClearRateLimits,
            info("Rate limit hit. Switched to account second"),
            UiAction::SendNextQueuedInput,
        ]
    );

    chat.set_stop_loop(StopLoopMode::Always, "again".to_string());
    chat.actions.clear();
    chat.on_auth_profile_next_activated(
        AuthProfileSwitchTrigger::RateLimit,
        Err("none left".to_string()),
    );
    assert_eq!(chat.stop_loop, None);
    assert_eq!(
        chat.actions,
        vec![
            UiAction::Warning("Loop disabled after a rate limit or quota error.".to_string()),
            UiAction::Redraw,
            UiAction::Error(
                "Failed to automatically switch account after rate limit: none left".to_string()
            ),
        ]
    );
    chat.actions.clear();
    chat.on_auth_profile_next_activated(
        AuthProfileSwitchTrigger::ManualNext,
        Ok("third".to_string()),
    );
    assert_eq!(chat.actions.last(), Some(&info("Activated next account third")));
}
