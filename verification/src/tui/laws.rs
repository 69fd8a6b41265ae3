//! What the terminal shows and does, said of the values themselves.

use vstd::prelude::*;
use crate::accounts::login::{
    AccountLoginCompletedNotification, CancelLoginAccountStatus, LoginAccountResponse,
};
use crate::accounts::model::{Account, AccountView, RateLimitSnapshot, RateLimitWindow};
use crate::accounts::priming::{
    AccountPrimingProfileOutcome, AccountPrimingProfileResult, AccountPrimingRunSummary,
    AccountPrimingStatus,
};
use crate::accounts::sessions::ReportedView;
use crate::table;
use crate::text;
use crate::tui::account_commands;
use crate::tui::account_commands::{AccountCommand, ResetLabels};
use crate::tui::account_login;
use crate::tui::account_login::LoginTracker;
use crate::tui::account_priming;
use crate::tui::account_priming::{RunLabels, StatusLabels};
use crate::tui::actions::{AccountLoginMethod, ActionView, AppEvent, AuthProfileSwitchTrigger};
use crate::tui::chatwidget;
use crate::tui::chatwidget::{ChatView, LoopView, StopLoopMode};

verus! {

/// What a window leaves is shown in percent: what was not used, never less than nothing and never more
/// than all.
pub proof fn windows_show_what_they_leave(window: RateLimitWindow)
    ensures
        0 <= window.used_percent <= 100 ==> account_commands::left_text(Some(window))
            == text::decimal(100 - window.used_percent) + "%"@,
        window.used_percent > 100 ==> account_commands::left_text(Some(window)) == text::decimal(0)
            + "%"@,
        window.used_percent < 0 ==> account_commands::left_text(Some(window)) == text::decimal(100)
            + "%"@,
        account_commands::left_text(None) == "-"@,
{
}

/// The row of an account: the current one is starred, and both windows are shown, the shorter before
/// the longer, each with what it leaves and when it ends.
pub proof fn rows_show_their_account(session: ReportedView, labels: ResetLabels)
    ensures
        ({
            let row = account_commands::row_of(session, labels);
            &&& row.len() == 7
            &&& session.is_active ==> row[0] == "*"@
            &&& !session.is_active ==> row[0] == ""@
            &&& session.account matches Some(AccountView::Chatgpt { plan_type, .. }) ==> row[2]
                == plan_type.label
            &&& !(session.account matches Some(AccountView::Chatgpt { .. })) ==> row[2] == "-"@
            &&& session.rate_limits is None ==> row[3] == "-"@ && row[4] == "-"@ && row[5] == "-"@
                && row[6] == "-"@
            &&& session.rate_limits matches Some(limits) ==> {
                &&& row[3] == account_commands::left_text(limits.primary)
                &&& row[5] == account_commands::left_text(limits.secondary)
                &&& limits.primary is None ==> row[4] == "-"@
                &&& limits.secondary is None ==> row[6] == "-"@
                &&& limits.primary matches Some(window) ==> row[4] == (match (
                    window.resets_at,
                    labels.five_hour,
                ) {
                    (Some(_), Some(label)) => label@,
                    _ => "-"@,
                })
                &&& limits.secondary matches Some(window) ==> row[6] == (match (
                    window.resets_at,
                    labels.weekly,
                ) {
                    (Some(_), Some(label)) => label@,
                    _ => "-"@,
                })
            }
        }),
{
}

/// An account is called by the address of its credentials, else by that it was saved with; one whose
/// credentials say nothing by its saved address or its name. What has neither is called by its ID.
pub proof fn accounts_are_called_by_their_address(session: ReportedView, labels: ResetLabels)
    ensures
        ({
            let name = account_commands::row_of(session, labels)[1];
            let saved = session.session;
            &&& session.account matches Some(AccountView::ApiKey) ==> name == "API key"@
            &&& session.account matches Some(AccountView::AmazonBedrock { .. }) ==> name
                == "Amazon Bedrock"@
            &&& session.account matches Some(AccountView::Chatgpt { email, .. }) ==> {
                &&& email matches Some(address) ==> name == address
                &&& email is None ==> (saved.email matches Some(address) ==> name == address)
                &&& email is None && saved.email is None ==> name == saved.session_id
            }
            &&& session.account is None ==> {
                &&& saved.email matches Some(address) ==> name == address
                &&& saved.email is None ==> (saved.display_name matches Some(shown) ==> name == shown)
                &&& saved.email is None && saved.display_name is None ==> name == saved.session_id
            }
        }),
{
}

/// Below the row of an account stand its ID and its workspaces, one in a line, with an arrow at the
/// selected one.
pub proof fn accounts_show_their_workspaces(
    session: ReportedView,
    labels: ResetLabels,
    widths: Seq<nat>,
    at: int,
)
    requires
        0 <= at < session.session.workspaces.len(),
    ensures
        ({
            let lines = account_commands::account_lines(session, labels, widths);
            let workspace = session.session.workspaces[at];
            let name = match workspace.name {
                Some(name) => name,
                None => "unnamed workspace"@,
            };
            &&& lines.len() == 2 + session.session.workspaces.len()
            &&& lines[0] == text::trim_end(
                text::separated(
                    table::padded_cells(account_commands::row_of(session, labels), widths),
                    "  "@,
                ),
            )
            &&& lines[1] == "    ID: "@ + session.session.session_id
            &&& session.session.selected_workspace_account_id == Some(workspace.account_id)
                ==> lines[2 + at] == "    "@ + "→"@ + " "@ + name + " ("@ + workspace.account_id + ")"@
            &&& session.session.selected_workspace_account_id != Some(workspace.account_id)
                ==> lines[2 + at] == "    "@ + " "@ + " "@ + name + " ("@ + workspace.account_id + ")"@
        }),
{
}

/// The accounts are shown one after the other, none left out: the lines of each stand together, behind
/// those of the accounts before it.
pub proof fn every_account_is_shown(
    accounts: Seq<ReportedView>,
    labels: Seq<ResetLabels>,
    widths: Seq<nat>,
    at: int,
)
    requires
        0 <= at < accounts.len(),
    ensures
        ({
            let all = account_commands::all_lines(accounts, labels, widths);
            let before = account_commands::all_lines(accounts.take(at), labels, widths);
            let own = account_commands::account_lines(accounts[at], labels[at], widths);
            &&& before.len() + own.len() <= all.len()
            &&& all.take(before.len() as int) == before
            &&& all.subrange(before.len() as int, (before.len() + own.len()) as int) == own
            &&& at == accounts.len() - 1 ==> before.len() + own.len() == all.len()
        }),
    decreases accounts.len(),
{
    let first = accounts.drop_last();
    let all = account_commands::all_lines(accounts, labels, widths);
    let before = account_commands::all_lines(accounts.take(at), labels, widths);
    let own = account_commands::account_lines(accounts[at], labels[at], widths);
    if at == accounts.len() - 1 {
        assert(accounts.take(at) =~= first);
        assert(all.take(before.len() as int) =~= before);
        assert(all.subrange(before.len() as int, (before.len() + own.len()) as int) =~= own);
    } else {
        every_account_is_shown(first, labels, widths, at);
        assert(first.take(at) =~= accounts.take(at));
        let most = account_commands::all_lines(first, labels, widths);
        assert(all.take(before.len() as int) =~= most.take(before.len() as int));
        assert(all.subrange(before.len() as int, (before.len() + own.len()) as int)
            =~= most.subrange(before.len() as int, (before.len() + own.len()) as int));
    }
}

/// The table of accounts has its heading, its headers and a rule above the accounts; without accounts
/// it says so.
pub proof fn accounts_are_shown_in_a_table(
    accounts: Seq<ReportedView>,
    labels: Seq<ResetLabels>,
)
    ensures
        accounts.len() == 0 ==> account_commands::accounts_text(accounts, labels)
            == "No saved accounts."@,
        accounts.len() > 0 ==> account_commands::accounts_text(accounts, labels) == text::separated(
            seq![
                "Saved accounts (* = current):"@,
                text::trim_end(
                    text::separated(
                        table::padded_cells(
                            seq![
                                "CUR"@,
                                "ACCOUNT"@,
                                "PLAN"@,
                                "5H LEFT"@,
                                "5H RESET"@,
                                "WEEKLY LEFT"@,
                                "WEEKLY RESET"@,
                            ],
                            table::columns(
                                account_commands::headers(),
                                account_commands::all_rows(accounts, labels),
                                account_commands::limits(),
                            ),
                        ),
                        "  "@,
                    ),
                ),
                text::trim_end(
                    text::separated(
                        table::dashes(
                            table::columns(
                                account_commands::headers(),
                                account_commands::all_rows(accounts, labels),
                                account_commands::limits(),
                            ),
                        ),
                        "  "@,
                    ),
                ),
            ] + account_commands::all_lines(
                accounts,
                labels,
                table::columns(
                    account_commands::headers(),
                    account_commands::all_rows(accounts, labels),
                    account_commands::limits(),
                ),
            ),
            "\n"@,
        ),
        account_commands::all_rows(accounts, labels).len() == accounts.len(),
        forall|i: int|
            0 <= i < accounts.len() ==> #[trigger] account_commands::all_rows(accounts, labels)[i]
                == account_commands::row_of(accounts[i], labels[i]),
        account_commands::limits() == seq![3usize, 32, 10, 7, 16, 11, 16],
{
}

/// What came of an account is shown in a word of its own.
pub proof fn outcomes_are_told_apart(a: AccountPrimingProfileOutcome, b: AccountPrimingProfileOutcome)
    ensures
        account_priming::outcome_word(AccountPrimingProfileOutcome::Primed) == "primed"@,
        account_priming::outcome_word(AccountPrimingProfileOutcome::AlreadyActive) == "active"@,
        account_priming::outcome_word(AccountPrimingProfileOutcome::UnsupportedAuth)
            == "unsupported"@,
        account_priming::outcome_word(AccountPrimingProfileOutcome::Failed) == "failed"@,
        account_priming::outcome_word(a) == account_priming::outcome_word(b) ==> a == b,
{
    reveal_strlit("primed");
    reveal_strlit("active");
    reveal_strlit("unsupported");
    reveal_strlit("failed");
    assert("primed"@[0] == 'p');
    assert("active"@[0] == 'a');
    assert("unsupported"@[0] == 'u');
    assert("failed"@[0] == 'f');
}

/// The row of a primed account shows the usage after priming, and that before it only where there is
/// none after. An error is shown before anything else that is worth saying; else a window that does
/// not run is.
pub proof fn priming_rows_show_the_latest_usage(
    result: AccountPrimingProfileResult,
    labels: ResetLabels,
)
    ensures
        ({
            let row = account_priming::priming_row(result, labels);
            let latest = match (result.after_rate_limits, result.before_rate_limits) {
                (Some(after), _) => Some(after),
                (None, before) => before,
            };
            &&& row.len() == 6
            &&& row[0] == result.profile_name@
            &&& result.account matches Some(Account::ApiKey) ==> row[1] == "API key"@
            &&& result.account matches Some(Account::Chatgpt { email, .. }) ==> (match email {
                Some(email) => row[1] == email@,
                None => row[1] == "-"@,
            })
            &&& result.account is None ==> row[1] == "-"@
            &&& row[2] == account_priming::outcome_word(result.outcome)
            &&& row[3] == (match latest {
                Some(RateLimitSnapshot { primary: Some(window), .. }) => match (
                    window.resets_at,
                    labels.five_hour,
                ) {
                    (Some(_), Some(label)) => label@,
                    _ => "-"@,
                },
                _ => "-"@,
            })
            &&& row[4] == (match latest {
                Some(RateLimitSnapshot { secondary: Some(window), .. }) => match (
                    window.resets_at,
                    labels.weekly,
                ) {
                    (Some(_), Some(label)) => label@,
                    _ => "-"@,
                },
                _ => "-"@,
            })
            &&& result.error matches Some(error) ==> row[5] == error@
            &&& result.error is None ==> (row[5] == "window inactive"@ <==> (latest matches Some(
                snapshot,
            ) && (snapshot.primary is None || snapshot.secondary is None)))
            &&& result.error is None && (latest is None || (latest->0.primary is Some
                && latest->0.secondary is Some)) ==> row[5] == "-"@
        }),
{
    reveal_strlit("window inactive");
    reveal_strlit("-");
    assert("window inactive"@.len() != "-"@.len());
}

/// A pass is summed up by when it ended and how many accounts had which outcome; that it was cancelled
/// is said where it was.
pub proof fn passes_are_summed_up(summary: AccountPrimingRunSummary, completed: Seq<char>)
    ensures
        ({
            let counts = completed + " | primed "@ + text::decimal(summary.primed_count as int)
                + " | active "@ + text::decimal(summary.already_active_count as int)
                + " | unsupported "@ + text::decimal(summary.unsupported_count as int)
                + " | failed "@ + text::decimal(summary.failed_count as int);
            &&& !summary.cancelled ==> account_priming::run_brief(summary, completed) == counts
            &&& summary.cancelled ==> account_priming::run_brief(summary, completed) == counts
                + " | cancelled"@
        }),
{
    reveal_strlit("");
    assert("".view() =~= Seq::<char>::empty());
}

/// A pass is shown with a line for each account, in the order of the results.
pub proof fn passes_show_every_account(
    results: Seq<AccountPrimingProfileResult>,
    labels: Seq<ResetLabels>,
    widths: Seq<nat>,
)
    ensures
        account_priming::priming_rows(results, labels).len() == results.len(),
        forall|i: int|
            0 <= i < results.len() ==> #[trigger] account_priming::priming_rows(results, labels)[i]
                == account_priming::priming_row(results[i], labels[i]),
        account_priming::row_lines(
            account_priming::priming_rows(results, labels),
            widths,
        ).len() == results.len(),
        forall|i: int|
            0 <= i < results.len() ==> #[trigger] account_priming::row_lines(
                account_priming::priming_rows(results, labels),
                widths,
            )[i] == text::separated(
                table::padded_cells(
                    account_priming::priming_row(results[i], labels[i]),
                    widths,
                ),
                "  "@,
            ),
        account_priming::limits() == seq![18usize, 30, 14, 16, 16, 40],
{
}

/// What is shown of priming tells whether it runs, how often, since when, and what it is at.
pub proof fn priming_is_shown_as_it_stands(status: AccountPrimingStatus, labels: StatusLabels)
    ensures
        ({
            let state = if status.running {
                "running"@
            } else {
                "stopped"@
            };
            let interval = match status.interval_seconds {
                Some(seconds) => text::decimal(seconds as int) + "s"@,
                None => "-"@,
            };
            let started = match status.started_at {
                Some(_) => labels.started@,
                None => "-"@,
            };
            let current = match status.current_run_started_at {
                Some(_) => labels.current_run@,
                None => "-"@,
            };
            let profile = match status.current_profile_name {
                Some(name) => name@,
                None => "-"@,
            };
            let last = match status.last_run {
                Some(summary) => account_priming::run_brief(summary, labels.last_run.completed@)
                    + "\n\n"@ + account_priming::run_text(summary, labels.last_run),
                None => "none"@,
            };
            account_priming::status_text(status, labels) == "Account priming\nSTATE: "@ + state
                + "\nINTERVAL: "@ + interval + "\nSTARTED: "@ + started + "\nCURRENT RUN: "@
                + current + "\nCURRENT PROFILE: "@ + profile + "\nLAST RUN: "@ + last
        }),
{
}

/// A login in the browser opens its link and shows it; one with a device code shows the link and the
/// code. Either is followed by its ID, and nothing else is.
pub proof fn started_logins_are_shown_and_followed(reply: Result<LoginAccountResponse, String>)
    ensures
        ({
            let shown = account_login::start_actions(reply);
            let followed = account_login::followed_id(reply);
            &&& reply matches Ok(response) ==> (response matches LoginAccountResponse::Chatgpt {
                login_id,
                auth_url,
            } ==> {
                &&& followed == Some(login_id@)
                &&& shown.len() == 2
                &&& shown[0] == ActionView::OpenUrl(auth_url@)
                &&& shown[1] matches ActionView::Lines(lines) && lines.len() == 3 && lines[1].text
                    == auth_url@
            })
            &&& reply matches Ok(response) ==> (
            response matches LoginAccountResponse::ChatgptDeviceCode {
                login_id,
                verification_url,
                user_code,
            } ==> {
                &&& followed == Some(login_id@)
                &&& shown.len() == 1
                &&& shown[0] matches ActionView::Lines(lines) && lines.len() == 10 && lines[3].text
                    == verification_url@ && lines[6].text == user_code@
            })
            &&& reply matches Err(message) ==> followed is None && shown == seq![
                ActionView::Error(
                    "Login failed: "@ + message@ + ". Use /login to try again."@,
                ),
            ]
        }),
{
}

/// A login that ends well is told, and the accounts are listed; one that fails is told with its
/// reason.
pub proof fn ended_logins_are_told(success: bool, error: Option<Seq<char>>)
    ensures
        success ==> account_login::completion_actions(success, error).len() == 2
            && account_login::completion_actions(success, error)[0] is Info
            && account_login::completion_actions(success, error)[1] == ActionView::Send(
            AppEvent::ListAccountSessions,
        ),
        !success ==> account_login::completion_actions(success, error).len() == 1 && (
        account_login::completion_actions(success, error)[0] matches ActionView::Error(message) && (
        match error {
            Some(error) => message == "Login failed: "@ + error + ". Use /login to try again."@,
            None => message == "Login failed: "@ + "unknown error"@
                + ". Use /login to try again."@,
        })),
{
}

/// The login that is followed is the one whose end is taken note of.
pub proof fn followed_logins_are_told_by_their_id(
    tracker: LoginTracker,
    notification: AccountLoginCompletedNotification,
)
    ensures
        tracker.follows(notification) <==> (tracker.account_login_id matches Some(followed) && (
        notification.login_id matches Some(ended) && followed@ == ended@)),
{
}

/// A cancellation that came too late leads to the accounts, where the login may have ended up; one that
/// was in time does not.
pub proof fn late_cancellations_list_the_accounts(reply: Result<CancelLoginAccountStatus, String>)
    ensures
        ({
            let shown = account_login::cancel_actions(reply);
            &&& reply == Ok::<CancelLoginAccountStatus, String>(CancelLoginAccountStatus::Canceled)
                ==> shown.len() == 1 && shown[0] is Info
            &&& reply == Ok::<CancelLoginAccountStatus, String>(CancelLoginAccountStatus::NotFound)
                ==> shown.len() == 2 && shown[0] == ActionView::Send(AppEvent::ListAccountSessions)
                && shown[1] is Info
            &&& reply matches Err(message) ==> shown == seq![
                ActionView::Error("Could not cancel login: "@ + message@),
            ]
        }),
{
}

/// What a command is replied to with: a switch and a logout are told, and a failure begins with what
/// could not be done.
pub proof fn commands_are_told_apart(command: AccountCommand)
    ensures
        command is List ==> account_commands::command_note(command).len() == 0
            && account_commands::command_failure(command) == "Could not list accounts: "@,
        command is Switch ==> account_commands::command_note(command) == seq![
            ActionView::Info {
                message: "Account switched. New turns will use the selected account."@,
                hint: None,
            },
        ] && account_commands::command_failure(command) == "Could not switch accounts: "@,
        command is LogOut ==> account_commands::command_note(command) == seq![
            ActionView::Info { message: "Saved account logged out."@, hint: None },
        ] && account_commands::command_failure(command) == "Could not log out account: "@,
{
}

/// The command to log in takes the word for the way to sign in, with white space around it ignored.
/// Without one the ways are offered, and any other word is answered with the usage. Nothing but what
/// is asked for changes.
pub proof fn login_commands_take_a_word(chat: ChatView, args: Seq<char>)
    ensures
        ({
            let after = chatwidget::after_login_command(chat, args);
            let word = text::trim(args);
            &&& after == (ChatView { actions: after.actions, ..chat })
            &&& chat.actions.len() < after.actions.len()
            &&& after.actions.take(chat.actions.len() as int) == chat.actions
            &&& word == "browser"@ ==> after.actions == chat.actions.push(
                ActionView::Send(
                    AppEvent::StartAccountLogin { method: AccountLoginMethod::Browser },
                ),
            )
            &&& word == "device"@ || word == "--device-auth"@ ==> after.actions
                == chat.actions.push(
                ActionView::Send(
                    AppEvent::StartAccountLogin { method: AccountLoginMethod::DeviceCode },
                ),
            )
            &&& word == "cancel"@ ==> after.actions == chat.actions.push(
                ActionView::Send(AppEvent::CancelAccountLogin),
            )
            &&& word == ""@ ==> after.actions.len() == chat.actions.len() + 3 && (
            after.actions[chat.actions.len() as int] matches ActionView::Select { items, .. }
                && items.len() == 2 && items[0].event == (AppEvent::StartAccountLogin {
                method: AccountLoginMethod::Browser,
            }) && items[1].event == (AppEvent::StartAccountLogin {
                method: AccountLoginMethod::DeviceCode,
            }))
            &&& word != ""@ && word != "browser"@ && word != "device"@ && word != "--device-auth"@
                && word != "cancel"@ ==> after.actions == chat.actions.push(
                ActionView::Error("Usage: /login [browser|device|cancel]"@),
            )
        }),
{
    reveal_strlit("");
    reveal_strlit("browser");
    reveal_strlit("device");
    reveal_strlit("--device-auth");
    reveal_strlit("cancel");
    assert(""@.len() == 0);
    assert("browser"@[0] == 'b');
    assert("device"@[0] == 'd');
    assert("--device-auth"@[0] == '-');
    assert("cancel"@[0] == 'c');
    let after = chatwidget::after_login_command(chat, args);
    assert(after.actions.take(chat.actions.len() as int) =~= chat.actions);
}

/// Another account is asked for as it was triggered, and only a rate limit holds back what is queued.
pub proof fn rate_limits_hold_back_the_queue(chat: ChatView, trigger: AuthProfileSwitchTrigger)
    ensures
        ({
            let after = chatwidget::after_next_requested(chat, trigger);
            &&& after.actions == chat.actions.push(
                ActionView::Send(AppEvent::ActivateNextAuthProfile { trigger }),
            )
            &&& trigger == AuthProfileSwitchTrigger::RateLimit ==> after.autosend_suppressed
            &&& trigger != AuthProfileSwitchTrigger::RateLimit ==> after.autosend_suppressed
                == chat.autosend_suppressed
            &&& after.stop_loop == chat.stop_loop
            &&& after.task_running == chat.task_running
            &&& after.queued == chat.queued
            &&& after.auto_switch == chat.auto_switch
        }),
{
}

/// Once another account was turned to, what was counted for the last one is cleared and the new one is
/// named; what was queued goes on only after a rate limit. Where none could be turned to, the reason is
/// told, and after a rate limit the loop ends.
pub proof fn switches_of_the_chat_are_told(
    chat: ChatView,
    trigger: AuthProfileSwitchTrigger,
    text: Seq<char>,
)
    ensures
        ({
            let limited = trigger == AuthProfileSwitchTrigger::RateLimit;
            let after = chatwidget::after_next_activated(chat, trigger, Ok(text));
            let failed = chatwidget::after_next_activated(chat, trigger, Err(text));
            &&& limited ==> after.actions == chat.actions + seq![
                ActionView::ClearTokenUsage,
                ActionView::ClearRateLimits,
                ActionView::Info {
                    message: "Rate limit hit. Switched to account "@ + text,
                    hint: None,
                },
                ActionView::SendNextQueuedInput,
            ]
            &&& !limited ==> after.actions == chat.actions + seq![
                ActionView::ClearTokenUsage,
                ActionView::ClearRateLimits,
                ActionView::Info { message: "Activated next account "@ + text, hint: None },
            ]
            &&& after.stop_loop == chat.stop_loop
            &&& !limited ==> failed.stop_loop == chat.stop_loop
            &&& limited ==> failed.stop_loop is None
            &&& limited ==> !after.autosend_suppressed && !failed.autosend_suppressed
            &&& !limited ==> after.autosend_suppressed == chat.autosend_suppressed
                && failed.autosend_suppressed == chat.autosend_suppressed
            &&& failed.actions.len() > 0
            &&& limited ==> failed.actions.last() == ActionView::Error(
                "Failed to automatically switch account after rate limit"@ + ": "@ + text,
            )
            &&& !limited ==> failed.actions == chat.actions.push(
                ActionView::Error("Failed to activate next account"@ + ": "@ + text),
            )
        }),
{
    let after = chatwidget::after_next_activated(chat, trigger, Ok(text));
    if trigger == AuthProfileSwitchTrigger::RateLimit {
        assert(after.actions =~= chat.actions + seq![
            ActionView::ClearTokenUsage,
            ActionView::ClearRateLimits,
            ActionView::Info {
                message: "Rate limit hit. Switched to account "@ + text,
                hint: None,
            },
            ActionView::SendNextQueuedInput,
        ]);
    } else {
        assert(after.actions =~= chat.actions + seq![
            ActionView::ClearTokenUsage,
            ActionView::ClearRateLimits,
            ActionView::Info { message: "Activated next account "@ + text, hint: None },
        ]);
    }
}

/// A loop that ends for want of capacity is told to; without a loop nothing happens.
pub proof fn ended_loops_are_told(chat: ChatView)
    ensures
        chatwidget::without_loop(chat).stop_loop is None,
        chat.stop_loop is None ==> chatwidget::without_loop(chat) == chat,
        chat.stop_loop is Some ==> chatwidget::without_loop(chat).actions.len()
            == chat.actions.len() + 2 && chatwidget::without_loop(
            chat,
        ).actions[chat.actions.len() as int] is Warning,
{
}

/// A loop is armed with a prompt that says something, without the white space around it, and stays as
/// it was otherwise.
pub proof fn loops_need_a_prompt(chat: ChatView, mode: StopLoopMode, prompt: Seq<char>)
    ensures
        ({
            let after = chatwidget::with_loop(chat, mode, prompt);
            let said = text::trim(prompt);
            &&& said.len() == 0 ==> after.stop_loop == chat.stop_loop && after.actions
                == chat.actions.push(ActionView::Error("Loop prompt cannot be empty."@))
            &&& said.len() > 0 ==> after.stop_loop == Some(LoopView { prompt: said, mode })
                && after.actions.len() == chat.actions.len() + 1 && after.actions.last() is Info
            &&& said.len() > 0 && mode == StopLoopMode::Once ==> after.actions.last()
                == (ActionView::Info {
                message: "Loop armed for "@ + "next successful turn"@ + ": "@ + said,
                hint: None,
            })
            &&& said.len() > 0 && mode == StopLoopMode::Always ==> after.actions.last()
                == (ActionView::Info {
                message: "Loop armed for "@ + "every successful turn"@ + ": "@ + said,
                hint: None,
            })
            &&& chatwidget::loop_text(None) == "Loop is off."@
            &&& mode == StopLoopMode::Once ==> chatwidget::loop_text(
                Some(LoopView { prompt: said, mode }),
            ) == "Loop is armed once: "@ + said
            &&& mode == StopLoopMode::Always ==> chatwidget::loop_text(
                Some(LoopView { prompt: said, mode }),
            ) == "Loop is armed persistently: "@ + said
        }),
{
}

/// The loop sends its prompt after a turn only where nothing runs and nothing is queued; else it
/// waits, and the chat stays as it is.
pub proof fn loops_wait_for_their_turn(chat: ChatView)
    ensures
        chat.task_running || chat.queued > 0 || chat.stop_loop is None ==> chatwidget::after_turn(
            chat,
        ) == chat,
        !chat.task_running && chat.queued == 0 ==> (chat.stop_loop matches Some(config)
            ==> chatwidget::after_turn(chat).actions == chat.actions.push(
            ActionView::Submit(config.prompt),
        ) && (config.mode == StopLoopMode::Once ==> chatwidget::after_turn(chat).stop_loop is None)
            && (config.mode == StopLoopMode::Always ==> chatwidget::after_turn(chat).stop_loop
            == chat.stop_loop)),
{
}

/// A pass is shown by what it is summed up with, and a table of its accounts below that.
pub proof fn passes_are_shown_in_a_table(summary: AccountPrimingRunSummary, labels: RunLabels)
    ensures
        ({
            let rows = account_priming::priming_rows(summary.results@, labels.rows@);
            let widths = table::columns(
                account_priming::headers(),
                rows,
                account_priming::limits(),
            );
            let names = seq![
                "PROFILE"@,
                "ACCOUNT"@,
                "RESULT"@,
                "5H RESET"@,
                "WEEKLY RESET"@,
                "DETAIL"@,
            ];
            account_priming::run_text(summary, labels) == "Last priming run: "@
                + account_priming::run_brief(summary, labels.completed@) + "\n"@ + text::separated(
                table::padded_cells(names, widths),
                "  "@,
            ) + "\n"@ + text::separated(table::dashes(widths), "  "@) + "\n"@ + text::separated(
                account_priming::row_lines(rows, widths),
                "\n"@,
            )
        }),
{
}

} // verus!
