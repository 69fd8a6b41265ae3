//! What is shown of priming.

use vstd::prelude::*;
use crate::accounts::model::{Account, RateLimitSnapshot, RateLimitWindow};
use crate::accounts::priming::{
    AccountPrimingProfileOutcome, AccountPrimingProfileResult, AccountPrimingRunSummary,
    AccountPrimingStatus,
};
use crate::table;
use crate::text;
use crate::tui::account_commands;
use crate::tui::account_commands::ResetLabels;

verus! {

pub const PROFILE_COLUMN_MAX_WIDTH: usize = 18;

pub const ACCOUNT_COLUMN_MAX_WIDTH: usize = 30;

pub const RESULT_COLUMN_MAX_WIDTH: usize = 14;

pub const RESET_COLUMN_WIDTH: usize = 16;

pub const DETAIL_COLUMN_MAX_WIDTH: usize = 40;

/// What the times of a pass look like: when it ended, and when the windows of each account end.
#[derive(Debug, PartialEq, Eq)]
pub struct RunLabels {
    pub completed: String,
    pub rows: Vec<ResetLabels>,
}

/// What the times of priming look like.
#[derive(Debug, PartialEq, Eq)]
pub struct StatusLabels {
    pub started: String,
    pub current_run: String,
    pub last_run: RunLabels,
}

/// What came of priming an account, in a word.
pub open spec fn outcome_word(outcome: AccountPrimingProfileOutcome) -> Seq<char> {
    match outcome {
        AccountPrimingProfileOutcome::Primed => "primed"@,
        AccountPrimingProfileOutcome::AlreadyActive => "active"@,
        AccountPrimingProfileOutcome::UnsupportedAuth => "unsupported"@,
        AccountPrimingProfileOutcome::Failed => "failed"@,
    }
}

/// What came of priming an account, in a word.
pub fn outcome_label(outcome: AccountPrimingProfileOutcome) -> (res: String)
    ensures
        res@ == outcome_word(outcome),
{
    match outcome {
        AccountPrimingProfileOutcome::Primed => "primed".to_string(),
        AccountPrimingProfileOutcome::AlreadyActive => "active".to_string(),
        AccountPrimingProfileOutcome::UnsupportedAuth => "unsupported".to_string(),
        AccountPrimingProfileOutcome::Failed => "failed".to_string(),
    }
}

/// What is worth saying of usage.
pub open spec fn detail_of(snapshot: Option<RateLimitSnapshot>) -> Seq<char> {
    match snapshot {
        Some(snapshot) if snapshot.primary is None || snapshot.secondary is None => {
            "window inactive"@
        },
        _ => "-"@,
    }
}

/// Says what is worth saying of usage.
pub fn detail_from_snapshot(snapshot: &Option<RateLimitSnapshot>) -> (res: String)
    ensures
        res@ == detail_of(*snapshot),
{
    match snapshot {
        Some(snapshot) => if snapshot.primary.is_none() || snapshot.secondary.is_none() {
            "window inactive".to_string()
        } else {
            "-".to_string()
        },
        None => "-".to_string(),
    }
}

/// The usage that is shown: the latest that is known.
pub open spec fn shown_usage(result: AccountPrimingProfileResult) -> Option<RateLimitSnapshot> {
    match result.after_rate_limits {
        Some(snapshot) => Some(snapshot),
        None => result.before_rate_limits,
    }
}

/// What an account is called.
pub open spec fn priming_account(account: Option<Account>) -> Seq<char> {
    match account {
        Some(Account::ApiKey) => "API key"@,
        Some(Account::Chatgpt { email: Some(email), .. }) => email@,
        Some(Account::AmazonBedrock { .. }) => "Amazon Bedrock"@,
        _ => "-"@,
    }
}

/// The row of an account.
pub open spec fn priming_row(result: AccountPrimingProfileResult, labels: ResetLabels) -> Seq<
    Seq<char>,
> {
    let usage = shown_usage(result);
    seq![
        result.profile_name@,
        priming_account(result.account),
        outcome_word(result.outcome),
        account_commands::reset_text(
            account_commands::five_hour(usage),
            text::opt_view(labels.five_hour),
        ),
        account_commands::reset_text(
            account_commands::weekly(usage),
            text::opt_view(labels.weekly),
        ),
        match result.error {
            Some(error) => error@,
            None => detail_of(usage),
        },
    ]
}

/// The row of an account.
pub fn account_priming_row(result: &AccountPrimingProfileResult, labels: &ResetLabels) -> (res: Vec<
    String,
>)
    ensures
        text::views(res@) == priming_row(*result, *labels),
        res@.len() == 6,
{
    let account = match &result.account {
        Some(Account::ApiKey) => "API key".to_string(),
        Some(Account::Chatgpt { email, .. }) => match email {
            Some(email) => email.clone(),
            None => "-".to_string(),
        },
        Some(Account::AmazonBedrock { .. }) => "Amazon Bedrock".to_string(),
        None => "-".to_string(),
    };
    let usage = if result.after_rate_limits.is_some() {
        &result.after_rate_limits
    } else {
        &result.before_rate_limits
    };
    let none: Option<RateLimitWindow> = None;
    let (shorter, longer) = match usage {
        Some(limits) => (&limits.primary, &limits.secondary),
        None => (&none, &none),
    };
    let detail = match &result.error {
        Some(error) => error.clone(),
        None => detail_from_snapshot(usage),
    };
    let cells: Vec<String> = vec![
        result.profile_name.clone(),
        account,
        outcome_label(result.outcome),
        account_commands::format_window_reset(shorter, &labels.five_hour),
        account_commands::format_window_reset(longer, &labels.weekly),
        detail,
    ];
    assert(text::views(cells@) =~= priming_row(*result, *labels));
    cells
}

/// The headers of the table.
pub open spec fn headers() -> Seq<Seq<char>> {
    seq!["PROFILE"@, "ACCOUNT"@, "RESULT"@, "5H RESET"@, "WEEKLY RESET"@, "DETAIL"@]
}

/// How wide the columns of the table are at most.
pub open spec fn limits() -> Seq<usize> {
    seq![
        PROFILE_COLUMN_MAX_WIDTH,
        ACCOUNT_COLUMN_MAX_WIDTH,
        RESULT_COLUMN_MAX_WIDTH,
        RESET_COLUMN_WIDTH,
        RESET_COLUMN_WIDTH,
        DETAIL_COLUMN_MAX_WIDTH,
    ]
}

/// Puts cells side by side.
pub fn join_table_cells(cells: &Vec<String>) -> (res: String)
    ensures
        res@ == text::separated(text::views(cells@), "  "@),
{
    text::join(cells, "  ")
}

/// When a pass ended and what came of it, in a line.
pub open spec fn run_brief(summary: AccountPrimingRunSummary, completed: Seq<char>) -> Seq<char> {
    completed + " | primed "@ + text::decimal(summary.primed_count as int) + " | active "@
        + text::decimal(summary.already_active_count as int) + " | unsupported "@ + text::decimal(
        summary.unsupported_count as int,
    ) + " | failed "@ + text::decimal(summary.failed_count as int) + (if summary.cancelled {
        " | cancelled"@
    } else {
        ""@
    })
}

/// Says when a pass ended and what came of it, in a line.
pub fn format_run_brief(summary: &AccountPrimingRunSummary, completed: &str) -> (res: String)
    ensures
        res@ == run_brief(*summary, completed@),
{
    let mut line = completed.to_string();
    line.append(" | primed ");
    line.append(text::decimal_of(summary.primed_count as u64).as_str());
    line.append(" | active ");
    line.append(text::decimal_of(summary.already_active_count as u64).as_str());
    line.append(" | unsupported ");
    line.append(text::decimal_of(summary.unsupported_count as u64).as_str());
    line.append(" | failed ");
    line.append(text::decimal_of(summary.failed_count as u64).as_str());
    line.append(
        if summary.cancelled {
            " | cancelled"
        } else {
            ""
        },
    );
    line
}

/// The rows of a pass.
pub open spec fn priming_rows(
    results: Seq<AccountPrimingProfileResult>,
    labels: Seq<ResetLabels>,
) -> Seq<Seq<Seq<char>>> {
    Seq::new(results.len(), |i: int| priming_row(results[i], labels[i]))
}

/// A line of the table.
pub open spec fn line_of(cells: Seq<Seq<char>>) -> Seq<char> {
    text::separated(cells, "  "@)
}

/// The lines of rows.
pub open spec fn row_lines(rows: Seq<Seq<Seq<char>>>, widths: Seq<nat>) -> Seq<Seq<char>> {
    rows.map_values(|row: Seq<Seq<char>>| line_of(table::padded_cells(row, widths)))
}

/// What is shown of a pass.
pub open spec fn run_text(summary: AccountPrimingRunSummary, labels: RunLabels) -> Seq<char> {
    let rows = priming_rows(summary.results@, labels.rows@);
    let widths = table::columns(headers(), rows, limits());
    "Last priming run: "@ + run_brief(summary, labels.completed@) + "\n"@ + line_of(
        table::padded_cells(headers(), widths),
    ) + "\n"@ + line_of(table::dashes(widths)) + "\n"@ + text::separated(
        row_lines(rows, widths),
        "\n"@,
    )
}

fn header_cells() -> (res: Vec<String>)
    ensures
        text::views(res@) == headers(),
        res@.len() == 6,
{
    let cells: Vec<String> = vec![
        "PROFILE".to_string(),
        "ACCOUNT".to_string(),
        "RESULT".to_string(),
        "5H RESET".to_string(),
        "WEEKLY RESET".to_string(),
        "DETAIL".to_string(),
    ];
    assert(text::views(cells@) =~= headers());
    cells
}

/// Shows a pass: a line on the whole of it and a table of the accounts.
pub fn format_account_priming_run_output(
    summary: &AccountPrimingRunSummary,
    labels: &RunLabels,
) -> (res: String)
    requires
        labels.rows@.len() == summary.results@.len(),
    ensures
        res@ == run_text(*summary, *labels),
{
    let ghost all = priming_rows(summary.results@, labels.rows@);
    let mut rows: Vec<Vec<String>> = Vec::new();
    let mut i: usize = 0;
    while i < summary.results.len()
        invariant
            i <= summary.results@.len() == labels.rows@.len(),
            all == priming_rows(summary.results@, labels.rows@),
            rows@.len() == i,
            forall|j: int|
                0 <= j < i ==> (#[trigger] rows@[j])@.len() == 6 && text::views(rows@[j]@)
                    == all[j],
        decreases summary.results@.len() - i,
    {
        rows.push(account_priming_row(&summary.results[i], &labels.rows[i]));
        i = i + 1;
    }
    assert(table::row_views(rows@) =~= all);
    let header = header_cells();
    let column_limits: Vec<usize> = vec![
        PROFILE_COLUMN_MAX_WIDTH,
        ACCOUNT_COLUMN_MAX_WIDTH,
        RESULT_COLUMN_MAX_WIDTH,
        RESET_COLUMN_WIDTH,
        RESET_COLUMN_WIDTH,
        DETAIL_COLUMN_MAX_WIDTH,
    ];
    assert(column_limits@ =~= limits());
    let widths = table::column_widths(&header, &rows, &column_limits);
    let ghost sizes = table::numbers(widths@);
    let mut lines: Vec<String> = Vec::new();
    let mut k: usize = 0;
    while k < rows.len()
        invariant
            k <= rows@.len() == all.len(),
            widths@.len() == 6,
            sizes == table::numbers(widths@),
            forall|j: int|
                0 <= j < rows@.len() ==> (#[trigger] rows@[j])@.len() == 6 && text::views(
                    rows@[j]@,
                ) == all[j],
            lines@.len() == k,
            forall|j: int|
                0 <= j < k ==> #[trigger] lines@[j]@ == line_of(table::padded_cells(all[j], sizes)),
        decreases rows@.len() - k,
    {
        assert(rows@[k as int]@.len() == 6);
        let cells = table::pad_cells(&rows[k], &widths);
        lines.push(join_table_cells(&cells));
        k = k + 1;
    }
    assert(text::views(lines@) =~= row_lines(all, sizes));
    let mut out = "Last priming run: ".to_string();
    out.append(format_run_brief(summary, labels.completed.as_str()).as_str());
    out.append("\n");
    let cells = table::pad_cells(&header, &widths);
    out.append(join_table_cells(&cells).as_str());
    out.append("\n");
    let below = table::divider(&widths);
    out.append(join_table_cells(&below).as_str());
    out.append("\n");
    out.append(text::join(&lines, "\n").as_str());
    out
}

/// A time, as it is shown, if there is one.
pub open spec fn time_text(time: Option<i64>, label: Seq<char>) -> Seq<char> {
    match time {
        Some(_) => label,
        None => "-"@,
    }
}

/// What is shown of priming.
pub open spec fn status_text(status: AccountPrimingStatus, labels: StatusLabels) -> Seq<char> {
    "Account priming\nSTATE: "@ + (if status.running {
        "running"@
    } else {
        "stopped"@
    }) + "\nINTERVAL: "@ + (match status.interval_seconds {
        Some(seconds) => text::decimal(seconds as int) + "s"@,
        None => "-"@,
    }) + "\nSTARTED: "@ + time_text(status.started_at, labels.started@) + "\nCURRENT RUN: "@
        + time_text(status.current_run_started_at, labels.current_run@) + "\nCURRENT PROFILE: "@ + (
    match status.current_profile_name {
        Some(name) => name@,
        None => "-"@,
    }) + "\nLAST RUN: "@ + (match status.last_run {
        Some(summary) => run_brief(summary, labels.last_run.completed@) + "\n\n"@ + run_text(
            summary,
            labels.last_run,
        ),
        None => "none"@,
    })
}

/// Shows how priming stands, and the last pass.
pub fn format_account_priming_status_output(
    status: &AccountPrimingStatus,
    labels: &StatusLabels,
) -> (res: String)
    requires
        status.last_run matches Some(summary) ==> labels.last_run.rows@.len()
            == summary.results@.len(),
    ensures
        res@ == status_text(*status, *labels),
{
    let interval = match status.interval_seconds {
        Some(seconds) => {
            let mut shown = text::decimal_of(seconds as u64);
            shown.append("s");
            shown
        },
        None => "-".to_string(),
    };
    let profile = match &status.current_profile_name {
        Some(name) => name.as_str(),
        None => "-",
    };
    let last_run = match &status.last_run {
        Some(summary) => {
            let mut shown = format_run_brief(summary, labels.last_run.completed.as_str());
            shown.append("\n\n");
            shown.append(format_account_priming_run_output(summary, &labels.last_run).as_str());
            shown
        },
        None => "none".to_string(),
    };
    let mut out = "Account priming\nSTATE: ".to_string();
    out.append(
        if status.running {
            "running"
        } else {
            "stopped"
        },
    );
    out.append("\nINTERVAL: ");
    out.append(interval.as_str());
    out.append("\nSTARTED: ");
    out.append(
        if status.started_at.is_some() {
            labels.started.as_str()
        } else {
            "-"
        },
    );
    out.append("\nCURRENT RUN: ");
    out.append(
        if status.current_run_started_at.is_some() {
            labels.current_run.as_str()
        } else {
            "-"
        },
    );
    out.append("\nCURRENT PROFILE: ");
    out.append(profile);
    out.append("\nLAST RUN: ");
    out.append(last_run.as_str());
    out
}

} // verus!
