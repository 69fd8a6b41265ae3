//! The table of saved accounts.

use vstd::prelude::*;
use crate::accounts::model::{Account, AccountView, RateLimitSnapshot, RateLimitWindow};
use crate::accounts::sessions;
use crate::accounts::sessions::{
    AccountSession, AccountSessionWorkspace, AccountSessionsResponse, ReportedView, WorkspaceView,
};
use crate::table;
use crate::text;
use crate::tui::actions;
use crate::tui::actions::{ActionView, UiAction};

verus! {

/// What the times at which the windows of an account end look like, where they can be shown.
#[derive(Debug, PartialEq, Eq)]
pub struct ResetLabels {
    pub five_hour: Option<String>,
    pub weekly: Option<String>,
}

/// The shorter window of an account.
pub open spec fn five_hour(limits: Option<RateLimitSnapshot>) -> Option<RateLimitWindow> {
    match limits {
        Some(limits) => limits.primary,
        None => None,
    }
}

/// The longer window of an account.
pub open spec fn weekly(limits: Option<RateLimitSnapshot>) -> Option<RateLimitWindow> {
    match limits {
        Some(limits) => limits.secondary,
        None => None,
    }
}

/// Whether what a window leaves can be counted.
pub open spec fn is_countable(window: Option<RateLimitWindow>) -> bool {
    window matches Some(window) ==> 100 - window.used_percent <= i32::MAX
}

/// Whether what the windows of an account leave can be counted.
pub open spec fn are_countable(session: AccountSession) -> bool {
    is_countable(five_hour(session.rate_limits)) && is_countable(weekly(session.rate_limits))
}

/// The nearest number from 0 to 100.
pub open spec fn percent(n: int) -> int {
    if n < 0 {
        0
    } else if n > 100 {
        100
    } else {
        n
    }
}

/// What a window leaves, as it is shown.
pub open spec fn left_text(window: Option<RateLimitWindow>) -> Seq<char> {
    match window {
        Some(window) => text::decimal(percent(100 - window.used_percent)) + "%"@,
        None => "-"@,
    }
}

/// Shows what a window leaves.
pub fn format_window_left(window: &Option<RateLimitWindow>) -> (res: String)
    requires
        is_countable(*window),
    ensures
        res@ == left_text(*window),
{
    match window {
        Some(window) => {
            let left: i32 = 100 - window.used_percent;
            let shown: u64 = if left < 0 {
                0
            } else if left > 100 {
                100
            } else {
                left as u64
            };
            let mut out = text::decimal_of(shown);
            out.append("%");
            out
        },
        None => "-".to_string(),
    }
}

/// When a window ends, as it is shown. `label` is what that time looks like, where it can be shown.
pub open spec fn reset_text(window: Option<RateLimitWindow>, label: Option<Seq<char>>) -> Seq<char> {
    match (window, label) {
        (Some(window), Some(label)) if window.resets_at is Some => label,
        _ => "-"@,
    }
}

/// Shows when a window ends.
pub fn format_window_reset(window: &Option<RateLimitWindow>, label: &Option<String>) -> (res: String)
    ensures
        res@ == reset_text(*window, text::opt_view(*label)),
{
    match (window, label) {
        (Some(window), Some(label)) => if window.resets_at.is_some() {
            label.clone()
        } else {
            "-".to_string()
        },
        _ => "-".to_string(),
    }
}

/// The first of two texts that is there, or else a third.
pub open spec fn first_of(a: Option<Seq<char>>, b: Option<Seq<char>>, c: Seq<char>) -> Seq<char> {
    match (a, b) {
        (Some(a), _) => a,
        (None, Some(b)) => b,
        (None, None) => c,
    }
}

fn first_text(a: &Option<String>, b: &Option<String>, c: &String) -> (res: String)
    ensures
        res@ == first_of(text::opt_view(*a), text::opt_view(*b), c@),
{
    match (a, b) {
        (Some(a), _) => a.clone(),
        (None, Some(b)) => b.clone(),
        (None, None) => c.clone(),
    }
}

/// What an account is called.
pub open spec fn account_text(session: ReportedView) -> Seq<char> {
    match session.account {
        Some(AccountView::ApiKey) => "API key"@,
        Some(AccountView::Chatgpt { email, .. }) => first_of(
            email,
            session.session.email,
            session.session.session_id,
        ),
        Some(AccountView::AmazonBedrock { .. }) => "Amazon Bedrock"@,
        None => first_of(
            session.session.email,
            session.session.display_name,
            session.session.session_id,
        ),
    }
}

/// The plan of an account, as it is shown.
pub open spec fn plan_text(session: ReportedView) -> Seq<char> {
    match session.account {
        Some(AccountView::Chatgpt { plan_type, .. }) => plan_type.label,
        _ => "-"@,
    }
}

/// The row of an account.
pub open spec fn row_of(session: ReportedView, labels: ResetLabels) -> Seq<Seq<char>> {
    seq![
        if session.is_active {
            "*"@
        } else {
            ""@
        },
        account_text(session),
        plan_text(session),
        left_text(five_hour(session.rate_limits)),
        reset_text(five_hour(session.rate_limits), text::opt_view(labels.five_hour)),
        left_text(weekly(session.rate_limits)),
        reset_text(weekly(session.rate_limits), text::opt_view(labels.weekly)),
    ]
}

fn account_row(session: &AccountSession, labels: &ResetLabels) -> (res: Vec<String>)
    requires
        are_countable(*session),
    ensures
        text::views(res@) == row_of(session@, *labels),
        res@.len() == 7,
{
    let marker = if session.is_active {
        "*".to_string()
    } else {
        "".to_string()
    };
    let (account, plan) = match &session.account {
        Some(Account::ApiKey) => ("API key".to_string(), "-".to_string()),
        Some(Account::Chatgpt { email, plan_type }) => (
            first_text(email, &session.email, &session.session_id),
            plan_type.label.clone(),
        ),
        Some(Account::AmazonBedrock { .. }) => ("Amazon Bedrock".to_string(), "-".to_string()),
        None => (
            first_text(&session.email, &session.display_name, &session.session_id),
            "-".to_string(),
        ),
    };
    let none: Option<RateLimitWindow> = None;
    let (shorter, longer) = match &session.rate_limits {
        Some(limits) => (&limits.primary, &limits.secondary),
        None => (&none, &none),
    };
    let cells: Vec<String> = vec![
        marker,
        account,
        plan,
        format_window_left(shorter),
        format_window_reset(shorter, &labels.five_hour),
        format_window_left(longer),
        format_window_reset(longer, &labels.weekly),
    ];
    assert(text::views(cells@) =~= row_of(session@, *labels));
    cells
}

/// The headers of the table.
pub open spec fn headers() -> Seq<Seq<char>> {
    seq![
        "CUR"@,
        "ACCOUNT"@,
        "PLAN"@,
        "5H LEFT"@,
        "5H RESET"@,
        "WEEKLY LEFT"@,
        "WEEKLY RESET"@,
    ]
}

/// How wide the columns of the table are at most.
pub open spec fn limits() -> Seq<usize> {
    seq![3usize, 32, 10, 7, 16, 11, 16]
}

/// Cells side by side.
pub open spec fn line_of(cells: Seq<Seq<char>>) -> Seq<char> {
    text::trim_end(text::separated(cells, "  "@))
}

/// Puts cells side by side, without white space at the end of the line.
pub fn join_table_cells(cells: &Vec<String>) -> (res: String)
    ensures
        res@ == line_of(text::views(cells@)),
{
    let line = text::join(cells, "  ");
    text::trimmed_end(line.as_str())
}

/// The line of a workspace below the account that has it. An arrow points at the selected one.
pub open spec fn workspace_line(workspace: WorkspaceView, selected: Option<Seq<char>>) -> Seq<char> {
    "    "@ + (if selected == Some(workspace.account_id) {
        "→"@
    } else {
        " "@
    }) + " "@ + (match workspace.name {
        Some(name) => name,
        None => "unnamed workspace"@,
    }) + " ("@ + workspace.account_id + ")"@
}

fn format_workspace(workspace: &AccountSessionWorkspace, selected: &Option<String>) -> (res: String)
    ensures
        res@ == workspace_line(workspace@, text::opt_view(*selected)),
{
    let is_selected = match selected {
        Some(id) => text::same_text(id.as_str(), workspace.account_id.as_str()),
        None => false,
    };
    let mut line = "    ".to_string();
    line.append(
        if is_selected {
            "→"
        } else {
            " "
        },
    );
    line.append(" ");
    match &workspace.name {
        Some(name) => line.append(name.as_str()),
        None => line.append("unnamed workspace"),
    }
    line.append(" (");
    line.append(workspace.account_id.as_str());
    line.append(")");
    line
}

/// The lines of an account.
pub open spec fn account_lines(
    session: ReportedView,
    labels: ResetLabels,
    widths: Seq<nat>,
) -> Seq<Seq<char>> {
    seq![
        line_of(table::padded_cells(row_of(session, labels), widths)),
        "    ID: "@ + session.session.session_id,
    ] + session.session.workspaces.map_values(
        |workspace: WorkspaceView|
            workspace_line(workspace, session.session.selected_workspace_account_id),
    )
}

/// The lines of accounts.
pub open spec fn all_lines(
    accounts: Seq<ReportedView>,
    labels: Seq<ResetLabels>,
    widths: Seq<nat>,
) -> Seq<Seq<char>>
    decreases accounts.len(),
{
    if accounts.len() == 0 {
        Seq::empty()
    } else {
        all_lines(accounts.drop_last(), labels, widths) + account_lines(
            accounts.last(),
            labels[accounts.len() - 1],
            widths,
        )
    }
}

/// The rows of accounts.
pub open spec fn all_rows(accounts: Seq<ReportedView>, labels: Seq<ResetLabels>) -> Seq<
    Seq<Seq<char>>,
> {
    Seq::new(accounts.len(), |i: int| row_of(accounts[i], labels[i]))
}

/// The table of saved accounts.
pub open spec fn accounts_text(accounts: Seq<ReportedView>, labels: Seq<ResetLabels>) -> Seq<char> {
    if accounts.len() == 0 {
        "No saved accounts."@
    } else {
        let widths = table::columns(headers(), all_rows(accounts, labels), limits());
        text::separated(
            seq![
                "Saved accounts (* = current):"@,
                line_of(table::padded_cells(headers(), widths)),
                line_of(table::dashes(widths)),
            ] + all_lines(accounts, labels, widths),
            "\n"@,
        )
    }
}

fn push_account_lines(
    lines: &mut Vec<String>,
    session: &AccountSession,
    row: &Vec<String>,
    widths: &Vec<usize>,
    Ghost(labels): Ghost<ResetLabels>,
)
    requires
        row@.len() == widths@.len(),
        text::views(row@) == row_of(session@, labels),
    ensures
        text::views(final(lines)@) == text::views(old(lines)@) + account_lines(
            session@,
            labels,
            table::numbers(widths@),
        ),
{
    let ghost before = text::views(lines@);
    let cells = table::pad_cells(row, widths);
    lines.push(join_table_cells(&cells));
    lines.push(text::joined("    ID: ", session.session_id.as_str()));
    let ghost head = seq![
        line_of(table::padded_cells(row_of(session@, labels), table::numbers(widths@))),
        "    ID: "@ + session.session_id@,
    ];
    let ghost shown = session@.session.workspaces.map_values(
        |workspace: WorkspaceView|
            workspace_line(workspace, session@.session.selected_workspace_account_id),
    );
    assert(text::views(lines@) =~= before + head + shown.take(0));
    let mut i: usize = 0;
    while i < session.workspaces.len()
        invariant
            i <= session.workspaces@.len(),
            shown == session@.session.workspaces.map_values(
                |workspace: WorkspaceView|
                    workspace_line(workspace, session@.session.selected_workspace_account_id),
            ),
            text::views(lines@) == before + head + shown.take(i as int),
        decreases session.workspaces@.len() - i,
    {
        let ghost held = lines@;
        let line = format_workspace(
            &session.workspaces[i],
            &session.selected_workspace_account_id,
        );
        assert(session@.session.workspaces[i as int] == session.workspaces@[i as int]@);
        assert(line@ == shown[i as int]);
        lines.push(line);
        i = i + 1;
        assert(text::views(lines@) == text::views(held).push(line@));
        assert(shown.take(i as int) == shown.take(i - 1).push(shown[i - 1]));
    }
    assert(shown.take(i as int) == shown);
}

fn header_cells() -> (res: Vec<String>)
    ensures
        text::views(res@) == headers(),
        res@.len() == 7,
{
    let cells: Vec<String> = vec![
        "CUR".to_string(),
        "ACCOUNT".to_string(),
        "PLAN".to_string(),
        "5H LEFT".to_string(),
        "5H RESET".to_string(),
        "WEEKLY LEFT".to_string(),
        "WEEKLY RESET".to_string(),
    ];
    assert(text::views(cells@) =~= headers());
    cells
}

/// The table of saved accounts, each with its workspaces. `labels` says of each what the times look
/// like at which its windows end.
pub fn format_account_sessions(response: &AccountSessionsResponse, labels: &Vec<ResetLabels>) -> (res:
    String)
    requires
        labels@.len() == response.sessions@.len(),
        forall|i: int|
            0 <= i < response.sessions@.len() ==> are_countable(#[trigger] response.sessions@[i]),
    ensures
        res@ == accounts_text(sessions::reported_views(response.sessions@), labels@),
{
    let ghost accounts = sessions::reported_views(response.sessions@);
    if response.sessions.len() == 0 {
        return "No saved accounts.".to_string();
    }
    let mut rows: Vec<Vec<String>> = Vec::new();
    let mut i: usize = 0;
    while i < response.sessions.len()
        invariant
            i <= response.sessions@.len() == labels@.len(),
            accounts == sessions::reported_views(response.sessions@),
            rows@.len() == i,
            forall|j: int|
                0 <= j < response.sessions@.len() ==> are_countable(
                    #[trigger] response.sessions@[j],
                ),
            forall|j: int|
                0 <= j < i ==> (#[trigger] rows@[j])@.len() == 7 && text::views(rows@[j]@)
                    == row_of(accounts[j], labels@[j]),
        decreases response.sessions@.len() - i,
    {
        assert(are_countable(response.sessions@[i as int]));
        rows.push(account_row(&response.sessions[i], &labels[i]));
        i = i + 1;
    }
    assert(table::row_views(rows@) =~= all_rows(accounts, labels@));
    let header = header_cells();
    let column_limits: Vec<usize> = vec![3usize, 32, 10, 7, 16, 11, 16];
    assert(column_limits@ =~= limits());
    let widths = table::column_widths(&header, &rows, &column_limits);
    let mut lines: Vec<String> = Vec::new();
    lines.push("Saved accounts (* = current):".to_string());
    let cells = table::pad_cells(&header, &widths);
    lines.push(join_table_cells(&cells));
    let below = table::divider(&widths);
    lines.push(join_table_cells(&below));
    let ghost sizes = table::numbers(widths@);
    let ghost head = seq![
        "Saved accounts (* = current):"@,
        line_of(table::padded_cells(headers(), sizes)),
        line_of(table::dashes(sizes)),
    ];
    assert(text::views(lines@) =~= head + all_lines(accounts.take(0), labels@, sizes));
    let mut k: usize = 0;
    while k < response.sessions.len()
        invariant
            k <= response.sessions@.len() == labels@.len(),
            accounts == sessions::reported_views(response.sessions@),
            rows@.len() == response.sessions@.len(),
            widths@.len() == 7,
            sizes == table::numbers(widths@),
            forall|j: int|
                0 <= j < rows@.len() ==> (#[trigger] rows@[j])@.len() == 7 && text::views(
                    rows@[j]@,
                ) == row_of(accounts[j], labels@[j]),
            text::views(lines@) == head + all_lines(accounts.take(k as int), labels@, sizes),
        decreases response.sessions@.len() - k,
    {
        assert(rows@[k as int]@.len() == 7);
        assert(accounts[k as int] == response.sessions@[k as int]@);
        assert(accounts.take(k + 1).drop_last() == accounts.take(k as int));
        assert(accounts.take(k + 1).last() == accounts[k as int]);
        push_account_lines(
            &mut lines,
            &response.sessions[k],
            &rows[k],
            &widths,
            Ghost(labels@[k as int]),
        );
        k = k + 1;
        assert(text::views(lines@) =~= head + all_lines(accounts.take(k as int), labels@, sizes));
    }
    assert(accounts.take(k as int) == accounts);
    text::join(&lines, "\n")
}

/// What follows the table.
pub const ACCOUNTS_HINT: &'static str =
    "Use /login to add an account, /account switch <email|id> [workspace-id] to switch, or /account logout <email|id>. Account-changing commands entered during a turn run after that turn, before the next command.";

/// A command on the saved accounts.
#[derive(Clone, Copy, Debug, PartialEq, Eq, Structural)]
pub enum AccountCommand {
    List,
    Switch,
    LogOut,
}

/// What the reply to a command is preceded by.
pub open spec fn command_note(command: AccountCommand) -> Seq<ActionView> {
    match command {
        AccountCommand::List => seq![],
        AccountCommand::Switch => seq![
            actions::info("Account switched. New turns will use the selected account."@),
        ],
        AccountCommand::LogOut => seq![actions::info("Saved account logged out."@)],
    }
}

/// What the message begins with that reports the failure of a command.
pub open spec fn command_failure(command: AccountCommand) -> Seq<char> {
    match command {
        AccountCommand::List => "Could not list accounts: "@,
        AccountCommand::Switch => "Could not switch accounts: "@,
        AccountCommand::LogOut => "Could not log out account: "@,
    }
}

/// What is shown of the reply to a command: the saved accounts, or the failure.
pub fn show_account_sessions(
    command: AccountCommand,
    reply: &Result<AccountSessionsResponse, String>,
    labels: &Vec<ResetLabels>,
) -> (res: Vec<UiAction>)
    requires
        reply matches Ok(response) ==> labels@.len() == response.sessions@.len() && forall|i: int|
            0 <= i < response.sessions@.len() ==> are_countable(#[trigger] response.sessions@[i]),
    ensures
        actions::action_views(res@) == (match reply {
            Ok(response) => command_note(command).push(
                ActionView::Info {
                    message: accounts_text(
                        sessions::reported_views(response.sessions@),
                        labels@,
                    ),
                    hint: Some(ACCOUNTS_HINT@),
                },
            ),
            Err(message) => seq![ActionView::Error(command_failure(command) + message@)],
        }),
{
    let mut shown: Vec<UiAction> = Vec::new();
    match reply {
        Ok(response) => {
            match command {
                AccountCommand::List => {},
                AccountCommand::Switch => shown.push(
                    actions::info_message(
                        "Account switched. New turns will use the selected account.",
                    ),
                ),
                AccountCommand::LogOut => shown.push(
                    actions::info_message("Saved account logged out."),
                ),
            }
            let message = format_account_sessions(response, labels);
            shown.push(UiAction::Info { message, hint: Some(ACCOUNTS_HINT.to_string()) });
            assert(actions::action_views(shown@) =~= command_note(command).push(
                ActionView::Info {
                    message: accounts_text(
                        sessions::reported_views(response.sessions@),
                        labels@,
                    ),
                    hint: Some(ACCOUNTS_HINT@),
                },
            ));
        },
        Err(message) => {
            let context = match command {
                AccountCommand::List => "Could not list accounts: ",
                AccountCommand::Switch => "Could not switch accounts: ",
                AccountCommand::LogOut => "Could not log out account: ",
            };
            shown.push(UiAction::Error(text::joined(context, message.as_str())));
            assert(actions::action_views(shown@) =~= seq![
                ActionView::Error(command_failure(command) + message@),
            ]);
        },
    }
    shown
}

} // verus!
