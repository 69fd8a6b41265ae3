//! How a login is followed from its start to its end. Its ID keeps a canceled or superseded login from
//! being reported as the failure of the present one.

use vstd::prelude::*;
use crate::accounts::login::{
    AccountLoginCompletedNotification, CancelLoginAccountStatus, LoginAccountParams,
    LoginAccountResponse,
};
use crate::text;
use crate::tui::actions;
use crate::tui::actions::{AccountLoginMethod, ActionView, AppEvent, LineStyle, LineView, UiAction};

verus! {

/// The login that is followed, if there is one.
#[derive(Debug, PartialEq, Eq)]
pub struct LoginTracker {
    pub account_login_id: Option<String>,
}

/// What is asked for when a login begins.
#[derive(Debug, PartialEq, Eq)]
pub enum LoginCall {
    /// The login is to be canceled first.
    Cancel(String),
    /// A login may be started.
    Start,
}

/// What a login with a method is asked for with.
pub fn login_params(method: AccountLoginMethod) -> (res: LoginAccountParams)
    ensures
        res == (match method {
            AccountLoginMethod::Browser => LoginAccountParams::Chatgpt {
                app_brand: None,
                codex_streamlined_login: false,
                use_hosted_login_success_page: false,
            },
            AccountLoginMethod::DeviceCode => LoginAccountParams::ChatgptDeviceCode,
        }),
{
    match method {
        AccountLoginMethod::Browser => LoginAccountParams::Chatgpt {
            app_brand: None,
            codex_streamlined_login: false,
            use_hosted_login_success_page: false,
        },
        AccountLoginMethod::DeviceCode => LoginAccountParams::ChatgptDeviceCode,
    }
}

/// What is shown of a login in the browser.
pub open spec fn browser_lines(auth_url: Seq<char>) -> Seq<LineView> {
    seq![
        actions::styled("Continue signing in with ChatGPT in your browser:"@, LineStyle::Plain),
        actions::styled(auth_url, LineStyle::Link),
        actions::styled(
            "Browser unavailable? Use /login device. Use /login cancel to cancel."@,
            LineStyle::Dim,
        ),
    ]
}

/// What is shown of a login with a device code.
pub open spec fn device_lines(verification_url: Seq<char>, user_code: Seq<char>) -> Seq<LineView> {
    seq![
        actions::styled("Sign in with ChatGPT using a device code:"@, LineStyle::Bold),
        actions::styled(""@, LineStyle::Plain),
        actions::styled("1. Open this link on any device and sign in:"@, LineStyle::Plain),
        actions::styled(verification_url, LineStyle::Link),
        actions::styled(""@, LineStyle::Plain),
        actions::styled("2. Enter this one-time code (expires in 15 minutes):"@, LineStyle::Plain),
        actions::styled(user_code, LineStyle::Code),
        actions::styled(""@, LineStyle::Plain),
        actions::styled(
            "Continue only if you started this login in Codex. If a website or another person gave you this code, cancel."@,
            LineStyle::Dim,
        ),
        actions::styled(
            "Waiting for sign-in. Use /login cancel to cancel or /login device to request a new code."@,
            LineStyle::Dim,
        ),
    ]
}

fn show_browser_login(auth_url: &str) -> (res: UiAction)
    ensures
        res@ == ActionView::Lines(browser_lines(auth_url@)),
{
    let lines = vec![
        actions::styled_line(
            "Continue signing in with ChatGPT in your browser:",
            LineStyle::Plain,
        ),
        actions::styled_line(auth_url, LineStyle::Link),
        actions::styled_line(
            "Browser unavailable? Use /login device. Use /login cancel to cancel.",
            LineStyle::Dim,
        ),
    ];
    assert(lines@.map_values(|line: actions::StyledLine| line@) =~= browser_lines(auth_url@));
    UiAction::Lines(lines)
}

fn show_device_login(verification_url: &str, user_code: &str) -> (res: UiAction)
    ensures
        res@ == ActionView::Lines(device_lines(verification_url@, user_code@)),
{
    let lines = vec![
        actions::styled_line("Sign in with ChatGPT using a device code:", LineStyle::Bold),
        actions::styled_line("", LineStyle::Plain),
        actions::styled_line("1. Open this link on any device and sign in:", LineStyle::Plain),
        actions::styled_line(verification_url, LineStyle::Link),
        actions::styled_line("", LineStyle::Plain),
        actions::styled_line(
            "2. Enter this one-time code (expires in 15 minutes):",
            LineStyle::Plain,
        ),
        actions::styled_line(user_code, LineStyle::Code),
        actions::styled_line("", LineStyle::Plain),
        actions::styled_line(
            "Continue only if you started this login in Codex. If a website or another person gave you this code, cancel.",
            LineStyle::Dim,
        ),
        actions::styled_line(
            "Waiting for sign-in. Use /login cancel to cancel or /login device to request a new code.",
            LineStyle::Dim,
        ),
    ];
    assert(lines@.map_values(|line: actions::StyledLine| line@) =~= device_lines(
        verification_url@,
        user_code@,
    ));
    UiAction::Lines(lines)
}

/// The ID under which a login is followed, once it was started.
pub open spec fn followed_id(reply: Result<LoginAccountResponse, String>) -> Option<Seq<char>> {
    match reply {
        Ok(LoginAccountResponse::Chatgpt { login_id, .. }) => Some(login_id@),
        Ok(LoginAccountResponse::ChatgptDeviceCode { login_id, .. }) => Some(login_id@),
        _ => None,
    }
}

/// What looks like a reply that does not belong to a login that is waited for.
pub open spec fn reply_text(response: LoginAccountResponse) -> Seq<char> {
    match response {
        LoginAccountResponse::ApiKey => "ApiKey"@,
        LoginAccountResponse::ChatgptAuthTokens => "ChatgptAuthTokens"@,
        _ => "AmazonBedrock"@,
    }
}

/// What is shown once a login was asked for.
pub open spec fn start_actions(reply: Result<LoginAccountResponse, String>) -> Seq<ActionView> {
    match reply {
        Ok(LoginAccountResponse::Chatgpt { auth_url, .. }) => seq![
            ActionView::OpenUrl(auth_url@),
            ActionView::Lines(browser_lines(auth_url@)),
        ],
        Ok(LoginAccountResponse::ChatgptDeviceCode { verification_url, user_code, .. }) => seq![
            ActionView::Lines(device_lines(verification_url@, user_code@)),
        ],
        Ok(other) => seq![
            ActionView::Error(
                "Unexpected accountSession/login/start response: "@ + reply_text(other),
            ),
        ],
        Err(message) => seq![
            ActionView::Error("Login failed: "@ + message@ + ". Use /login to try again."@),
        ],
    }
}

/// What is shown once a login was asked to be canceled.
pub open spec fn cancel_actions(reply: Result<CancelLoginAccountStatus, String>) -> Seq<ActionView> {
    match reply {
        Ok(CancelLoginAccountStatus::Canceled) => seq![
            actions::info("Account login canceled."@),
        ],
        Ok(CancelLoginAccountStatus::NotFound) => seq![
            ActionView::Send(AppEvent::ListAccountSessions),
            actions::info("Login is no longer pending. Checking saved accounts."@),
        ],
        Err(message) => seq![ActionView::Error("Could not cancel login: "@ + message@)],
    }
}

/// What is shown at the end of the login that is followed.
pub open spec fn completion_actions(success: bool, error: Option<Seq<char>>) -> Seq<ActionView> {
    if success {
        seq![
            actions::info("ChatGPT account added. Use /account to view or switch accounts."@),
            ActionView::Send(AppEvent::ListAccountSessions),
        ]
    } else {
        seq![
            ActionView::Error(
                "Login failed: "@ + (match error {
                    Some(error) => error,
                    None => "unknown error"@,
                }) + ". Use /login to try again."@,
            ),
        ]
    }
}

impl LoginTracker {
    pub fn new() -> (res: LoginTracker)
        ensures
            res.account_login_id is None,
    {
        LoginTracker { account_login_id: None }
    }

    /// What is to be asked for first when a login is to be started: a login that is followed is
    /// canceled before.
    pub fn start_account_login(&self) -> (res: LoginCall)
        ensures
            match (self.account_login_id, res) {
                (Some(id), LoginCall::Cancel(canceled)) => canceled@ == id@,
                (None, LoginCall::Start) => true,
                _ => false,
            },
    {
        match &self.account_login_id {
            Some(id) => LoginCall::Cancel(id.clone()),
            None => LoginCall::Start,
        }
    }

    /// Whether a login may be started: one that could not be canceled stands in its way.
    pub fn may_start(&self) -> (res: bool)
        ensures
            res == (self.account_login_id is None),
    {
        self.account_login_id.is_none()
    }

    /// Takes note of the reply to the start of a login. A reply that starts none leaves what is followed
    /// as it was.
    pub fn on_login_started(&mut self, reply: Result<LoginAccountResponse, String>) -> (res: Vec<
        UiAction,
    >)
        ensures
            text::opt_view(final(self).account_login_id) == (match followed_id(reply) {
                Some(id) => Some(id),
                None => text::opt_view(old(self).account_login_id),
            }),
            actions::action_views(res@) == start_actions(reply),
    {
        let ghost given = reply;
        let mut shown: Vec<UiAction> = Vec::new();
        match reply {
            Ok(LoginAccountResponse::Chatgpt { login_id, auth_url }) => {
                self.account_login_id = Some(login_id);
                let lines = show_browser_login(auth_url.as_str());
                shown.push(UiAction::OpenUrl(auth_url));
                shown.push(lines);
            },
            Ok(LoginAccountResponse::ChatgptDeviceCode { login_id, verification_url, user_code })
            => {
                self.account_login_id = Some(login_id);
                shown.push(show_device_login(verification_url.as_str(), user_code.as_str()));
            },
            Ok(other) => {
                let name = match other {
                    LoginAccountResponse::ApiKey => "ApiKey",
                    LoginAccountResponse::ChatgptAuthTokens => "ChatgptAuthTokens",
                    _ => "AmazonBedrock",
                };
                shown.push(
                    UiAction::Error(
                        text::joined("Unexpected accountSession/login/start response: ", name),
                    ),
                );
            },
            Err(message) => {
                shown.push(
                    UiAction::Error(
                        text::joined3(
                            "Login failed: ",
                            message.as_str(),
                            ". Use /login to try again.",
                        ),
                    ),
                );
            },
        }
        assert(actions::action_views(shown@) =~= start_actions(given));
        shown
    }

    /// Which login is to be canceled; where none is followed, that is shown instead.
    pub fn cancel_account_login(&self) -> (res: Result<String, UiAction>)
        ensures
            match (self.account_login_id, res) {
                (Some(id), Ok(canceled)) => canceled@ == id@,
                (None, Err(shown)) => shown@ == actions::info("No account login is in progress."@),
                _ => false,
            },
    {
        match &self.account_login_id {
            Some(id) => Ok(id.clone()),
            None => Err(actions::info_message("No account login is in progress.")),
        }
    }

    /// Takes note of the reply to the cancellation of a login. One that failed leaves the login
    /// followed.
    pub fn on_login_canceled(&mut self, reply: Result<CancelLoginAccountStatus, String>) -> (res: Vec<
        UiAction,
    >)
        ensures
            reply is Ok ==> final(self).account_login_id is None,
            reply is Err ==> *final(self) == *old(self),
            actions::action_views(res@) == cancel_actions(reply),
    {
        let ghost given = reply;
        let mut shown: Vec<UiAction> = Vec::new();
        match reply {
            Ok(status) => {
                self.account_login_id = None;
                match status {
                    CancelLoginAccountStatus::Canceled => {
                        shown.push(actions::info_message("Account login canceled."));
                    },
                    CancelLoginAccountStatus::NotFound => {
                        shown.push(UiAction::Send(AppEvent::ListAccountSessions));
                        shown.push(
                            actions::info_message(
                                "Login is no longer pending. Checking saved accounts.",
                            ),
                        );
                    },
                }
            },
            Err(message) => {
                shown.push(
                    UiAction::Error(text::joined("Could not cancel login: ", message.as_str())),
                );
            },
        }
        assert(actions::action_views(shown@) =~= cancel_actions(given));
        shown
    }

    /// Whether a login that is over is the one that is followed.
    pub open spec fn follows(self, notification: AccountLoginCompletedNotification) -> bool {
        self.account_login_id is Some && text::opt_view(notification.login_id) == text::opt_view(
            self.account_login_id,
        )
    }

    /// Takes note of the end of a login. The end of another login than the one that is followed is not
    /// shown.
    pub fn on_account_login_completed(
        &mut self,
        notification: &AccountLoginCompletedNotification,
    ) -> (res: Vec<UiAction>)
        ensures
            if old(self).follows(*notification) {
                final(self).account_login_id is None && actions::action_views(res@)
                    == completion_actions(notification.success, text::opt_view(notification.error))
            } else {
                *final(self) == *old(self) && res@.len() == 0
            },
    {
        let mut shown: Vec<UiAction> = Vec::new();
        if self.account_login_id.is_none() || !text::same_option(
            &notification.login_id,
            &self.account_login_id,
        ) {
            return shown;
        }
        self.account_login_id = None;
        if notification.success {
            shown.push(
                actions::info_message(
                    "ChatGPT account added. Use /account to view or switch accounts.",
                ),
            );
            shown.push(UiAction::Send(AppEvent::ListAccountSessions));
        } else {
            let error = match &notification.error {
                Some(error) => error.clone(),
                None => "unknown error".to_string(),
            };
            shown.push(
                UiAction::Error(
                    text::joined3("Login failed: ", error.as_str(), ". Use /login to try again."),
                ),
            );
        }
        assert(actions::action_views(shown@) =~= completion_actions(
            notification.success,
            text::opt_view(notification.error),
        ));
        shown
    }
}

/// A login that was canceled or superseded is not reported: its end is shown only while it is the one
/// that is followed.
pub proof fn only_the_followed_login_is_reported(
    tracker: LoginTracker,
    notification: AccountLoginCompletedNotification,
)
    ensures
        tracker.account_login_id is None ==> !tracker.follows(notification),
        tracker.account_login_id matches Some(id) && text::opt_view(notification.login_id) != Some(
            id@,
        ) ==> !tracker.follows(notification),
{
}

} // verus!
