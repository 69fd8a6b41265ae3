//! The chat: commands on logins and accounts, and the loop that sends a prompt again after a turn.

use vstd::prelude::*;
use crate::text;
use crate::tui::actions;
use crate::tui::actions::{
    AccountLoginMethod, ActionView, AppEvent, AuthProfileSwitchTrigger, ItemView, SelectionItem,
    SelectionView, UiAction,
};

verus! {

/// How often a prompt is sent again.
#[derive(Clone, Copy, Debug, PartialEq, Eq, Structural)]
pub enum StopLoopMode {
    Once,
    Always,
}

/// A prompt that is sent again after a turn.
#[derive(Debug, PartialEq, Eq)]
pub struct StopLoopConfig {
    pub prompt: String,
    pub mode: StopLoopMode,
}

/// The chat. `actions` is what it has asked the terminal to do.
#[derive(Debug, PartialEq, Eq)]
pub struct ChatWidget {
    pub stop_loop: Option<StopLoopConfig>,
    pub auto_switch_auth_profile_on_rate_limit: bool,
    pub queue_autosend_suppressed: bool,
    pub task_running: bool,
    pub queued_follow_up_messages: usize,
    pub actions: Vec<UiAction>,
}

/// The view of the loop.
#[verifier::ext_equal]
pub struct LoopView {
    pub prompt: Seq<char>,
    pub mode: StopLoopMode,
}

/// The view of the chat.
#[verifier::ext_equal]
pub struct ChatView {
    pub stop_loop: Option<LoopView>,
    pub auto_switch: bool,
    pub autosend_suppressed: bool,
    pub task_running: bool,
    pub queued: nat,
    pub actions: Seq<ActionView>,
}

impl View for ChatWidget {
    type V = ChatView;

    open spec fn view(&self) -> ChatView {
        ChatView {
            stop_loop: match self.stop_loop {
                Some(config) => Some(LoopView { prompt: config.prompt@, mode: config.mode }),
                None => None,
            },
            auto_switch: self.auto_switch_auth_profile_on_rate_limit,
            autosend_suppressed: self.queue_autosend_suppressed,
            task_running: self.task_running,
            queued: self.queued_follow_up_messages as nat,
            actions: actions::action_views(self.actions@),
        }
    }
}

/// The chat after it asked for one thing more.
pub open spec fn asked(chat: ChatView, action: ActionView) -> ChatView {
    ChatView { actions: chat.actions.push(action), ..chat }
}

/// The choice of how to sign in.
pub open spec fn login_choice() -> ActionView {
    ActionView::Select {
        title: "Add a ChatGPT account"@,
        subtitle: "Choose how to sign in."@,
        items: seq![
            ItemView {
                name: "Browser"@,
                description: "Open a browser on this computer"@,
                event: AppEvent::StartAccountLogin { method: AccountLoginMethod::Browser },
            },
            ItemView {
                name: "Device code"@,
                description: "Use a code in a browser on any device (/login device)"@,
                event: AppEvent::StartAccountLogin { method: AccountLoginMethod::DeviceCode },
            },
        ],
    }
}

/// The chat after the command to log in.
pub open spec fn after_login_command(chat: ChatView, args: Seq<char>) -> ChatView {
    let word = text::trim(args);
    if word == ""@ {
        asked(asked(asked(chat, login_choice()), ActionView::DeferInput), ActionView::Redraw)
    } else if word == "browser"@ {
        asked(
            chat,
            ActionView::Send(AppEvent::StartAccountLogin { method: AccountLoginMethod::Browser }),
        )
    } else if word == "device"@ || word == "--device-auth"@ {
        asked(
            chat,
            ActionView::Send(AppEvent::StartAccountLogin { method: AccountLoginMethod::DeviceCode }),
        )
    } else if word == "cancel"@ {
        asked(chat, ActionView::Send(AppEvent::CancelAccountLogin))
    } else {
        asked(chat, ActionView::Error("Usage: /login [browser|device|cancel]"@))
    }
}

/// The chat after it was asked to turn to another account.
pub open spec fn after_next_requested(chat: ChatView, trigger: AuthProfileSwitchTrigger) -> ChatView {
    asked(
        ChatView {
            autosend_suppressed: chat.autosend_suppressed || trigger
                == AuthProfileSwitchTrigger::RateLimit,
            ..chat
        },
        ActionView::Send(AppEvent::ActivateNextAuthProfile { trigger }),
    )
}

/// The chat after the loop was given up for want of capacity.
pub open spec fn without_loop(chat: ChatView) -> ChatView {
    if chat.stop_loop is Some {
        asked(
            asked(
                ChatView { stop_loop: None, ..chat },
                ActionView::Warning("Loop disabled after a rate limit or quota error."@),
            ),
            ActionView::Redraw,
        )
    } else {
        chat
    }
}

/// The chat after another account was turned to, or could not be. `outcome` is the name of the account
/// or the failure.
pub open spec fn after_next_activated(
    chat: ChatView,
    trigger: AuthProfileSwitchTrigger,
    outcome: Result<Seq<char>, Seq<char>>,
) -> ChatView {
    let limited = trigger == AuthProfileSwitchTrigger::RateLimit;
    let resumed = ChatView {
        autosend_suppressed: chat.autosend_suppressed && !limited,
        ..chat
    };
    match outcome {
        Ok(name) => {
            let cleared = asked(asked(resumed, ActionView::ClearTokenUsage), ActionView::ClearRateLimits);
            let told = asked(
                cleared,
                actions::info(
                    (if limited {
                        "Rate limit hit. Switched to account "@
                    } else {
                        "Activated next account "@
                    }) + name,
                ),
            );
            if limited {
                asked(told, ActionView::SendNextQueuedInput)
            } else {
                told
            }
        },
        Err(message) => {
            asked(
                if limited {
                    without_loop(resumed)
                } else {
                    resumed
                },
                ActionView::Error(
                    (if limited {
                        "Failed to automatically switch account after rate limit"@
                    } else {
                        "Failed to activate next account"@
                    }) + ": "@ + message,
                ),
            )
        },
    }
}

/// The chat after a loop was asked for.
pub open spec fn with_loop(chat: ChatView, mode: StopLoopMode, prompt: Seq<char>) -> ChatView {
    let trimmed = text::trim(prompt);
    if trimmed.len() == 0 {
        asked(chat, ActionView::Error("Loop prompt cannot be empty."@))
    } else {
        asked(
            ChatView { stop_loop: Some(LoopView { prompt: trimmed, mode }), ..chat },
            actions::info(
                "Loop armed for "@ + (match mode {
                    StopLoopMode::Once => "next successful turn"@,
                    StopLoopMode::Always => "every successful turn"@,
                }) + ": "@ + trimmed,
            ),
        )
    }
}

/// What is shown of the loop.
pub open spec fn loop_text(stop_loop: Option<LoopView>) -> Seq<char> {
    match stop_loop {
        Some(config) => match config.mode {
            StopLoopMode::Once => "Loop is armed once: "@ + config.prompt,
            StopLoopMode::Always => "Loop is armed persistently: "@ + config.prompt,
        },
        None => "Loop is off."@,
    }
}

/// Whether the loop sends its prompt: only when nothing else is going on or waiting.
pub open spec fn loop_runs(chat: ChatView) -> bool {
    !chat.task_running && chat.queued == 0 && chat.stop_loop is Some
}

/// The chat after a turn, once the loop had its chance.
pub open spec fn after_turn(chat: ChatView) -> ChatView {
    match chat.stop_loop {
        Some(config) if loop_runs(chat) => asked(
            ChatView {
                stop_loop: match config.mode {
                    StopLoopMode::Once => None,
                    StopLoopMode::Always => Some(config),
                },
                ..chat
            },
            ActionView::Submit(config.prompt),
        ),
        _ => chat,
    }
}

impl ChatWidget {
    pub fn new() -> (res: ChatWidget)
        ensures
            res@ == (ChatView {
                stop_loop: None,
                auto_switch: false,
                autosend_suppressed: false,
                task_running: false,
                queued: 0,
                actions: Seq::empty(),
            }),
    {
        let chat = ChatWidget {
            stop_loop: None,
            auto_switch_auth_profile_on_rate_limit: false,
            queue_autosend_suppressed: false,
            task_running: false,
            queued_follow_up_messages: 0,
            actions: Vec::new(),
        };
        assert(chat@.actions =~= Seq::empty());
        chat
    }

    fn ask(&mut self, action: UiAction)
        ensures
            final(self)@ == asked(old(self)@, action@),
            final(self).stop_loop == old(self).stop_loop,
    {
        self.actions.push(action);
        assert(self@.actions =~= old(self)@.actions.push(action@));
    }

    /// The command to log in.
    pub fn handle_account_login_command(&mut self, args: &str)
        ensures
            final(self)@ == after_login_command(old(self)@, args@),
    {
        let word = text::trimmed(args);
        if text::same_text(word.as_str(), "") {
            let items = vec![
                SelectionItem {
                    name: "Browser".to_string(),
                    description: "Open a browser on this computer".to_string(),
                    event: AppEvent::StartAccountLogin { method: AccountLoginMethod::Browser },
                },
                SelectionItem {
                    name: "Device code".to_string(),
                    description: "Use a code in a browser on any device (/login device)".to_string(),
                    event: AppEvent::StartAccountLogin { method: AccountLoginMethod::DeviceCode },
                },
            ];
            let view = UiAction::Select(
                SelectionView {
                    title: "Add a ChatGPT account".to_string(),
                    subtitle: "Choose how to sign in.".to_string(),
                    items,
                },
            );
            assert(view@->items =~= login_choice()->items);
            self.ask(view);
            self.ask(UiAction::DeferInput);
            self.ask(UiAction::Redraw);
        } else if text::same_text(word.as_str(), "browser") {
            self.ask(
                UiAction::Send(
                    AppEvent::StartAccountLogin { method: AccountLoginMethod::Browser },
                ),
            );
        } else if text::same_text(word.as_str(), "device") || text::same_text(
            word.as_str(),
            "--device-auth",
        ) {
            self.ask(
                UiAction::Send(
                    AppEvent::StartAccountLogin { method: AccountLoginMethod::DeviceCode },
                ),
            );
        } else if text::same_text(word.as_str(), "cancel") {
            self.ask(UiAction::Send(AppEvent::CancelAccountLogin));
        } else {
            self.ask(UiAction::Error("Usage: /login [browser|device|cancel]".to_string()));
        }
    }

    /// Asks for another account to be turned to. After a rate limit nothing more is sent until that is
    /// done.
    pub fn request_next_auth_profile(&mut self, trigger: AuthProfileSwitchTrigger)
        ensures
            final(self)@ == after_next_requested(old(self)@, trigger),
    {
        if trigger == AuthProfileSwitchTrigger::RateLimit {
            self.queue_autosend_suppressed = true;
        }
        self.ask(UiAction::Send(AppEvent::ActivateNextAuthProfile { trigger }));
    }

    /// Shows whether another account is turned to after a rate limit.
    pub fn show_auth_profile_auto_switch_status(&mut self)
        ensures
            final(self)@ == asked(
                old(self)@,
                actions::info(
                    "Automatic account switching on rate limits is "@ + (if old(
                        self,
                    )@.auto_switch {
                        "on"@
                    } else {
                        "off"@
                    }) + " for this session."@,
                ),
            ),
    {
        let status = if self.auto_switch_auth_profile_on_rate_limit {
            "on"
        } else {
            "off"
        };
        let message = text::joined3(
            "Automatic account switching on rate limits is ",
            status,
            " for this session.",
        );
        self.ask(actions::info_message(message.as_str()));
    }

    /// Sets whether another account is turned to after a rate limit.
    pub fn set_auto_switch_auth_profile_on_rate_limit(&mut self, enabled: bool)
        ensures
            final(self)@ == (ChatView { auto_switch: enabled, ..old(self)@ }),
    {
        self.auto_switch_auth_profile_on_rate_limit = enabled;
    }

    /// Takes note that another account was turned to, or could not be.
    pub fn on_auth_profile_next_activated(
        &mut self,
        trigger: AuthProfileSwitchTrigger,
        result: Result<String, String>,
    )
        ensures
            final(self)@ == after_next_activated(
                old(self)@,
                trigger,
                match result {
                    Ok(name) => Ok(name@),
                    Err(message) => Err(message@),
                },
            ),
    {
        let limited = trigger == AuthProfileSwitchTrigger::RateLimit;
        if limited {
            self.queue_autosend_suppressed = false;
        }
        match result {
            Ok(name) => {
                self.ask(UiAction::ClearTokenUsage);
                self.ask(UiAction::ClearRateLimits);
                let message = text::joined(
                    if limited {
                        "Rate limit hit. Switched to account "
                    } else {
                        "Activated next account "
                    },
                    name.as_str(),
                );
                self.ask(actions::info_message(message.as_str()));
                if limited {
                    self.ask(UiAction::SendNextQueuedInput);
                }
            },
            Err(error) => {
                if limited {
                    self.disable_stop_loop_due_to_limit();
                }
                let message = text::joined3(
                    if limited {
                        "Failed to automatically switch account after rate limit"
                    } else {
                        "Failed to activate next account"
                    },
                    ": ",
                    error.as_str(),
                );
                self.ask(UiAction::Error(message));
            },
        }
    }

    /// Arms the loop: the prompt is sent again after the next turn, or after every turn.
    pub fn set_stop_loop(&mut self, mode: StopLoopMode, prompt: String)
        ensures
            final(self)@ == with_loop(old(self)@, mode, prompt@),
    {
        let trimmed = text::trimmed(prompt.as_str());
        if text::is_blank(prompt.as_str()) {
            self.ask(UiAction::Error("Loop prompt cannot be empty.".to_string()));
            return;
        }
        let scope = match mode {
            StopLoopMode::Once => "next successful turn",
            StopLoopMode::Always => "every successful turn",
        };
        let mut message = text::joined3("Loop armed for ", scope, ": ");
        message.append(trimmed.as_str());
        self.stop_loop = Some(StopLoopConfig { prompt: trimmed, mode });
        self.ask(actions::info_message(message.as_str()));
    }

    /// Shows the loop.
    pub fn show_stop_loop_status(&mut self)
        ensures
            final(self)@ == asked(old(self)@, actions::info(loop_text(old(self)@.stop_loop))),
    {
        let message = match &self.stop_loop {
            Some(config) => match config.mode {
                StopLoopMode::Once => text::joined("Loop is armed once: ", config.prompt.as_str()),
                StopLoopMode::Always => text::joined(
                    "Loop is armed persistently: ",
                    config.prompt.as_str(),
                ),
            },
            None => "Loop is off.".to_string(),
        };
        self.ask(actions::info_message(message.as_str()));
    }

    /// Sends the prompt of the loop again, unless something else is going on or waiting. Says whether
    /// it was sent.
    pub fn maybe_run_stop_loop(&mut self) -> (res: bool)
        ensures
            res == loop_runs(old(self)@),
            final(self)@ == after_turn(old(self)@),
    {
        if self.task_running || self.queued_follow_up_messages > 0 {
            return false;
        }
        let (prompt, mode) = match &self.stop_loop {
            Some(config) => (config.prompt.clone(), config.mode),
            None => {
                return false;
            },
        };
        if mode == StopLoopMode::Once {
            self.stop_loop = None;
        }
        self.ask(UiAction::Submit(prompt));
        true
    }

    /// Gives the loop up for want of capacity.
    pub fn disable_stop_loop_due_to_limit(&mut self)
        ensures
            final(self)@ == without_loop(old(self)@),
    {
        if self.stop_loop.is_some() {
            self.stop_loop = None;
            self.ask(
                UiAction::Warning("Loop disabled after a rate limit or quota error.".to_string()),
            );
            self.ask(UiAction::Redraw);
        }
    }
}

/// A loop that is armed once sends its prompt once; one that is armed for every turn sends it after
/// each.
pub proof fn loops_run_as_often_as_they_are_armed_for(
    chat: ChatView,
    mode: StopLoopMode,
    prompt: Seq<char>,
)
    requires
        text::trim(prompt).len() > 0,
        !chat.task_running,
        chat.queued == 0,
    ensures
        ({
            let armed = with_loop(chat, mode, prompt);
            let once = after_turn(armed);
            let twice = after_turn(once);
            let sent = ActionView::Submit(text::trim(prompt));
            &&& once.actions == armed.actions.push(sent)
            &&& mode == StopLoopMode::Once ==> once.stop_loop is None && twice == once
            &&& mode == StopLoopMode::Always ==> once.stop_loop == armed.stop_loop && twice.actions
                == once.actions.push(sent)
        }),
{
}

/// After a rate limit, nothing is sent from the queue until another account was turned to or could not
/// be; where it could not be, the loop ends too.
pub proof fn sending_resumes_after_a_switch(
    chat: ChatView,
    outcome: Result<Seq<char>, Seq<char>>,
)
    ensures
        ({
            let waiting = after_next_requested(chat, AuthProfileSwitchTrigger::RateLimit);
            let resumed = after_next_activated(
                waiting,
                AuthProfileSwitchTrigger::RateLimit,
                outcome,
            );
            &&& waiting.autosend_suppressed
            &&& !resumed.autosend_suppressed
            &&& outcome is Ok ==> resumed.stop_loop == chat.stop_loop && resumed.actions.last()
                == ActionView::SendNextQueuedInput
            &&& outcome is Err ==> resumed.stop_loop is None && !loop_runs(resumed)
        }),
{
}

} // verus!
