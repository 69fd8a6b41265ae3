//! What can be done with the saved accounts.

use vstd::prelude::*;
use crate::accounts::auth_profiles;
use crate::accounts::auth_profiles::PlanCatalog;
use crate::accounts::model;
use crate::accounts::model::{AuthDotJson, AuthMode, AuthView, ErrorKind, ErrorView, StoreError};
use crate::accounts::sessions;
use crate::accounts::sessions::{
    AccountSessionsResponse, AccountsCheck, IndexView, ResponseView, SessionView,
    StoredAccountSession, StoredAccountSessions,
};
use crate::accounts::slots;
use crate::accounts::store;
use crate::accounts::store::{AccountSessionsStore, ActiveStore, EffectView, Run, StoreEffect};
use crate::text;

verus! {

/// Which ways to sign in are allowed, and the workspaces to which a login is bound, if any.
#[derive(Debug, PartialEq, Eq)]
pub struct LoginPolicy {
    pub api_allowed: bool,
    pub chatgpt_allowed: bool,
    pub workspaces: Option<Vec<String>>,
}

/// Whether a mode needs a ChatGPT login; the others need keys.
pub open spec fn is_chatgpt_mode(mode: AuthMode) -> bool {
    match mode {
        AuthMode::ApiKey | AuthMode::BedrockApiKey | AuthMode::BedrockAccessKeys => false,
        _ => true,
    }
}

/// Whether a mode is allowed.
pub open spec fn is_allowed(policy: LoginPolicy, mode: AuthMode) -> bool {
    if is_chatgpt_mode(mode) {
        policy.chatgpt_allowed
    } else {
        policy.api_allowed
    }
}

/// Whether credentials may be used.
pub fn is_login_allowed(policy: &LoginPolicy, auth: &AuthDotJson) -> (res: bool)
    ensures
        res == is_allowed(*policy, auth_profiles::mode_of(auth@)),
{
    match auth_profiles::resolved_auth_mode(auth) {
        AuthMode::ApiKey | AuthMode::BedrockApiKey | AuthMode::BedrockAccessKeys => policy.api_allowed,
        _ => policy.chatgpt_allowed,
    }
}

/// An operation ends: the list is written and reported.
pub open spec fn finished(index: IndexView, run: Run, plans: PlanCatalog) -> (ResponseView, Run) {
    (
        sessions::response_of(index, run.disk.slots, plans),
        run.after(EffectView::SaveIndex(index)),
    )
}

/// The failure for an account without credentials.
pub open spec fn no_auth_error() -> ErrorView {
    model::other_error("Saved account session has no auth"@)
}

/// The failure to switch to an account without credentials.
pub open spec fn no_switch_auth_error() -> ErrorView {
    model::other_error("Saved ChatGPT account session has no auth"@)
}

/// The view of a response, or the failure.
pub open spec fn response_outcome(res: Result<AccountSessionsResponse, StoreError>) -> Result<
    ResponseView,
    ErrorView,
> {
    match res {
        Ok(response) => Ok(response@),
        Err(error) => Err(error@),
    }
}

/// The account with the place `at` is logged out: its credentials are revoked. Where it was the
/// current one, the account used last takes its place, and its credentials are put to use; without
/// any account left, none are in use.
pub open spec fn logged_out(
    index: IndexView,
    run: Run,
    settings: ActiveStore,
    plans: PlanCatalog,
    at: int,
) -> (Result<ResponseView, ErrorView>, Run) {
    let removed = index.sessions[at].session_id;
    let rest = index.sessions.remove(at);
    let revoked = run.after(EffectView::RevokeSlot { session_id: removed });
    if index.active_session_id != Some(removed) {
        let (response, end) = finished(IndexView { sessions: rest, ..index }, revoked, plans);
        (Ok(response), end)
    } else {
        match sessions::newest(rest) {
            None => {
                let (response, end) = finished(
                    IndexView { sessions: rest, active_session_id: None, ..index },
                    revoked.after(EffectView::Logout),
                    plans,
                );
                (Ok(response), end)
            },
            Some(next) => match slots::lookup(revoked.disk.slots, rest[next].session_id) {
                None => (Err(no_auth_error()), revoked),
                Some(auth) => {
                    let (response, end) = finished(
                        IndexView {
                            sessions: rest,
                            active_session_id: Some(rest[next].session_id),
                            ..index
                        },
                        store::activated(revoked, auth, settings),
                        plans,
                    );
                    (Ok(response), end)
                },
            },
        }
    }
}

/// The account that a selector names is logged out.
pub open spec fn logout_run(
    index: IndexView,
    run: Run,
    settings: ActiveStore,
    plans: PlanCatalog,
    selector: Seq<char>,
) -> (Result<ResponseView, ErrorView>, Run) {
    match sessions::resolved(index.sessions, selector) {
        Err(error) => (Err(error), run),
        Ok(at) => logged_out(index, run, settings, plans, at),
    }
}

/// The current account of a list becomes the one at `at`, used at `now`.
pub open spec fn with_active(index: IndexView, at: int, session: SessionView, now: int) -> IndexView {
    IndexView {
        active_session_id: Some(index.sessions[at].session_id),
        sessions: index.sessions.update(at, SessionView { last_used_at: now, ..session }),
        ..index
    }
}

/// The failure for credentials that may not be used.
pub open spec fn not_allowed_error() -> ErrorView {
    ErrorView {
        kind: ErrorKind::PermissionDenied,
        message: "Saved account login method is not allowed by the active authentication policy"@,
    }
}

/// Whether the account that a selector names may be switched to: its place and its credentials. To
/// select a workspace, the login must be a managed one.
pub open spec fn switch_target(
    index: IndexView,
    run: Run,
    policy: LoginPolicy,
    selector: Seq<char>,
    selects_workspace: bool,
) -> Result<(int, AuthView), ErrorView> {
    match sessions::resolved(index.sessions, selector) {
        Err(error) => Err(error),
        Ok(at) => match slots::lookup(run.disk.slots, index.sessions[at].session_id) {
            None => Err(no_switch_auth_error()),
            Some(auth) => if !is_allowed(policy, auth_profiles::mode_of(auth)) {
                Err(not_allowed_error())
            } else if selects_workspace && !sessions::is_managed_chatgpt(auth) {
                Err(
                    model::other_error(
                        "Saved account session is not a Codex-managed ChatGPT login"@,
                    ),
                )
            } else {
                Ok((at, auth))
            },
        },
    }
}

/// The account that a selector names becomes the current one, in its present workspace.
pub open spec fn switch_run(
    index: IndexView,
    run: Run,
    settings: ActiveStore,
    plans: PlanCatalog,
    policy: LoginPolicy,
    selector: Seq<char>,
    now: int,
) -> (Result<ResponseView, ErrorView>, Run) {
    match switch_target(index, run, policy, selector, false) {
        Err(error) => (Err(error), run),
        Ok((at, auth)) => {
            let (response, end) = finished(
                with_active(index, at, index.sessions[at], now),
                store::activated(run, auth, settings),
                plans,
            );
            (Ok(response), end)
        },
    }
}

/// The tokens that the backend gives for a workspace.
#[derive(Debug, PartialEq, Eq)]
pub struct WorkspaceToken {
    pub access_token: String,
    pub refresh_token: Option<String>,
}

/// Managed credentials for another workspace. `time` counts nanoseconds from the epoch.
pub open spec fn exchanged(
    auth: AuthView,
    account_id: Seq<char>,
    token: WorkspaceToken,
    time: i128,
) -> AuthView {
    let tokens = auth.tokens->0;
    AuthView {
        tokens: Some(
            model::TokenView {
                access_token: token.access_token@,
                refresh_token: match token.refresh_token {
                    Some(refresh_token) => refresh_token@,
                    None => tokens.refresh_token,
                },
                account_id: Some(account_id),
                ..tokens
            },
        ),
        last_refresh: Some(time),
        ..auth
    }
}

/// The failure for an account without tokens.
pub open spec fn no_tokens_error() -> ErrorView {
    model::other_error("Saved ChatGPT account session has no tokens"@)
}

/// The account at `at` becomes the current one in another workspace, with its credentials exchanged
/// for those of that workspace. They are written where the settings say; credentials in memory stay.
pub open spec fn switch_workspace_run(
    index: IndexView,
    run: Run,
    settings: ActiveStore,
    plans: PlanCatalog,
    at: int,
    account_id: Seq<char>,
    check: AccountsCheck,
    token: WorkspaceToken,
    time: i128,
    now: int,
) -> (Result<ResponseView, ErrorView>, Run) {
    let id = index.sessions[at].session_id;
    match slots::lookup(run.disk.slots, id) {
        Some(auth) if auth.tokens is Some => {
            let next = exchanged(auth, account_id, token, time);
            let saved = run.after(EffectView::SaveSlot { session_id: id, auth: next });
            let (response, end) = finished(
                with_active(
                    index,
                    at,
                    SessionView {
                        selected_workspace_account_id: Some(account_id),
                        workspaces: sessions::listed_workspaces(check.accounts@),
                        ..index.sessions[at]
                    },
                    now,
                ),
                saved.after(EffectView::SaveActive { target: settings, auth: next }),
                plans,
            );
            (Ok(response), end)
        },
        _ => (Err(no_tokens_error()), run),
    }
}

/// A switch to another workspace, before the backend was asked.
#[derive(Debug, PartialEq, Eq)]
pub struct PendingSwitch {
    pub stored: StoredAccountSessions,
    pub place: usize,
    pub auth: AuthDotJson,
    pub account_id: String,
}

/// Whether the backend lists a workspace.
pub open spec fn lists_workspace(entries: Seq<sessions::AccountEntry>, account_id: Seq<char>) -> bool {
    exists|i: int| 0 <= i < entries.len() && (#[trigger] entries[i]).id@ == account_id
}

/// Whether the policy binds logins to other workspaces.
pub open spec fn is_bound_elsewhere(policy: LoginPolicy, account_id: Seq<char>) -> bool {
    policy.workspaces matches Some(workspaces) && !text::views(workspaces@).contains(account_id)
}

/// Why a workspace may not be switched to, if it may not.
pub open spec fn workspace_problem(
    entries: Seq<sessions::AccountEntry>,
    policy: LoginPolicy,
    account_id: Seq<char>,
) -> Option<ErrorView> {
    if !lists_workspace(entries, account_id) {
        Some(
            model::other_error(
                "Workspace "@ + text::str_debug(account_id)
                    + " is not available to this ChatGPT account"@,
            ),
        )
    } else if is_bound_elsewhere(policy, account_id) {
        Some(
            model::other_error(
                "Workspace "@ + text::str_debug(account_id)
                    + " is not allowed by the active authentication policy"@,
            ),
        )
    } else {
        None
    }
}

/// A switch to another workspace ends: only where that workspace may be switched to does anything
/// change.
pub open spec fn checked_workspace_run(
    index: IndexView,
    run: Run,
    settings: ActiveStore,
    plans: PlanCatalog,
    policy: LoginPolicy,
    at: int,
    account_id: Seq<char>,
    check: AccountsCheck,
    token: WorkspaceToken,
    time: i128,
    now: int,
) -> (Result<ResponseView, ErrorView>, Run) {
    match workspace_problem(check.accounts@, policy, account_id) {
        Some(error) => (Err(error), run),
        None => switch_workspace_run(
            index,
            run,
            settings,
            plans,
            at,
            account_id,
            check,
            token,
            time,
            now,
        ),
    }
}

/// Checks that a workspace may be switched to.
pub fn check_workspace(check: &AccountsCheck, policy: &LoginPolicy, account_id: &str) -> (res: Result<
    (),
    StoreError,
>)
    ensures
        match res {
            Ok(_) => workspace_problem(check.accounts@, *policy, account_id@) is None,
            Err(error) => workspace_problem(check.accounts@, *policy, account_id@) == Some(error@),
        },
{
    let mut listed = false;
    let mut i: usize = 0;
    while i < check.accounts.len()
        invariant
            i <= check.accounts@.len(),
            listed ==> lists_workspace(check.accounts@, account_id@),
            !listed ==> forall|j: int|
                0 <= j < i ==> (#[trigger] check.accounts@[j]).id@ != account_id@,
        decreases check.accounts@.len() - i,
    {
        if text::same_text(check.accounts[i].id.as_str(), account_id) {
            assert(check.accounts@[i as int].id@ == account_id@);
            listed = true;
        }
        i = i + 1;
    }
    let shown = text::debug_str(account_id);
    if !listed {
        return Err(
            StoreError::with(
                ErrorKind::Other,
                text::joined3(
                    "Workspace ",
                    shown.as_str(),
                    " is not available to this ChatGPT account",
                ),
            ),
        );
    }
    match &policy.workspaces {
        Some(workspaces) => {
            if !text::contains(workspaces, account_id) {
                return Err(
                    StoreError::with(
                        ErrorKind::Other,
                        text::joined3(
                            "Workspace ",
                            shown.as_str(),
                            " is not allowed by the active authentication policy",
                        ),
                    ),
                );
            }
        },
        None => {},
    }
    Ok(())
}

/// The first account from `from` on for the same person.
pub open spec fn same_person(sessions: Seq<SessionView>, auth: AuthView, from: int) -> Option<int>
    decreases sessions.len() - from,
{
    if from < 0 || from >= sessions.len() {
        None
    } else if sessions::is_same_identity(sessions[from], auth) {
        Some(from)
    } else {
        same_person(sessions, auth, from + 1)
    }
}

/// What is known of an account's workspaces: the one of its token, and what the backend lists.
#[derive(Debug, PartialEq, Eq)]
pub struct WorkspaceMetadata {
    pub token_account_id: Option<String>,
    pub check: AccountsCheck,
}

/// A saved account with what is known of its workspaces.
pub open spec fn with_metadata(session: SessionView, metadata: Option<WorkspaceMetadata>) -> SessionView {
    match metadata {
        Some(metadata) => sessions::with_workspaces(
            session,
            text::opt_view(metadata.token_account_id),
            metadata.check,
        ),
        None => session,
    }
}

/// The ID that credentials are saved under: that of the account for the same person, else a fresh
/// one.
pub open spec fn added_id(sessions: Seq<SessionView>, auth: AuthView, id: Seq<char>) -> Seq<char> {
    match same_person(sessions, auth, 0) {
        Some(at) => sessions[at].session_id,
        None => id,
    }
}

/// The ID that credentials are saved under, where `id` is a fresh one.
pub fn added_session_id(stored: &StoredAccountSessions, auth: &AuthDotJson, id: &str) -> (res: String)
    ensures
        res@ == added_id(stored@.sessions, auth@, id@),
{
    match find_same_person(&stored.sessions, auth) {
        Some(at) => {
            assert(stored@.sessions[at as int] == stored.sessions@[at as int]@);
            stored.sessions[at].session_id.clone()
        },
        None => id.to_string(),
    }
}

/// The list with an account that was added, in the place of the one for the same person.
pub open spec fn with_added(
    index: IndexView,
    auth: AuthView,
    id: Seq<char>,
    metadata: Option<WorkspaceMetadata>,
    now: int,
) -> IndexView {
    let session = with_metadata(
        sessions::session_of(auth, added_id(index.sessions, auth, id), now),
        metadata,
    );
    IndexView {
        sessions: match same_person(index.sessions, auth, 0) {
            Some(at) => index.sessions.update(at, session),
            None => index.sessions.push(session),
        },
        ..index
    }
}

/// The credentials in use are saved as an account. Unless it is to be switched to, or no account is
/// current, the current account's credentials are put back to use.
pub open spec fn add_run(
    index: IndexView,
    run: Run,
    settings: ActiveStore,
    plans: PlanCatalog,
    auth: AuthView,
    id: Seq<char>,
    metadata: Option<WorkspaceMetadata>,
    switches: bool,
    now: int,
) -> (Result<ResponseView, ErrorView>, Run) {
    let added = added_id(index.sessions, auth, id);
    let saved = run.after(EffectView::SaveSlot { session_id: added, auth });
    let listed = with_added(index, auth, id, metadata, now);
    match index.active_session_id {
        Some(current) if !switches => match slots::lookup(saved.disk.slots, current) {
            None => (Err(no_auth_error()), saved),
            Some(current_auth) => {
                let (response, end) = finished(
                    listed,
                    store::activated(saved, current_auth, settings),
                    plans,
                );
                (Ok(response), end)
            },
        },
        _ => {
            let (response, end) = finished(
                IndexView { active_session_id: Some(added), ..listed },
                saved,
                plans,
            );
            (Ok(response), end)
        },
    }
}

/// Credentials that are not in use are saved as an account. They are put to use where the account is
/// to be switched to, or where no account is current.
pub open spec fn add_auth_run(
    index: IndexView,
    run: Run,
    settings: ActiveStore,
    plans: PlanCatalog,
    auth: AuthView,
    id: Seq<char>,
    activates: bool,
    now: int,
) -> (ResponseView, Run) {
    let added = added_id(index.sessions, auth, id);
    let saved = run.after(EffectView::SaveSlot { session_id: added, auth });
    let listed = with_added(index, auth, id, None, now);
    if activates || index.active_session_id is None {
        finished(
            IndexView { active_session_id: Some(added), ..listed },
            store::activated(saved, auth, settings),
            plans,
        )
    } else {
        finished(listed, saved, plans)
    }
}

/// An account's credentials at one time.
#[derive(Debug, PartialEq, Eq)]
pub struct AccountSessionCredentialsSnapshot {
    pub session_id: String,
    pub auth: AuthDotJson,
}

/// The credentials of the account that a selector names.
pub open spec fn snapshot_run(index: IndexView, run: Run, selector: Seq<char>) -> (
    Result<(Seq<char>, AuthView), ErrorView>,
    Run,
) {
    match sessions::resolved(index.sessions, selector) {
        Err(error) => (Err(error), run),
        Ok(at) => {
            let id = index.sessions[at].session_id;
            match slots::lookup(run.disk.slots, id) {
                None => (Err(no_auth_error()), run),
                Some(auth) => (Ok((id, auth)), run.after(EffectView::SaveIndex(index))),
            }
        },
    }
}

/// Refreshed credentials are saved for an account, provided that it is still there with the
/// credentials that were refreshed. They are put to use where those were.
pub open spec fn persist_run(
    index: IndexView,
    run: Run,
    settings: ActiveStore,
    id: Seq<char>,
    before: AuthView,
    refreshed: AuthView,
) -> (bool, Run) {
    match sessions::place_of(index.sessions, id, 0) {
        Some(at) if slots::lookup(run.disk.slots, id) == Some(before) => {
            let fresh = sessions::session_of(refreshed, id, 0);
            let updated = IndexView {
                sessions: index.sessions.update(
                    at,
                    SessionView {
                        email: fresh.email,
                        user_id: fresh.user_id,
                        selected_workspace_account_id: fresh.selected_workspace_account_id,
                        ..index.sessions[at]
                    },
                ),
                ..index
            };
            let saved = run.after(EffectView::SaveSlot { session_id: id, auth: refreshed });
            let used = if index.active_session_id == Some(id) && store::active_auth(
                saved.disk,
                settings,
            ) == Some(before) {
                store::activated(saved, refreshed, settings).after(EffectView::Reload)
            } else {
                saved
            };
            (true, used.after(EffectView::SaveIndex(updated)))
        },
        _ => (false, run.after(EffectView::SaveIndex(index))),
    }
}

/// No account is current any longer.
pub open spec fn deactivate_run(run: Run, settings: ActiveStore) -> (Result<(), ErrorView>, Run) {
    match store::read_index(run.disk.index) {
        Err(error) => (Err(error), run),
        Ok(None) => (Ok(()), run),
        Ok(Some(index)) => {
            let progress = store::synced(index, run, settings);
            (
                Ok(()),
                progress.run.after(
                    EffectView::SaveIndex(
                        IndexView { active_session_id: None, ..progress.index },
                    ),
                ),
            )
        },
    }
}

/// The credentials of accounts are revoked, one after the other.
pub open spec fn revoked_all(run: Run, sessions: Seq<SessionView>) -> Run
    decreases sessions.len(),
{
    if sessions.len() == 0 {
        run
    } else {
        revoked_all(run, sessions.drop_last()).after(
            EffectView::RevokeSlot { session_id: sessions.last().session_id },
        )
    }
}

/// Every account is logged out. The list that is left says that the accounts of earlier versions
/// were taken over, so that they do not come back. Tells whether there was a list to go by.
pub open spec fn revoke_all_run(
    run: Run,
    settings: ActiveStore,
    profiles: Seq<AuthView>,
    ids: Seq<Seq<char>>,
    now: int,
) -> (bool, Run) {
    let (listed, start) = store::loaded(run, settings, profiles, ids, now);
    let revoked = match listed {
        Ok(index) => revoked_all(start, index.sessions),
        Err(_) => start,
    };
    (listed is Ok, revoked.after(EffectView::SaveIndex(sessions::empty_index(true))))
}

impl AccountSessionsStore {
    /// Ends an operation: writes the list and reports it.
    pub fn finish(&mut self, stored: &StoredAccountSessions) -> (res: AccountSessionsResponse)
        ensures
            (res@, final(self).run()) == finished(stored@, old(self).run(), old(self).plans),
            final(self).same_surroundings(*old(self)),
    {
        let response = sessions::response(stored, &self.slots, &self.plans);
        self.save_unlocked(stored);
        response
    }

    /// Lists the saved accounts, from the list that was opened.
    pub fn list(&mut self, stored: &StoredAccountSessions) -> (res: AccountSessionsResponse)
        ensures
            (res@, final(self).run()) == finished(stored@, old(self).run(), old(self).plans),
            final(self).same_surroundings(*old(self)),
    {
        self.finish(stored)
    }

    /// Logs out the account that a selector names.
    pub fn logout(&mut self, stored: StoredAccountSessions, selector: &str) -> (res: Result<
        AccountSessionsResponse,
        StoreError,
    >)
        ensures
            (response_outcome(res), final(self).run()) == logout_run(
                stored@,
                old(self).run(),
                old(self).settings,
                old(self).plans,
                selector@,
            ),
            final(self).same_surroundings(*old(self)),
    {
        let mut stored = stored;
        let place = match sessions::resolve_session_id(&stored.sessions, selector) {
            Ok(place) => place,
            Err(error) => {
                return Err(error);
            },
        };
        let ghost before = stored.sessions@;
        let removed = stored.sessions.remove(place);
        assert(sessions::session_views(stored.sessions@) == sessions::session_views(before).remove(
            place as int,
        ));
        assert(sessions::session_views(before)[place as int] == removed@);
        self.revoke_and_delete_session_auth(removed.session_id.as_str());
        let was_active = match &stored.active_session_id {
            Some(active) => text::same_text(active.as_str(), removed.session_id.as_str()),
            None => false,
        };
        if was_active {
            match sessions::newest_session(&stored.sessions) {
                Some(next) => {
                    let id = stored.sessions[next].session_id.clone();
                    assert(sessions::session_views(stored.sessions@)[next as int].session_id == id@);
                    match self.load_session_auth(id.as_str()) {
                        Some(auth) => {
                            self.activate(&auth);
                        },
                        None => {
                            return Err(StoreError::other("Saved account session has no auth"));
                        },
                    }
                    stored.active_session_id = Some(id);
                },
                None => {
                    self.logout_active();
                    stored.active_session_id = None;
                },
            }
        }
        Ok(self.finish(&stored))
    }

    fn find_switch_target(
        &self,
        stored: &StoredAccountSessions,
        policy: &LoginPolicy,
        selector: &str,
        selects_workspace: bool,
    ) -> (res: Result<(usize, AuthDotJson), StoreError>)
        ensures
            match res {
                Ok((place, auth)) => place < stored.sessions@.len() && switch_target(
                    stored@,
                    self.run(),
                    *policy,
                    selector@,
                    selects_workspace,
                ) == Ok::<(int, AuthView), ErrorView>((place as int, auth@)),
                Err(error) => switch_target(
                    stored@,
                    self.run(),
                    *policy,
                    selector@,
                    selects_workspace,
                ) == Err::<(int, AuthView), ErrorView>(error@),
            },
    {
        let place = match sessions::resolve_session_id(&stored.sessions, selector) {
            Ok(place) => place,
            Err(error) => {
                return Err(error);
            },
        };
        assert(stored@.sessions[place as int] == stored.sessions@[place as int]@);
        let auth = match self.load_session_auth(stored.sessions[place].session_id.as_str()) {
            Some(auth) => auth,
            None => {
                return Err(StoreError::other("Saved ChatGPT account session has no auth"));
            },
        };
        if !is_login_allowed(policy, &auth) {
            return Err(
                StoreError::new(
                    ErrorKind::PermissionDenied,
                    "Saved account login method is not allowed by the active authentication policy",
                ),
            );
        }
        if selects_workspace && !sessions::is_managed_chatgpt_auth_json(&auth) {
            return Err(
                StoreError::other("Saved account session is not a Codex-managed ChatGPT login"),
            );
        }
        Ok((place, auth))
    }

    /// Makes the account that a selector names the current one.
    pub fn switch(
        &mut self,
        stored: StoredAccountSessions,
        policy: &LoginPolicy,
        selector: &str,
        now: i64,
    ) -> (res: Result<AccountSessionsResponse, StoreError>)
        ensures
            (response_outcome(res), final(self).run()) == switch_run(
                stored@,
                old(self).run(),
                old(self).settings,
                old(self).plans,
                *policy,
                selector@,
                now as int,
            ),
            final(self).same_surroundings(*old(self)),
    {
        let mut stored = stored;
        let (place, auth) = match self.find_switch_target(&stored, policy, selector, false) {
            Ok(target) => target,
            Err(error) => {
                return Err(error);
            },
        };
        self.activate(&auth);
        let ghost before = stored.sessions@;
        let mut session = stored.sessions[place].copy();
        session.last_used_at = now;
        let id = session.session_id.clone();
        let ghost updated = session@;
        stored.sessions.set(place, session);
        stored.active_session_id = Some(id);
        assert(sessions::session_views(stored.sessions@) == sessions::session_views(before).update(
            place as int,
            updated,
        ));
        Ok(self.finish(&stored))
    }

    /// Begins a switch to another workspace: finds the account and its credentials, with which the
    /// backend is then to be asked for its workspaces.
    pub fn begin_workspace_switch(
        &self,
        stored: StoredAccountSessions,
        policy: &LoginPolicy,
        selector: &str,
        account_id: &str,
    ) -> (res: Result<PendingSwitch, StoreError>)
        ensures
            match res {
                Ok(pending) => pending.stored == stored && pending.account_id@ == account_id@
                    && pending.place < stored.sessions@.len() && switch_target(
                    stored@,
                    self.run(),
                    *policy,
                    selector@,
                    true,
                ) == Ok::<(int, AuthView), ErrorView>((pending.place as int, pending.auth@)),
                Err(error) => switch_target(stored@, self.run(), *policy, selector@, true) == Err::<
                    (int, AuthView),
                    ErrorView,
                >(error@),
            },
    {
        match self.find_switch_target(&stored, policy, selector, true) {
            Ok((place, auth)) => Ok(
                PendingSwitch { stored, place, auth, account_id: account_id.to_string() },
            ),
            Err(error) => Err(error),
        }
    }

    /// Ends a switch to another workspace with the tokens that the backend gave for it. They go with
    /// the credentials that the account has by now, which may have been refreshed meanwhile. A
    /// workspace that may not be switched to is refused.
    pub fn finish_workspace_switch(
        &mut self,
        pending: PendingSwitch,
        policy: &LoginPolicy,
        check: &AccountsCheck,
        token: &WorkspaceToken,
        time: i128,
        now: i64,
    ) -> (res: Result<AccountSessionsResponse, StoreError>)
        requires
            pending.place < pending.stored.sessions@.len(),
        ensures
            (response_outcome(res), final(self).run()) == checked_workspace_run(
                pending.stored@,
                old(self).run(),
                old(self).settings,
                old(self).plans,
                *policy,
                pending.place as int,
                pending.account_id@,
                *check,
                *token,
                time,
                now as int,
            ),
            final(self).same_surroundings(*old(self)),
    {
        let PendingSwitch { stored, place, auth: _, account_id } = pending;
        if let Err(error) = check_workspace(check, policy, account_id.as_str()) {
            return Err(error);
        }
        let mut stored = stored;
        let id = stored.sessions[place].session_id.clone();
        assert(stored@.sessions[place as int] == stored.sessions@[place as int]@);
        let mut auth = match self.load_session_auth(id.as_str()) {
            Some(auth) => auth,
            None => {
                return Err(StoreError::other("Saved ChatGPT account session has no tokens"));
            },
        };
        match &auth.tokens {
            Some(tokens) => {
                let mut next = tokens.copy();
                next.access_token = token.access_token.clone();
                match &token.refresh_token {
                    Some(refresh_token) => {
                        next.refresh_token = refresh_token.clone();
                    },
                    None => {},
                }
                next.account_id = Some(account_id.clone());
                auth.tokens = Some(next);
            },
            None => {
                return Err(StoreError::other("Saved ChatGPT account session has no tokens"));
            },
        }
        auth.last_refresh = Some(time);
        self.save_session_auth(id.as_str(), &auth);
        self.save_active(self.settings, &auth);
        let ghost before = stored.sessions@;
        let mut session = stored.sessions[place].copy();
        session.selected_workspace_account_id = Some(account_id);
        session.workspaces = sessions::workspaces_from_accounts(&check.accounts);
        session.last_used_at = now;
        let ghost updated = session@;
        stored.sessions.set(place, session);
        stored.active_session_id = Some(id);
        assert(sessions::session_views(stored.sessions@) == sessions::session_views(before).update(
            place as int,
            updated,
        ));
        Ok(self.finish(&stored))
    }

    /// Begins to save the credentials in use as an account: checks that they are those of a managed
    /// ChatGPT login. `mode` is the mode that the program runs in.
    pub fn begin_add(&self, mode: Option<AuthMode>) -> (res: Result<AuthDotJson, StoreError>)
        ensures
            match res {
                Ok(auth) => mode == Some(AuthMode::Chatgpt) && store::active_auth(
                    self.disk(),
                    self.settings,
                ) == Some(auth@) && sessions::is_managed_chatgpt(auth@),
                Err(error) => match mode {
                    Some(AuthMode::Chatgpt) => error@ == model::other_error(
                        "No active ChatGPT auth session to add"@,
                    ) && !(store::active_auth(self.disk(), self.settings) matches Some(auth)
                        && sessions::is_managed_chatgpt(auth)),
                    None => error@ == model::other_error("No active ChatGPT auth session to add"@),
                    Some(_) => error@ == model::other_error(
                        "Only Codex-managed ChatGPT logins can be saved as account sessions"@,
                    ),
                },
            },
    {
        match mode {
            None => {
                return Err(StoreError::other("No active ChatGPT auth session to add"));
            },
            Some(mode) => {
                if mode != AuthMode::Chatgpt {
                    return Err(
                        StoreError::other(
                            "Only Codex-managed ChatGPT logins can be saved as account sessions",
                        ),
                    );
                }
            },
        }
        match self.load_active_auth() {
            Some(auth) => {
                if sessions::is_managed_chatgpt_auth_json(&auth) {
                    Ok(auth)
                } else {
                    Err(StoreError::other("No active ChatGPT auth session to add"))
                }
            },
            None => Err(StoreError::other("No active ChatGPT auth session to add")),
        }
    }

    /// Saves credentials in the list; gives the ID that they are under.
    fn add_session(
        &mut self,
        stored: &mut StoredAccountSessions,
        auth: &AuthDotJson,
        id: &str,
        metadata: &Option<WorkspaceMetadata>,
        now: i64,
    ) -> (res: String)
        ensures
            res@ == added_id(old(stored)@.sessions, auth@, id@),
            final(stored)@ == with_added(old(stored)@, auth@, id@, *metadata, now as int),
            final(self).run() == old(self).run().after(
                EffectView::SaveSlot { session_id: res@, auth: auth@ },
            ),
            final(self).same_surroundings(*old(self)),
    {
        let existing = find_same_person(&stored.sessions, auth);
        let added = added_session_id(stored, auth, id);
        let mut session = sessions::session_with_id(auth, added.clone(), now);
        self.save_session_auth(added.as_str(), auth);
        match metadata {
            Some(metadata) => {
                sessions::refresh_workspace_metadata(
                    &mut session,
                    &metadata.token_account_id,
                    &metadata.check,
                );
            },
            None => {},
        }
        let ghost before = stored.sessions@;
        let ghost entry = session@;
        match existing {
            Some(at) => {
                stored.sessions.set(at, session);
                assert(sessions::session_views(stored.sessions@) == sessions::session_views(
                    before,
                ).update(at as int, entry));
            },
            None => {
                stored.sessions.push(session);
                assert(sessions::session_views(stored.sessions@) == sessions::session_views(
                    before,
                ).push(entry));
            },
        }
        added
    }

    /// Saves the credentials in use, `auth`, as an account. `id` is a fresh ID.
    pub fn add(
        &mut self,
        stored: StoredAccountSessions,
        auth: &AuthDotJson,
        id: &str,
        metadata: &Option<WorkspaceMetadata>,
        switch_to_added_account: bool,
        now: i64,
    ) -> (res: Result<AccountSessionsResponse, StoreError>)
        ensures
            (response_outcome(res), final(self).run()) == add_run(
                stored@,
                old(self).run(),
                old(self).settings,
                old(self).plans,
                auth@,
                id@,
                *metadata,
                switch_to_added_account,
                now as int,
            ),
            final(self).same_surroundings(*old(self)),
    {
        let mut stored = stored;
        let added = self.add_session(&mut stored, auth, id, metadata, now);
        match &stored.active_session_id {
            Some(current) => {
                if !switch_to_added_account {
                    match self.load_session_auth(current.as_str()) {
                        Some(current_auth) => {
                            self.activate(&current_auth);
                        },
                        None => {
                            return Err(StoreError::other("Saved account session has no auth"));
                        },
                    }
                    return Ok(self.finish(&stored));
                }
            },
            None => {},
        }
        stored.active_session_id = Some(added);
        Ok(self.finish(&stored))
    }

    /// Saves credentials that are not in use as an account. `id` is a fresh ID.
    pub fn add_auth(
        &mut self,
        stored: StoredAccountSessions,
        auth: &AuthDotJson,
        id: &str,
        activation: AccountSessionActivation,
        now: i64,
    ) -> (res: AccountSessionsResponse)
        ensures
            (res@, final(self).run()) == add_auth_run(
                stored@,
                old(self).run(),
                old(self).settings,
                old(self).plans,
                auth@,
                id@,
                activation == AccountSessionActivation::Activate,
                now as int,
            ),
            final(self).same_surroundings(*old(self)),
    {
        let mut stored = stored;
        let added = self.add_session(&mut stored, auth, id, &None, now);
        if activation == AccountSessionActivation::Activate || stored.active_session_id.is_none() {
            self.activate(auth);
            stored.active_session_id = Some(added);
        }
        self.finish(&stored)
    }

    /// The credentials of the account that a selector names.
    pub fn snapshot_session_credentials(
        &mut self,
        stored: &StoredAccountSessions,
        selector: &str,
    ) -> (res: Result<AccountSessionCredentialsSnapshot, StoreError>)
        ensures
            ({
                let (result, run) = snapshot_run(stored@, old(self).run(), selector@);
                &&& match res {
                    Ok(snapshot) => result == Ok::<(Seq<char>, AuthView), ErrorView>(
                        (snapshot.session_id@, snapshot.auth@),
                    ),
                    Err(error) => result == Err::<(Seq<char>, AuthView), ErrorView>(error@),
                }
                &&& final(self).run() == run
                &&& final(self).same_surroundings(*old(self))
            }),
    {
        let place = match sessions::resolve_session_id(&stored.sessions, selector) {
            Ok(place) => place,
            Err(error) => {
                return Err(error);
            },
        };
        assert(stored@.sessions[place as int] == stored.sessions@[place as int]@);
        let session_id = stored.sessions[place].session_id.clone();
        let auth = match self.load_session_auth(session_id.as_str()) {
            Some(auth) => auth,
            None => {
                return Err(StoreError::other("Saved account session has no auth"));
            },
        };
        self.save_unlocked(stored);
        Ok(AccountSessionCredentialsSnapshot { session_id, auth })
    }

    /// Saves refreshed credentials for an account, provided that it is still there with the
    /// credentials of the snapshot. Tells whether it was.
    pub fn persist_session_credentials_if_unchanged(
        &mut self,
        stored: StoredAccountSessions,
        snapshot: &AccountSessionCredentialsSnapshot,
        refreshed: &AuthDotJson,
    ) -> (res: bool)
        ensures
            (res, final(self).run()) == persist_run(
                stored@,
                old(self).run(),
                old(self).settings,
                snapshot.session_id@,
                snapshot.auth@,
                refreshed@,
            ),
            final(self).same_surroundings(*old(self)),
    {
        let mut stored = stored;
        let place = match sessions::find_session(&stored.sessions, snapshot.session_id.as_str()) {
            Some(place) => place,
            None => {
                self.save_unlocked(&stored);
                return false;
            },
        };
        let held = self.load_session_auth(snapshot.session_id.as_str());
        if !model::same_opt_auth(&held, &snapshot.auth) {
            self.save_unlocked(&stored);
            return false;
        }
        self.save_session_auth(snapshot.session_id.as_str(), refreshed);
        let fresh = sessions::session_with_id(refreshed, snapshot.session_id.clone(), 0);
        let ghost before = stored.sessions@;
        assert(stored@.sessions[place as int] == before[place as int]@);
        let mut session = stored.sessions[place].copy();
        session.email = fresh.email;
        session.user_id = fresh.user_id;
        session.selected_workspace_account_id = fresh.selected_workspace_account_id;
        let ghost updated = session@;
        stored.sessions.set(place, session);
        assert(sessions::session_views(stored.sessions@) == sessions::session_views(before).update(
            place as int,
            updated,
        ));
        let is_current = match &stored.active_session_id {
            Some(active) => text::same_text(active.as_str(), snapshot.session_id.as_str()),
            None => false,
        };
        let active = self.load_active_auth();
        if is_current && model::same_opt_auth(&active, &snapshot.auth) {
            self.activate(refreshed);
            self.note(StoreEffect::Reload);
        }
        self.save_unlocked(&stored);
        true
    }

    /// Brings the list up to date, from the list that was opened.
    pub fn sync_active_auth(&mut self, stored: &StoredAccountSessions)
        ensures
            final(self).run() == old(self).run().after(EffectView::SaveIndex(stored@)),
            final(self).same_surroundings(*old(self)),
    {
        self.save_unlocked(stored);
    }

    /// Makes no account the current one.
    pub fn deactivate(&mut self) -> (res: Result<(), StoreError>)
        ensures
            ({
                let (result, run) = deactivate_run(old(self).run(), old(self).settings);
                &&& match res {
                    Ok(_) => result is Ok,
                    Err(error) => result == Err::<(), ErrorView>(error@),
                }
                &&& final(self).run() == run
                &&& final(self).same_surroundings(*old(self))
            }),
    {
        let mut stored = match self.read_unlocked() {
            Err(error) => {
                return Err(error);
            },
            Ok(None) => {
                return Ok(());
            },
            Ok(Some(stored)) => stored,
        };
        self.sync_active_auth_unlocked(&mut stored);
        stored.active_session_id = None;
        self.save_unlocked(&stored);
        Ok(())
    }

    /// Logs out every account. Tells whether there was a list to go by.
    pub fn revoke_all_and_clear(&mut self, ids: &Vec<String>, now: i64) -> (res: bool)
        requires
            ids@.len() > old(self).legacy@.len(),
        ensures
            (res, final(self).run()) == revoke_all_run(
                old(self).run(),
                old(self).settings,
                store::auth_views(old(self).legacy@),
                text::views(ids@),
                now as int,
            ),
            final(self).same_surroundings(*old(self)),
    {
        let listed = match self.load_unlocked(ids, now) {
            Ok(stored) => {
                let ghost start = self.run();
                let ghost views = sessions::session_views(stored.sessions@);
                let mut i: usize = 0;
                assert(views.take(0) == Seq::<SessionView>::empty());
                while i < stored.sessions.len()
                    invariant
                        i <= stored.sessions@.len(),
                        views == sessions::session_views(stored.sessions@),
                        self.run() == revoked_all(start, views.take(i as int)),
                        self.same_surroundings(*old(self)),
                    decreases stored.sessions@.len() - i,
                {
                    assert(views.take(i + 1).drop_last() == views.take(i as int));
                    assert(views.take(i + 1).last() == stored.sessions@[i as int]@);
                    self.revoke_and_delete_session_auth(stored.sessions[i].session_id.as_str());
                    i = i + 1;
                }
                assert(views.take(i as int) == views);
                true
            },
            Err(_) => false,
        };
        let cleared = StoredAccountSessions::empty(true);
        self.save_unlocked(&cleared);
        listed
    }
}

/// Whether an account that is added is also switched to.
#[derive(Clone, Copy, Debug, PartialEq, Eq, Structural)]
pub enum AccountSessionActivation {
    Activate,
    PreserveCurrent,
}

fn find_same_person(sessions: &Vec<StoredAccountSession>, auth: &AuthDotJson) -> (res: Option<usize>)
    ensures
        match res {
            Some(at) => at < sessions@.len() && same_person(
                sessions::session_views(sessions@),
                auth@,
                0,
            ) == Some(at as int),
            None => same_person(sessions::session_views(sessions@), auth@, 0) is None,
        },
{
    let ghost views = sessions::session_views(sessions@);
    let mut i: usize = 0;
    while i < sessions.len()
        invariant
            i <= sessions@.len(),
            views == sessions::session_views(sessions@),
            same_person(views, auth@, 0) == same_person(views, auth@, i as int),
        decreases sessions@.len() - i,
    {
        assert(views[i as int] == sessions@[i as int]@);
        if sessions::same_identity(&sessions[i], auth) {
            return Some(i);
        }
        i = i + 1;
    }
    None
}

} // verus!
