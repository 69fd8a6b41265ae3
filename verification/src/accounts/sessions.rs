//! Saved accounts: what is kept of each besides its credentials, and how one is found.

use vstd::prelude::*;
use crate::accounts::auth_profiles;
use crate::accounts::auth_profiles::PlanCatalog;
use crate::accounts::model;
use crate::accounts::model::{
    Account, AccountView, AgentIdentityStorage, AgentIdentityView, AuthDotJson, AuthMode, AuthView,
    ErrorKind, ErrorView, RateLimitSnapshot, StoreError,
};
use crate::accounts::order;
use crate::accounts::slots;
use crate::accounts::slots::CredentialSlots;
use crate::ids;
use crate::paths;
use crate::paths::{PathBase, PathView, StorePath};
use crate::text;

verus! {

/// The version of the list of saved accounts.
pub const ACCOUNT_SESSIONS_SCHEMA_VERSION: u32 = 1;

/// The file with the list of saved accounts.
pub const ACCOUNT_SESSIONS_FILE: &'static str = "account-sessions.json";

/// The file that is locked while the list is in use.
pub const ACCOUNT_SESSIONS_LOCK_FILE: &'static str = "account-sessions.lock";

/// The directory of the accounts' credentials.
pub const ACCOUNT_SESSIONS_CREDENTIALS_DIR: &'static str = "account-sessions";

/// What a workspace is.
#[derive(Clone, Copy, Debug, PartialEq, Eq, Structural)]
pub enum WorkspaceKind {
    Personal,
    Workspace,
}

/// A workspace that an account may work in.
#[derive(Debug, PartialEq, Eq)]
pub struct AccountSessionWorkspace {
    pub account_id: String,
    pub name: Option<String>,
    pub image_url: Option<String>,
    pub kind: Option<WorkspaceKind>,
}

/// A workspace as the backend lists it.
#[derive(Debug, PartialEq, Eq)]
pub struct AccountEntry {
    pub id: String,
    pub name: Option<String>,
    pub structure: String,
    pub profile_picture_url: Option<String>,
}

/// The workspaces that the backend lists for an account.
#[derive(Debug, PartialEq, Eq)]
pub struct AccountsCheck {
    pub accounts: Vec<AccountEntry>,
    pub account_ordering: Vec<String>,
    pub default_account_id: Option<String>,
}

/// What is kept of a saved account.
#[derive(Debug, PartialEq, Eq)]
pub struct StoredAccountSession {
    pub session_id: String,
    pub email: Option<String>,
    pub user_id: Option<String>,
    pub display_name: Option<String>,
    pub image_url: Option<String>,
    pub last_used_at: i64,
    pub selected_workspace_account_id: Option<String>,
    pub workspaces: Vec<AccountSessionWorkspace>,
}

/// The list of saved accounts. `legacy_profiles_migrated` says that the named profiles have been
/// taken over, once and for all.
#[derive(Debug, PartialEq, Eq)]
pub struct StoredAccountSessions {
    pub schema_version: u32,
    pub active_session_id: Option<String>,
    pub sessions: Vec<StoredAccountSession>,
    pub legacy_profiles_migrated: bool,
}

/// A saved account, as it is reported.
#[derive(Debug, PartialEq, Eq)]
pub struct AccountSession {
    pub session_id: String,
    pub account: Option<Account>,
    pub rate_limits: Option<RateLimitSnapshot>,
    pub email: Option<String>,
    pub user_id: Option<String>,
    pub display_name: Option<String>,
    pub image_url: Option<String>,
    pub last_used_at: i64,
    pub is_active: bool,
    pub selected_workspace_account_id: Option<String>,
    pub workspaces: Vec<AccountSessionWorkspace>,
}

/// The saved accounts, as they are reported.
#[derive(Debug, PartialEq, Eq)]
pub struct AccountSessionsResponse {
    pub active_session_id: Option<String>,
    pub sessions: Vec<AccountSession>,
}

#[verifier::ext_equal]
pub struct WorkspaceView {
    pub account_id: Seq<char>,
    pub name: Option<Seq<char>>,
    pub image_url: Option<Seq<char>>,
    pub kind: Option<WorkspaceKind>,
}

#[verifier::ext_equal]
pub struct SessionView {
    pub session_id: Seq<char>,
    pub email: Option<Seq<char>>,
    pub user_id: Option<Seq<char>>,
    pub display_name: Option<Seq<char>>,
    pub image_url: Option<Seq<char>>,
    pub last_used_at: int,
    pub selected_workspace_account_id: Option<Seq<char>>,
    pub workspaces: Seq<WorkspaceView>,
}

#[verifier::ext_equal]
pub struct IndexView {
    pub schema_version: u32,
    pub active_session_id: Option<Seq<char>>,
    pub sessions: Seq<SessionView>,
    pub legacy_profiles_migrated: bool,
}

#[verifier::ext_equal]
pub struct ReportedView {
    pub session: SessionView,
    pub account: Option<AccountView>,
    pub rate_limits: Option<RateLimitSnapshot>,
    pub is_active: bool,
}

#[verifier::ext_equal]
pub struct ResponseView {
    pub active_session_id: Option<Seq<char>>,
    pub sessions: Seq<ReportedView>,
}

impl View for AccountSessionWorkspace {
    type V = WorkspaceView;

    open spec fn view(&self) -> WorkspaceView {
        WorkspaceView {
            account_id: self.account_id@,
            name: text::opt_view(self.name),
            image_url: text::opt_view(self.image_url),
            kind: self.kind,
        }
    }
}

/// The views of workspaces.
pub open spec fn workspace_views(workspaces: Seq<AccountSessionWorkspace>) -> Seq<WorkspaceView> {
    workspaces.map_values(|workspace: AccountSessionWorkspace| workspace@)
}

impl View for StoredAccountSession {
    type V = SessionView;

    open spec fn view(&self) -> SessionView {
        SessionView {
            session_id: self.session_id@,
            email: text::opt_view(self.email),
            user_id: text::opt_view(self.user_id),
            display_name: text::opt_view(self.display_name),
            image_url: text::opt_view(self.image_url),
            last_used_at: self.last_used_at as int,
            selected_workspace_account_id: text::opt_view(self.selected_workspace_account_id),
            workspaces: workspace_views(self.workspaces@),
        }
    }
}

/// The views of saved accounts.
pub open spec fn session_views(sessions: Seq<StoredAccountSession>) -> Seq<SessionView> {
    sessions.map_values(|session: StoredAccountSession| session@)
}

impl View for StoredAccountSessions {
    type V = IndexView;

    open spec fn view(&self) -> IndexView {
        IndexView {
            schema_version: self.schema_version,
            active_session_id: text::opt_view(self.active_session_id),
            sessions: session_views(self.sessions@),
            legacy_profiles_migrated: self.legacy_profiles_migrated,
        }
    }
}

impl View for AccountSession {
    type V = ReportedView;

    open spec fn view(&self) -> ReportedView {
        ReportedView {
            session: SessionView {
                session_id: self.session_id@,
                email: text::opt_view(self.email),
                user_id: text::opt_view(self.user_id),
                display_name: text::opt_view(self.display_name),
                image_url: text::opt_view(self.image_url),
                last_used_at: self.last_used_at as int,
                selected_workspace_account_id: text::opt_view(self.selected_workspace_account_id),
                workspaces: workspace_views(self.workspaces@),
            },
            account: model::opt_account(self.account),
            rate_limits: self.rate_limits,
            is_active: self.is_active,
        }
    }
}

/// The views of reported accounts.
pub open spec fn reported_views(sessions: Seq<AccountSession>) -> Seq<ReportedView> {
    sessions.map_values(|session: AccountSession| session@)
}

impl View for AccountSessionsResponse {
    type V = ResponseView;

    open spec fn view(&self) -> ResponseView {
        ResponseView {
            active_session_id: text::opt_view(self.active_session_id),
            sessions: reported_views(self.sessions@),
        }
    }
}

/// A list without accounts.
pub open spec fn empty_index(migrated: bool) -> IndexView {
    IndexView {
        schema_version: ACCOUNT_SESSIONS_SCHEMA_VERSION,
        active_session_id: None,
        sessions: Seq::empty(),
        legacy_profiles_migrated: migrated,
    }
}

impl StoredAccountSessions {
    /// A list without accounts.
    pub fn empty(migrated: bool) -> (res: StoredAccountSessions)
        ensures
            res@ == empty_index(migrated),
    {
        let sessions: Vec<StoredAccountSession> = Vec::new();
        assert(session_views(sessions@) == Seq::<SessionView>::empty());
        StoredAccountSessions {
            schema_version: ACCOUNT_SESSIONS_SCHEMA_VERSION,
            active_session_id: None,
            sessions,
            legacy_profiles_migrated: migrated,
        }
    }

    pub fn copy(&self) -> (res: StoredAccountSessions)
        ensures
            res@ == self@,
    {
        let mut sessions: Vec<StoredAccountSession> = Vec::new();
        let mut i: usize = 0;
        while i < self.sessions.len()
            invariant
                i <= self.sessions@.len(),
                session_views(sessions@) == session_views(self.sessions@).take(i as int),
            decreases self.sessions@.len() - i,
        {
            let ghost before = sessions@;
            let session = self.sessions[i].copy();
            sessions.push(session);
            i = i + 1;
            assert(session_views(sessions@) == session_views(before).push(session@));
            assert(session_views(self.sessions@).take(i as int) == session_views(
                self.sessions@,
            ).take(i - 1).push(self.sessions@[i - 1]@));
        }
        assert(session_views(self.sessions@).take(i as int) == session_views(self.sessions@));
        StoredAccountSessions {
            schema_version: self.schema_version,
            active_session_id: model::copy_option(&self.active_session_id),
            sessions,
            legacy_profiles_migrated: self.legacy_profiles_migrated,
        }
    }
}

impl Default for StoredAccountSessions {
    fn default() -> (res: StoredAccountSessions)
        ensures
            res@ == empty_index(false),
    {
        StoredAccountSessions::empty(false)
    }
}

impl AccountSessionWorkspace {
    pub fn copy(&self) -> (res: AccountSessionWorkspace)
        ensures
            res == *self,
    {
        AccountSessionWorkspace {
            account_id: self.account_id.clone(),
            name: model::copy_option(&self.name),
            image_url: model::copy_option(&self.image_url),
            kind: self.kind,
        }
    }
}

/// A copy of workspaces.
pub fn copy_workspaces(workspaces: &Vec<AccountSessionWorkspace>) -> (res: Vec<
    AccountSessionWorkspace,
>)
    ensures
        workspace_views(res@) == workspace_views(workspaces@),
{
    let mut out: Vec<AccountSessionWorkspace> = Vec::new();
    let mut i: usize = 0;
    while i < workspaces.len()
        invariant
            i <= workspaces@.len(),
            out@ == workspaces@.take(i as int),
        decreases workspaces@.len() - i,
    {
        out.push(workspaces[i].copy());
        i = i + 1;
        assert(workspaces@.take(i as int) == workspaces@.take(i - 1).push(workspaces@[i - 1]));
    }
    assert(workspaces@.take(i as int) == workspaces@);
    out
}

impl StoredAccountSession {
    pub fn copy(&self) -> (res: StoredAccountSession)
        ensures
            res@ == self@,
    {
        StoredAccountSession {
            session_id: self.session_id.clone(),
            email: model::copy_option(&self.email),
            user_id: model::copy_option(&self.user_id),
            display_name: model::copy_option(&self.display_name),
            image_url: model::copy_option(&self.image_url),
            last_used_at: self.last_used_at,
            selected_workspace_account_id: model::copy_option(&self.selected_workspace_account_id),
            workspaces: copy_workspaces(&self.workspaces),
        }
    }
}

/// Where the list of saved accounts is kept.
pub fn path() -> (res: StorePath)
    ensures
        res@ == (PathView { base: PathBase::Home, components: seq![ACCOUNT_SESSIONS_FILE@] }),
{
    StorePath::at(PathBase::Home).join(ACCOUNT_SESSIONS_FILE.to_string())
}

/// Where the credentials of an account are kept.
pub fn session_home(session_id: &str) -> (res: StorePath)
    ensures
        res@ == (PathView {
            base: PathBase::Home,
            components: seq![ACCOUNT_SESSIONS_CREDENTIALS_DIR@, session_id@],
        }),
{
    StorePath::at(PathBase::Home).join(ACCOUNT_SESSIONS_CREDENTIALS_DIR.to_string()).join(
        session_id.to_string(),
    )
}

/// Whether credentials are those of a ChatGPT login that this program manages. A companion API key
/// does not matter where the mode is stated.
pub open spec fn is_managed_chatgpt(auth: AuthView) -> bool {
    (auth.auth_mode == Some(AuthMode::Chatgpt) || auth.auth_mode is None && auth.openai_api_key is None)
        && auth.tokens is Some && auth.agent_identity is None && auth.personal_access_token is None
        && auth.bedrock_api_key is None && auth.bedrock_access_keys is None
}

/// Whether credentials are those of a managed ChatGPT login.
pub fn is_managed_chatgpt_auth_json(auth: &AuthDotJson) -> (res: bool)
    ensures
        res == is_managed_chatgpt(auth@),
{
    let mode = match auth.auth_mode {
        Some(mode) => mode == AuthMode::Chatgpt,
        None => auth.openai_api_key.is_none(),
    };
    mode && auth.tokens.is_some() && auth.agent_identity.is_none()
        && auth.personal_access_token.is_none() && auth.bedrock_api_key.is_none()
        && auth.bedrock_access_keys.is_none()
}

/// Whether credentials are for the person of a saved account: by user ID where both have one, else
/// by e-mail address without regard to case.
pub open spec fn is_same_identity(session: SessionView, auth: AuthView) -> bool {
    match auth.tokens {
        None => false,
        Some(tokens) => match (session.user_id, tokens.id_token.chatgpt_user_id) {
            (Some(saved), Some(active)) => saved == active,
            _ => match (session.email, tokens.id_token.email) {
                (Some(saved), Some(active)) => text::same_ignoring_ascii_case(saved, active),
                _ => false,
            },
        },
    }
}

/// Whether credentials are for the person of a saved account.
pub fn same_identity(session: &StoredAccountSession, auth: &AuthDotJson) -> (res: bool)
    ensures
        res == is_same_identity(session@, auth@),
{
    match &auth.tokens {
        None => false,
        Some(tokens) => match (&session.user_id, &tokens.id_token.chatgpt_user_id) {
            (Some(saved), Some(active)) => text::same_text(saved.as_str(), active.as_str()),
            _ => match (&session.email, &tokens.id_token.email) {
                (Some(saved), Some(active)) => text::eq_ignore_ascii_case(
                    saved.as_str(),
                    active.as_str(),
                ),
                _ => false,
            },
        },
    }
}

/// Whether credentials belong to a saved account with the credentials `saved`: both are managed and
/// for the same person, or they are the same credentials in the same mode.
pub open spec fn belongs_to(session: SessionView, saved: Option<AuthView>, auth: AuthView) -> bool {
    match saved {
        None => false,
        Some(saved) => (is_managed_chatgpt(auth) && is_managed_chatgpt(saved) && is_same_identity(
            session,
            auth,
        )) || (auth_profiles::mode_of(saved) == auth_profiles::mode_of(auth) && model::secrets(
            saved,
        ) == model::secrets(auth)),
    }
}

/// The first account from `from` on that credentials belong to.
pub open spec fn matching_session(
    sessions: Seq<SessionView>,
    slots: Map<Seq<char>, AuthView>,
    auth: AuthView,
    from: int,
) -> Option<int>
    decreases sessions.len() - from,
{
    if from < 0 || from >= sessions.len() {
        None
    } else if belongs_to(
        sessions[from],
        slots::lookup(slots, sessions[from].session_id),
        auth,
    ) {
        Some(from)
    } else {
        matching_session(sessions, slots, auth, from + 1)
    }
}

/// The first account that credentials belong to.
pub fn find_matching_session(
    sessions: &Vec<StoredAccountSession>,
    slots: &CredentialSlots,
    auth: &AuthDotJson,
) -> (res: Option<usize>)
    ensures
        match res {
            Some(at) => at < sessions@.len() && matching_session(
                session_views(sessions@),
                slots@,
                auth@,
                0,
            ) == Some(at as int),
            None => matching_session(session_views(sessions@), slots@, auth@, 0) is None,
        },
{
    let ghost views = session_views(sessions@);
    let mut i: usize = 0;
    while i < sessions.len()
        invariant
            i <= sessions@.len(),
            views == session_views(sessions@),
            matching_session(views, slots@, auth@, 0) == matching_session(
                views,
                slots@,
                auth@,
                i as int,
            ),
        decreases sessions@.len() - i,
    {
        assert(views[i as int] == sessions@[i as int]@);
        match slots.get(sessions[i].session_id.as_str()) {
            Some(saved) => {
                if (is_managed_chatgpt_auth_json(auth) && is_managed_chatgpt_auth_json(&saved)
                    && same_identity(&sessions[i], auth)) || (auth_profiles::auth_mode_from_auth(
                    &saved,
                ) == auth_profiles::auth_mode_from_auth(auth) && saved.same_secrets(auth)) {
                    return Some(i);
                }
            },
            None => {},
        }
        i = i + 1;
    }
    None
}

/// The e-mail address of the account that credentials are for.
pub open spec fn email_of(auth: AuthView) -> Option<Seq<char>> {
    match auth_profiles::mode_of(auth) {
        AuthMode::Chatgpt | AuthMode::ChatgptAuthTokens | AuthMode::PersonalAccessToken => {
            match auth.tokens {
                Some(tokens) => tokens.id_token.email,
                None => None,
            }
        },
        AuthMode::AgentIdentity => match auth.agent_identity {
            Some(AgentIdentityView::Record { email, .. }) => email,
            _ => None,
        },
        _ => None,
    }
}

/// The address of an account is the one it is reported with.
pub proof fn reported_address(auth: AuthView, plans: PlanCatalog)
    ensures
        email_of(auth) == (match auth_profiles::account_of(auth, plans) {
            Some(AccountView::Chatgpt { email, .. }) => email,
            _ => None,
        }),
{
}

fn email_from_auth(auth: &AuthDotJson) -> (res: Option<String>)
    ensures
        text::opt_view(res) == email_of(auth@),
{
    match auth_profiles::resolved_auth_mode(auth) {
        AuthMode::Chatgpt | AuthMode::ChatgptAuthTokens | AuthMode::PersonalAccessToken => {
            match &auth.tokens {
                Some(tokens) => model::copy_option(&tokens.id_token.email),
                None => None,
            }
        },
        AuthMode::AgentIdentity => match &auth.agent_identity {
            Some(AgentIdentityStorage::Record { email, .. }) => model::copy_option(email),
            _ => None,
        },
        _ => None,
    }
}

/// The workspace that credentials are for.
pub open spec fn workspace_of(auth: AuthView) -> Option<Seq<char>> {
    match auth.tokens {
        Some(tokens) => match tokens.account_id {
            Some(id) => Some(id),
            None => tokens.id_token.chatgpt_account_id,
        },
        None => None,
    }
}

/// The user that credentials are for.
pub open spec fn user_of(auth: AuthView) -> Option<Seq<char>> {
    match auth.tokens {
        Some(tokens) => tokens.id_token.chatgpt_user_id,
        None => None,
    }
}

/// What is kept of an account when its credentials are first saved.
pub open spec fn session_of(auth: AuthView, session_id: Seq<char>, now: int) -> SessionView {
    SessionView {
        session_id,
        email: email_of(auth),
        user_id: user_of(auth),
        display_name: None,
        image_url: None,
        last_used_at: now,
        selected_workspace_account_id: workspace_of(auth),
        workspaces: match workspace_of(auth) {
            Some(account_id) => seq![
                WorkspaceView { account_id, name: None, image_url: None, kind: None },
            ],
            None => Seq::empty(),
        },
    }
}

/// What is kept of an account when its credentials are first saved, under the given ID.
pub fn session_with_id(auth: &AuthDotJson, session_id: String, now: i64) -> (res:
    StoredAccountSession)
    ensures
        res@ == session_of(auth@, session_id@, now as int),
        res.session_id@ == session_id@,
{
    let selected = match &auth.tokens {
        Some(tokens) => match &tokens.account_id {
            Some(id) => Some(id.clone()),
            None => model::copy_option(&tokens.id_token.chatgpt_account_id),
        },
        None => None,
    };
    let mut workspaces: Vec<AccountSessionWorkspace> = Vec::new();
    match &selected {
        Some(account_id) => {
            workspaces.push(
                AccountSessionWorkspace {
                    account_id: account_id.clone(),
                    name: None,
                    image_url: None,
                    kind: None,
                },
            );
        },
        None => {},
    }
    let user_id = match &auth.tokens {
        Some(tokens) => model::copy_option(&tokens.id_token.chatgpt_user_id),
        None => None,
    };
    let session = StoredAccountSession {
        session_id,
        email: email_from_auth(auth),
        user_id,
        display_name: None,
        image_url: None,
        last_used_at: now,
        selected_workspace_account_id: selected,
        workspaces,
    };
    assert(workspace_views(workspaces@) =~= session_of(
        auth@,
        session_id@,
        now as int,
    ).workspaces);
    session
}

/// What is kept of an account when its credentials are first saved, under a fresh ID.
pub fn session_from_auth_json(auth: &AuthDotJson, now: i64) -> (res: StoredAccountSession)
    ensures
        res@ == session_of(auth@, res.session_id@, now as int),
        ids::is_uuid_of_version(res.session_id@, 7),
        ids::is_hyphenated_uuid(res.session_id@),
{
    session_with_id(auth, ids::fresh_session_id(), now)
}

/// The workspace that the backend lists.
pub open spec fn listed_workspace(entry: AccountEntry) -> WorkspaceView {
    WorkspaceView {
        account_id: entry.id@,
        name: text::opt_view(entry.name),
        image_url: text::opt_view(entry.profile_picture_url),
        kind: if entry.structure@ == "personal"@ {
            Some(WorkspaceKind::Personal)
        } else if entry.structure@ == "workspace"@ {
            Some(WorkspaceKind::Workspace)
        } else {
            None
        },
    }
}

/// The workspace that the backend lists.
pub fn workspace_from_account(entry: &AccountEntry) -> (res: AccountSessionWorkspace)
    ensures
        res@ == listed_workspace(*entry),
{
    let kind = if text::same_text(entry.structure.as_str(), "personal") {
        Some(WorkspaceKind::Personal)
    } else if text::same_text(entry.structure.as_str(), "workspace") {
        Some(WorkspaceKind::Workspace)
    } else {
        None
    };
    AccountSessionWorkspace {
        account_id: entry.id.clone(),
        name: model::copy_option(&entry.name),
        image_url: model::copy_option(&entry.profile_picture_url),
        kind,
    }
}

/// The workspaces that the backend lists.
pub open spec fn listed_workspaces(entries: Seq<AccountEntry>) -> Seq<WorkspaceView> {
    entries.map_values(|entry: AccountEntry| listed_workspace(entry))
}

/// The workspaces that the backend lists.
pub fn workspaces_from_accounts(entries: &Vec<AccountEntry>) -> (res: Vec<AccountSessionWorkspace>)
    ensures
        workspace_views(res@) == listed_workspaces(entries@),
{
    let mut out: Vec<AccountSessionWorkspace> = Vec::new();
    let mut i: usize = 0;
    while i < entries.len()
        invariant
            i <= entries@.len(),
            workspace_views(out@) == listed_workspaces(entries@).take(i as int),
        decreases entries@.len() - i,
    {
        let ghost before = out@;
        let workspace = workspace_from_account(&entries[i]);
        out.push(workspace);
        i = i + 1;
        assert(workspace_views(out@) == workspace_views(before).push(workspace@));
        assert(listed_workspaces(entries@).take(i as int) == listed_workspaces(entries@).take(
            i - 1,
        ).push(listed_workspace(entries@[i - 1])));
    }
    assert(listed_workspaces(entries@).take(i as int) == listed_workspaces(entries@));
    out
}

/// A saved account with what the backend lists of its workspaces: the selected one is that of its
/// token, else the backend's default, else the first in the backend's order.
pub open spec fn with_workspaces(
    session: SessionView,
    token_account_id: Option<Seq<char>>,
    check: AccountsCheck,
) -> SessionView {
    SessionView {
        selected_workspace_account_id: match (
            token_account_id,
            text::opt_view(check.default_account_id),
        ) {
            (Some(id), _) => Some(id),
            (None, Some(id)) => Some(id),
            (None, None) => if check.account_ordering@.len() > 0 {
                Some(check.account_ordering@[0]@)
            } else {
                None
            },
        },
        workspaces: listed_workspaces(check.accounts@),
        ..session
    }
}

/// Takes over what the backend lists of an account's workspaces.
pub fn refresh_workspace_metadata(
    session: &mut StoredAccountSession,
    token_account_id: &Option<String>,
    check: &AccountsCheck,
)
    ensures
        final(session)@ == with_workspaces(
            old(session)@,
            text::opt_view(*token_account_id),
            *check,
        ),
{
    session.selected_workspace_account_id = match (token_account_id, &check.default_account_id) {
        (Some(id), _) => Some(id.clone()),
        (None, Some(id)) => Some(id.clone()),
        (None, None) => if check.account_ordering.len() > 0 {
            Some(check.account_ordering[0].clone())
        } else {
            None
        },
    };
    session.workspaces = workspaces_from_accounts(&check.accounts);
}

/// The place of the account with an ID.
pub open spec fn place_of(sessions: Seq<SessionView>, id: Seq<char>, from: int) -> Option<int>
    decreases sessions.len() - from,
{
    if from < 0 || from >= sessions.len() {
        None
    } else if sessions[from].session_id == id {
        Some(from)
    } else {
        place_of(sessions, id, from + 1)
    }
}

/// The place of the account with an ID.
pub fn find_session(sessions: &Vec<StoredAccountSession>, id: &str) -> (res: Option<usize>)
    ensures
        match res {
            Some(at) => at < sessions@.len() && place_of(session_views(sessions@), id@, 0) == Some(
                at as int,
            ) && sessions@[at as int].session_id@ == id@,
            None => place_of(session_views(sessions@), id@, 0) is None,
        },
{
    let ghost views = session_views(sessions@);
    let mut i: usize = 0;
    while i < sessions.len()
        invariant
            i <= sessions@.len(),
            views == session_views(sessions@),
            place_of(views, id@, 0) == place_of(views, id@, i as int),
        decreases sessions@.len() - i,
    {
        assert(views[i as int] == sessions@[i as int]@);
        if text::same_text(sessions[i].session_id.as_str(), id) {
            return Some(i);
        }
        i = i + 1;
    }
    None
}

/// Whether an account has the e-mail address `address`, without regard to case.
pub open spec fn has_address(session: SessionView, address: Seq<char>) -> bool {
    session.email matches Some(email) && text::same_ignoring_ascii_case(email, address)
}

/// The places of the accounts with an e-mail address, in order.
pub open spec fn places_with_address(sessions: Seq<SessionView>, address: Seq<char>) -> Seq<int>
    decreases sessions.len(),
{
    if sessions.len() == 0 {
        Seq::empty()
    } else {
        let before = places_with_address(sessions.drop_last(), address);
        if has_address(sessions.last(), address) {
            before.push(sessions.len() - 1)
        } else {
            before
        }
    }
}

/// The account that a selector names: the one with that ID, else the only one with that e-mail
/// address.
pub open spec fn resolved(sessions: Seq<SessionView>, selector: Seq<char>) -> Result<
    int,
    ErrorView,
> {
    match place_of(sessions, selector, 0) {
        Some(place) => Ok(place),
        None => {
            let places = places_with_address(sessions, selector);
            if places.len() == 0 {
                Err(
                    ErrorView {
                        kind: ErrorKind::NotFound,
                        message: "Saved account "@ + text::str_debug(selector)
                            + " not found; use /account to list accounts"@,
                    },
                )
            } else if places.len() > 1 {
                Err(
                    ErrorView {
                        kind: ErrorKind::InvalidInput,
                        message: "More than one saved account matches "@ + text::str_debug(selector)
                            + "; select its account ID"@,
                    },
                )
            } else {
                Ok(places[0])
            }
        },
    }
}

pub proof fn lemma_places_with_address(sessions: Seq<SessionView>, address: Seq<char>)
    ensures
        forall|i: int|
            0 <= i < places_with_address(sessions, address).len() ==> 0 <= (
            #[trigger] places_with_address(sessions, address)[i]) < sessions.len() && has_address(
                sessions[places_with_address(sessions, address)[i]],
                address,
            ),
    decreases sessions.len(),
{
    if sessions.len() > 0 {
        let first = sessions.drop_last();
        lemma_places_with_address(first, address);
        assert forall|i: int| 0 <= i < places_with_address(sessions, address).len() implies 0 <= (
        #[trigger] places_with_address(sessions, address)[i]) < sessions.len() && has_address(
            sessions[places_with_address(sessions, address)[i]],
            address,
        ) by {
            if i < places_with_address(first, address).len() {
                assert(places_with_address(sessions, address)[i] == places_with_address(
                    first,
                    address,
                )[i]);
            }
        }
    }
}

pub proof fn lemma_place_of(sessions: Seq<SessionView>, id: Seq<char>, from: int)
    ensures
        place_of(sessions, id, from) matches Some(at) ==> from <= at < sessions.len()
            && sessions[at].session_id == id,
        place_of(sessions, id, from) is None && from >= 0 ==> forall|i: int|
            from <= i < sessions.len() ==> (#[trigger] sessions[i]).session_id != id,
    decreases sessions.len() - from,
{
    if 0 <= from < sessions.len() && sessions[from].session_id != id {
        lemma_place_of(sessions, id, from + 1);
    }
}

/// A selector names an account of the list: the one with that ID, or one with that address that no
/// other account has.
pub proof fn selectors_name_one_account(sessions: Seq<SessionView>, selector: Seq<char>)
    requires
        resolved(sessions, selector) is Ok,
    ensures
        0 <= resolved(sessions, selector)->Ok_0 < sessions.len(),
        sessions[resolved(sessions, selector)->Ok_0].session_id == selector || (has_address(
            sessions[resolved(sessions, selector)->Ok_0],
            selector,
        ) && forall|i: int|
            0 <= i < sessions.len() && has_address(#[trigger] sessions[i], selector) ==> i
                == resolved(sessions, selector)->Ok_0),
{
    lemma_place_of(sessions, selector, 0);
    lemma_places_with_address(sessions, selector);
    if place_of(sessions, selector, 0) is None {
        assert forall|i: int| 0 <= i < sessions.len() && has_address(
            #[trigger] sessions[i],
            selector,
        ) implies i == resolved(sessions, selector)->Ok_0 by {
            lemma_address_is_listed(sessions, selector, i);
        }
    }
}

pub proof fn lemma_address_is_listed(sessions: Seq<SessionView>, address: Seq<char>, at: int)
    requires
        0 <= at < sessions.len(),
        has_address(sessions[at], address),
    ensures
        places_with_address(sessions, address).contains(at),
    decreases sessions.len(),
{
    let first = sessions.drop_last();
    let places = places_with_address(sessions, address);
    if at == sessions.len() - 1 {
        assert(places[places.len() - 1] == at);
    } else {
        assert(first[at] == sessions[at]);
        lemma_address_is_listed(first, address, at);
        let i = choose|i: int|
            0 <= i < places_with_address(first, address).len() && places_with_address(
                first,
                address,
            )[i] == at;
        assert(places[i] == at);
    }
}

/// The account that a selector names, by its ID or its e-mail address.
pub fn resolve_session_id(sessions: &Vec<StoredAccountSession>, selector: &str) -> (res: Result<
    usize,
    StoreError,
>)
    ensures
        match res {
            Ok(place) => place < sessions@.len() && resolved(session_views(sessions@), selector@)
                == Ok::<int, ErrorView>(place as int),
            Err(error) => resolved(session_views(sessions@), selector@) == Err::<int, ErrorView>(
                error@,
            ),
        },
{
    match find_session(sessions, selector) {
        Some(place) => {
            return Ok(place);
        },
        None => {},
    }
    let ghost views = session_views(sessions@);
    let mut places: Vec<usize> = Vec::new();
    let mut i: usize = 0;
    while i < sessions.len()
        invariant
            i <= sessions@.len(),
            views == session_views(sessions@),
            places@.map_values(|place: usize| place as int) == places_with_address(
                views.take(i as int),
                selector@,
            ),
        decreases sessions@.len() - i,
    {
        assert(views.take(i + 1).drop_last() == views.take(i as int));
        assert(views.take(i + 1).last() == sessions@[i as int]@);
        let ghost before = places@;
        match &sessions[i].email {
            Some(email) => {
                if text::eq_ignore_ascii_case(email.as_str(), selector) {
                    places.push(i);
                    assert(places@.map_values(|place: usize| place as int) == before.map_values(
                        |place: usize| place as int,
                    ).push(i as int));
                }
            },
            None => {},
        }
        i = i + 1;
    }
    assert(views.take(i as int) == views);
    proof {
        lemma_places_with_address(views, selector@);
        assert(places@.len() == places_with_address(views, selector@).len());
        if places@.len() > 0 {
            assert(places@.map_values(|place: usize| place as int)[0] == places_with_address(
                views,
                selector@,
            )[0]);
        }
    }
    let shown = text::debug_str(selector);
    if places.len() == 0 {
        return Err(
            StoreError::with(
                ErrorKind::NotFound,
                text::joined3(
                    "Saved account ",
                    shown.as_str(),
                    " not found; use /account to list accounts",
                ),
            ),
        );
    }
    if places.len() > 1 {
        return Err(
            StoreError::with(
                ErrorKind::InvalidInput,
                text::joined3(
                    "More than one saved account matches ",
                    shown.as_str(),
                    "; select its account ID",
                ),
            ),
        );
    }
    Ok(places[0])
}

/// The account that was used last, the later one of two of the same time.
pub open spec fn newest(sessions: Seq<SessionView>) -> Option<int>
    decreases sessions.len(),
{
    if sessions.len() == 0 {
        None
    } else {
        match newest(sessions.drop_last()) {
            Some(best) => if sessions[best].last_used_at > sessions.last().last_used_at {
                Some(best)
            } else {
                Some(sessions.len() - 1)
            },
            None => Some(sessions.len() - 1),
        }
    }
}

/// The account that was used last.
pub fn newest_session(sessions: &Vec<StoredAccountSession>) -> (res: Option<usize>)
    ensures
        match res {
            Some(at) => at < sessions@.len() && newest(session_views(sessions@)) == Some(at as int),
            None => newest(session_views(sessions@)) is None,
        },
{
    let ghost views = session_views(sessions@);
    let mut best: Option<usize> = None;
    let mut i: usize = 0;
    while i < sessions.len()
        invariant
            i <= sessions@.len(),
            views == session_views(sessions@),
            match best {
                Some(at) => at < i && newest(views.take(i as int)) == Some(at as int),
                None => newest(views.take(i as int)) is None,
            },
        decreases sessions@.len() - i,
    {
        assert(views.take(i + 1).drop_last() == views.take(i as int));
        assert(views.take(i + 1).last() == sessions@[i as int]@);
        match best {
            Some(at) => {
                assert(views.take(i + 1)[at as int] == sessions@[at as int]@);
                if sessions[at].last_used_at <= sessions[i].last_used_at {
                    best = Some(i);
                }
            },
            None => {
                best = Some(i);
            },
        }
        i = i + 1;
    }
    assert(views.take(i as int) == views);
    best
}

/// How an account is reported.
pub open spec fn reported(
    session: SessionView,
    active: Option<Seq<char>>,
    slots: Map<Seq<char>, AuthView>,
    plans: PlanCatalog,
) -> ReportedView {
    ReportedView {
        session,
        account: match slots::lookup(slots, session.session_id) {
            Some(auth) => auth_profiles::account_of(auth, plans),
            None => None,
        },
        rate_limits: None,
        is_active: active == Some(session.session_id),
    }
}

/// When a reported account was last used.
pub open spec fn used_at() -> spec_fn(ReportedView) -> int {
    |reported: ReportedView| reported.session.last_used_at
}

/// How the saved accounts are reported: those used last come first.
pub open spec fn response_of(
    index: IndexView,
    slots: Map<Seq<char>, AuthView>,
    plans: PlanCatalog,
) -> ResponseView {
    ResponseView {
        active_session_id: index.active_session_id,
        sessions: order::sort_newest(
            index.sessions.map_values(
                |session: SessionView| reported(session, index.active_session_id, slots, plans),
            ),
            used_at(),
        ),
    }
}

fn report(
    session: &StoredAccountSession,
    active: &Option<String>,
    slots: &CredentialSlots,
    plans: &PlanCatalog,
) -> (res: AccountSession)
    ensures
        res@ == reported(session@, text::opt_view(*active), slots@, *plans),
{
    let account = match slots.get(session.session_id.as_str()) {
        Some(auth) => auth_profiles::account_from_auth(&auth, plans),
        None => None,
    };
    let is_active = match active {
        Some(active) => text::same_text(active.as_str(), session.session_id.as_str()),
        None => false,
    };
    AccountSession {
        session_id: session.session_id.clone(),
        account,
        rate_limits: None,
        email: model::copy_option(&session.email),
        user_id: model::copy_option(&session.user_id),
        display_name: model::copy_option(&session.display_name),
        image_url: model::copy_option(&session.image_url),
        last_used_at: session.last_used_at,
        is_active,
        selected_workspace_account_id: model::copy_option(&session.selected_workspace_account_id),
        workspaces: copy_workspaces(&session.workspaces),
    }
}

fn insert_reported(sessions: &mut Vec<AccountSession>, session: AccountSession)
    ensures
        reported_views(final(sessions)@) == order::insert_newest(
            reported_views(old(sessions)@),
            session@,
            used_at(),
        ),
{
    let ghost before = sessions@;
    let ghost views = reported_views(before);
    let mut place: usize = sessions.len();
    while place > 0 && sessions[place - 1].last_used_at < session.last_used_at
        invariant
            place <= sessions@.len(),
            sessions@ == before,
            views == reported_views(before),
            forall|i: int|
                place <= i < views.len() ==> used_at()(#[trigger] views[i]) < used_at()(session@),
        decreases place,
    {
        place = place - 1;
        assert(views[place as int] == before[place as int]@);
    }
    proof {
        if place > 0 {
            assert(views[place - 1] == before[place - 1]@);
        }
        order::lemma_insert_place(views, session@, used_at(), place as int);
    }
    sessions.insert(place, session);
    assert(reported_views(sessions@) =~= views.insert(place as int, session@));
}

/// Reports the saved accounts.
pub fn response(stored: &StoredAccountSessions, slots: &CredentialSlots, plans: &PlanCatalog) -> (res:
    AccountSessionsResponse)
    ensures
        res@ == response_of(stored@, slots@, *plans),
{
    let ghost index = stored@;
    let ghost all = index.sessions.map_values(
        |session: SessionView| reported(session, index.active_session_id, slots@, *plans),
    );
    let mut sessions: Vec<AccountSession> = Vec::new();
    let mut i: usize = 0;
    assert(reported_views(sessions@) == Seq::<ReportedView>::empty());
    while i < stored.sessions.len()
        invariant
            i <= stored.sessions@.len(),
            index == stored@,
            all == index.sessions.map_values(
                |session: SessionView| reported(session, index.active_session_id, slots@, *plans),
            ),
            reported_views(sessions@) == order::sort_newest(all.take(i as int), used_at()),
        decreases stored.sessions@.len() - i,
    {
        let session = report(&stored.sessions[i], &stored.active_session_id, slots, plans);
        assert(all.take(i + 1).drop_last() == all.take(i as int));
        assert(all.take(i + 1).last() == session@);
        insert_reported(&mut sessions, session);
        i = i + 1;
    }
    assert(all.take(i as int) == all);
    AccountSessionsResponse {
        active_session_id: model::copy_option(&stored.active_session_id),
        sessions,
    }
}

/// Whether the list is one that can be worked with: its version is known, no ID leads out of the
/// directory that the credentials are in, and the current account is in the list.
pub open spec fn index_problem(index: IndexView) -> Option<ErrorView> {
    if index.schema_version != ACCOUNT_SESSIONS_SCHEMA_VERSION {
        Some(
            model::other_error(
                "unsupported account session schema version "@ + text::decimal(
                    index.schema_version as int,
                ),
            ),
        )
    } else if exists|i: int|
        0 <= i < index.sessions.len() && !paths::stays_below(
            (#[trigger] index.sessions[i]).session_id,
        ) {
        Some(
            ErrorView {
                kind: ErrorKind::InvalidData,
                message: "account session metadata contains an invalid session ID"@,
            },
        )
    } else if index.active_session_id matches Some(active) && place_of(
        index.sessions,
        active,
        0,
    ) is None {
        Some(
            model::other_error(
                "active account session is missing from account session metadata"@,
            ),
        )
    } else {
        None
    }
}

/// Checks a list that was read.
pub fn check_index(stored: &StoredAccountSessions) -> (res: Result<(), StoreError>)
    ensures
        match res {
            Ok(_) => index_problem(stored@) is None,
            Err(error) => index_problem(stored@) == Some(error@),
        },
{
    if stored.schema_version != ACCOUNT_SESSIONS_SCHEMA_VERSION {
        let version = text::decimal_of(stored.schema_version as u64);
        return Err(
            StoreError::with(
                ErrorKind::Other,
                text::joined("unsupported account session schema version ", version.as_str()),
            ),
        );
    }
    let ghost views = session_views(stored.sessions@);
    let mut i: usize = 0;
    while i < stored.sessions.len()
        invariant
            i <= stored.sessions@.len(),
            views == session_views(stored.sessions@),
            stored.schema_version == ACCOUNT_SESSIONS_SCHEMA_VERSION,
            forall|j: int|
                0 <= j < i ==> paths::stays_below(
                    (#[trigger] views[j]).session_id,
                ),
        decreases stored.sessions@.len() - i,
    {
        if !paths::stays_below_directory(stored.sessions[i].session_id.as_str()) {
            assert(!paths::stays_below(stored@.sessions[i as int].session_id));
            return Err(
                StoreError::new(
                    ErrorKind::InvalidData,
                    "account session metadata contains an invalid session ID",
                ),
            );
        }
        i = i + 1;
    }
    match &stored.active_session_id {
        Some(active) => match find_session(&stored.sessions, active.as_str()) {
            Some(_) => {},
            None => {
                return Err(
                    StoreError::other(
                        "active account session is missing from account session metadata",
                    ),
                );
            },
        },
        None => {},
    }
    Ok(())
}

/// The account that was used last is one of the list, and no other was used later; of several that
/// were used at that time it is the last of the list.
pub proof fn no_account_was_used_later(sessions: Seq<SessionView>)
    ensures
        newest(sessions) is None <==> sessions.len() == 0,
        newest(sessions) matches Some(at) ==> 0 <= at < sessions.len() && forall|i: int|
            0 <= i < sessions.len() ==> (#[trigger] sessions[i]).last_used_at
                <= sessions[at].last_used_at && (i > at ==> sessions[i].last_used_at
                < sessions[at].last_used_at),
    decreases sessions.len(),
{
    if sessions.len() > 0 {
        let first = sessions.drop_last();
        no_account_was_used_later(first);
        assert forall|i: int| 0 <= i < sessions.len() implies (#[trigger] sessions[i]).last_used_at
            <= sessions[newest(sessions)->0].last_used_at && (i > newest(sessions)->0
            ==> sessions[i].last_used_at < sessions[newest(sessions)->0].last_used_at) by {
            if i < first.len() {
                assert(first[i] == sessions[i]);
            }
        }
    }
}

} // verus!
