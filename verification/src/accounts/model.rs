//! Accounts, credentials and usage, as plain values.

use vstd::prelude::*;
use crate::text;

verus! {

/// Why an operation failed.
#[derive(Clone, Copy, Debug, PartialEq, Eq, Structural)]
pub enum ErrorKind {
    NotFound,
    InvalidInput,
    InvalidData,
    PermissionDenied,
    AlreadyExists,
    Interrupted,
    TimedOut,
    Unsupported,
    Other,
}

/// A failure and its message.
#[derive(Debug, PartialEq, Eq)]
pub struct StoreError {
    pub kind: ErrorKind,
    pub message: String,
}

/// The view of a failure.
#[verifier::ext_equal]
pub struct ErrorView {
    pub kind: ErrorKind,
    pub message: Seq<char>,
}

impl View for StoreError {
    type V = ErrorView;

    open spec fn view(&self) -> ErrorView {
        ErrorView { kind: self.kind, message: self.message@ }
    }
}

impl StoreError {
    pub fn new(kind: ErrorKind, message: &str) -> (res: StoreError)
        ensures
            res@ == (ErrorView { kind, message: message@ }),
    {
        StoreError { kind, message: message.to_string() }
    }

    pub fn with(kind: ErrorKind, message: String) -> (res: StoreError)
        ensures
            res@ == (ErrorView { kind, message: message@ }),
    {
        StoreError { kind, message }
    }

    /// A failure of no particular kind.
    pub fn other(message: &str) -> (res: StoreError)
        ensures
            res@ == other_error(message@),
    {
        StoreError { kind: ErrorKind::Other, message: message.to_string() }
    }
}

/// A failure of no particular kind.
pub open spec fn other_error(message: Seq<char>) -> ErrorView {
    ErrorView { kind: ErrorKind::Other, message }
}

/// A plan: the name that the backend gives it and the one that is shown.
#[derive(Debug, PartialEq, Eq)]
pub struct PlanType {
    pub name: String,
    pub label: String,
}

/// The view of a plan.
#[verifier::ext_equal]
pub struct PlanView {
    pub name: Seq<char>,
    pub label: Seq<char>,
}

impl View for PlanType {
    type V = PlanView;

    open spec fn view(&self) -> PlanView {
        PlanView { name: self.name@, label: self.label@ }
    }
}

impl PlanType {
    pub fn copy(&self) -> (res: PlanType)
        ensures
            res == *self,
    {
        PlanType { name: self.name.clone(), label: self.label.clone() }
    }
}

/// Who is signed in.
#[derive(Debug, PartialEq, Eq)]
pub enum Account {
    ApiKey,
    Chatgpt { email: Option<String>, plan_type: PlanType },
    AmazonBedrock { uses_codex_managed_credentials: bool },
}

/// The view of an account.
pub enum AccountView {
    ApiKey,
    Chatgpt { email: Option<Seq<char>>, plan_type: PlanView },
    AmazonBedrock { uses_codex_managed_credentials: bool },
}

impl View for Account {
    type V = AccountView;

    open spec fn view(&self) -> AccountView {
        match self {
            Account::ApiKey => AccountView::ApiKey,
            Account::Chatgpt { email, plan_type } => AccountView::Chatgpt {
                email: text::opt_view(*email),
                plan_type: plan_type@,
            },
            Account::AmazonBedrock { uses_codex_managed_credentials } => AccountView::AmazonBedrock {
                uses_codex_managed_credentials: *uses_codex_managed_credentials,
            },
        }
    }
}

impl Account {
    pub fn copy(&self) -> (res: Account)
        ensures
            res == *self,
    {
        match self {
            Account::ApiKey => Account::ApiKey,
            Account::Chatgpt { email, plan_type } => Account::Chatgpt {
                email: copy_option(email),
                plan_type: plan_type.copy(),
            },
            Account::AmazonBedrock { uses_codex_managed_credentials } => Account::AmazonBedrock {
                uses_codex_managed_credentials: *uses_codex_managed_credentials,
            },
        }
    }
}

/// The view of an optional account.
pub open spec fn opt_account(account: Option<Account>) -> Option<AccountView> {
    match account {
        Some(account) => Some(account@),
        None => None,
    }
}

/// A copy of an optional string.
pub fn copy_option(text: &Option<String>) -> (res: Option<String>)
    ensures
        res == *text,
{
    match text {
        Some(text) => Some(text.clone()),
        None => None,
    }
}

/// A copy of an optional account.
pub fn copy_account(account: &Option<Account>) -> (res: Option<Account>)
    ensures
        res == *account,
{
    match account {
        Some(account) => Some(account.copy()),
        None => None,
    }
}

/// How one is signed in.
#[derive(Clone, Copy, Debug, PartialEq, Eq, Structural)]
pub enum AuthMode {
    ApiKey,
    Chatgpt,
    ChatgptAuthTokens,
    Headers,
    AgentIdentity,
    PersonalAccessToken,
    BedrockApiKey,
    BedrockAccessKeys,
}

/// What an ID token says. `raw` is the token itself.
#[derive(Debug, PartialEq, Eq)]
pub struct IdTokenInfo {
    pub raw: String,
    pub email: Option<String>,
    pub chatgpt_plan_type: Option<String>,
    pub chatgpt_user_id: Option<String>,
    pub chatgpt_account_id: Option<String>,
    pub chatgpt_account_is_fedramp: bool,
}

/// The tokens of a ChatGPT login.
#[derive(Debug, PartialEq, Eq)]
pub struct TokenData {
    pub id_token: IdTokenInfo,
    pub access_token: String,
    pub refresh_token: String,
    pub account_id: Option<String>,
}

/// An agent's identity: a record, or a token that is not opened here. `rest` is what a record holds
/// besides, as it is stored.
#[derive(Debug, PartialEq, Eq)]
pub enum AgentIdentityStorage {
    Record { email: Option<String>, plan_type: PlanType, rest: String },
    Token(String),
}

/// Access keys for Amazon Bedrock.
#[derive(Debug, PartialEq, Eq)]
pub struct BedrockAccessKeys {
    pub access_key_id: String,
    pub secret_access_key: String,
    pub session_token: Option<String>,
}

/// Stored credentials. `last_refresh` counts nanoseconds from the epoch; `bedrock_api_key` is as it
/// is stored.
#[derive(Debug, PartialEq, Eq)]
pub struct AuthDotJson {
    pub auth_mode: Option<AuthMode>,
    pub openai_api_key: Option<String>,
    pub tokens: Option<TokenData>,
    pub last_refresh: Option<i128>,
    pub agent_identity: Option<AgentIdentityStorage>,
    pub personal_access_token: Option<String>,
    pub bedrock_api_key: Option<String>,
    pub bedrock_access_keys: Option<BedrockAccessKeys>,
}

#[verifier::ext_equal]
pub struct IdTokenView {
    pub raw: Seq<char>,
    pub email: Option<Seq<char>>,
    pub chatgpt_plan_type: Option<Seq<char>>,
    pub chatgpt_user_id: Option<Seq<char>>,
    pub chatgpt_account_id: Option<Seq<char>>,
    pub chatgpt_account_is_fedramp: bool,
}

#[verifier::ext_equal]
pub struct TokenView {
    pub id_token: IdTokenView,
    pub access_token: Seq<char>,
    pub refresh_token: Seq<char>,
    pub account_id: Option<Seq<char>>,
}

pub enum AgentIdentityView {
    Record { email: Option<Seq<char>>, plan_type: PlanView, rest: Seq<char> },
    Token(Seq<char>),
}

#[verifier::ext_equal]
pub struct BedrockKeysView {
    pub access_key_id: Seq<char>,
    pub secret_access_key: Seq<char>,
    pub session_token: Option<Seq<char>>,
}

/// The view of stored credentials.
#[verifier::ext_equal]
pub struct AuthView {
    pub auth_mode: Option<AuthMode>,
    pub openai_api_key: Option<Seq<char>>,
    pub tokens: Option<TokenView>,
    pub last_refresh: Option<i128>,
    pub agent_identity: Option<AgentIdentityView>,
    pub personal_access_token: Option<Seq<char>>,
    pub bedrock_api_key: Option<Seq<char>>,
    pub bedrock_access_keys: Option<BedrockKeysView>,
}

impl View for IdTokenInfo {
    type V = IdTokenView;

    open spec fn view(&self) -> IdTokenView {
        IdTokenView {
            raw: self.raw@,
            email: text::opt_view(self.email),
            chatgpt_plan_type: text::opt_view(self.chatgpt_plan_type),
            chatgpt_user_id: text::opt_view(self.chatgpt_user_id),
            chatgpt_account_id: text::opt_view(self.chatgpt_account_id),
            chatgpt_account_is_fedramp: self.chatgpt_account_is_fedramp,
        }
    }
}

impl View for TokenData {
    type V = TokenView;

    open spec fn view(&self) -> TokenView {
        TokenView {
            id_token: self.id_token@,
            access_token: self.access_token@,
            refresh_token: self.refresh_token@,
            account_id: text::opt_view(self.account_id),
        }
    }
}

impl View for AgentIdentityStorage {
    type V = AgentIdentityView;

    open spec fn view(&self) -> AgentIdentityView {
        match self {
            AgentIdentityStorage::Record { email, plan_type, rest } => AgentIdentityView::Record {
                email: text::opt_view(*email),
                plan_type: plan_type@,
                rest: rest@,
            },
            AgentIdentityStorage::Token(token) => AgentIdentityView::Token(token@),
        }
    }
}

impl View for BedrockAccessKeys {
    type V = BedrockKeysView;

    open spec fn view(&self) -> BedrockKeysView {
        BedrockKeysView {
            access_key_id: self.access_key_id@,
            secret_access_key: self.secret_access_key@,
            session_token: text::opt_view(self.session_token),
        }
    }
}

impl View for AuthDotJson {
    type V = AuthView;

    open spec fn view(&self) -> AuthView {
        AuthView {
            auth_mode: self.auth_mode,
            openai_api_key: text::opt_view(self.openai_api_key),
            tokens: match self.tokens {
                Some(tokens) => Some(tokens@),
                None => None,
            },
            last_refresh: self.last_refresh,
            agent_identity: match self.agent_identity {
                Some(identity) => Some(identity@),
                None => None,
            },
            personal_access_token: text::opt_view(self.personal_access_token),
            bedrock_api_key: text::opt_view(self.bedrock_api_key),
            bedrock_access_keys: match self.bedrock_access_keys {
                Some(keys) => Some(keys@),
                None => None,
            },
        }
    }
}

/// The view of optional credentials.
pub open spec fn opt_auth(auth: Option<AuthDotJson>) -> Option<AuthView> {
    match auth {
        Some(auth) => Some(auth@),
        None => None,
    }
}

impl IdTokenInfo {
    fn copy(&self) -> (res: IdTokenInfo)
        ensures
            res == *self,
    {
        IdTokenInfo {
            raw: self.raw.clone(),
            email: copy_option(&self.email),
            chatgpt_plan_type: copy_option(&self.chatgpt_plan_type),
            chatgpt_user_id: copy_option(&self.chatgpt_user_id),
            chatgpt_account_id: copy_option(&self.chatgpt_account_id),
            chatgpt_account_is_fedramp: self.chatgpt_account_is_fedramp,
        }
    }

    fn same(&self, other: &IdTokenInfo) -> (res: bool)
        ensures
            res == (self@ == other@),
    {
        text::same_text(self.raw.as_str(), other.raw.as_str()) && text::same_option(
            &self.email,
            &other.email,
        ) && text::same_option(&self.chatgpt_plan_type, &other.chatgpt_plan_type)
            && text::same_option(&self.chatgpt_user_id, &other.chatgpt_user_id)
            && text::same_option(&self.chatgpt_account_id, &other.chatgpt_account_id)
            && self.chatgpt_account_is_fedramp == other.chatgpt_account_is_fedramp
    }
}

impl TokenData {
    pub fn copy(&self) -> (res: TokenData)
        ensures
            res == *self,
    {
        TokenData {
            id_token: self.id_token.copy(),
            access_token: self.access_token.clone(),
            refresh_token: self.refresh_token.clone(),
            account_id: copy_option(&self.account_id),
        }
    }

    fn same(&self, other: &TokenData) -> (res: bool)
        ensures
            res == (self@ == other@),
    {
        self.id_token.same(&other.id_token) && text::same_text(
            self.access_token.as_str(),
            other.access_token.as_str(),
        ) && text::same_text(self.refresh_token.as_str(), other.refresh_token.as_str())
            && text::same_option(&self.account_id, &other.account_id)
    }
}

impl PlanType {
    pub fn same(&self, other: &PlanType) -> (res: bool)
        ensures
            res == (self@ == other@),
    {
        text::same_text(self.name.as_str(), other.name.as_str()) && text::same_text(
            self.label.as_str(),
            other.label.as_str(),
        )
    }
}

impl AgentIdentityStorage {
    fn copy(&self) -> (res: AgentIdentityStorage)
        ensures
            res == *self,
    {
        match self {
            AgentIdentityStorage::Record { email, plan_type, rest } => AgentIdentityStorage::Record {
                email: copy_option(email),
                plan_type: plan_type.copy(),
                rest: rest.clone(),
            },
            AgentIdentityStorage::Token(token) => AgentIdentityStorage::Token(token.clone()),
        }
    }

    fn same(&self, other: &AgentIdentityStorage) -> (res: bool)
        ensures
            res == (self@ == other@),
    {
        match (self, other) {
            (
                AgentIdentityStorage::Record { email: a, plan_type: p, rest: r },
                AgentIdentityStorage::Record { email: b, plan_type: q, rest: s },
            ) => text::same_option(a, b) && p.same(q) && text::same_text(r.as_str(), s.as_str()),
            (AgentIdentityStorage::Token(a), AgentIdentityStorage::Token(b)) => text::same_text(
                a.as_str(),
                b.as_str(),
            ),
            _ => false,
        }
    }
}

impl BedrockAccessKeys {
    fn copy(&self) -> (res: BedrockAccessKeys)
        ensures
            res == *self,
    {
        BedrockAccessKeys {
            access_key_id: self.access_key_id.clone(),
            secret_access_key: self.secret_access_key.clone(),
            session_token: copy_option(&self.session_token),
        }
    }

    fn same(&self, other: &BedrockAccessKeys) -> (res: bool)
        ensures
            res == (self@ == other@),
    {
        text::same_text(self.access_key_id.as_str(), other.access_key_id.as_str())
            && text::same_text(self.secret_access_key.as_str(), other.secret_access_key.as_str())
            && text::same_option(&self.session_token, &other.session_token)
    }
}

impl AuthDotJson {
    pub fn copy(&self) -> (res: AuthDotJson)
        ensures
            res == *self,
    {
        AuthDotJson {
            auth_mode: self.auth_mode,
            openai_api_key: copy_option(&self.openai_api_key),
            tokens: match &self.tokens {
                Some(tokens) => Some(tokens.copy()),
                None => None,
            },
            last_refresh: self.last_refresh,
            agent_identity: match &self.agent_identity {
                Some(identity) => Some(identity.copy()),
                None => None,
            },
            personal_access_token: copy_option(&self.personal_access_token),
            bedrock_api_key: copy_option(&self.bedrock_api_key),
            bedrock_access_keys: match &self.bedrock_access_keys {
                Some(keys) => Some(keys.copy()),
                None => None,
            },
        }
    }

    /// Whether two sets of credentials are equal in everything but their mode and the time of their
    /// last refresh.
    pub fn same_secrets(&self, other: &AuthDotJson) -> (res: bool)
        ensures
            res == (secrets(self@) == secrets(other@)),
    {
        let tokens = match (&self.tokens, &other.tokens) {
            (Some(a), Some(b)) => a.same(b),
            (None, None) => true,
            _ => false,
        };
        let identity = match (&self.agent_identity, &other.agent_identity) {
            (Some(a), Some(b)) => a.same(b),
            (None, None) => true,
            _ => false,
        };
        let keys = match (&self.bedrock_access_keys, &other.bedrock_access_keys) {
            (Some(a), Some(b)) => a.same(b),
            (None, None) => true,
            _ => false,
        };
        tokens && identity && keys && text::same_option(&self.openai_api_key, &other.openai_api_key)
            && text::same_option(&self.personal_access_token, &other.personal_access_token)
            && text::same_option(&self.bedrock_api_key, &other.bedrock_api_key)
    }

    /// Whether two sets of credentials are equal.
    pub fn same(&self, other: &AuthDotJson) -> (res: bool)
        ensures
            res == (self@ == other@),
    {
        let modes = match (self.auth_mode, other.auth_mode) {
            (Some(a), Some(b)) => a == b,
            (None, None) => true,
            _ => false,
        };
        let refreshed = match (self.last_refresh, other.last_refresh) {
            (Some(a), Some(b)) => a == b,
            (None, None) => true,
            _ => false,
        };
        modes && refreshed && self.same_secrets(other)
    }
}

/// Credentials without their mode and the time of their last refresh.
pub open spec fn secrets(auth: AuthView) -> AuthView {
    AuthView { auth_mode: None, last_refresh: None, ..auth }
}

/// Whether two optional credentials are equal.
pub fn same_opt_auth(a: &Option<AuthDotJson>, b: &AuthDotJson) -> (res: bool)
    ensures
        res == (opt_auth(*a) == Some(b@)),
{
    match a {
        Some(a) => a.same(b),
        None => false,
    }
}

/// A window over which usage is counted.
#[derive(Debug, PartialEq, Eq)]
pub struct RateLimitWindow {
    pub used_percent: i32,
    pub window_duration_mins: Option<i64>,
    pub resets_at: Option<i64>,
}

impl RateLimitWindow {
    pub fn copy(&self) -> (res: RateLimitWindow)
        ensures
            res == *self,
    {
        RateLimitWindow {
            used_percent: self.used_percent,
            window_duration_mins: self.window_duration_mins,
            resets_at: self.resets_at,
        }
    }
}

/// Usage at one time. `rest` is what a snapshot holds besides, as the backend sent it.
#[derive(Debug, PartialEq, Eq)]
pub struct RateLimitSnapshot {
    pub limit_id: Option<String>,
    pub limit_name: Option<String>,
    pub primary: Option<RateLimitWindow>,
    pub secondary: Option<RateLimitWindow>,
    pub plan_type: Option<PlanType>,
    pub rest: String,
}

fn copy_window(window: &Option<RateLimitWindow>) -> (res: Option<RateLimitWindow>)
    ensures
        res == *window,
{
    match window {
        Some(window) => Some(window.copy()),
        None => None,
    }
}

/// A copy of an optional plan.
pub fn copy_plan(plan: &Option<PlanType>) -> (res: Option<PlanType>)
    ensures
        res == *plan,
{
    match plan {
        Some(plan) => Some(plan.copy()),
        None => None,
    }
}

impl RateLimitSnapshot {
    pub fn copy(&self) -> (res: RateLimitSnapshot)
        ensures
            res == *self,
    {
        RateLimitSnapshot {
            limit_id: copy_option(&self.limit_id),
            limit_name: copy_option(&self.limit_name),
            primary: copy_window(&self.primary),
            secondary: copy_window(&self.secondary),
            plan_type: copy_plan(&self.plan_type),
            rest: self.rest.clone(),
        }
    }
}

/// A copy of an optional snapshot.
pub fn copy_snapshot(snapshot: &Option<RateLimitSnapshot>) -> (res: Option<RateLimitSnapshot>)
    ensures
        res == *snapshot,
{
    match snapshot {
        Some(snapshot) => Some(snapshot.copy()),
        None => None,
    }
}

} // verus!
