//! Logins: which may be started, which one is under way, and how it ends.

use vstd::prelude::*;
use crate::accounts::auth_profiles;
use crate::accounts::auth_profiles::PlanCatalog;
use crate::accounts::backend;
use crate::accounts::backend::CurrentAuth;
use crate::accounts::model;
use crate::accounts::model::{
    Account, AuthDotJson, AuthMode, ErrorKind, ErrorView, PlanType, PlanView, StoreError,
};
use crate::accounts::operations::{AccountSessionActivation, LoginPolicy};
use crate::accounts::rotation;
use crate::accounts::rotation::AuthProfileSummary;
use crate::accounts::rpc;
use crate::accounts::rpc::{RpcError, RpcErrorView};
use crate::ids;
use crate::text;

verus! {

/// How the program is signed in, as far as logins go.
#[derive(Debug, PartialEq, Eq)]
pub struct AuthSituation {
    /// The host signs the program in, and no request may change that.
    pub workload_identity_selected: bool,
    /// The program was handed tokens from outside.
    pub external_chatgpt_auth_active: bool,
    pub policy: LoginPolicy,
}

/// Where the tokens of a login go.
#[derive(Clone, Copy, Debug, PartialEq, Eq, Structural)]
pub enum ChatgptLoginDestination {
    Activate,
    AddWithoutSwitching,
}

/// Under which name the page after a login is shown.
#[derive(Clone, Copy, Debug, PartialEq, Eq, Structural)]
pub enum LoginAppBrand {
    Codex,
    Chatgpt,
}

/// What a login is asked for with.
#[derive(Debug, PartialEq, Eq)]
pub enum LoginAccountParams {
    ApiKey { api_key: String },
    Chatgpt {
        app_brand: Option<LoginAppBrand>,
        codex_streamlined_login: bool,
        use_hosted_login_success_page: bool,
    },
    ChatgptDeviceCode,
    ChatgptAuthTokens {
        access_token: String,
        chatgpt_account_id: String,
        chatgpt_plan_type: Option<String>,
    },
    AmazonBedrock { api_key: String, region: String },
    AmazonBedrockAccessKeys {
        access_key_id: String,
        secret_access_key: String,
        session_token: Option<String>,
        region: String,
    },
}

/// The page that is shown after a login.
#[derive(Clone, Copy, Debug, PartialEq, Eq, Structural)]
pub enum LoginSuccessPage {
    Local,
    Hosted(LoginAppBrand),
}

/// Credentials for Amazon Bedrock, as they are handed in.
#[derive(Debug, PartialEq, Eq)]
pub enum BedrockLoginCredentials {
    ApiKey(String),
    AccessKeys {
        access_key_id: String,
        secret_access_key: String,
        session_token: Option<String>,
    },
}

/// The kind of login that is asked for.
#[derive(Debug, PartialEq, Eq)]
pub enum LoginRoute {
    ApiKey(String),
    Browser { codex_streamlined_login: bool, success_page: LoginSuccessPage },
    DeviceCode,
    AuthTokens {
        access_token: String,
        chatgpt_account_id: String,
        chatgpt_plan_type: Option<String>,
    },
    Bedrock { credentials: BedrockLoginCredentials, region: String },
}

/// The failure where the host signs the program in.
pub open spec fn host_owned() -> RpcErrorView {
    rpc::bad_request(
        "Configured external authentication is owned by the app-server host and cannot be changed through account RPCs."@,
    )
}

/// The failure where the program was handed tokens from outside.
pub open spec fn external_active() -> RpcErrorView {
    rpc::bad_request(
        "External auth is active. Use account/login/start (chatgptAuthTokens) to update it or account/logout to clear it."@,
    )
}

pub fn configured_auth_owned_by_host_error() -> (res: RpcError)
    ensures
        res@ == host_owned(),
{
    rpc::invalid_request(
        "Configured external authentication is owned by the app-server host and cannot be changed through account RPCs.",
    )
}

pub fn external_auth_active_error() -> (res: RpcError)
    ensures
        res@ == external_active(),
{
    rpc::invalid_request(
        "External auth is active. Use account/login/start (chatgptAuthTokens) to update it or account/logout to clear it.",
    )
}

/// The kind of login that parameters ask for.
pub open spec fn route_of(params: LoginAccountParams) -> LoginRoute {
    match params {
        LoginAccountParams::ApiKey { api_key } => LoginRoute::ApiKey(api_key),
        LoginAccountParams::Chatgpt {
            app_brand,
            codex_streamlined_login,
            use_hosted_login_success_page,
        } => LoginRoute::Browser {
            codex_streamlined_login,
            success_page: if use_hosted_login_success_page {
                LoginSuccessPage::Hosted(
                    match app_brand {
                        Some(brand) => brand,
                        None => LoginAppBrand::Codex,
                    },
                )
            } else {
                LoginSuccessPage::Local
            },
        },
        LoginAccountParams::ChatgptDeviceCode => LoginRoute::DeviceCode,
        LoginAccountParams::ChatgptAuthTokens {
            access_token,
            chatgpt_account_id,
            chatgpt_plan_type,
        } => LoginRoute::AuthTokens { access_token, chatgpt_account_id, chatgpt_plan_type },
        LoginAccountParams::AmazonBedrock { api_key, region } => LoginRoute::Bedrock {
            credentials: BedrockLoginCredentials::ApiKey(api_key),
            region,
        },
        LoginAccountParams::AmazonBedrockAccessKeys {
            access_key_id,
            secret_access_key,
            session_token,
            region,
        } => LoginRoute::Bedrock {
            credentials: BedrockLoginCredentials::AccessKeys {
                access_key_id,
                secret_access_key,
                session_token,
            },
            region,
        },
    }
}

/// Decides which kind of login is asked for.
pub fn login_v2(situation: &AuthSituation, params: LoginAccountParams) -> (res: Result<
    LoginRoute,
    RpcError,
>)
    ensures
        match res {
            Ok(route) => !situation.workload_identity_selected && route == route_of(params),
            Err(error) => situation.workload_identity_selected && error@ == host_owned(),
        },
{
    if situation.workload_identity_selected {
        return Err(configured_auth_owned_by_host_error());
    }
    Ok(
        match params {
            LoginAccountParams::ApiKey { api_key } => LoginRoute::ApiKey(api_key),
            LoginAccountParams::Chatgpt {
                app_brand,
                codex_streamlined_login,
                use_hosted_login_success_page,
            } => {
                let success_page = if use_hosted_login_success_page {
                    LoginSuccessPage::Hosted(
                        match app_brand {
                            Some(brand) => brand,
                            None => LoginAppBrand::Codex,
                        },
                    )
                } else {
                    LoginSuccessPage::Local
                };
                LoginRoute::Browser { codex_streamlined_login, success_page }
            },
            LoginAccountParams::ChatgptDeviceCode => LoginRoute::DeviceCode,
            LoginAccountParams::ChatgptAuthTokens {
                access_token,
                chatgpt_account_id,
                chatgpt_plan_type,
            } => LoginRoute::AuthTokens { access_token, chatgpt_account_id, chatgpt_plan_type },
            LoginAccountParams::AmazonBedrock { api_key, region } => LoginRoute::Bedrock {
                credentials: BedrockLoginCredentials::ApiKey(api_key),
                region,
            },
            LoginAccountParams::AmazonBedrockAccessKeys {
                access_key_id,
                secret_access_key,
                session_token,
                region,
            } => LoginRoute::Bedrock {
                credentials: BedrockLoginCredentials::AccessKeys {
                    access_key_id,
                    secret_access_key,
                    session_token,
                },
                region,
            },
        },
    )
}

/// Whether a login yields an account that can be saved beside others.
pub open spec fn is_managed_login(params: LoginAccountParams) -> bool {
    params is Chatgpt || params is ChatgptDeviceCode
}

/// Checks that a login yields an account that can be saved beside others.
pub fn login_account_session(params: &LoginAccountParams) -> (res: Result<(), RpcError>)
    ensures
        match res {
            Ok(_) => is_managed_login(*params),
            Err(error) => !is_managed_login(*params) && error@ == rpc::bad_request(
                "account sessions support only Codex-managed ChatGPT login"@,
            ),
        },
{
    match params {
        LoginAccountParams::Chatgpt { .. } => Ok(()),
        LoginAccountParams::ChatgptDeviceCode => Ok(()),
        _ => Err(
            rpc::invalid_request("account sessions support only Codex-managed ChatGPT login"),
        ),
    }
}

/// Why a login with an API key is refused, if it is.
pub open spec fn api_key_problem(situation: AuthSituation) -> Option<RpcErrorView> {
    if situation.external_chatgpt_auth_active {
        Some(external_active())
    } else if !situation.policy.api_allowed {
        Some(rpc::bad_request("API key login is disabled. Use ChatGPT login instead."@))
    } else {
        None
    }
}

/// Checks that a login with an API key is allowed.
pub fn login_api_key_common(situation: &AuthSituation) -> (res: Result<(), RpcError>)
    ensures
        match res {
            Ok(_) => api_key_problem(*situation) is None,
            Err(error) => api_key_problem(*situation) == Some(error@),
        },
{
    if situation.external_chatgpt_auth_active {
        return Err(external_auth_active_error());
    }
    if !situation.policy.api_allowed {
        return Err(
            rpc::invalid_request("API key login is disabled. Use ChatGPT login instead."),
        );
    }
    Ok(())
}

/// Why a ChatGPT login is refused, if it is.
pub open spec fn chatgpt_problem(situation: AuthSituation) -> Option<RpcErrorView> {
    if situation.external_chatgpt_auth_active {
        Some(external_active())
    } else if !situation.policy.chatgpt_allowed {
        Some(rpc::bad_request("ChatGPT login is disabled. Use API key login instead."@))
    } else {
        None
    }
}

/// Checks that a ChatGPT login is allowed; gives the issuer to use in the place of the usual one, if
/// there is one that is not blank.
pub fn login_chatgpt_common(situation: &AuthSituation, issuer: Option<String>) -> (res: Result<
    Option<String>,
    RpcError,
>)
    ensures
        match res {
            Ok(chosen) => chatgpt_problem(*situation) is None && chosen == (match issuer {
                Some(content) if text::trim(content@).len() > 0 => Some(content),
                _ => None,
            }),
            Err(error) => chatgpt_problem(*situation) == Some(error@),
        },
{
    if situation.external_chatgpt_auth_active {
        return Err(external_auth_active_error());
    }
    if !situation.policy.chatgpt_allowed {
        return Err(
            rpc::invalid_request("ChatGPT login is disabled. Use API key login instead."),
        );
    }
    match issuer {
        Some(content) => if text::is_blank(content.as_str()) {
            Ok(None)
        } else {
            Ok(Some(content))
        },
        None => Ok(None),
    }
}

/// Why a Bedrock login is refused, if it is.
pub open spec fn bedrock_problem(situation: AuthSituation) -> Option<RpcErrorView> {
    if situation.workload_identity_selected {
        Some(host_owned())
    } else if situation.external_chatgpt_auth_active {
        Some(external_active())
    } else if !situation.policy.api_allowed {
        Some(rpc::bad_request("Amazon Bedrock login is disabled. Use ChatGPT login instead."@))
    } else {
        None
    }
}

/// Checks that a Bedrock login is allowed.
pub fn ensure_bedrock_login_allowed(situation: &AuthSituation) -> (res: Result<(), RpcError>)
    ensures
        match res {
            Ok(_) => bedrock_problem(*situation) is None,
            Err(error) => bedrock_problem(*situation) == Some(error@),
        },
{
    if situation.workload_identity_selected {
        return Err(configured_auth_owned_by_host_error());
    }
    if situation.external_chatgpt_auth_active {
        return Err(external_auth_active_error());
    }
    if !situation.policy.api_allowed {
        return Err(
            rpc::invalid_request("Amazon Bedrock login is disabled. Use ChatGPT login instead."),
        );
    }
    Ok(())
}

/// What credentials for Bedrock lack, if anything.
pub open spec fn credentials_problem(credentials: BedrockLoginCredentials) -> Option<RpcErrorView> {
    match credentials {
        BedrockLoginCredentials::ApiKey(api_key) => if text::trim(api_key@).len() == 0 {
            Some(rpc::bad_request("Amazon Bedrock API key must not be empty."@))
        } else {
            None
        },
        BedrockLoginCredentials::AccessKeys { access_key_id, secret_access_key, .. } => {
            if text::trim(access_key_id@).len() == 0 || text::trim(secret_access_key@).len() == 0 {
                Some(
                    rpc::bad_request(
                        "AWS access key ID and secret access key must not be empty."@,
                    ),
                )
            } else {
                None
            }
        },
    }
}

/// Why a login with Bedrock credentials for a region is refused, if it is.
pub open spec fn bedrock_login_problem(
    situation: AuthSituation,
    credentials: BedrockLoginCredentials,
    region: Seq<char>,
    supported: Seq<Seq<char>>,
) -> Option<RpcErrorView> {
    match bedrock_problem(situation) {
        Some(error) => Some(error),
        None => match credentials_problem(credentials) {
            Some(error) => Some(error),
            None => if !supported.contains(text::trim(region)) {
                Some(
                    rpc::bad_request(
                        "Amazon Bedrock does not support region `"@ + text::trim(region) + "`"@,
                    ),
                )
            } else {
                None
            },
        },
    }
}

/// A Bedrock login that may go ahead: what to save, and how to set up the provider. The provider gets
/// a region of its own only with access keys.
#[derive(Debug, PartialEq, Eq)]
pub struct PreparedBedrockLogin {
    pub region: String,
    pub provider_region: Option<String>,
    pub credentials: BedrockLoginCredentials,
}

/// Whether credentials are saved as handed in, without white space around them. A blank session token
/// is none.
pub open spec fn is_trimmed(saved: BedrockLoginCredentials, given: BedrockLoginCredentials) -> bool {
    match (saved, given) {
        (BedrockLoginCredentials::ApiKey(saved), BedrockLoginCredentials::ApiKey(given)) => saved@
            == text::trim(given@),
        (
            BedrockLoginCredentials::AccessKeys {
                access_key_id: saved_id,
                secret_access_key: saved_secret,
                session_token: saved_token,
            },
            BedrockLoginCredentials::AccessKeys {
                access_key_id: id,
                secret_access_key: secret,
                session_token: token,
            },
        ) => {
            &&& saved_id@ == text::trim(id@)
            &&& saved_secret@ == text::trim(secret@)
            &&& text::opt_view(saved_token) == (match token {
                Some(token) if text::trim(token@).len() > 0 => Some(text::trim(token@)),
                _ => None,
            })
        },
        _ => false,
    }
}

/// Prepares a login with Bedrock credentials.
pub fn login_amazon_bedrock_v2(
    situation: &AuthSituation,
    credentials: BedrockLoginCredentials,
    region: &str,
    supported: &Vec<String>,
) -> (res: Result<PreparedBedrockLogin, RpcError>)
    ensures
        match res {
            Err(error) => bedrock_login_problem(
                *situation,
                credentials,
                region@,
                text::views(supported@),
            ) == Some(error@),
            Ok(prepared) => {
                &&& bedrock_login_problem(
                    *situation,
                    credentials,
                    region@,
                    text::views(supported@),
                ) is None
                &&& prepared.region@ == text::trim(region@)
                &&& text::opt_view(prepared.provider_region) == (if credentials is AccessKeys {
                    Some(text::trim(region@))
                } else {
                    None
                })
                &&& is_trimmed(prepared.credentials, credentials)
            },
        },
{
    match ensure_bedrock_login_allowed(situation) {
        Ok(_) => {},
        Err(error) => {
            return Err(error);
        },
    }
    match &credentials {
        BedrockLoginCredentials::ApiKey(api_key) => {
            if text::is_blank(api_key.as_str()) {
                return Err(rpc::invalid_request("Amazon Bedrock API key must not be empty."));
            }
        },
        BedrockLoginCredentials::AccessKeys { access_key_id, secret_access_key, .. } => {
            if text::is_blank(access_key_id.as_str()) || text::is_blank(
                secret_access_key.as_str(),
            ) {
                return Err(
                    rpc::invalid_request(
                        "AWS access key ID and secret access key must not be empty.",
                    ),
                );
            }
        },
    }
    let region = text::trimmed(region);
    if !text::contains(supported, region.as_str()) {
        let message = text::joined3(
            "Amazon Bedrock does not support region `",
            region.as_str(),
            "`",
        );
        return Err(rpc::invalid_request(message.as_str()));
    }
    match credentials {
        BedrockLoginCredentials::ApiKey(api_key) => Ok(
            PreparedBedrockLogin {
                region,
                provider_region: None,
                credentials: BedrockLoginCredentials::ApiKey(text::trimmed(api_key.as_str())),
            },
        ),
        BedrockLoginCredentials::AccessKeys { access_key_id, secret_access_key, session_token } => {
            let token = match session_token {
                Some(token) => {
                    if text::is_blank(token.as_str()) {
                        None
                    } else {
                        Some(text::trimmed(token.as_str()))
                    }
                },
                None => None,
            };
            let provider_region = Some(region.clone());
            Ok(
                PreparedBedrockLogin {
                    region,
                    provider_region,
                    credentials: BedrockLoginCredentials::AccessKeys {
                        access_key_id: text::trimmed(access_key_id.as_str()),
                        secret_access_key: text::trimmed(secret_access_key.as_str()),
                        session_token: token,
                    },
                },
            )
        },
    }
}

/// What a list of texts looks like in a message.
pub open spec fn list_debug(texts: Seq<Seq<char>>) -> Seq<char> {
    "["@ + text::separated(texts.map_values(|content: Seq<char>| text::str_debug(content)), ", "@)
        + "]"@
}

fn debug_list(texts: &Vec<String>) -> (res: String)
    ensures
        res@ == list_debug(text::views(texts@)),
{
    let ghost all = text::views(texts@).map_values(|content: Seq<char>| text::str_debug(content));
    let mut shown: Vec<String> = Vec::new();
    let mut i: usize = 0;
    while i < texts.len()
        invariant
            i <= texts@.len(),
            all == text::views(texts@).map_values(
                |content: Seq<char>| text::str_debug(content),
            ),
            text::views(shown@) == all.take(i as int),
        decreases texts@.len() - i,
    {
        let content = text::debug_str(texts[i].as_str());
        let ghost before = shown@;
        shown.push(content);
        i = i + 1;
        assert(text::views(shown@) == text::views(before).push(content@));
        assert(all.take(i as int) == all.take(i - 1).push(all[i - 1]));
    }
    assert(all.take(i as int) == all);
    let listed = text::join(&shown, ", ");
    text::joined3("[", listed.as_str(), "]")
}

/// Why tokens from outside for a workspace are refused, if they are.
pub open spec fn tokens_problem(situation: AuthSituation, account_id: Seq<char>) -> Option<
    RpcErrorView,
> {
    if !situation.policy.chatgpt_allowed {
        Some(rpc::bad_request("External ChatGPT auth is disabled. Use API key login instead."@))
    } else if situation.policy.workspaces matches Some(workspaces) && !text::views(
        workspaces@,
    ).contains(account_id) {
        Some(
            rpc::bad_request(
                "External auth must use one of workspace(s) "@ + list_debug(
                    text::views(situation.policy.workspaces->0@),
                ) + ", but received "@ + text::str_debug(account_id) + "."@,
            ),
        )
    } else {
        None
    }
}

/// What a login under way is ended with.
#[derive(Clone, Copy, Debug, PartialEq, Eq, Structural)]
pub enum CancelSignal {
    /// Shut down the server that waits for the browser.
    ShutDownServer(u128),
    /// Cancel the wait for the device code.
    CancelWait(u128),
}

/// A login under way. Its ID tells it from those before and after it.
#[derive(Clone, Copy, Debug, PartialEq, Eq, Structural)]
pub enum ActiveLogin {
    Browser { login_id: u128 },
    DeviceCode { login_id: u128 },
}

/// The ID of a login.
pub open spec fn id_of(login: ActiveLogin) -> u128 {
    match login {
        ActiveLogin::Browser { login_id } => login_id,
        ActiveLogin::DeviceCode { login_id } => login_id,
    }
}

/// What a login is ended with.
pub open spec fn signal_of(login: ActiveLogin) -> CancelSignal {
    match login {
        ActiveLogin::Browser { login_id } => CancelSignal::ShutDownServer(login_id),
        ActiveLogin::DeviceCode { login_id } => CancelSignal::CancelWait(login_id),
    }
}

impl ActiveLogin {
    /// The ID of the login.
    pub fn login_id(&self) -> (res: u128)
        ensures
            res == id_of(*self),
    {
        match self {
            ActiveLogin::Browser { login_id } => *login_id,
            ActiveLogin::DeviceCode { login_id } => *login_id,
        }
    }

    /// What the login is ended with.
    pub fn cancel(&self) -> (res: CancelSignal)
        ensures
            res == signal_of(*self),
    {
        match self {
            ActiveLogin::Browser { login_id } => CancelSignal::ShutDownServer(*login_id),
            ActiveLogin::DeviceCode { login_id } => CancelSignal::CancelWait(*login_id),
        }
    }
}

/// The place for the login under way: there is at most one.
#[derive(Debug, PartialEq, Eq)]
pub struct LoginSlot {
    pub active: Option<ActiveLogin>,
}

/// Whether a login is the one under way.
pub open spec fn is_under_way(slot: LoginSlot, login_id: u128) -> bool {
    slot.active matches Some(login) && id_of(login) == login_id
}

/// The place without a login.
pub open spec fn emptied() -> LoginSlot {
    LoginSlot { active: None }
}

/// The place once a login was started.
pub open spec fn started(login: ActiveLogin) -> LoginSlot {
    LoginSlot { active: Some(login) }
}

/// The place once a login was canceled: another login than the one under way is left alone.
pub open spec fn canceled(slot: LoginSlot, login_id: u128) -> LoginSlot {
    if is_under_way(slot, login_id) {
        emptied()
    } else {
        slot
    }
}

/// What the login under way is ended with.
pub open spec fn ending(slot: LoginSlot) -> Option<CancelSignal> {
    match slot.active {
        Some(login) => Some(signal_of(login)),
        None => None,
    }
}

/// What came of canceling a login.
#[derive(Clone, Copy, Debug, PartialEq, Eq, Structural)]
pub enum CancelLoginAccountStatus {
    Canceled,
    NotFound,
}

/// What is answered on canceling a login.
pub open spec fn cancel_status(slot: LoginSlot, login_id: u128) -> CancelLoginAccountStatus {
    if is_under_way(slot, login_id) {
        CancelLoginAccountStatus::Canceled
    } else {
        CancelLoginAccountStatus::NotFound
    }
}

/// What canceling the login with a number does, if there is such a number.
pub open spec fn is_cancel(
    before: LoginSlot,
    after: LoginSlot,
    login_id: Seq<char>,
    parsed: Option<u128>,
    res: Result<(CancelLoginAccountStatus, Option<CancelSignal>), RpcError>,
) -> bool {
    match (parsed, res) {
        (None, Err(error)) => after == before && error@ == rpc::bad_request(
            "invalid login id: "@ + login_id,
        ),
        (Some(id), Ok((status, signal))) => {
            &&& after == canceled(before, id)
            &&& status == cancel_status(before, id)
            &&& signal == (if is_under_way(before, id) {
                ending(before)
            } else {
                None
            })
        },
        _ => false,
    }
}

impl LoginSlot {
    pub fn new() -> (res: LoginSlot)
        ensures
            res.active is None,
    {
        LoginSlot { active: None }
    }

    /// Puts a login under way in the place of an earlier one, which is ended.
    pub fn replace(&mut self, login: ActiveLogin) -> (res: Option<CancelSignal>)
        ensures
            *final(self) == started(login),
            res == ending(*old(self)),
    {
        let ended = self.cancel_active_login();
        self.active = Some(login);
        ended
    }

    /// Ends the login under way.
    pub fn cancel_active_login(&mut self) -> (res: Option<CancelSignal>)
        ensures
            *final(self) == emptied(),
            res == ending(*old(self)),
    {
        match self.active.take() {
            Some(login) => Some(login.cancel()),
            None => None,
        }
    }

    /// Whether a login is the one under way.
    pub fn holds(&self, login_id: u128) -> (res: bool)
        ensures
            res == is_under_way(*self, login_id),
    {
        match &self.active {
            Some(login) => login.login_id() == login_id,
            None => false,
        }
    }

    /// Ends a login if it is the one under way; another is left alone.
    pub fn cancel_login_chatgpt_common(&mut self, login_id: u128) -> (res: Option<CancelSignal>)
        ensures
            *final(self) == canceled(*old(self), login_id),
            res == (if is_under_way(*old(self), login_id) {
                ending(*old(self))
            } else {
                None
            }),
    {
        if self.holds(login_id) {
            self.cancel_active_login()
        } else {
            None
        }
    }

    /// Ends the login with a number, as far as it is known.
    pub fn cancel_parsed_login(&mut self, login_id: &str, parsed: Option<u128>) -> (res: Result<
        (CancelLoginAccountStatus, Option<CancelSignal>),
        RpcError,
    >)
        ensures
            is_cancel(*old(self), *final(self), login_id@, parsed, res),
    {
        match parsed {
            None => {
                let message = text::joined("invalid login id: ", login_id);
                Err(rpc::invalid_request(message.as_str()))
            },
            Some(id) => match self.cancel_login_chatgpt_common(id) {
                Some(signal) => Ok((CancelLoginAccountStatus::Canceled, Some(signal))),
                None => Ok((CancelLoginAccountStatus::NotFound, None)),
            },
        }
    }

    /// Ends the login that a text names, if it is the one under way.
    pub fn cancel_login_response(&mut self, login_id: &str) -> (res: Result<
        (CancelLoginAccountStatus, Option<CancelSignal>),
        RpcError,
    >)
        ensures
            is_cancel(*old(self), *final(self), login_id@, ids::uuid_number(login_id@), res),
    {
        self.cancel_parsed_login(login_id, ids::parse_uuid(login_id))
    }

    /// Checks tokens from outside. Where they may be used at all, they take the place of a login under
    /// way, which is ended even if they turn out to be for another workspace.
    pub fn login_chatgpt_auth_tokens_response(
        &mut self,
        situation: &AuthSituation,
        chatgpt_account_id: &str,
    ) -> (res: Result<Option<CancelSignal>, (RpcError, Option<CancelSignal>)>)
        ensures
            match res {
                Ok(signal) => tokens_problem(*situation, chatgpt_account_id@) is None
                    && *final(self) == emptied() && signal == ending(*old(self)),
                Err((error, signal)) => {
                    &&& tokens_problem(*situation, chatgpt_account_id@) == Some(error@)
                    &&& if situation.policy.chatgpt_allowed {
                        *final(self) == emptied() && signal == ending(*old(self))
                    } else {
                        *final(self) == *old(self) && signal is None
                    }
                },
            },
    {
        if !situation.policy.chatgpt_allowed {
            return Err(
                (
                    rpc::invalid_request(
                        "External ChatGPT auth is disabled. Use API key login instead.",
                    ),
                    None,
                ),
            );
        }
        let signal = self.cancel_active_login();
        match &situation.policy.workspaces {
            Some(workspaces) => {
                if !text::contains(workspaces, chatgpt_account_id) {
                    let expected = debug_list(workspaces);
                    let received = text::debug_str(chatgpt_account_id);
                    let mut message = text::joined3(
                        "External auth must use one of workspace(s) ",
                        expected.as_str(),
                        ", but received ",
                    );
                    message.append(received.as_str());
                    message.append(".");
                    return Err((rpc::invalid_request(message.as_str()), signal));
                }
            },
            None => {},
        }
        Ok(signal)
    }
}

/// Where a new user is led first.
#[derive(Clone, Copy, Debug, PartialEq, Eq, Structural)]
pub enum DesktopOnboardingEntrypoint {
    LifeSciences,
}

/// That a login is over.
#[derive(Debug, PartialEq, Eq)]
pub struct AccountLoginCompletedNotification {
    pub login_id: Option<String>,
    pub success: bool,
    pub error: Option<String>,
    pub onboarding_entrypoint: Option<DesktopOnboardingEntrypoint>,
}

/// How the wait for a login in the browser ended.
#[derive(Debug, PartialEq, Eq)]
pub enum BrowserLoginOutcome {
    Done(Option<DesktopOnboardingEntrypoint>),
    Failed(String),
    TimedOut,
}

/// How the wait for a login with a device code ended.
#[derive(Debug, PartialEq, Eq)]
pub enum DeviceLoginOutcome {
    Done,
    Failed(String),
    Canceled,
}

/// Reports the end of a login in the browser.
pub fn browser_login_completed(login_id: u128, outcome: BrowserLoginOutcome) -> (res:
    AccountLoginCompletedNotification)
    ensures
        text::opt_view(res.login_id) == Some(ids::uuid_text(login_id)),
        match outcome {
            BrowserLoginOutcome::Done(entrypoint) => res.success && res.error is None
                && res.onboarding_entrypoint == entrypoint,
            BrowserLoginOutcome::Failed(message) => !res.success && text::opt_view(res.error)
                == Some("Login server error: "@ + message@) && res.onboarding_entrypoint is None,
            BrowserLoginOutcome::TimedOut => !res.success && text::opt_view(res.error) == Some(
                "Login timed out"@,
            ) && res.onboarding_entrypoint is None,
        },
{
    let login_id = Some(ids::write_uuid(login_id));
    match outcome {
        BrowserLoginOutcome::Done(onboarding_entrypoint) => AccountLoginCompletedNotification {
            login_id,
            success: true,
            error: None,
            onboarding_entrypoint,
        },
        BrowserLoginOutcome::Failed(message) => AccountLoginCompletedNotification {
            login_id,
            success: false,
            error: Some(text::joined("Login server error: ", message.as_str())),
            onboarding_entrypoint: None,
        },
        BrowserLoginOutcome::TimedOut => AccountLoginCompletedNotification {
            login_id,
            success: false,
            error: Some("Login timed out".to_string()),
            onboarding_entrypoint: None,
        },
    }
}

/// Reports the end of a login with a device code.
pub fn device_login_completed(login_id: u128, outcome: DeviceLoginOutcome) -> (res:
    AccountLoginCompletedNotification)
    ensures
        text::opt_view(res.login_id) == Some(ids::uuid_text(login_id)),
        res.onboarding_entrypoint is None,
        match outcome {
            DeviceLoginOutcome::Done => res.success && res.error is None,
            DeviceLoginOutcome::Failed(message) => !res.success && res.error == Some(message),
            DeviceLoginOutcome::Canceled => !res.success && text::opt_view(res.error) == Some(
                "Login was not completed"@,
            ),
        },
{
    let login_id = Some(ids::write_uuid(login_id));
    let error = match outcome {
        DeviceLoginOutcome::Done => None,
        DeviceLoginOutcome::Failed(message) => Some(message),
        DeviceLoginOutcome::Canceled => Some("Login was not completed".to_string()),
    };
    AccountLoginCompletedNotification {
        login_id,
        success: error.is_none(),
        error,
        onboarding_entrypoint: None,
    }
}

/// What is answered on starting a login.
#[derive(Debug, PartialEq, Eq)]
pub enum LoginAccountResponse {
    ApiKey,
    Chatgpt { login_id: String, auth_url: String },
    ChatgptDeviceCode { login_id: String, verification_url: String, user_code: String },
    ChatgptAuthTokens,
    AmazonBedrock,
}

/// A login that was started: what is answered, and what the login before it is ended with.
#[derive(Debug, PartialEq, Eq)]
pub struct StartedLogin {
    pub response: LoginAccountResponse,
    pub ended: Option<CancelSignal>,
}

/// Starts a login in the browser, once there is a server that waits for it. The ID that is answered
/// names the login: with it the login can be canceled.
pub fn login_chatgpt_response(
    slot: &mut LoginSlot,
    attempt: &ManagedLoginAttempt,
    server: Result<String, String>,
) -> (res: Result<StartedLogin, RpcError>)
    ensures
        match (server, res) {
            (Ok(url), Ok(login)) => {
                &&& *final(slot) == started(ActiveLogin::Browser { login_id: attempt.login_id })
                &&& login.ended == ending(*old(slot))
                &&& login.response matches LoginAccountResponse::Chatgpt { login_id, auth_url }
                    && login_id@ == ids::uuid_text(attempt.login_id) && ids::uuid_number(login_id@)
                    == Some(attempt.login_id) && auth_url == url
            },
            (Err(message), Err(error)) => *final(slot) == *old(slot) && error@ == rpc::failed(
                "failed to start login server: "@ + message@,
            ),
            _ => false,
        },
{
    let auth_url = match server {
        Ok(auth_url) => auth_url,
        Err(message) => {
            return Err(
                rpc::internal_error_from("failed to start login server: ", message.as_str()),
            );
        },
    };
    let ended = slot.replace(ActiveLogin::Browser { login_id: attempt.login_id });
    let login_id = ids::write_uuid(attempt.login_id);
    Ok(StartedLogin { response: LoginAccountResponse::Chatgpt { login_id, auth_url }, ended })
}

/// A code with which a login is done on another device.
#[derive(Debug, PartialEq, Eq)]
pub struct DeviceCode {
    pub verification_url: String,
    pub user_code: String,
}

/// Starts a login with a device code, once there is one. The ID that is answered names the login:
/// with it the login can be canceled.
pub fn login_chatgpt_device_code_response(
    slot: &mut LoginSlot,
    attempt: &ManagedLoginAttempt,
    code: Result<DeviceCode, StoreError>,
) -> (res: Result<StartedLogin, RpcError>)
    ensures
        match (code, res) {
            (Ok(code), Ok(login)) => {
                &&& *final(slot) == started(ActiveLogin::DeviceCode { login_id: attempt.login_id })
                &&& login.ended == ending(*old(slot))
                &&& login.response matches LoginAccountResponse::ChatgptDeviceCode {
                    login_id,
                    verification_url,
                    user_code,
                } && login_id@ == ids::uuid_text(attempt.login_id) && ids::uuid_number(login_id@)
                    == Some(attempt.login_id) && verification_url == code.verification_url
                    && user_code == code.user_code
            },
            (Err(problem), Err(error)) => *final(slot) == *old(slot) && error@
                == device_code_error(problem@),
            _ => false,
        },
{
    let code = match code {
        Ok(code) => code,
        Err(problem) => {
            return Err(login_chatgpt_device_code_start_error(problem));
        },
    };
    let ended = slot.replace(ActiveLogin::DeviceCode { login_id: attempt.login_id });
    let login_id = ids::write_uuid(attempt.login_id);
    Ok(
        StartedLogin {
            response: LoginAccountResponse::ChatgptDeviceCode {
                login_id,
                verification_url: code.verification_url,
                user_code: code.user_code,
            },
            ended,
        },
    )
}

/// How it is reported that no device code could be had.
pub open spec fn device_code_error(error: ErrorView) -> RpcErrorView {
    if error.kind == ErrorKind::NotFound {
        rpc::bad_request(error.message)
    } else {
        rpc::failed("failed to request device code: "@ + error.message)
    }
}

/// Reports why no device code could be had.
pub fn login_chatgpt_device_code_start_error(error: StoreError) -> (res: RpcError)
    ensures
        res@ == device_code_error(error@),
{
    if error.kind == ErrorKind::NotFound {
        rpc::invalid_request(error.message.as_str())
    } else {
        rpc::internal_error_from("failed to request device code: ", error.message.as_str())
    }
}

/// What remains to be done once the wait for a managed login is over.
#[derive(Clone, Copy, Debug, PartialEq, Eq, Structural)]
pub enum FinishStep {
    /// The login was canceled or superseded: nothing is saved.
    Superseded,
    /// The login failed: nothing is saved.
    NothingToSave,
    /// The login succeeded: its credentials are to be saved.
    Save(AccountSessionActivation),
}

/// What remains to be done once the wait for a managed login is over: only the login that is still
/// under way may be saved, and only if it succeeded.
pub open spec fn finish_step(
    slot: LoginSlot,
    login_id: u128,
    success: bool,
    destination: ChatgptLoginDestination,
) -> FinishStep {
    if !is_under_way(slot, login_id) {
        FinishStep::Superseded
    } else if !success {
        FinishStep::NothingToSave
    } else {
        FinishStep::Save(
            match destination {
                ChatgptLoginDestination::Activate => AccountSessionActivation::Activate,
                ChatgptLoginDestination::AddWithoutSwitching => {
                    AccountSessionActivation::PreserveCurrent
                },
            },
        )
    }
}

/// A managed login, whose credentials are kept apart until it is over.
#[derive(Debug, PartialEq, Eq)]
pub struct ManagedLoginAttempt {
    pub login_id: u128,
}

impl ManagedLoginAttempt {
    /// A login with a fresh ID. Which one it is depends on chance.
    pub fn stage() -> (res: ManagedLoginAttempt)
        ensures
            ids::has_version(res.login_id, 4),
    {
        ManagedLoginAttempt { login_id: ids::random_number() }
    }

    /// Decides, while the place for the login under way is locked, what remains to be done. Only the
    /// login that is still under way may be saved.
    pub fn begin_finish(
        &self,
        slot: &LoginSlot,
        destination: ChatgptLoginDestination,
        notification: &mut AccountLoginCompletedNotification,
    ) -> (res: FinishStep)
        ensures
            final(notification).login_id == old(notification).login_id,
            final(notification).onboarding_entrypoint == old(notification).onboarding_entrypoint,
            res == finish_step(*slot, self.login_id, old(notification).success, destination),
            if res is Superseded {
                !final(notification).success && text::opt_view(final(notification).error) == Some(
                    "Login was not completed"@,
                )
            } else {
                *final(notification) == *old(notification)
            },
    {
        if !slot.holds(self.login_id) {
            notification.success = false;
            notification.error = Some("Login was not completed".to_string());
            return FinishStep::Superseded;
        }
        if notification.success {
            FinishStep::Save(
                match destination {
                    ChatgptLoginDestination::Activate => AccountSessionActivation::Activate,
                    ChatgptLoginDestination::AddWithoutSwitching => {
                        AccountSessionActivation::PreserveCurrent
                    },
                },
            )
        } else {
            FinishStep::NothingToSave
        }
    }

    /// Ends the login: notes whether its credentials could be saved, and frees the place.
    pub fn end_finish(
        &self,
        slot: &mut LoginSlot,
        saved: Result<(), StoreError>,
        notification: &mut AccountLoginCompletedNotification,
    ) -> (res: Option<CancelSignal>)
        ensures
            *final(slot) == emptied(),
            res == ending(*old(slot)),
            final(notification).login_id == old(notification).login_id,
            final(notification).onboarding_entrypoint == old(notification).onboarding_entrypoint,
            match saved {
                Ok(_) => *final(notification) == *old(notification),
                Err(error) => !final(notification).success && text::opt_view(
                    final(notification).error,
                ) == Some("failed to save account session: "@ + error@.message),
            },
    {
        match saved {
            Ok(_) => {},
            Err(error) => {
                notification.success = false;
                notification.error = Some(
                    text::joined("failed to save account session: ", error.message.as_str()),
                );
            },
        }
        slot.cancel_active_login()
    }
}

/// The credentials of a finished login, from what reading them gave.
pub fn staged_credentials(found: Option<AuthDotJson>) -> (res: Result<AuthDotJson, StoreError>)
    ensures
        match (found, res) {
            (Some(auth), Ok(staged)) => staged == auth,
            (None, Err(error)) => error@ == model::other_error("Login credentials were not saved"@),
            _ => false,
        },
{
    match found {
        Some(auth) => Ok(auth),
        None => Err(StoreError::other("Login credentials were not saved")),
    }
}

/// A login is canceled or saved, never both: what was canceled is not saved afterwards, whatever came
/// of it, and what was saved can no longer be canceled.
pub proof fn logins_are_canceled_or_saved(
    slot: LoginSlot,
    login_id: u128,
    success: bool,
    destination: ChatgptLoginDestination,
)
    ensures
        cancel_status(slot, login_id) is Canceled ==> finish_step(
            canceled(slot, login_id),
            login_id,
            success,
            destination,
        ) is Superseded,
        finish_step(slot, login_id, success, destination) is Save ==> cancel_status(
            emptied(),
            login_id,
        ) is NotFound,
{
}

/// A login that another one took the place of is not saved, whatever came of it.
pub proof fn superseded_logins_are_not_saved(
    login_id: u128,
    later: ActiveLogin,
    success: bool,
    destination: ChatgptLoginDestination,
)
    requires
        id_of(later) != login_id,
    ensures
        finish_step(started(later), login_id, success, destination) is Superseded,
        canceled(started(later), login_id) == started(later),
{
}

/// Adding an account beside others never asks for it to be put in use.
pub proof fn logins_beside_others_keep_the_account_in_use(
    slot: LoginSlot,
    login_id: u128,
    success: bool,
)
    ensures
        finish_step(slot, login_id, success, ChatgptLoginDestination::AddWithoutSwitching)
            != FinishStep::Save(AccountSessionActivation::Activate),
{
}

/// That the account changed.
#[derive(Debug, PartialEq, Eq)]
pub struct AccountUpdatedNotification {
    pub auth_mode: Option<AuthMode>,
    pub plan_type: Option<PlanType>,
    pub current_account: Option<Account>,
}

/// The plan of an account.
pub open spec fn plan_of_account(account: Option<Account>) -> Option<PlanType> {
    match account {
        Some(Account::Chatgpt { plan_type, .. }) => Some(plan_type),
        _ => None,
    }
}

/// Reports the account in use.
pub fn current_account_updated_notification(
    current_account: Option<Account>,
    auth_mode: Option<AuthMode>,
) -> (res: AccountUpdatedNotification)
    ensures
        res.auth_mode == auth_mode,
        res.plan_type == plan_of_account(current_account),
        res.current_account == current_account,
{
    let plan_type = match &current_account {
        Some(Account::Chatgpt { plan_type, .. }) => Some(plan_type.copy()),
        _ => None,
    };
    AccountUpdatedNotification { auth_mode, plan_type, current_account }
}

/// The account in use and its mode: by the stored credentials, where they can be read, else by those
/// that the program runs with.
pub fn current_account_and_auth_mode(
    stored: &Result<Option<AuthDotJson>, RpcError>,
    plans: &PlanCatalog,
    cached: &Option<(CurrentAuth, AuthMode)>,
) -> (res: (Option<Account>, Option<AuthMode>))
    ensures
        match stored {
            Ok(Some(auth)) => model::opt_account(res.0) == auth_profiles::account_of(auth@, *plans)
                && res.1 == Some(auth_profiles::mode_of(auth@)),
            _ => match cached {
                Some((auth, mode)) => model::opt_account(res.0) == backend::current_account(*auth)
                    && res.1 == Some(*mode),
                None => res.0 is None && res.1 is None,
            },
        },
{
    match stored {
        Ok(Some(auth)) => {
            return (
                auth_profiles::account_from_auth(auth, plans),
                Some(auth_profiles::auth_mode_from_auth(auth)),
            );
        },
        _ => {},
    }
    match cached {
        Some((auth, mode)) => (
            backend::AccountRequestProcessor::account_from_codex_auth(auth),
            Some(*mode),
        ),
        None => (None, None),
    }
}

/// Reports the account in use after a login, by the credentials that the program runs with.
pub fn account_updated_after_login(cached: &Option<(CurrentAuth, AuthMode)>) -> (res:
    AccountUpdatedNotification)
    ensures
        match cached {
            Some((auth, mode)) => res.auth_mode == Some(*mode) && model::opt_account(
                res.current_account,
            ) == backend::current_account(*auth) && opt_plan(res.plan_type) == opt_plan(
                auth.plan_type,
            ),
            None => res.auth_mode is None && res.plan_type is None && res.current_account is None,
        },
{
    match cached {
        Some((auth, mode)) => AccountUpdatedNotification {
            auth_mode: Some(*mode),
            plan_type: model::copy_plan(&auth.plan_type),
            current_account: backend::AccountRequestProcessor::account_from_codex_auth(auth),
        },
        None => AccountUpdatedNotification {
            auth_mode: None,
            plan_type: None,
            current_account: None,
        },
    }
}

/// The view of a plan, if there is one.
pub open spec fn opt_plan(plan: Option<PlanType>) -> Option<PlanView> {
    match plan {
        Some(plan) => Some(plan@),
        None => None,
    }
}

/// Reports a login that succeeded at once.
pub fn login_succeeded() -> (res: AccountLoginCompletedNotification)
    ensures
        res.login_id is None,
        res.success,
        res.error is None,
        res.onboarding_entrypoint is None,
{
    AccountLoginCompletedNotification {
        login_id: None,
        success: true,
        error: None,
        onboarding_entrypoint: None,
    }
}

/// A step of a login without a wait, after its checks.
#[derive(Clone, Copy, Debug, PartialEq, Eq, Structural)]
pub enum LoginWork {
    CancelActiveLogin,
    CheckProvider,
    DeactivateAccounts,
    ConfigureProvider,
    SaveCredentials,
    Reload,
}

/// A login without a wait.
#[derive(Clone, Copy, Debug, PartialEq, Eq, Structural)]
pub enum ImmediateLogin {
    ApiKey,
    Bedrock,
    AuthTokens,
}

/// The steps of a login without a wait. The first that fails ends it.
pub open spec fn works_of(login: ImmediateLogin) -> Seq<LoginWork> {
    match login {
        ImmediateLogin::ApiKey => seq![
            LoginWork::DeactivateAccounts,
            LoginWork::CancelActiveLogin,
            LoginWork::SaveCredentials,
            LoginWork::Reload,
        ],
        ImmediateLogin::Bedrock => seq![
            LoginWork::CancelActiveLogin,
            LoginWork::CheckProvider,
            LoginWork::DeactivateAccounts,
            LoginWork::ConfigureProvider,
            LoginWork::SaveCredentials,
            LoginWork::Reload,
        ],
        ImmediateLogin::AuthTokens => seq![
            LoginWork::DeactivateAccounts,
            LoginWork::SaveCredentials,
            LoginWork::Reload,
        ],
    }
}

/// The steps of a login without a wait, in order.
pub fn login_works(login: ImmediateLogin) -> (res: Vec<LoginWork>)
    ensures
        res@ == works_of(login),
{
    match login {
        ImmediateLogin::ApiKey => vec![
            LoginWork::DeactivateAccounts,
            LoginWork::CancelActiveLogin,
            LoginWork::SaveCredentials,
            LoginWork::Reload,
        ],
        ImmediateLogin::Bedrock => vec![
            LoginWork::CancelActiveLogin,
            LoginWork::CheckProvider,
            LoginWork::DeactivateAccounts,
            LoginWork::ConfigureProvider,
            LoginWork::SaveCredentials,
            LoginWork::Reload,
        ],
        ImmediateLogin::AuthTokens => vec![
            LoginWork::DeactivateAccounts,
            LoginWork::SaveCredentials,
            LoginWork::Reload,
        ],
    }
}

/// Credentials are saved only once no saved account is in use any longer.
pub proof fn accounts_are_deactivated_before_credentials_are_saved(login: ImmediateLogin)
    ensures
        forall|i: int|
            0 <= i < works_of(login).len() && #[trigger] works_of(login)[i]
                == LoginWork::SaveCredentials ==> works_of(login).take(i).contains(
                LoginWork::DeactivateAccounts,
            ),
        works_of(login).contains(LoginWork::SaveCredentials),
{
    let works = works_of(login);
    let (saved, deactivated): (int, int) = match login {
        ImmediateLogin::ApiKey => (2, 0),
        ImmediateLogin::Bedrock => (4, 2),
        ImmediateLogin::AuthTokens => (1, 0),
    };
    assert(works[saved] == LoginWork::SaveCredentials);
    assert forall|i: int|
        0 <= i < works.len() && #[trigger] works[i]
            == LoginWork::SaveCredentials implies works.take(i).contains(
        LoginWork::DeactivateAccounts,
    ) by {
        assert(i == saved);
        assert(works.take(i)[deactivated] == LoginWork::DeactivateAccounts);
    }
}

/// Whether tokens are revoked with the backend at the logout of the program: not where the logout of
/// the saved accounts saw to that.
pub fn logout_revokes(cleared_account_sessions: bool) -> (res: bool)
    ensures
        res == !cleared_account_sessions,
{
    !cleared_account_sessions
}

/// Checks that a request may log the program out.
pub fn logout_common(situation: &AuthSituation) -> (res: Result<(), RpcError>)
    ensures
        match res {
            Ok(_) => !situation.workload_identity_selected,
            Err(error) => situation.workload_identity_selected && error@ == host_owned(),
        },
{
    if situation.workload_identity_selected {
        return Err(configured_auth_owned_by_host_error());
    }
    Ok(())
}

/// Reports a logout that succeeded.
pub fn logged_out_notification(auth_mode: Option<AuthMode>) -> (res: AccountUpdatedNotification)
    ensures
        res.auth_mode == auth_mode,
        res.plan_type is None,
        res.current_account is None,
{
    AccountUpdatedNotification { auth_mode, plan_type: None, current_account: None }
}

/// What came of refreshing the token.
#[derive(Clone, Copy, Debug, PartialEq, Eq, Structural)]
pub enum RefreshTokenRequestOutcome {
    NotAttemptedOrSucceeded,
    FailedTransiently,
    FailedPermanently,
}

/// Whether the token is to be refreshed: never one from outside.
pub fn refreshes_token(situation: &AuthSituation, do_refresh: bool) -> (res: bool)
    ensures
        res == (do_refresh && !situation.external_chatgpt_auth_active),
{
    do_refresh && !situation.external_chatgpt_auth_active
}

/// What came of refreshing the token. `failed` says of a failure whether it is known why.
pub fn refresh_token_outcome(failed: Option<bool>) -> (res: RefreshTokenRequestOutcome)
    ensures
        res == (match failed {
            None => RefreshTokenRequestOutcome::NotAttemptedOrSucceeded,
            Some(true) => RefreshTokenRequestOutcome::FailedPermanently,
            Some(false) => RefreshTokenRequestOutcome::FailedTransiently,
        }),
{
    match failed {
        None => RefreshTokenRequestOutcome::NotAttemptedOrSucceeded,
        Some(known) => if known {
            RefreshTokenRequestOutcome::FailedPermanently
        } else {
            RefreshTokenRequestOutcome::FailedTransiently
        },
    }
}

/// What credentials consist of.
#[derive(Clone, Copy, Debug, PartialEq, Eq, Structural)]
pub enum CredentialKind {
    Token,
    Headers,
    AgentIdentity,
    PersonalAccessToken,
}

/// The credentials that the program runs with, as far as their status goes. `token` is `None` where
/// it could not be had.
#[derive(Debug, PartialEq, Eq)]
pub struct StatusAuth {
    pub auth_mode: AuthMode,
    pub kind: CredentialKind,
    pub permanent_refresh_failure: bool,
    pub token: Option<String>,
}

/// How the program is signed in.
#[derive(Debug, PartialEq, Eq)]
pub struct GetAuthStatusResponse {
    pub auth_method: Option<AuthMode>,
    pub auth_token: Option<String>,
    pub requires_openai_auth: Option<bool>,
}

/// Whether credentials are reported without their token, whatever is asked for.
pub open spec fn keeps_token(
    situation: AuthSituation,
    auth: StatusAuth,
    include_token: bool,
) -> bool {
    situation.workload_identity_selected || auth.kind != CredentialKind::Token || include_token
        && auth.permanent_refresh_failure
}

/// Reports how the program is signed in. Credentials that the host owns, or that hold more than a
/// token, are never exported; a token that is empty or cannot be had counts as none.
pub fn get_auth_status_response(
    situation: &AuthSituation,
    include_token: Option<bool>,
    requires_openai_auth: bool,
    auth: Option<StatusAuth>,
) -> (res: GetAuthStatusResponse)
    ensures
        res.requires_openai_auth == Some(requires_openai_auth),
        res.auth_token is Some ==> !situation.workload_identity_selected && include_token == Some(
            true,
        ) && (auth matches Some(auth) && auth.kind == CredentialKind::Token),
        match auth {
            Some(auth) if requires_openai_auth => if keeps_token(
                *situation,
                auth,
                include_token == Some(true),
            ) {
                res.auth_method == Some(auth.auth_mode) && res.auth_token is None
            } else {
                match auth.token {
                    Some(token) if token@.len() > 0 => res.auth_method == Some(auth.auth_mode)
                        && res.auth_token == (if include_token == Some(true) {
                        Some(token)
                    } else {
                        None
                    }),
                    _ => res.auth_method is None && res.auth_token is None,
                }
            },
            _ => res.auth_method is None && res.auth_token is None,
        },
{
    let include_token = match include_token {
        Some(include_token) => include_token,
        None => false,
    };
    if !requires_openai_auth {
        return GetAuthStatusResponse {
            auth_method: None,
            auth_token: None,
            requires_openai_auth: Some(false),
        };
    }
    let (auth_method, auth_token) = match auth {
        None => (None, None),
        Some(auth) => if situation.workload_identity_selected || auth.kind != CredentialKind::Token || (
        include_token && auth.permanent_refresh_failure) {
            (Some(auth.auth_mode), None)
        } else {
            match auth.token {
                Some(token) => {
                    let chars = text::chars_of(token.as_str());
                    if chars.len() == 0 {
                        (None, None)
                    } else if include_token {
                        (Some(auth.auth_mode), Some(token))
                    } else {
                        (Some(auth.auth_mode), None)
                    }
                },
                None => (None, None),
            }
        },
    };
    GetAuthStatusResponse { auth_method, auth_token, requires_openai_auth: Some(true) }
}

/// The account of the program, by the provider of its model.
#[derive(Debug, PartialEq, Eq)]
pub struct GetAccountResponse {
    pub account: Option<Account>,
    pub requires_openai_auth: bool,
}

/// Reports the account of the program.
pub fn get_account_response(state: Result<(Option<Account>, bool), String>) -> (res: Result<
    GetAccountResponse,
    RpcError,
>)
    ensures
        match (state, res) {
            (Ok((account, needed)), Ok(response)) => response.account == account
                && response.requires_openai_auth == needed,
            (Err(message), Err(error)) => error@ == rpc::bad_request(message@),
            _ => false,
        },
{
    match state {
        Ok((account, requires_openai_auth)) => Ok(
            GetAccountResponse { account, requires_openai_auth },
        ),
        Err(message) => Err(rpc::invalid_request(message.as_str())),
    }
}

/// How often to prime, from what is asked for.
pub fn start_account_priming(interval_seconds: Option<u32>) -> (res: Result<u32, RpcError>)
    ensures
        match res {
            Ok(interval) => interval > 0 && interval == (match interval_seconds {
                Some(interval) => interval,
                None => crate::accounts::priming::DEFAULT_ACCOUNT_PRIMING_INTERVAL_SECONDS,
            }),
            Err(error) => interval_seconds == Some(0u32) && error@ == rpc::bad_params(
                "account priming interval_seconds must be at least 1"@,
            ),
        },
{
    let interval: u32 = match interval_seconds {
        Some(interval) => interval,
        None => crate::accounts::priming::DEFAULT_ACCOUNT_PRIMING_INTERVAL_SECONDS,
    };
    if interval == 0 {
        return Err(rpc::invalid_params("account priming interval_seconds must be at least 1"));
    }
    Ok(interval)
}

/// Refuses to save a named profile: there are none any longer.
pub fn save_auth_profile_response() -> (res: RpcError)
    ensures
        res@ == rpc::bad_request(
            "Named auth profiles have been removed. Use accountSession/login/start to add an account, then select it by ID or email."@,
        ),
{
    rpc::invalid_request(
        "Named auth profiles have been removed. Use accountSession/login/start to add an account, then select it by ID or email.",
    )
}

/// Refuses to delete a named profile: there are none any longer.
pub fn delete_auth_profile_response() -> (res: RpcError)
    ensures
        res@ == rpc::bad_request(
            "Named auth profiles have been removed. Use accountSession/logout with the saved account ID or email."@,
        ),
{
    rpc::invalid_request(
        "Named auth profiles have been removed. Use accountSession/logout with the saved account ID or email.",
    )
}

/// Selects the account to turn to, by its name.
pub fn activate_next_auth_profile_response(profiles: &[AuthProfileSummary]) -> (res: Result<
    String,
    RpcError,
>)
    ensures
        match (rotation::next_place(profiles@), res) {
            (Some(place), Ok(name)) => place < profiles@.len() && name@
                == profiles@[place as int].name@,
            (None, Err(error)) => error@ == rpc::bad_request(
                "no alternative saved account with available ChatGPT capacity"@,
            ),
            _ => false,
        },
{
    match rotation::select_next_auth_profile(profiles) {
        Some(profile) => Ok(profile.name.clone()),
        None => Err(
            rpc::invalid_request("no alternative saved account with available ChatGPT capacity"),
        ),
    }
}

} // verus!
