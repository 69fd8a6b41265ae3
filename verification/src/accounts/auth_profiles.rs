//! What stored credentials say of the account they are for.

use vstd::prelude::*;
use crate::accounts::model;
use crate::accounts::model::{
    copy_option, Account, AccountView, AgentIdentityStorage, AgentIdentityView,
    AuthDotJson, AuthMode, AuthView, ErrorKind, ErrorView, PlanType, PlanView, StoreError,
};
use crate::paths::{PathBase, PathView, StorePath};
use crate::text;

verus! {

/// The directory of the named profiles.
pub const AUTH_PROFILES_DIRNAME: &'static str = "accounts";

/// The plans that are known, and the one that stands for all others.
#[derive(Debug, PartialEq, Eq)]
pub struct PlanCatalog {
    pub known: Vec<PlanType>,
    pub unknown: PlanType,
}

/// The first known plan from `from` on with the name `name`.
pub open spec fn plan_named(known: Seq<PlanType>, name: Seq<char>, from: int) -> Option<PlanView>
    decreases known.len() - from,
{
    if from < 0 || from >= known.len() {
        None
    } else if known[from].name@ == name {
        Some(known[from]@)
    } else {
        plan_named(known, name, from + 1)
    }
}

/// The plan that a token names: a known one, else the one for all others.
pub open spec fn plan_of(plans: PlanCatalog, raw: Option<Seq<char>>) -> PlanView {
    match raw {
        Some(name) => match plan_named(plans.known@, name, 0) {
            Some(plan) => plan,
            None => plans.unknown@,
        },
        None => plans.unknown@,
    }
}

/// The plan that a token names.
pub fn account_plan_type_from_auth(raw: &Option<String>, plans: &PlanCatalog) -> (res: PlanType)
    ensures
        res@ == plan_of(*plans, text::opt_view(*raw)),
{
    match raw {
        Some(name) => {
            let mut i: usize = 0;
            while i < plans.known.len()
                invariant
                    i <= plans.known@.len(),
                    raw == Some(*name),
                    plan_named(plans.known@, name@, 0) == plan_named(
                        plans.known@,
                        name@,
                        i as int,
                    ),
                decreases plans.known@.len() - i,
            {
                if text::same_text(plans.known[i].name.as_str(), name.as_str()) {
                    return plans.known[i].copy();
                }
                i = i + 1;
            }
            plans.unknown.copy()
        },
        None => plans.unknown.copy(),
    }
}

/// The mode that credentials are for: the one they state, else the first of a personal token, the
/// two kinds of Bedrock credentials and an API key that they hold, else a ChatGPT login.
pub open spec fn mode_of(auth: AuthView) -> AuthMode {
    match auth.auth_mode {
        Some(mode) => mode,
        None => if auth.personal_access_token is Some {
            AuthMode::PersonalAccessToken
        } else if auth.bedrock_api_key is Some {
            AuthMode::BedrockApiKey
        } else if auth.bedrock_access_keys is Some {
            AuthMode::BedrockAccessKeys
        } else if auth.openai_api_key is Some {
            AuthMode::ApiKey
        } else {
            AuthMode::Chatgpt
        },
    }
}

/// The mode that credentials are for.
pub fn resolved_auth_mode(auth: &AuthDotJson) -> (res: AuthMode)
    ensures
        res == mode_of(auth@),
{
    if let Some(mode) = auth.auth_mode {
        return mode;
    }
    if auth.personal_access_token.is_some() {
        return AuthMode::PersonalAccessToken;
    }
    if auth.bedrock_api_key.is_some() {
        return AuthMode::BedrockApiKey;
    }
    if auth.bedrock_access_keys.is_some() {
        return AuthMode::BedrockAccessKeys;
    }
    if auth.openai_api_key.is_some() {
        return AuthMode::ApiKey;
    }
    AuthMode::Chatgpt
}

/// The mode that credentials are reported under.
pub fn auth_mode_from_auth(auth: &AuthDotJson) -> (res: AuthMode)
    ensures
        res == mode_of(auth@),
{
    resolved_auth_mode(auth)
}

/// The account that credentials are for, where they say enough of it.
pub open spec fn account_of(auth: AuthView, plans: PlanCatalog) -> Option<AccountView> {
    match mode_of(auth) {
        AuthMode::ApiKey => Some(AccountView::ApiKey),
        AuthMode::Chatgpt | AuthMode::ChatgptAuthTokens | AuthMode::PersonalAccessToken => {
            match auth.tokens {
                Some(tokens) => Some(
                    AccountView::Chatgpt {
                        email: tokens.id_token.email,
                        plan_type: plan_of(plans, tokens.id_token.chatgpt_plan_type),
                    },
                ),
                None => None,
            }
        },
        AuthMode::AgentIdentity => match auth.agent_identity {
            Some(AgentIdentityView::Record { email, plan_type, .. }) => Some(
                AccountView::Chatgpt { email, plan_type },
            ),
            _ => None,
        },
        AuthMode::BedrockApiKey | AuthMode::BedrockAccessKeys => Some(
            AccountView::AmazonBedrock { uses_codex_managed_credentials: true },
        ),
        AuthMode::Headers => None,
    }
}

/// The account that credentials are for, where they say enough of it.
pub fn account_from_auth(auth: &AuthDotJson, plans: &PlanCatalog) -> (res: Option<Account>)
    ensures
        model::opt_account(res) == account_of(auth@, *plans),
{
    match resolved_auth_mode(auth) {
        AuthMode::ApiKey => Some(Account::ApiKey),
        AuthMode::Chatgpt | AuthMode::ChatgptAuthTokens | AuthMode::PersonalAccessToken => {
            match &auth.tokens {
                Some(tokens) => Some(
                    Account::Chatgpt {
                        email: copy_option(&tokens.id_token.email),
                        plan_type: account_plan_type_from_auth(
                            &tokens.id_token.chatgpt_plan_type,
                            plans,
                        ),
                    },
                ),
                None => None,
            }
        },
        AuthMode::AgentIdentity => match &auth.agent_identity {
            Some(AgentIdentityStorage::Record { email, plan_type, .. }) => Some(
                Account::Chatgpt { email: copy_option(email), plan_type: plan_type.copy() },
            ),
            _ => None,
        },
        AuthMode::BedrockApiKey | AuthMode::BedrockAccessKeys => Some(
            Account::AmazonBedrock { uses_codex_managed_credentials: true },
        ),
        AuthMode::Headers => None,
    }
}

/// The characters of a profile's name.
pub open spec fn is_profile_char(c: char) -> bool {
    text::is_ascii_alphanumeric(c) || c == '.' || c == '_' || c == '-'
}

/// Whether a text may name a profile.
pub open spec fn is_profile_name(name: Seq<char>) -> bool {
    name.len() > 0 && name != "."@ && name != ".."@ && forall|i: int|
        0 <= i < name.len() ==> is_profile_char(#[trigger] name[i])
}

/// Whether a text may name a profile.
pub fn is_valid_profile_name(name: &str) -> (res: bool)
    ensures
        res == is_profile_name(name@),
{
    let chars = text::chars_of(name);
    if chars.len() == 0 || text::same_text(name, ".") || text::same_text(name, "..") {
        return false;
    }
    let mut i: usize = 0;
    while i < chars.len()
        invariant
            i <= chars@.len(),
            chars@ == name@,
            forall|j: int| 0 <= j < i ==> is_profile_char(#[trigger] name@[j]),
        decreases chars@.len() - i,
    {
        let c = chars[i];
        if !(text::char_is_ascii_alphabetic(c) || text::char_is_ascii_digit(c) || c == '.' || c
            == '_' || c == '-') {
            assert(!is_profile_char(name@[i as int]));
            return false;
        }
        i = i + 1;
    }
    true
}

/// The failure for a text that may not name a profile.
pub open spec fn profile_name_error() -> ErrorView {
    ErrorView {
        kind: ErrorKind::InvalidInput,
        message: "profile name must use only letters, numbers, '.', '_' or '-'"@,
    }
}

/// Checks that a text may name a profile.
pub fn validate_profile_name(name: &str) -> (res: Result<(), StoreError>)
    ensures
        match res {
            Ok(_) => is_profile_name(name@),
            Err(error) => !is_profile_name(name@) && error@ == profile_name_error(),
        },
{
    if is_valid_profile_name(name) {
        Ok(())
    } else {
        Err(
            StoreError::new(
                ErrorKind::InvalidInput,
                "profile name must use only letters, numbers, '.', '_' or '-'",
            ),
        )
    }
}

/// The directory of the named profiles.
pub fn auth_profiles_dir() -> (res: StorePath)
    ensures
        res@ == (PathView { base: PathBase::Home, components: seq![AUTH_PROFILES_DIRNAME@] }),
{
    StorePath::at(PathBase::Home).join(AUTH_PROFILES_DIRNAME.to_string())
}

/// The directory of one profile.
pub fn auth_profile_home(name: &str) -> (res: StorePath)
    ensures
        res@ == (PathView {
            base: PathBase::Home,
            components: seq![AUTH_PROFILES_DIRNAME@, name@],
        }),
{
    auth_profiles_dir().join(name.to_string())
}

/// The credentials of a profile, from what reading its directory gave.
pub fn load_auth_profile(name: &str, stored: Result<Option<AuthDotJson>, StoreError>) -> (res:
    Result<AuthDotJson, StoreError>)
    ensures
        match res {
            Ok(auth) => is_profile_name(name@) && stored == Ok::<Option<AuthDotJson>, StoreError>(
                Some(auth),
            ),
            Err(error) => if !is_profile_name(name@) {
                error@ == profile_name_error()
            } else {
                match stored {
                    Err(failure) => error == failure,
                    Ok(found) => found is None && error@ == (ErrorView {
                        kind: ErrorKind::NotFound,
                        message: "auth profile "@ + text::str_debug(name@) + " not found"@,
                    }),
                }
            },
        },
{
    match validate_profile_name(name) {
        Ok(_) => {},
        Err(error) => {
            return Err(error);
        },
    }
    match stored {
        Err(failure) => Err(failure),
        Ok(Some(auth)) => Ok(auth),
        Ok(None) => {
            let shown = text::debug_str(name);
            Err(
                StoreError::with(
                    ErrorKind::NotFound,
                    text::joined3("auth profile ", shown.as_str(), " not found"),
                ),
            )
        },
    }
}

/// A profile's directory lies directly below the one of all profiles.
pub proof fn profile_names_are_single_components(name: Seq<char>)
    requires
        is_profile_name(name),
    ensures
        name.len() > 0,
        name != "."@,
        name != ".."@,
        forall|i: int|
            0 <= i < name.len() ==> (#[trigger] name[i]) != '/' && name[i] != '\\' && name[i]
                != ':',
{
    assert forall|i: int| 0 <= i < name.len() implies (#[trigger] name[i]) != '/' && name[i]
        != '\\' && name[i] != ':' by {
        assert(is_profile_char(name[i]));
    }
}

} // verus!
