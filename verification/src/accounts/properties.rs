//! What saved accounts, their credentials and their usage come to, said of the values themselves.

use vstd::prelude::*;
use crate::accounts::auth_profiles;
use crate::accounts::auth_profiles::PlanCatalog;
use crate::accounts::model::{
    AccountView, AgentIdentityView, AuthMode, AuthView, ErrorKind, ErrorView, PlanType,
};
use crate::accounts::operations;
use crate::accounts::operations::{LoginPolicy, WorkspaceMetadata, WorkspaceToken};
use crate::accounts::order;
use crate::accounts::sessions;
use crate::accounts::sessions::{AccountEntry, AccountsCheck, IndexView, SessionView, WorkspaceKind};
use crate::accounts::slots;
use crate::accounts::store;
use crate::accounts::store::{ActiveStore, Disk, IndexFileView, Progress, Run};
use crate::paths;
use crate::text;

verus! {

/// Two known user IDs decide alone whether credentials are for the person of an account. Where one of
/// them is missing, the e-mail addresses decide, and those must both be known. Without tokens nobody
/// is known.
pub proof fn people_are_told_by_their_user_id(session: SessionView, auth: AuthView)
    ensures
        auth.tokens is None ==> !sessions::is_same_identity(session, auth),
        auth.tokens matches Some(tokens) ==> (tokens.id_token.chatgpt_user_id matches Some(known) ==> (
        session.user_id matches Some(saved) ==> (sessions::is_same_identity(session, auth) <==> saved
            == known))),
        auth.tokens matches Some(tokens) ==> (tokens.id_token.chatgpt_user_id is None
            || session.user_id is None ==> {
            &&& tokens.id_token.email is None || session.email is None
                ==> !sessions::is_same_identity(session, auth)
            &&& tokens.id_token.email matches Some(known) ==> (session.email matches Some(saved) ==> (
            sessions::is_same_identity(session, auth) <==> text::same_ignoring_ascii_case(
                saved,
                known,
            )))
        }),
{
}

/// A ChatGPT login that the program manages has tokens and no other secret, except that an API key
/// may stand beside tokens where the mode is stated.
pub proof fn managed_logins_hold_tokens_alone(auth: AuthView)
    ensures
        sessions::is_managed_chatgpt(auth) ==> auth.tokens is Some && auth.agent_identity is None
            && auth.personal_access_token is None && auth.bedrock_api_key is None
            && auth.bedrock_access_keys is None,
        sessions::is_managed_chatgpt(auth) && auth.auth_mode is None ==> auth.openai_api_key is None,
        sessions::is_managed_chatgpt(auth) && auth.auth_mode is Some ==> auth.auth_mode->0
            == AuthMode::Chatgpt,
        auth.tokens is Some && auth.agent_identity is None && auth.personal_access_token is None
            && auth.bedrock_api_key is None && auth.bedrock_access_keys is None && (auth.auth_mode
            == Some(AuthMode::Chatgpt) || (auth.auth_mode is None && auth.openai_api_key is None))
            ==> sessions::is_managed_chatgpt(auth),
{
}

/// Credentials belong to an account that has the very same, whenever those were refreshed, and to no
/// account without any. Managed ones belong to an account of their person with managed ones; others
/// with other secrets or in another mode do not belong to it.
pub proof fn credentials_belong_where_they_are_saved(
    session: SessionView,
    saved: AuthView,
    auth: AuthView,
)
    ensures
        !sessions::belongs_to(session, None, auth),
        saved == (AuthView { last_refresh: saved.last_refresh, ..auth }) ==> sessions::belongs_to(
            session,
            Some(saved),
            auth,
        ),
        sessions::is_managed_chatgpt(auth) && sessions::is_managed_chatgpt(saved)
            && sessions::is_same_identity(session, auth) ==> sessions::belongs_to(
            session,
            Some(saved),
            auth,
        ),
        (!sessions::is_managed_chatgpt(auth) || !sessions::is_managed_chatgpt(saved)
            || !sessions::is_same_identity(session, auth)) && (saved.openai_api_key
            != auth.openai_api_key || saved.tokens != auth.tokens || saved.agent_identity
            != auth.agent_identity || saved.personal_access_token != auth.personal_access_token
            || saved.bedrock_api_key != auth.bedrock_api_key || saved.bedrock_access_keys
            != auth.bedrock_access_keys || auth_profiles::mode_of(saved) != auth_profiles::mode_of(
            auth,
        )) ==> !sessions::belongs_to(session, Some(saved), auth),
{
}

/// Credentials are found with the first account that they belong to, if there is any.
pub proof fn credentials_are_found_with_their_account(
    listed: Seq<SessionView>,
    slots: Map<Seq<char>, AuthView>,
    auth: AuthView,
    from: int,
)
    requires
        from >= 0,
    ensures
        sessions::matching_session(listed, slots, auth, from) matches Some(at) ==> from <= at
            < listed.len() && slots.contains_key(listed[at].session_id) && sessions::belongs_to(
            listed[at],
            Some(slots[listed[at].session_id]),
            auth,
        ),
        forall|i: int|
            from <= i < listed.len() && slots.contains_key((#[trigger] listed[i]).session_id)
                && sessions::belongs_to(listed[i], Some(slots[listed[i].session_id]), auth) ==> (
            sessions::matching_session(listed, slots, auth, from) matches Some(at) && at <= i),
    decreases listed.len() - from,
{
    if from < listed.len() && !sessions::belongs_to(
        listed[from],
        slots::lookup(slots, listed[from].session_id),
        auth,
    ) {
        credentials_are_found_with_their_account(listed, slots, auth, from + 1);
    }
}

/// Credentials that state their mode have it. Others show it by what they hold: a personal token comes
/// before the credentials for Bedrock, those before an API key, and a ChatGPT login is what is left.
pub proof fn credentials_show_their_mode(auth: AuthView)
    ensures
        auth.auth_mode matches Some(mode) ==> auth_profiles::mode_of(auth) == mode,
        auth.auth_mode is None ==> {
            &&& auth_profiles::mode_of(auth) == AuthMode::PersonalAccessToken
                <==> auth.personal_access_token is Some
            &&& auth_profiles::mode_of(auth) == AuthMode::BedrockApiKey
                <==> auth.personal_access_token is None && auth.bedrock_api_key is Some
            &&& auth_profiles::mode_of(auth) == AuthMode::BedrockAccessKeys
                <==> auth.personal_access_token is None && auth.bedrock_api_key is None
                && auth.bedrock_access_keys is Some
            &&& auth_profiles::mode_of(auth) == AuthMode::ApiKey
                <==> auth.personal_access_token is None && auth.bedrock_api_key is None
                && auth.bedrock_access_keys is None && auth.openai_api_key is Some
            &&& auth_profiles::mode_of(auth) == AuthMode::Chatgpt
                <==> auth.personal_access_token is None && auth.bedrock_api_key is None
                && auth.bedrock_access_keys is None && auth.openai_api_key is None
        },
{
}

proof fn lemma_plan_named(known: Seq<PlanType>, name: Seq<char>, from: int)
    requires
        from >= 0,
    ensures
        auth_profiles::plan_named(known, name, from) matches Some(plan) ==> plan.name == name
            && exists|i: int| from <= i < known.len() && (#[trigger] known[i])@ == plan,
        auth_profiles::plan_named(known, name, from) is None ==> forall|i: int|
            from <= i < known.len() ==> (#[trigger] known[i]).name@ != name,
    decreases known.len() - from,
{
    if from < known.len() {
        if known[from].name@ == name {
            assert(known[from]@ == auth_profiles::plan_named(known, name, from)->0);
        } else {
            lemma_plan_named(known, name, from + 1);
        }
    }
}

/// A known plan is told by its name; for any other name, and without one, it is the plan for all
/// others.
pub proof fn plans_are_told_by_their_name(plans: PlanCatalog, name: Seq<char>)
    ensures
        auth_profiles::plan_of(plans, None) == plans.unknown@,
        (exists|i: int| 0 <= i < plans.known@.len() && (#[trigger] plans.known@[i]).name@ == name)
            ==> auth_profiles::plan_of(plans, Some(name)).name == name && exists|i: int|
            0 <= i < plans.known@.len() && (#[trigger] plans.known@[i])@ == auth_profiles::plan_of(
                plans,
                Some(name),
            ),
        (forall|i: int| 0 <= i < plans.known@.len() ==> (#[trigger] plans.known@[i]).name@ != name)
            ==> auth_profiles::plan_of(plans, Some(name)) == plans.unknown@,
{
    lemma_plan_named(plans.known@, name, 0);
}

/// What account credentials are for, mode by mode.
pub proof fn credentials_tell_their_account(auth: AuthView, plans: PlanCatalog)
    requires
        auth.auth_mode is Some,
    ensures
        ({
            let mode = auth.auth_mode->0;
            let account = auth_profiles::account_of(auth, plans);
            &&& mode == AuthMode::ApiKey ==> account == Some(AccountView::ApiKey)
            &&& mode == AuthMode::BedrockApiKey || mode == AuthMode::BedrockAccessKeys ==> account
                == Some(AccountView::AmazonBedrock { uses_codex_managed_credentials: true })
            &&& mode == AuthMode::Headers ==> account is None
            &&& mode == AuthMode::Chatgpt || mode == AuthMode::ChatgptAuthTokens || mode
                == AuthMode::PersonalAccessToken ==> {
                &&& auth.tokens is None ==> account is None
                &&& auth.tokens matches Some(tokens) ==> (account matches Some(
                    AccountView::Chatgpt { email, plan_type },
                ) && email == tokens.id_token.email && plan_type == auth_profiles::plan_of(
                    plans,
                    tokens.id_token.chatgpt_plan_type,
                ))
            }
            &&& mode == AuthMode::AgentIdentity ==> match auth.agent_identity {
                Some(AgentIdentityView::Record { email, plan_type, .. }) => account == Some(
                    AccountView::Chatgpt { email, plan_type },
                ),
                _ => account is None,
            }
        }),
{
}

/// An account whose credentials are first saved is known by them: by their address, their user and
/// their workspace, which is the one of the tokens before that of the ID token. It was used when it
/// was saved.
pub proof fn saved_accounts_are_known_by_their_tokens(auth: AuthView, id: Seq<char>, now: int)
    ensures
        ({
            let session = sessions::session_of(auth, id, now);
            &&& session.session_id == id
            &&& session.last_used_at == now
            &&& session.display_name is None
            &&& session.image_url is None
            &&& auth.tokens is None ==> session.user_id is None
                && session.selected_workspace_account_id is None && session.workspaces.len() == 0
            &&& auth.tokens matches Some(tokens) ==> {
                &&& session.user_id == tokens.id_token.chatgpt_user_id
                &&& tokens.account_id is Some ==> session.selected_workspace_account_id
                    == tokens.account_id
                &&& tokens.account_id is None ==> session.selected_workspace_account_id
                    == tokens.id_token.chatgpt_account_id
                &&& auth.auth_mode == Some(AuthMode::Chatgpt) ==> session.email
                    == tokens.id_token.email
            }
            &&& session.selected_workspace_account_id matches Some(workspace) ==> session.workspaces.len()
                == 1 && session.workspaces[0].account_id == workspace && session.workspaces[0].name is None
        }),
{
}

/// The workspaces of an account are those that the backend lists, one for one. The selected one is
/// that of the token; without one the backend's default, and without that the first in its order.
pub proof fn workspaces_are_listed_one_for_one(
    session: SessionView,
    token_account_id: Option<Seq<char>>,
    check: AccountsCheck,
)
    ensures
        ({
            let listed = sessions::with_workspaces(session, token_account_id, check);
            &&& token_account_id is Some ==> listed.selected_workspace_account_id == token_account_id
            &&& token_account_id is None ==> (check.default_account_id matches Some(id)
                ==> listed.selected_workspace_account_id == Some(id@))
            &&& token_account_id is None && check.default_account_id is None
                && check.account_ordering@.len() > 0 ==> listed.selected_workspace_account_id == Some(
                check.account_ordering@[0]@,
            )
            &&& token_account_id is None && check.default_account_id is None
                && check.account_ordering@.len() == 0 ==> listed.selected_workspace_account_id is None
            &&& listed.session_id == session.session_id
            &&& listed.email == session.email
            &&& listed.user_id == session.user_id
            &&& listed.last_used_at == session.last_used_at
            &&& listed.workspaces.len() == check.accounts@.len()
            &&& forall|i: int|
                0 <= i < check.accounts@.len() ==> {
                    let entry = check.accounts@[i];
                    let workspace = #[trigger] listed.workspaces[i];
                    &&& workspace.account_id == entry.id@
                    &&& entry.name is None ==> workspace.name is None
                    &&& entry.name matches Some(name) ==> workspace.name == Some(name@)
                    &&& entry.profile_picture_url is None ==> workspace.image_url is None
                    &&& entry.profile_picture_url matches Some(url) ==> workspace.image_url == Some(
                        url@,
                    )
                    &&& workspace.kind == Some(WorkspaceKind::Personal) <==> entry.structure@
                        == "personal"@
                    &&& workspace.kind == Some(WorkspaceKind::Workspace) <==> entry.structure@
                        == "workspace"@
                }
        }),
{
    reveal_strlit("personal");
    reveal_strlit("workspace");
    assert("personal"@.len() != "workspace"@.len());
}

/// Every saved account is reported, and nothing else: those used last come first, the current one is
/// marked, and each is told by its own credentials.
pub proof fn saved_accounts_are_reported(
    index: IndexView,
    slots: Map<Seq<char>, AuthView>,
    plans: PlanCatalog,
)
    ensures
        ({
            let response = sessions::response_of(index, slots, plans);
            let shown = response.sessions;
            &&& response.active_session_id == index.active_session_id
            &&& shown.len() == index.sessions.len()
            &&& forall|i: int|
                0 <= i < index.sessions.len() ==> exists|k: int|
                    0 <= k < shown.len() && (#[trigger] shown[k]).session
                        == #[trigger] index.sessions[i]
            &&& forall|k: int|
                0 <= k < shown.len() ==> exists|i: int|
                    0 <= i < index.sessions.len() && #[trigger] index.sessions[i]
                        == (#[trigger] shown[k]).session
            &&& forall|i: int, k: int|
                0 <= i < k < shown.len() ==> (#[trigger] shown[i]).session.last_used_at >= (
                #[trigger] shown[k]).session.last_used_at
            &&& forall|k: int|
                0 <= k < shown.len() ==> {
                    let id = (#[trigger] shown[k]).session.session_id;
                    &&& shown[k].is_active <==> index.active_session_id == Some(id)
                    &&& shown[k].rate_limits is None
                    &&& slots.contains_key(id) ==> shown[k].account == auth_profiles::account_of(
                        slots[id],
                        plans,
                    )
                    &&& !slots.contains_key(id) ==> shown[k].account is None
                }
        }),
{
    broadcast use vstd::seq_lib::group_to_multiset_ensures;

    let given = index.sessions.map_values(
        |session: SessionView| sessions::reported(session, index.active_session_id, slots, plans),
    );
    let shown = sessions::response_of(index, slots, plans).sessions;
    order::sorting_keeps_items_and_puts_newest_first(given, sessions::used_at());
    assert forall|i: int| 0 <= i < index.sessions.len() implies exists|k: int|
        0 <= k < shown.len() && (#[trigger] shown[k]).session == #[trigger] index.sessions[i] by {
        assert(given.contains(given[i]));
        assert(given.to_multiset().count(given[i]) > 0);
        assert(shown.contains(given[i]));
        let k = shown.index_of(given[i]);
        assert(shown[k].session == index.sessions[i]);
    }
    assert forall|k: int| 0 <= k < shown.len() implies {
        &&& exists|i: int|
            0 <= i < index.sessions.len() && #[trigger] index.sessions[i] == (
            #[trigger] shown[k]).session
        &&& shown[k] == sessions::reported(
            shown[k].session,
            index.active_session_id,
            slots,
            plans,
        )
    } by {
        assert(shown.contains(shown[k]));
        assert(shown.to_multiset().count(shown[k]) > 0);
        assert(given.contains(shown[k]));
        let i = given.index_of(shown[k]);
        assert(index.sessions[i] == shown[k].session);
    }
    assert forall|i: int, k: int| 0 <= i < k < shown.len() implies (
    #[trigger] shown[i]).session.last_used_at >= (#[trigger] shown[k]).session.last_used_at by {
        assert(sessions::used_at()(shown[i]) >= sessions::used_at()(shown[k]));
    }
}

/// A list can be worked with where its version is known, no ID leads out of the directory of the
/// credentials, and the current account is in it.
pub proof fn sound_lists_are_worked_with(index: IndexView)
    ensures
        sessions::index_problem(index) is None <==> {
            &&& index.schema_version == 1
            &&& forall|i: int|
                0 <= i < index.sessions.len() ==> paths::stays_below(
                    (#[trigger] index.sessions[i]).session_id,
                )
            &&& index.active_session_id matches Some(active) ==> exists|i: int|
                0 <= i < index.sessions.len() && (#[trigger] index.sessions[i]).session_id == active
        },
{
    if let Some(active) = index.active_session_id {
        sessions::lemma_place_of(index.sessions, active, 0);
    }
}

/// An ID names the account that has it before any address does. An address names the account that has
/// it; where two have it, or none, nothing is selected.
pub proof fn selectors_are_ids_or_addresses(listed: Seq<SessionView>, selector: Seq<char>)
    ensures
        (exists|i: int| 0 <= i < listed.len() && (#[trigger] listed[i]).session_id == selector) ==> (
        sessions::resolved(listed, selector) matches Ok(at) && 0 <= at < listed.len()
            && listed[at].session_id == selector),
        sessions::resolved(listed, selector) matches Ok(at) ==> 0 <= at < listed.len() && (
        listed[at].session_id == selector || (listed[at].email matches Some(email)
            && text::same_ignoring_ascii_case(email, selector))),
        forall|i: int|
            0 <= i < listed.len() && (forall|k: int|
                0 <= k < listed.len() ==> (#[trigger] listed[k]).session_id != selector) && (
            (#[trigger] listed[i]).email matches Some(email) && text::same_ignoring_ascii_case(
                email,
                selector,
            )) ==> {
                ||| sessions::resolved(listed, selector) == Ok::<int, ErrorView>(i)
                ||| sessions::resolved(listed, selector) matches Err(error) && error.kind
                    == ErrorKind::InvalidInput
            },
        sessions::resolved(listed, selector) matches Err(error) && error.kind
            == ErrorKind::InvalidInput ==> exists|i: int, k: int|
            0 <= i < k < listed.len() && sessions::has_address(#[trigger] listed[i], selector)
                && sessions::has_address(#[trigger] listed[k], selector),
        sessions::resolved(listed, selector) matches Err(error) ==> error.kind
            == ErrorKind::InvalidInput || error.kind == ErrorKind::NotFound,
{
    sessions::lemma_place_of(listed, selector, 0);
    sessions::lemma_places_with_address(listed, selector);
    assert forall|i: int| 0 <= i < listed.len() && sessions::has_address(
        #[trigger] listed[i],
        selector,
    ) implies sessions::places_with_address(listed, selector).contains(i) by {
        sessions::lemma_address_is_listed(listed, selector, i);
    }
    let places = sessions::places_with_address(listed, selector);
    if places.len() > 1 {
        lemma_places_rise(listed, selector);
        assert(sessions::has_address(listed[places[0]], selector));
        assert(sessions::has_address(listed[places[1]], selector));
    }
}

proof fn lemma_places_rise(listed: Seq<SessionView>, address: Seq<char>)
    ensures
        ({
            let places = sessions::places_with_address(listed, address);
            &&& forall|i: int|
                0 <= i < places.len() ==> 0 <= (#[trigger] places[i]) < listed.len()
            &&& forall|i: int, k: int|
                0 <= i < k < places.len() ==> (#[trigger] places[i]) < (#[trigger] places[k])
        }),
    decreases listed.len(),
{
    if listed.len() > 0 {
        let before = sessions::places_with_address(listed.drop_last(), address);
        lemma_places_rise(listed.drop_last(), address);
        let places = sessions::places_with_address(listed, address);
        assert(forall|i: int| 0 <= i < before.len() ==> #[trigger] places[i] == before[i]);
    }
}

/// Keys are allowed where logins with keys are, everything else where ChatGPT logins are.
pub proof fn keys_and_logins_are_allowed_apart(policy: LoginPolicy)
    ensures
        operations::is_allowed(policy, AuthMode::ApiKey) == policy.api_allowed,
        operations::is_allowed(policy, AuthMode::BedrockApiKey) == policy.api_allowed,
        operations::is_allowed(policy, AuthMode::BedrockAccessKeys) == policy.api_allowed,
        operations::is_allowed(policy, AuthMode::Chatgpt) == policy.chatgpt_allowed,
        operations::is_allowed(policy, AuthMode::ChatgptAuthTokens) == policy.chatgpt_allowed,
        operations::is_allowed(policy, AuthMode::Headers) == policy.chatgpt_allowed,
        operations::is_allowed(policy, AuthMode::AgentIdentity) == policy.chatgpt_allowed,
        operations::is_allowed(policy, AuthMode::PersonalAccessToken) == policy.chatgpt_allowed,
{
}

/// An account with credentials that the policy allows can be switched to; one whose credentials it
/// does not allow is refused for want of permission.
pub proof fn allowed_accounts_can_be_switched_to(
    index: IndexView,
    run: Run,
    policy: LoginPolicy,
    at: int,
)
    requires
        0 <= at < index.sessions.len(),
        forall|i: int|
            0 <= i < at ==> (#[trigger] index.sessions[i]).session_id
                != index.sessions[at].session_id,
        run.disk.slots.contains_key(index.sessions[at].session_id),
    ensures
        ({
            let id = index.sessions[at].session_id;
            let auth = run.disk.slots[id];
            let target = operations::switch_target(index, run, policy, id, false);
            &&& operations::is_allowed(policy, auth_profiles::mode_of(auth)) ==> target == Ok::<
                (int, AuthView),
                ErrorView,
            >((at, auth))
            &&& !operations::is_allowed(policy, auth_profiles::mode_of(auth)) ==> (target matches Err(
                error,
            ) && error.kind == ErrorKind::PermissionDenied)
            &&& operations::switch_target(index, run, policy, id, true) is Ok
                <==> operations::is_allowed(policy, auth_profiles::mode_of(auth))
                && sessions::is_managed_chatgpt(auth)
        }),
{
    sessions::lemma_place_of(index.sessions, index.sessions[at].session_id, 0);
    lemma_first_place(index.sessions, at, 0);
}

proof fn lemma_first_place(listed: Seq<SessionView>, at: int, from: int)
    requires
        0 <= from <= at < listed.len(),
        forall|i: int| 0 <= i < at ==> (#[trigger] listed[i]).session_id != listed[at].session_id,
    ensures
        sessions::place_of(listed, listed[at].session_id, from) == Some(at),
    decreases at - from,
{
    if from < at {
        lemma_first_place(listed, at, from + 1);
    }
}

/// A switch notes that the account was used and makes it the current one; the other accounts stay as
/// they were.
pub proof fn switches_note_their_time(
    index: IndexView,
    run: Run,
    settings: ActiveStore,
    plans: PlanCatalog,
    policy: LoginPolicy,
    selector: Seq<char>,
    now: int,
)
    requires
        operations::switch_run(index, run, settings, plans, policy, selector, now).0 is Ok,
    ensures
        ({
            let end = operations::switch_run(index, run, settings, plans, policy, selector, now).1;
            let at = sessions::resolved(index.sessions, selector)->Ok_0;
            let listed = end.disk.index->Stored_0;
            &&& end.disk.index is Stored
            &&& listed.active_session_id == Some(index.sessions[at].session_id)
            &&& listed.schema_version == index.schema_version
            &&& listed.legacy_profiles_migrated == index.legacy_profiles_migrated
            &&& listed.sessions.len() == index.sessions.len()
            &&& listed.sessions[at] == (SessionView { last_used_at: now, ..index.sessions[at] })
            &&& forall|i: int|
                0 <= i < index.sessions.len() && i != at ==> #[trigger] listed.sessions[i]
                    == index.sessions[i]
        }),
{
    sessions::selectors_name_one_account(index.sessions, selector);
}

/// A switch to another workspace selects it, lists what the backend lists, and notes that the account
/// was used. The new credentials hold the new tokens: the refresh token is kept where none was given.
pub proof fn workspace_switches_select_the_workspace(
    index: IndexView,
    run: Run,
    settings: ActiveStore,
    plans: PlanCatalog,
    policy: LoginPolicy,
    at: int,
    account_id: Seq<char>,
    check: AccountsCheck,
    token: WorkspaceToken,
    time: i128,
    now: int,
)
    requires
        0 <= at < index.sessions.len(),
        operations::checked_workspace_run(
            index,
            run,
            settings,
            plans,
            policy,
            at,
            account_id,
            check,
            token,
            time,
            now,
        ).0 is Ok,
    ensures
        ({
            let end = operations::checked_workspace_run(
                index,
                run,
                settings,
                plans,
                policy,
                at,
                account_id,
                check,
                token,
                time,
                now,
            ).1;
            let id = index.sessions[at].session_id;
            let listed = end.disk.index->Stored_0;
            let session = listed.sessions[at];
            let before = run.disk.slots[id];
            let after = end.disk.slots[id];
            &&& exists|i: int|
                0 <= i < check.accounts@.len() && (#[trigger] check.accounts@[i]).id@ == account_id
            &&& policy.workspaces matches Some(allowed) ==> exists|i: int|
                0 <= i < allowed@.len() && (#[trigger] allowed@[i])@ == account_id
            &&& end.disk.index is Stored
            &&& listed.active_session_id == Some(id)
            &&& session.session_id == id
            &&& session.email == index.sessions[at].email
            &&& session.user_id == index.sessions[at].user_id
            &&& session.last_used_at == now
            &&& session.selected_workspace_account_id == Some(account_id)
            &&& session.workspaces.len() == check.accounts@.len()
            &&& forall|i: int|
                0 <= i < check.accounts@.len() ==> (#[trigger] session.workspaces[i]).account_id
                    == check.accounts@[i].id@
            &&& forall|i: int|
                0 <= i < index.sessions.len() && i != at ==> #[trigger] listed.sessions[i]
                    == index.sessions[i]
            &&& run.disk.slots.contains_key(id)
            &&& end.disk.slots.contains_key(id)
            &&& before.tokens is Some
            &&& after.tokens is Some
            &&& after.last_refresh == Some(time)
            &&& after.auth_mode == before.auth_mode
            &&& after.openai_api_key == before.openai_api_key
            &&& after.tokens->0.id_token == before.tokens->0.id_token
            &&& after.tokens->0.account_id == Some(account_id)
            &&& after.tokens->0.access_token == token.access_token@
            &&& token.refresh_token is None ==> after.tokens->0.refresh_token
                == before.tokens->0.refresh_token
            &&& token.refresh_token matches Some(given) ==> after.tokens->0.refresh_token == given@
            &&& settings == ActiveStore::Configured ==> end.disk.configured == Some(after)
            &&& settings == ActiveStore::Ephemeral ==> end.disk.ephemeral == Some(after)
        }),
{
    if let Some(allowed) = policy.workspaces {
        let i = text::views(allowed@).index_of(account_id);
        assert(text::views(allowed@)[i] == account_id);
        assert(allowed@[i]@ == account_id);
    }
}

/// A workspace that the backend lists and that the policy does not rule out may be switched to.
pub proof fn listed_workspaces_may_be_switched_to(
    entries: Seq<AccountEntry>,
    policy: LoginPolicy,
    account_id: Seq<char>,
)
    requires
        exists|i: int| 0 <= i < entries.len() && (#[trigger] entries[i]).id@ == account_id,
        policy.workspaces matches Some(allowed) ==> exists|i: int|
            0 <= i < allowed@.len() && (#[trigger] allowed@[i])@ == account_id,
    ensures
        operations::workspace_problem(entries, policy, account_id) is None,
{
    if let Some(allowed) = policy.workspaces {
        let i = choose|i: int| 0 <= i < allowed@.len() && (#[trigger] allowed@[i])@ == account_id;
        assert(text::views(allowed@)[i] == account_id);
    }
}

/// The credentials in memory are in use before those where the settings say.
pub proof fn credentials_in_memory_come_first(disk: Disk, settings: ActiveStore)
    ensures
        disk.ephemeral is Some ==> store::active_auth(disk, settings) == disk.ephemeral,
        disk.ephemeral is None && settings == ActiveStore::Configured ==> store::active_auth(
            disk,
            settings,
        ) == disk.configured,
        disk.ephemeral is None && settings == ActiveStore::Ephemeral ==> store::active_auth(
            disk,
            settings,
        ) is None,
{
}

/// Tokens that the program was handed are put to use in memory alone; all others where the settings
/// say, and then none are left in memory.
pub proof fn tokens_from_outside_stay_in_memory(run: Run, auth: AuthView, settings: ActiveStore)
    ensures
        ({
            let disk = store::activated(run, auth, settings).disk;
            let handed = auth.auth_mode == Some(AuthMode::ChatgptAuthTokens);
            &&& handed || settings == ActiveStore::Ephemeral ==> disk.ephemeral == Some(auth)
            &&& handed && settings == ActiveStore::Configured ==> disk.configured is None
            &&& !handed && settings == ActiveStore::Configured ==> disk.configured == Some(auth)
                && disk.ephemeral is None
            &&& settings == ActiveStore::Ephemeral ==> disk.configured == run.disk.configured
        }),
{
}

/// Whether an account is listed by what its credentials say, with the workspaces that the backend
/// listed, if it was asked.
pub open spec fn is_told_by(
    session: SessionView,
    auth: AuthView,
    metadata: Option<WorkspaceMetadata>,
) -> bool {
    &&& auth.auth_mode == Some(AuthMode::Chatgpt) && auth.tokens is Some ==> session.email
        == auth.tokens->0.id_token.email
    &&& auth.tokens is Some ==> session.user_id == auth.tokens->0.id_token.chatgpt_user_id
    &&& metadata is None && auth.tokens is Some && auth.tokens->0.account_id is Some
        ==> session.selected_workspace_account_id == auth.tokens->0.account_id
    &&& metadata matches Some(metadata) ==> {
        &&& session.workspaces.len() == metadata.check.accounts@.len()
        &&& forall|i: int|
            0 <= i < session.workspaces.len() ==> (#[trigger] session.workspaces[i]).account_id
                == metadata.check.accounts@[i].id@
        &&& metadata.token_account_id matches Some(id) ==> session.selected_workspace_account_id
            == Some(id@)
    }
}

/// A login of a person who has an account takes its place and keeps its ID; that of anybody else is
/// listed as a new account at the end. The other accounts stay as they were.
proof fn lemma_added(
    index: IndexView,
    auth: AuthView,
    id: Seq<char>,
    metadata: Option<WorkspaceMetadata>,
    now: int,
)
    ensures
        ({
            let listed = operations::with_added(index, auth, id, metadata, now).sessions;
            let added = operations::added_id(index.sessions, auth, id);
            ||| {
                &&& forall|i: int|
                    0 <= i < index.sessions.len() ==> !sessions::is_same_identity(
                        #[trigger] index.sessions[i],
                        auth,
                    )
                &&& added == id
                &&& listed.len() == index.sessions.len() + 1
                &&& listed.drop_last() == index.sessions
                &&& listed.last().session_id == id
                &&& listed.last().last_used_at == now
                &&& is_told_by(listed.last(), auth, metadata)
            }
            ||| exists|at: int|
                #![trigger index.sessions[at]]
                {
                    &&& 0 <= at < index.sessions.len()
                    &&& sessions::is_same_identity(index.sessions[at], auth)
                    &&& forall|i: int|
                        0 <= i < at ==> !sessions::is_same_identity(
                            #[trigger] index.sessions[i],
                            auth,
                        )
                    &&& added == index.sessions[at].session_id
                    &&& listed == index.sessions.update(at, listed[at])
                    &&& listed[at].session_id == added
                    &&& listed[at].last_used_at == now
                    &&& is_told_by(listed[at], auth, metadata)
                }
        }),
{
    lemma_same_person(index.sessions, auth, 0);
    let listed = operations::with_added(index, auth, id, metadata, now).sessions;
    match operations::same_person(index.sessions, auth, 0) {
        Some(at) => {
            assert(sessions::is_same_identity(index.sessions[at], auth));
            assert(listed =~= index.sessions.update(at, listed[at]));
        },
        None => {
            assert(listed.drop_last() =~= index.sessions);
        },
    }
}

proof fn lemma_same_person(listed: Seq<SessionView>, auth: AuthView, from: int)
    requires
        from >= 0,
    ensures
        operations::same_person(listed, auth, from) matches Some(at) ==> from <= at < listed.len()
            && sessions::is_same_identity(listed[at], auth) && forall|i: int|
            from <= i < at ==> !sessions::is_same_identity(#[trigger] listed[i], auth),
        operations::same_person(listed, auth, from) is None ==> forall|i: int|
            from <= i < listed.len() ==> !sessions::is_same_identity(#[trigger] listed[i], auth),
    decreases listed.len() - from,
{
    if from < listed.len() && !sessions::is_same_identity(listed[from], auth) {
        lemma_same_person(listed, auth, from + 1);
    }
}

/// A login that is saved is listed: in the place of the account of the same person, under whose ID it
/// is saved, or as a new account at the end. The other accounts stay as they were.
pub proof fn saved_logins_are_listed(
    index: IndexView,
    run: Run,
    settings: ActiveStore,
    plans: PlanCatalog,
    auth: AuthView,
    id: Seq<char>,
    activates: bool,
    now: int,
)
    ensures
        ({
            let end = operations::add_auth_run(
                index,
                run,
                settings,
                plans,
                auth,
                id,
                activates,
                now,
            ).1;
            let listed = end.disk.index->Stored_0;
            let current = activates || index.active_session_id is None;
            &&& end.disk.index is Stored
            &&& current ==> store::active_auth(end.disk, settings) == Some(auth)
            &&& !current ==> listed.active_session_id == index.active_session_id
            &&& {
                ||| {
                    &&& forall|i: int|
                        0 <= i < index.sessions.len() ==> !sessions::is_same_identity(
                            #[trigger] index.sessions[i],
                            auth,
                        )
                    &&& listed.sessions.len() == index.sessions.len() + 1
                    &&& listed.sessions.drop_last() == index.sessions
                    &&& listed.sessions.last().session_id == id
                    &&& listed.sessions.last().last_used_at == now
                    &&& is_told_by(listed.sessions.last(), auth, None)
                    &&& end.disk.slots == run.disk.slots.insert(id, auth)
                    &&& current ==> listed.active_session_id == Some(id)
                }
                ||| exists|at: int|
                    #![trigger index.sessions[at]]
                    {
                        let own = index.sessions[at].session_id;
                        &&& 0 <= at < index.sessions.len()
                        &&& sessions::is_same_identity(index.sessions[at], auth)
                        &&& forall|i: int|
                            0 <= i < at ==> !sessions::is_same_identity(
                                #[trigger] index.sessions[i],
                                auth,
                            )
                        &&& listed.sessions == index.sessions.update(at, listed.sessions[at])
                        &&& listed.sessions[at].session_id == own
                        &&& listed.sessions[at].last_used_at == now
                        &&& is_told_by(listed.sessions[at], auth, None)
                        &&& end.disk.slots == run.disk.slots.insert(own, auth)
                        &&& current ==> listed.active_session_id == Some(own)
                    }
            }
        }),
{
    lemma_added(index, auth, id, None, now);
}

/// The credentials in use that are saved as an account are listed in the same way. Where the account
/// is to be switched to, or none is current, it becomes the current one, and the credentials in use
/// stay in use.
pub proof fn accounts_in_use_are_saved(
    index: IndexView,
    run: Run,
    settings: ActiveStore,
    plans: PlanCatalog,
    auth: AuthView,
    id: Seq<char>,
    metadata: Option<WorkspaceMetadata>,
    switches: bool,
    now: int,
)
    requires
        operations::add_run(index, run, settings, plans, auth, id, metadata, switches, now).0 is Ok,
    ensures
        ({
            let end = operations::add_run(
                index,
                run,
                settings,
                plans,
                auth,
                id,
                metadata,
                switches,
                now,
            ).1;
            let listed = end.disk.index->Stored_0;
            let current = switches || index.active_session_id is None;
            &&& end.disk.index is Stored
            &&& current ==> end.disk.ephemeral == run.disk.ephemeral && end.disk.configured
                == run.disk.configured
            &&& !current ==> listed.active_session_id == index.active_session_id
            &&& {
                ||| {
                    &&& forall|i: int|
                        0 <= i < index.sessions.len() ==> !sessions::is_same_identity(
                            #[trigger] index.sessions[i],
                            auth,
                        )
                    &&& listed.sessions.len() == index.sessions.len() + 1
                    &&& listed.sessions.drop_last() == index.sessions
                    &&& listed.sessions.last().session_id == id
                    &&& listed.sessions.last().last_used_at == now
                    &&& is_told_by(listed.sessions.last(), auth, metadata)
                    &&& end.disk.slots == run.disk.slots.insert(id, auth)
                    &&& current ==> listed.active_session_id == Some(id)
                }
                ||| exists|at: int|
                    #![trigger index.sessions[at]]
                    {
                        let own = index.sessions[at].session_id;
                        &&& 0 <= at < index.sessions.len()
                        &&& sessions::is_same_identity(index.sessions[at], auth)
                        &&& forall|i: int|
                            0 <= i < at ==> !sessions::is_same_identity(
                                #[trigger] index.sessions[i],
                                auth,
                            )
                        &&& listed.sessions == index.sessions.update(at, listed.sessions[at])
                        &&& listed.sessions[at].session_id == own
                        &&& listed.sessions[at].last_used_at == now
                        &&& is_told_by(listed.sessions[at], auth, metadata)
                        &&& end.disk.slots == run.disk.slots.insert(own, auth)
                        &&& current ==> listed.active_session_id == Some(own)
                    }
            }
        }),
{
    lemma_added(index, auth, id, metadata, now);
}

/// Credentials in use that others refreshed are saved with the current account, where they are managed
/// ones of its person; else nothing changes. The credentials in use stay, and so do the other accounts.
pub proof fn refreshes_of_others_are_taken_over(
    index: IndexView,
    run: Run,
    settings: ActiveStore,
    at: int,
)
    requires
        0 <= at < index.sessions.len(),
        index.active_session_id == Some(index.sessions[at].session_id),
        forall|i: int|
            0 <= i < at ==> (#[trigger] index.sessions[i]).session_id
                != index.sessions[at].session_id,
    ensures
        ({
            let Progress { index: listed, run: end } = store::synced(index, run, settings);
            let used = store::active_auth(run.disk, settings);
            let taken = used matches Some(auth) && sessions::is_managed_chatgpt(auth)
                && sessions::is_same_identity(index.sessions[at], auth);
            &&& end.disk.ephemeral == run.disk.ephemeral
            &&& end.disk.configured == run.disk.configured
            &&& end.disk.index == run.disk.index
            &&& !taken ==> listed == index && end == run
            &&& taken ==> end.disk.slots == run.disk.slots.insert(
                index.sessions[at].session_id,
                used->0,
            )
            &&& taken && used->0.tokens->0.account_id is None ==> listed == index
            &&& taken && used->0.tokens->0.account_id is Some ==> listed == (IndexView {
                sessions: index.sessions.update(
                    at,
                    SessionView {
                        selected_workspace_account_id: used->0.tokens->0.account_id,
                        ..index.sessions[at]
                    },
                ),
                ..index
            })
        }),
{
    lemma_first_place(index.sessions, at, 0);
}

/// Where no account is current, nothing is taken over from the credentials in use.
pub proof fn nothing_is_taken_over_without_an_account(
    index: IndexView,
    run: Run,
    settings: ActiveStore,
)
    requires
        index.active_session_id is None,
    ensures
        store::synced(index, run, settings).index == index,
        store::synced(index, run, settings).run == run,
{
}

/// Once no account is current any longer, the accounts are all still listed, and the credentials in
/// use stay in use.
pub proof fn deactivation_keeps_the_accounts(run: Run, settings: ActiveStore, index: IndexView)
    requires
        run.disk.index == IndexFileView::Stored(index),
        sessions::index_problem(index) is None,
    ensures
        ({
            let (result, end) = operations::deactivate_run(run, settings);
            let listed = end.disk.index->Stored_0;
            &&& result is Ok
            &&& end.disk.index is Stored
            &&& listed.active_session_id is None
            &&& end.disk.ephemeral == run.disk.ephemeral
            &&& end.disk.configured == run.disk.configured
            &&& listed.sessions.len() == index.sessions.len()
            &&& forall|i: int|
                0 <= i < index.sessions.len() ==> (#[trigger] listed.sessions[i]).session_id
                    == index.sessions[i].session_id && listed.sessions[i].last_used_at
                    == index.sessions[i].last_used_at
            &&& forall|id: Seq<char>|
                run.disk.slots.contains_key(id) ==> #[trigger] end.disk.slots.contains_key(id)
        }),
{
    if let Some(active) = index.active_session_id {
        sessions::lemma_place_of(index.sessions, active, 0);
    }
}

proof fn lemma_revoked_all(run: Run, listed: Seq<SessionView>)
    ensures
        ({
            let end = operations::revoked_all(run, listed);
            &&& forall|i: int|
                0 <= i < listed.len() ==> !end.disk.slots.contains_key(
                    (#[trigger] listed[i]).session_id,
                )
            &&& forall|id: Seq<char>|
                (forall|i: int| 0 <= i < listed.len() ==> (#[trigger] listed[i]).session_id != id)
                    ==> (#[trigger] end.disk.slots.contains_key(id) <==> run.disk.slots.contains_key(
                    id,
                ))
            &&& end.disk.ephemeral == run.disk.ephemeral
            &&& end.disk.configured == run.disk.configured
        }),
    decreases listed.len(),
{
    if listed.len() > 0 {
        let first = listed.drop_last();
        lemma_revoked_all(run, first);
        let end = operations::revoked_all(run, listed);
        let middle = operations::revoked_all(run, first);
        assert forall|i: int| 0 <= i < listed.len() implies !end.disk.slots.contains_key(
            (#[trigger] listed[i]).session_id,
        ) by {
            if i < first.len() {
                assert(!middle.disk.slots.contains_key(first[i].session_id));
            }
        }
        assert forall|id: Seq<char>|
            (forall|i: int| 0 <= i < listed.len() ==> (#[trigger] listed[i]).session_id != id) implies (
        #[trigger] end.disk.slots.contains_key(id) <==> run.disk.slots.contains_key(id)) by {
            assert(listed[listed.len() - 1].session_id != id);
            assert forall|i: int| 0 <= i < first.len() implies (#[trigger] first[i]).session_id
                != id by {
                assert(listed[i].session_id != id);
            }
            assert(middle.disk.slots.contains_key(id) <==> run.disk.slots.contains_key(id));
        }
    }
}

/// When every account is logged out, no listed account keeps its credentials, and no other loses any.
pub proof fn logging_out_everywhere_removes_every_account(
    run: Run,
    settings: ActiveStore,
    profiles: Seq<AuthView>,
    ids: Seq<Seq<char>>,
    now: int,
    index: IndexView,
)
    requires
        run.disk.index == IndexFileView::Stored(index),
        sessions::index_problem(index) is None,
        index.legacy_profiles_migrated,
    ensures
        ({
            let (told, end) = operations::revoke_all_run(run, settings, profiles, ids, now);
            &&& told
            &&& end.disk.index matches IndexFileView::Stored(listed) && listed.sessions.len() == 0
                && listed.active_session_id is None
            &&& forall|i: int|
                0 <= i < index.sessions.len() ==> !end.disk.slots.contains_key(
                    (#[trigger] index.sessions[i]).session_id,
                )
            &&& forall|id: Seq<char>|
                (forall|i: int|
                    0 <= i < index.sessions.len() ==> (#[trigger] index.sessions[i]).session_id != id)
                    ==> (#[trigger] end.disk.slots.contains_key(id) <==> run.disk.slots.contains_key(
                    id,
                ))
        }),
{
    lemma_revoked_all(run, index.sessions);
}

/// Refreshed credentials that are saved for an account bring its address, its user and its workspace
/// up to date; the account was not used by that, and the others stay as they were.
pub proof fn refreshes_bring_accounts_up_to_date(
    index: IndexView,
    run: Run,
    settings: ActiveStore,
    id: Seq<char>,
    before: AuthView,
    refreshed: AuthView,
)
    requires
        operations::persist_run(index, run, settings, id, before, refreshed).0,
    ensures
        ({
            let end = operations::persist_run(index, run, settings, id, before, refreshed).1;
            let at = sessions::place_of(index.sessions, id, 0)->0;
            let listed = end.disk.index->Stored_0;
            let session = listed.sessions[at];
            let fresh = sessions::session_of(refreshed, id, 0);
            &&& 0 <= at < index.sessions.len()
            &&& index.sessions[at].session_id == id
            &&& end.disk.index is Stored
            &&& listed.active_session_id == index.active_session_id
            &&& listed.sessions == index.sessions.update(at, session)
            &&& session.session_id == id
            &&& session.email == fresh.email
            &&& session.user_id == fresh.user_id
            &&& session.selected_workspace_account_id == fresh.selected_workspace_account_id
            &&& session.last_used_at == index.sessions[at].last_used_at
            &&& session.workspaces == index.sessions[at].workspaces
            &&& session.display_name == index.sessions[at].display_name
            &&& end.disk.slots[id] == refreshed
        }),
{
    sessions::lemma_place_of(index.sessions, id, 0);
}

/// A snapshot of an account gives the ID of the account that was selected and the credentials that are
/// saved under it.
pub proof fn snapshots_give_the_saved_credentials(index: IndexView, run: Run, selector: Seq<char>)
    ensures
        operations::snapshot_run(index, run, selector).0 matches Ok((id, auth)) ==> {
            &&& sessions::resolved(index.sessions, selector) is Ok
            &&& id == index.sessions[sessions::resolved(index.sessions, selector)->Ok_0].session_id
            &&& run.disk.slots.contains_key(id)
            &&& auth == run.disk.slots[id]
        },
        operations::snapshot_run(index, run, selector).1.disk.slots == run.disk.slots,
        operations::snapshot_run(index, run, selector).1.disk.ephemeral == run.disk.ephemeral,
        operations::snapshot_run(index, run, selector).1.disk.configured == run.disk.configured,
{
}

/// Of two copies of credentials the one that was refreshed later is fresher, and one that was never
/// refreshed is not fresher than any.
pub proof fn later_refreshes_are_fresher(a: AuthView, b: AuthView)
    ensures
        store::refreshed_at()(a) > store::refreshed_at()(b) <==> (a.last_refresh matches Some(time)
            && (b.last_refresh is None || time > b.last_refresh->0)),
{
}

/// The credentials in use are taken over and become the current account: the account that they belong
/// to, or else a new one at the end of the list. Without any, nothing is taken over.
pub proof fn accounts_in_use_become_current(
    progress: Progress,
    auth: AuthView,
    id: Seq<char>,
    now: int,
)
    ensures
        store::with_current(progress, None, id, now) == progress,
        ({
            let next = store::with_current(progress, Some(auth), id, now);
            let listed = progress.index.sessions;
            let slots = progress.run.disk.slots;
            ||| exists|at: int|
                #![trigger listed[at]]
                {
                    &&& 0 <= at < listed.len()
                    &&& slots.contains_key(listed[at].session_id)
                    &&& sessions::belongs_to(listed[at], Some(slots[listed[at].session_id]), auth)
                    &&& next.index.active_session_id == Some(listed[at].session_id)
                    &&& next.index.sessions == listed
                    &&& next.run == progress.run
                }
            ||| {
                &&& forall|i: int|
                    0 <= i < listed.len() && slots.contains_key((#[trigger] listed[i]).session_id)
                        ==> !sessions::belongs_to(
                        listed[i],
                        Some(slots[listed[i].session_id]),
                        auth,
                    )
                &&& next.index.active_session_id == Some(id)
                &&& next.index.sessions == listed.push(sessions::session_of(auth, id, now))
                &&& next.run.disk.slots == slots.insert(id, auth)
            }
        }),
{
    credentials_are_found_with_their_account(
        progress.index.sessions,
        progress.run.disk.slots,
        auth,
        0,
    );
}

/// A list that was not read is not written: where the file cannot be read, or what it holds cannot be
/// worked with, nothing is taken over. Where there is none, it begins empty.
pub proof fn unreadable_lists_are_left_alone(
    run: Run,
    settings: ActiveStore,
    profiles: Seq<AuthView>,
    ids: Seq<Seq<char>>,
    now: int,
)
    ensures
        run.disk.index matches IndexFileView::Unreadable(error) ==> store::opened(
            run,
            settings,
            profiles,
            ids,
            now,
        ) == (Err::<IndexView, ErrorView>(error), run),
        run.disk.index matches IndexFileView::Stored(index) ==> (sessions::index_problem(
            index,
        ) matches Some(error) ==> store::opened(run, settings, profiles, ids, now) == (
            Err::<IndexView, ErrorView>(error),
            run,
        )),
        run.disk.index is Missing ==> store::opened(run, settings, profiles, ids, now).0 is Ok,
        sessions::empty_index(true).sessions.len() == 0,
        sessions::empty_index(true).active_session_id is None,
        sessions::empty_index(true).legacy_profiles_migrated,
        !sessions::empty_index(false).legacy_profiles_migrated,
{
}

/// A profile's name is made of ASCII letters, ASCII digits, dots, underscores and hyphens, and is
/// neither empty nor one of the names that a directory has for itself and the one above it.
pub proof fn profile_names_are_plain(name: Seq<char>)
    ensures
        auth_profiles::is_profile_name(name) <==> {
            &&& name.len() > 0
            &&& name != seq!['.']
            &&& name != seq!['.', '.']
            &&& forall|i: int|
                0 <= i < name.len() ==> ('a' <= #[trigger] name[i] <= 'z') || ('A' <= name[i] <= 'Z')
                    || ('0' <= name[i] <= '9') || name[i] == '.' || name[i] == '_' || name[i] == '-'
        },
        auth_profiles::profile_name_error().kind == ErrorKind::InvalidInput,
{
    reveal_strlit(".");
    reveal_strlit("..");
    assert("."@ =~= seq!['.']);
    assert(".."@ =~= seq!['.', '.']);
    if forall|i: int|
        0 <= i < name.len() ==> ('a' <= #[trigger] name[i] <= 'z') || ('A' <= name[i] <= 'Z') || (
        '0' <= name[i] <= '9') || name[i] == '.' || name[i] == '_' || name[i] == '-' {
        assert forall|i: int| 0 <= i < name.len() implies auth_profiles::is_profile_char(
            #[trigger] name[i],
        ) by {}
    } else {
        let i = choose|i: int|
            0 <= i < name.len() && !(('a' <= #[trigger] name[i] <= 'z') || ('A' <= name[i] <= 'Z')
                || ('0' <= name[i] <= '9') || name[i] == '.' || name[i] == '_' || name[i] == '-');
        assert(!auth_profiles::is_profile_char(name[i]));
    }
}

} // verus!
