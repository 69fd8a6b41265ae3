//! What requests on accounts are answered with, said of the values themselves.

use vstd::prelude::*;
use crate::accounts::backend;
use crate::accounts::backend::{
    BackendAuth, BackendPurpose, BackendRateLimits, BackendWorkspaceMessage, CurrentAuth,
    LimitEntry,
};
use crate::accounts::login;
use crate::accounts::login::{
    ActiveLogin, AuthSituation, BedrockLoginCredentials, CancelLoginAccountStatus, CancelSignal,
    ChatgptLoginDestination, CredentialKind, FinishStep, ImmediateLogin, LoginAccountParams,
    LoginAppBrand, LoginRoute, LoginSlot, LoginSuccessPage, LoginWork, StatusAuth,
};
use crate::accounts::model::{
    Account, AccountView, AuthView, ErrorKind, ErrorView, RateLimitSnapshot,
};
use crate::accounts::operations::AccountSessionActivation;
use crate::accounts::priming;
use crate::accounts::priming::{
    AccountAction, AccountEvent, AccountPrimingProfileOutcome, AccountPrimingProfileResult,
    AccountPrimingState, AccountPrimingStatus, PhaseView, PrimingReply, RunMode,
};
use crate::accounts::rpc;
use crate::accounts::rpc::{AccountOperation, RpcError, RpcErrorKind};
use crate::accounts::sessions::{AccountSession, ReportedView};
use crate::accounts::usage;
use crate::accounts::usage::{CachedAccountRateLimits, UsageReply};
use crate::text;

verus! {

proof fn lemma_codex_place(snapshots: Seq<RateLimitSnapshot>, from: int)
    requires
        from >= 0,
    ensures
        usage::codex_place(snapshots, from) matches Some(at) ==> from <= at < snapshots.len() && (
        snapshots[at].limit_id matches Some(id) && id@ == "codex"@) && forall|i: int|
            from <= i < at ==> !((#[trigger] snapshots[i]).limit_id matches Some(id) && id@
                == "codex"@),
        usage::codex_place(snapshots, from) is None ==> forall|i: int|
            from <= i < snapshots.len() ==> !((#[trigger] snapshots[i]).limit_id matches Some(id)
                && id@ == "codex"@),
    decreases snapshots.len() - from,
{
    if from < snapshots.len() && text::opt_view(snapshots[from].limit_id) != Some(
        usage::CODEX_LIMIT_ID@,
    ) {
        lemma_codex_place(snapshots, from + 1);
    }
}

/// The usage to go by is that of the first limit for ordinary use, even where another comes before it;
/// without such a limit it is the first, and without any there is none.
pub proof fn ordinary_use_counts(snapshots: Seq<RateLimitSnapshot>)
    ensures
        usage::main_snapshot(snapshots) is None <==> snapshots.len() == 0,
        (exists|i: int|
            0 <= i < snapshots.len() && ((#[trigger] snapshots[i]).limit_id matches Some(id) && id@
                == "codex"@)) ==> exists|at: int|
            0 <= at < snapshots.len() && usage::main_snapshot(snapshots) == Some(
                #[trigger] snapshots[at],
            ) && (snapshots[at].limit_id matches Some(id) && id@ == "codex"@) && forall|i: int|
                0 <= i < at ==> !((#[trigger] snapshots[i]).limit_id matches Some(id) && id@
                    == "codex"@),
        snapshots.len() > 0 && (forall|i: int|
            0 <= i < snapshots.len() ==> !((#[trigger] snapshots[i]).limit_id matches Some(id) && id@
                == "codex"@)) ==> usage::main_snapshot(snapshots) == Some(snapshots[0]),
{
    lemma_codex_place(snapshots, 0);
}

/// A request for usage succeeds where it was answered with some usage, and only there. It tells a
/// cancellation and a lapse of time from other failures.
pub proof fn usage_comes_from_the_answer(reply: UsageReply)
    ensures
        usage::usage_result(reply) is Ok <==> (reply matches UsageReply::Answered(snapshots)
            && snapshots@.len() > 0),
        reply matches UsageReply::Answered(snapshots) ==> (usage::usage_result(reply) matches Ok(
            snapshot,
        ) ==> usage::main_snapshot(snapshots@) == Some(snapshot)),
        reply is Canceled ==> (usage::usage_result(reply) matches Err(error) && error.kind
            == ErrorKind::Interrupted),
        reply is TimedOut ==> (usage::usage_result(reply) matches Err(error) && error.kind
            == ErrorKind::TimedOut),
        reply matches UsageReply::Failed { message, .. } ==> (usage::usage_result(reply) matches Err(
            error,
        ) && error.message == message@),
{
    lemma_codex_place(reply->Answered_0@, 0);
}

/// A request is repeated where its credentials were rejected, this program can refresh them, and it
/// was not canceled: nothing else makes it worth repeating.
pub proof fn rejected_requests_are_repeated(managed: bool, reply: UsageReply, canceled: bool)
    ensures
        reply is Answered || reply is Canceled || reply is TimedOut ==> !usage::is_retried(
            managed,
            reply,
            canceled,
        ),
        reply matches UsageReply::Failed { unauthorized, .. } ==> (usage::is_retried(
            managed,
            reply,
            canceled,
        ) <==> unauthorized && managed && !canceled),
{
}

/// Usage that was found out serves for a minute, and only for the credentials that it was found out
/// with.
pub proof fn usage_serves_for_a_minute(entry: CachedAccountRateLimits, auth: AuthView, now: u64)
    ensures
        entry.auth@ != auth ==> !usage::is_good(entry, auth, now),
        entry.auth@ == auth && now <= entry.fetched_at + 60 * 1000000000 ==> usage::is_good(
            entry,
            auth,
            now,
        ),
        now > entry.fetched_at + 60 * 1000000000 ==> !usage::is_good(entry, auth, now),
{
}

/// An account is shown with its usage. The plan that the usage is counted for becomes that of a
/// ChatGPT account; nothing else of the account changes.
pub proof fn usage_is_shown_with_the_account(
    reported: ReportedView,
    limits: Option<RateLimitSnapshot>,
)
    ensures
        ({
            let shown = usage::with_usage(reported, limits);
            &&& shown.rate_limits == limits
            &&& shown.session == reported.session
            &&& shown.is_active == reported.is_active
            &&& limits is None || limits->0.plan_type is None ==> shown.account == reported.account
            &&& limits matches Some(limits) ==> (limits.plan_type matches Some(plan) ==> (
            reported.account matches Some(AccountView::Chatgpt { email, .. }) ==> shown.account
                == Some(AccountView::Chatgpt { email, plan_type: plan@ })))
            &&& !(reported.account matches Some(AccountView::Chatgpt { .. })) ==> shown.account
                == reported.account
        }),
{
}

/// The current account is the first that is marked.
pub proof fn the_current_account_is_marked(reported: Seq<ReportedView>, from: int)
    requires
        from >= 0,
    ensures
        usage::active_place(reported, from) matches Some(at) ==> from <= at < reported.len()
            && reported[at].is_active && forall|i: int|
            from <= i < at ==> !(#[trigger] reported[i]).is_active,
        usage::active_place(reported, from) is None ==> forall|i: int|
            from <= i < reported.len() ==> !(#[trigger] reported[i]).is_active,
    decreases reported.len() - from,
{
    if from < reported.len() && !reported[from].is_active {
        the_current_account_is_marked(reported, from + 1);
    }
}

/// An answer is about the account at hand only where both its IDs are those of the account, and never
/// for a government account.
pub proof fn answers_are_matched_by_both_ids(response: BackendRateLimits, auth: BackendAuth)
    ensures
        auth.is_fedramp_account ==> !backend::is_about(response, auth),
        response.account_id is None || auth.account_id is None ==> !backend::is_about(response, auth),
        response.user_id is None || auth.chatgpt_user_id is None ==> !backend::is_about(
            response,
            auth,
        ),
        !auth.is_fedramp_account && response.account_id is Some && auth.account_id is Some
            && response.user_id is Some && auth.chatgpt_user_id is Some ==> (backend::is_about(
            response,
            auth,
        ) <==> response.account_id->0@ == auth.account_id->0@ && response.user_id->0@
            == auth.chatgpt_user_id->0@),
{
}

/// The usage of a limit is the last that was sent for it. What is sent without a limit is for ordinary
/// use.
pub proof fn the_last_usage_of_a_limit_counts(snapshots: Seq<RateLimitSnapshot>, limit: Seq<char>)
    ensures
        backend::last_snapshot(snapshots, limit) is None <==> forall|i: int|
            0 <= i < snapshots.len() ==> backend::limit_of(#[trigger] snapshots[i]) != limit,
        backend::last_snapshot(snapshots, limit) matches Some(snapshot) ==> exists|at: int|
            0 <= at < snapshots.len() && snapshot == #[trigger] snapshots[at] && backend::limit_of(
                snapshot,
            ) == limit && forall|i: int|
                at < i < snapshots.len() ==> backend::limit_of(#[trigger] snapshots[i]) != limit,
    decreases snapshots.len(),
{
    if snapshots.len() > 0 {
        let first = snapshots.drop_last();
        let last = snapshots.len() - 1;
        if backend::limit_of(snapshots.last()) == limit {
            assert(snapshots[last] == snapshots.last());
        } else {
            the_last_usage_of_a_limit_counts(first, limit);
            if backend::last_snapshot(first, limit) is None {
                assert forall|i: int| 0 <= i < snapshots.len() implies backend::limit_of(
                    #[trigger] snapshots[i],
                ) != limit by {
                    if i < last {
                        assert(first[i] == snapshots[i]);
                    }
                }
            } else {
                let snapshot = backend::last_snapshot(first, limit)->0;
                let at = choose|at: int|
                    0 <= at < first.len() && snapshot == #[trigger] first[at] && backend::limit_of(
                        snapshot,
                    ) == limit && forall|i: int|
                        at < i < first.len() ==> backend::limit_of(#[trigger] first[i]) != limit;
                assert(snapshots[at] == first[at]);
                assert forall|i: int| at < i < snapshots.len() implies backend::limit_of(
                    #[trigger] snapshots[i],
                ) != limit by {
                    if i < last {
                        assert(first[i] == snapshots[i]);
                    }
                }
            }
        }
    }
}

/// What limit usage is for: the one that it names, else that for ordinary use.
pub proof fn unnamed_limits_are_for_ordinary_use(snapshot: RateLimitSnapshot)
    ensures
        snapshot.limit_id is None ==> backend::limit_of(snapshot) == "codex"@,
        snapshot.limit_id matches Some(id) ==> backend::limit_of(snapshot) == id@,
{
}

/// Nothing is asked of the backend without credentials for it, and what is refused is told as a bad
/// request.
pub proof fn the_backend_is_asked_with_its_credentials(
    auth: Option<BackendAuth>,
    purpose: BackendPurpose,
)
    ensures
        backend::backend_problem(auth, purpose) is None <==> (auth matches Some(auth)
            && auth.uses_codex_backend),
        backend::backend_problem(auth, purpose) matches Some(error) ==> error.kind
            == RpcErrorKind::InvalidRequest,
{
}

/// A message is passed on with its own text and kind, and without a time only where none was sent.
pub proof fn messages_are_passed_on_unchanged(
    message: backend::WorkspaceMessage,
    sent: BackendWorkspaceMessage,
)
    requires
        backend::passes_on(message, sent),
    ensures
        message.message_id == sent.message_id,
        message.message_body == sent.message_body,
        message.message_type is Headline <==> sent.message_type is Headline,
        message.message_type is Announcement <==> sent.message_type is Announcement,
        message.created_at is None <==> sent.created_at is None,
        message.archived_at is None <==> sent.archived_at is None,
        sent.created_at matches Some(time) ==> backend::rfc3339_seconds(time@) == Ok::<
            i64,
            Seq<char>,
        >(message.created_at->0),
        sent.archived_at matches Some(time) ==> backend::rfc3339_seconds(time@) == Ok::<
            i64,
            Seq<char>,
        >(message.archived_at->0),
{
}

/// The account that the program runs with is told by its credentials; that of a ChatGPT login only
/// where both its address and its plan are known.
pub proof fn the_account_in_use_is_told(auth: CurrentAuth)
    ensures
        auth.is_api_key ==> backend::current_account(auth) == Some(AccountView::ApiKey),
        !auth.is_api_key && auth.is_bedrock ==> backend::current_account(auth) == Some(
            AccountView::AmazonBedrock { uses_codex_managed_credentials: true },
        ),
        !auth.is_api_key && !auth.is_bedrock && !auth.is_chatgpt ==> backend::current_account(
            auth,
        ) is None,
        !auth.is_api_key && !auth.is_bedrock && auth.is_chatgpt ==> {
            &&& auth.email is None || auth.plan_type is None ==> backend::current_account(auth) is None
            &&& auth.email matches Some(email) ==> (auth.plan_type matches Some(plan)
                ==> backend::current_account(auth) == Some(
                AccountView::Chatgpt { email: Some(email@), plan_type: plan@ },
            ))
        },
{
}

/// A selector that names no account, or more than one, is a fault of the request; whatever else goes
/// wrong is not.
pub proof fn wrong_selectors_are_faults_of_the_request(error: ErrorView)
    ensures
        ({
            let told = rpc::selection_error(error);
            &&& error.kind == ErrorKind::InvalidInput ==> told.kind == RpcErrorKind::InvalidParams
                && told.message == error.message
            &&& error.kind == ErrorKind::NotFound || error.kind == ErrorKind::AlreadyExists
                ==> told.kind == RpcErrorKind::InvalidRequest && told.message == error.message
            &&& error.kind != ErrorKind::InvalidInput && error.kind != ErrorKind::NotFound
                && error.kind != ErrorKind::AlreadyExists ==> told.kind == RpcErrorKind::Internal
                && told.message == "saved account operation failed: "@ + error.message
        }),
{
}

/// A failure is told with its cause at the end of the message. Only a pass that is asked for while
/// another runs is a fault of the request.
pub proof fn failures_are_told_with_their_cause(operation: AccountOperation, cause: Seq<char>)
    ensures
        ({
            let told = rpc::operation_failure(operation, cause);
            &&& told.message.len() >= cause.len()
            &&& told.message.skip(told.message.len() - cause.len()) == cause
            &&& told.kind == RpcErrorKind::InvalidRequest <==> operation is StartPriming
                || operation is RunPriming
            &&& told.kind == RpcErrorKind::Internal <==> !(operation is StartPriming
                || operation is RunPriming)
        }),
{
    let told = rpc::operation_failure(operation, cause);
    let context = rpc::failure_context(operation);
    assert(told.message == context + cause);
    assert((context + cause).skip(context.len() as int) =~= cause);
}

/// Each kind of login is asked for with its own parameters, which are handed on as they are. A hosted
/// page is shown only where that was asked for, and then for the brand that was named.
pub proof fn parameters_ask_for_their_login(params: LoginAccountParams)
    ensures
        params matches LoginAccountParams::ApiKey { api_key } ==> login::route_of(params)
            == LoginRoute::ApiKey(api_key),
        params is ChatgptDeviceCode ==> login::route_of(params) is DeviceCode,
        params matches LoginAccountParams::Chatgpt {
            app_brand,
            codex_streamlined_login,
            use_hosted_login_success_page,
        } ==> (login::route_of(params) matches LoginRoute::Browser {
            codex_streamlined_login: streamlined,
            success_page,
        } && streamlined == codex_streamlined_login && (success_page is Local
            <==> !use_hosted_login_success_page) && (use_hosted_login_success_page ==> (match app_brand {
            Some(brand) => success_page == LoginSuccessPage::Hosted(brand),
            None => success_page == LoginSuccessPage::Hosted(LoginAppBrand::Codex),
        }))),
        params matches LoginAccountParams::ChatgptAuthTokens {
            access_token,
            chatgpt_account_id,
            chatgpt_plan_type,
        } ==> login::route_of(params) == (LoginRoute::AuthTokens {
            access_token,
            chatgpt_account_id,
            chatgpt_plan_type,
        }),
        params matches LoginAccountParams::AmazonBedrock { api_key, region } ==> (login::route_of(
            params,
        ) matches LoginRoute::Bedrock { credentials, region: to } && to == region && credentials
            == BedrockLoginCredentials::ApiKey(api_key)),
        login::is_managed_login(params) <==> params is Chatgpt || params is ChatgptDeviceCode,
{
}

/// While the program runs with tokens from outside, only new tokens from outside replace them. Beyond
/// that a login with a key is refused where such logins are not allowed, and a ChatGPT login where
/// those are not.
pub proof fn logins_are_refused_by_the_policy(situation: AuthSituation)
    ensures
        login::api_key_problem(situation) is None <==> !situation.external_chatgpt_auth_active
            && situation.policy.api_allowed,
        login::chatgpt_problem(situation) is None <==> !situation.external_chatgpt_auth_active
            && situation.policy.chatgpt_allowed,
        login::bedrock_problem(situation) is None <==> !situation.workload_identity_selected
            && !situation.external_chatgpt_auth_active && situation.policy.api_allowed,
        login::api_key_problem(situation) matches Some(error) ==> error.kind
            == RpcErrorKind::InvalidRequest,
        login::chatgpt_problem(situation) matches Some(error) ==> error.kind
            == RpcErrorKind::InvalidRequest,
        login::bedrock_problem(situation) matches Some(error) ==> error.kind
            == RpcErrorKind::InvalidRequest,
{
}

/// Tokens from outside are taken where ChatGPT logins are allowed, for a workspace that the policy
/// does not rule out.
pub proof fn tokens_are_taken_for_allowed_workspaces(
    situation: AuthSituation,
    account_id: Seq<char>,
)
    ensures
        login::tokens_problem(situation, account_id) is None <==> {
            &&& situation.policy.chatgpt_allowed
            &&& situation.policy.workspaces matches Some(allowed) ==> exists|i: int|
                0 <= i < allowed@.len() && (#[trigger] allowed@[i])@ == account_id
        },
{
    if let Some(allowed) = situation.policy.workspaces {
        let views = text::views(allowed@);
        if views.contains(account_id) {
            let i = views.index_of(account_id);
            assert(views[i] == account_id);
            assert(allowed@[i]@ == account_id);
        }
        if exists|i: int| 0 <= i < allowed@.len() && (#[trigger] allowed@[i])@ == account_id {
            let i = choose|i: int|
                0 <= i < allowed@.len() && (#[trigger] allowed@[i])@ == account_id;
            assert(views[i] == account_id);
        }
    }
}

/// Credentials for Bedrock are taken where none of them is blank, for a region that is supported; they
/// are saved without the white space around them.
pub proof fn bedrock_logins_need_credentials_and_a_region(
    situation: AuthSituation,
    credentials: BedrockLoginCredentials,
    region: Seq<char>,
    supported: Seq<Seq<char>>,
)
    ensures
        login::bedrock_login_problem(situation, credentials, region, supported) is None <==> {
            &&& !situation.workload_identity_selected
            &&& !situation.external_chatgpt_auth_active
            &&& situation.policy.api_allowed
            &&& supported.contains(text::trim(region))
            &&& credentials matches BedrockLoginCredentials::ApiKey(key) ==> text::trim(key@).len()
                > 0
            &&& credentials matches BedrockLoginCredentials::AccessKeys {
                access_key_id,
                secret_access_key,
                ..
            } ==> text::trim(access_key_id@).len() > 0 && text::trim(secret_access_key@).len() > 0
        },
{
}

/// Credentials are saved as they were handed in, without the white space around them; a blank session
/// token is none.
pub proof fn bedrock_credentials_are_saved_trimmed(
    saved: BedrockLoginCredentials,
    given: BedrockLoginCredentials,
)
    requires
        login::is_trimmed(saved, given),
    ensures
        given matches BedrockLoginCredentials::ApiKey(key) ==> (
        saved matches BedrockLoginCredentials::ApiKey(kept) && kept@ == text::trim(key@)),
        given matches BedrockLoginCredentials::AccessKeys {
            access_key_id: id,
            secret_access_key: secret,
            session_token: token,
        } ==> (saved matches BedrockLoginCredentials::AccessKeys {
            access_key_id,
            secret_access_key,
            session_token,
        } && access_key_id@ == text::trim(id@) && secret_access_key@ == text::trim(secret@) && (
        session_token is Some <==> token is Some && text::trim(token->0@).len() > 0) && (
        session_token is Some ==> session_token->0@ == text::trim(token->0@))),
{
}

/// Only the login under way can be canceled: it is ended in its own way, and none is under way then.
/// To cancel any other leaves it alone.
pub proof fn logins_are_canceled_by_their_id(slot: LoginSlot, login_id: u128)
    ensures
        slot.active is None ==> login::cancel_status(slot, login_id) is NotFound && login::ending(
            slot,
        ) is None && login::canceled(slot, login_id) == slot,
        slot.active == Some(ActiveLogin::Browser { login_id }) ==> login::cancel_status(
            slot,
            login_id,
        ) is Canceled && login::ending(slot) == Some(CancelSignal::ShutDownServer(login_id))
            && login::canceled(slot, login_id).active is None,
        slot.active == Some(ActiveLogin::DeviceCode { login_id }) ==> login::cancel_status(
            slot,
            login_id,
        ) is Canceled && login::ending(slot) == Some(CancelSignal::CancelWait(login_id))
            && login::canceled(slot, login_id).active is None,
        slot.active != Some(ActiveLogin::Browser { login_id }) && slot.active != Some(
            ActiveLogin::DeviceCode { login_id },
        ) ==> login::cancel_status(slot, login_id) is NotFound && login::canceled(slot, login_id)
            == slot,
        forall|login: ActiveLogin| (#[trigger] login::started(login)).active == Some(login),
{
}

/// A login that succeeds while it is under way is saved, and put to use where that was asked for. One
/// that fails is not saved.
pub proof fn successful_logins_are_saved(
    slot: LoginSlot,
    login_id: u128,
    destination: ChatgptLoginDestination,
)
    requires
        slot.active == Some(ActiveLogin::Browser { login_id }) || slot.active == Some(
            ActiveLogin::DeviceCode { login_id },
        ),
    ensures
        destination is Activate ==> login::finish_step(slot, login_id, true, destination)
            == FinishStep::Save(AccountSessionActivation::Activate),
        destination is AddWithoutSwitching ==> login::finish_step(slot, login_id, true, destination)
            == FinishStep::Save(AccountSessionActivation::PreserveCurrent),
        login::finish_step(slot, login_id, false, destination) is NothingToSave,
{
}

/// A token is told only of credentials that are one, never where the host signs the program in, and
/// not where it can no longer be refreshed.
pub proof fn tokens_are_told_with_care(
    situation: AuthSituation,
    auth: StatusAuth,
    include_token: bool,
)
    ensures
        situation.workload_identity_selected ==> login::keeps_token(situation, auth, include_token),
        auth.kind != CredentialKind::Token ==> login::keeps_token(situation, auth, include_token),
        !situation.workload_identity_selected && auth.kind == CredentialKind::Token ==> (
        login::keeps_token(situation, auth, include_token) <==> include_token
            && auth.permanent_refresh_failure),
{
}

/// A new worker has the interval it was asked to keep, and is not in a pass yet.
pub proof fn workers_keep_their_interval(id: u128, mode: RunMode, now: i64)
    ensures
        ({
            let worker = priming::started_worker(id, mode, now);
            &&& worker.id == id
            &&& worker.started_at == now
            &&& worker.current_run_started_at is None
            &&& worker.current_profile_name is None
            &&& mode is Once <==> worker.interval_seconds is None
            &&& mode matches RunMode::Periodic(interval) ==> worker.interval_seconds == Some(interval)
        }),
{
}

/// The status tells whether there is a worker and what it is at, and the last pass in any case.
pub proof fn statuses_tell_the_worker(status: AccountPrimingStatus, state: AccountPrimingState)
    requires
        priming::is_status_of(status, state),
    ensures
        status.running <==> state.worker is Some,
        state.worker matches Some(worker) ==> status.interval_seconds == worker.interval_seconds
            && status.started_at == Some(worker.started_at) && status.current_run_started_at
            == worker.current_run_started_at && status.current_profile_name
            == worker.current_profile_name,
        state.worker is None ==> status.interval_seconds is None && status.started_at is None
            && status.current_run_started_at is None && status.current_profile_name is None,
        status.last_run is Some <==> state.last_run is Some,
        state.last_run matches Some(last) ==> status.last_run->0.results@ == last.results@
            && status.last_run->0.started_at == last.started_at && status.last_run->0.completed_at
            == last.completed_at && status.last_run->0.cancelled == last.cancelled
            && status.last_run->0.primed_count == last.primed_count
            && status.last_run->0.already_active_count == last.already_active_count
            && status.last_run->0.unsupported_count == last.unsupported_count
            && status.last_run->0.failed_count == last.failed_count,
{
}

/// A worker is the present one by its ID.
pub proof fn workers_are_told_by_their_id(state: AccountPrimingState, id: u128)
    ensures
        state.worker is None ==> !priming::is_present(state, id),
        state.worker matches Some(worker) ==> (priming::is_present(state, id) <==> worker.id == id),
{
}

/// Results are those of the accounts, one for each and in their order, under the address of the
/// account or else its ID.
pub proof fn results_name_their_accounts(
    results: Seq<AccountPrimingProfileResult>,
    accounts: Seq<AccountSession>,
)
    requires
        priming::are_results_of(results, accounts),
    ensures
        results.len() == accounts.len(),
        forall|i: int|
            0 <= i < results.len() ==> (#[trigger] results[i]).account == accounts[i].account && (
            match accounts[i].email {
                Some(email) => results[i].profile_name@ == email@,
                None => results[i].profile_name@ == accounts[i].session_id@,
            }),
{
    assert forall|i: int| 0 <= i < results.len() implies (#[trigger] results[i]).account
        == accounts[i].account && (match accounts[i].email {
        Some(email) => results[i].profile_name@ == email@,
        None => results[i].profile_name@ == accounts[i].session_id@,
    }) by {
        assert(priming::is_result_of(results[i], accounts[i]));
    }
}

/// An account that can be primed has its usage read, is primed, and has its usage read again; whatever
/// comes of that, its credentials are saved, and then it is done.
pub proof fn accounts_are_primed_step_by_step(phase: PhaseView, event: AccountEvent)
    requires
        priming::fits(phase, event),
    ensures
        ({
            let next = priming::next_phase(phase, event);
            let action = priming::action_of(next);
            &&& phase is Loading && event == (AccountEvent::Loaded { primable: true }) ==> action
                == AccountAction::FetchUsage
            &&& phase is Loading && event != (AccountEvent::Loaded { primable: true }) ==> action
                == AccountAction::Finish
            &&& phase is Priming ==> (event matches AccountEvent::Primed(reply) && (reply is Ok
                ==> action == AccountAction::FetchUsage && next is ReadingAfter) && (reply is Err
                ==> action == AccountAction::SaveCredentials))
            &&& phase is ReadingAfter ==> action == AccountAction::SaveCredentials
            &&& phase is ReadingBefore ==> (event matches AccountEvent::Usage(reply) && (reply is Err
                ==> action == AccountAction::SaveCredentials))
            &&& phase is Saving ==> action == AccountAction::Finish && next is Done
        }),
{
}

/// A request of a pass succeeds where it ended well, and tells a cancellation and a lapse of time from
/// other failures.
pub proof fn priming_succeeds_where_its_request_does(reply: PrimingReply)
    ensures
        priming::priming_result(reply) is Ok <==> (reply matches PrimingReply::Ended(end)
            && end is Ok),
        reply is Canceled ==> (priming::priming_result(reply) matches Err(error) && error.kind
            == ErrorKind::Interrupted),
        reply is TimedOut ==> (priming::priming_result(reply) matches Err(error) && error.kind
            == ErrorKind::TimedOut),
        reply matches PrimingReply::Ended(end) ==> (end matches Err(message) ==> (
        priming::priming_result(reply) matches Err(error) && error.message == message@)),
        forall|has_auth: bool, has_provider: bool|
            #[trigger] priming::priming_problem(has_auth, has_provider) is None <==> has_auth
                && has_provider,
{
}

/// To cancel the login under way tells that it was canceled and ends it in its own way. To cancel any
/// other is told as not found, and an ID that is none is refused; neither changes anything.
pub proof fn cancellations_end_the_login(
    before: LoginSlot,
    after: LoginSlot,
    text: Seq<char>,
    parsed: Option<u128>,
    res: Result<(CancelLoginAccountStatus, Option<CancelSignal>), RpcError>,
)
    requires
        login::is_cancel(before, after, text, parsed, res),
    ensures
        parsed is None ==> after == before && (res matches Err(error) && error@.kind
            == RpcErrorKind::InvalidRequest),
        parsed matches Some(id) ==> {
            &&& before.active == Some(ActiveLogin::Browser { login_id: id }) ==> after.active is None
                && (res matches Ok((status, signal)) && status is Canceled && signal == Some(
                CancelSignal::ShutDownServer(id),
            ))
            &&& before.active == Some(ActiveLogin::DeviceCode { login_id: id })
                ==> after.active is None && (res matches Ok((status, signal)) && status is Canceled
                && signal == Some(CancelSignal::CancelWait(id)))
            &&& before.active != Some(ActiveLogin::Browser { login_id: id }) && before.active != Some(
                ActiveLogin::DeviceCode { login_id: id },
            ) ==> after == before && (res matches Ok((status, signal)) && status is NotFound
                && signal is None)
        },
{
}

/// A device code that is not to be had at all is a fault of the request; any other failure to get one
/// is told with its cause.
pub proof fn missing_device_codes_are_told(error: ErrorView)
    ensures
        error.kind == ErrorKind::NotFound ==> login::device_code_error(error).kind
            == RpcErrorKind::InvalidRequest && login::device_code_error(error).message
            == error.message,
        error.kind != ErrorKind::NotFound ==> login::device_code_error(error).kind
            == RpcErrorKind::Internal && login::device_code_error(error).message
            == "failed to request device code: "@ + error.message,
{
}

/// The plan of an account is told where it is a ChatGPT account.
pub proof fn plans_are_told_of_chatgpt_accounts(account: Option<Account>)
    ensures
        account matches Some(Account::Chatgpt { plan_type, .. }) ==> login::plan_of_account(account)
            == Some(plan_type),
        account is None || account->0 is ApiKey || account->0 is AmazonBedrock
            ==> login::plan_of_account(account) is None,
{
}

/// An account that fails is told with the reason: the failure to save its credentials before that of
/// priming, and usage windows that still do not run are one.
pub proof fn failed_accounts_tell_why(
    phase: PhaseView,
    event: AccountEvent,
    before: AccountPrimingProfileResult,
    after: AccountPrimingProfileResult,
)
    requires
        priming::fits(phase, event),
        priming::bears_on(phase, event, before, after),
    ensures
        after.profile_name == before.profile_name,
        after.account == before.account,
        event matches AccountEvent::NotLoaded(message) ==> text::opt_view(after.error) == Some(
            "failed to load saved account: "@ + message@,
        ),
        event matches AccountEvent::Saved(saved) ==> (saved matches Err(error) ==> after.outcome
            == AccountPrimingProfileOutcome::Failed && text::opt_view(after.error) == Some(
            "failed to prime account: "@ + error@.message,
        )),
        event matches AccountEvent::Saved(saved) ==> (saved is Ok ==> (phase matches PhaseView::Saving(
            operation,
        ) ==> (operation matches Err(error) ==> after.outcome
            == AccountPrimingProfileOutcome::Failed && text::opt_view(after.error) == Some(
            "failed to prime account: "@ + error.message,
        )))),
        phase is ReadingAfter ==> (event matches AccountEvent::Usage(reply) ==> (reply matches Ok(
            snapshot,
        ) ==> (snapshot.primary is None || snapshot.secondary is None ==> (priming::next_phase(
            phase,
            event,
        ) matches PhaseView::Saving(operation) && operation is Err)))),
{
}

/// A login without a wait saves its credentials once and reloads them last. One with a key ends the
/// login under way first, and one for Bedrock checks the provider before anything is given up for it.
pub proof fn immediate_logins_reload_last(login: ImmediateLogin)
    ensures
        ({
            let works = login::works_of(login);
            &&& works.len() >= 3
            &&& works[works.len() - 1] == LoginWork::Reload
            &&& works[works.len() - 2] == LoginWork::SaveCredentials
            &&& forall|i: int|
                0 <= i < works.len() - 2 ==> #[trigger] works[i] != LoginWork::SaveCredentials
                    && works[i] != LoginWork::Reload
            &&& login is ApiKey || login is Bedrock ==> works.contains(LoginWork::CancelActiveLogin)
            &&& login is AuthTokens ==> !works.contains(LoginWork::CancelActiveLogin)
            &&& login is Bedrock ==> exists|i: int, k: int, m: int|
                0 <= i < k < m < works.len() && #[trigger] works[i] == LoginWork::CheckProvider
                    && #[trigger] works[k] == LoginWork::DeactivateAccounts && #[trigger] works[m]
                    == LoginWork::ConfigureProvider
            &&& works.contains(LoginWork::DeactivateAccounts)
        }),
{
    let works = login::works_of(login);
    match login {
        ImmediateLogin::ApiKey => {
            assert(works[0] == LoginWork::DeactivateAccounts);
            assert(works[1] == LoginWork::CancelActiveLogin);
        },
        ImmediateLogin::Bedrock => {
            assert(works[0] == LoginWork::CancelActiveLogin);
            assert(works[1] == LoginWork::CheckProvider);
            assert(works[2] == LoginWork::DeactivateAccounts);
            assert(works[3] == LoginWork::ConfigureProvider);
        },
        ImmediateLogin::AuthTokens => {
            assert(works[0] == LoginWork::DeactivateAccounts);
        },
    }
}

proof fn lemma_entry_of(entries: Seq<LimitEntry>, at: int)
    requires
        0 <= at < entries.len(),
        backend::entries_differ(entries),
    ensures
        backend::entry_of(entries, entries[at].limit_id@) == Some(entries[at].snapshot),
    decreases entries.len(),
{
    if at < entries.len() - 1 {
        let first = entries.drop_last();
        assert(entries[entries.len() - 1].limit_id@ != entries[at].limit_id@);
        assert forall|i: int, j: int| 0 <= i < j < first.len() implies (
        #[trigger] first[i]).limit_id@ != (#[trigger] first[j]).limit_id@ by {
            assert(entries[i].limit_id@ != entries[j].limit_id@);
        }
        assert(first[at] == entries[at]);
        lemma_entry_of(first, at);
    }
}

proof fn lemma_entry_is_listed(entries: Seq<LimitEntry>, limit: Seq<char>)
    requires
        backend::entry_of(entries, limit) is Some,
    ensures
        exists|at: int|
            0 <= at < entries.len() && (#[trigger] entries[at]).limit_id@ == limit
                && entries[at].snapshot == backend::entry_of(entries, limit)->0,
    decreases entries.len(),
{
    if entries.last().limit_id@ == limit {
        assert(entries[entries.len() - 1].limit_id@ == limit);
    } else {
        let first = entries.drop_last();
        lemma_entry_is_listed(first, limit);
        let at = choose|at: int|
            0 <= at < first.len() && (#[trigger] first[at]).limit_id@ == limit && first[at].snapshot
                == backend::entry_of(first, limit)->0;
        assert(entries[at] == first[at]);
    }
}

/// Usage is passed on by limit: each limit that usage was sent for once, with the last that was sent
/// for it, and nothing else.
pub proof fn limits_are_passed_on_once(
    entries: Seq<LimitEntry>,
    snapshots: Seq<RateLimitSnapshot>,
)
    requires
        backend::are_by_limit(entries, snapshots),
    ensures
        forall|i: int, j: int|
            0 <= i < j < entries.len() ==> (#[trigger] entries[i]).limit_id@ != (
            #[trigger] entries[j]).limit_id@,
        forall|at: int|
            0 <= at < entries.len() ==> backend::last_snapshot(
                snapshots,
                (#[trigger] entries[at]).limit_id@,
            ) == Some(entries[at].snapshot),
        forall|i: int|
            0 <= i < snapshots.len() ==> exists|at: int|
                0 <= at < entries.len() && (#[trigger] entries[at]).limit_id@ == backend::limit_of(
                    #[trigger] snapshots[i],
                ),
{
    assert forall|at: int| 0 <= at < entries.len() implies backend::last_snapshot(
        snapshots,
        (#[trigger] entries[at]).limit_id@,
    ) == Some(entries[at].snapshot) by {
        lemma_entry_of(entries, at);
        assert(backend::entry_of(entries, entries[at].limit_id@) == backend::last_snapshot(
            snapshots,
            entries[at].limit_id@,
        ));
    }
    assert forall|i: int| 0 <= i < snapshots.len() implies exists|at: int|
        0 <= at < entries.len() && (#[trigger] entries[at]).limit_id@ == backend::limit_of(
            #[trigger] snapshots[i],
        ) by {
        let limit = backend::limit_of(snapshots[i]);
        the_last_usage_of_a_limit_counts(snapshots, limit);
        assert(backend::entry_of(entries, limit) == backend::last_snapshot(snapshots, limit));
        lemma_entry_is_listed(entries, limit);
    }
}

/// Messages are passed on where every time that was sent with one is a time; else none is.
pub proof fn messages_need_their_times(sent: Seq<BackendWorkspaceMessage>, from: int)
    requires
        from >= 0,
    ensures
        backend::messages_problem(sent, from) is None <==> forall|i: int|
            from <= i < sent.len() ==> ((#[trigger] sent[i]).created_at matches Some(time)
                ==> backend::rfc3339_seconds(time@) is Ok) && (sent[i].archived_at matches Some(time)
                ==> backend::rfc3339_seconds(time@) is Ok),
        backend::messages_problem(sent, from) matches Some(error) ==> error.kind
            == RpcErrorKind::Internal,
    decreases sent.len() - from,
{
    if from < sent.len() {
        assert(backend::message_problem(sent[from]) is None <==> ((
        sent[from].created_at matches Some(time) ==> backend::rfc3339_seconds(time@) is Ok) && (
        sent[from].archived_at matches Some(time) ==> backend::rfc3339_seconds(time@) is Ok)));
        messages_need_their_times(sent, from + 1);
    }
}

/// An account is reported where one of the reported accounts has its ID.
pub proof fn reported_accounts_have_their_ids(reported: Seq<ReportedView>, at: int, id: Seq<char>)
    ensures
        0 <= at < reported.len() ==> usage::is_reported(reported, reported[at].session.session_id),
        (forall|i: int|
            0 <= i < reported.len() ==> (#[trigger] reported[i]).session.session_id != id)
            ==> !usage::is_reported(reported, id),
{
}

/// An answer without any totals says nothing of usage.
pub proof fn empty_answers_hold_no_totals(answer: backend::GetAccountTokenUsageResponse)
    ensures
        backend::is_empty_summary(answer) <==> answer.summary.lifetime_tokens is None
            && answer.summary.peak_daily_tokens is None
            && answer.summary.longest_running_turn_sec is None
            && answer.summary.current_streak_days is None
            && answer.summary.longest_streak_days is None && answer.daily_usage_buckets is None,
{
}

} // verus!
