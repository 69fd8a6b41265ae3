//! What the backend says of an account, as it is passed on.

use vstd::prelude::*;
use crate::accounts::model;
use crate::accounts::model::{Account, AccountView, AuthMode, PlanType, RateLimitSnapshot};
use crate::accounts::rpc;
use crate::accounts::rpc::{RpcError, RpcErrorView};
use crate::accounts::usage;
use crate::text;

verus! {

/// Serves requests about accounts.
#[derive(Debug, PartialEq, Eq)]
pub struct AccountRequestProcessor;

/// The credentials at hand, as far as requests to the backend go.
#[derive(Debug, PartialEq, Eq)]
pub struct BackendAuth {
    pub uses_codex_backend: bool,
    pub auth_mode: AuthMode,
    pub is_fedramp_account: bool,
    pub account_id: Option<String>,
    pub chatgpt_user_id: Option<String>,
}

/// What a request to the backend is for.
#[derive(Clone, Copy, Debug, PartialEq, Eq, Structural)]
pub enum BackendPurpose {
    RateLimits,
    TokenUsage,
    WorkspaceMessages,
    WorkspaceOwner,
}

/// What a request to the backend is for, in words.
pub open spec fn purpose_text(purpose: BackendPurpose) -> Seq<char> {
    match purpose {
        BackendPurpose::RateLimits => "read rate limits"@,
        BackendPurpose::TokenUsage => "read token usage"@,
        BackendPurpose::WorkspaceMessages => "read workspace messages"@,
        BackendPurpose::WorkspaceOwner => "notify workspace owner"@,
    }
}

/// Why a request to the backend cannot be made, if it cannot.
pub open spec fn backend_problem(auth: Option<BackendAuth>, purpose: BackendPurpose) -> Option<
    RpcErrorView,
> {
    match auth {
        None => Some(
            rpc::bad_request("codex account authentication required to "@ + purpose_text(purpose)),
        ),
        Some(auth) => if !auth.uses_codex_backend {
            Some(rpc::bad_request("chatgpt authentication required to "@ + purpose_text(purpose)))
        } else {
            None
        },
    }
}

/// Checks that a request to the backend can be made.
pub fn check_backend_auth(auth: &Option<BackendAuth>, purpose: BackendPurpose) -> (res: Result<
    (),
    RpcError,
>)
    ensures
        match res {
            Ok(_) => backend_problem(*auth, purpose) is None,
            Err(error) => backend_problem(*auth, purpose) == Some(error@),
        },
{
    let words = match purpose {
        BackendPurpose::RateLimits => "read rate limits",
        BackendPurpose::TokenUsage => "read token usage",
        BackendPurpose::WorkspaceMessages => "read workspace messages",
        BackendPurpose::WorkspaceOwner => "notify workspace owner",
    };
    match auth {
        None => {
            let message = text::joined("codex account authentication required to ", words);
            Err(rpc::invalid_request(message.as_str()))
        },
        Some(auth) => if !auth.uses_codex_backend {
            let message = text::joined("chatgpt authentication required to ", words);
            Err(rpc::invalid_request(message.as_str()))
        } else {
            Ok(())
        },
    }
}

/// Credits that reset a limit: how many there are, and their details, as the backend sent them.
#[derive(Debug, PartialEq, Eq)]
pub struct RateLimitResetCreditsSummary {
    pub available_count: i64,
    pub credits: Option<String>,
}

/// What the backend answers on rate limits. `rate_limit_upsell` is as it was sent.
#[derive(Debug, PartialEq, Eq)]
pub struct BackendRateLimits {
    pub rate_limits: Vec<RateLimitSnapshot>,
    pub reset_credits_available: Option<i64>,
    pub account_id: Option<String>,
    pub user_id: Option<String>,
    pub ordinary_usage_allowed: Option<bool>,
    pub rate_limit_upsell: Option<String>,
}

/// A limit and its usage.
#[derive(Debug, PartialEq, Eq)]
pub struct LimitEntry {
    pub limit_id: String,
    pub snapshot: RateLimitSnapshot,
}

/// What is passed on of rate limits.
#[derive(Debug, PartialEq, Eq)]
pub struct GetAccountRateLimitsResponse {
    pub ordinary_usage_allowed: Option<bool>,
    pub rate_limits: RateLimitSnapshot,
    pub rate_limits_by_limit_id: Vec<LimitEntry>,
    pub rate_limit_reset_credits: Option<RateLimitResetCreditsSummary>,
    pub account_id: Option<String>,
    pub rate_limit_upsell: Option<String>,
}

/// Whether to ask for the reserve besides: the client knows it, and the login is a ChatGPT login that
/// is not hosted for the government.
pub fn asks_for_reserve(supports_luna_reserve: bool, auth: &BackendAuth) -> (res: bool)
    ensures
        res == (supports_luna_reserve && auth.auth_mode == AuthMode::Chatgpt
            && !auth.is_fedramp_account),
{
    supports_luna_reserve && auth.auth_mode == AuthMode::Chatgpt && !auth.is_fedramp_account
}

/// Whether an answer is surely about the account at hand.
pub open spec fn is_about(response: BackendRateLimits, auth: BackendAuth) -> bool {
    &&& !auth.is_fedramp_account
    &&& response.account_id is Some
    &&& text::opt_view(response.account_id) == text::opt_view(auth.account_id)
    &&& response.user_id is Some
    &&& text::opt_view(response.user_id) == text::opt_view(auth.chatgpt_user_id)
}

/// The limit that a snapshot is for.
pub open spec fn limit_of(snapshot: RateLimitSnapshot) -> Seq<char> {
    match snapshot.limit_id {
        Some(id) => id@,
        None => usage::CODEX_LIMIT_ID@,
    }
}

/// The last snapshot for a limit.
pub open spec fn last_snapshot(snapshots: Seq<RateLimitSnapshot>, limit: Seq<char>) -> Option<
    RateLimitSnapshot,
>
    decreases snapshots.len(),
{
    if snapshots.len() == 0 {
        None
    } else if limit_of(snapshots.last()) == limit {
        Some(snapshots.last())
    } else {
        last_snapshot(snapshots.drop_last(), limit)
    }
}

/// The usage of a limit among entries.
pub open spec fn entry_of(entries: Seq<LimitEntry>, limit: Seq<char>) -> Option<RateLimitSnapshot>
    decreases entries.len(),
{
    if entries.len() == 0 {
        None
    } else if entries.last().limit_id@ == limit {
        Some(entries.last().snapshot)
    } else {
        entry_of(entries.drop_last(), limit)
    }
}

/// Whether no limit has two entries.
pub open spec fn entries_differ(entries: Seq<LimitEntry>) -> bool {
    forall|i: int, j: int|
        0 <= i < j < entries.len() ==> (#[trigger] entries[i]).limit_id@ != (
        #[trigger] entries[j]).limit_id@
}

/// Whether entries are the usage by limit of snapshots: for each limit the last snapshot, once.
pub open spec fn are_by_limit(entries: Seq<LimitEntry>, snapshots: Seq<RateLimitSnapshot>) -> bool {
    &&& entries_differ(entries)
    &&& forall|limit: Seq<char>| #[trigger]
        entry_of(entries, limit) == last_snapshot(snapshots, limit)
}

fn limit_id_of(snapshot: &RateLimitSnapshot) -> (res: String)
    ensures
        res@ == limit_of(*snapshot),
{
    match &snapshot.limit_id {
        Some(id) => id.clone(),
        None => usage::CODEX_LIMIT_ID.to_string(),
    }
}

proof fn lemma_entry_removed(entries: Seq<LimitEntry>, at: int, limit: Seq<char>)
    requires
        0 <= at < entries.len(),
        entries_differ(entries),
    ensures
        entry_of(entries.remove(at), limit) == (if limit == entries[at].limit_id@ {
            None
        } else {
            entry_of(entries, limit)
        }),
    decreases entries.len(),
{
    let rest = entries.remove(at);
    if at == entries.len() - 1 {
        assert(rest == entries.drop_last());
        if limit == entries[at].limit_id@ {
            lemma_no_entry(rest, limit);
        }
    } else {
        let first = entries.drop_last();
        assert(rest.drop_last() == first.remove(at));
        assert(rest.last() == entries.last());
        assert(entries[at].limit_id@ != entries[entries.len() - 1].limit_id@);
        assert forall|i: int, j: int| 0 <= i < j < first.len() implies (
        #[trigger] first[i]).limit_id@ != (#[trigger] first[j]).limit_id@ by {
            assert(entries[i].limit_id@ != entries[j].limit_id@);
        }
        lemma_entry_removed(first, at, limit);
    }
}

proof fn lemma_no_entry(entries: Seq<LimitEntry>, limit: Seq<char>)
    requires
        forall|i: int| 0 <= i < entries.len() ==> (#[trigger] entries[i]).limit_id@ != limit,
    ensures
        entry_of(entries, limit) is None,
    decreases entries.len(),
{
    if entries.len() > 0 {
        assert(entries[entries.len() - 1].limit_id@ != limit);
        lemma_no_entry(entries.drop_last(), limit);
    }
}

/// Notes the usage of a limit in the place of an earlier one.
fn put_entry(entries: &mut Vec<LimitEntry>, snapshot: &RateLimitSnapshot)
    requires
        entries_differ(old(entries)@),
    ensures
        entries_differ(final(entries)@),
        forall|limit: Seq<char>| #[trigger]
            entry_of(final(entries)@, limit) == (if limit == limit_of(*snapshot) {
                Some(*snapshot)
            } else {
                entry_of(old(entries)@, limit)
            }),
{
    let id = limit_id_of(snapshot);
    let ghost before = entries@;
    let mut i: usize = 0;
    while i < entries.len() && !text::same_text(entries[i].limit_id.as_str(), id.as_str())
        invariant
            i <= entries@.len(),
            entries@ == before,
            forall|j: int| 0 <= j < i ==> (#[trigger] entries@[j]).limit_id@ != id@,
        decreases entries@.len() - i,
    {
        i = i + 1;
    }
    if i < entries.len() {
        entries.remove(i);
        proof {
            assert forall|limit: Seq<char>| limit != id@ implies #[trigger] entry_of(
                entries@,
                limit,
            ) == entry_of(before, limit) by {
                lemma_entry_removed(before, i as int, limit);
            }
            assert forall|j: int| 0 <= j < entries@.len() implies (
            #[trigger] entries@[j]).limit_id@ != id@ by {
                if j < i {
                    assert(entries@[j] == before[j]);
                } else {
                    assert(entries@[j] == before[j + 1]);
                    assert(before[i as int].limit_id@ != before[j + 1].limit_id@);
                }
            }
            assert forall|a: int, b: int| 0 <= a < b < entries@.len() implies (
            #[trigger] entries@[a]).limit_id@ != (#[trigger] entries@[b]).limit_id@ by {
                let x = if a < i {
                    a
                } else {
                    a + 1
                };
                let y = if b < i {
                    b
                } else {
                    b + 1
                };
                assert(before[x].limit_id@ != before[y].limit_id@);
            }
        }
    }
    let ghost rest = entries@;
    entries.push(LimitEntry { limit_id: id, snapshot: snapshot.copy() });
    proof {
        assert(entries@.drop_last() == rest);
        assert forall|limit: Seq<char>| #[trigger]
            entry_of(entries@, limit) == (if limit == limit_of(*snapshot) {
                Some(*snapshot)
            } else {
                entry_of(before, limit)
            }) by {
            if limit != id@ {
                assert(entry_of(rest, limit) == entry_of(before, limit));
            }
        }
        assert forall|a: int, b: int| 0 <= a < b < entries@.len() implies (
        #[trigger] entries@[a]).limit_id@ != (#[trigger] entries@[b]).limit_id@ by {
            if b < rest.len() {
                assert(rest[a].limit_id@ != rest[b].limit_id@);
            } else {
                assert(rest[a].limit_id@ != id@);
            }
        }
    }
}

/// The usage by limit.
fn by_limit(snapshots: &Vec<RateLimitSnapshot>) -> (res: Vec<LimitEntry>)
    ensures
        are_by_limit(res@, snapshots@),
{
    let mut entries: Vec<LimitEntry> = Vec::new();
    let mut i: usize = 0;
    assert(snapshots@.take(0) == Seq::<RateLimitSnapshot>::empty());
    while i < snapshots.len()
        invariant
            i <= snapshots@.len(),
            are_by_limit(entries@, snapshots@.take(i as int)),
        decreases snapshots@.len() - i,
    {
        assert(snapshots@.take(i + 1).drop_last() == snapshots@.take(i as int));
        put_entry(&mut entries, &snapshots[i]);
        i = i + 1;
    }
    assert(snapshots@.take(i as int) == snapshots@);
    entries
}

/// The answer of the token usage backend for one day.
#[derive(Debug, PartialEq, Eq)]
pub struct AccountTokenUsageDailyBucket {
    pub start_date: String,
    pub tokens: i64,
}

/// Totals of token usage.
#[derive(Clone, Copy, Debug, PartialEq, Eq, Structural)]
pub struct AccountTokenUsageSummary {
    pub lifetime_tokens: Option<i64>,
    pub peak_daily_tokens: Option<i64>,
    pub longest_running_turn_sec: Option<i64>,
    pub current_streak_days: Option<i64>,
    pub longest_streak_days: Option<i64>,
}

/// Token usage as the backend answers it.
#[derive(Debug, PartialEq, Eq)]
pub struct TokenUsageProfileStats {
    pub lifetime_tokens: Option<i64>,
    pub peak_daily_tokens: Option<i64>,
    pub longest_running_turn_sec: Option<i64>,
    pub current_streak_days: Option<i64>,
    pub longest_streak_days: Option<i64>,
    pub daily_usage_buckets: Option<Vec<AccountTokenUsageDailyBucket>>,
}

/// Token usage of an account.
#[derive(Debug, PartialEq, Eq)]
pub struct TokenUsageProfile {
    pub stats: TokenUsageProfileStats,
}

/// Usage of a thread by one model.
#[derive(Debug, PartialEq, Eq)]
pub struct ThreadUsageGroup {
    pub model: Option<String>,
    pub reasoning_effort: Option<String>,
    pub speed: Option<String>,
    pub estimated_usage_credits_micros: Option<i64>,
    pub net_new_input_tokens: Option<i64>,
    pub cached_input_tokens: Option<i64>,
    pub input_tokens: Option<i64>,
    pub output_tokens: Option<i64>,
    pub total_tokens: Option<i64>,
}

/// Usage of a thread.
#[derive(Debug, PartialEq, Eq)]
pub struct ThreadUsage {
    pub thread_id: String,
    pub estimated_usage_credits_micros: Option<i64>,
    pub estimated_usage_usd_micros: Option<i64>,
    pub groups: Vec<ThreadUsageGroup>,
}

/// What is passed on of token usage.
#[derive(Debug, PartialEq, Eq)]
pub struct GetAccountTokenUsageResponse {
    pub summary: AccountTokenUsageSummary,
    pub daily_usage_buckets: Option<Vec<AccountTokenUsageDailyBucket>>,
    pub thread_usage: Option<ThreadUsage>,
}

/// The backend's refusal: its status, where it gave one, and the message.
#[derive(Debug, PartialEq, Eq)]
pub struct BackendFailure {
    pub status: Option<u16>,
    pub message: String,
}

/// How a request to the backend ended.
#[derive(Debug, PartialEq, Eq)]
pub enum BackendReply<T> {
    TimedOut,
    Answered(T),
    Failed(BackendFailure),
}

/// What a message from the workspace is.
#[derive(Clone, Copy, Debug, PartialEq, Eq, Structural)]
pub enum WorkspaceMessageType {
    Headline,
    Announcement,
    Unknown,
}

/// What a message from the workspace is, as the backend says it.
#[derive(Clone, Copy, Debug, PartialEq, Eq, Structural)]
pub enum BackendWorkspaceMessageType {
    Headline,
    Announcement,
    Unknown,
}

/// A message from the workspace, as the backend sends it.
#[derive(Debug, PartialEq, Eq)]
pub struct BackendWorkspaceMessage {
    pub message_id: String,
    pub message_type: BackendWorkspaceMessageType,
    pub message_body: String,
    pub created_at: Option<String>,
    pub archived_at: Option<String>,
}

/// Messages from the workspace, as the backend sends them.
#[derive(Debug, PartialEq, Eq)]
pub struct BackendWorkspaceMessagesResponse {
    pub messages: Vec<BackendWorkspaceMessage>,
}

/// A message from the workspace, with its times in seconds from the epoch.
#[derive(Debug, PartialEq, Eq)]
pub struct WorkspaceMessage {
    pub message_id: String,
    pub message_type: WorkspaceMessageType,
    pub message_body: String,
    pub created_at: Option<i64>,
    pub archived_at: Option<i64>,
}

/// Messages from the workspace.
#[derive(Debug, PartialEq, Eq)]
pub struct GetWorkspaceMessagesResponse {
    pub feature_enabled: bool,
    pub messages: Vec<WorkspaceMessage>,
}

/// The seconds from the epoch of a time in RFC 3339's form, or why the text is none.
pub uninterp spec fn rfc3339_seconds(text: Seq<char>) -> Result<i64, Seq<char>>;

/// `chrono::DateTime::parse_from_rfc3339` and the time's `timestamp`, or the text of the error. It
/// depends on the text alone.
#[verifier::external_body]
pub(crate) fn parse_rfc3339(text: &str) -> (res: Result<i64, String>)
    ensures
        match res {
            Ok(seconds) => rfc3339_seconds(text@) == Ok::<i64, Seq<char>>(seconds),
            Err(message) => rfc3339_seconds(text@) == Err::<i64, Seq<char>>(message@),
        },
{
    chrono::DateTime::parse_from_rfc3339(text).map(|time| time.timestamp()).map_err(
        |err| err.to_string(),
    )
}

/// A message's time from what the backend sent and what it stands for.
pub open spec fn timestamp_of(timestamp: Option<Seq<char>>) -> Result<Option<i64>, RpcErrorView> {
    match timestamp {
        None => Ok(None),
        Some(content) => match rfc3339_seconds(content) {
            Ok(seconds) => Ok(Some(seconds)),
            Err(message) => Err(timestamp_error(content, message)),
        },
    }
}

/// The failure for a time that is none.
pub open spec fn timestamp_error(content: Seq<char>, message: Seq<char>) -> RpcErrorView {
    rpc::failed(
        "failed to parse workspace message timestamp `"@ + content + "`: "@ + message,
    )
}

/// A message's time, from what parsing it gave.
pub fn workspace_message_timestamp(content: &str, parsed: Result<i64, String>) -> (res: Result<
    Option<i64>,
    RpcError,
>)
    ensures
        match (parsed, res) {
            (Ok(seconds), Ok(time)) => time == Some(seconds),
            (Err(message), Err(error)) => error@ == timestamp_error(content@, message@),
            _ => false,
        },
{
    match parsed {
        Ok(seconds) => Ok(Some(seconds)),
        Err(message) => {
            let context = text::joined3(
                "failed to parse workspace message timestamp `",
                content,
                "`: ",
            );
            Err(rpc::internal_error_from(context.as_str(), message.as_str()))
        },
    }
}

/// A message's time in seconds from the epoch.
pub fn workspace_message_timestamp_from_backend(timestamp: &Option<String>) -> (res: Result<
    Option<i64>,
    RpcError,
>)
    ensures
        match res {
            Ok(time) => timestamp_of(text::opt_view(*timestamp)) == Ok::<
                Option<i64>,
                RpcErrorView,
            >(time),
            Err(error) => timestamp_of(text::opt_view(*timestamp)) == Err::<
                Option<i64>,
                RpcErrorView,
            >(error@),
        },
{
    match timestamp {
        None => Ok(None),
        Some(content) => workspace_message_timestamp(
            content.as_str(),
            parse_rfc3339(content.as_str()),
        ),
    }
}

/// What a message from the workspace is.
pub open spec fn message_type_of(message_type: BackendWorkspaceMessageType) -> WorkspaceMessageType {
    match message_type {
        BackendWorkspaceMessageType::Headline => WorkspaceMessageType::Headline,
        BackendWorkspaceMessageType::Announcement => WorkspaceMessageType::Announcement,
        BackendWorkspaceMessageType::Unknown => WorkspaceMessageType::Unknown,
    }
}

/// What a message from the workspace is.
pub fn workspace_message_type_from_backend(message_type: BackendWorkspaceMessageType) -> (res:
    WorkspaceMessageType)
    ensures
        res == message_type_of(message_type),
{
    match message_type {
        BackendWorkspaceMessageType::Headline => WorkspaceMessageType::Headline,
        BackendWorkspaceMessageType::Announcement => WorkspaceMessageType::Announcement,
        BackendWorkspaceMessageType::Unknown => WorkspaceMessageType::Unknown,
    }
}

/// Whether a message is passed on as it was sent, with the given times.
pub open spec fn passes_on(message: WorkspaceMessage, sent: BackendWorkspaceMessage) -> bool {
    &&& message.message_id == sent.message_id
    &&& message.message_type == message_type_of(sent.message_type)
    &&& message.message_body == sent.message_body
    &&& timestamp_of(text::opt_view(sent.created_at)) == Ok::<Option<i64>, RpcErrorView>(
        message.created_at,
    )
    &&& timestamp_of(text::opt_view(sent.archived_at)) == Ok::<Option<i64>, RpcErrorView>(
        message.archived_at,
    )
}

/// Why a message cannot be passed on, if it cannot.
pub open spec fn message_problem(sent: BackendWorkspaceMessage) -> Option<RpcErrorView> {
    match (
        timestamp_of(text::opt_view(sent.created_at)),
        timestamp_of(text::opt_view(sent.archived_at)),
    ) {
        (Err(error), _) => Some(error),
        (Ok(_), Err(error)) => Some(error),
        (Ok(_), Ok(_)) => None,
    }
}

/// Passes a message on.
pub fn workspace_message_from_backend(message: &BackendWorkspaceMessage) -> (res: Result<
    WorkspaceMessage,
    RpcError,
>)
    ensures
        match res {
            Ok(passed) => message_problem(*message) is None && passes_on(passed, *message),
            Err(error) => message_problem(*message) == Some(error@),
        },
{
    let created_at = match workspace_message_timestamp_from_backend(&message.created_at) {
        Ok(time) => time,
        Err(error) => {
            return Err(error);
        },
    };
    let archived_at = match workspace_message_timestamp_from_backend(&message.archived_at) {
        Ok(time) => time,
        Err(error) => {
            return Err(error);
        },
    };
    Ok(
        WorkspaceMessage {
            message_id: message.message_id.clone(),
            message_type: workspace_message_type_from_backend(message.message_type),
            message_body: message.message_body.clone(),
            created_at,
            archived_at,
        },
    )
}

/// The first problem among messages from `from` on.
pub open spec fn messages_problem(sent: Seq<BackendWorkspaceMessage>, from: int) -> Option<
    RpcErrorView,
>
    decreases sent.len() - from,
{
    if from < 0 || from >= sent.len() {
        None
    } else {
        match message_problem(sent[from]) {
            Some(error) => Some(error),
            None => messages_problem(sent, from + 1),
        }
    }
}

/// Whether a failed request for messages means that the workspace has none.
pub fn workspace_messages_feature_disabled(failure: &BackendFailure) -> (res: bool)
    ensures
        res == (failure.status == Some(404u16)),
{
    match failure.status {
        Some(status) => status == 404,
        None => false,
    }
}

/// What credits one may be reminded of.
#[derive(Clone, Copy, Debug, PartialEq, Eq, Structural)]
pub enum AddCreditsNudgeCreditType {
    Credits,
    UsageLimit,
}

/// What credits one may be reminded of, for the backend.
#[derive(Clone, Copy, Debug, PartialEq, Eq, Structural)]
pub enum BackendAddCreditsNudgeCreditType {
    Credits,
    UsageLimit,
}

/// What came of a reminder.
#[derive(Clone, Copy, Debug, PartialEq, Eq, Structural)]
pub enum AddCreditsNudgeEmailStatus {
    Sent,
    CooldownActive,
}

/// The credentials that the program runs with, as far as they say whose they are.
#[derive(Debug, PartialEq, Eq)]
pub struct CurrentAuth {
    pub is_api_key: bool,
    pub is_bedrock: bool,
    pub is_chatgpt: bool,
    pub email: Option<String>,
    pub plan_type: Option<PlanType>,
}

/// The account that the program runs with, where the credentials say enough of it.
pub open spec fn current_account(auth: CurrentAuth) -> Option<AccountView> {
    if auth.is_api_key {
        Some(AccountView::ApiKey)
    } else if auth.is_bedrock {
        Some(AccountView::AmazonBedrock { uses_codex_managed_credentials: true })
    } else if auth.is_chatgpt {
        match (auth.email, auth.plan_type) {
            (Some(email), Some(plan_type)) => Some(
                AccountView::Chatgpt { email: Some(email@), plan_type: plan_type@ },
            ),
            _ => None,
        }
    } else {
        None
    }
}

impl AccountRequestProcessor {
    /// Passes on what the backend answers on rate limits. The offer and whether ordinary use is
    /// allowed are passed on only where the answer is surely about the account at hand.
    pub fn get_account_rate_limits_response(
        auth: &BackendAuth,
        reply: Result<BackendRateLimits, String>,
        detailed_credits: Option<RateLimitResetCreditsSummary>,
    ) -> (res: Result<GetAccountRateLimitsResponse, RpcError>)
        ensures
            match (reply, res) {
                (Err(message), Err(error)) => error@ == rpc::failed(
                    "failed to fetch codex rate limits: "@ + message@,
                ),
                (Ok(response), Err(error)) => response.rate_limits@.len() == 0 && error@
                    == rpc::failed("failed to fetch codex rate limits: no snapshots returned"@),
                (Err(_), Ok(_)) => false,
                (Ok(response), Ok(answer)) => {
                    &&& response.rate_limits@.len() > 0
                    &&& Some(answer.rate_limits) == usage::main_snapshot(response.rate_limits@)
                    &&& are_by_limit(answer.rate_limits_by_limit_id@, response.rate_limits@)
                    &&& answer.rate_limit_reset_credits == (match (
                        detailed_credits,
                        response.reset_credits_available,
                    ) {
                        (Some(credits), _) => Some(credits),
                        (None, Some(available_count)) => Some(
                            RateLimitResetCreditsSummary { available_count, credits: None },
                        ),
                        (None, None) => None,
                    })
                    &&& answer.account_id == response.account_id
                    &&& answer.rate_limit_upsell == (if is_about(response, *auth) {
                        response.rate_limit_upsell
                    } else {
                        None
                    })
                    &&& answer.ordinary_usage_allowed == (if is_about(response, *auth) {
                        response.ordinary_usage_allowed
                    } else {
                        None
                    })
                },
            },
    {
        let response = match reply {
            Ok(response) => response,
            Err(message) => {
                return Err(
                    rpc::internal_error_from(
                        "failed to fetch codex rate limits: ",
                        message.as_str(),
                    ),
                );
            },
        };
        let rate_limits = match usage::select_snapshot(&response.rate_limits) {
            Some(snapshot) => snapshot,
            None => {
                return Err(
                    rpc::internal_error(
                        "failed to fetch codex rate limits: no snapshots returned",
                    ),
                );
            },
        };
        let rate_limits_by_limit_id = by_limit(&response.rate_limits);
        let rate_limit_reset_credits = match detailed_credits {
            Some(credits) => Some(credits),
            None => match response.reset_credits_available {
                Some(available_count) => Some(
                    RateLimitResetCreditsSummary { available_count, credits: None },
                ),
                None => None,
            },
        };
        let about = !auth.is_fedramp_account && response.account_id.is_some() && text::same_option(
            &response.account_id,
            &auth.account_id,
        ) && response.user_id.is_some() && text::same_option(
            &response.user_id,
            &auth.chatgpt_user_id,
        );
        let rate_limit_upsell = if about {
            response.rate_limit_upsell
        } else {
            None
        };
        let ordinary_usage_allowed = if about {
            response.ordinary_usage_allowed
        } else {
            None
        };
        Ok(
            GetAccountRateLimitsResponse {
                ordinary_usage_allowed,
                rate_limits,
                rate_limits_by_limit_id,
                rate_limit_reset_credits,
                account_id: response.account_id,
                rate_limit_upsell,
            },
        )
    }

    /// Passes on the token usage of an account.
    pub fn account_token_usage_response(profile: TokenUsageProfile) -> (res:
        GetAccountTokenUsageResponse)
        ensures
            res.summary.lifetime_tokens == profile.stats.lifetime_tokens,
            res.summary.peak_daily_tokens == profile.stats.peak_daily_tokens,
            res.summary.longest_running_turn_sec == profile.stats.longest_running_turn_sec,
            res.summary.current_streak_days == profile.stats.current_streak_days,
            res.summary.longest_streak_days == profile.stats.longest_streak_days,
            res.daily_usage_buckets == profile.stats.daily_usage_buckets,
            res.thread_usage is None,
    {
        let stats = profile.stats;
        GetAccountTokenUsageResponse {
            summary: AccountTokenUsageSummary {
                lifetime_tokens: stats.lifetime_tokens,
                peak_daily_tokens: stats.peak_daily_tokens,
                longest_running_turn_sec: stats.longest_running_turn_sec,
                current_streak_days: stats.current_streak_days,
                longest_streak_days: stats.longest_streak_days,
            },
            daily_usage_buckets: stats.daily_usage_buckets,
            thread_usage: None,
        }
    }

    /// Passes on the usage of a thread. To the backend's refusal of a thread that it does not know,
    /// or that is not the account's, the answer is no usage.
    pub fn thread_usage_response(reply: BackendReply<ThreadUsage>) -> (res: Result<
        GetAccountTokenUsageResponse,
        RpcError,
    >)
        ensures
            match (reply, res) {
                (BackendReply::TimedOut, Err(error)) => error@ == rpc::failed(
                    "thread usage fetch timed out"@,
                ),
                (BackendReply::Answered(usage), Ok(answer)) => answer.thread_usage == Some(usage)
                    && is_empty_summary(answer),
                (BackendReply::Failed(failure), Ok(answer)) => (failure.status == Some(403u16)
                    || failure.status == Some(404u16)) && answer.thread_usage is None
                    && is_empty_summary(answer),
                (BackendReply::Failed(failure), Err(error)) => failure.status != Some(403u16)
                    && failure.status != Some(404u16) && error@ == rpc::failed(
                    "failed to fetch thread usage: "@ + failure.message@,
                ),
                _ => false,
            },
    {
        let thread_usage = match reply {
            BackendReply::TimedOut => {
                return Err(rpc::internal_error("thread usage fetch timed out"));
            },
            BackendReply::Answered(usage) => Some(usage),
            BackendReply::Failed(failure) => {
                let unknown = match failure.status {
                    Some(status) => status == 403 || status == 404,
                    None => false,
                };
                if !unknown {
                    return Err(
                        rpc::internal_error_from(
                            "failed to fetch thread usage: ",
                            failure.message.as_str(),
                        ),
                    );
                }
                None
            },
        };
        Ok(
            GetAccountTokenUsageResponse {
                summary: AccountTokenUsageSummary {
                    lifetime_tokens: None,
                    peak_daily_tokens: None,
                    longest_running_turn_sec: None,
                    current_streak_days: None,
                    longest_streak_days: None,
                },
                daily_usage_buckets: None,
                thread_usage,
            },
        )
    }

    /// Passes on the token usage of the account, from how the request for it ended.
    pub fn get_account_token_usage_response(reply: BackendReply<TokenUsageProfile>) -> (res: Result<
        GetAccountTokenUsageResponse,
        RpcError,
    >)
        ensures
            match (reply, res) {
                (BackendReply::TimedOut, Err(error)) => error@ == rpc::failed(
                    "token usage profile fetch timed out"@,
                ),
                (BackendReply::Failed(failure), Err(error)) => error@ == rpc::failed(
                    "failed to fetch token usage profile: "@ + failure.message@,
                ),
                (BackendReply::Answered(profile), Ok(answer)) => {
                    &&& answer.summary.lifetime_tokens == profile.stats.lifetime_tokens
                    &&& answer.summary.peak_daily_tokens == profile.stats.peak_daily_tokens
                    &&& answer.summary.longest_running_turn_sec
                        == profile.stats.longest_running_turn_sec
                    &&& answer.summary.current_streak_days == profile.stats.current_streak_days
                    &&& answer.summary.longest_streak_days == profile.stats.longest_streak_days
                    &&& answer.daily_usage_buckets == profile.stats.daily_usage_buckets
                    &&& answer.thread_usage is None
                },
                _ => false,
            },
    {
        match reply {
            BackendReply::TimedOut => Err(
                rpc::internal_error("token usage profile fetch timed out"),
            ),
            BackendReply::Failed(failure) => Err(
                rpc::internal_error_from(
                    "failed to fetch token usage profile: ",
                    failure.message.as_str(),
                ),
            ),
            BackendReply::Answered(profile) => Ok(
                AccountRequestProcessor::account_token_usage_response(profile),
            ),
        }
    }

    /// Passes on messages from the workspace.
    pub fn workspace_messages_response(
        messages: BackendWorkspaceMessagesResponse,
        feature_enabled: bool,
    ) -> (res: Result<GetWorkspaceMessagesResponse, RpcError>)
        ensures
            match res {
                Ok(answer) => messages_problem(messages.messages@, 0) is None
                    && answer.feature_enabled == feature_enabled && answer.messages@.len()
                    == messages.messages@.len() && forall|i: int|
                    0 <= i < messages.messages@.len() ==> passes_on(
                        #[trigger] answer.messages@[i],
                        messages.messages@[i],
                    ),
                Err(error) => messages_problem(messages.messages@, 0) == Some(error@),
            },
    {
        let mut passed: Vec<WorkspaceMessage> = Vec::new();
        let mut i: usize = 0;
        while i < messages.messages.len()
            invariant
                i <= messages.messages@.len(),
                passed@.len() == i,
                messages_problem(messages.messages@, 0) == messages_problem(
                    messages.messages@,
                    i as int,
                ),
                forall|j: int|
                    0 <= j < i ==> passes_on(#[trigger] passed@[j], messages.messages@[j]),
            decreases messages.messages@.len() - i,
        {
            match workspace_message_from_backend(&messages.messages[i]) {
                Ok(message) => {
                    passed.push(message);
                },
                Err(error) => {
                    return Err(error);
                },
            }
            i = i + 1;
        }
        Ok(GetWorkspaceMessagesResponse { feature_enabled, messages: passed })
    }

    /// Passes on messages from the workspace, from how the request for them ended. A workspace that
    /// the backend has no messages for has none.
    pub fn get_workspace_messages_response(reply: BackendReply<BackendWorkspaceMessagesResponse>)
        -> (res: Result<GetWorkspaceMessagesResponse, RpcError>)
        ensures
            match (reply, res) {
                (BackendReply::TimedOut, Err(error)) => error@ == rpc::failed(
                    "workspace messages fetch timed out"@,
                ),
                (BackendReply::Answered(messages), Ok(answer)) => messages_problem(
                    messages.messages@,
                    0,
                ) is None && answer.feature_enabled && answer.messages@.len()
                    == messages.messages@.len() && forall|i: int|
                    0 <= i < messages.messages@.len() ==> passes_on(
                        #[trigger] answer.messages@[i],
                        messages.messages@[i],
                    ),
                (BackendReply::Answered(messages), Err(error)) => messages_problem(
                    messages.messages@,
                    0,
                ) == Some(error@),
                (BackendReply::Failed(failure), Ok(answer)) => failure.status == Some(404u16)
                    && !answer.feature_enabled && answer.messages@.len() == 0,
                (BackendReply::Failed(failure), Err(error)) => failure.status != Some(404u16)
                    && error@ == rpc::failed(
                    "failed to fetch workspace messages: "@ + failure.message@,
                ),
                _ => false,
            },
    {
        match reply {
            BackendReply::TimedOut => Err(rpc::internal_error("workspace messages fetch timed out")),
            BackendReply::Answered(messages) => {
                AccountRequestProcessor::workspace_messages_response(messages, true)
            },
            BackendReply::Failed(failure) => if workspace_messages_feature_disabled(&failure) {
                AccountRequestProcessor::workspace_messages_response(
                    BackendWorkspaceMessagesResponse { messages: Vec::new() },
                    false,
                )
            } else {
                Err(
                    rpc::internal_error_from(
                        "failed to fetch workspace messages: ",
                        failure.message.as_str(),
                    ),
                )
            },
        }
    }

    /// What came of a reminder. That one was sent a short while ago is no failure.
    pub fn send_add_credits_nudge_email_response(reply: Result<(), BackendFailure>) -> (res: Result<
        AddCreditsNudgeEmailStatus,
        RpcError,
    >)
        ensures
            match (reply, res) {
                (Ok(_), Ok(status)) => status == AddCreditsNudgeEmailStatus::Sent,
                (Err(failure), Ok(status)) => failure.status == Some(429u16) && status
                    == AddCreditsNudgeEmailStatus::CooldownActive,
                (Err(failure), Err(error)) => failure.status != Some(429u16) && error@
                    == rpc::failed("failed to notify workspace owner: "@ + failure.message@),
                _ => false,
            },
    {
        match reply {
            Ok(_) => Ok(AddCreditsNudgeEmailStatus::Sent),
            Err(failure) => {
                let cooling = match failure.status {
                    Some(status) => status == 429,
                    None => false,
                };
                if cooling {
                    Ok(AddCreditsNudgeEmailStatus::CooldownActive)
                } else {
                    Err(
                        rpc::internal_error_from(
                            "failed to notify workspace owner: ",
                            failure.message.as_str(),
                        ),
                    )
                }
            },
        }
    }

    /// What credits to remind of, for the backend.
    pub fn backend_credit_type(value: AddCreditsNudgeCreditType) -> (res:
        BackendAddCreditsNudgeCreditType)
        ensures
            res == (match value {
                AddCreditsNudgeCreditType::Credits => BackendAddCreditsNudgeCreditType::Credits,
                AddCreditsNudgeCreditType::UsageLimit => {
                    BackendAddCreditsNudgeCreditType::UsageLimit
                },
            }),
    {
        match value {
            AddCreditsNudgeCreditType::Credits => BackendAddCreditsNudgeCreditType::Credits,
            AddCreditsNudgeCreditType::UsageLimit => BackendAddCreditsNudgeCreditType::UsageLimit,
        }
    }

    /// The account that the program runs with.
    pub fn account_from_codex_auth(auth: &CurrentAuth) -> (res: Option<Account>)
        ensures
            model::opt_account(res) == current_account(*auth),
    {
        if auth.is_api_key {
            return Some(Account::ApiKey);
        }
        if auth.is_bedrock {
            return Some(Account::AmazonBedrock { uses_codex_managed_credentials: true });
        }
        if auth.is_chatgpt {
            return match (&auth.email, &auth.plan_type) {
                (Some(email), Some(plan_type)) => Some(
                    Account::Chatgpt { email: Some(email.clone()), plan_type: plan_type.copy() },
                ),
                _ => None,
            };
        }
        None
    }
}

/// Rejects a thread that is none.
pub fn invalid_thread_id(message: &str) -> (res: RpcError)
    ensures
        res@ == rpc::bad_request("invalid thread id: "@ + message@),
{
    let content = text::joined("invalid thread id: ", message);
    rpc::invalid_request(content.as_str())
}

/// Whether an answer holds no totals.
pub open spec fn is_empty_summary(answer: GetAccountTokenUsageResponse) -> bool {
    &&& answer.summary.lifetime_tokens is None
    &&& answer.summary.peak_daily_tokens is None
    &&& answer.summary.longest_running_turn_sec is None
    &&& answer.summary.current_streak_days is None
    &&& answer.summary.longest_streak_days is None
    &&& answer.daily_usage_buckets is None
}

} // verus!
