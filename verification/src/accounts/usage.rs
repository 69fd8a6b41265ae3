//! How much of an account's capacity is used, and how that is found out.

use vstd::prelude::*;
use crate::accounts::model;
use crate::accounts::model::{
    Account, AccountView, AuthDotJson, AuthMode, AuthView, ErrorKind, ErrorView, RateLimitSnapshot,
    StoreError,
};
use crate::accounts::rotation::AuthProfileSummary;
use crate::accounts::rpc;
use crate::accounts::rpc::RpcError;
use crate::accounts::sessions;
use crate::accounts::sessions::{AccountSession, AccountSessionsResponse, ReportedView};
use crate::text;

verus! {

/// The limit that ordinary use counts against.
pub const CODEX_LIMIT_ID: &'static str = "codex";

/// The place of the snapshot for ordinary use from `from` on.
pub open spec fn codex_place(snapshots: Seq<RateLimitSnapshot>, from: int) -> Option<int>
    decreases snapshots.len() - from,
{
    if from < 0 || from >= snapshots.len() {
        None
    } else if text::opt_view(snapshots[from].limit_id) == Some(CODEX_LIMIT_ID@) {
        Some(from)
    } else {
        codex_place(snapshots, from + 1)
    }
}

/// The snapshot to go by: the one for ordinary use, else the first.
pub open spec fn main_snapshot(snapshots: Seq<RateLimitSnapshot>) -> Option<RateLimitSnapshot> {
    match codex_place(snapshots, 0) {
        Some(at) => Some(snapshots[at]),
        None => if snapshots.len() > 0 {
            Some(snapshots[0])
        } else {
            None
        },
    }
}

/// Whether a snapshot is for ordinary use.
fn is_codex_limit(snapshot: &RateLimitSnapshot) -> (res: bool)
    ensures
        res == (text::opt_view(snapshot.limit_id) == Some(CODEX_LIMIT_ID@)),
{
    match &snapshot.limit_id {
        Some(id) => text::same_text(id.as_str(), CODEX_LIMIT_ID),
        None => false,
    }
}

/// The snapshot to go by.
pub fn select_snapshot(snapshots: &Vec<RateLimitSnapshot>) -> (res: Option<RateLimitSnapshot>)
    ensures
        res == main_snapshot(snapshots@),
{
    let mut i: usize = 0;
    while i < snapshots.len()
        invariant
            i <= snapshots@.len(),
            codex_place(snapshots@, 0) == codex_place(snapshots@, i as int),
        decreases snapshots@.len() - i,
    {
        if is_codex_limit(&snapshots[i]) {
            return Some(snapshots[i].copy());
        }
        i = i + 1;
    }
    if snapshots.len() > 0 {
        Some(snapshots[0].copy())
    } else {
        None
    }
}

/// Where an account's credentials are kept while they are refreshed apart from the store.
#[derive(Clone, Copy, Debug, PartialEq, Eq, Structural)]
pub enum IsolatedStore {
    Ephemeral,
    File,
}

/// Where credentials are kept while they are refreshed: tokens that the program was handed stay in
/// memory.
pub fn isolated_store(auth: &AuthDotJson) -> (res: IsolatedStore)
    ensures
        res == (if auth@.auth_mode == Some(AuthMode::ChatgptAuthTokens) {
            IsolatedStore::Ephemeral
        } else {
            IsolatedStore::File
        }),
{
    match auth.auth_mode {
        Some(AuthMode::ChatgptAuthTokens) => IsolatedStore::Ephemeral,
        _ => IsolatedStore::File,
    }
}

/// The credentials to save after a refresh apart from the store: none where nothing changed.
pub fn changed_credentials(before: &AuthDotJson, found: Option<AuthDotJson>) -> (res: Result<
    Option<AuthDotJson>,
    StoreError,
>)
    ensures
        match (found, res) {
            (None, Err(error)) => error@ == model::other_error(
                "isolated account credentials disappeared"@,
            ),
            (Some(auth), Ok(None)) => auth@ == before@,
            (Some(auth), Ok(Some(changed))) => auth@ != before@ && changed == auth,
            _ => false,
        },
{
    match found {
        None => Err(StoreError::other("isolated account credentials disappeared")),
        Some(auth) => if auth.same(before) {
            Ok(None)
        } else {
            Ok(Some(auth))
        },
    }
}

/// What the credentials at hand can do: whether the backend knows them, and whether this program can
/// refresh them.
#[derive(Clone, Copy, Debug, PartialEq, Eq, Structural)]
pub struct UsageAuth {
    pub uses_codex_backend: bool,
    pub managed: bool,
}

/// How a request for usage ended.
#[derive(Debug, PartialEq, Eq)]
pub enum UsageReply {
    Canceled,
    TimedOut,
    Answered(Vec<RateLimitSnapshot>),
    Failed { unauthorized: bool, message: String },
}

/// What to do after the first request for usage.
#[derive(Debug, PartialEq, Eq)]
pub enum UsageStep {
    /// It is over.
    Done(Result<RateLimitSnapshot, StoreError>),
    /// Refresh the credentials and ask again.
    RefreshAndRetry,
}

/// Checks that usage can be asked for with the credentials at hand; tells whether this program can
/// refresh them.
pub fn begin_usage(auth: Option<UsageAuth>) -> (res: Result<bool, StoreError>)
    ensures
        match auth {
            None => res matches Err(error) && error@ == model::other_error(
                "saved account has no auth"@,
            ),
            Some(auth) => if !auth.uses_codex_backend {
                res matches Err(error) && error@ == (ErrorView {
                    kind: ErrorKind::Unsupported,
                    message: "saved account has no ChatGPT usage windows"@,
                })
            } else {
                res == Ok::<bool, StoreError>(auth.managed)
            },
        },
{
    match auth {
        None => Err(StoreError::other("saved account has no auth")),
        Some(auth) => if !auth.uses_codex_backend {
            Err(
                StoreError::new(
                    ErrorKind::Unsupported,
                    "saved account has no ChatGPT usage windows",
                ),
            )
        } else {
            Ok(auth.managed)
        },
    }
}

/// The result of a request for usage that is not repeated.
pub open spec fn usage_result(reply: UsageReply) -> Result<RateLimitSnapshot, ErrorView> {
    match reply {
        UsageReply::Canceled => Err(
            ErrorView {
                kind: ErrorKind::Interrupted,
                message: "account usage request canceled"@,
            },
        ),
        UsageReply::TimedOut => Err(
            ErrorView {
                kind: ErrorKind::TimedOut,
                message: "account usage request timed out"@,
            },
        ),
        UsageReply::Failed { message, .. } => Err(model::other_error(message@)),
        UsageReply::Answered(snapshots) => match main_snapshot(snapshots@) {
            Some(snapshot) => Ok(snapshot),
            None => Err(model::other_error("no rate-limit snapshots returned"@)),
        },
    }
}

/// The snapshot of a result, or the failure.
pub open spec fn usage_outcome(res: Result<RateLimitSnapshot, StoreError>) -> Result<
    RateLimitSnapshot,
    ErrorView,
> {
    match res {
        Ok(snapshot) => Ok(snapshot),
        Err(error) => Err(error@),
    }
}

/// The result of a request for usage that is not repeated.
pub fn finish_usage(reply: UsageReply) -> (res: Result<RateLimitSnapshot, StoreError>)
    ensures
        usage_outcome(res) == usage_result(reply),
{
    match reply {
        UsageReply::Canceled => Err(
            StoreError::new(ErrorKind::Interrupted, "account usage request canceled"),
        ),
        UsageReply::TimedOut => Err(
            StoreError::new(ErrorKind::TimedOut, "account usage request timed out"),
        ),
        UsageReply::Failed { message, .. } => Err(StoreError::with(ErrorKind::Other, message)),
        UsageReply::Answered(snapshots) => match select_snapshot(&snapshots) {
            Some(snapshot) => Ok(snapshot),
            None => Err(StoreError::other("no rate-limit snapshots returned")),
        },
    }
}

/// Whether a first request is repeated with refreshed credentials: they were rejected, this program
/// can refresh them, and the request was not canceled meanwhile.
pub open spec fn is_retried(managed: bool, reply: UsageReply, canceled: bool) -> bool {
    managed && !canceled && (reply matches UsageReply::Failed { unauthorized, .. } && unauthorized)
}

/// Decides what to do after the first request for usage.
pub fn after_first_reply(managed: bool, reply: UsageReply, canceled: bool) -> (res: UsageStep)
    ensures
        match res {
            UsageStep::RefreshAndRetry => is_retried(managed, reply, canceled),
            UsageStep::Done(result) => !is_retried(managed, reply, canceled) && usage_outcome(
                result,
            ) == usage_result(reply),
        },
{
    let rejected = match &reply {
        UsageReply::Failed { unauthorized, .. } => *unauthorized,
        _ => false,
    };
    if managed && rejected && !canceled {
        return UsageStep::RefreshAndRetry;
    }
    UsageStep::Done(finish_usage(reply))
}

/// Checks the refresh before the second request: it succeeded, and there are credentials.
pub fn after_refresh(refreshed: Result<(), String>, has_auth: bool) -> (res: Result<(), StoreError>)
    ensures
        match refreshed {
            Err(message) => res matches Err(error) && error@ == model::other_error(message@),
            Ok(_) => if has_auth {
                res is Ok
            } else {
                res matches Err(error) && error@ == model::other_error(
                    "saved account has no auth"@,
                )
            },
        },
{
    match refreshed {
        Err(message) => Err(StoreError::with(ErrorKind::Other, message)),
        Ok(_) => if has_auth {
            Ok(())
        } else {
            Err(StoreError::other("saved account has no auth"))
        },
    }
}

/// How long usage that was found out is good for, in nanoseconds.
pub const ACCOUNT_RATE_LIMIT_CACHE_TTL: u64 = 60000000000;

/// Usage of an account, when it was found out, and the credentials that it was found out with.
#[derive(Debug, PartialEq, Eq)]
pub struct CachedAccountRateLimits {
    pub session_id: String,
    pub fetched_at: u64,
    pub auth: AuthDotJson,
    pub snapshot: RateLimitSnapshot,
}

/// Usage that was found out, with at most one entry for an account.
#[derive(Debug, PartialEq, Eq)]
pub struct RateLimitCache {
    pub entries: Vec<CachedAccountRateLimits>,
}

/// Whether no account occurs twice.
pub open spec fn has_distinct_accounts(entries: Seq<CachedAccountRateLimits>) -> bool {
    forall|i: int, j: int|
        0 <= i < j < entries.len() ==> (#[trigger] entries[i]).session_id@ != (
        #[trigger] entries[j]).session_id@
}

/// The entry of an account.
pub open spec fn cached_entry(entries: Seq<CachedAccountRateLimits>, id: Seq<char>) -> Option<
    CachedAccountRateLimits,
>
    decreases entries.len(),
{
    if entries.len() == 0 {
        None
    } else if entries.last().session_id@ == id {
        Some(entries.last())
    } else {
        cached_entry(entries.drop_last(), id)
    }
}

proof fn lemma_replaced(
    entries: Seq<CachedAccountRateLimits>,
    place: int,
    entry: CachedAccountRateLimits,
    id: Seq<char>,
)
    requires
        0 <= place < entries.len(),
        entries[place].session_id@ == entry.session_id@,
        forall|j: int|
            place < j < entries.len() ==> (#[trigger] entries[j]).session_id@ != entry.session_id@,
    ensures
        cached_entry(entries.update(place, entry), id) == (if id == entry.session_id@ {
            Some(entry)
        } else {
            cached_entry(entries, id)
        }),
    decreases entries.len(),
{
    let rest = entries.drop_last();
    if place == entries.len() - 1 {
        assert(entries.update(place, entry).drop_last() == rest);
    } else {
        assert(entries.update(place, entry).drop_last() == rest.update(place, entry));
        assert(entries.update(place, entry).last() == entries.last());
        assert(entries[entries.len() - 1].session_id@ != entry.session_id@);
        assert forall|j: int| place < j < rest.len() implies (#[trigger] rest[j]).session_id@
            != entry.session_id@ by {
            assert(rest[j] == entries[j]);
        }
        lemma_replaced(rest, place, entry, id);
    }
}

/// Whether an entry is good: it is for the same credentials and not too old.
pub open spec fn is_good(entry: CachedAccountRateLimits, auth: AuthView, now: u64) -> bool {
    entry.auth@ == auth && (now <= entry.fetched_at || now - entry.fetched_at
        <= ACCOUNT_RATE_LIMIT_CACHE_TTL)
}

impl RateLimitCache {
    /// No account has two entries.
    pub open spec fn is_well_formed(self) -> bool {
        has_distinct_accounts(self.entries@)
    }

    pub fn new() -> (res: RateLimitCache)
        ensures
            res.entries@.len() == 0,
            res.is_well_formed(),
    {
        RateLimitCache { entries: Vec::new() }
    }

    /// The usage of an account, where it was found out with the same credentials not too long ago.
    pub fn get(&self, session_id: &str, auth: &AuthDotJson, now: u64) -> (res: Option<
        RateLimitSnapshot,
    >)
        ensures
            res == (match cached_entry(self.entries@, session_id@) {
                Some(entry) => if is_good(entry, auth@, now) {
                    Some(entry.snapshot)
                } else {
                    None
                },
                None => None,
            }),
    {
        let mut i: usize = self.entries.len();
        assert(self.entries@.take(i as int) == self.entries@);
        while i > 0
            invariant
                i <= self.entries@.len(),
                cached_entry(self.entries@, session_id@) == cached_entry(
                    self.entries@.take(i as int),
                    session_id@,
                ),
            decreases i,
        {
            assert(self.entries@.take(i as int).drop_last() == self.entries@.take(i - 1));
            let entry = &self.entries[i - 1];
            if text::same_text(entry.session_id.as_str(), session_id) {
                if entry.auth.same(auth) && (now <= entry.fetched_at || now - entry.fetched_at
                    <= ACCOUNT_RATE_LIMIT_CACHE_TTL) {
                    return Some(entry.snapshot.copy());
                }
                return None;
            }
            i = i - 1;
        }
        None
    }

    /// Notes the usage of an account, in the place of what was noted before.
    pub fn insert(
        &mut self,
        session_id: &str,
        auth: AuthDotJson,
        snapshot: RateLimitSnapshot,
        now: u64,
    )
        requires
            old(self).is_well_formed(),
        ensures
            final(self).is_well_formed(),
            forall|id: Seq<char>|
                id != session_id@ ==> #[trigger] cached_entry(final(self).entries@, id)
                    == cached_entry(old(self).entries@, id),
            cached_entry(final(self).entries@, session_id@) matches Some(entry) && entry.session_id@
                == session_id@ && entry.auth == auth && entry.snapshot == snapshot
                && entry.fetched_at == now,
    {
        let ghost before = self.entries@;
        let entry = CachedAccountRateLimits {
            session_id: session_id.to_string(),
            fetched_at: now,
            auth,
            snapshot,
        };
        let mut i: usize = 0;
        while i < self.entries.len()
            invariant
                i <= self.entries@.len(),
                self.entries@ == before,
                has_distinct_accounts(before),
                entry.session_id@ == session_id@,
                forall|j: int| 0 <= j < i ==> (#[trigger] before[j]).session_id@ != session_id@,
            ensures
                i <= before.len(),
                i < before.len() ==> before[i as int].session_id@ == session_id@,
                i == before.len() ==> forall|j: int|
                    0 <= j < i ==> (#[trigger] before[j]).session_id@ != session_id@,
            decreases self.entries@.len() - i,
        {
            if text::same_text(self.entries[i].session_id.as_str(), session_id) {
                break;
            }
            i = i + 1;
        }
        if i < self.entries.len() {
            proof {
                assert forall|id: Seq<char>| #[trigger]
                    cached_entry(before.update(i as int, entry), id) == (if id == session_id@ {
                        Some(entry)
                    } else {
                        cached_entry(before, id)
                    }) by {
                    lemma_replaced(before, i as int, entry, id);
                }
            }
            self.entries.set(i, entry);
        } else {
            self.entries.push(entry);
            assert(self.entries@.drop_last() == before);
        }
    }

    /// Forgets the accounts that are not among the reported ones.
    pub fn retain(&mut self, response: &AccountSessionsResponse)
        requires
            old(self).is_well_formed(),
        ensures
            final(self).is_well_formed(),
            forall|id: Seq<char>| #[trigger]
                cached_entry(final(self).entries@, id) == (if is_reported(
                    sessions::reported_views(response.sessions@),
                    id,
                ) {
                    cached_entry(old(self).entries@, id)
                } else {
                    None
                }),
    {
        let ghost all = self.entries@;
        let ghost views = sessions::reported_views(response.sessions@);
        let mut kept: Vec<CachedAccountRateLimits> = Vec::new();
        let mut i: usize = 0;
        assert(all.take(0) == Seq::<CachedAccountRateLimits>::empty());
        while i < self.entries.len()
            invariant
                i <= self.entries@.len(),
                self.entries@ == all,
                has_distinct_accounts(all),
                has_distinct_accounts(kept@),
                forall|k: int| 0 <= k < kept@.len() ==> all.take(i as int).contains(#[trigger] kept@[k]),
                views == sessions::reported_views(response.sessions@),
                forall|id: Seq<char>| #[trigger]
                    cached_entry(kept@, id) == (if is_reported(views, id) {
                        cached_entry(all.take(i as int), id)
                    } else {
                        None
                    }),
            decreases self.entries@.len() - i,
        {
            let entry = &self.entries[i];
            assert(all.take(i + 1).drop_last() == all.take(i as int));
            let ghost before = kept@;
            if reports(response, entry.session_id.as_str()) {
                kept.push(
                    CachedAccountRateLimits {
                        session_id: entry.session_id.clone(),
                        fetched_at: entry.fetched_at,
                        auth: entry.auth.copy(),
                        snapshot: entry.snapshot.copy(),
                    },
                );
                assert(kept@.drop_last() == before);
                assert(kept@.last() == all[i as int]);
                assert forall|k: int| 0 <= k < before.len() implies (#[trigger] before[k]).session_id@
                    != all[i as int].session_id@ by {
                    let m = choose|m: int| 0 <= m < i && all.take(i as int)[m] == before[k];
                    assert(all[m] == before[k]);
                }
            }
            proof {
                let next = all.take(i + 1);
                assert(next.last() == all[i as int]);
                assert forall|k: int| 0 <= k < kept@.len() implies next.contains(
                    #[trigger] kept@[k],
                ) by {
                    if k < before.len() {
                        assert(kept@[k] == before[k]);
                        let m = choose|m: int| 0 <= m < i && all.take(i as int)[m] == before[k];
                        assert(next[m] == before[k]);
                    } else {
                        assert(next[i as int] == kept@[k]);
                    }
                }
                assert forall|id: Seq<char>| #[trigger]
                    cached_entry(kept@, id) == (if is_reported(views, id) {
                        cached_entry(next, id)
                    } else {
                        None
                    }) by {
                    assert(cached_entry(before, id) == (if is_reported(views, id) {
                        cached_entry(all.take(i as int), id)
                    } else {
                        None
                    }));
                }
            }
            i = i + 1;
        }
        assert(all.take(i as int) == all);
        self.entries = kept;
    }
}

/// Whether an account is among the reported ones.
pub open spec fn is_reported(reported: Seq<ReportedView>, id: Seq<char>) -> bool {
    exists|i: int| 0 <= i < reported.len() && (#[trigger] reported[i]).session.session_id == id
}

fn reports(response: &AccountSessionsResponse, id: &str) -> (res: bool)
    ensures
        res == is_reported(sessions::reported_views(response.sessions@), id@),
{
    let ghost views = sessions::reported_views(response.sessions@);
    let mut i: usize = 0;
    while i < response.sessions.len()
        invariant
            i <= response.sessions@.len(),
            views == sessions::reported_views(response.sessions@),
            forall|j: int| 0 <= j < i ==> (#[trigger] views[j]).session.session_id != id@,
        decreases response.sessions@.len() - i,
    {
        if text::same_text(response.sessions[i].session_id.as_str(), id) {
            assert(views[i as int].session.session_id == id@);
            return true;
        }
        i = i + 1;
    }
    false
}

/// A reported account with its usage. The plan that the usage is counted for is the account's.
pub open spec fn with_usage(reported: ReportedView, limits: Option<RateLimitSnapshot>) -> ReportedView {
    ReportedView {
        rate_limits: limits,
        account: match (reported.account, limits) {
            (
                Some(AccountView::Chatgpt { email, .. }),
                Some(RateLimitSnapshot { plan_type: Some(plan_type), .. }),
            ) => Some(AccountView::Chatgpt { email, plan_type: plan_type@ }),
            (account, _) => account,
        },
        ..reported
    }
}

/// Reports an account with its usage.
pub fn with_account_rate_limits(session: AccountSession, limits: Option<RateLimitSnapshot>) -> (res:
    AccountSession)
    ensures
        res@ == with_usage(session@, limits),
{
    let mut session = session;
    let plan = match &limits {
        Some(limits) => model::copy_plan(&limits.plan_type),
        None => None,
    };
    let account = match (session.account, plan) {
        (Some(Account::Chatgpt { email, .. }), Some(plan_type)) => Some(
            Account::Chatgpt { email, plan_type },
        ),
        (account, _) => account,
    };
    session.account = account;
    session.rate_limits = limits;
    session
}

/// A saved account under its ID, as far as its selection goes.
pub fn account_profile(session: AccountSession) -> (res: AuthProfileSummary)
    ensures
        res.name == session.session_id,
        res.account == session.account,
        res.rate_limits == session.rate_limits,
        res.active == session.is_active,
{
    AuthProfileSummary {
        name: session.session_id,
        account: session.account,
        rate_limits: session.rate_limits,
        active: session.is_active,
    }
}

/// The first current account from `from` on.
pub open spec fn active_place(reported: Seq<ReportedView>, from: int) -> Option<int>
    decreases reported.len() - from,
{
    if from < 0 || from >= reported.len() {
        None
    } else if reported[from].is_active {
        Some(from)
    } else {
        active_place(reported, from + 1)
    }
}

/// The account that was switched to.
pub fn activated_profile(response: AccountSessionsResponse) -> (res: Result<
    AuthProfileSummary,
    RpcError,
>)
    ensures
        match (active_place(sessions::reported_views(response.sessions@), 0), res) {
            (Some(at), Ok(profile)) => profile.active && profile.name
                == response.sessions@[at].session_id && profile.account
                == response.sessions@[at].account && profile.rate_limits
                == response.sessions@[at].rate_limits,
            (None, Err(error)) => error@ == rpc::failed(
                "activated saved account disappeared unexpectedly"@,
            ),
            _ => false,
        },
{
    let ghost views = sessions::reported_views(response.sessions@);
    let mut i: usize = 0;
    let mut sessions = response.sessions;
    let ghost all = sessions@;
    while i < sessions.len()
        invariant
            i <= sessions@.len(),
            sessions@ == all,
            all == response.sessions@,
            views == sessions::reported_views(all),
            active_place(views, 0) == active_place(views, i as int),
        decreases sessions@.len() - i,
    {
        assert(views[i as int] == all[i as int]@);
        if sessions[i].is_active {
            let session = sessions.remove(i);
            return Ok(account_profile(session));
        }
        i = i + 1;
    }
    Err(rpc::internal_error("activated saved account disappeared unexpectedly"))
}

/// What a request to the backend on behalf of stored credentials is made with.
#[derive(Debug, PartialEq, Eq)]
pub struct ProfileClient {
    pub access_token: String,
    pub account_id: Option<String>,
    pub fedramp: bool,
}

/// What a request to the backend is made with: nothing for an API key; the access token of a ChatGPT
/// login, its workspace and where its account is hosted.
pub fn backend_client_for_profile_auth(auth: &AuthDotJson) -> (res: Result<
    Option<ProfileClient>,
    StoreError,
>)
    ensures
        ({
            let is_key = auth@.openai_api_key is Some || auth@.auth_mode == Some(AuthMode::ApiKey);
            match res {
                Ok(None) => is_key,
                Ok(Some(client)) => !is_key && (auth@.tokens matches Some(tokens)
                    && tokens.access_token.len() > 0 && client.access_token@ == tokens.access_token
                    && text::opt_view(client.account_id) == sessions::workspace_of(auth@)
                    && client.fedramp == tokens.id_token.chatgpt_account_is_fedramp),
                Err(error) => !is_key && error@ == (match auth@.tokens {
                    None => model::other_error("chatgpt auth profile is missing tokens"@),
                    Some(_) => model::other_error(
                        "chatgpt auth profile is missing access token"@,
                    ),
                }) && (auth@.tokens matches Some(tokens) ==> tokens.access_token.len() == 0),
            }
        }),
{
    let is_key = match auth.auth_mode {
        Some(mode) => mode == AuthMode::ApiKey,
        None => false,
    };
    if auth.openai_api_key.is_some() || is_key {
        return Ok(None);
    }
    match &auth.tokens {
        None => Err(StoreError::other("chatgpt auth profile is missing tokens")),
        Some(tokens) => {
            let token_chars = text::chars_of(tokens.access_token.as_str());
            if token_chars.len() == 0 {
                return Err(StoreError::other("chatgpt auth profile is missing access token"));
            }
            let account_id = match &tokens.account_id {
                Some(id) => Some(id.clone()),
                None => model::copy_option(&tokens.id_token.chatgpt_account_id),
            };
            Ok(
                Some(
                    ProfileClient {
                        access_token: tokens.access_token.clone(),
                        account_id,
                        fedramp: tokens.id_token.chatgpt_account_is_fedramp,
                    },
                ),
            )
        },
    }
}

} // verus!
