//! Priming: a short request on behalf of each saved account, so that its usage windows begin to run.

use vstd::prelude::*;
use crate::accounts::model;
use crate::accounts::model::{
    Account, AuthDotJson, AuthMode, ErrorKind, ErrorView, RateLimitSnapshot, StoreError,
};
use crate::accounts::sessions::AccountSession;
use crate::ids;
use crate::text;
use crate::workflows::runtime;

verus! {

/// How long to wait between two passes where nothing else is asked for, in seconds.
pub const DEFAULT_ACCOUNT_PRIMING_INTERVAL_SECONDS: u32 = 300;

/// How long a request may take, in seconds.
pub const REQUEST_TIMEOUT_SECONDS: u64 = 180;

/// What came of priming an account.
#[derive(Clone, Copy, Debug, PartialEq, Eq, Structural)]
pub enum AccountPrimingProfileOutcome {
    Primed,
    AlreadyActive,
    UnsupportedAuth,
    Failed,
}

/// What came of priming an account, with its usage before and after.
#[derive(Debug, PartialEq, Eq)]
pub struct AccountPrimingProfileResult {
    pub profile_name: String,
    pub account: Option<Account>,
    pub outcome: AccountPrimingProfileOutcome,
    pub before_rate_limits: Option<RateLimitSnapshot>,
    pub after_rate_limits: Option<RateLimitSnapshot>,
    pub error: Option<String>,
}

/// A pass over the saved accounts.
#[derive(Debug, PartialEq, Eq)]
pub struct AccountPrimingRunSummary {
    pub started_at: i64,
    pub completed_at: i64,
    pub cancelled: bool,
    pub primed_count: u32,
    pub already_active_count: u32,
    pub unsupported_count: u32,
    pub failed_count: u32,
    pub results: Vec<AccountPrimingProfileResult>,
}

impl AccountPrimingProfileResult {
    pub fn copy(&self) -> (res: AccountPrimingProfileResult)
        ensures
            res == *self,
    {
        AccountPrimingProfileResult {
            profile_name: self.profile_name.clone(),
            account: model::copy_account(&self.account),
            outcome: self.outcome,
            before_rate_limits: model::copy_snapshot(&self.before_rate_limits),
            after_rate_limits: model::copy_snapshot(&self.after_rate_limits),
            error: model::copy_option(&self.error),
        }
    }
}

/// How many results have an outcome.
pub open spec fn count_of(
    results: Seq<AccountPrimingProfileResult>,
    outcome: AccountPrimingProfileOutcome,
) -> nat
    decreases results.len(),
{
    if results.len() == 0 {
        0
    } else {
        count_of(results.drop_last(), outcome) + if results.last().outcome == outcome {
            1nat
        } else {
            0
        }
    }
}

impl AccountPrimingRunSummary {
    /// Whether the counts are those of the results.
    pub open spec fn counts_match(self) -> bool {
        &&& self.primed_count == count_of(self.results@, AccountPrimingProfileOutcome::Primed)
        &&& self.already_active_count == count_of(
            self.results@,
            AccountPrimingProfileOutcome::AlreadyActive,
        )
        &&& self.unsupported_count == count_of(
            self.results@,
            AccountPrimingProfileOutcome::UnsupportedAuth,
        )
        &&& self.failed_count == count_of(self.results@, AccountPrimingProfileOutcome::Failed)
    }

    /// Whether two summaries say the same.
    pub open spec fn same_as(self, other: AccountPrimingRunSummary) -> bool {
        &&& self.started_at == other.started_at
        &&& self.completed_at == other.completed_at
        &&& self.cancelled == other.cancelled
        &&& self.primed_count == other.primed_count
        &&& self.already_active_count == other.already_active_count
        &&& self.unsupported_count == other.unsupported_count
        &&& self.failed_count == other.failed_count
        &&& self.results@ == other.results@
    }

    pub fn copy(&self) -> (res: AccountPrimingRunSummary)
        ensures
            res.same_as(*self),
    {
        let mut results: Vec<AccountPrimingProfileResult> = Vec::new();
        let mut i: usize = 0;
        while i < self.results.len()
            invariant
                i <= self.results@.len(),
                results@ == self.results@.take(i as int),
            decreases self.results@.len() - i,
        {
            results.push(self.results[i].copy());
            i = i + 1;
            assert(self.results@.take(i as int) == self.results@.take(i - 1).push(
                self.results@[i - 1],
            ));
        }
        assert(self.results@.take(i as int) == self.results@);
        AccountPrimingRunSummary {
            started_at: self.started_at,
            completed_at: self.completed_at,
            cancelled: self.cancelled,
            primed_count: self.primed_count,
            already_active_count: self.already_active_count,
            unsupported_count: self.unsupported_count,
            failed_count: self.failed_count,
            results,
        }
    }

    /// A pass that has just begun.
    pub fn begin(started_at: i64) -> (res: AccountPrimingRunSummary)
        ensures
            res.counts_match(),
            res.results@.len() == 0,
            res.started_at == started_at,
            res.completed_at == started_at,
            !res.cancelled,
    {
        AccountPrimingRunSummary {
            started_at,
            completed_at: started_at,
            cancelled: false,
            primed_count: 0,
            already_active_count: 0,
            unsupported_count: 0,
            failed_count: 0,
            results: Vec::new(),
        }
    }

    /// Notes what came of an account, unless the pass was cancelled meanwhile; tells whether the pass
    /// goes on.
    pub fn record(&mut self, result: AccountPrimingProfileResult, cancelled: bool) -> (res: bool)
        requires
            old(self).counts_match(),
            old(self).results@.len() < u32::MAX,
        ensures
            res == !cancelled,
            final(self).counts_match(),
            final(self).results@ == (if cancelled {
                old(self).results@
            } else {
                old(self).results@.push(result)
            }),
            final(self).started_at == old(self).started_at,
            final(self).completed_at == old(self).completed_at,
            final(self).cancelled == old(self).cancelled,
    {
        if cancelled {
            return false;
        }
        let ghost before = self.results@;
        proof {
            lemma_counts(before);
        }
        match result.outcome {
            AccountPrimingProfileOutcome::Primed => {
                self.primed_count = self.primed_count + 1;
            },
            AccountPrimingProfileOutcome::AlreadyActive => {
                self.already_active_count = self.already_active_count + 1;
            },
            AccountPrimingProfileOutcome::UnsupportedAuth => {
                self.unsupported_count = self.unsupported_count + 1;
            },
            AccountPrimingProfileOutcome::Failed => {
                self.failed_count = self.failed_count + 1;
            },
        }
        self.results.push(result);
        assert(self.results@.drop_last() == before);
        true
    }

    /// Notes that the saved accounts could not be listed.
    pub fn record_listing_failure(&mut self, error: &str)
        requires
            old(self).counts_match(),
            old(self).results@.len() == 0,
        ensures
            final(self).counts_match(),
            final(self).failed_count == 1,
            final(self).results@.len() == 1,
            final(self).results@[0].profile_name@ == "<accounts>"@,
            final(self).results@[0].account is None,
            final(self).results@[0].outcome == AccountPrimingProfileOutcome::Failed,
            final(self).results@[0].before_rate_limits is None,
            final(self).results@[0].after_rate_limits is None,
            text::opt_view(final(self).results@[0].error) == Some(
                "failed to list saved accounts: "@ + error@,
            ),
            final(self).started_at == old(self).started_at,
            final(self).completed_at == old(self).completed_at,
            final(self).cancelled == old(self).cancelled,
    {
        let result = AccountPrimingProfileResult {
            profile_name: "<accounts>".to_string(),
            account: None,
            outcome: AccountPrimingProfileOutcome::Failed,
            before_rate_limits: None,
            after_rate_limits: None,
            error: Some(text::joined("failed to list saved accounts: ", error)),
        };
        self.record(result, false);
        assert(self.results@.drop_last() == old(self).results@);
        proof {
            lemma_counts(old(self).results@);
        }
    }

    /// Ends a pass.
    pub fn end(&mut self, cancelled: bool, completed_at: i64)
        requires
            old(self).counts_match(),
        ensures
            final(self).counts_match(),
            final(self).results@ == old(self).results@,
            final(self).started_at == old(self).started_at,
            final(self).completed_at == completed_at,
            final(self).cancelled == cancelled,
    {
        self.cancelled = cancelled;
        self.completed_at = completed_at;
    }
}

/// Every result counts once.
pub proof fn lemma_counts(results: Seq<AccountPrimingProfileResult>)
    ensures
        count_of(results, AccountPrimingProfileOutcome::Primed) + count_of(
            results,
            AccountPrimingProfileOutcome::AlreadyActive,
        ) + count_of(results, AccountPrimingProfileOutcome::UnsupportedAuth) + count_of(
            results,
            AccountPrimingProfileOutcome::Failed,
        ) == results.len(),
    decreases results.len(),
{
    if results.len() > 0 {
        lemma_counts(results.drop_last());
    }
}

/// The counts of a summary add up to its results.
pub proof fn counts_add_up(summary: AccountPrimingRunSummary)
    requires
        summary.counts_match(),
    ensures
        summary.primed_count + summary.already_active_count + summary.unsupported_count
            + summary.failed_count == summary.results@.len(),
{
    lemma_counts(summary.results@);
}

/// How often a worker passes over the accounts.
#[derive(Clone, Copy, Debug, PartialEq, Eq, Structural)]
pub enum RunMode {
    Once,
    Periodic(u32),
}

/// The one that passes over the accounts. Its ID tells it from those before and after it.
#[derive(Debug, PartialEq, Eq)]
pub struct AccountPrimingWorker {
    pub id: u128,
    pub interval_seconds: Option<u32>,
    pub started_at: i64,
    pub current_run_started_at: Option<i64>,
    pub current_profile_name: Option<String>,
}

/// Whether there is a worker, and the last pass.
#[derive(Debug, PartialEq, Eq)]
pub struct AccountPrimingState {
    pub worker: Option<AccountPrimingWorker>,
    pub last_run: Option<AccountPrimingRunSummary>,
}

/// How priming stands.
#[derive(Debug, PartialEq, Eq)]
pub struct AccountPrimingStatus {
    pub running: bool,
    pub interval_seconds: Option<u32>,
    pub started_at: Option<i64>,
    pub current_run_started_at: Option<i64>,
    pub current_profile_name: Option<String>,
    pub last_run: Option<AccountPrimingRunSummary>,
}

/// Whether a status is that of a state.
pub open spec fn is_status_of(status: AccountPrimingStatus, state: AccountPrimingState) -> bool {
    &&& status.running == (state.worker is Some)
    &&& match state.worker {
        Some(worker) => {
            &&& status.interval_seconds == worker.interval_seconds
            &&& status.started_at == Some(worker.started_at)
            &&& status.current_run_started_at == worker.current_run_started_at
            &&& status.current_profile_name == worker.current_profile_name
        },
        None => {
            &&& status.interval_seconds is None
            &&& status.started_at is None
            &&& status.current_run_started_at is None
            &&& status.current_profile_name is None
        },
    }
    &&& match (status.last_run, state.last_run) {
        (Some(shown), Some(last)) => shown.same_as(last),
        (None, None) => true,
        _ => false,
    }
}

/// Whether the worker with an ID is the present one.
pub open spec fn is_present(state: AccountPrimingState, id: u128) -> bool {
    state.worker matches Some(worker) && worker.id == id
}

/// A worker that was just taken on.
pub open spec fn started_worker(id: u128, mode: RunMode, now: i64) -> AccountPrimingWorker {
    AccountPrimingWorker {
        id,
        interval_seconds: match mode {
            RunMode::Once => None,
            RunMode::Periodic(interval) => Some(interval),
        },
        started_at: now,
        current_run_started_at: None,
        current_profile_name: None,
    }
}

impl AccountPrimingState {
    /// Without a worker and without a pass.
    pub fn new() -> (res: AccountPrimingState)
        ensures
            res.worker is None,
            res.last_run is None,
    {
        AccountPrimingState { worker: None, last_run: None }
    }

    /// How priming stands.
    pub fn status(&self) -> (res: AccountPrimingStatus)
        ensures
            is_status_of(res, *self),
    {
        let last_run = match &self.last_run {
            Some(summary) => Some(summary.copy()),
            None => None,
        };
        match &self.worker {
            Some(worker) => AccountPrimingStatus {
                running: true,
                interval_seconds: worker.interval_seconds,
                started_at: Some(worker.started_at),
                current_run_started_at: worker.current_run_started_at,
                current_profile_name: model::copy_option(&worker.current_profile_name),
                last_run,
            },
            None => AccountPrimingStatus {
                running: false,
                interval_seconds: None,
                started_at: None,
                current_run_started_at: None,
                current_profile_name: None,
                last_run,
            },
        }
    }

    /// Takes on a worker, unless there is one already.
    pub fn launch(&mut self, mode: RunMode, id: u128, now: i64) -> (res: Result<
        AccountPrimingStatus,
        StoreError,
    >)
        ensures
            final(self).last_run == old(self).last_run,
            match res {
                Err(error) => old(self).worker is Some && *final(self) == *old(self) && error@
                    == model::other_error("account priming is already running"@),
                Ok(status) => old(self).worker is None && final(self).worker == Some(
                    started_worker(id, mode, now),
                ) && is_status_of(status, *final(self)),
            },
    {
        if self.worker.is_some() {
            return Err(StoreError::other("account priming is already running"));
        }
        let interval_seconds = match mode {
            RunMode::Once => None,
            RunMode::Periodic(interval) => Some(interval),
        };
        self.worker = Some(
            AccountPrimingWorker {
                id,
                interval_seconds,
                started_at: now,
                current_run_started_at: None,
                current_profile_name: None,
            },
        );
        Ok(self.status())
    }

    /// Reserves the place for a worker with a fresh ID, which is told.
    pub fn launch_worker(&mut self, mode: RunMode, now: i64) -> (res: Result<
        (u128, AccountPrimingStatus),
        StoreError,
    >)
        ensures
            final(self).last_run == old(self).last_run,
            match res {
                Err(error) => old(self).worker is Some && *final(self) == *old(self) && error@
                    == model::other_error("account priming is already running"@),
                Ok((id, status)) => old(self).worker is None && ids::has_version(id, 4)
                    && final(self).worker == Some(started_worker(id, mode, now)) && is_status_of(
                    status,
                    *final(self),
                ),
            },
    {
        let id: u128 = ids::random_number();
        match self.launch(mode, id, now) {
            Ok(status) => Ok((id, status)),
            Err(error) => Err(error),
        }
    }

    /// The worker that is to be stopped.
    pub fn present_worker(&self) -> (res: Option<u128>)
        ensures
            match res {
                Some(id) => is_present(*self, id),
                None => self.worker is None,
            },
    {
        match &self.worker {
            Some(worker) => Some(worker.id),
            None => None,
        }
    }

    /// Lets a worker go, if it is still the present one.
    pub fn release(&mut self, id: u128)
        ensures
            final(self).last_run == old(self).last_run,
            final(self).worker == (if is_present(*old(self), id) {
                None
            } else {
                old(self).worker
            }),
    {
        let present = match &self.worker {
            Some(worker) => worker.id == id,
            None => false,
        };
        if present {
            self.worker = None;
        }
    }

    /// Notes which account a worker turns to, if it is still the present one.
    pub fn begin_account(&mut self, id: u128, started_at: i64, account: &AccountSession)
        ensures
            final(self).last_run == old(self).last_run,
            match (old(self).worker, final(self).worker) {
                (Some(before), Some(after)) => if before.id == id {
                    &&& after.id == before.id
                    &&& after.interval_seconds == before.interval_seconds
                    &&& after.started_at == before.started_at
                    &&& after.current_run_started_at == Some(started_at)
                    &&& text::opt_view(after.current_profile_name) == Some(profile_name(*account))
                } else {
                    after == before
                },
                (None, None) => true,
                _ => false,
            },
    {
        let worker = match self.worker.take() {
            Some(worker) => worker,
            None => {
                return ;
            },
        };
        if worker.id != id {
            self.worker = Some(worker);
            return ;
        }
        self.worker = Some(
            AccountPrimingWorker {
                id: worker.id,
                interval_seconds: worker.interval_seconds,
                started_at: worker.started_at,
                current_run_started_at: Some(started_at),
                current_profile_name: Some(profile_name_of(account)),
            },
        );
    }

    /// Notes a pass that is over.
    pub fn end_pass(&mut self, id: u128, summary: AccountPrimingRunSummary)
        ensures
            final(self).last_run == Some(summary),
            match (old(self).worker, final(self).worker) {
                (Some(before), Some(after)) => if before.id == id {
                    &&& after.id == before.id
                    &&& after.interval_seconds == before.interval_seconds
                    &&& after.started_at == before.started_at
                    &&& after.current_run_started_at is None
                    &&& after.current_profile_name is None
                } else {
                    after == before
                },
                (None, None) => true,
                _ => false,
            },
    {
        self.last_run = Some(summary);
        let worker = match self.worker.take() {
            Some(worker) => worker,
            None => {
                return ;
            },
        };
        if worker.id != id {
            self.worker = Some(worker);
            return ;
        }
        self.worker = Some(
            AccountPrimingWorker {
                id: worker.id,
                interval_seconds: worker.interval_seconds,
                started_at: worker.started_at,
                current_run_started_at: None,
                current_profile_name: None,
            },
        );
    }
}

/// How long a worker waits before its next pass; `None` when it is done.
pub fn next_pass(mode: RunMode, cancelled: bool) -> (res: Option<u32>)
    ensures
        res == (match mode {
            RunMode::Periodic(interval) if !cancelled => Some(interval),
            _ => None,
        }),
{
    match mode {
        RunMode::Periodic(interval) => if cancelled {
            None
        } else {
            Some(interval)
        },
        RunMode::Once => None,
    }
}

/// The name that an account goes by: its e-mail address, else its ID.
pub open spec fn profile_name(account: AccountSession) -> Seq<char> {
    match account.email {
        Some(email) => email@,
        None => account.session_id@,
    }
}

fn profile_name_of(account: &AccountSession) -> (res: String)
    ensures
        res@ == profile_name(*account),
{
    match &account.email {
        Some(email) => email.clone(),
        None => account.session_id.clone(),
    }
}

/// Whether both usage windows of an account run.
pub open spec fn windows_run(snapshot: RateLimitSnapshot) -> bool {
    snapshot.primary is Some && snapshot.secondary is Some
}

/// Whether both usage windows of an account run.
pub fn rate_limits_are_active(snapshot: &RateLimitSnapshot) -> (res: bool)
    ensures
        res == windows_run(*snapshot),
{
    snapshot.primary.is_some() && snapshot.secondary.is_some()
}

/// An account before it is primed.
pub fn begin_result(account: &AccountSession) -> (res: AccountPrimingProfileResult)
    ensures
        res.profile_name@ == profile_name(*account),
        res.account == account.account,
        res.outcome == AccountPrimingProfileOutcome::Failed,
        res.before_rate_limits is None,
        res.after_rate_limits is None,
        res.error is None,
{
    AccountPrimingProfileResult {
        profile_name: profile_name_of(account),
        account: model::copy_account(&account.account),
        outcome: AccountPrimingProfileOutcome::Failed,
        before_rate_limits: None,
        after_rate_limits: None,
        error: None,
    }
}

/// Whether an account can be primed: a ChatGPT login is allowed, and that is what it is.
pub fn is_primable(chatgpt_allowed: bool, auth: &AuthDotJson, mode: Option<AuthMode>) -> (res: bool)
    ensures
        res == (chatgpt_allowed && (auth@.auth_mode is None || auth@.auth_mode == Some(
            AuthMode::Chatgpt,
        )) && mode == Some(AuthMode::Chatgpt)),
{
    let stated = match auth.auth_mode {
        Some(stated) => stated == AuthMode::Chatgpt,
        None => true,
    };
    let used = match mode {
        Some(mode) => mode == AuthMode::Chatgpt,
        None => false,
    };
    chatgpt_allowed && stated && used
}

impl AccountPrimingProfileResult {
    /// Whether two results are of the same account.
    pub open spec fn same_account(self, other: AccountPrimingProfileResult) -> bool {
        self.profile_name == other.profile_name && self.account == other.account
    }

    /// The account's credentials could not be loaded.
    pub fn not_loaded(&mut self, error: &str)
        ensures
            final(self).same_account(*old(self)),
            final(self).outcome == old(self).outcome,
            final(self).before_rate_limits == old(self).before_rate_limits,
            final(self).after_rate_limits == old(self).after_rate_limits,
            text::opt_view(final(self).error) == Some("failed to load saved account: "@ + error@),
    {
        self.error = Some(text::joined("failed to load saved account: ", error));
    }

    /// The account cannot be primed.
    pub fn not_primable(&mut self)
        ensures
            final(self).same_account(*old(self)),
            final(self).outcome == AccountPrimingProfileOutcome::UnsupportedAuth,
            final(self).before_rate_limits == old(self).before_rate_limits,
            final(self).after_rate_limits == old(self).after_rate_limits,
            text::opt_view(final(self).error) == Some("Priming requires a saved ChatGPT login"@),
    {
        self.outcome = AccountPrimingProfileOutcome::UnsupportedAuth;
        self.error = Some("Priming requires a saved ChatGPT login".to_string());
    }

    /// Takes the usage before priming; tells whether the account is to be primed.
    pub fn take_before(&mut self, before: RateLimitSnapshot) -> (res: bool)
        ensures
            res == !windows_run(before),
            final(self).same_account(*old(self)),
            final(self).before_rate_limits == Some(before),
            final(self).error == old(self).error,
            final(self).outcome == (if res {
                old(self).outcome
            } else {
                AccountPrimingProfileOutcome::AlreadyActive
            }),
            final(self).after_rate_limits == (if res {
                old(self).after_rate_limits
            } else {
                Some(before)
            }),
    {
        self.before_rate_limits = Some(before.copy());
        if rate_limits_are_active(&before) {
            self.outcome = AccountPrimingProfileOutcome::AlreadyActive;
            self.after_rate_limits = Some(before);
            return false;
        }
        true
    }

    /// Takes the usage after priming; fails where the windows still do not run.
    pub fn take_after(&mut self, after: RateLimitSnapshot) -> (res: Result<(), StoreError>)
        ensures
            final(self).same_account(*old(self)),
            final(self).before_rate_limits == old(self).before_rate_limits,
            final(self).after_rate_limits == Some(after),
            final(self).error == old(self).error,
            match res {
                Ok(_) => windows_run(after) && final(self).outcome
                    == AccountPrimingProfileOutcome::Primed,
                Err(error) => !windows_run(after) && final(self).outcome == old(self).outcome
                    && error@ == model::other_error(
                    "usage windows were still inactive after priming"@,
                ),
            },
    {
        let active = rate_limits_are_active(&after);
        self.after_rate_limits = Some(after);
        if !active {
            return Err(StoreError::other("usage windows were still inactive after priming"));
        }
        self.outcome = AccountPrimingProfileOutcome::Primed;
        Ok(())
    }

    /// Ends the account. Refreshed credentials that could not be saved count before whatever came of
    /// priming: either failure makes the account a failed one.
    pub fn end(&mut self, operation: Result<(), StoreError>, persisted: Result<bool, StoreError>)
        ensures
            final(self).same_account(*old(self)),
            final(self).before_rate_limits == old(self).before_rate_limits,
            final(self).after_rate_limits == old(self).after_rate_limits,
            match (persisted, operation) {
                (Err(error), _) => final(self).outcome == AccountPrimingProfileOutcome::Failed
                    && text::opt_view(final(self).error) == Some(
                    "failed to prime account: "@ + error@.message,
                ),
                (Ok(_), Err(error)) => final(self).outcome == AccountPrimingProfileOutcome::Failed
                    && text::opt_view(final(self).error) == Some(
                    "failed to prime account: "@ + error@.message,
                ),
                (Ok(_), Ok(_)) => final(self).outcome == old(self).outcome && final(self).error
                    == old(self).error,
            },
    {
        let failure = match (persisted, operation) {
            (Err(error), _) => Some(error),
            (Ok(_), Err(error)) => Some(error),
            (Ok(_), Ok(_)) => None,
        };
        match failure {
            Some(error) => {
                self.outcome = AccountPrimingProfileOutcome::Failed;
                self.error = Some(text::joined("failed to prime account: ", error.message.as_str()));
            },
            None => {},
        }
    }
}

/// How far priming an account has come.
#[derive(Debug, PartialEq, Eq)]
pub enum AccountPhase {
    /// Its credentials are being loaded.
    Loading,
    /// Its usage is being asked for.
    ReadingBefore,
    /// The request on its behalf is being made.
    Priming,
    /// Its usage is being asked for again.
    ReadingAfter,
    /// Its credentials are being saved, as they may have been refreshed meanwhile; this came of
    /// priming it.
    Saving(Result<(), StoreError>),
    Done,
}

/// The view of a phase.
pub enum PhaseView {
    Loading,
    ReadingBefore,
    Priming,
    ReadingAfter,
    Saving(Result<(), ErrorView>),
    Done,
}

impl View for AccountPhase {
    type V = PhaseView;

    open spec fn view(&self) -> PhaseView {
        match self {
            AccountPhase::Loading => PhaseView::Loading,
            AccountPhase::ReadingBefore => PhaseView::ReadingBefore,
            AccountPhase::Priming => PhaseView::Priming,
            AccountPhase::ReadingAfter => PhaseView::ReadingAfter,
            AccountPhase::Saving(Ok(_)) => PhaseView::Saving(Ok(())),
            AccountPhase::Saving(Err(error)) => PhaseView::Saving(Err(error@)),
            AccountPhase::Done => PhaseView::Done,
        }
    }
}

/// What came of the last step.
#[derive(Debug, PartialEq, Eq)]
pub enum AccountEvent {
    NotLoaded(String),
    Loaded { primable: bool },
    Usage(Result<RateLimitSnapshot, StoreError>),
    Primed(Result<(), StoreError>),
    Saved(Result<bool, StoreError>),
}

/// The next step.
#[derive(Clone, Copy, Debug, PartialEq, Eq, Structural)]
pub enum AccountAction {
    FetchUsage,
    Prime,
    SaveCredentials,
    Finish,
}

/// Priming an account, under way.
#[derive(Debug, PartialEq, Eq)]
pub struct AccountAttempt {
    pub phase: AccountPhase,
    pub result: AccountPrimingProfileResult,
}

/// Whether an event is what a phase waits for.
pub open spec fn fits(phase: PhaseView, event: AccountEvent) -> bool {
    match phase {
        PhaseView::Loading => event is NotLoaded || event is Loaded,
        PhaseView::ReadingBefore | PhaseView::ReadingAfter => event is Usage,
        PhaseView::Priming => event is Primed,
        PhaseView::Saving(_) => event is Saved,
        PhaseView::Done => false,
    }
}

/// The phase after an event.
pub open spec fn next_phase(phase: PhaseView, event: AccountEvent) -> PhaseView {
    match (phase, event) {
        (PhaseView::Loading, AccountEvent::Loaded { primable: true }) => PhaseView::ReadingBefore,
        (PhaseView::ReadingBefore, AccountEvent::Usage(Ok(snapshot))) => if windows_run(snapshot) {
            PhaseView::Saving(Ok(()))
        } else {
            PhaseView::Priming
        },
        (PhaseView::Priming, AccountEvent::Primed(Ok(_))) => PhaseView::ReadingAfter,
        (PhaseView::Priming, AccountEvent::Primed(Err(error))) => PhaseView::Saving(Err(error@)),
        (PhaseView::ReadingAfter, AccountEvent::Usage(Ok(snapshot))) => PhaseView::Saving(
            if windows_run(snapshot) {
                Ok(())
            } else {
                Err(model::other_error("usage windows were still inactive after priming"@))
            },
        ),
        (
            PhaseView::ReadingBefore | PhaseView::ReadingAfter,
            AccountEvent::Usage(Err(error)),
        ) => PhaseView::Saving(Err(error@)),
        _ => PhaseView::Done,
    }
}

/// The step that a phase is for.
pub open spec fn action_of(phase: PhaseView) -> AccountAction {
    match phase {
        PhaseView::ReadingBefore | PhaseView::ReadingAfter => AccountAction::FetchUsage,
        PhaseView::Priming => AccountAction::Prime,
        PhaseView::Saving(_) => AccountAction::SaveCredentials,
        _ => AccountAction::Finish,
    }
}

/// How an event bears on what came of an account.
pub open spec fn bears_on(
    phase: PhaseView,
    event: AccountEvent,
    before: AccountPrimingProfileResult,
    after: AccountPrimingProfileResult,
) -> bool {
    match (phase, event) {
        (PhaseView::Loading, AccountEvent::NotLoaded(message)) => {
            &&& after.same_account(before)
            &&& after.outcome == before.outcome
            &&& after.before_rate_limits == before.before_rate_limits
            &&& after.after_rate_limits == before.after_rate_limits
            &&& text::opt_view(after.error) == Some("failed to load saved account: "@ + message@)
        },
        (PhaseView::Loading, AccountEvent::Loaded { primable: false }) => {
            &&& after.same_account(before)
            &&& after.outcome == AccountPrimingProfileOutcome::UnsupportedAuth
            &&& after.before_rate_limits == before.before_rate_limits
            &&& after.after_rate_limits == before.after_rate_limits
            &&& text::opt_view(after.error) == Some("Priming requires a saved ChatGPT login"@)
        },
        (PhaseView::ReadingBefore, AccountEvent::Usage(Ok(snapshot))) => {
            &&& after.same_account(before)
            &&& after.before_rate_limits == Some(snapshot)
            &&& after.error == before.error
            &&& after.outcome == (if windows_run(snapshot) {
                AccountPrimingProfileOutcome::AlreadyActive
            } else {
                before.outcome
            })
            &&& after.after_rate_limits == (if windows_run(snapshot) {
                Some(snapshot)
            } else {
                before.after_rate_limits
            })
        },
        (PhaseView::ReadingAfter, AccountEvent::Usage(Ok(snapshot))) => {
            &&& after.same_account(before)
            &&& after.before_rate_limits == before.before_rate_limits
            &&& after.after_rate_limits == Some(snapshot)
            &&& after.error == before.error
            &&& after.outcome == (if windows_run(snapshot) {
                AccountPrimingProfileOutcome::Primed
            } else {
                before.outcome
            })
        },
        (PhaseView::Saving(operation), AccountEvent::Saved(persisted)) => {
            &&& after.same_account(before)
            &&& after.before_rate_limits == before.before_rate_limits
            &&& after.after_rate_limits == before.after_rate_limits
            &&& match (persisted, operation) {
                (Err(error), _) => after.outcome == AccountPrimingProfileOutcome::Failed
                    && text::opt_view(after.error) == Some(
                    "failed to prime account: "@ + error@.message,
                ),
                (Ok(_), Err(error)) => after.outcome == AccountPrimingProfileOutcome::Failed
                    && text::opt_view(after.error) == Some(
                    "failed to prime account: "@ + error.message,
                ),
                (Ok(_), Ok(_)) => after.outcome == before.outcome && after.error == before.error,
            }
        },
        _ => after == before,
    }
}

impl AccountAttempt {
    /// Begins with an account: its credentials are to be loaded.
    pub fn begin(account: &AccountSession) -> (res: AccountAttempt)
        ensures
            res.phase is Loading,
            res.result.profile_name@ == profile_name(*account),
            res.result.account == account.account,
            res.result.outcome == AccountPrimingProfileOutcome::Failed,
            res.result.before_rate_limits is None,
            res.result.after_rate_limits is None,
            res.result.error is None,
    {
        AccountAttempt { phase: AccountPhase::Loading, result: begin_result(account) }
    }

    /// Takes what came of the last step and gives the next one.
    pub fn process_account(self, event: AccountEvent) -> (res: (AccountAttempt, AccountAction))
        requires
            fits(self.phase@, event),
        ensures
            bears_on(self.phase@, event, self.result, res.0.result),
            res.0.phase@ == next_phase(self.phase@, event),
            res.1 == action_of(res.0.phase@),
    {
        let AccountAttempt { phase, result } = self;
        let mut result = result;
        match (phase, event) {
            (AccountPhase::Loading, AccountEvent::NotLoaded(message)) => {
                result.not_loaded(message.as_str());
                (AccountAttempt { phase: AccountPhase::Done, result }, AccountAction::Finish)
            },
            (AccountPhase::Loading, AccountEvent::Loaded { primable }) => {
                if primable {
                    (
                        AccountAttempt { phase: AccountPhase::ReadingBefore, result },
                        AccountAction::FetchUsage,
                    )
                } else {
                    result.not_primable();
                    (AccountAttempt { phase: AccountPhase::Done, result }, AccountAction::Finish)
                }
            },
            (AccountPhase::ReadingBefore, AccountEvent::Usage(usage)) => match usage {
                Ok(snapshot) => if result.take_before(snapshot) {
                    (AccountAttempt { phase: AccountPhase::Priming, result }, AccountAction::Prime)
                } else {
                    (
                        AccountAttempt { phase: AccountPhase::Saving(Ok(())), result },
                        AccountAction::SaveCredentials,
                    )
                },
                Err(error) => (
                    AccountAttempt { phase: AccountPhase::Saving(Err(error)), result },
                    AccountAction::SaveCredentials,
                ),
            },
            (AccountPhase::Priming, AccountEvent::Primed(primed)) => match primed {
                Ok(_) => (
                    AccountAttempt { phase: AccountPhase::ReadingAfter, result },
                    AccountAction::FetchUsage,
                ),
                Err(error) => (
                    AccountAttempt { phase: AccountPhase::Saving(Err(error)), result },
                    AccountAction::SaveCredentials,
                ),
            },
            (AccountPhase::ReadingAfter, AccountEvent::Usage(usage)) => match usage {
                Ok(snapshot) => {
                    let operation = result.take_after(snapshot);
                    (
                        AccountAttempt { phase: AccountPhase::Saving(operation), result },
                        AccountAction::SaveCredentials,
                    )
                },
                Err(error) => (
                    AccountAttempt { phase: AccountPhase::Saving(Err(error)), result },
                    AccountAction::SaveCredentials,
                ),
            },
            (AccountPhase::Saving(operation), AccountEvent::Saved(persisted)) => {
                result.end(operation, persisted);
                (AccountAttempt { phase: AccountPhase::Done, result }, AccountAction::Finish)
            },
            (phase, _) => (AccountAttempt { phase, result }, AccountAction::Finish),
        }
    }
}

/// Once requests are made with an account's credentials, they are saved before the account is done
/// with, whatever comes of the requests.
pub proof fn used_credentials_are_saved(phase: PhaseView, event: AccountEvent)
    requires
        fits(phase, event),
        phase is ReadingBefore || phase is Priming || phase is ReadingAfter,
    ensures
        action_of(next_phase(phase, event)) != AccountAction::Finish,
        !(next_phase(phase, event) is Done),
{
}

/// Whether a result is that of an account.
pub open spec fn is_result_of(result: AccountPrimingProfileResult, account: AccountSession) -> bool {
    result.profile_name@ == profile_name(account) && result.account == account.account
}

/// Whether results are those of accounts, one for each, in the same order.
pub open spec fn are_results_of(
    results: Seq<AccountPrimingProfileResult>,
    accounts: Seq<AccountSession>,
) -> bool {
    results.len() == accounts.len() && forall|i: int|
        0 <= i < results.len() ==> is_result_of(#[trigger] results[i], accounts[i])
}

/// A pass over the saved accounts, under way: how many of them are done with, the one in hand, and
/// whether the pass was cancelled before it came to the end.
#[derive(Debug, PartialEq, Eq)]
pub struct PrimingPass {
    pub accounts: Vec<AccountSession>,
    pub done: usize,
    pub attempt: Option<AccountAttempt>,
    pub stopped: bool,
    pub summary: AccountPrimingRunSummary,
}

impl PrimingPass {
    /// The results are those of the accounts that are done with, and the account in hand is the next.
    pub open spec fn is_well_formed(self) -> bool {
        &&& self.accounts@.len() <= u32::MAX
        &&& self.done <= self.accounts@.len()
        &&& self.summary.counts_match()
        &&& !self.summary.cancelled
        &&& are_results_of(self.summary.results@, self.accounts@.take(self.done as int))
        &&& self.attempt matches Some(attempt) ==> self.done < self.accounts@.len()
            && is_result_of(attempt.result, self.accounts@[self.done as int])
    }

    /// Whether no account is left to turn to.
    pub open spec fn is_over(self) -> bool {
        self.attempt is None && (self.stopped || self.done == self.accounts@.len())
    }

    /// Begins with the accounts as they are listed.
    pub fn begin(accounts: Vec<AccountSession>, started_at: i64) -> (res: PrimingPass)
        requires
            accounts@.len() <= u32::MAX,
        ensures
            res.is_well_formed(),
            res.accounts == accounts,
            res.done == 0,
            res.attempt is None,
            !res.stopped,
            res.summary.started_at == started_at,
            res.summary.completed_at == started_at,
    {
        PrimingPass {
            accounts,
            done: 0,
            attempt: None,
            stopped: false,
            summary: AccountPrimingRunSummary::begin(started_at),
        }
    }

    /// Turns to the next account and gives its place, unless the pass was cancelled or all accounts
    /// are done with.
    pub fn next_account(&mut self, cancelled: bool) -> (res: Option<usize>)
        requires
            old(self).is_well_formed(),
            old(self).attempt is None,
        ensures
            final(self).is_well_formed(),
            final(self).accounts == old(self).accounts,
            final(self).done == old(self).done,
            final(self).summary == old(self).summary,
            final(self).stopped == (old(self).stopped || (cancelled && old(self).done
                < old(self).accounts@.len())),
            match res {
                Some(place) => {
                    &&& place == old(self).done
                    &&& !final(self).stopped
                    &&& final(self).attempt matches Some(attempt) && attempt.phase is Loading
                        && attempt.result.outcome == AccountPrimingProfileOutcome::Failed
                        && attempt.result.before_rate_limits is None
                        && attempt.result.after_rate_limits is None && attempt.result.error is None
                },
                None => final(self).is_over(),
            },
    {
        if self.done == self.accounts.len() || self.stopped {
            return None;
        }
        if cancelled {
            self.stopped = true;
            return None;
        }
        self.attempt = Some(AccountAttempt::begin(&self.accounts[self.done]));
        Some(self.done)
    }

    /// Takes what came of the last step with the account in hand and gives the next one.
    pub fn process(&mut self, event: AccountEvent) -> (res: AccountAction)
        requires
            old(self).is_well_formed(),
            old(self).attempt matches Some(attempt) && fits(attempt.phase@, event),
        ensures
            final(self).is_well_formed(),
            final(self).accounts == old(self).accounts,
            final(self).done == old(self).done,
            final(self).stopped == old(self).stopped,
            final(self).summary == old(self).summary,
            final(self).attempt matches Some(after) && bears_on(
                old(self).attempt->0.phase@,
                event,
                old(self).attempt->0.result,
                after.result,
            ) && after.phase@ == next_phase(old(self).attempt->0.phase@, event) && res == action_of(
                after.phase@,
            ),
    {
        match self.attempt.take() {
            Some(attempt) => {
                let (after, action) = attempt.process_account(event);
                assert(after.result.same_account(attempt.result));
                self.attempt = Some(after);
                action
            },
            None => AccountAction::Finish,
        }
    }

    /// Is done with the account in hand. Where the pass was cancelled meanwhile, nothing is noted of
    /// it, and the pass is over.
    pub fn end_account(&mut self, cancelled: bool)
        requires
            old(self).is_well_formed(),
            old(self).attempt matches Some(attempt) && attempt.phase is Done,
        ensures
            final(self).is_well_formed(),
            final(self).accounts == old(self).accounts,
            final(self).attempt is None,
            final(self).stopped == (old(self).stopped || cancelled),
            final(self).done == (if cancelled {
                old(self).done as int
            } else {
                old(self).done + 1
            }),
            final(self).summary.results@ == (if cancelled {
                old(self).summary.results@
            } else {
                old(self).summary.results@.push(old(self).attempt->0.result)
            }),
            final(self).summary.started_at == old(self).summary.started_at,
            final(self).summary.completed_at == old(self).summary.completed_at,
    {
        if let Some(attempt) = self.attempt.take() {
            if self.summary.record(attempt.result, cancelled) {
                self.done = self.done + 1;
                proof {
                    let taken = self.accounts@.take(self.done as int);
                    assert(taken =~= self.accounts@.take(self.done - 1).push(
                        self.accounts@[self.done - 1],
                    ));
                    assert forall|i: int| 0 <= i < self.summary.results@.len() implies is_result_of(
                        #[trigger] self.summary.results@[i],
                        taken[i],
                    ) by {
                        if i < self.done - 1 {
                            assert(is_result_of(
                                old(self).summary.results@[i],
                                self.accounts@.take(self.done - 1)[i],
                            ));
                        }
                    }
                }
            } else {
                self.stopped = true;
            }
        }
    }

    /// The pass is over. Its results are those of the accounts, in their order: of all of them unless
    /// the pass was cancelled, else of the first ones, without the one that was in hand.
    pub fn finish(self, cancelled: bool, completed_at: i64) -> (res: AccountPrimingRunSummary)
        requires
            self.is_well_formed(),
            self.is_over(),
        ensures
            res.counts_match(),
            res.results@ == self.summary.results@,
            are_results_of(res.results@, self.accounts@.take(self.done as int)),
            res.cancelled == (cancelled || self.stopped),
            !res.cancelled ==> are_results_of(res.results@, self.accounts@),
            res.started_at == self.summary.started_at,
            res.completed_at == completed_at,
    {
        let stopped = self.stopped;
        let mut summary = self.summary;
        summary.end(cancelled || stopped, completed_at);
        proof {
            assert(self.accounts@.take(self.accounts@.len() as int) =~= self.accounts@);
        }
        summary
    }
}

/// What a pass says that could not list the accounts.
pub fn unlisted_pass(error: &str, started_at: i64, cancelled: bool, completed_at: i64) -> (res:
    AccountPrimingRunSummary)
    ensures
        res.counts_match(),
        res.failed_count == 1,
        res.results@.len() == 1,
        res.results@[0].profile_name@ == "<accounts>"@,
        res.results@[0].account is None,
        res.results@[0].outcome == AccountPrimingProfileOutcome::Failed,
        res.results@[0].before_rate_limits is None,
        res.results@[0].after_rate_limits is None,
        text::opt_view(res.results@[0].error) == Some(
            "failed to list saved accounts: "@ + error@,
        ),
        res.cancelled == cancelled,
        res.started_at == started_at,
        res.completed_at == completed_at,
{
    let mut summary = AccountPrimingRunSummary::begin(started_at);
    summary.record_listing_failure(error);
    summary.end(cancelled, completed_at);
    summary
}

/// How a request of a pass ended, from outside.
#[derive(Debug, PartialEq, Eq)]
pub enum PrimingReply {
    Canceled,
    TimedOut,
    Ended(Result<(), String>),
}

/// The result of a request of a pass.
pub open spec fn priming_result(reply: PrimingReply) -> Result<(), ErrorView> {
    match reply {
        PrimingReply::Canceled => Err(
            ErrorView { kind: ErrorKind::Interrupted, message: "account priming canceled"@ },
        ),
        PrimingReply::TimedOut => Err(
            ErrorView { kind: ErrorKind::TimedOut, message: "account priming request timed out"@ },
        ),
        PrimingReply::Ended(Ok(_)) => Ok(()),
        PrimingReply::Ended(Err(message)) => Err(model::other_error(message@)),
    }
}

/// The result of a request of a pass.
pub fn cancellable(reply: PrimingReply) -> (res: Result<(), StoreError>)
    ensures
        match res {
            Ok(_) => priming_result(reply) is Ok,
            Err(error) => priming_result(reply) == Err::<(), ErrorView>(error@),
        },
{
    match reply {
        PrimingReply::Canceled => Err(
            StoreError::new(ErrorKind::Interrupted, "account priming canceled"),
        ),
        PrimingReply::TimedOut => Err(
            StoreError::new(ErrorKind::TimedOut, "account priming request timed out"),
        ),
        PrimingReply::Ended(Ok(_)) => Ok(()),
        PrimingReply::Ended(Err(message)) => Err(StoreError::with(ErrorKind::Other, message)),
    }
}

/// An event of the answer to a priming request.
#[derive(Debug, PartialEq, Eq)]
pub enum PrimingEvent {
    Completed,
    Other,
    Failed(String),
    /// The answer is over.
    End,
}

/// What an event means for a priming request: `None` when it goes on.
pub fn after_event(event: PrimingEvent) -> (res: Option<Result<(), String>>)
    ensures
        match event {
            PrimingEvent::Completed => res == Some(Ok::<(), String>(())),
            PrimingEvent::Other => res is None,
            PrimingEvent::Failed(message) => res == Some(Err::<(), String>(message)),
            PrimingEvent::End => res matches Some(Err(message)) && message@
                == "priming response ended before completion"@,
        },
{
    match event {
        PrimingEvent::Completed => Some(Ok(())),
        PrimingEvent::Other => None,
        PrimingEvent::Failed(message) => Some(Err(message)),
        PrimingEvent::End => Some(Err("priming response ended before completion".to_string())),
    }
}

/// Why an account cannot be primed, if it cannot: it has no credentials, or there is no provider to
/// send the request to.
pub open spec fn priming_problem(has_auth: bool, has_provider: bool) -> Option<ErrorView> {
    if !has_auth {
        Some(model::other_error("saved account has no auth"@))
    } else if !has_provider {
        Some(model::other_error("OpenAI provider is unavailable for account priming"@))
    } else {
        None
    }
}

/// Checks that the request on behalf of an account can be made.
pub fn prime(has_auth: bool, has_provider: bool) -> (res: Result<(), StoreError>)
    ensures
        match res {
            Ok(_) => priming_problem(has_auth, has_provider) is None,
            Err(error) => priming_problem(has_auth, has_provider) == Some(error@),
        },
{
    if !has_auth {
        return Err(StoreError::other("saved account has no auth"));
    }
    if !has_provider {
        return Err(StoreError::other("OpenAI provider is unavailable for account priming"));
    }
    Ok(())
}

/// The model to prime with: the configured one where the configured provider is the accounts' own,
/// else none in particular. Tells also whether the program's own list of models is to be used.
pub fn priming_model(provider_id: &str, configured: &Option<String>) -> (res: (bool, Option<String>))
    ensures
        res.0 == (provider_id@ == "openai"@),
        res.1 == (if res.0 {
            *configured
        } else {
            None
        }),
{
    if text::same_text(provider_id, "openai") {
        (true, model::copy_option(configured))
    } else {
        (false, None)
    }
}

/// The body of a priming request: a greeting, with no tools and no context.
pub open spec fn priming_body(model_name: Seq<char>) -> Seq<char> {
    "{\"input\":[{\"content\":[{\"text\":\"hi\",\"type\":\"input_text\"}],\"role\":\"user\"}],\"instructions\":\"Reply briefly to the greeting.\",\"model\":"@
        + runtime::json_string(model_name)
        + ",\"parallel_tool_calls\":false,\"store\":false,\"stream\":true,\"tool_choice\":\"none\",\"tools\":[]}"@
}

/// The body of a priming request.
pub fn priming_request(model_name: &str) -> (res: Result<String, String>)
    ensures
        res is Ok,
        res->Ok_0@ == priming_body(model_name@),
{
    let named = runtime::json(model_name)?;
    Ok(
        text::joined3(
            "{\"input\":[{\"content\":[{\"text\":\"hi\",\"type\":\"input_text\"}],\"role\":\"user\"}],\"instructions\":\"Reply briefly to the greeting.\",\"model\":",
            named.as_str(),
            ",\"parallel_tool_calls\":false,\"store\":false,\"stream\":true,\"tool_choice\":\"none\",\"tools\":[]}",
        ),
    )
}

/// An account is primed unless both of its windows run: it is enough that one does not.
pub proof fn accounts_with_an_idle_window_are_primed(snapshot: RateLimitSnapshot)
    ensures
        ({
            let event = AccountEvent::Usage(Ok(snapshot));
            let action = action_of(next_phase(PhaseView::ReadingBefore, event));
            &&& snapshot.primary is None ==> action == AccountAction::Prime
            &&& snapshot.secondary is None ==> action == AccountAction::Prime
            &&& snapshot.primary is Some && snapshot.secondary is Some ==> action
                == AccountAction::SaveCredentials
        }),
{
}

/// Whether a result tells of a success only once the requests are over, and with usage in which both
/// windows run.
pub open spec fn is_honest(phase: PhaseView, result: AccountPrimingProfileResult) -> bool {
    (result.outcome == AccountPrimingProfileOutcome::Primed || result.outcome
        == AccountPrimingProfileOutcome::AlreadyActive) ==> (phase is Saving || phase is Done) && (
    result.after_rate_limits matches Some(after) && after.primary is Some && after.secondary is Some)
}

/// An account ends as primed or already active only with usage in which both windows run: no step
/// breaks that, and it holds from the start.
pub proof fn successes_have_both_windows_running(
    phase: PhaseView,
    event: AccountEvent,
    before: AccountPrimingProfileResult,
    after: AccountPrimingProfileResult,
)
    requires
        fits(phase, event),
        bears_on(phase, event, before, after),
        is_honest(phase, before),
    ensures
        is_honest(next_phase(phase, event), after),
{
}

/// An account that was not primed never counts as primed, and one that was never counts as already
/// active: `Primed` comes only of usage after the request, `AlreadyActive` only of usage before it.
pub proof fn outcomes_tell_what_was_done(
    phase: PhaseView,
    event: AccountEvent,
    before: AccountPrimingProfileResult,
    after: AccountPrimingProfileResult,
)
    requires
        fits(phase, event),
        bears_on(phase, event, before, after),
        after.outcome != before.outcome,
    ensures
        after.outcome == AccountPrimingProfileOutcome::Primed ==> phase is ReadingAfter,
        after.outcome == AccountPrimingProfileOutcome::AlreadyActive ==> phase is ReadingBefore,
        after.outcome == AccountPrimingProfileOutcome::UnsupportedAuth ==> phase is Loading
            && event == (AccountEvent::Loaded { primable: false }),
        after.outcome == AccountPrimingProfileOutcome::Failed ==> phase is Saving && after.error is Some,
{
}

/// The windows of an account run where both do; one alone is not enough.
pub proof fn both_windows_must_run(snapshot: RateLimitSnapshot)
    ensures
        windows_run(snapshot) ==> snapshot.primary is Some && snapshot.secondary is Some,
        snapshot.primary is Some && snapshot.secondary is Some ==> windows_run(snapshot),
{
}

/// Accounts are primed with the same request, except for the model: another model makes it another
/// request.
pub proof fn requests_name_their_model(a: Seq<char>, b: Seq<char>)
    requires
        priming_body(a) == priming_body(b),
    ensures
        a == b,
{
    let front = "{\"input\":[{\"content\":[{\"text\":\"hi\",\"type\":\"input_text\"}],\"role\":\"user\"}],\"instructions\":\"Reply briefly to the greeting.\",\"model\":"@;
    let back = ",\"parallel_tool_calls\":false,\"store\":false,\"stream\":true,\"tool_choice\":\"none\",\"tools\":[]}"@;
    runtime::json_strings_are_read_back(front, a, back);
    runtime::json_strings_are_read_back(front, b, back);
}

} // verus!
