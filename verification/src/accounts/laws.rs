//! What holds of the store of saved accounts, whatever it holds.

use vstd::prelude::*;
use crate::accounts::auth_profiles;
use crate::accounts::auth_profiles::PlanCatalog;
use crate::accounts::model::{AuthView, ErrorView};
use crate::accounts::operations;
use crate::accounts::operations::{LoginPolicy, WorkspaceMetadata, WorkspaceToken};
use crate::accounts::order;
use crate::accounts::readers;
use crate::accounts::readers::ReaderView;
use crate::accounts::sessions;
use crate::accounts::sessions::{AccountsCheck, IndexView, SessionView};
use crate::accounts::slots;
use crate::accounts::store;
use crate::accounts::store::{ActiveStore, Disk, EffectView, IndexFileView, Progress, Run};
use crate::paths;

verus! {

/// Whether the noted changes lead from `start` to what is on disk by now.
pub open spec fn notes_all(start: Disk, run: Run) -> bool {
    run.disk == store::perform_all(start, run.effects)
}

proof fn lemma_after(start: Disk, run: Run, effect: EffectView)
    requires
        notes_all(start, run),
    ensures
        notes_all(start, run.after(effect)),
{
    assert(run.effects.push(effect).drop_last() == run.effects);
}

proof fn lemma_activated(start: Disk, run: Run, auth: AuthView, settings: ActiveStore)
    requires
        notes_all(start, run),
    ensures
        notes_all(start, store::activated(run, auth, settings)),
{
    let target = store::target_store(auth, settings);
    let save = EffectView::SaveActive { target, auth };
    let clear = EffectView::ClearActive { target: ActiveStore::Ephemeral };
    lemma_after(start, run, save);
    lemma_after(start, run.after(save), clear);
    lemma_after(start, run.after(save), EffectView::ClearActive { target: settings });
    lemma_after(
        start,
        run.after(save).after(clear),
        EffectView::ClearActive { target: settings },
    );
}

proof fn lemma_imported(start: Disk, progress: Progress, auth: AuthView, id: Seq<char>, now: int)
    requires
        notes_all(start, progress.run),
    ensures
        notes_all(start, store::imported(progress, auth, id, now).run),
{
    lemma_after(start, progress.run, EffectView::SaveSlot { session_id: id, auth });
}

proof fn lemma_with_profiles(
    start: Disk,
    progress: Progress,
    profiles: Seq<AuthView>,
    ids: Seq<Seq<char>>,
    now: int,
)
    requires
        notes_all(start, progress.run),
    ensures
        notes_all(start, store::with_profiles(progress, profiles, ids, now).run),
    decreases profiles.len(),
{
    if profiles.len() > 0 {
        lemma_with_profiles(start, progress, profiles.drop_last(), ids, now);
        lemma_imported(
            start,
            store::with_profiles(progress, profiles.drop_last(), ids, now),
            profiles.last(),
            ids[profiles.len() as int],
            now,
        );
    }
}

/// To open the list notes every change that it makes.
pub proof fn opening_notes_every_change(
    start: Disk,
    run: Run,
    settings: ActiveStore,
    profiles: Seq<AuthView>,
    ids: Seq<Seq<char>>,
    now: int,
)
    requires
        notes_all(start, run),
    ensures
        notes_all(start, store::loaded(run, settings, profiles, ids, now).1),
        notes_all(start, store::opened(run, settings, profiles, ids, now).1),
{
    let found = store::read_index(run.disk.index);
    if let Ok(found) = found {
        let index = match found {
            Some(index) => index,
            None => sessions::empty_index(false),
        };
        let first = Progress { index, run };
        if let Some(auth) = store::active_auth(run.disk, settings) {
            lemma_imported(start, first, auth, ids[0], now);
        }
        let current = store::with_current(
            first,
            store::active_auth(run.disk, settings),
            ids[0],
            now,
        );
        lemma_with_profiles(
            start,
            current,
            order::sort_newest(profiles, store::refreshed_at()),
            ids,
            now,
        );
        let progress = store::migrated(index, run, settings, profiles, ids, now);
        lemma_after(start, progress.run, EffectView::SaveIndex(progress.index));
    }
    let (listed, loaded) = store::loaded(run, settings, profiles, ids, now);
    if let Ok(index) = listed {
        if let Some((at, auth)) = store::refreshed_current(index, loaded.disk, settings) {
            lemma_after(
                start,
                loaded,
                EffectView::SaveSlot { session_id: index.sessions[at].session_id, auth },
            );
        }
    }
}

/// A logout and a switch note every change that they make.
pub proof fn switches_and_logouts_note_every_change(
    start: Disk,
    index: IndexView,
    run: Run,
    settings: ActiveStore,
    plans: PlanCatalog,
    policy: LoginPolicy,
    selector: Seq<char>,
    now: int,
)
    requires
        notes_all(start, run),
    ensures
        notes_all(start, operations::logout_run(index, run, settings, plans, selector).1),
        notes_all(
            start,
            operations::switch_run(index, run, settings, plans, policy, selector, now).1,
        ),
{
    if let Ok(at) = sessions::resolved(index.sessions, selector) {
        let removed = index.sessions[at].session_id;
        let revoked = run.after(EffectView::RevokeSlot { session_id: removed });
        let rest = index.sessions.remove(at);
        lemma_after(start, run, EffectView::RevokeSlot { session_id: removed });
        lemma_after(
            start,
            revoked,
            EffectView::SaveIndex(IndexView { sessions: rest, ..index }),
        );
        lemma_after(start, revoked, EffectView::Logout);
        lemma_after(
            start,
            revoked.after(EffectView::Logout),
            EffectView::SaveIndex(IndexView { sessions: rest, active_session_id: None, ..index }),
        );
        if let Some(next) = sessions::newest(rest) {
            if let Some(auth) = slots::lookup(revoked.disk.slots, rest[next].session_id) {
                lemma_activated(start, revoked, auth, settings);
                lemma_after(
                    start,
                    store::activated(revoked, auth, settings),
                    EffectView::SaveIndex(
                        IndexView {
                            sessions: rest,
                            active_session_id: Some(rest[next].session_id),
                            ..index
                        },
                    ),
                );
            }
        }
    }
    if let Ok((at, auth)) = operations::switch_target(index, run, policy, selector, false) {
        lemma_activated(start, run, auth, settings);
        lemma_after(
            start,
            store::activated(run, auth, settings),
            EffectView::SaveIndex(
                operations::with_active(index, at, index.sessions[at], now),
            ),
        );
    }
}

/// A switch to another workspace notes every change that it makes.
pub proof fn workspace_switches_note_every_change(
    start: Disk,
    index: IndexView,
    run: Run,
    settings: ActiveStore,
    plans: PlanCatalog,
    policy: LoginPolicy,
    at: int,
    account_id: Seq<char>,
    check: AccountsCheck,
    token: WorkspaceToken,
    time: i128,
    now: int,
)
    requires
        notes_all(start, run),
    ensures
        notes_all(
            start,
            operations::checked_workspace_run(
                index,
                run,
                settings,
                plans,
                policy,
                at,
                account_id,
                check,
                token,
                time,
                now,
            ).1,
        ),
{
    let id = index.sessions[at].session_id;
    if let Some(auth) = slots::lookup(run.disk.slots, id) {
        let next = operations::exchanged(auth, account_id, token, time);
        let saved = run.after(EffectView::SaveSlot { session_id: id, auth: next });
        lemma_after(start, run, EffectView::SaveSlot { session_id: id, auth: next });
        let save = EffectView::SaveActive { target: settings, auth: next };
        lemma_after(start, saved, save);
        lemma_after(
            start,
            saved.after(save),
            EffectView::SaveIndex(
                operations::with_active(
                    index,
                    at,
                    SessionView {
                        selected_workspace_account_id: Some(account_id),
                        workspaces: sessions::listed_workspaces(check.accounts@),
                        ..index.sessions[at]
                    },
                    now,
                ),
            ),
        );
    }
}

/// To add an account notes every change that it makes.
pub proof fn additions_note_every_change(
    start: Disk,
    index: IndexView,
    run: Run,
    settings: ActiveStore,
    plans: PlanCatalog,
    auth: AuthView,
    id: Seq<char>,
    metadata: Option<WorkspaceMetadata>,
    switches: bool,
    now: int,
)
    requires
        notes_all(start, run),
    ensures
        notes_all(
            start,
            operations::add_run(
                index,
                run,
                settings,
                plans,
                auth,
                id,
                metadata,
                switches,
                now,
            ).1,
        ),
        notes_all(
            start,
            operations::add_auth_run(index, run, settings, plans, auth, id, switches, now).1,
        ),
{
    let added = operations::added_id(index.sessions, auth, id);
    let saved = run.after(EffectView::SaveSlot { session_id: added, auth });
    lemma_after(start, run, EffectView::SaveSlot { session_id: added, auth });
    let listed = operations::with_added(index, auth, id, metadata, now);
    let plain = operations::with_added(index, auth, id, None, now);
    lemma_after(
        start,
        saved,
        EffectView::SaveIndex(IndexView { active_session_id: Some(added), ..listed }),
    );
    lemma_after(start, saved, EffectView::SaveIndex(plain));
    lemma_activated(start, saved, auth, settings);
    lemma_after(
        start,
        store::activated(saved, auth, settings),
        EffectView::SaveIndex(IndexView { active_session_id: Some(added), ..plain }),
    );
    if let Some(current) = index.active_session_id {
        if let Some(current_auth) = slots::lookup(saved.disk.slots, current) {
            lemma_activated(start, saved, current_auth, settings);
            lemma_after(
                start,
                store::activated(saved, current_auth, settings),
                EffectView::SaveIndex(listed),
            );
        }
    }
}

/// To save refreshed credentials notes every change that it makes.
pub proof fn refreshes_note_every_change(
    start: Disk,
    index: IndexView,
    run: Run,
    settings: ActiveStore,
    id: Seq<char>,
    before: AuthView,
    refreshed: AuthView,
)
    requires
        notes_all(start, run),
    ensures
        notes_all(
            start,
            operations::persist_run(index, run, settings, id, before, refreshed).1,
        ),
{
    lemma_after(start, run, EffectView::SaveIndex(index));
    let saved = run.after(EffectView::SaveSlot { session_id: id, auth: refreshed });
    lemma_after(start, run, EffectView::SaveSlot { session_id: id, auth: refreshed });
    lemma_activated(start, saved, refreshed, settings);
    let used = store::activated(saved, refreshed, settings);
    lemma_after(start, used, EffectView::Reload);
    if let Some(at) = sessions::place_of(index.sessions, id, 0) {
        let fresh = sessions::session_of(refreshed, id, 0);
        let updated = IndexView {
            sessions: index.sessions.update(
                at,
                SessionView {
                    email: fresh.email,
                    user_id: fresh.user_id,
                    selected_workspace_account_id: fresh.selected_workspace_account_id,
                    ..index.sessions[at]
                },
            ),
            ..index
        };
        lemma_after(start, saved, EffectView::SaveIndex(updated));
        lemma_after(start, used.after(EffectView::Reload), EffectView::SaveIndex(updated));
    }
}

/// A switch that succeeds puts the selected account's credentials to use and makes it the current
/// one; no account's own credentials change.
pub proof fn switching_puts_the_account_in_use(
    index: IndexView,
    run: Run,
    settings: ActiveStore,
    plans: PlanCatalog,
    policy: LoginPolicy,
    selector: Seq<char>,
    now: int,
)
    requires
        operations::switch_run(index, run, settings, plans, policy, selector, now).0 is Ok,
    ensures
        ({
            let end = operations::switch_run(index, run, settings, plans, policy, selector, now).1;
            let id = index.sessions[sessions::resolved(index.sessions, selector)->Ok_0].session_id;
            &&& store::active_auth(end.disk, settings) == slots::lookup(run.disk.slots, id)
            &&& store::active_auth(end.disk, settings) is Some
            &&& end.disk.slots == run.disk.slots
            &&& end.disk.index matches IndexFileView::Stored(listed) && listed.active_session_id
                == Some(id)
        }),
{
}

/// A switch to another workspace saves the tokens for it with the account and puts them to use, unless
/// other credentials are in memory: those stay in use. The account stays the same person's, and no
/// other account's credentials change.
pub proof fn workspace_switches_save_their_tokens(
    index: IndexView,
    run: Run,
    settings: ActiveStore,
    plans: PlanCatalog,
    policy: LoginPolicy,
    at: int,
    account_id: Seq<char>,
    check: AccountsCheck,
    token: WorkspaceToken,
    time: i128,
    now: int,
)
    requires
        operations::checked_workspace_run(
            index,
            run,
            settings,
            plans,
            policy,
            at,
            account_id,
            check,
            token,
            time,
            now,
        ).0 is Ok,
    ensures
        ({
            let end = operations::checked_workspace_run(
                index,
                run,
                settings,
                plans,
                policy,
                at,
                account_id,
                check,
                token,
                time,
                now,
            ).1;
            let id = index.sessions[at].session_id;
            let before = slots::lookup(run.disk.slots, id)->0;
            &&& store::active_auth(end.disk, settings) == match settings {
                ActiveStore::Configured if run.disk.ephemeral is Some => run.disk.ephemeral,
                _ => slots::lookup(end.disk.slots, id),
            }
            &&& slots::lookup(end.disk.slots, id) matches Some(auth) && auth.tokens matches Some(
                tokens,
            ) && tokens.access_token == token.access_token@ && tokens.account_id == Some(account_id)
                && tokens.id_token == before.tokens->0.id_token
            &&& forall|other: Seq<char>|
                other != id ==> #[trigger] slots::lookup(end.disk.slots, other) == slots::lookup(
                    run.disk.slots,
                    other,
                )
        }),
{
}

/// A workspace that the backend does not list for the account, or that the policy forbids, is never
/// switched to: such a switch is refused and changes nothing. Nor is an account whose login may not be
/// used, or whose tokens are none to exchange.
pub proof fn only_usable_workspaces_are_switched_to(
    index: IndexView,
    run: Run,
    later: Run,
    settings: ActiveStore,
    plans: PlanCatalog,
    policy: LoginPolicy,
    selector: Seq<char>,
    account_id: Seq<char>,
    check: AccountsCheck,
    token: WorkspaceToken,
    time: i128,
    now: int,
)
    requires
        operations::switch_target(index, run, policy, selector, true) is Ok,
    ensures
        ({
            let (at, auth) = operations::switch_target(index, run, policy, selector, true)->Ok_0;
            let (result, end) = operations::checked_workspace_run(
                index,
                later,
                settings,
                plans,
                policy,
                at,
                account_id,
                check,
                token,
                time,
                now,
            );
            &&& 0 <= at < index.sessions.len()
            &&& sessions::is_managed_chatgpt(auth)
            &&& operations::is_allowed(policy, auth_profiles::mode_of(auth))
            &&& result is Ok ==> operations::lists_workspace(check.accounts@, account_id)
                && !operations::is_bound_elsewhere(policy, account_id)
            &&& result is Err ==> end == later
        }),
{
    sessions::selectors_name_one_account(index.sessions, selector);
}

/// A switch that is refused changes nothing: the credentials in use stay in use.
pub proof fn refused_switches_change_nothing(
    index: IndexView,
    run: Run,
    settings: ActiveStore,
    plans: PlanCatalog,
    policy: LoginPolicy,
    selector: Seq<char>,
    now: int,
)
    requires
        operations::switch_run(index, run, settings, plans, policy, selector, now).0 is Err,
    ensures
        operations::switch_run(index, run, settings, plans, policy, selector, now).1 == run,
{
}

/// To switch to one account and then to another leaves the other one's credentials in use, as they
/// were saved before: a switch can be undone.
pub proof fn switches_can_be_undone(
    index: IndexView,
    run: Run,
    settings: ActiveStore,
    plans: PlanCatalog,
    policy: LoginPolicy,
    first: Seq<char>,
    second: Seq<char>,
    now: int,
    later: int,
)
    requires
        operations::switch_run(index, run, settings, plans, policy, first, now).0 is Ok,
        operations::switch_run(index, run, settings, plans, policy, second, now).0 is Ok,
    ensures
        ({
            let middle = operations::switch_run(
                index,
                run,
                settings,
                plans,
                policy,
                first,
                now,
            ).1;
            let listed = middle.disk.index->Stored_0;
            let (result, end) = operations::switch_run(
                listed,
                middle,
                settings,
                plans,
                policy,
                second,
                later,
            );
            let id = index.sessions[sessions::resolved(index.sessions, second)->Ok_0].session_id;
            &&& result is Ok
            &&& store::active_auth(end.disk, settings) == slots::lookup(run.disk.slots, id)
            &&& end.disk.slots == run.disk.slots
        }),
{
    let at = sessions::resolved(index.sessions, first)->Ok_0;
    sessions::selectors_name_one_account(index.sessions, first);
    sessions::selectors_name_one_account(index.sessions, second);
    let listed = operations::with_active(index, at, index.sessions[at], now);
    lemma_same_names(index.sessions, listed.sessions, second);
}

/// Lists with the same IDs and addresses resolve selectors alike.
proof fn lemma_same_names(a: Seq<SessionView>, b: Seq<SessionView>, selector: Seq<char>)
    requires
        a.len() == b.len(),
        forall|i: int|
            0 <= i < a.len() ==> (#[trigger] a[i]).session_id == (#[trigger] b[i]).session_id
                && a[i].email == b[i].email,
    ensures
        sessions::resolved(a, selector) == sessions::resolved(b, selector),
{
    lemma_same_place(a, b, selector, 0);
    lemma_same_addresses(a, b, selector);
}

proof fn lemma_same_place(a: Seq<SessionView>, b: Seq<SessionView>, id: Seq<char>, from: int)
    requires
        a.len() == b.len(),
        forall|i: int|
            0 <= i < a.len() ==> (#[trigger] a[i]).session_id == (#[trigger] b[i]).session_id,
    ensures
        sessions::place_of(a, id, from) == sessions::place_of(b, id, from),
    decreases a.len() - from,
{
    if 0 <= from < a.len() {
        assert(a[from].session_id == b[from].session_id);
        lemma_same_place(a, b, id, from + 1);
    }
}

proof fn lemma_same_addresses(a: Seq<SessionView>, b: Seq<SessionView>, address: Seq<char>)
    requires
        a.len() == b.len(),
        forall|i: int| 0 <= i < a.len() ==> (#[trigger] a[i]).email == (#[trigger] b[i]).email,
    ensures
        sessions::places_with_address(a, address) == sessions::places_with_address(b, address),
    decreases a.len(),
{
    if a.len() > 0 {
        assert(a[a.len() - 1].email == b[b.len() - 1].email);
        assert forall|i: int| 0 <= i < a.drop_last().len() implies (
        #[trigger] a.drop_last()[i]).email == (#[trigger] b.drop_last()[i]).email by {
            assert(a[i].email == b[i].email);
        }
        lemma_same_addresses(a.drop_last(), b.drop_last(), address);
    }
}

/// To add an account without switching to it keeps the current account current and puts its saved
/// credentials back to use. The added account is another one.
pub proof fn adding_without_switching_keeps_the_current_account(
    index: IndexView,
    run: Run,
    settings: ActiveStore,
    plans: PlanCatalog,
    auth: AuthView,
    id: Seq<char>,
    metadata: Option<WorkspaceMetadata>,
    now: int,
)
    requires
        index.active_session_id is Some,
        slots::lookup(run.disk.slots, index.active_session_id->0) is Some,
        operations::added_id(index.sessions, auth, id) != index.active_session_id->0,
    ensures
        ({
            let (result, end) = operations::add_run(
                index,
                run,
                settings,
                plans,
                auth,
                id,
                metadata,
                false,
                now,
            );
            &&& result is Ok
            &&& result->Ok_0.active_session_id == index.active_session_id
            &&& store::active_auth(end.disk, settings) == slots::lookup(
                run.disk.slots,
                index.active_session_id->0,
            )
            &&& slots::lookup(end.disk.slots, operations::added_id(index.sessions, auth, id))
                == Some(auth)
        }),
{
}

/// To save a login without activating it leaves the credentials in use as they are.
pub proof fn saving_a_login_keeps_the_credentials_in_use(
    index: IndexView,
    run: Run,
    settings: ActiveStore,
    plans: PlanCatalog,
    auth: AuthView,
    id: Seq<char>,
    now: int,
)
    requires
        index.active_session_id is Some,
    ensures
        ({
            let (response, end) = operations::add_auth_run(
                index,
                run,
                settings,
                plans,
                auth,
                id,
                false,
                now,
            );
            &&& response.active_session_id == index.active_session_id
            &&& end.disk.ephemeral == run.disk.ephemeral
            &&& end.disk.configured == run.disk.configured
            &&& slots::lookup(end.disk.slots, operations::added_id(index.sessions, auth, id))
                == Some(auth)
        }),
{
}

/// A logout removes the selected account's credentials and no others. While another account is
/// current, the credentials in use stay in use.
pub proof fn logouts_remove_one_account(
    index: IndexView,
    run: Run,
    settings: ActiveStore,
    plans: PlanCatalog,
    selector: Seq<char>,
)
    requires
        operations::logout_run(index, run, settings, plans, selector).0 is Ok,
    ensures
        ({
            let end = operations::logout_run(index, run, settings, plans, selector).1;
            let at = sessions::resolved(index.sessions, selector)->Ok_0;
            let id = index.sessions[at].session_id;
            &&& end.disk.slots == run.disk.slots.remove(id)
            &&& end.disk.index matches IndexFileView::Stored(listed) && listed.sessions
                == index.sessions.remove(at)
            &&& index.active_session_id != Some(id) ==> store::active_auth(end.disk, settings)
                == store::active_auth(run.disk, settings)
        }),
{
}

/// A logout of the current account puts the account used last in its place; without one, no
/// credentials are in use.
pub proof fn logging_out_the_current_account_moves_on(
    index: IndexView,
    run: Run,
    settings: ActiveStore,
    plans: PlanCatalog,
    selector: Seq<char>,
)
    requires
        operations::logout_run(index, run, settings, plans, selector).0 is Ok,
        index.active_session_id == Some(
            index.sessions[sessions::resolved(index.sessions, selector)->Ok_0].session_id,
        ),
    ensures
        ({
            let end = operations::logout_run(index, run, settings, plans, selector).1;
            let at = sessions::resolved(index.sessions, selector)->Ok_0;
            let rest = index.sessions.remove(at);
            let listed = end.disk.index->Stored_0;
            &&& listed.sessions == rest
            &&& match sessions::newest(rest) {
                Some(next) => listed.active_session_id == Some(rest[next].session_id)
                    && store::active_auth(end.disk, settings) == slots::lookup(
                    end.disk.slots,
                    rest[next].session_id,
                ),
                None => listed.active_session_id is None && store::active_auth(
                    end.disk,
                    settings,
                ) is None,
            }
            &&& rest.len() == 0 ==> listed.active_session_id is None && end.disk.ephemeral is None
                && end.disk.configured is None
            &&& rest.len() > 0 ==> exists|next: int|
                0 <= next < rest.len() && listed.active_session_id == Some(
                    (#[trigger] rest[next]).session_id,
                ) && store::active_auth(end.disk, settings) == slots::lookup(
                    run.disk.slots,
                    rest[next].session_id,
                ) && (forall|i: int|
                    0 <= i < rest.len() ==> (#[trigger] rest[i]).last_used_at
                        <= rest[next].last_used_at) && (rest[next].session_id
                    != index.active_session_id->0 ==> store::active_auth(end.disk, settings) is Some)
        }),
{
    let at = sessions::resolved(index.sessions, selector)->Ok_0;
    let rest = index.sessions.remove(at);
    sessions::no_account_was_used_later(rest);
    if let Some(next) = sessions::newest(rest) {
        assert(rest[next].session_id == rest[next].session_id);
    }
}

/// Refreshed credentials are saved only for an account that is still there with the credentials that
/// were refreshed; else neither the credentials of any account nor those in use change. No other
/// account's credentials change in any case, and those in use only where they were the ones that were
/// refreshed.
pub proof fn stale_refreshes_change_nothing(
    index: IndexView,
    run: Run,
    settings: ActiveStore,
    id: Seq<char>,
    before: AuthView,
    refreshed: AuthView,
)
    ensures
        ({
            let (saved, end) = operations::persist_run(
                index,
                run,
                settings,
                id,
                before,
                refreshed,
            );
            &&& saved <==> sessions::place_of(index.sessions, id, 0) is Some && slots::lookup(
                run.disk.slots,
                id,
            ) == Some(before)
            &&& end.disk.slots == (if saved {
                run.disk.slots.insert(id, refreshed)
            } else {
                run.disk.slots
            })
            &&& store::active_auth(end.disk, settings) == (if saved && index.active_session_id
                == Some(id) && store::active_auth(run.disk, settings) == Some(before) {
                Some(refreshed)
            } else {
                store::active_auth(run.disk, settings)
            })
        }),
{
}

/// Of two refreshes from the same credentials only the first is saved.
pub proof fn the_first_of_two_refreshes_wins(
    index: IndexView,
    run: Run,
    settings: ActiveStore,
    id: Seq<char>,
    before: AuthView,
    first: AuthView,
    second: AuthView,
)
    requires
        operations::persist_run(index, run, settings, id, before, first).0,
        first != before,
    ensures
        ({
            let end = operations::persist_run(index, run, settings, id, before, first).1;
            let (saved, last) = operations::persist_run(
                end.disk.index->Stored_0,
                end,
                settings,
                id,
                before,
                second,
            );
            &&& !saved
            &&& slots::lookup(last.disk.slots, id) == Some(first)
        }),
{
}

/// Once refreshed credentials are saved, a snapshot of the account gives them.
pub proof fn snapshots_see_saved_refreshes(
    index: IndexView,
    run: Run,
    settings: ActiveStore,
    id: Seq<char>,
    before: AuthView,
    refreshed: AuthView,
)
    requires
        operations::persist_run(index, run, settings, id, before, refreshed).0,
    ensures
        ({
            let end = operations::persist_run(index, run, settings, id, before, refreshed).1;
            operations::snapshot_run(end.disk.index->Stored_0, end, id).0 == Ok::<
                (Seq<char>, AuthView),
                ErrorView,
            >((id, refreshed))
        }),
{
    let end = operations::persist_run(index, run, settings, id, before, refreshed).1;
    let listed = end.disk.index->Stored_0;
    sessions::lemma_place_of(index.sessions, id, 0);
    lemma_same_place(index.sessions, listed.sessions, id, 0);
}

/// Where the accounts of earlier versions were taken over, to load the list changes nothing.
pub proof fn accounts_are_taken_over_once(
    index: IndexView,
    run: Run,
    settings: ActiveStore,
    profiles: Seq<AuthView>,
    ids: Seq<Seq<char>>,
    now: int,
)
    requires
        store::read_index(run.disk.index) == Ok::<Option<IndexView>, ErrorView>(Some(index)),
        index.legacy_profiles_migrated,
    ensures
        store::loaded(run, settings, profiles, ids, now) == (
            Ok::<IndexView, ErrorView>(index),
            run,
        ),
{
}

/// Once every account was logged out, the list is empty and stays so, whatever profiles of earlier
/// versions there are.
pub proof fn logged_out_accounts_do_not_come_back(
    run: Run,
    settings: ActiveStore,
    profiles: Seq<AuthView>,
    ids: Seq<Seq<char>>,
    now: int,
    later_profiles: Seq<AuthView>,
    later_ids: Seq<Seq<char>>,
    later: int,
)
    ensures
        ({
            let end = operations::revoke_all_run(run, settings, profiles, ids, now).1;
            store::opened(end, settings, later_profiles, later_ids, later) == (
                Ok::<IndexView, ErrorView>(sessions::empty_index(true)),
                end,
            )
        }),
{
}

/// Whether IDs are fresh: no two are equal, and none is in use.
pub open spec fn are_fresh(ids: Seq<Seq<char>>, index: IndexView, slots: Map<Seq<char>, AuthView>) -> bool {
    &&& forall|i: int, j: int| 0 <= i < j < ids.len() ==> (#[trigger] ids[i]) != (#[trigger] ids[j])
    &&& forall|i: int| 0 <= i < ids.len() ==> !slots.contains_key(#[trigger] ids[i])
    &&& forall|i: int, j: int|
        0 <= i < ids.len() && 0 <= j < index.sessions.len() ==> (#[trigger] ids[i]) != (
        #[trigger] index.sessions[j]).session_id
}

/// Whether `next` only adds to `first`: every saved account stays where it is with its credentials,
/// and the credentials in use stay.
pub open spec fn only_adds(first: Progress, next: Progress) -> bool {
    &&& first.index.sessions.len() <= next.index.sessions.len()
    &&& next.index.sessions.take(first.index.sessions.len() as int) == first.index.sessions
    &&& forall|id: Seq<char>| #[trigger]
        first.run.disk.slots.contains_key(id) ==> next.run.disk.slots.contains_key(id)
            && next.run.disk.slots[id] == first.run.disk.slots[id]
    &&& next.run.disk.ephemeral == first.run.disk.ephemeral
    &&& next.run.disk.configured == first.run.disk.configured
}

/// Whether each account that was added belongs to no account before it.
pub open spec fn adds_no_duplicates(first: Progress, next: Progress) -> bool {
    forall|i: int, j: int|
        0 <= i < j && first.index.sessions.len() <= j < next.index.sessions.len()
            ==> next.run.disk.slots.contains_key((#[trigger] next.index.sessions[j]).session_id)
            && !sessions::belongs_to(
            #[trigger] next.index.sessions[i],
            slots::lookup(next.run.disk.slots, next.index.sessions[i].session_id),
            next.run.disk.slots[next.index.sessions[j].session_id],
        )
}

/// Whether only the first `used` IDs were given to what was added.
spec fn uses_ids(first: Progress, next: Progress, ids: Seq<Seq<char>>, used: int) -> bool {
    &&& forall|id: Seq<char>| #[trigger]
        next.run.disk.slots.contains_key(id) ==> first.run.disk.slots.contains_key(id) || exists|
            i: int,
        |
            0 <= i < used && ids[i] == id
    &&& forall|j: int|
        first.index.sessions.len() <= j < next.index.sessions.len() ==> exists|i: int|
            0 <= i < used && ids[i] == (#[trigger] next.index.sessions[j]).session_id
}

proof fn lemma_matching(
    sessions: Seq<SessionView>,
    slots: Map<Seq<char>, AuthView>,
    auth: AuthView,
    from: int,
)
    requires
        0 <= from,
    ensures
        sessions::matching_session(sessions, slots, auth, from) matches Some(at) ==> from <= at
            < sessions.len() && sessions::belongs_to(
            sessions[at],
            slots::lookup(slots, sessions[at].session_id),
            auth,
        ),
        sessions::matching_session(sessions, slots, auth, from) is None ==> forall|i: int|
            from <= i < sessions.len() ==> !sessions::belongs_to(
                #[trigger] sessions[i],
                slots::lookup(slots, sessions[i].session_id),
                auth,
            ),
    decreases sessions.len() - from,
{
    if from < sessions.len() && !sessions::belongs_to(
        sessions[from],
        slots::lookup(slots, sessions[from].session_id),
        auth,
    ) {
        lemma_matching(sessions, slots, auth, from + 1);
    }
}

/// An account that credentials belong to is still there when accounts were only added.
proof fn lemma_match_stays(first: Progress, next: Progress, auth: AuthView)
    requires
        only_adds(first, next),
        sessions::matching_session(
            first.index.sessions,
            first.run.disk.slots,
            auth,
            0,
        ) is Some,
    ensures
        sessions::matching_session(next.index.sessions, next.run.disk.slots, auth, 0) is Some,
{
    lemma_matching(first.index.sessions, first.run.disk.slots, auth, 0);
    lemma_matching(next.index.sessions, next.run.disk.slots, auth, 0);
    let at = sessions::matching_session(
        first.index.sessions,
        first.run.disk.slots,
        auth,
        0,
    )->0;
    assert(next.index.sessions.take(first.index.sessions.len() as int)[at]
        == first.index.sessions[at]);
    assert(first.run.disk.slots.contains_key(first.index.sessions[at].session_id));
    assert(sessions::belongs_to(
        next.index.sessions[at],
        slots::lookup(next.run.disk.slots, next.index.sessions[at].session_id),
        auth,
    ));
}

/// One step of taking over keeps what holds of the steps before it.
proof fn lemma_import_step(
    first: Progress,
    middle: Progress,
    auth: AuthView,
    ids: Seq<Seq<char>>,
    used: int,
    now: int,
)
    requires
        are_fresh(ids, first.index, first.run.disk.slots),
        0 <= used < ids.len(),
        only_adds(first, middle),
        adds_no_duplicates(first, middle),
        uses_ids(first, middle, ids, used),
    ensures
        ({
            let next = store::imported(middle, auth, ids[used], now);
            &&& only_adds(first, next)
            &&& only_adds(middle, next)
            &&& adds_no_duplicates(first, next)
            &&& uses_ids(first, next, ids, used + 1)
            &&& sessions::matching_session(
                next.index.sessions,
                next.run.disk.slots,
                auth,
                0,
            ) is Some
        }),
{
    let id = ids[used];
    let next = store::imported(middle, auth, id, now);
    lemma_matching(middle.index.sessions, middle.run.disk.slots, auth, 0);
    assert forall|key: Seq<char>| #[trigger]
        next.run.disk.slots.contains_key(key) implies first.run.disk.slots.contains_key(key)
        || exists|i: int| 0 <= i < used + 1 && ids[i] == key by {
        if key == id {
            assert(ids[used] == key);
        } else {
            assert(middle.run.disk.slots.contains_key(key));
            if !first.run.disk.slots.contains_key(key) {
                let i = choose|i: int| 0 <= i < used && ids[i] == key;
                assert(ids[i] == key);
            }
        }
    }
    assert forall|j: int|
        first.index.sessions.len() <= j < next.index.sessions.len() implies exists|i: int|
        0 <= i < used + 1 && ids[i] == (#[trigger] next.index.sessions[j]).session_id by {
        if j < middle.index.sessions.len() {
            assert(next.index.sessions[j] == middle.index.sessions[j]);
            let i = choose|i: int| 0 <= i < used && ids[i] == middle.index.sessions[j].session_id;
            assert(ids[i] == next.index.sessions[j].session_id);
        } else {
            assert(ids[used] == next.index.sessions[j].session_id);
        }
    }
    assert(next.index.sessions.take(middle.index.sessions.len() as int) == middle.index.sessions);
    assert(next.index.sessions.take(first.index.sessions.len() as int) == first.index.sessions) by {
        assert(next.index.sessions.take(first.index.sessions.len() as int)
            =~= middle.index.sessions.take(first.index.sessions.len() as int));
    }
    if sessions::matching_session(
        middle.index.sessions,
        middle.run.disk.slots,
        auth,
        0,
    ) is None {
        let place = middle.index.sessions.len() as int;
        assert(!middle.run.disk.slots.contains_key(id)) by {
            if middle.run.disk.slots.contains_key(id) {
                let i = choose|i: int| 0 <= i < used && ids[i] == id;
                assert(ids[i] != ids[used]);
            }
        }
        assert forall|j: int| 0 <= j < place implies (
        #[trigger] middle.index.sessions[j]).session_id != id by {
            if j < first.index.sessions.len() {
                assert(middle.index.sessions.take(first.index.sessions.len() as int)[j]
                    == first.index.sessions[j]);
            } else {
                let i = choose|i: int|
                    0 <= i < used && ids[i] == middle.index.sessions[j].session_id;
                assert(ids[i] != ids[used]);
            }
        }
        assert(next.index.sessions[place] == sessions::session_of(auth, id, now));
        assert(sessions::belongs_to(
            next.index.sessions[place],
            slots::lookup(next.run.disk.slots, id),
            auth,
        ));
        lemma_matching(next.index.sessions, next.run.disk.slots, auth, 0);
        assert forall|i: int, j: int|
            0 <= i < j && first.index.sessions.len() <= j
                < next.index.sessions.len() implies next.run.disk.slots.contains_key(
            (#[trigger] next.index.sessions[j]).session_id,
        ) && !sessions::belongs_to(
            #[trigger] next.index.sessions[i],
            slots::lookup(next.run.disk.slots, next.index.sessions[i].session_id),
            next.run.disk.slots[next.index.sessions[j].session_id],
        ) by {
            assert(next.index.sessions[i] == middle.index.sessions[i]);
            assert(middle.index.sessions[i].session_id != id);
            assert(slots::lookup(next.run.disk.slots, next.index.sessions[i].session_id)
                == slots::lookup(middle.run.disk.slots, middle.index.sessions[i].session_id));
            if j < place {
                assert(next.index.sessions[j] == middle.index.sessions[j]);
                assert(middle.run.disk.slots.contains_key(middle.index.sessions[j].session_id));
            }
        }
    }
}

proof fn lemma_profiles_step(
    first: Progress,
    current: Progress,
    profiles: Seq<AuthView>,
    ids: Seq<Seq<char>>,
    now: int,
)
    requires
        are_fresh(ids, first.index, first.run.disk.slots),
        profiles.len() < ids.len(),
        only_adds(first, current),
        adds_no_duplicates(first, current),
        uses_ids(first, current, ids, 1),
    ensures
        ({
            let next = store::with_profiles(current, profiles, ids, now);
            &&& only_adds(first, next)
            &&& only_adds(current, next)
            &&& adds_no_duplicates(first, next)
            &&& uses_ids(first, next, ids, profiles.len() as int + 1)
            &&& forall|i: int|
                0 <= i < profiles.len() ==> sessions::matching_session(
                    next.index.sessions,
                    next.run.disk.slots,
                    #[trigger] profiles[i],
                    0,
                ) is Some
        }),
    decreases profiles.len(),
{
    if profiles.len() == 0 {
        assert(current.index.sessions.take(current.index.sessions.len() as int)
            == current.index.sessions);
    } else {
        let rest = profiles.drop_last();
        lemma_profiles_step(first, current, rest, ids, now);
        let middle = store::with_profiles(current, rest, ids, now);
        lemma_import_step(first, middle, profiles.last(), ids, profiles.len() as int, now);
        let next = store::with_profiles(current, profiles, ids, now);
        assert forall|i: int| 0 <= i < profiles.len() implies sessions::matching_session(
            next.index.sessions,
            next.run.disk.slots,
            #[trigger] profiles[i],
            0,
        ) is Some by {
            if i < rest.len() {
                assert(rest[i] == profiles[i]);
                lemma_match_stays(middle, next, rest[i]);
            }
        }
        assert(next.index.sessions.take(current.index.sessions.len() as int)
            =~= middle.index.sessions.take(current.index.sessions.len() as int));
    }
}

/// To take over the accounts of earlier versions keeps every saved account with its credentials and
/// the credentials in use. Every profile then belongs to a saved account, and no account that was
/// added belongs to one before it.
pub proof fn taking_over_loses_and_repeats_no_account(
    index: IndexView,
    run: Run,
    settings: ActiveStore,
    profiles: Seq<AuthView>,
    ids: Seq<Seq<char>>,
    now: int,
)
    requires
        profiles.len() < ids.len(),
        are_fresh(ids, index, run.disk.slots),
    ensures
        ({
            let first = Progress { index, run };
            let next = store::migrated(index, run, settings, profiles, ids, now);
            &&& next.index.legacy_profiles_migrated
            &&& only_adds(first, next)
            &&& adds_no_duplicates(first, next)
            &&& forall|i: int|
                0 <= i < profiles.len() ==> sessions::matching_session(
                    next.index.sessions,
                    next.run.disk.slots,
                    #[trigger] profiles[i],
                    0,
                ) is Some
            &&& store::active_auth(run.disk, settings) matches Some(auth) ==> (
            next.index.active_session_id is Some && sessions::matching_session(
                next.index.sessions,
                next.run.disk.slots,
                auth,
                0,
            ) is Some)
        }),
{
    let first = Progress { index, run };
    let sorted = order::sort_newest(profiles, store::refreshed_at());
    order::sorting_keeps_items_and_puts_newest_first(profiles, store::refreshed_at());
    let current = store::with_current(
        first,
        store::active_auth(run.disk, settings),
        ids[0],
        now,
    );
    assert(index.sessions.take(index.sessions.len() as int) == index.sessions);
    if let Some(auth) = store::active_auth(run.disk, settings) {
        lemma_import_step(first, first, auth, ids, 0, now);
    }
    lemma_profiles_step(first, current, sorted, ids, now);
    let next = store::migrated(index, run, settings, profiles, ids, now);
    let all = store::with_profiles(current, sorted, ids, now);
    assert forall|i: int| 0 <= i < profiles.len() implies sessions::matching_session(
        next.index.sessions,
        next.run.disk.slots,
        #[trigger] profiles[i],
        0,
    ) is Some by {
        broadcast use vstd::seq_lib::group_to_multiset_ensures;

        assert(profiles.to_multiset().count(profiles[i]) > 0);
        assert(sorted.contains(profiles[i]));
        let k = choose|k: int| 0 <= k < sorted.len() && sorted[k] == profiles[i];
        assert(sorted[k] == profiles[i]);
    }
    if let Some(auth) = store::active_auth(run.disk, settings) {
        lemma_match_stays(current, all, auth);
        lemma_active_kept(current, sorted, ids, now);
    }
}

proof fn lemma_active_kept(
    current: Progress,
    profiles: Seq<AuthView>,
    ids: Seq<Seq<char>>,
    now: int,
)
    ensures
        store::with_profiles(current, profiles, ids, now).index.active_session_id
            == current.index.active_session_id,
    decreases profiles.len(),
{
    if profiles.len() > 0 {
        lemma_active_kept(current, profiles.drop_last(), ids, now);
    }
}

/// Whether credentials belong to one of the first `at` accounts.
pub open spec fn belongs_before(progress: Progress, auth: AuthView, at: int) -> bool {
    exists|k: int|
        0 <= k < at && sessions::belongs_to(
            #[trigger] progress.index.sessions[k],
            slots::lookup(progress.run.disk.slots, progress.index.sessions[k].session_id),
            auth,
        )
}

/// Whether the account at `j` is one of the profiles: it is listed with what is known from that
/// profile, and its credentials are that profile's.
pub open spec fn is_profile(progress: Progress, profiles: Seq<AuthView>, j: int, now: int) -> bool {
    let session = progress.index.sessions[j];
    &&& progress.run.disk.slots.contains_key(session.session_id)
    &&& profiles.contains(progress.run.disk.slots[session.session_id])
    &&& session == sessions::session_of(
        progress.run.disk.slots[session.session_id],
        session.session_id,
        now,
    )
}

/// Whether each account behind the first `start` is one of the profiles, and each profile that is
/// fresher than it belongs to an account before it.
spec fn holds_freshest(progress: Progress, profiles: Seq<AuthView>, start: int, now: int) -> bool {
    &&& forall|j: int|
        start <= j < progress.index.sessions.len() ==> #[trigger] is_profile(
            progress,
            profiles,
            j,
            now,
        )
    &&& forall|i: int, j: int|
        0 <= i < profiles.len() && start <= j < progress.index.sessions.len()
            && store::refreshed_at()(#[trigger] profiles[i]) > store::refreshed_at()(
            progress.run.disk.slots[(#[trigger] progress.index.sessions[j]).session_id],
        ) ==> belongs_before(progress, profiles[i], j)
}

/// What belongs to one of the first accounts still does when accounts were only added.
proof fn lemma_belongs_stays(first: Progress, next: Progress, auth: AuthView, at: int)
    requires
        only_adds(first, next),
        at <= first.index.sessions.len(),
        belongs_before(first, auth, at),
    ensures
        belongs_before(next, auth, at),
{
    let k = choose|k: int|
        0 <= k < at && sessions::belongs_to(
            #[trigger] first.index.sessions[k],
            slots::lookup(first.run.disk.slots, first.index.sessions[k].session_id),
            auth,
        );
    assert(next.index.sessions.take(first.index.sessions.len() as int)[k]
        == first.index.sessions[k]);
    assert(first.run.disk.slots.contains_key(first.index.sessions[k].session_id));
    assert(sessions::belongs_to(
        next.index.sessions[k],
        slots::lookup(next.run.disk.slots, next.index.sessions[k].session_id),
        auth,
    ));
}

proof fn lemma_freshest_step(
    first: Progress,
    current: Progress,
    profiles: Seq<AuthView>,
    ids: Seq<Seq<char>>,
    now: int,
)
    requires
        are_fresh(ids, first.index, first.run.disk.slots),
        profiles.len() < ids.len(),
        order::is_newest_first(profiles, store::refreshed_at()),
        only_adds(first, current),
        adds_no_duplicates(first, current),
        uses_ids(first, current, ids, 1),
    ensures
        holds_freshest(
            store::with_profiles(current, profiles, ids, now),
            profiles,
            current.index.sessions.len() as int,
            now,
        ),
    decreases profiles.len(),
{
    if profiles.len() > 0 {
        let rest = profiles.drop_last();
        let auth = profiles.last();
        let start = current.index.sessions.len() as int;
        assert forall|i: int, j: int| 0 <= i < j < rest.len() implies store::refreshed_at()(
            #[trigger] rest[i],
        ) >= store::refreshed_at()(#[trigger] rest[j]) by {
            assert(rest[i] == profiles[i] && rest[j] == profiles[j]);
        }
        lemma_freshest_step(first, current, rest, ids, now);
        lemma_profiles_step(first, current, rest, ids, now);
        let middle = store::with_profiles(current, rest, ids, now);
        let place = middle.index.sessions.len() as int;
        lemma_import_step(first, middle, auth, ids, profiles.len() as int, now);
        let next = store::with_profiles(current, profiles, ids, now);
        assert forall|j: int| start <= j < next.index.sessions.len() implies (#[trigger] is_profile(
            next,
            profiles,
            j,
            now,
        )) && (j < place ==> next.index.sessions[j] == middle.index.sessions[j]
            && next.run.disk.slots[next.index.sessions[j].session_id]
            == middle.run.disk.slots[middle.index.sessions[j].session_id]) && (j >= place
            ==> next.run.disk.slots[next.index.sessions[j].session_id] == auth) by {
            if j < place {
                assert(is_profile(middle, rest, j, now));
                assert(next.index.sessions.take(place)[j] == middle.index.sessions[j]);
                assert(next.index.sessions[j] == middle.index.sessions[j]);
                let saved = middle.run.disk.slots[middle.index.sessions[j].session_id];
                let m = choose|m: int| 0 <= m < rest.len() && rest[m] == saved;
                assert(profiles[m] == saved);
            } else {
                assert(profiles[profiles.len() - 1] == auth);
            }
        }
        assert forall|i: int, j: int|
            0 <= i < profiles.len() && start <= j < next.index.sessions.len()
                && store::refreshed_at()(#[trigger] profiles[i]) > store::refreshed_at()(
                next.run.disk.slots[(#[trigger] next.index.sessions[j]).session_id],
            ) implies belongs_before(next, profiles[i], j) by {
            assert(is_profile(next, profiles, j, now));
            if j < place {
                assert(is_profile(middle, rest, j, now));
                let saved = middle.run.disk.slots[middle.index.sessions[j].session_id];
                assert(rest.contains(saved));
                let m = choose|m: int| 0 <= m < rest.len() && rest[m] == saved;
                assert(profiles[m] == saved);
                assert(i < rest.len());
                assert(rest[i] == profiles[i]);
                lemma_belongs_stays(middle, next, rest[i], j);
            } else {
                assert(i < rest.len());
                assert(rest[i] == profiles[i]);
                lemma_matching(middle.index.sessions, middle.run.disk.slots, rest[i], 0);
                assert(belongs_before(middle, rest[i], place));
                lemma_belongs_stays(middle, next, rest[i], place);
            }
        }
    }
}

/// Of the copies of an account in the profiles of earlier versions the freshest is kept. An account
/// that is taken over from a profile is listed as that profile and with its credentials, and each
/// profile that was refreshed after it belongs to an account before it.
pub proof fn the_freshest_copies_are_taken_over(
    index: IndexView,
    run: Run,
    settings: ActiveStore,
    profiles: Seq<AuthView>,
    ids: Seq<Seq<char>>,
    now: int,
)
    requires
        profiles.len() < ids.len(),
        are_fresh(ids, index, run.disk.slots),
    ensures
        ({
            let current = store::with_current(
                Progress { index, run },
                store::active_auth(run.disk, settings),
                ids[0],
                now,
            );
            let next = store::migrated(index, run, settings, profiles, ids, now);
            &&& forall|j: int|
                current.index.sessions.len() <= j < next.index.sessions.len()
                    ==> #[trigger] is_profile(next, profiles, j, now)
            &&& forall|i: int, j: int|
                0 <= i < profiles.len() && current.index.sessions.len() <= j
                    < next.index.sessions.len() && store::refreshed_at()(#[trigger] profiles[i])
                    > store::refreshed_at()(
                    next.run.disk.slots[(#[trigger] next.index.sessions[j]).session_id],
                ) ==> belongs_before(next, profiles[i], j)
        }),
{
    let first = Progress { index, run };
    let sorted = order::sort_newest(profiles, store::refreshed_at());
    order::sorting_keeps_items_and_puts_newest_first(profiles, store::refreshed_at());
    let current = store::with_current(
        first,
        store::active_auth(run.disk, settings),
        ids[0],
        now,
    );
    assert(index.sessions.take(index.sessions.len() as int) == index.sessions);
    if let Some(auth) = store::active_auth(run.disk, settings) {
        lemma_import_step(first, first, auth, ids, 0, now);
    }
    lemma_freshest_step(first, current, sorted, ids, now);
    let all = store::with_profiles(current, sorted, ids, now);
    let next = store::migrated(index, run, settings, profiles, ids, now);
    let start = current.index.sessions.len() as int;
    assert forall|auth: AuthView| #[trigger] sorted.contains(auth) == profiles.contains(auth) by {
        broadcast use vstd::seq_lib::group_to_multiset_ensures;

        assert(sorted.to_multiset().count(auth) == profiles.to_multiset().count(auth));
    }
    assert forall|j: int| start <= j < next.index.sessions.len() implies #[trigger] is_profile(
        next,
        profiles,
        j,
        now,
    ) by {
        assert(is_profile(all, sorted, j, now));
        assert(sorted.contains(all.run.disk.slots[all.index.sessions[j].session_id]));
    }
    assert forall|i: int, j: int|
        0 <= i < profiles.len() && start <= j < next.index.sessions.len()
            && store::refreshed_at()(#[trigger] profiles[i]) > store::refreshed_at()(
            next.run.disk.slots[(#[trigger] next.index.sessions[j]).session_id],
        ) implies belongs_before(next, profiles[i], j) by {
        assert(profiles.contains(profiles[i]));
        assert(sorted.contains(profiles[i]));
        let k = choose|k: int| 0 <= k < sorted.len() && sorted[k] == profiles[i];
        assert(sorted[k] == profiles[i]);
        assert(all.index.sessions[j] == next.index.sessions[j]);
        assert(belongs_before(all, sorted[k], j));
    }
}

/// Whether a list is one that this program reads again without taking over accounts once more.
pub open spec fn is_settled(index: IndexView) -> bool {
    sessions::index_problem(index) is None && index.legacy_profiles_migrated
}

proof fn lemma_import_keeps_list(progress: Progress, auth: AuthView, id: Seq<char>, now: int)
    requires
        sessions::index_problem(progress.index) is None,
        paths::stays_below(id),
    ensures
        sessions::index_problem(store::imported(progress, auth, id, now).index) is None,
{
    let next = store::imported(progress, auth, id, now);
    assert forall|i: int| 0 <= i < next.index.sessions.len() implies paths::stays_below(
        (#[trigger] next.index.sessions[i]).session_id,
    ) by {
        if i < progress.index.sessions.len() {
            assert(next.index.sessions[i] == progress.index.sessions[i]);
            assert(paths::stays_below(progress.index.sessions[i].session_id));
        }
    }
    if let Some(active) = progress.index.active_session_id {
        sessions::lemma_place_of(progress.index.sessions, active, 0);
        sessions::lemma_place_of(next.index.sessions, active, 0);
        let at = sessions::place_of(progress.index.sessions, active, 0)->0;
        assert(next.index.sessions[at] == progress.index.sessions[at]);
    }
}

proof fn lemma_profiles_keep_list(
    progress: Progress,
    profiles: Seq<AuthView>,
    ids: Seq<Seq<char>>,
    now: int,
)
    requires
        sessions::index_problem(progress.index) is None,
        profiles.len() < ids.len(),
        forall|i: int| 0 <= i < ids.len() ==> paths::stays_below(#[trigger] ids[i]),
    ensures
        sessions::index_problem(store::with_profiles(progress, profiles, ids, now).index) is None,
    decreases profiles.len(),
{
    if profiles.len() > 0 {
        lemma_profiles_keep_list(progress, profiles.drop_last(), ids, now);
        lemma_import_keeps_list(
            store::with_profiles(progress, profiles.drop_last(), ids, now),
            profiles.last(),
            ids[profiles.len() as int],
            now,
        );
    }
}

/// To bring a list up to date keeps it readable, and to do so again changes nothing.
proof fn lemma_synced(index: IndexView, run: Run, settings: ActiveStore)
    requires
        is_settled(index),
    ensures
        ({
            let once = store::synced(index, run, settings);
            let twice = store::synced(once.index, once.run, settings);
            &&& is_settled(once.index)
            &&& twice.index == once.index
            &&& twice.run.disk == once.run.disk
            &&& store::active_auth(once.run.disk, settings) == store::active_auth(
                run.disk,
                settings,
            )
        }),
{
    let once = store::synced(index, run, settings);
    if let Some((at, auth)) = store::refreshed_current(index, run.disk, settings) {
        let active = index.active_session_id->0;
        sessions::lemma_place_of(index.sessions, active, 0);
        assert forall|i: int| 0 <= i < once.index.sessions.len() implies (
        #[trigger] once.index.sessions[i]).session_id == index.sessions[i].session_id by {
        }
        lemma_same_place(index.sessions, once.index.sessions, active, 0);
        assert forall|i: int| 0 <= i < once.index.sessions.len() implies paths::stays_below(
            (#[trigger] once.index.sessions[i]).session_id,
        ) by {
            assert(paths::stays_below(index.sessions[i].session_id));
        }
        let twice = store::synced(once.index, once.run, settings);
        assert(twice.index.sessions =~= once.index.sessions);
        assert(twice.run.disk.slots =~= once.run.disk.slots);
    }
}

/// A list that was opened is one that is read again as it is.
pub proof fn opened_lists_are_settled(
    run: Run,
    settings: ActiveStore,
    profiles: Seq<AuthView>,
    ids: Seq<Seq<char>>,
    now: int,
)
    requires
        profiles.len() < ids.len(),
        forall|i: int| 0 <= i < ids.len() ==> paths::stays_below(#[trigger] ids[i]),
    ensures
        store::opened(run, settings, profiles, ids, now).0 matches Ok(index) ==> is_settled(index),
{
    if let Ok(found) = store::read_index(run.disk.index) {
        let start = match found {
            Some(index) => index,
            None => sessions::empty_index(false),
        };
        let first = Progress { index: start, run };
        let sorted = order::sort_newest(profiles, store::refreshed_at());
        order::sorting_keeps_items_and_puts_newest_first(profiles, store::refreshed_at());
        let active = store::active_auth(run.disk, settings);
        let current = store::with_current(first, active, ids[0], now);
        if let Some(auth) = active {
            lemma_import_keeps_list(first, auth, ids[0], now);
            lemma_matching(start.sessions, run.disk.slots, auth, 0);
            sessions::lemma_place_of(
                current.index.sessions,
                current.index.active_session_id->0,
                0,
            );
            match sessions::matching_session(start.sessions, run.disk.slots, auth, 0) {
                Some(at) => assert(current.index.sessions[at].session_id
                    == current.index.active_session_id->0),
                None => assert(current.index.sessions[start.sessions.len() as int].session_id
                    == ids[0]),
            }
        }
        lemma_profiles_keep_list(current, sorted, ids, now);
        let all = store::with_profiles(current, sorted, ids, now);
        let next = store::migrated(start, run, settings, profiles, ids, now);
        assert(next.index.sessions == all.index.sessions);
        let (listed, loaded) = store::loaded(run, settings, profiles, ids, now);
        if let Ok(index) = listed {
            lemma_synced(index, loaded, settings);
        }
    }
}

/// To list the accounts again gives the same list and changes nothing on disk, whatever profiles of
/// earlier versions there are by then.
pub proof fn listing_again_gives_the_same_list(
    run: Run,
    settings: ActiveStore,
    plans: PlanCatalog,
    profiles: Seq<AuthView>,
    ids: Seq<Seq<char>>,
    now: int,
    later_profiles: Seq<AuthView>,
    later_ids: Seq<Seq<char>>,
    later: int,
)
    requires
        profiles.len() < ids.len(),
        forall|i: int| 0 <= i < ids.len() ==> paths::stays_below(#[trigger] ids[i]),
        store::opened(run, settings, profiles, ids, now).0 is Ok,
    ensures
        ({
            let (index, opened) = store::opened(run, settings, profiles, ids, now);
            let (response, end) = operations::finished(index->Ok_0, opened, plans);
            let (again, reopened) = store::opened(
                end,
                settings,
                later_profiles,
                later_ids,
                later,
            );
            let (second, last) = operations::finished(again->Ok_0, reopened, plans);
            &&& again == index
            &&& second == response
            &&& last.disk == end.disk
        }),
{
    opened_lists_are_settled(run, settings, profiles, ids, now);
    let (listed, loaded) = store::loaded(run, settings, profiles, ids, now);
    let start = listed->Ok_0;
    let once = store::synced(start, loaded, settings);
    let (response, end) = operations::finished(once.index, once.run, plans);
    lemma_synced(once.index, end, settings);
    if let Some((at, auth)) = store::refreshed_current(start, loaded.disk, settings) {
        let active = start.active_session_id->0;
        sessions::lemma_place_of(start.sessions, active, 0);
        lemma_same_place(start.sessions, once.index.sessions, active, 0);
        let twice = store::synced(once.index, end, settings);
        assert(twice.index.sessions =~= once.index.sessions);
        assert(twice.run.disk.slots =~= end.disk.slots);
    }
}

/// Whether a refresh makes the current account that of the person whose credentials are in use, while
/// those are not the credentials that were refreshed.
pub open spec fn is_taken_for_another(
    index: IndexView,
    disk: Disk,
    settings: ActiveStore,
    id: Seq<char>,
    before: AuthView,
    refreshed: AuthView,
) -> bool {
    index.active_session_id == Some(id) && match store::active_auth(disk, settings) {
        Some(other) => other != before && sessions::is_managed_chatgpt(other)
            && sessions::is_same_identity(sessions::session_of(refreshed, id, 0), other),
        None => false,
    }
}

/// A reader that waits while another has an account's tokens exchanged sees the exchanged ones, never
/// those from before: it may not read until the other leaves, and what it then finds is what the
/// other saved. Left out is a refresh after which the account is taken for that of another person,
/// whose credentials are in use: those are then taken over for it.
pub proof fn waiting_readers_see_the_refresh(
    queue: Seq<ReaderView>,
    next: u64,
    first: int,
    second: int,
    run: Run,
    settings: ActiveStore,
    profiles: Seq<AuthView>,
    ids: Seq<Seq<char>>,
    now: int,
    id: Seq<char>,
    before: AuthView,
    refreshed: AuthView,
    later_profiles: Seq<AuthView>,
    later_ids: Seq<Seq<char>>,
    later: int,
)
    requires
        readers::are_numbered(queue, next),
        0 <= first < second < queue.len(),
        queue[first].session_id == id,
        queue[second].session_id == id,
        readers::is_first(queue, first),
        forall|i: int| first < i < second ==> (#[trigger] queue[i]).session_id != id,
        profiles.len() < ids.len(),
        forall|i: int| 0 <= i < ids.len() ==> paths::stays_below(#[trigger] ids[i]),
        store::opened(run, settings, profiles, ids, now).0 is Ok,
        ({
            let (index, opened) = store::opened(run, settings, profiles, ids, now);
            &&& operations::persist_run(
                index->Ok_0,
                opened,
                settings,
                id,
                before,
                refreshed,
            ).0
            &&& !is_taken_for_another(
                index->Ok_0,
                opened.disk,
                settings,
                id,
                before,
                refreshed,
            )
        }),
    ensures
        !readers::reads(queue, queue[second].number),
        readers::reads(readers::without(queue, queue[first].number), queue[second].number),
        ({
            let (index, opened) = store::opened(run, settings, profiles, ids, now);
            let end = operations::persist_run(
                index->Ok_0,
                opened,
                settings,
                id,
                before,
                refreshed,
            ).1;
            let (again, reopened) = store::opened(
                end,
                settings,
                later_profiles,
                later_ids,
                later,
            );
            &&& again is Ok
            &&& operations::snapshot_run(again->Ok_0, reopened, id).0 == Ok::<
                (Seq<char>, AuthView),
                ErrorView,
            >((id, refreshed))
        }),
{
    readers::the_next_reader_has_its_turn(queue, next, first, second);
    opened_lists_are_settled(run, settings, profiles, ids, now);
    let (listed, opened) = store::opened(run, settings, profiles, ids, now);
    let index = listed->Ok_0;
    let end = operations::persist_run(index, opened, settings, id, before, refreshed).1;
    let updated = end.disk.index->Stored_0;
    sessions::lemma_place_of(index.sessions, id, 0);
    let at = sessions::place_of(index.sessions, id, 0)->0;
    assert forall|i: int| 0 <= i < index.sessions.len() implies (
    #[trigger] index.sessions[i]).session_id == (#[trigger] updated.sessions[i]).session_id by {
    }
    lemma_same_place(index.sessions, updated.sessions, id, 0);
    assert forall|i: int| 0 <= i < updated.sessions.len() implies paths::stays_below(
        (#[trigger] updated.sessions[i]).session_id,
    ) by {
        assert(paths::stays_below(index.sessions[i].session_id));
    }
    if let Some(active) = index.active_session_id {
        lemma_same_place(index.sessions, updated.sessions, active, 0);
        sessions::lemma_place_of(updated.sessions, active, 0);
    }
    assert(is_settled(updated));
    let synced = store::synced(updated, end, settings);
    assert forall|i: int| 0 <= i < updated.sessions.len() implies (
    #[trigger] updated.sessions[i]).session_id == (#[trigger] synced.index.sessions[i]).session_id
        by {
    }
    lemma_same_place(updated.sessions, synced.index.sessions, id, 0);
    assert(slots::lookup(end.disk.slots, id) == Some(refreshed));
    assert(slots::lookup(synced.run.disk.slots, id) == Some(refreshed));
}

/// Whether credentials are a copy of others: they belong to an account that was saved from those.
pub open spec fn is_copy(of: AuthView, auth: AuthView) -> bool {
    sessions::belongs_to(sessions::session_of(of, Seq::empty(), 0), Some(of), auth)
}

/// Whether credentials belong to no saved account.
pub open spec fn is_new(index: IndexView, slots: Map<Seq<char>, AuthView>, auth: AuthView) -> bool {
    sessions::matching_session(index.sessions, slots, auth, 0) is None
}

/// Whether an account is listed as `auth`, the freshest of the profiles that belong to no saved
/// account.
pub open spec fn is_freshest_new(
    index: IndexView,
    slots: Map<Seq<char>, AuthView>,
    profiles: Seq<AuthView>,
    session: SessionView,
    auth: AuthView,
    now: int,
) -> bool {
    &&& profiles.contains(auth)
    &&& is_new(index, slots, auth)
    &&& session == sessions::session_of(auth, session.session_id, now)
    &&& forall|i: int|
        0 <= i < profiles.len() && is_new(index, slots, #[trigger] profiles[i])
            ==> store::refreshed_at()(profiles[i]) <= store::refreshed_at()(auth)
}

/// To take over keeps the credentials of every saved account, and gives none to one without.
proof fn lemma_saved_credentials_stay(
    index: IndexView,
    run: Run,
    next: Progress,
    ids: Seq<Seq<char>>,
    used: int,
    at: int,
)
    requires
        are_fresh(ids, index, run.disk.slots),
        used <= ids.len(),
        only_adds(Progress { index, run }, next),
        uses_ids(Progress { index, run }, next, ids, used),
        0 <= at < index.sessions.len(),
    ensures
        next.index.sessions[at] == index.sessions[at],
        slots::lookup(next.run.disk.slots, index.sessions[at].session_id) == slots::lookup(
            run.disk.slots,
            index.sessions[at].session_id,
        ),
{
    let id = index.sessions[at].session_id;
    assert(next.index.sessions.take(index.sessions.len() as int)[at] == index.sessions[at]);
    if run.disk.slots.contains_key(id) {
        assert(next.run.disk.slots.contains_key(id));
    } else if next.run.disk.slots.contains_key(id) {
        let i = choose|i: int| 0 <= i < used && ids[i] == id;
        assert(ids[i] != index.sessions[at].session_id);
    }
}

/// A saved account keeps its credentials, whatever copies of them there are in profiles, even fresher
/// ones; and of several copies of another account one account is made, with the credentials of the
/// freshest. No credentials are put to use by that, and to list the accounts again gives the same
/// list.
pub proof fn copies_become_one_account(
    index: IndexView,
    run: Run,
    settings: ActiveStore,
    plans: PlanCatalog,
    profiles: Seq<AuthView>,
    ids: Seq<Seq<char>>,
    now: int,
    later_profiles: Seq<AuthView>,
    later_ids: Seq<Seq<char>>,
    later: int,
)
    requires
        store::read_index(run.disk.index) == Ok::<Option<IndexView>, ErrorView>(Some(index)),
        !index.legacy_profiles_migrated,
        store::active_auth(run.disk, settings) is None,
        profiles.len() < ids.len(),
        are_fresh(ids, index, run.disk.slots),
        forall|i: int| 0 <= i < ids.len() ==> paths::stays_below(#[trigger] ids[i]),
        exists|i: int|
            0 <= i < profiles.len() && is_new(index, run.disk.slots, #[trigger] profiles[i]),
        forall|i: int, j: int|
            0 <= i < profiles.len() && 0 <= j < profiles.len() && is_new(
                index,
                run.disk.slots,
                #[trigger] profiles[i],
            ) && is_new(index, run.disk.slots, #[trigger] profiles[j]) ==> is_copy(
                profiles[i],
                profiles[j],
            ),
    ensures
        ({
            let n = index.sessions.len() as int;
            let (opened, after) = store::opened(run, settings, profiles, ids, now);
            let listed = opened->Ok_0;
            let (response, end) = operations::finished(listed, after, plans);
            let added = listed.sessions[n];
            let (again, reopened) = store::opened(
                end,
                settings,
                later_profiles,
                later_ids,
                later,
            );
            &&& opened is Ok
            &&& listed.sessions.len() == n + 1
            &&& listed.sessions.take(n) == index.sessions
            &&& forall|at: int|
                0 <= at < n ==> slots::lookup(
                    end.disk.slots,
                    (#[trigger] index.sessions[at]).session_id,
                ) == slots::lookup(run.disk.slots, index.sessions[at].session_id)
            &&& slots::lookup(end.disk.slots, added.session_id) matches Some(auth)
                && is_freshest_new(index, run.disk.slots, profiles, added, auth, now)
            &&& store::active_auth(end.disk, settings) is None
            &&& response.active_session_id == index.active_session_id
            &&& response.sessions.len() == n + 1
            &&& again == opened
            &&& operations::finished(again->Ok_0, reopened, plans).0 == response
            &&& operations::finished(again->Ok_0, reopened, plans).1.disk == end.disk
        }),
{
    let first = Progress { index, run };
    let n = index.sessions.len() as int;
    let sorted = order::sort_newest(profiles, store::refreshed_at());
    order::sorting_keeps_items_and_puts_newest_first(profiles, store::refreshed_at());
    let next = store::migrated(index, run, settings, profiles, ids, now);
    let all = store::with_profiles(first, sorted, ids, now);
    assert(index.sessions.take(n) == index.sessions);
    lemma_profiles_step(first, first, sorted, ids, now);
    lemma_active_kept(first, sorted, ids, now);
    taking_over_loses_and_repeats_no_account(index, run, settings, profiles, ids, now);
    the_freshest_copies_are_taken_over(index, run, settings, profiles, ids, now);
    assert(uses_ids(first, next, ids, profiles.len() as int + 1)) by {
        assert(next.run == all.run);
        assert(next.index.sessions == all.index.sessions);
        assert forall|j: int| n <= j < next.index.sessions.len() implies exists|i: int|
            0 <= i < profiles.len() + 1 && ids[i] == (#[trigger] next.index.sessions[j]).session_id
            by {
            let i = choose|i: int|
                0 <= i < sorted.len() + 1 && ids[i] == all.index.sessions[j].session_id;
            assert(ids[i] == next.index.sessions[j].session_id);
        }
    }
    assert forall|at: int| 0 <= at < n implies next.index.sessions[at] == #[trigger] index.sessions[at]
        && slots::lookup(next.run.disk.slots, index.sessions[at].session_id) == slots::lookup(
        run.disk.slots,
        index.sessions[at].session_id,
    ) by {
        lemma_saved_credentials_stay(
            index,
            run,
            next,
            ids,
            profiles.len() as int + 1,
            at,
        );
    }
    // What is new belongs to no saved account afterwards either.
    assert forall|i: int, at: int|
        0 <= i < profiles.len() && 0 <= at < n && is_new(
            index,
            run.disk.slots,
            #[trigger] profiles[i],
        ) implies !sessions::belongs_to(
        #[trigger] next.index.sessions[at],
        slots::lookup(next.run.disk.slots, next.index.sessions[at].session_id),
        profiles[i],
    ) by {
        lemma_matching(index.sessions, run.disk.slots, profiles[i], 0);
        assert(index.sessions[at] == next.index.sessions[at]);
    }
    let some = choose|i: int|
        0 <= i < profiles.len() && is_new(index, run.disk.slots, #[trigger] profiles[i]);
    lemma_matching(next.index.sessions, next.run.disk.slots, profiles[some], 0);
    let found = sessions::matching_session(
        next.index.sessions,
        next.run.disk.slots,
        profiles[some],
        0,
    )->0;
    assert(found >= n);
    // Each account that was added is one of the new profiles.
    assert forall|j: int| n <= j < next.index.sessions.len() implies (#[trigger] is_profile(
        next,
        profiles,
        j,
        now,
    )) && is_new(
        index,
        run.disk.slots,
        next.run.disk.slots[next.index.sessions[j].session_id],
    ) by {
        let auth = next.run.disk.slots[next.index.sessions[j].session_id];
        assert(is_profile(next, profiles, j, now));
        lemma_matching(index.sessions, run.disk.slots, auth, 0);
        if let Some(at) = sessions::matching_session(index.sessions, run.disk.slots, auth, 0) {
            assert(index.sessions[at] == next.index.sessions[at]);
            assert(!sessions::belongs_to(
                next.index.sessions[at],
                slots::lookup(next.run.disk.slots, next.index.sessions[at].session_id),
                next.run.disk.slots[next.index.sessions[j].session_id],
            ));
        }
    }
    assert(is_profile(next, profiles, n, now));
    let auth = next.run.disk.slots[next.index.sessions[n].session_id];
    let kept = choose|i: int| 0 <= i < profiles.len() && profiles[i] == auth;
    if next.index.sessions.len() > n + 1 {
        assert(is_profile(next, profiles, n + 1, now));
        let second = next.run.disk.slots[next.index.sessions[n + 1].session_id];
        let place = choose|i: int| 0 <= i < profiles.len() && profiles[i] == second;
        assert(is_copy(profiles[kept], profiles[place]));
        assert(!sessions::belongs_to(
            next.index.sessions[n],
            slots::lookup(next.run.disk.slots, next.index.sessions[n].session_id),
            next.run.disk.slots[next.index.sessions[n + 1].session_id],
        ));
    }
    assert(next.index.sessions.len() == n + 1);
    assert forall|i: int|
        0 <= i < profiles.len() && is_new(
            index,
            run.disk.slots,
            #[trigger] profiles[i],
        ) implies store::refreshed_at()(profiles[i]) <= store::refreshed_at()(auth) by {
        if store::refreshed_at()(profiles[i]) > store::refreshed_at()(auth) {
            assert(auth == next.run.disk.slots[next.index.sessions[n].session_id]);
            assert(belongs_before(next, profiles[i], n));
        }
    }
    let (opened, after) = store::opened(run, settings, profiles, ids, now);
    assert(opened == Ok::<IndexView, ErrorView>(next.index));
    listing_again_gives_the_same_list(
        run,
        settings,
        plans,
        profiles,
        ids,
        now,
        later_profiles,
        later_ids,
        later,
    );
    let entries = next.index.sessions.map_values(
        |session: SessionView|
            sessions::reported(session, next.index.active_session_id, after.disk.slots, plans),
    );
    order::sorting_keeps_items_and_puts_newest_first(entries, sessions::used_at());
}

} // verus!
