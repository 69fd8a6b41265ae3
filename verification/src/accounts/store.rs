//! The store of saved accounts: its list, the credentials of each account, and the credentials that
//! are in use.
//!
//! An operation works on what was read from disk and notes every change that is to be made there, in
//! order.

use vstd::prelude::*;
use crate::accounts::auth_profiles::PlanCatalog;
use crate::accounts::model;
use crate::accounts::model::{AuthDotJson, AuthMode, AuthView, ErrorView, StoreError};
use crate::accounts::order;
use crate::accounts::sessions;
use crate::accounts::sessions::{IndexView, SessionView, StoredAccountSessions};
use crate::accounts::slots;
use crate::accounts::slots::CredentialSlots;
use crate::text;

verus! {

/// The two places for the credentials in use: in memory, for tokens that the program was handed, and
/// where the user's settings say.
#[derive(Clone, Copy, Debug, PartialEq, Eq, Structural)]
pub enum ActiveStore {
    Ephemeral,
    Configured,
}

/// A change to be made on disk.
#[derive(Debug, PartialEq, Eq)]
pub enum StoreEffect {
    /// Write the list.
    SaveIndex(StoredAccountSessions),
    /// Write an account's credentials.
    SaveSlot { session_id: String, auth: AuthDotJson },
    /// Revoke an account's credentials with the backend and delete them.
    RevokeSlot { session_id: String },
    /// Write the credentials in use.
    SaveActive { target: ActiveStore, auth: AuthDotJson },
    /// Delete credentials in use.
    ClearActive { target: ActiveStore },
    /// Delete the credentials in use from both places.
    Logout,
    /// Have the credentials in use read anew.
    Reload,
}

/// The view of a change.
pub enum EffectView {
    SaveIndex(IndexView),
    SaveSlot { session_id: Seq<char>, auth: AuthView },
    RevokeSlot { session_id: Seq<char> },
    SaveActive { target: ActiveStore, auth: AuthView },
    ClearActive { target: ActiveStore },
    Logout,
    Reload,
}

impl View for StoreEffect {
    type V = EffectView;

    open spec fn view(&self) -> EffectView {
        match self {
            StoreEffect::SaveIndex(index) => EffectView::SaveIndex(index@),
            StoreEffect::SaveSlot { session_id, auth } => EffectView::SaveSlot {
                session_id: session_id@,
                auth: auth@,
            },
            StoreEffect::RevokeSlot { session_id } => EffectView::RevokeSlot {
                session_id: session_id@,
            },
            StoreEffect::SaveActive { target, auth } => EffectView::SaveActive {
                target: *target,
                auth: auth@,
            },
            StoreEffect::ClearActive { target } => EffectView::ClearActive { target: *target },
            StoreEffect::Logout => EffectView::Logout,
            StoreEffect::Reload => EffectView::Reload,
        }
    }
}

/// The views of changes.
pub open spec fn effect_views(effects: Seq<StoreEffect>) -> Seq<EffectView> {
    effects.map_values(|effect: StoreEffect| effect@)
}

/// The file of the list: none, one that cannot be read as a list, or a list.
#[derive(Debug, PartialEq, Eq)]
pub enum IndexFile {
    Missing,
    Unreadable(StoreError),
    Stored(StoredAccountSessions),
}

/// The view of the file.
pub enum IndexFileView {
    Missing,
    Unreadable(ErrorView),
    Stored(IndexView),
}

impl View for IndexFile {
    type V = IndexFileView;

    open spec fn view(&self) -> IndexFileView {
        match self {
            IndexFile::Missing => IndexFileView::Missing,
            IndexFile::Unreadable(error) => IndexFileView::Unreadable(error@),
            IndexFile::Stored(index) => IndexFileView::Stored(index@),
        }
    }
}

/// What is on disk.
#[verifier::ext_equal]
pub struct Disk {
    pub index: IndexFileView,
    pub slots: Map<Seq<char>, AuthView>,
    pub ephemeral: Option<AuthView>,
    pub configured: Option<AuthView>,
}

/// What is on disk after a change.
pub open spec fn perform(disk: Disk, effect: EffectView) -> Disk {
    match effect {
        EffectView::SaveIndex(index) => Disk { index: IndexFileView::Stored(index), ..disk },
        EffectView::SaveSlot { session_id, auth } => Disk {
            slots: disk.slots.insert(session_id, auth),
            ..disk
        },
        EffectView::RevokeSlot { session_id } => Disk {
            slots: disk.slots.remove(session_id),
            ..disk
        },
        EffectView::SaveActive { target: ActiveStore::Ephemeral, auth } => Disk {
            ephemeral: Some(auth),
            ..disk
        },
        EffectView::SaveActive { target: ActiveStore::Configured, auth } => Disk {
            configured: Some(auth),
            ..disk
        },
        EffectView::ClearActive { target: ActiveStore::Ephemeral } => Disk {
            ephemeral: None,
            ..disk
        },
        EffectView::ClearActive { target: ActiveStore::Configured } => Disk {
            configured: None,
            ..disk
        },
        EffectView::Logout => Disk { ephemeral: None, configured: None, ..disk },
        EffectView::Reload => disk,
    }
}

/// What is on disk after changes, one after the other.
pub open spec fn perform_all(disk: Disk, effects: Seq<EffectView>) -> Disk
    decreases effects.len(),
{
    if effects.len() == 0 {
        disk
    } else {
        perform(perform_all(disk, effects.drop_last()), effects.last())
    }
}

/// An operation under way: what is on disk by now, and the changes so far.
#[verifier::ext_equal]
pub struct Run {
    pub disk: Disk,
    pub effects: Seq<EffectView>,
}

impl Run {
    /// One more change.
    pub open spec fn after(self, effect: EffectView) -> Run {
        Run { disk: perform(self.disk, effect), effects: self.effects.push(effect) }
    }
}

/// The credentials in use: those in memory, else those where the settings say.
pub open spec fn active_auth(disk: Disk, settings: ActiveStore) -> Option<AuthView> {
    match disk.ephemeral {
        Some(auth) => Some(auth),
        None => match settings {
            ActiveStore::Configured => disk.configured,
            ActiveStore::Ephemeral => None,
        },
    }
}

/// The place that credentials are used from: memory for tokens that the program was handed, else
/// where the settings say.
pub open spec fn target_store(auth: AuthView, settings: ActiveStore) -> ActiveStore {
    if auth.auth_mode == Some(AuthMode::ChatgptAuthTokens) {
        ActiveStore::Ephemeral
    } else {
        settings
    }
}

/// Credentials are put to use: they are written to their place, and the other place is cleared.
pub open spec fn activated(run: Run, auth: AuthView, settings: ActiveStore) -> Run {
    let target = target_store(auth, settings);
    let saved = run.after(EffectView::SaveActive { target, auth });
    let cleared = if target != ActiveStore::Ephemeral {
        saved.after(EffectView::ClearActive { target: ActiveStore::Ephemeral })
    } else {
        saved
    };
    if target != settings {
        cleared.after(EffectView::ClearActive { target: settings })
    } else {
        cleared
    }
}

/// Once credentials are put to use, they are the ones in use.
pub proof fn activated_credentials_are_in_use(run: Run, auth: AuthView, settings: ActiveStore)
    ensures
        active_auth(activated(run, auth, settings).disk, settings) == Some(auth),
        activated(run, auth, settings).disk.slots == run.disk.slots,
        activated(run, auth, settings).disk.index == run.disk.index,
{
}

/// The list that the file holds, if there is a file.
pub open spec fn read_index(file: IndexFileView) -> Result<Option<IndexView>, ErrorView> {
    match file {
        IndexFileView::Missing => Ok(None),
        IndexFileView::Unreadable(error) => Err(error),
        IndexFileView::Stored(index) => match sessions::index_problem(index) {
            Some(error) => Err(error),
            None => Ok(Some(index)),
        },
    }
}

/// The list and the disk while accounts are taken over.
#[verifier::ext_equal]
pub struct Progress {
    pub index: IndexView,
    pub run: Run,
}

/// An account is taken over, unless it is saved already.
pub open spec fn imported(progress: Progress, auth: AuthView, id: Seq<char>, now: int) -> Progress {
    if sessions::matching_session(
        progress.index.sessions,
        progress.run.disk.slots,
        auth,
        0,
    ) is Some {
        progress
    } else {
        Progress {
            index: IndexView {
                sessions: progress.index.sessions.push(sessions::session_of(auth, id, now)),
                ..progress.index
            },
            run: progress.run.after(EffectView::SaveSlot { session_id: id, auth }),
        }
    }
}

/// The account in use is taken over and becomes the current one.
pub open spec fn with_current(
    progress: Progress,
    active: Option<AuthView>,
    id: Seq<char>,
    now: int,
) -> Progress {
    match active {
        None => progress,
        Some(auth) => {
            let current = match sessions::matching_session(
                progress.index.sessions,
                progress.run.disk.slots,
                auth,
                0,
            ) {
                Some(at) => progress.index.sessions[at].session_id,
                None => id,
            };
            let next = imported(progress, auth, id, now);
            Progress {
                index: IndexView { active_session_id: Some(current), ..next.index },
                run: next.run,
            }
        },
    }
}

/// The named profiles are taken over, one after the other.
pub open spec fn with_profiles(
    progress: Progress,
    profiles: Seq<AuthView>,
    ids: Seq<Seq<char>>,
    now: int,
) -> Progress
    decreases profiles.len(),
{
    if profiles.len() == 0 {
        progress
    } else {
        imported(
            with_profiles(progress, profiles.drop_last(), ids, now),
            profiles.last(),
            ids[profiles.len() as int],
            now,
        )
    }
}

/// When credentials were last refreshed; never comes before any time.
pub open spec fn refreshed_at() -> spec_fn(AuthView) -> int {
    |auth: AuthView|
        match auth.last_refresh {
            Some(time) => time as int,
            None => i128::MIN - 1,
        }
}

/// The accounts of earlier versions are taken over: the one in use first, then the named profiles,
/// the freshest first. The list says from then on that this was done.
pub open spec fn migrated(
    index: IndexView,
    run: Run,
    settings: ActiveStore,
    profiles: Seq<AuthView>,
    ids: Seq<Seq<char>>,
    now: int,
) -> Progress {
    let current = with_current(
        Progress { index, run },
        active_auth(run.disk, settings),
        ids[0],
        now,
    );
    let all = with_profiles(
        current,
        order::sort_newest(profiles, refreshed_at()),
        ids,
        now,
    );
    Progress { index: IndexView { legacy_profiles_migrated: true, ..all.index }, run: all.run }
}

/// The list is loaded. Where the accounts of earlier versions were not taken over yet, they are.
pub open spec fn loaded(
    run: Run,
    settings: ActiveStore,
    profiles: Seq<AuthView>,
    ids: Seq<Seq<char>>,
    now: int,
) -> (Result<IndexView, ErrorView>, Run) {
    match read_index(run.disk.index) {
        Err(error) => (Err(error), run),
        Ok(found) => if found matches Some(index) && index.legacy_profiles_migrated {
            (Ok(found->0), run)
        } else {
            let start = match found {
                Some(index) => index,
                None => sessions::empty_index(false),
            };
            let progress = migrated(start, run, settings, profiles, ids, now);
            (
                Ok(progress.index),
                progress.run.after(EffectView::SaveIndex(progress.index)),
            )
        },
    }
}

/// The current account, where the credentials in use are managed ones for its person: its place and
/// those credentials.
pub open spec fn refreshed_current(index: IndexView, disk: Disk, settings: ActiveStore) -> Option<
    (int, AuthView),
> {
    match (index.active_session_id, active_auth(disk, settings)) {
        (Some(id), Some(auth)) => match sessions::place_of(index.sessions, id, 0) {
            Some(at) => if sessions::is_managed_chatgpt(auth) && sessions::is_same_identity(
                index.sessions[at],
                auth,
            ) {
                Some((at, auth))
            } else {
                None
            },
            None => None,
        },
        _ => None,
    }
}

/// What others did to the credentials in use is taken over for the current account.
pub open spec fn synced(index: IndexView, run: Run, settings: ActiveStore) -> Progress {
    match refreshed_current(index, run.disk, settings) {
        None => Progress { index, run },
        Some((at, auth)) => {
            let session = index.sessions[at];
            Progress {
                index: match auth.tokens->0.account_id {
                    Some(account_id) => IndexView {
                        sessions: index.sessions.update(
                            at,
                            SessionView {
                                selected_workspace_account_id: Some(account_id),
                                ..session
                            },
                        ),
                        ..index
                    },
                    None => index,
                },
                run: run.after(EffectView::SaveSlot { session_id: session.session_id, auth }),
            }
        },
    }
}

/// The list is loaded and brought up to date.
pub open spec fn opened(
    run: Run,
    settings: ActiveStore,
    profiles: Seq<AuthView>,
    ids: Seq<Seq<char>>,
    now: int,
) -> (Result<IndexView, ErrorView>, Run) {
    match loaded(run, settings, profiles, ids, now) {
        (Err(error), run) => (Err(error), run),
        (Ok(index), run) => {
            let progress = synced(index, run, settings);
            (Ok(progress.index), progress.run)
        },
    }
}

/// The views of credentials.
pub open spec fn auth_views(auths: Seq<AuthDotJson>) -> Seq<AuthView> {
    auths.map_values(|auth: AuthDotJson| auth@)
}

/// What was read from disk, and the changes to be made there. `legacy` holds the credentials of the
/// named profiles that could be read.
#[derive(Debug, PartialEq, Eq)]
pub struct AccountSessionsStore {
    pub index: IndexFile,
    pub slots: CredentialSlots,
    pub ephemeral: Option<AuthDotJson>,
    pub configured: Option<AuthDotJson>,
    pub settings: ActiveStore,
    pub legacy: Vec<AuthDotJson>,
    pub plans: PlanCatalog,
    pub effects: Vec<StoreEffect>,
}

impl AccountSessionsStore {
    /// What is on disk by now.
    pub open spec fn disk(self) -> Disk {
        Disk {
            index: self.index@,
            slots: self.slots@,
            ephemeral: model::opt_auth(self.ephemeral),
            configured: model::opt_auth(self.configured),
        }
    }

    /// The operation so far.
    pub open spec fn run(self) -> Run {
        Run { disk: self.disk(), effects: effect_views(self.effects@) }
    }

    /// What no operation changes.
    pub open spec fn same_surroundings(self, other: AccountSessionsStore) -> bool {
        self.settings == other.settings && self.legacy == other.legacy && self.plans == other.plans
    }

    /// A store over what was read from disk.
    pub fn new(
        index: IndexFile,
        slots: CredentialSlots,
        ephemeral: Option<AuthDotJson>,
        configured: Option<AuthDotJson>,
        settings: ActiveStore,
        legacy: Vec<AuthDotJson>,
        plans: PlanCatalog,
    ) -> (res: AccountSessionsStore)
        ensures
            res.disk() == (Disk {
                index: index@,
                slots: slots@,
                ephemeral: model::opt_auth(ephemeral),
                configured: model::opt_auth(configured),
            }),
            res.run().effects == Seq::<EffectView>::empty(),
            res.settings == settings,
            res.legacy == legacy,
            res.plans == plans,
    {
        let effects: Vec<StoreEffect> = Vec::new();
        assert(effect_views(effects@) == Seq::<EffectView>::empty());
        AccountSessionsStore {
            index,
            slots,
            ephemeral,
            configured,
            settings,
            legacy,
            plans,
            effects,
        }
    }

    pub(crate) fn note(&mut self, effect: StoreEffect)
        ensures
            final(self).disk() == old(self).disk(),
            final(self).run().effects == old(self).run().effects.push(effect@),
            final(self).same_surroundings(*old(self)),
    {
        let ghost before = self.effects@;
        self.effects.push(effect);
        assert(effect_views(self.effects@) == effect_views(before).push(effect@));
    }

    /// Writes the list.
    pub(crate) fn save_unlocked(&mut self, stored: &StoredAccountSessions)
        ensures
            final(self).run() == old(self).run().after(EffectView::SaveIndex(stored@)),
            final(self).same_surroundings(*old(self)),
    {
        self.note(StoreEffect::SaveIndex(stored.copy()));
        self.index = IndexFile::Stored(stored.copy());
    }

    /// Writes an account's credentials.
    pub(crate) fn save_session_auth(&mut self, session_id: &str, auth: &AuthDotJson)
        ensures
            final(self).run() == old(self).run().after(
                EffectView::SaveSlot { session_id: session_id@, auth: auth@ },
            ),
            final(self).same_surroundings(*old(self)),
    {
        self.note(StoreEffect::SaveSlot { session_id: session_id.to_string(), auth: auth.copy() });
        self.slots.put(session_id, auth.copy());
    }

    /// Revokes and deletes an account's credentials.
    pub(crate) fn revoke_and_delete_session_auth(&mut self, session_id: &str)
        ensures
            final(self).run() == old(self).run().after(
                EffectView::RevokeSlot { session_id: session_id@ },
            ),
            final(self).same_surroundings(*old(self)),
    {
        self.note(StoreEffect::RevokeSlot { session_id: session_id.to_string() });
        self.slots.remove(session_id);
    }

    pub(crate) fn save_active(&mut self, target: ActiveStore, auth: &AuthDotJson)
        ensures
            final(self).run() == old(self).run().after(
                EffectView::SaveActive { target, auth: auth@ },
            ),
            final(self).same_surroundings(*old(self)),
    {
        self.note(StoreEffect::SaveActive { target, auth: auth.copy() });
        match target {
            ActiveStore::Ephemeral => {
                self.ephemeral = Some(auth.copy());
            },
            ActiveStore::Configured => {
                self.configured = Some(auth.copy());
            },
        }
    }

    fn clear_active(&mut self, target: ActiveStore)
        ensures
            final(self).run() == old(self).run().after(EffectView::ClearActive { target }),
            final(self).same_surroundings(*old(self)),
    {
        self.note(StoreEffect::ClearActive { target });
        match target {
            ActiveStore::Ephemeral => {
                self.ephemeral = None;
            },
            ActiveStore::Configured => {
                self.configured = None;
            },
        }
    }

    pub(crate) fn logout_active(&mut self)
        ensures
            final(self).run() == old(self).run().after(EffectView::Logout),
            final(self).same_surroundings(*old(self)),
    {
        self.note(StoreEffect::Logout);
        self.ephemeral = None;
        self.configured = None;
    }

    /// The credentials in use.
    pub fn load_active_auth(&self) -> (res: Option<AuthDotJson>)
        ensures
            model::opt_auth(res) == active_auth(self.disk(), self.settings),
    {
        match &self.ephemeral {
            Some(auth) => Some(auth.copy()),
            None => match self.settings {
                ActiveStore::Configured => match &self.configured {
                    Some(auth) => Some(auth.copy()),
                    None => None,
                },
                ActiveStore::Ephemeral => None,
            },
        }
    }

    /// The credentials of an account.
    pub fn load_session_auth(&self, session_id: &str) -> (res: Option<AuthDotJson>)
        ensures
            model::opt_auth(res) == slots::lookup(self.disk().slots, session_id@),
    {
        self.slots.get(session_id)
    }

    /// Puts credentials to use.
    pub(crate) fn activate(&mut self, auth: &AuthDotJson)
        ensures
            final(self).run() == activated(old(self).run(), auth@, old(self).settings),
            final(self).same_surroundings(*old(self)),
    {
        let tokens = match auth.auth_mode {
            Some(mode) => mode == AuthMode::ChatgptAuthTokens,
            None => false,
        };
        let target = if tokens {
            ActiveStore::Ephemeral
        } else {
            self.settings
        };
        self.save_active(target, auth);
        if target != ActiveStore::Ephemeral {
            self.clear_active(ActiveStore::Ephemeral);
        }
        let settings = self.settings;
        if target != settings {
            self.clear_active(settings);
        }
    }

    /// The list that the file holds, if there is a file.
    pub fn read_unlocked(&self) -> (res: Result<Option<StoredAccountSessions>, StoreError>)
        ensures
            match res {
                Ok(Some(stored)) => read_index(self.disk().index) == Ok::<
                    Option<IndexView>,
                    ErrorView,
                >(Some(stored@)),
                Ok(None) => read_index(self.disk().index) == Ok::<Option<IndexView>, ErrorView>(
                    None,
                ),
                Err(error) => read_index(self.disk().index) == Err::<Option<IndexView>, ErrorView>(
                    error@,
                ),
            },
    {
        match &self.index {
            IndexFile::Missing => Ok(None),
            IndexFile::Unreadable(error) => Err(
                StoreError::with(error.kind, error.message.clone()),
            ),
            IndexFile::Stored(stored) => match sessions::check_index(stored) {
                Ok(_) => Ok(Some(stored.copy())),
                Err(error) => Err(error),
            },
        }
    }

    /// Takes an account over, unless it is saved already; gives its place in the list.
    pub(crate) fn import(&mut self, stored: &mut StoredAccountSessions, auth: &AuthDotJson, id: &str, now: i64)
        -> (res: usize)
        ensures
            ({
                let before = Progress { index: old(stored)@, run: old(self).run() };
                let after = imported(before, auth@, id@, now as int);
                &&& final(stored)@ == after.index
                &&& final(self).run() == after.run
                &&& final(self).same_surroundings(*old(self))
                &&& res < final(stored).sessions@.len()
                &&& final(stored)@.sessions[res as int].session_id == (
                match sessions::matching_session(
                    before.index.sessions,
                    before.run.disk.slots,
                    auth@,
                    0,
                ) {
                    Some(at) => before.index.sessions[at].session_id,
                    None => id@,
                })
            }),
    {
        match sessions::find_matching_session(&stored.sessions, &self.slots, auth) {
            Some(at) => at,
            None => {
                let place: usize = stored.sessions.len();
                let session = sessions::session_with_id(auth, id.to_string(), now);
                self.save_session_auth(id, auth);
                let ghost before = stored.sessions@;
                stored.sessions.push(session);
                assert(sessions::session_views(stored.sessions@) == sessions::session_views(
                    before,
                ).push(session@));
                place
            },
        }
    }

    /// Takes over the accounts of earlier versions: the one in use first, then the named profiles,
    /// the freshest first.
    fn migrate_legacy_profiles_unlocked(
        &mut self,
        stored: &mut StoredAccountSessions,
        ids: &Vec<String>,
        now: i64,
    )
        requires
            ids@.len() > old(self).legacy@.len(),
        ensures
            ({
                let after = migrated(
                    old(stored)@,
                    old(self).run(),
                    old(self).settings,
                    auth_views(old(self).legacy@),
                    text::views(ids@),
                    now as int,
                );
                &&& final(stored)@ == after.index
                &&& final(self).run() == after.run
                &&& final(self).same_surroundings(*old(self))
            }),
    {
        let ghost ids_view = text::views(ids@);
        let ghost start = Progress { index: stored@, run: self.run() };
        let ghost active = active_auth(self.disk(), self.settings);
        match self.load_active_auth() {
            Some(auth) => {
                let place = self.import(stored, &auth, ids[0].as_str(), now);
                stored.active_session_id = Some(stored.sessions[place].session_id.clone());
            },
            None => {},
        }
        let ghost current = Progress { index: stored@, run: self.run() };
        assert(current == with_current(start, active, ids_view[0], now as int));
        let profiles = freshest_first(&self.legacy);
        let ghost views = auth_views(profiles@);
        let mut i: usize = 0;
        assert(views.take(0) == Seq::<AuthView>::empty());
        while i < profiles.len()
            invariant
                i <= profiles@.len() < ids@.len(),
                views == auth_views(profiles@),
                ids_view == text::views(ids@),
                self.same_surroundings(*old(self)),
                with_profiles(current, views.take(i as int), ids_view, now as int) == (Progress {
                    index: stored@,
                    run: self.run(),
                }),
            decreases profiles@.len() - i,
        {
            assert(views.take(i + 1).drop_last() == views.take(i as int));
            assert(views.take(i + 1).last() == profiles@[i as int]@);
            self.import(stored, &profiles[i], ids[i + 1].as_str(), now);
            i = i + 1;
        }
        assert(views.take(i as int) == views);
        stored.legacy_profiles_migrated = true;
    }

    /// Loads the list, and takes over the accounts of earlier versions where that was not done yet.
    /// `ids` holds fresh IDs for the accounts that are taken over.
    pub(crate) fn load_unlocked(&mut self, ids: &Vec<String>, now: i64) -> (res: Result<
        StoredAccountSessions,
        StoreError,
    >)
        requires
            ids@.len() > old(self).legacy@.len(),
        ensures
            ({
                let (result, run) = loaded(
                    old(self).run(),
                    old(self).settings,
                    auth_views(old(self).legacy@),
                    text::views(ids@),
                    now as int,
                );
                &&& index_outcome(res) == result
                &&& final(self).run() == run
                &&& final(self).same_surroundings(*old(self))
            }),
    {
        let mut stored = match self.read_unlocked() {
            Err(error) => {
                return Err(error);
            },
            Ok(Some(stored)) => {
                if stored.legacy_profiles_migrated {
                    return Ok(stored);
                }
                stored
            },
            Ok(None) => StoredAccountSessions::empty(false),
        };
        self.migrate_legacy_profiles_unlocked(&mut stored, ids, now);
        self.save_unlocked(&stored);
        Ok(stored)
    }

    /// Takes over for the current account what others did to the credentials in use.
    pub(crate) fn sync_active_auth_unlocked(&mut self, stored: &mut StoredAccountSessions)
        ensures
            ({
                let after = synced(old(stored)@, old(self).run(), old(self).settings);
                &&& final(stored)@ == after.index
                &&& final(self).run() == after.run
                &&& final(self).same_surroundings(*old(self))
            }),
    {
        let id = match &stored.active_session_id {
            Some(id) => id.clone(),
            None => {
                return ;
            },
        };
        let auth = match self.load_active_auth() {
            Some(auth) => auth,
            None => {
                return ;
            },
        };
        let at = match sessions::find_session(&stored.sessions, id.as_str()) {
            Some(at) => at,
            None => {
                return ;
            },
        };
        if !sessions::is_managed_chatgpt_auth_json(&auth) || !sessions::same_identity(
            &stored.sessions[at],
            &auth,
        ) {
            return ;
        }
        let ghost before = stored.sessions@;
        assert(stored@.sessions[at as int] == before[at as int]@);
        self.save_session_auth(id.as_str(), &auth);
        match &auth.tokens {
            Some(tokens) => match &tokens.account_id {
                Some(account_id) => {
                    let mut session = stored.sessions[at].copy();
                    session.selected_workspace_account_id = Some(account_id.clone());
                    let ghost updated = session@;
                    stored.sessions.set(at, session);
                    assert(sessions::session_views(stored.sessions@) == sessions::session_views(
                        before,
                    ).update(at as int, updated));
                },
                None => {},
            },
            None => {},
        }
    }

    /// Loads the list and brings it up to date.
    pub fn open(&mut self, ids: &Vec<String>, now: i64) -> (res: Result<
        StoredAccountSessions,
        StoreError,
    >)
        requires
            ids@.len() > old(self).legacy@.len(),
        ensures
            ({
                let (result, run) = opened(
                    old(self).run(),
                    old(self).settings,
                    auth_views(old(self).legacy@),
                    text::views(ids@),
                    now as int,
                );
                &&& index_outcome(res) == result
                &&& final(self).run() == run
                &&& final(self).same_surroundings(*old(self))
            }),
    {
        let mut stored = match self.load_unlocked(ids, now) {
            Ok(stored) => stored,
            Err(error) => {
                return Err(error);
            },
        };
        self.sync_active_auth_unlocked(&mut stored);
        Ok(stored)
    }
}

/// The view of a loaded list, or the failure.
pub open spec fn index_outcome(res: Result<StoredAccountSessions, StoreError>) -> Result<
    IndexView,
    ErrorView,
> {
    match res {
        Ok(stored) => Ok(stored@),
        Err(error) => Err(error@),
    }
}

fn refreshed_before(a: &AuthDotJson, b: &AuthDotJson) -> (res: bool)
    ensures
        res == (refreshed_at()(a@) < refreshed_at()(b@)),
{
    match (a.last_refresh, b.last_refresh) {
        (Some(a), Some(b)) => a < b,
        (None, Some(_)) => true,
        _ => false,
    }
}

/// Credentials, those refreshed last first.
fn freshest_first(auths: &Vec<AuthDotJson>) -> (res: Vec<AuthDotJson>)
    ensures
        auth_views(res@) == order::sort_newest(auth_views(auths@), refreshed_at()),
        res@.len() == auths@.len(),
{
    let ghost all = auth_views(auths@);
    let mut sorted: Vec<AuthDotJson> = Vec::new();
    let mut i: usize = 0;
    assert(auth_views(sorted@) == Seq::<AuthView>::empty());
    while i < auths.len()
        invariant
            i <= auths@.len(),
            sorted@.len() == i,
            all == auth_views(auths@),
            auth_views(sorted@) == order::sort_newest(all.take(i as int), refreshed_at()),
        decreases auths@.len() - i,
    {
        assert(all.take(i + 1).drop_last() == all.take(i as int));
        assert(all.take(i + 1).last() == auths@[i as int]@);
        let ghost before = sorted@;
        let ghost views = auth_views(before);
        let ghost item = auths@[i as int]@;
        let mut place: usize = sorted.len();
        while place > 0 && refreshed_before(&sorted[place - 1], &auths[i])
            invariant
                i < auths@.len(),
                item == auths@[i as int]@,
                place <= sorted@.len(),
                sorted@ == before,
                views == auth_views(before),
                forall|k: int|
                    place <= k < views.len() ==> refreshed_at()(#[trigger] views[k])
                        < refreshed_at()(item),
            decreases place,
        {
            place = place - 1;
            assert(views[place as int] == before[place as int]@);
        }
        proof {
            if place > 0 {
                assert(views[place - 1] == before[place - 1]@);
            }
            order::lemma_insert_place(views, item, refreshed_at(), place as int);
        }
        sorted.insert(place, auths[i].copy());
        assert(auth_views(sorted@) =~= views.insert(place as int, item));
        i = i + 1;
    }
    assert(all.take(i as int) == all);
    sorted
}

} // verus!
