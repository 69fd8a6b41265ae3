use codex_addons::accounts::auth_profiles::PlanCatalog;
use codex_addons::accounts::login::activate_next_auth_profile_response;
use codex_addons::accounts::model::{
    Account, AuthDotJson, AuthMode, BedrockAccessKeys, ErrorKind, IdTokenInfo, PlanType,
    RateLimitSnapshot, RateLimitWindow, StoreError, TokenData,
};
use codex_addons::accounts::operations::{
    check_workspace, AccountSessionActivation, LoginPolicy, WorkspaceMetadata, WorkspaceToken,
};
use codex_addons::accounts::readers::SessionReaders;
use codex_addons::accounts::sessions::{
    resolve_session_id, session_from_auth_json, session_home, session_with_id, AccountEntry, AccountSession,
    AccountSessionWorkspace, AccountSessionsResponse, AccountsCheck, StoredAccountSessions,
    WorkspaceKind,
};
use codex_addons::accounts::slots::CredentialSlots;
use codex_addons::accounts::store::{ActiveStore, AccountSessionsStore, IndexFile, StoreEffect};
use codex_addons::accounts::usage::{
    account_profile, activated_profile, changed_credentials, isolated_store,
    with_account_rate_limits, IsolatedStore,
};
use codex_addons::ids::fresh_session_ids;

const NOW: i64 = 1_781_000_000;

fn plans() -> PlanCatalog {
    PlanCatalog {
        known: vec![PlanType { name: "pro".to_string(), label: "Pro".to_string() }],
        unknown: unknown_plan(),
    }
}

fn unknown_plan() -> PlanType {
    PlanType { name: "unknown".to_string(), label: "Unknown".to_string() }
}

fn no_auth() -> AuthDotJson {
    AuthDotJson {
        auth_mode: None,
        openai_api_key: None,
        tokens: None,
        last_refresh: None,
        agent_identity: None,
        personal_access_token: None,
        bedrock_api_key: None,
        bedrock_access_keys: None,
    }
}

fn key_auth(key: &str) -> AuthDotJson {
    AuthDotJson { openai_api_key: Some(key.to_string()), ..no_auth() }
}

fn chatgpt_auth(user_id: &str, email: &str, access_token: &str) -> AuthDotJson {
    AuthDotJson {
        auth_mode: Some(AuthMode::Chatgpt),
        tokens: Some(TokenData {
            id_token: IdTokenInfo {
                raw: format!("token of {user_id}"),
                email: Some(email.to_string()),
                chatgpt_plan_type: None,
                chatgpt_user_id: Some(user_id.to_string()),
                chatgpt_account_id: Some("shared-workspace".to_string()),
                chatgpt_account_is_fedramp: false,
            },
            access_token: access_token.to_string(),
            refresh_token: String::new(),
            account_id: Some("shared-workspace".to_string()),
        }),
        last_refresh: Some(1_000),
        ..no_auth()
    }
}

fn with_token(auth: &AuthDotJson, access_token: &str) -> AuthDotJson {
    let mut changed = auth.copy();
    changed.tokens.as_mut().unwrap().access_token = access_token.to_string();
    changed
}

fn store(configured: Option<AuthDotJson>, legacy: Vec<AuthDotJson>) -> AccountSessionsStore {
    AccountSessionsStore::new(
        IndexFile::Missing,
        CredentialSlots::new(),
        None,
        configured,
        ActiveStore::Configured,
        legacy,
        plans(),
    )
}

fn open(store: &mut AccountSessionsStore) -> Result<StoredAccountSessions, StoreError> {
    let ids = fresh_session_ids(store.legacy.len() + 1);
    store.open(&ids, NOW)
}

fn list(store: &mut AccountSessionsStore) -> AccountSessionsResponse {
    let stored = open(store).expect("a list");
    store.list(&stored)
}

fn anyone() -> LoginPolicy {
    LoginPolicy { api_allowed: true, chatgpt_allowed: true, workspaces: None }
}

fn switch(
    store: &mut AccountSessionsStore,
    selector: &str,
) -> Result<AccountSessionsResponse, StoreError> {
    let stored = open(store)?;
    store.switch(stored, &anyone(), selector, NOW)
}

fn logout(
    store: &mut AccountSessionsStore,
    selector: &str,
) -> Result<AccountSessionsResponse, StoreError> {
    let stored = open(store)?;
    store.logout(stored, selector)
}

fn nobody() -> AccountSessionsResponse {
    AccountSessionsResponse { active_session_id: None, sessions: Vec::new() }
}

#[test]
fn migration_preserves_canonical_credentials_and_deduplicates_legacy_identities() {
    let canonical_auth = chatgpt_auth("user-1", "shared@example.com", "canonical");
    let canonical = session_with_id(&canonical_auth, "canonical-id".to_string(), NOW);
    let mut stale = with_token(&canonical_auth, "stale-legacy");
    stale.last_refresh = Some(9_000);
    let newest = chatgpt_auth("user-2", "shared@example.com", "newest-legacy");
    let mut older = with_token(&newest, "older-legacy");
    older.last_refresh = Some(1);

    let mut store = store(None, vec![stale, older, newest.copy()]);
    store.slots.put("canonical-id", canonical_auth.copy());
    store.index = IndexFile::Stored(StoredAccountSessions {
        sessions: vec![canonical],
        ..StoredAccountSessions::empty(false)
    });

    let listed = list(&mut store);
    assert_eq!(listed.sessions.len(), 2);
    assert_eq!(store.load_session_auth("canonical-id"), Some(canonical_auth));
    let imported = listed
        .sessions
        .iter()
        .find(|session| session.session_id != "canonical-id")
        .unwrap();
    assert_eq!(store.load_session_auth(&imported.session_id), Some(newest));
    assert_eq!(
        switch(&mut store, "SHARED@example.com").unwrap_err().kind,
        ErrorKind::InvalidInput
    );
    assert_eq!(store.load_active_auth(), None);
    assert_eq!(list(&mut store), listed);
}

#[test]
fn migrated_api_key_and_bedrock_sessions_switch_without_workspace_exchange() {
    let api_key =
        AuthDotJson { auth_mode: Some(AuthMode::ApiKey), ..key_auth("api-key") };
    let bedrock = AuthDotJson {
        auth_mode: Some(AuthMode::BedrockAccessKeys),
        bedrock_access_keys: Some(BedrockAccessKeys {
            access_key_id: "access".to_string(),
            secret_access_key: "secret".to_string(),
            session_token: Some("session".to_string()),
        }),
        ..no_auth()
    };
    let mut duplicate_api_key = api_key.copy();
    duplicate_api_key.auth_mode = None;
    duplicate_api_key.last_refresh = Some(5);
    let mut store = store(Some(api_key.copy()), vec![duplicate_api_key, bedrock.copy()]);
    let listed = list(&mut store);
    assert_eq!(listed.sessions.len(), 2);
    let saved_bedrock = listed
        .sessions
        .iter()
        .find(|session| {
            session.account
                == Some(Account::AmazonBedrock { uses_codex_managed_credentials: true })
        })
        .unwrap();
    switch(&mut store, &saved_bedrock.session_id).expect("a switch");
    assert_eq!(store.load_active_auth(), Some(bedrock));
    let stored = open(&mut store).expect("a list");
    assert!(store
        .begin_workspace_switch(stored, &anyone(), &saved_bedrock.session_id, "workspace")
        .is_err());
    let saved_key = listed.sessions.iter().find(|session| session.is_active).unwrap();
    switch(&mut store, &saved_key.session_id).expect("a switch");
    assert_eq!(store.load_active_auth(), Some(api_key));
}

#[test]
fn logout_retains_migration_marker_and_does_not_restore_legacy_profiles() {
    let mut store = store(None, vec![key_auth("api-key")]);
    let ids = fresh_session_ids(2);
    assert!(store.revoke_all_and_clear(&ids, NOW));
    assert_eq!(list(&mut store), nobody());
    assert_eq!(store.legacy.len(), 1);
    assert!(store.read_unlocked().unwrap().unwrap().legacy_profiles_migrated);
}

#[test]
fn conditional_refresh_rejects_changed_and_deleted_sessions_without_switching_active_auth() {
    let original = chatgpt_auth("user-1", "first@example.com", "original");
    let other = chatgpt_auth("user-2", "second@example.com", "other");
    let mut store = store(Some(original.copy()), vec![other.copy()]);
    let stored = open(&mut store).expect("a list");
    let snapshot = store
        .snapshot_session_credentials(&stored, "second@example.com")
        .expect("credentials");
    let refreshed = with_token(&other, "refreshed");
    let stored = open(&mut store).expect("a list");
    assert!(store.persist_session_credentials_if_unchanged(stored, &snapshot, &refreshed));
    assert_eq!(store.load_active_auth(), Some(original.copy()));
    assert!(!store.effects.contains(&StoreEffect::Reload));
    let stored = open(&mut store).expect("a list");
    assert!(!store.persist_session_credentials_if_unchanged(stored, &snapshot, &other));
    assert_eq!(store.load_session_auth(&snapshot.session_id), Some(refreshed));

    let stored = open(&mut store).expect("a list");
    let active_snapshot = store
        .snapshot_session_credentials(&stored, "first@example.com")
        .expect("credentials");
    let active_refresh = with_token(&original, "active-refreshed");
    let stored = open(&mut store).expect("a list");
    assert!(store.persist_session_credentials_if_unchanged(
        stored,
        &active_snapshot,
        &active_refresh
    ));
    assert_eq!(store.load_active_auth(), Some(active_refresh.copy()));
    let written = StoreEffect::SaveActive {
        target: ActiveStore::Configured,
        auth: active_refresh.copy(),
    };
    let saved = store.effects.iter().position(|effect| *effect == written);
    let reloaded = store.effects.iter().position(|effect| *effect == StoreEffect::Reload);
    assert!(saved.is_some() && saved < reloaded);

    let stored = open(&mut store).expect("a list");
    let deletion_snapshot = store
        .snapshot_session_credentials(&stored, &snapshot.session_id)
        .expect("credentials");
    logout(&mut store, &snapshot.session_id).expect("a logout");
    let stored = open(&mut store).expect("a list");
    assert!(!store.persist_session_credentials_if_unchanged(stored, &deletion_snapshot, &other));
    assert_eq!(store.load_session_auth(&snapshot.session_id), None);
    assert_eq!(store.load_active_auth(), Some(active_refresh));
}

#[test]
fn add_without_switching_restores_previously_active_credentials() {
    let original = chatgpt_auth("user-1", "first@example.com", "original");
    let added = chatgpt_auth("user-2", "second@example.com", "added");
    let mut store = store(Some(original.copy()), Vec::new());
    let before = list(&mut store);
    store.configured = Some(added.copy());
    let auth = store.begin_add(Some(AuthMode::Chatgpt)).expect("credentials");
    let stored = store.read_unlocked().unwrap().unwrap();
    let after = store.add(stored, &auth, "added-id", &None, false, NOW).expect("an account");
    assert_eq!(after.active_session_id, before.active_session_id);
    assert_eq!(after.sessions.len(), 2);
    assert_eq!(store.load_active_auth(), Some(original));
}

#[test]
fn external_token_switch_clears_inactive_stores_and_can_switch_back() {
    let original = key_auth("api-key");
    let mut external = chatgpt_auth("user-1", "external@example.com", "external");
    external.auth_mode = Some(AuthMode::ChatgptAuthTokens);
    let mut store = store(Some(original.copy()), vec![external.copy()]);
    let before = list(&mut store);
    switch(&mut store, "external@example.com").expect("a switch");
    assert_eq!(store.load_active_auth(), Some(external.copy()));
    assert_eq!(store.configured, None);
    let stored = open(&mut store).expect("a list");
    let snapshot = store
        .snapshot_session_credentials(&stored, "external@example.com")
        .expect("credentials");
    assert_eq!(snapshot.auth, external);
    switch(&mut store, before.active_session_id.as_deref().unwrap()).expect("a switch");
    assert_eq!(store.load_active_auth(), Some(original));
    assert_eq!(store.ephemeral, None);
}

#[test]
fn corrupt_legacy_profile_does_not_block_migration_or_return_after_logout() {
    let auth = key_auth("valid");
    let mut store = store(None, vec![auth.copy()]);
    let listed = list(&mut store);
    assert_eq!(listed.sessions.len(), 1);
    assert_eq!(
        store.load_session_auth(&listed.sessions[0].session_id),
        Some(auth.copy())
    );
    logout(&mut store, &listed.sessions[0].session_id).expect("a logout");
    store.legacy.push(auth);
    assert_eq!(list(&mut store), nobody());
}

#[test]
fn invalid_session_ids_are_rejected_before_paths_are_used_and_logout_can_clear_corrupt_index() {
    let auth = key_auth("original");
    let mut store = store(Some(auth.copy()), Vec::new());
    store.index = IndexFile::Stored(StoredAccountSessions {
        sessions: vec![session_with_id(&auth, "../outside".to_string(), NOW)],
        ..StoredAccountSessions::empty(false)
    });
    assert_eq!(open(&mut store).unwrap_err().kind, ErrorKind::InvalidData);
    assert_eq!(store.load_active_auth(), Some(auth));

    store.index = IndexFile::Unreadable(StoreError {
        kind: ErrorKind::InvalidData,
        message: "EOF while parsing an object".to_string(),
    });
    assert!(!store.revoke_all_and_clear(&fresh_session_ids(1), NOW));
    store.configured = None;
    assert_eq!(list(&mut store), nobody());
}

#[test]
fn switch_rejects_disallowed_login_without_replacing_active_credentials() {
    let original = key_auth("original");
    let managed = chatgpt_auth("user-1", "saved@example.com", "saved");
    let mut store = store(Some(original.copy()), vec![managed]);
    let before = list(&mut store);
    let stored = open(&mut store).expect("a list");
    let only_keys =
        LoginPolicy { api_allowed: true, chatgpt_allowed: false, workspaces: None };
    assert_eq!(
        store.switch(stored, &only_keys, "saved@example.com", NOW).unwrap_err().kind,
        ErrorKind::PermissionDenied
    );
    assert_eq!(store.load_active_auth(), Some(original));
    assert_eq!(list(&mut store), before);
}

fn initial_auth() -> AuthDotJson {
    let mut auth = chatgpt_auth("user-1", "person@example.com", "access-token-original");
    let tokens = auth.tokens.as_mut().unwrap();
    tokens.refresh_token = "refresh-token-original".to_string();
    tokens.account_id = Some("workspace-original".to_string());
    auth
}

fn reported(id: &str, selected: &str, workspaces: Vec<AccountSessionWorkspace>) -> AccountSession {
    AccountSession {
        session_id: id.to_string(),
        account: Some(Account::Chatgpt {
            email: Some("person@example.com".to_string()),
            plan_type: unknown_plan(),
        }),
        rate_limits: None,
        email: Some("person@example.com".to_string()),
        user_id: Some("user-1".to_string()),
        display_name: None,
        image_url: None,
        last_used_at: NOW,
        is_active: true,
        selected_workspace_account_id: Some(selected.to_string()),
        workspaces,
    }
}

#[test]
fn list_imports_managed_auth_without_putting_tokens_in_metadata() {
    let mut store = store(Some(initial_auth()), Vec::new());
    let response = list(&mut store);
    let id = response.sessions[0].session_id.clone();
    assert_eq!(
        response,
        AccountSessionsResponse {
            active_session_id: Some(id.clone()),
            sessions: vec![reported(
                &id,
                "workspace-original",
                vec![AccountSessionWorkspace {
                    account_id: "workspace-original".to_string(),
                    name: None,
                    image_url: None,
                    kind: None,
                }]
            )],
        }
    );
    for effect in &store.effects {
        if let StoreEffect::SaveIndex(index) = effect {
            let written = format!("{index:?}");
            assert!(!written.contains("access-token-original"));
            assert!(!written.contains("refresh-token-original"));
        }
    }
    let slot = store.load_session_auth(&id).expect("credential slot");
    assert_eq!(
        slot.tokens.expect("managed ChatGPT tokens").access_token,
        "access-token-original"
    );
    assert_eq!(switch(&mut store, &id), Ok(response));
    assert_eq!(session_home(&id).components, ["account-sessions".to_string(), id]);
}

fn check() -> AccountsCheck {
    let entry = |id: &str, name: &str, structure: &str| AccountEntry {
        id: id.to_string(),
        name: Some(name.to_string()),
        structure: structure.to_string(),
        profile_picture_url: None,
    };
    AccountsCheck {
        accounts: vec![
            entry("workspace-original", "Original", "personal"),
            entry("workspace-new", "New workspace", "workspace"),
        ],
        account_ordering: vec!["workspace-original".to_string(), "workspace-new".to_string()],
        default_account_id: Some("workspace-original".to_string()),
    }
}

#[test]
fn switch_exchanges_workspace_token_and_updates_active_auth() {
    let mut store = store(Some(initial_auth()), Vec::new());
    let id = list(&mut store).sessions[0].session_id.clone();
    let stored = open(&mut store).expect("a list");
    let pending = store
        .begin_workspace_switch(stored, &anyone(), &id, "workspace-new")
        .expect("a switch");
    assert_eq!(check_workspace(&check(), &anyone(), "workspace-new"), Ok(()));
    let token = WorkspaceToken {
        access_token: "access-token-new".to_string(),
        refresh_token: Some("refresh-token-new".to_string()),
    };
    let response =
        store.finish_workspace_switch(pending, &anyone(), &check(), &token, 77, NOW).expect("a switch");
    let workspace = |id: &str, name: &str, kind: WorkspaceKind| AccountSessionWorkspace {
        account_id: id.to_string(),
        name: Some(name.to_string()),
        image_url: None,
        kind: Some(kind),
    };
    assert_eq!(
        response,
        AccountSessionsResponse {
            active_session_id: Some(id.clone()),
            sessions: vec![reported(
                &id,
                "workspace-new",
                vec![
                    workspace("workspace-original", "Original", WorkspaceKind::Personal),
                    workspace("workspace-new", "New workspace", WorkspaceKind::Workspace),
                ]
            )],
        }
    );
    let active = store.load_active_auth().expect("active auth");
    assert_eq!(active.last_refresh, Some(77));
    let tokens = active.tokens.expect("managed ChatGPT tokens");
    assert_eq!(tokens.access_token, "access-token-new");
    assert_eq!(tokens.refresh_token, "refresh-token-new");
    assert_eq!(tokens.account_id.as_deref(), Some("workspace-new"));
}

#[test]
fn a_workspace_needs_tokens_to_exchange() {
    let mut store = store(Some(initial_auth()), Vec::new());
    let id = list(&mut store).sessions[0].session_id.clone();
    let stored = open(&mut store).expect("a list");
    let pending = store
        .begin_workspace_switch(stored, &anyone(), &id, "workspace-new")
        .expect("a switch");
    store.slots.remove(&id);
    let token = WorkspaceToken { access_token: "new".to_string(), refresh_token: None };
    assert_eq!(
        store.finish_workspace_switch(pending, &anyone(), &check(), &token, 77, NOW).unwrap_err().message,
        "Saved ChatGPT account session has no tokens"
    );
}

#[test]
fn credentials_in_memory_stay_in_use_beside_another_workspace() {
    let handed = AuthDotJson {
        auth_mode: Some(AuthMode::ChatgptAuthTokens),
        ..with_token(&initial_auth(), "handed")
    };
    let mut store = store(Some(initial_auth()), Vec::new());
    let id = list(&mut store).sessions[0].session_id.clone();
    store.ephemeral = Some(handed.copy());
    let stored = open(&mut store).expect("a list");
    let pending = store
        .begin_workspace_switch(stored, &anyone(), &id, "workspace-new")
        .expect("a switch");
    let token = WorkspaceToken { access_token: "new".to_string(), refresh_token: None };
    let response =
        store.finish_workspace_switch(pending, &anyone(), &check(), &token, 77, NOW).expect("a switch");
    assert_eq!(response.active_session_id, Some(id.clone()));
    assert_eq!(store.load_active_auth(), Some(handed));
    assert_eq!(store.configured, store.load_session_auth(&id));
    let saved = store.configured.expect("credentials").tokens.expect("tokens");
    assert_eq!(saved.access_token, "new");
}

#[test]
fn unusable_workspaces_are_not_switched_to() {
    let bound = LoginPolicy { workspaces: Some(vec!["workspace-original".to_string()]), ..anyone() };
    for (policy, workspace, part) in [
        (anyone(), "elsewhere", "is not available to this ChatGPT account"),
        (bound, "workspace-new", "is not allowed by the active authentication policy"),
    ] {
        let mut store = store(Some(initial_auth()), Vec::new());
        let id = list(&mut store).sessions[0].session_id.clone();
        let stored = open(&mut store).expect("a list");
        let pending =
            store.begin_workspace_switch(stored, &policy, &id, workspace).expect("a switch");
        let effects = store.effects.len();
        let token = WorkspaceToken { access_token: "new".to_string(), refresh_token: None };
        let error = store
            .finish_workspace_switch(pending, &policy, &check(), &token, 77, NOW)
            .unwrap_err();
        assert_eq!(error.message, format!("Workspace {workspace:?} {part}"));
        assert_eq!(store.effects.len(), effects);
        assert_eq!(store.load_active_auth(), Some(initial_auth()));
    }
}

#[test]
fn session_ids_that_stay_below_their_directory_are_read() {
    for (id, valid) in [
        ("a.b", true),
        ("a/b", true),
        ("a/../b", true),
        ("..a", true),
        ("..", false),
        ("../outside", false),
        ("a/../../outside", false),
        ("/outside", false),
    ] {
        let auth = key_auth("original");
        let mut store = store(Some(auth.copy()), Vec::new());
        store.index = IndexFile::Stored(StoredAccountSessions {
            sessions: vec![session_with_id(&auth, id.to_string(), NOW)],
            ..StoredAccountSessions::empty(true)
        });
        match open(&mut store) {
            Ok(stored) => assert!(valid && stored.sessions[0].session_id == id, "{id}"),
            Err(error) => {
                assert!(!valid, "{id}");
                assert_eq!(error.kind, ErrorKind::InvalidData);
                assert_eq!(store.load_active_auth(), Some(auth));
            }
        }
    }
}

const FIRST_ID: &str = "00000000-0000-7000-8000-000000000001";
const SECOND_ID: &str = "00000000-0000-7000-8000-000000000002";

fn identity(name: &str) -> AuthDotJson {
    let email = format!("{name}@example.com");
    let mut auth = chatgpt_auth(&format!("user-{name}"), &email, &format!("access-{name}"));
    auth.openai_api_key = Some(format!("companion-{name}"));
    let tokens = auth.tokens.as_mut().unwrap();
    tokens.refresh_token = format!("refresh-{name}");
    tokens.account_id = Some(format!("workspace-{name}"));
    auth
}

fn used(percent: i32) -> RateLimitSnapshot {
    let window = |minutes: i64, resets_at: i64| RateLimitWindow {
        used_percent: percent,
        window_duration_mins: Some(minutes),
        resets_at: Some(resets_at),
    };
    RateLimitSnapshot {
        limit_id: Some("codex".to_string()),
        limit_name: None,
        primary: Some(window(300, 2_000_000_000)),
        secondary: Some(window(10_080, 2_000_500_000)),
        plan_type: Some(PlanType { name: "pro".to_string(), label: "Pro".to_string() }),
        rest: "{}".to_string(),
    }
}

fn with_usage(response: AccountSessionsResponse) -> AccountSessionsResponse {
    let AccountSessionsResponse { active_session_id, sessions } = response;
    let sessions = sessions
        .into_iter()
        .map(|session| {
            let percent = if session.session_id == FIRST_ID { 100 } else { 25 };
            with_account_rate_limits(session, Some(used(percent)))
        })
        .collect();
    AccountSessionsResponse { active_session_id, sessions }
}

#[test]
fn canonical_accounts_supply_usage_and_automatic_rotation_without_named_profiles() {
    let mut store = store(Some(identity("first")), Vec::new());
    let mut sessions = Vec::new();
    for (id, name) in [(FIRST_ID, "first"), (SECOND_ID, "second")] {
        store.slots.put(id, identity(name));
        sessions.push(session_with_id(&identity(name), id.to_string(), 1));
    }
    store.index = IndexFile::Stored(StoredAccountSessions {
        active_session_id: Some(FIRST_ID.to_string()),
        sessions,
        ..StoredAccountSessions::empty(false)
    });
    let response = with_usage(list(&mut store));
    let shown: Vec<_> = response
        .sessions
        .iter()
        .map(|session| {
            let limits = session.rate_limits.as_ref().unwrap();
            (
                session.session_id.as_str(),
                session.is_active,
                limits.primary.as_ref().map(|window| window.used_percent),
                limits.secondary.as_ref().and_then(|window| window.resets_at),
            )
        })
        .collect();
    assert_eq!(
        shown,
        vec![
            (FIRST_ID, true, Some(100), Some(2_000_500_000)),
            (SECOND_ID, false, Some(25), Some(2_000_500_000)),
        ]
    );
    let profiles: Vec<_> = response.sessions.into_iter().map(account_profile).collect();
    let names: Vec<&str> = profiles.iter().map(|profile| profile.name.as_str()).collect();
    assert_eq!(names, vec![FIRST_ID, SECOND_ID]);
    let next = activate_next_auth_profile_response(&profiles).expect("an account");
    let rotated = activated_profile(switch(&mut store, &next).expect("a switch")).unwrap();
    assert_eq!((rotated.name.as_str(), rotated.active), (SECOND_ID, true));
    let active = store.load_active_auth().expect("credentials");
    assert_eq!(
        active.tokens.unwrap().id_token.email.as_deref(),
        Some("second@example.com")
    );
    assert!(store.legacy.is_empty());
}

#[test]
fn accounts_without_credentials_are_not_switched_to() {
    let mut store = store(Some(initial_auth()), Vec::new());
    let id = list(&mut store).sessions[0].session_id.clone();
    store.configured = None;
    store.slots.remove(&id);
    let error = switch(&mut store, &id).unwrap_err();
    assert_eq!(error.kind, ErrorKind::Other);
    assert_eq!(error.message, "Saved ChatGPT account session has no auth");
}

#[test]
fn workspaces_that_may_not_be_used_are_refused() {
    assert!(check_workspace(&check(), &anyone(), "elsewhere").is_err());
    let bound = LoginPolicy { workspaces: Some(vec!["workspace-original".to_string()]), ..anyone() };
    assert!(check_workspace(&check(), &bound, "workspace-new").is_err());
    assert_eq!(check_workspace(&check(), &bound, "workspace-original"), Ok(()));
}

#[test]
fn email_switch_and_logout_use_the_same_saved_accounts() {
    let first = chatgpt_auth("user-1", "first@example.com", "first");
    let second = chatgpt_auth("user-2", "second@example.com", "second");
    let mut store = store(Some(first), vec![second]);
    let listed = list(&mut store);
    let second_id = listed
        .sessions
        .iter()
        .find(|session| !session.is_active)
        .map(|session| session.session_id.clone())
        .unwrap();
    let first_id = listed.active_session_id.clone().unwrap();
    let switched = switch(&mut store, "SECOND@example.com").expect("a switch");
    assert_eq!(switched.active_session_id.as_deref(), Some(second_id.as_str()));
    let remaining = logout(&mut store, "first@example.com").expect("a logout");
    let ids: Vec<&str> =
        remaining.sessions.iter().map(|session| session.session_id.as_str()).collect();
    assert_eq!(ids, vec![second_id.as_str()]);
    assert_eq!(store.load_session_auth(&first_id), None);
    assert_eq!(
        switch(&mut store, "first@example.com").unwrap_err().kind,
        ErrorKind::NotFound
    );
}

#[test]
fn logging_out_the_current_account_turns_to_another() {
    let first = chatgpt_auth("user-1", "first@example.com", "first");
    let second = chatgpt_auth("user-2", "second@example.com", "second");
    let mut store = store(Some(first), vec![second.copy()]);
    list(&mut store);
    let remaining = logout(&mut store, "first@example.com").expect("a logout");
    assert_eq!(remaining.sessions.len(), 1);
    assert!(remaining.sessions[0].is_active);
    assert_eq!(store.load_active_auth(), Some(second));
    let nothing = logout(&mut store, "second@example.com").expect("a logout");
    assert_eq!(nothing, nobody());
    assert_eq!(store.load_active_auth(), None);
}

#[test]
fn a_saved_login_keeps_the_account_in_use() {
    let first = chatgpt_auth("user-1", "first@example.com", "first");
    let second = chatgpt_auth("user-2", "second@example.com", "second");
    let mut store = store(Some(first.copy()), Vec::new());
    let before = list(&mut store);
    let stored = open(&mut store).expect("a list");
    let kept = store.add_auth(
        stored,
        &second,
        "second-id",
        AccountSessionActivation::PreserveCurrent,
        NOW,
    );
    assert_eq!(kept.active_session_id, before.active_session_id);
    assert_eq!(store.load_active_auth(), Some(first));
    assert_eq!(store.load_session_auth("second-id"), Some(second.copy()));
    let stored = open(&mut store).expect("a list");
    let fresh = with_token(&second, "second-again");
    let activated = store.add_auth(
        stored,
        &fresh,
        "unused-id",
        AccountSessionActivation::Activate,
        NOW,
    );
    assert_eq!(activated.active_session_id.as_deref(), Some("second-id"));
    assert_eq!(activated.sessions.len(), 2);
    assert_eq!(store.load_active_auth(), Some(fresh));
}

#[test]
fn only_managed_logins_are_added() {
    let managed = chatgpt_auth("user-1", "first@example.com", "first");
    let with_key = store(Some(key_auth("api-key")), Vec::new());
    assert!(with_key.begin_add(Some(AuthMode::ApiKey)).is_err());
    let nothing = store(None, Vec::new());
    assert!(nothing.begin_add(None).is_err());
    let mut kept = store(Some(managed.copy()), Vec::new());
    assert_eq!(kept.begin_add(Some(AuthMode::Chatgpt)), Ok(managed));
    assert_eq!(kept.deactivate(), Ok(()));
    kept.sync_active_auth(&StoredAccountSessions::empty(true));
    assert!(kept.read_unlocked().unwrap().unwrap().sessions.is_empty());
}

#[test]
fn metadata_names_the_workspaces_of_an_added_account() {
    let managed = initial_auth();
    let mut store = store(Some(managed.copy()), Vec::new());
    let metadata = Some(WorkspaceMetadata {
        token_account_id: Some("workspace-original".to_string()),
        check: check(),
    });
    let added = store
        .add(StoredAccountSessions::empty(true), &managed, "id-1", &metadata, true, NOW)
        .expect("an account");
    assert_eq!(added.sessions[0].workspaces.len(), 2);
    assert_eq!(
        added.sessions[0].workspaces[1].name.as_deref(),
        Some("New workspace")
    );
}

#[test]
fn selectors_are_ids_or_addresses() {
    let first = chatgpt_auth("user-1", "first@example.com", "first");
    let second = chatgpt_auth("user-2", "second@example.com", "second");
    let sessions = vec![
        session_with_id(&first, "id-1".to_string(), NOW),
        session_with_id(&second, "id-2".to_string(), NOW),
    ];
    let fresh = session_from_auth_json(&first, NOW);
    assert_eq!(fresh.session_id.as_bytes()[14], b'7');
    assert_eq!(fresh.session_id.len(), 36);
    assert_eq!(fresh.email, sessions[0].email);
    assert_eq!(fresh.workspaces, sessions[0].workspaces);
    assert_eq!(resolve_session_id(&sessions, "id-2"), Ok(1));
    assert_eq!(resolve_session_id(&sessions, "First@Example.com"), Ok(0));
    assert_eq!(
        resolve_session_id(&sessions, "third").unwrap_err().kind,
        ErrorKind::NotFound
    );
}

#[test]
fn readers_wait_only_for_readers_of_the_same_account() {
    let mut readers = SessionReaders::new();
    assert!(readers.is_empty());
    let first = readers.enter("id-1");
    let waiting = readers.enter("id-1");
    let last = readers.enter("id-1");
    let other = readers.enter("id-2");
    assert!(readers.may_read(first));
    assert!(readers.may_read(other));
    assert!(!readers.may_read(waiting));
    readers.leave(waiting);
    assert!(!readers.may_read(waiting));
    assert!(!readers.may_read(last));
    readers.leave(first);
    assert!(readers.may_read(last));
    readers.leave(last);
    readers.leave(other);
    assert!(readers.is_empty());
}

#[test]
fn concurrent_readers_snapshot_after_previous_refresh_is_committed() {
    let original = chatgpt_auth("user-1", "saved@example.com", "original");
    let mut store = store(Some(original), Vec::new());
    let id = list(&mut store).sessions[0].session_id.clone();
    let mut readers = SessionReaders::new();
    let first_reader = readers.enter(&id);
    assert!(readers.may_read(first_reader));
    let stored = open(&mut store).expect("a list");
    let first = store.snapshot_session_credentials(&stored, &id).expect("credentials");
    let refreshed = with_token(&first.auth, "rotated");
    let second_reader = readers.enter(&id);
    assert!(!readers.may_read(second_reader));
    assert_eq!(isolated_store(&first.auth), IsolatedStore::File);
    assert_eq!(
        changed_credentials(&first.auth, Some(refreshed.copy())),
        Ok(Some(refreshed.copy()))
    );
    assert_eq!(changed_credentials(&first.auth, Some(first.auth.copy())), Ok(None));
    let stored = open(&mut store).expect("a list");
    assert!(store.persist_session_credentials_if_unchanged(stored, &first, &refreshed));
    assert!(!readers.may_read(second_reader));
    readers.leave(first_reader);
    assert!(readers.may_read(second_reader));
    let stored = open(&mut store).expect("a list");
    let second = store.snapshot_session_credentials(&stored, &id).expect("credentials");
    assert_eq!(second.auth, refreshed);
    assert_eq!(store.load_active_auth(), Some(refreshed));
}
