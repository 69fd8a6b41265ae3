use codex_addons::accounts::auth_profiles::PlanCatalog;
use codex_addons::accounts::backend::CurrentAuth;
use codex_addons::accounts::login::{
    account_updated_after_login, browser_login_completed, current_account_and_auth_mode,
    current_account_updated_notification, delete_auth_profile_response, device_login_completed,
    ensure_bedrock_login_allowed, get_account_response, get_auth_status_response,
    logged_out_notification, login_account_session, login_amazon_bedrock_v2, login_api_key_common,
    login_chatgpt_common, login_chatgpt_device_code_response,
    login_chatgpt_device_code_start_error, login_chatgpt_response, login_succeeded, login_v2,
    login_works, logout_common, logout_revokes, refresh_token_outcome, refreshes_token,
    save_auth_profile_response, staged_credentials, AccountLoginCompletedNotification, ActiveLogin,
    AuthSituation, BedrockLoginCredentials, BrowserLoginOutcome, CancelLoginAccountStatus,
    CancelSignal, ChatgptLoginDestination, CredentialKind, DesktopOnboardingEntrypoint, DeviceCode,
    DeviceLoginOutcome, FinishStep, ImmediateLogin, LoginAccountParams, LoginAccountResponse,
    LoginAppBrand, LoginRoute, LoginSlot, LoginSuccessPage, LoginWork, ManagedLoginAttempt,
    RefreshTokenRequestOutcome, StatusAuth,
};
use codex_addons::accounts::model::{
    Account, AuthDotJson, AuthMode, ErrorKind, PlanType, StoreError,
};
use codex_addons::accounts::operations::{AccountSessionActivation, LoginPolicy};
use codex_addons::accounts::rpc::RpcErrorKind;

fn situation() -> AuthSituation {
    AuthSituation {
        workload_identity_selected: false,
        external_chatgpt_auth_active: false,
        policy: LoginPolicy { api_allowed: true, chatgpt_allowed: true, workspaces: None },
    }
}

fn browser(hosted: bool, app_brand: Option<LoginAppBrand>) -> LoginAccountParams {
    LoginAccountParams::Chatgpt {
        app_brand,
        codex_streamlined_login: true,
        use_hosted_login_success_page: hosted,
    }
}

fn key_auth() -> AuthDotJson {
    AuthDotJson {
        auth_mode: None,
        openai_api_key: Some("key".to_string()),
        tokens: None,
        last_refresh: None,
        agent_identity: None,
        personal_access_token: None,
        bedrock_api_key: None,
        bedrock_access_keys: None,
    }
}

#[test]
fn logins_take_the_way_that_is_asked_for() {
    assert_eq!(
        login_v2(&situation(), browser(true, None)),
        Ok(LoginRoute::Browser {
            codex_streamlined_login: true,
            success_page: LoginSuccessPage::Hosted(LoginAppBrand::Codex),
        })
    );
    assert_eq!(
        login_v2(&situation(), browser(true, Some(LoginAppBrand::Chatgpt))),
        Ok(LoginRoute::Browser {
            codex_streamlined_login: true,
            success_page: LoginSuccessPage::Hosted(LoginAppBrand::Chatgpt),
        })
    );
    assert_eq!(
        login_v2(&situation(), browser(false, Some(LoginAppBrand::Chatgpt))),
        Ok(LoginRoute::Browser {
            codex_streamlined_login: true,
            success_page: LoginSuccessPage::Local,
        })
    );
    assert_eq!(
        login_v2(
            &situation(),
            LoginAccountParams::AmazonBedrock {
                api_key: "key".to_string(),
                region: "us-east-1".to_string()
            }
        ),
        Ok(LoginRoute::Bedrock {
            credentials: BedrockLoginCredentials::ApiKey("key".to_string()),
            region: "us-east-1".to_string(),
        })
    );
    let hosted = AuthSituation { workload_identity_selected: true, ..situation() };
    assert_eq!(
        login_v2(&hosted, LoginAccountParams::ChatgptDeviceCode).unwrap_err().message,
        "Configured external authentication is owned by the app-server host and cannot be changed through account RPCs."
    );
    assert!(logout_common(&hosted).is_err());
    assert_eq!(logout_common(&situation()), Ok(()));
}

#[test]
fn only_managed_logins_are_saved_beside_others() {
    assert_eq!(login_account_session(&browser(false, None)), Ok(()));
    assert_eq!(login_account_session(&LoginAccountParams::ChatgptDeviceCode), Ok(()));
    assert_eq!(
        login_account_session(&LoginAccountParams::ApiKey { api_key: "key".to_string() })
            .unwrap_err()
            .message,
        "account sessions support only Codex-managed ChatGPT login"
    );
}

#[test]
fn logins_that_are_not_allowed_are_refused() {
    let external = AuthSituation { external_chatgpt_auth_active: true, ..situation() };
    let only_chatgpt = AuthSituation {
        policy: LoginPolicy { api_allowed: false, chatgpt_allowed: true, workspaces: None },
        ..situation()
    };
    let only_keys = AuthSituation {
        policy: LoginPolicy { api_allowed: true, chatgpt_allowed: false, workspaces: None },
        ..situation()
    };
    assert!(login_api_key_common(&external).unwrap_err().message.starts_with("External auth"));
    assert_eq!(
        login_api_key_common(&only_chatgpt).unwrap_err().message,
        "API key login is disabled. Use ChatGPT login instead."
    );
    assert_eq!(login_api_key_common(&only_keys), Ok(()));
    assert_eq!(
        login_chatgpt_common(&only_keys, None).unwrap_err().message,
        "ChatGPT login is disabled. Use API key login instead."
    );
    assert!(login_chatgpt_common(&external, None).is_err());
    let issuer = Some("https://issuer.example.com".to_string());
    assert_eq!(
        login_chatgpt_common(&situation(), issuer),
        Ok(Some("https://issuer.example.com".to_string()))
    );
    assert_eq!(login_chatgpt_common(&situation(), Some("  ".to_string())), Ok(None));
    assert_eq!(
        ensure_bedrock_login_allowed(&only_chatgpt).unwrap_err().message,
        "Amazon Bedrock login is disabled. Use ChatGPT login instead."
    );
    assert_eq!(ensure_bedrock_login_allowed(&situation()), Ok(()));
}

fn regions() -> Vec<String> {
    vec!["us-east-1".to_string(), "eu-west-1".to_string()]
}

fn access_keys(id: &str, secret: &str, token: Option<&str>) -> BedrockLoginCredentials {
    BedrockLoginCredentials::AccessKeys {
        access_key_id: id.to_string(),
        secret_access_key: secret.to_string(),
        session_token: token.map(str::to_string),
    }
}

#[test]
fn bedrock_credentials_are_checked_and_trimmed() {
    let prepared = login_amazon_bedrock_v2(
        &situation(),
        access_keys(" id ", "secret\n", Some("  ")),
        " us-east-1 ",
        &regions(),
    )
    .expect("a login");
    assert_eq!(prepared.region, "us-east-1");
    assert_eq!(prepared.provider_region.as_deref(), Some("us-east-1"));
    assert_eq!(prepared.credentials, access_keys("id", "secret", None));

    let key = BedrockLoginCredentials::ApiKey(" key ".to_string());
    let prepared =
        login_amazon_bedrock_v2(&situation(), key, "eu-west-1", &regions()).expect("a login");
    assert_eq!(prepared.provider_region, None);
    assert_eq!(prepared.credentials, BedrockLoginCredentials::ApiKey("key".to_string()));

    let refused = |credentials: BedrockLoginCredentials, region: &str| {
        login_amazon_bedrock_v2(&situation(), credentials, region, &regions())
            .unwrap_err()
            .message
    };
    assert_eq!(
        refused(BedrockLoginCredentials::ApiKey(" ".to_string()), "us-east-1"),
        "Amazon Bedrock API key must not be empty."
    );
    assert_eq!(
        refused(access_keys("id", "", None), "us-east-1"),
        "AWS access key ID and secret access key must not be empty."
    );
    assert_eq!(
        refused(access_keys("id", "secret", None), " mars "),
        "Amazon Bedrock does not support region `mars`"
    );
}

fn done() -> AccountLoginCompletedNotification {
    AccountLoginCompletedNotification {
        login_id: Some("id".to_string()),
        success: true,
        error: None,
        onboarding_entrypoint: None,
    }
}

#[test]
fn a_login_is_canceled_with_the_id_that_was_answered() {
    let mut slot = LoginSlot::new();
    let attempt = ManagedLoginAttempt::stage();
    let started = login_chatgpt_response(
        &mut slot,
        &attempt,
        Ok("https://auth.example.com/authorize".to_string()),
    )
    .expect("a login");
    assert_eq!(started.ended, None);
    let LoginAccountResponse::Chatgpt { login_id, auth_url } = started.response else {
        panic!("a login in the browser");
    };
    assert_eq!(auth_url, "https://auth.example.com/authorize");
    assert_eq!(login_id.len(), 36);
    assert_eq!(
        slot.cancel_login_response(&login_id.to_uppercase()),
        Ok((
            CancelLoginAccountStatus::Canceled,
            Some(CancelSignal::ShutDownServer(attempt.login_id))
        ))
    );
    assert_eq!(
        slot.cancel_login_response(&login_id),
        Ok((CancelLoginAccountStatus::NotFound, None))
    );
    assert_eq!(
        slot.cancel_login_response("first").unwrap_err().message,
        "invalid login id: first"
    );
    let mut completed = done();
    assert_eq!(
        attempt.begin_finish(&slot, ChatgptLoginDestination::Activate, &mut completed),
        FinishStep::Superseded
    );
    assert!(!completed.success);
    assert_eq!(completed.error.as_deref(), Some("Login was not completed"));
}

#[test]
fn a_login_takes_the_place_of_the_one_before() {
    let mut slot = LoginSlot::new();
    let first = ManagedLoginAttempt { login_id: 1 };
    let second = ManagedLoginAttempt { login_id: 2 };
    let code = || DeviceCode {
        verification_url: "https://auth.example.com/codex/device".to_string(),
        user_code: "ABCD-EFGH".to_string(),
    };
    login_chatgpt_response(&mut slot, &first, Ok("url".to_string())).expect("a login");
    let started =
        login_chatgpt_device_code_response(&mut slot, &second, Ok(code())).expect("a login");
    assert_eq!(started.ended, Some(CancelSignal::ShutDownServer(1)));
    assert_eq!(
        started.response,
        LoginAccountResponse::ChatgptDeviceCode {
            login_id: "00000000-0000-0000-0000-000000000002".to_string(),
            verification_url: "https://auth.example.com/codex/device".to_string(),
            user_code: "ABCD-EFGH".to_string(),
        }
    );
    let mut completed = done();
    assert_eq!(
        first.begin_finish(&slot, ChatgptLoginDestination::Activate, &mut completed),
        FinishStep::Superseded
    );
    assert_eq!(slot.active, Some(ActiveLogin::DeviceCode { login_id: 2 }));
    assert_eq!(ActiveLogin::DeviceCode { login_id: 2 }.login_id(), 2);
    assert_eq!(
        ActiveLogin::DeviceCode { login_id: 2 }.cancel(),
        CancelSignal::CancelWait(2)
    );

    let mut completed = done();
    assert_eq!(
        second.begin_finish(&slot, ChatgptLoginDestination::AddWithoutSwitching, &mut completed),
        FinishStep::Save(AccountSessionActivation::PreserveCurrent)
    );
    assert_eq!(second.end_finish(&mut slot, Ok(()), &mut completed), Some(CancelSignal::CancelWait(2)));
    assert!(completed.success);
    assert_eq!(slot.active, None);
}

#[test]
fn logins_that_cannot_be_started_or_saved_are_reported() {
    let mut slot = LoginSlot::new();
    let attempt = ManagedLoginAttempt { login_id: 5 };
    let error =
        login_chatgpt_response(&mut slot, &attempt, Err("port in use".to_string())).unwrap_err();
    assert_eq!(error.message, "failed to start login server: port in use");
    let failure = |kind: ErrorKind| StoreError { kind, message: "no device login".to_string() };
    let refused = login_chatgpt_device_code_start_error(failure(ErrorKind::NotFound));
    assert_eq!(refused.kind, RpcErrorKind::InvalidRequest);
    assert_eq!(refused.message, "no device login");
    let failed = login_chatgpt_device_code_start_error(failure(ErrorKind::Other));
    assert_eq!(failed.message, "failed to request device code: no device login");

    slot.replace(ActiveLogin::Browser { login_id: 5 });
    let mut completed = done();
    attempt.end_finish(&mut slot, Err(failure(ErrorKind::Other)), &mut completed);
    assert_eq!(
        completed.error.as_deref(),
        Some("failed to save account session: no device login")
    );
    assert_eq!(
        staged_credentials(None).unwrap_err().message,
        "Login credentials were not saved"
    );
    assert_eq!(staged_credentials(Some(key_auth())), Ok(key_auth()));
}

#[test]
fn ends_of_logins_are_reported() {
    let spread = browser_login_completed(
        0x0123_4567_89ab_cdef_0011_2233_4455_66ff,
        BrowserLoginOutcome::Done(None),
    );
    assert_eq!(
        spread.login_id.as_deref(),
        Some("01234567-89ab-cdef-0011-2233445566ff")
    );
    let completed = browser_login_completed(
        7,
        BrowserLoginOutcome::Done(Some(DesktopOnboardingEntrypoint::LifeSciences)),
    );
    assert!(completed.success);
    assert_eq!(
        completed.login_id.as_deref(),
        Some("00000000-0000-0000-0000-000000000007")
    );
    assert_eq!(
        completed.onboarding_entrypoint,
        Some(DesktopOnboardingEntrypoint::LifeSciences)
    );
    assert_eq!(
        browser_login_completed(7, BrowserLoginOutcome::Failed("x".to_string())).error.as_deref(),
        Some("Login server error: x")
    );
    assert_eq!(
        browser_login_completed(7, BrowserLoginOutcome::TimedOut).error.as_deref(),
        Some("Login timed out")
    );
    assert_eq!(
        device_login_completed(7, DeviceLoginOutcome::Canceled).error.as_deref(),
        Some("Login was not completed")
    );
    assert_eq!(
        device_login_completed(7, DeviceLoginOutcome::Failed("expired".to_string()))
            .error
            .as_deref(),
        Some("expired")
    );
    assert!(device_login_completed(7, DeviceLoginOutcome::Done).success);
    assert_eq!(login_succeeded().login_id, None);
}

#[test]
fn tokens_from_outside_are_bound_to_workspaces() {
    let bound = AuthSituation {
        policy: LoginPolicy {
            api_allowed: true,
            chatgpt_allowed: true,
            workspaces: Some(vec!["one".to_string(), "two \"2\"".to_string()]),
        },
        ..situation()
    };
    let mut slot = LoginSlot { active: Some(ActiveLogin::Browser { login_id: 3 }) };
    let (error, signal) = slot.login_chatgpt_auth_tokens_response(&bound, "three").unwrap_err();
    assert_eq!(
        error.message,
        "External auth must use one of workspace(s) [\"one\", \"two \\\"2\\\"\"], but received \"three\"."
    );
    assert_eq!(signal, Some(CancelSignal::ShutDownServer(3)));
    assert_eq!(slot.login_chatgpt_auth_tokens_response(&bound, "one"), Ok(None));
    let keys = AuthSituation {
        policy: LoginPolicy { api_allowed: true, chatgpt_allowed: false, workspaces: None },
        ..situation()
    };
    let (error, signal) = slot.login_chatgpt_auth_tokens_response(&keys, "one").unwrap_err();
    assert_eq!(
        error.message,
        "External ChatGPT auth is disabled. Use API key login instead."
    );
    assert_eq!(signal, None);
}

#[test]
fn credentials_are_saved_once_no_account_is_in_use() {
    for login in [ImmediateLogin::ApiKey, ImmediateLogin::Bedrock, ImmediateLogin::AuthTokens] {
        let works = login_works(login);
        let at = |work: LoginWork| works.iter().position(|step| *step == work).unwrap();
        assert!(at(LoginWork::DeactivateAccounts) < at(LoginWork::SaveCredentials));
        assert_eq!(works.last(), Some(&LoginWork::Reload));
    }
}

fn pro() -> PlanType {
    PlanType { name: "pro".to_string(), label: "Pro".to_string() }
}

#[test]
fn changes_of_the_account_are_reported() {
    let plans = PlanCatalog { known: vec![pro()], unknown: pro() };
    let current = CurrentAuth {
        is_api_key: false,
        is_bedrock: false,
        is_chatgpt: true,
        email: Some("a@example.com".to_string()),
        plan_type: Some(pro()),
    };
    let cached = Some((current, AuthMode::Chatgpt));
    assert_eq!(
        current_account_and_auth_mode(&Ok(Some(key_auth())), &plans, &cached),
        (Some(Account::ApiKey), Some(AuthMode::ApiKey))
    );
    let (account, mode) = current_account_and_auth_mode(&Ok(None), &plans, &cached);
    assert_eq!(mode, Some(AuthMode::Chatgpt));
    let updated = current_account_updated_notification(account, mode);
    assert_eq!(updated.plan_type, Some(pro()));
    assert_eq!(account_updated_after_login(&cached), updated);
    let gone = logged_out_notification(None);
    assert_eq!((gone.auth_mode, gone.plan_type, gone.current_account), (None, None, None));
    assert!(logout_revokes(false));
    assert!(!logout_revokes(true));
}

fn status(kind: CredentialKind, token: Option<&str>) -> Option<StatusAuth> {
    Some(StatusAuth {
        auth_mode: AuthMode::Chatgpt,
        kind,
        permanent_refresh_failure: false,
        token: token.map(str::to_string),
    })
}

#[test]
fn tokens_are_reported_only_where_they_may_leave() {
    let read = |auth: Option<StatusAuth>, asked: Option<bool>| {
        get_auth_status_response(&situation(), asked, true, auth)
    };
    let shown = read(status(CredentialKind::Token, Some("t")), Some(true));
    assert_eq!(shown.auth_token.as_deref(), Some("t"));
    assert_eq!(shown.auth_method, Some(AuthMode::Chatgpt));
    assert_eq!(read(status(CredentialKind::Token, Some("t")), None).auth_token, None);
    assert_eq!(read(status(CredentialKind::Token, Some("")), None).auth_method, None);
    assert_eq!(read(status(CredentialKind::Token, None), None).auth_method, None);
    let kept = read(status(CredentialKind::AgentIdentity, Some("t")), Some(true));
    assert_eq!(kept.auth_token, None);
    assert_eq!(kept.auth_method, Some(AuthMode::Chatgpt));
    let unneeded =
        get_auth_status_response(&situation(), Some(true), false, status(CredentialKind::Token, Some("t")));
    assert_eq!(unneeded.auth_method, None);
    assert_eq!(unneeded.requires_openai_auth, Some(false));
    let hosted = AuthSituation { workload_identity_selected: true, ..situation() };
    let owned =
        get_auth_status_response(&hosted, Some(true), true, status(CredentialKind::Token, Some("t")));
    assert_eq!(owned.auth_token, None);
}

#[test]
fn tokens_from_outside_are_not_refreshed() {
    let external = AuthSituation { external_chatgpt_auth_active: true, ..situation() };
    assert!(refreshes_token(&situation(), true));
    assert!(!refreshes_token(&situation(), false));
    assert!(!refreshes_token(&external, true));
    assert_eq!(
        refresh_token_outcome(None),
        RefreshTokenRequestOutcome::NotAttemptedOrSucceeded
    );
    assert_eq!(
        refresh_token_outcome(Some(true)),
        RefreshTokenRequestOutcome::FailedPermanently
    );
    assert_eq!(
        refresh_token_outcome(Some(false)),
        RefreshTokenRequestOutcome::FailedTransiently
    );
    let account = get_account_response(Ok((Some(Account::ApiKey), true))).expect("an account");
    assert_eq!(account.account, Some(Account::ApiKey));
    assert!(account.requires_openai_auth);
    assert_eq!(
        get_account_response(Err("no provider".to_string())).unwrap_err().kind,
        RpcErrorKind::InvalidRequest
    );
}

#[test]
fn named_profiles_are_gone() {
    assert!(save_auth_profile_response().message.starts_with("Named auth profiles have been removed."));
    assert!(delete_auth_profile_response().message.ends_with("with the saved account ID or email."));
}
