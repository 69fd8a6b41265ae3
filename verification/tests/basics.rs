use codex_addons::accounts::auth_profiles::{
    account_from_auth, account_plan_type_from_auth, auth_mode_from_auth, auth_profile_home,
    auth_profiles_dir, is_valid_profile_name, load_auth_profile, validate_profile_name,
    PlanCatalog,
};
use codex_addons::accounts::model::{Account, AuthDotJson, AuthMode, ErrorKind, PlanType};
use codex_addons::ids::{fresh_run_id, fresh_session_id, fresh_session_ids};
use codex_addons::paths::{is_valid_component, PathBase, StorePath};
use codex_addons::text::{
    byte_len, char_is_ascii_alphabetic, char_is_ascii_digit, char_is_whitespace, decimal_of,
    eq_ignore_ascii_case, is_blank, join, joined, joined3, repeat_char, same_text, str_before,
    trimmed, trimmed_end,
};

#[test]
fn characters_are_told_apart_as_std_tells_them() {
    for c in '\0'..=char::MAX {
        assert_eq!(char_is_whitespace(c), c.is_whitespace(), "{c:?}");
        assert_eq!(char_is_ascii_digit(c), c.is_ascii_digit(), "{c:?}");
        assert_eq!(char_is_ascii_alphabetic(c), c.is_ascii_alphabetic(), "{c:?}");
    }
}

#[test]
fn texts_are_trimmed_as_std_trims_them() {
    for text in ["", " ", " a b\t", "\u{a0}ä\u{2003}", "x", "\u{85}\n"] {
        assert_eq!(trimmed(text), text.trim());
        assert_eq!(trimmed_end(text), text.trim_end());
        assert_eq!(is_blank(text), text.trim().is_empty());
        assert_eq!(byte_len(text), text.len());
    }
}

#[test]
fn texts_are_compared_as_std_compares_them() {
    let texts = ["", "a", "A", "ab", "ä", "Ä", "aB", "zz", "😀"];
    for a in texts {
        for b in texts {
            assert_eq!(same_text(a, b), a == b);
            assert_eq!(eq_ignore_ascii_case(a, b), a.eq_ignore_ascii_case(b));
            assert_eq!(str_before(a, b), a < b);
        }
    }
}

#[test]
fn texts_are_put_together() {
    assert_eq!(joined("a", "b"), "ab");
    assert_eq!(joined3("a", "", "c"), "ac");
    assert_eq!(join(&vec!["a".to_string(), "b".to_string()], ", "), "a, b");
    assert_eq!(join(&Vec::new(), ", "), "");
    assert_eq!(repeat_char('-', 3), "---");
    for n in [0, 9, 10, 105, u64::MAX] {
        assert_eq!(decimal_of(n), n.to_string());
    }
}

#[test]
fn identifiers_are_fresh_and_may_stand_in_paths() {
    for id in [fresh_run_id(), fresh_session_id()] {
        assert_eq!(id.len(), 36);
        assert!(is_valid_component(&id));
        assert!(uuid::Uuid::parse_str(&id).is_ok());
    }
    assert_eq!(fresh_run_id().as_bytes()[14], b'4');
    assert_eq!(fresh_session_id().as_bytes()[14], b'7');
    assert_ne!(fresh_run_id(), fresh_run_id());
    let mut ids = fresh_session_ids(4);
    assert!(ids.iter().all(|id| id.as_bytes()[14] == b'7'));
    ids.sort();
    ids.dedup();
    assert_eq!(ids.len(), 4);
}

#[test]
fn components_stay_below_their_directory() {
    for refused in ["", ".", "..", "a/b", "a b", "ä", "a\\b"] {
        assert!(!is_valid_component(refused), "{refused:?}");
    }
    assert!(is_valid_component("Az09_-"));
    let path = StorePath::at(PathBase::Home).join("a".to_string()).join("b".to_string());
    assert_eq!(path.components, ["a", "b"]);
}

fn plan(name: &str) -> PlanType {
    PlanType { name: name.to_string(), label: name.to_uppercase() }
}

fn plans() -> PlanCatalog {
    PlanCatalog { known: vec![plan("plus"), plan("pro")], unknown: plan("unknown") }
}

fn key_auth() -> AuthDotJson {
    AuthDotJson {
        auth_mode: None,
        openai_api_key: Some("key".to_string()),
        tokens: None,
        last_refresh: None,
        agent_identity: None,
        personal_access_token: None,
        bedrock_api_key: None,
        bedrock_access_keys: None,
    }
}

#[test]
fn profiles_have_names_that_may_stand_in_paths() {
    assert!(is_valid_profile_name("work-1"));
    assert!(!is_valid_profile_name("../work"));
    assert!(!is_valid_profile_name(""));
    assert_eq!(validate_profile_name("work"), Ok(()));
    assert_eq!(validate_profile_name("a b").unwrap_err().kind, ErrorKind::InvalidInput);
    assert_eq!(auth_profiles_dir().components, ["accounts"]);
    assert_eq!(auth_profile_home("work").components, ["accounts", "work"]);
    assert_eq!(load_auth_profile("work", Ok(Some(key_auth()))), Ok(key_auth()));
    assert_eq!(
        load_auth_profile("work", Ok(None)).unwrap_err().kind,
        ErrorKind::NotFound
    );
    assert_eq!(
        load_auth_profile("a/b", Ok(Some(key_auth()))).unwrap_err().kind,
        ErrorKind::InvalidInput
    );
}

#[test]
fn accounts_are_told_from_stored_credentials() {
    assert_eq!(auth_mode_from_auth(&key_auth()), AuthMode::ApiKey);
    assert_eq!(account_from_auth(&key_auth(), &plans()), Some(Account::ApiKey));
    assert_eq!(account_plan_type_from_auth(&Some("pro".to_string()), &plans()), plan("pro"));
    assert_eq!(
        account_plan_type_from_auth(&Some("gold".to_string()), &plans()),
        plan("unknown")
    );
    assert_eq!(account_plan_type_from_auth(&None, &plans()), plan("unknown"));
}
