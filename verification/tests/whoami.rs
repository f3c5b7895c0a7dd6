//! Who is logged in, and how that is told.

use git_ai::commands::whoami::{
    AuthState, Org, WhoamiFacts, WhoamiRequest, mask_api_key, whoami_report, whoami_request,
};

fn strings(args: &[&str]) -> Vec<String> {
    args.iter().map(|arg| (*arg).to_string()).collect()
}

fn facts(state: AuthState, api_key: Option<&str>) -> WhoamiFacts {
    WhoamiFacts {
        api_base_url: "https://api".to_string(),
        backend: "file".to_string(),
        api_key: api_key.map(|k| k.to_string()),
        state,
        access_token_expires_at: None,
        refresh_token_expires_at: None,
        user_id: None,
        email: None,
        name: None,
        personal_org_id: None,
        orgs: vec![],
    }
}

#[test]
fn whoami_takes_no_arguments() {
    assert!(matches!(whoami_request(&strings(&[])), WhoamiRequest::Show));
    assert!(matches!(whoami_request(&strings(&["x", "-h"])), WhoamiRequest::Help));
    assert!(matches!(whoami_request(&strings(&["help"])), WhoamiRequest::Help));
    assert!(matches!(
        whoami_request(&strings(&["a", "b"])),
        WhoamiRequest::Refuse(m) if m == "Error: unknown whoami argument(s): a b"
    ));
}

#[test]
fn keys_stay_hidden() {
    assert_eq!(mask_api_key(""), "");
    assert_eq!(mask_api_key("12345678"), "********");
    assert_eq!(mask_api_key("123456789"), "1234...6789");
}

#[test]
fn without_a_login_and_a_key_the_command_fails() {
    let (lines, code) = whoami_report(&facts(AuthState::LoggedOut, None));
    assert_eq!(code, 1);
    assert_eq!(
        lines,
        strings(&[
            "API Base URL: https://api",
            "Credential backend: file",
            "Auth state: logged out"
        ])
    );
    let (lines, code) = whoami_report(&facts(AuthState::Error("broken".to_string()), None));
    assert_eq!(code, 1);
    assert_eq!(lines.last().unwrap(), "Auth state: error (broken)");
    let (lines, code) = whoami_report(&facts(AuthState::RefreshExpired, Some("123456789")));
    assert_eq!(code, 0);
    assert_eq!(lines[2], "API key: 1234...6789");
    assert_eq!(
        lines[3],
        "Auth state: credentials expired (refresh token expired)"
    );
}

#[test]
fn a_login_is_told_in_full() {
    let mut f = facts(AuthState::LoggedIn, None);
    f.access_token_expires_at = Some("soon".to_string());
    f.refresh_token_expires_at = Some("later".to_string());
    f.email = Some("me@x".to_string());
    f.orgs = vec![Org {
        org_id: Some("1".to_string()),
        org_slug: Some("acme".to_string()),
        org_name: None,
        role: Some("owner".to_string()),
    }];
    let (lines, code) = whoami_report(&f);
    assert_eq!(code, 0);
    assert_eq!(
        lines[2..],
        strings(&[
            "Auth state: logged in",
            "Access token expires at: soon",
            "Refresh token expires at: later",
            "User ID: <unavailable>",
            "Email: me@x",
            "Name: <unavailable>",
            "Personal org ID: <unavailable>",
            "Organizations:",
            "  - acme (<unknown-name>) [1] role=owner"
        ])
    );
    let (lines, _) = whoami_report(&facts(AuthState::LoggedIn, None));
    assert_eq!(lines.last().unwrap(), "Organizations: <none>");
}
