use saykocraft_launcher::auth::{
    auth_url, ban_expiry_key, ban_expiry_of, extend_session_step, login_error_from_auth_error, map_auth_response,
    map_auth_status, session_status, AuthError, ExtendStep, SendOutcome,
};
use saykocraft_launcher::json::JsonValue;

#[test]
fn login_errors_for_each_failure() {
    let e = login_error_from_auth_error(AuthError::RateLimited);
    assert_eq!(e.code, "RATE_LIMITED");
    assert_eq!(e.message, "Too many requests. Please wait and try again.");
    assert_eq!(e.expires_at, None);
    let e = login_error_from_auth_error(AuthError::Unauthorized);
    assert_eq!(e.code, "INVALID_CREDENTIALS");
    assert_eq!(e.message, "Invalid username or password.");
    let e = login_error_from_auth_error(AuthError::AccountNotApproved);
    assert_eq!(e.code, "ACCOUNT_NOT_APPROVED");
    let e = login_error_from_auth_error(AuthError::Banned(Some(1_700_000_000)));
    assert_eq!(e.code, "BANNED");
    assert_eq!(e.message, "This account is banned.");
    assert_eq!(e.expires_at, Some(1_700_000_000));
    let e = login_error_from_auth_error(AuthError::UpgradeRequired);
    assert_eq!(e.code, "UPGRADE_REQUIRED");
    let e = login_error_from_auth_error(AuthError::Maintenance);
    assert_eq!(e.code, "SERVICE_UNAVAILABLE");
    let e = login_error_from_auth_error(AuthError::Client(418));
    assert_eq!(e.code, "AUTH_FAILED");
    assert_eq!(e.message, "Auth failed: 418");
    let e = login_error_from_auth_error(AuthError::Server(502));
    assert_eq!(e.code, "SERVER_ERROR");
    assert_eq!(e.message, "Server error: 502");
    let e = login_error_from_auth_error(AuthError::Network("timed out".to_string()));
    assert_eq!(e.code, "NETWORK_ERROR");
    assert_eq!(e.message, "timed out");
    let e = login_error_from_auth_error(AuthError::InvalidResponse("bad json".to_string()));
    assert_eq!(e.code, "BAD_RESPONSE");
    assert_eq!(e.message, "bad json");
}

#[test]
fn statuses_of_the_service() {
    assert!(matches!(map_auth_status(429), AuthError::RateLimited));
    assert!(matches!(map_auth_status(401), AuthError::Unauthorized));
    assert!(matches!(map_auth_status(403), AuthError::Banned(None)));
    assert!(matches!(map_auth_status(426), AuthError::UpgradeRequired));
    assert!(matches!(map_auth_status(503), AuthError::Maintenance));
    assert!(matches!(map_auth_status(404), AuthError::Client(404)));
    assert!(matches!(map_auth_status(500), AuthError::Server(500)));
}

#[test]
fn refusals_tell_unapproved_accounts_from_bans() {
    assert!(matches!(
        map_auth_response(403, "Account not yet created", None, None),
        AuthError::AccountNotApproved
    ));
    let body = JsonValue::Object(vec![(
        "message".to_string(),
        JsonValue::Str(" Account not yet created ".to_string()),
    )]);
    assert!(matches!(
        map_auth_response(403, "{...}", Some(body), Some(5)),
        AuthError::AccountNotApproved
    ));
    let body = JsonValue::Object(vec![("error".to_string(), JsonValue::Str("banned".to_string()))]);
    assert!(matches!(
        map_auth_response(403, "{...}", Some(body), Some(42)),
        AuthError::Banned(None)
    ));
    assert!(matches!(map_auth_response(429, "slow down", None, None), AuthError::RateLimited));
}

#[test]
fn service_address() {
    assert_eq!(auth_url(None), "https://nf.blacksmith-ent.com/auth");
    assert_eq!(auth_url(Some(" http://localhost:8080/// ")), "http://localhost:8080");
    assert_eq!(auth_url(Some("  / ")), "https://nf.blacksmith-ent.com/auth");
}

#[test]
fn extending_a_session() {
    assert!(matches!(extend_session_step(1, SendOutcome::Status(204)), ExtendStep::Finished(Ok(true))));
    assert!(matches!(extend_session_step(1, SendOutcome::Status(401)), ExtendStep::Finished(Ok(false))));
    assert!(matches!(extend_session_step(1, SendOutcome::Status(404)), ExtendStep::Finished(Ok(false))));
    assert!(matches!(extend_session_step(1, SendOutcome::Status(500)), ExtendStep::ReadErrorResponse));
    assert!(matches!(
        extend_session_step(1, SendOutcome::Unreachable("refused".to_string())),
        ExtendStep::Retry
    ));
    assert!(matches!(
        extend_session_step(2, SendOutcome::Unreachable("refused".to_string())),
        ExtendStep::Retry
    ));
    assert!(matches!(
        extend_session_step(3, SendOutcome::Unreachable("refused".to_string())),
        ExtendStep::Finished(Err(AuthError::Network(_)))
    ));
    assert!(matches!(
        extend_session_step(1, SendOutcome::Failed("tls".to_string())),
        ExtendStep::Finished(Err(AuthError::InvalidResponse(_)))
    ));
}

#[test]
fn gives_up_after_three_requests_example() {
    for attempt in 3..6 {
        assert!(!matches!(
            extend_session_step(attempt, SendOutcome::Unreachable("down".to_string())),
            ExtendStep::Retry
        ));
    }
}

#[test]
fn session_status_words() {
    assert_eq!(session_status(&Ok(true)), "valid");
    assert_eq!(session_status(&Ok(false)), "invalid");
    assert_eq!(session_status(&Err(AuthError::Network("x".to_string()))), "network-error");
    assert_eq!(session_status(&Err(AuthError::RateLimited)), "invalid");
}

#[test]
fn ban_expiries_come_from_the_body() {
    let obj = |pairs: Vec<(&str, JsonValue)>| {
        Some(JsonValue::Object(pairs.into_iter().map(|(k, v)| (k.to_string(), v)).collect()))
    };
    let text = obj(vec![("expires_at", JsonValue::Str(" 1700000000 ".to_string()))]);
    assert_eq!(ban_expiry_key(&text), Some("expires_at"));
    assert!(matches!(map_auth_response(403, "{...}", text, None), AuthError::Banned(Some(1700000000))));
    let camel = obj(vec![("expiresAt", JsonValue::Number(None, Some(-3)))]);
    assert_eq!(ban_expiry_key(&camel), Some("expiresAt"));
    assert_eq!(ban_expiry_of(&camel, None), Some(-3));
    let both = obj(vec![
        ("expiresAt", JsonValue::Number(Some(5), Some(5))),
        ("expires_at", JsonValue::Str("soon".to_string())),
    ]);
    assert_eq!(ban_expiry_key(&both), Some("expires_at"));
    assert_eq!(ban_expiry_of(&both, None), None);
    assert_eq!(ban_expiry_of(&both, Some(9)), Some(9));
    let float = obj(vec![("expires_at", JsonValue::Number(None, None))]);
    assert_eq!(ban_expiry_of(&float, Some(12)), Some(12));
    assert_eq!(ban_expiry_of(&obj(vec![("expires_at", JsonValue::Null)]), Some(1)), None);
    assert_eq!(ban_expiry_key(&Some(JsonValue::Str("x".to_string()))), None);
    assert_eq!(ban_expiry_of(&obj(vec![("expires_at", JsonValue::Str("-9223372036854775808".to_string()))]), None), Some(i64::MIN));
}
