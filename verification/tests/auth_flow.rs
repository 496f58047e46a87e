use ab_macros::auth::authenticate;
use ab_macros::auth::encode_code;
use ab_macros::auth::issue_code;
use ab_macros::auth::send_code;
use ab_macros::auth::verify_code;
use ab_macros::auth::Dispatch;
use ab_macros::errors::AuthError;
use ab_macros::errors::RejectReason;
use ab_macros::gate::gate_check;
use ab_macros::gate::parse_bearer;
use ab_macros::gate::AuthCheck;
use ab_macros::gate::CookieDecision;
use ab_macros::gate::GateOutcome;
use ab_macros::store::AppDb;
use ab_macros::token::create_token;
use ab_macros::token::validate_token;
use ab_macros::token::Claims;

const SECRET: &[u8] = b"unit-test-signing-secret";

fn fresh_db() -> AppDb {
    let db = sled::Config::new().temporary(true).open().expect("open temporary store");
    AppDb::new(&db).expect("open verification keyspace")
}

#[test]
fn issue_then_verify_consumes_the_code() {
    // issue_code("555-123-4567") stores under "+15551234567"; verifying
    // immediately succeeds once, then the record is gone
    let mut db = fresh_db();
    let now = 1_700_000_000i64;
    let d = issue_code(&mut db, "555-123-4567", 42918, now, true).expect("issue");
    match d {
        Dispatch::Dev { code } => assert_eq!(code, "042918"),
        _ => panic!("expected the development dispatch"),
    }
    assert_eq!(verify_code(&mut db, "+15551234567", "042918", now), Ok(true));
    assert_eq!(verify_code(&mut db, "+15551234567", "042918", now), Ok(false));
}

#[test]
fn new_code_supersedes_the_old_one() {
    let mut db = fresh_db();
    let now = 1_700_000_000i64;
    issue_code(&mut db, "555-123-4567", 111111, now, true).expect("first issue");
    issue_code(&mut db, "555-123-4567", 222222, now, true).expect("second issue");
    // the first code was unexpired, yet no longer verifies
    assert_eq!(verify_code(&mut db, "555-123-4567", "111111", now), Ok(false));
    assert_eq!(verify_code(&mut db, "555-123-4567", "222222", now), Ok(true));
}

#[test]
fn expired_code_is_rejected_and_kept() {
    let mut db = fresh_db();
    let now = 1_700_000_000i64;
    issue_code(&mut db, "555-123-4567", 42918, now, true).expect("issue");
    // at and after the expiry instant the right code no longer works
    assert_eq!(verify_code(&mut db, "555-123-4567", "042918", now + 600), Ok(false));
    assert_eq!(verify_code(&mut db, "555-123-4567", "042918", now + 601), Ok(false));
    // the record was left in place: before expiry it still verifies
    assert_eq!(verify_code(&mut db, "555-123-4567", "042918", now + 599), Ok(true));
}

#[test]
fn wrong_code_leaves_the_record_usable() {
    let mut db = fresh_db();
    let now = 1_700_000_000i64;
    issue_code(&mut db, "555-123-4567", 42918, now, true).expect("issue");
    assert_eq!(verify_code(&mut db, "555-123-4567", "042919", now), Ok(false));
    assert_eq!(verify_code(&mut db, "555-123-4567", "042918", now), Ok(true));
}

#[test]
fn test_identity_verifies_on_an_empty_store() {
    let mut db = fresh_db();
    assert_eq!(verify_code(&mut db, "123", "123456", 1_700_000_000), Ok(true));
    // single-use does not apply: the bypass never consults the store
    assert_eq!(verify_code(&mut db, "123", "123456", 1_700_000_000), Ok(true));
    // only the exact pair takes the bypass
    assert_eq!(verify_code(&mut db, "123", "654321", 1_700_000_000), Ok(false));
}

#[test]
fn test_identity_issue_stores_fixed_code_without_dispatch() {
    let mut db = fresh_db();
    let now = 1_700_000_000i64;
    let d = issue_code(&mut db, "123", 42918, now, false).expect("issue");
    assert!(matches!(d, Dispatch::Test));
    // the fixed code sits under the normalized identity in the store
    assert_eq!(db.verify_code_at("+123", "123456", now).unwrap(), true);
    assert_eq!(db.verify_code_at("+123", "123456", now).unwrap(), false);
}

#[test]
fn issue_dispatches_sms_outside_dev_mode() {
    let mut db = fresh_db();
    let now = 1_700_000_000i64;
    let d = issue_code(&mut db, "555-123-4567", 7, now, false).expect("issue");
    match d {
        Dispatch::Sms { to, code } => {
            assert_eq!(to, "+15551234567");
            assert_eq!(code, "000007");
        },
        _ => panic!("expected an SMS dispatch"),
    }
}

#[test]
fn send_code_draws_a_six_digit_code() {
    let mut db = fresh_db();
    let d = send_code(&mut db, "555-123-4567", true).expect("send");
    match d {
        Dispatch::Dev { code } => {
            assert_eq!(code.len(), 6);
            assert!(code.chars().all(|c| c.is_ascii_digit()));
        },
        _ => panic!("expected the development dispatch"),
    }
}

#[test]
fn encode_code_zero_pads() {
    assert_eq!(encode_code(42918), "042918");
    assert_eq!(encode_code(0), "000000");
    assert_eq!(encode_code(999999), "999999");
    assert_eq!(encode_code(123456), "123456");
}

#[test]
fn token_round_trip_yields_the_same_identity() {
    let now = ab_macros::clock::now_ts();
    let token = create_token("+15551234567", SECRET, now).expect("sign");
    let claims = validate_token(&token, SECRET).expect("validate");
    assert_eq!(claims.sub, "+15551234567");
    assert_eq!(claims.iat, now as usize);
    assert_eq!(claims.exp, now as usize + 604800);
}

#[test]
fn tampered_identity_fails_validation() {
    let now = ab_macros::clock::now_ts();
    let token = create_token("+15551234567", SECRET, now).expect("sign");
    let other = create_token("+19998887777", SECRET, now).expect("sign");
    let parts: Vec<&str> = token.split('.').collect();
    let other_parts: Vec<&str> = other.split('.').collect();
    // splice the other identity's payload under the first signature
    let tampered = format!("{}.{}.{}", parts[0], other_parts[1], parts[2]);
    assert!(validate_token(&tampered, SECRET).is_none());
}

#[test]
fn wrong_secret_fails_validation() {
    let now = ab_macros::clock::now_ts();
    let token = create_token("+15551234567", SECRET, now).expect("sign");
    assert!(validate_token(&token, b"another-secret").is_none());
}

#[test]
fn expired_token_fails_validation() {
    // issued far enough in the past that the expiry check cannot pass
    let now = ab_macros::clock::now_ts() - 700000 - 3600;
    let token = create_token("+15551234567", SECRET, now).expect("sign");
    assert!(validate_token(&token, SECRET).is_none());
}

#[test]
fn authenticate_rejects_a_wrong_code() {
    let mut db = fresh_db();
    let now = 1_700_000_000i64;
    issue_code(&mut db, "555-123-4567", 42918, now, true).expect("issue");
    let r = authenticate(&mut db, "555-123-4567", "000000", SECRET, now);
    assert_eq!(r.err(), Some(AuthError::InvalidCode));
    assert_eq!(AuthError::InvalidCode.status_code(), 400);
    assert_eq!(AuthError::InvalidCode.message(), "Invalid or expired verification code");
}

#[test]
fn protected_route_needs_a_credential_then_accepts_the_flow() {
    // no authorization header: 401 with the structured reason
    match gate_check("/api/meals", None, SECRET) {
        GateOutcome::Rejected(reason) => {
            assert_eq!(reason, RejectReason::NoCredential);
            assert_eq!(reason.status_code(), 401);
            assert_eq!(reason.message(), "Authorization required");
        },
        _ => panic!("expected a rejection"),
    }
    // the full flow: send-code, verify, then the token opens the route
    let mut db = fresh_db();
    let now = ab_macros::clock::now_ts();
    issue_code(&mut db, "555-123-4567", 42918, now, true).expect("issue");
    let t = authenticate(&mut db, "555-123-4567", "042918", SECRET, now).expect("authenticate");
    let header = format!("Bearer {}", t.token);
    match gate_check("/api/meals", Some(&header), SECRET) {
        GateOutcome::Authenticated(claims) => assert_eq!(claims.sub, "+15551234567"),
        _ => panic!("expected an authenticated outcome"),
    }
}

#[test]
fn gate_lets_public_paths_through() {
    assert!(matches!(gate_check("/api/auth/send-code", None, SECRET), GateOutcome::Public));
    assert!(matches!(gate_check("/api/auth/verify", None, SECRET), GateOutcome::Public));
}

#[test]
fn gate_rejects_bad_schemes_and_bad_tokens() {
    match gate_check("/api/meals", Some("Basic dXNlcg=="), SECRET) {
        GateOutcome::Rejected(r) => assert_eq!(r, RejectReason::NoCredential),
        _ => panic!("expected a rejection"),
    }
    match gate_check("/api/meals", Some("Bearer not-a-token"), SECRET) {
        GateOutcome::Rejected(r) => {
            assert_eq!(r, RejectReason::InvalidOrExpired);
            assert_eq!(r.status_code(), 401);
            assert_eq!(r.message(), "Invalid token");
        },
        _ => panic!("expected a rejection"),
    }
}

#[test]
fn parse_bearer_takes_only_the_bearer_scheme() {
    assert_eq!(parse_bearer("Bearer abc"), Some("abc"));
    assert_eq!(parse_bearer("Bearer "), Some(""));
    assert_eq!(parse_bearer("Basic abc"), None);
    assert_eq!(parse_bearer("Bear"), None);
}

#[test]
fn claims_resolve_only_when_the_gate_attached_them() {
    let claims = Claims { sub: "+123".to_string(), exp: 2_000_000, iat: 1_000_000 };
    let got = Claims::from_request(&Some(claims)).expect("resolve");
    assert_eq!(got.sub, "+123");
    assert_eq!(got.exp, 2_000_000);
    match Claims::from_request(&None) {
        Err(reason) => assert_eq!(reason, RejectReason::NoCredential),
        Ok(_) => panic!("expected a rejection"),
    }
}

#[test]
fn fault_variants_surface_as_server_errors() {
    assert_eq!(AuthError::Storage.status_code(), 500);
    assert_eq!(AuthError::Storage.message(), "Failed to store verification");
    assert_eq!(AuthError::Delivery.status_code(), 500);
    assert_eq!(AuthError::Delivery.message(), "Failed to send verification code");
    assert_eq!(AuthError::Internal.status_code(), 500);
    assert_eq!(AuthError::Internal.message(), "Failed to generate token");
}

#[test]
fn store_verification_verifies_against_the_real_clock() {
    let mut db = fresh_db();
    let now = ab_macros::clock::now_ts();
    db.store_verification("+15551234567", "042918", now + 600).expect("store");
    assert_eq!(db.verify_code("+15551234567", "042918").unwrap(), true);
    assert_eq!(db.verify_code("+15551234567", "042918").unwrap(), false);
}

#[test]
fn cookie_gate_redirects_without_a_session() {
    let middleware = AuthCheck.new_transform();
    assert_eq!(middleware.call(false), CookieDecision::RedirectLogin);
    assert_eq!(middleware.call(true), CookieDecision::Forward);
}
