use ab_macros::client::bearer_header;
use ab_macros::client::classify_status;
use ab_macros::client::is_logged_in;
use ab_macros::client::is_protected;
use ab_macros::client::Route;
use ab_macros::client::ApiError;
use ab_macros::client::AuthState;
use ab_macros::config::EnvConfig;
use ab_macros::config::LogLevel;
use ab_macros::config::TokenRequest;
use ab_macros::gate::contains_substr;
use ab_macros::models::FoodCategory;
use ab_macros::numerals::parse_i64_range;
use ab_macros::numerals::push_dec_i64;
use ab_macros::phone::normalize_phone;
use ab_macros::record::encode_record;
use ab_macros::record::find_single_colon;
use ab_macros::session::RedditUser;
use ab_macros::session::SessionStore;
use ab_macros::session::UserSession;

#[test]
fn normalization_applies_the_country_code_heuristic() {
    // ten digits not led by 1: a default country prefix
    assert_eq!(normalize_phone("555-123-4567"), "+15551234567");
    assert_eq!(normalize_phone("(555) 123-4567"), "+15551234567");
    // eleven digits led by 1: a bare plus
    assert_eq!(normalize_phone("1-555-123-4567"), "+15551234567");
    assert_eq!(normalize_phone("+15551234567"), "+15551234567");
    // anything else: a bare plus before the digits
    assert_eq!(normalize_phone("123"), "+123");
    assert_eq!(normalize_phone(""), "+");
    assert_eq!(normalize_phone("1234567890"), "+1234567890");
    assert_eq!(normalize_phone("44 20 7946 0958"), "+442079460958");
}

#[test]
fn decimal_rendering_and_parsing_agree() {
    let mut out: Vec<u8> = Vec::new();
    push_dec_i64(&mut out, 1234);
    assert_eq!(out, b"1234");
    let mut neg: Vec<u8> = Vec::new();
    push_dec_i64(&mut neg, -42);
    assert_eq!(neg, b"-42");
    let mut min: Vec<u8> = Vec::new();
    push_dec_i64(&mut min, i64::MIN);
    assert_eq!(min, b"-9223372036854775808");
    assert_eq!(parse_i64_range(&min, 0, min.len()), Some(i64::MIN));
    let max = b"9223372036854775807";
    assert_eq!(parse_i64_range(max, 0, max.len()), Some(i64::MAX));
}

#[test]
fn decimal_parser_matches_the_standard_one() {
    let cases: &[&str] = &[
        "0", "007", "+5", "-5", "", "-", "+", "12a", "a12", "9223372036854775808",
        "-9223372036854775809", "99999999999999999999999", " 1", "1 ",
    ];
    for s in cases {
        let bytes = s.as_bytes();
        let expected = s.parse::<i64>().ok();
        assert_eq!(parse_i64_range(bytes, 0, bytes.len()), expected, "on {:?}", s);
    }
}

#[test]
fn records_encode_as_code_colon_expiry() {
    assert_eq!(encode_record(b"042918", 1700000600), b"042918:1700000600");
    assert_eq!(encode_record(b"000001", -7), b"000001:-7");
}

#[test]
fn single_colon_is_found_exactly_once() {
    assert_eq!(find_single_colon(b"042918:1700000600"), Some(6));
    assert_eq!(find_single_colon(b"042918"), None);
    assert_eq!(find_single_colon(b"a:b:c"), None);
    assert_eq!(find_single_colon(b":"), Some(0));
}

#[test]
fn env_config_parses_keys_values_and_level() {
    let text = "REDDIT_CLIENT_ID=abc\nREDDIT_CLIENT_SECRET=def\nREDDIT_REDIRECT_URI=http://localhost/cb\nREDDIT_AUTH_URI=https://auth?\nREDDIT_ACCESS_URI=https://access\nREDDIT_AUTHOR=me\nREDDIT_GET_USER_URI=https://user\nRUST_LOG=Debug\n";
    let cfg = EnvConfig::new(text).expect("parse");
    assert_eq!(cfg.reddit_client_id, "abc");
    assert_eq!(cfg.reddit_client_secret, "def");
    assert_eq!(cfg.reddit_redirect_uri, "http://localhost/cb");
    assert_eq!(cfg.reddit_auth_uri, "https://auth?");
    assert_eq!(cfg.reddit_access_uri, "https://access");
    assert_eq!(cfg.reddit_author, "me");
    assert_eq!(cfg.reddit_get_user_uri, "https://user");
    assert_eq!(cfg.log_level, LogLevel::Debug);
    assert!(!cfg.is_empty());
}

#[test]
fn env_config_rejects_missing_required_values() {
    // a required key never set leaves the config unusable
    let text = "REDDIT_CLIENT_ID=abc\nREDDIT_CLIENT_SECRET=def\nREDDIT_ACCESS_URI=https://access\n";
    assert!(EnvConfig::new(text).is_none());
    // a known key without a value is a malformed file
    assert!(EnvConfig::new("REDDIT_CLIENT_ID").is_none());
}

#[test]
fn env_config_takes_the_value_before_a_second_equals() {
    let text = "REDDIT_CLIENT_ID=abc\nREDDIT_CLIENT_SECRET=def\nREDDIT_REDIRECT_URI=u\nREDDIT_ACCESS_URI=x\nREDDIT_AUTHOR=a=b\n";
    let cfg = EnvConfig::new(text).expect("parse");
    assert_eq!(cfg.reddit_author, "a");
}

#[test]
fn env_config_handles_crlf_unknown_keys_and_level_fallback() {
    let text = "REDDIT_CLIENT_ID=abc\r\nIGNORED=zzz\r\nREDDIT_CLIENT_SECRET=def\r\nREDDIT_REDIRECT_URI=u\r\nREDDIT_ACCESS_URI=x\r\nRUST_LOG=bogus\r\n";
    let cfg = EnvConfig::new(text).expect("parse");
    assert_eq!(cfg.reddit_client_id, "abc");
    assert_eq!(cfg.log_level, LogLevel::Info);
    // the level keywords are matched case-insensitively
    let upper = "REDDIT_CLIENT_ID=abc\nREDDIT_CLIENT_SECRET=def\nREDDIT_REDIRECT_URI=u\nREDDIT_ACCESS_URI=x\nRUST_LOG=TRACE\n";
    assert_eq!(EnvConfig::new(upper).expect("parse").log_level, LogLevel::Trace);
}

#[test]
fn token_request_binds_the_configured_redirect() {
    let text = "REDDIT_CLIENT_ID=abc\nREDDIT_CLIENT_SECRET=def\nREDDIT_REDIRECT_URI=http://localhost/cb\nREDDIT_ACCESS_URI=x\n";
    let cfg = EnvConfig::new(text).expect("parse");
    let req = TokenRequest::new("authcode".to_string(), &cfg);
    assert_eq!(req.grant_type, "authorization_code");
    assert_eq!(req.code, "authcode");
    assert_eq!(req.redirect_uri, "http://localhost/cb");
}

#[test]
fn statuses_sort_into_the_client_taxonomy() {
    assert!(classify_status(200, String::new()).is_ok());
    assert!(classify_status(201, String::new()).is_ok());
    assert!(matches!(classify_status(401, String::new()), Err(ApiError::Unauthorized)));
    assert!(matches!(classify_status(404, String::new()), Err(ApiError::NotFound)));
    match classify_status(500, "boom".to_string()) {
        Err(ApiError::ApiError { status, message }) => {
            assert_eq!(status, 500);
            assert_eq!(message, "boom");
        },
        _ => panic!("expected the status-carrying variant"),
    }
}

#[test]
fn bearer_header_wraps_only_a_stored_token() {
    assert_eq!(bearer_header(&Some("tok".to_string())), Some("Bearer tok".to_string()));
    assert_eq!(bearer_header(&None), None);
}

#[test]
fn auth_state_tracks_the_stored_token() {
    assert!(!is_logged_in(&None));
    assert!(is_logged_in(&Some("tok".to_string())));
    let mut state = AuthState::new(None);
    assert!(!state.is_authenticated);
    state.login("tok".to_string());
    assert!(state.is_authenticated);
    assert_eq!(state.token, Some("tok".to_string()));
    state.logout();
    assert!(!state.is_authenticated);
    assert_eq!(state.token, None);
}

#[test]
fn public_paths_are_recognized_by_segment() {
    assert!(contains_substr("/api/auth/send-code", "/auth/"));
    assert!(contains_substr("/auth/verify", "/auth/"));
    assert!(!contains_substr("/api/meals", "/auth/"));
    assert!(!contains_substr("/authx", "/auth/"));
}

#[test]
fn session_store_saves_reads_and_deletes() {
    let mut store = SessionStore::new("/tmp/session-store-test-data").expect("open");
    let user = RedditUser { name: "someone".to_string(), id: "u1".to_string() };
    let session = UserSession::from_token(user, "access".to_string(), None, 1_700_000_000, 3600);
    assert_eq!(session.expires_at, 1_700_003_600);
    let bytes = format!(
        "{}|{}|{}",
        session.reddit_user.id, session.reddit_access_token, session.expires_at
    );
    store.save_session("sid-1", bytes.as_bytes()).expect("save");
    let got = store.get_session("sid-1").expect("get").expect("present");
    assert_eq!(got, bytes.as_bytes());
    store.delete_session("sid-1").expect("delete");
    assert!(store.get_session("sid-1").expect("get").is_none());
}

#[test]
fn login_url_is_assembled_from_the_config() {
    let text = "REDDIT_CLIENT_ID=cid\nREDDIT_CLIENT_SECRET=sec\nREDDIT_REDIRECT_URI=http://cb\nREDDIT_ACCESS_URI=x\nREDDIT_AUTH_URI=https://auth.example/authorize?\n";
    let cfg = EnvConfig::new(text).expect("parse");
    assert_eq!(
        cfg.reddit_login_url(),
        "https://auth.example/authorize?client_id=cid&response_type=code&state=randomstate&redirect_uri=http://cb&duration=permanent&scope=identity"
    );
}

#[test]
fn only_login_and_not_found_are_unguarded() {
    assert!(!is_protected(&Route::Login));
    assert!(!is_protected(&Route::NotFound));
    assert!(is_protected(&Route::Home));
    assert!(is_protected(&Route::MealList));
    assert!(is_protected(&Route::MealDetail { id: "m1".to_string() }));
    assert!(is_protected(&Route::Profile));
}

#[test]
fn food_categories_compare_by_variant() {
    assert_eq!(FoodCategory::Meat, FoodCategory::Meat);
    assert_ne!(FoodCategory::Meat, FoodCategory::Organ);
}
