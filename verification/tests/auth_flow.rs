use hemdaimail::auth::{
    access_claims, access_token_at, access_token_from_clock, after_domain_upsert, after_user_insert,
    authenticate, bearer_response, claims_json, decide_login, extract_token, generate_access_token,
    generate_refresh_token, issue_tokens, issue_tokens_at, login_refusal, login_status, refresh_access, refresh_access_at,
    register_status, AuthError, AuthRejection, LoginDecision, RefreshRow, RegisterOutcome, RegisterStep,
    TokenError, UserLookup, UserRecord, MAX_TIMESTAMP, MIN_TIMESTAMP,
};
use hemdaimail::audit::{user_event, AuditAction};

const SECRET: &[u8] = b"test-secret";
const USER: u128 = 0x67e5504410b1426f9247bb680e5fe0c8;

fn decode(token: &str) -> serde_json::Value {
    let mut validation = jsonwebtoken::Validation::default();
    validation.validate_exp = false;
    jsonwebtoken::decode::<serde_json::Value>(
        token,
        &jsonwebtoken::DecodingKey::from_secret(SECRET),
        &validation,
    )
    .unwrap()
    .claims
}

#[test]
fn bearer_header_token_is_extracted() {
    assert_eq!(extract_token(Some("Bearer abc.def"), None), Ok("abc.def".to_string()));
    assert_eq!(extract_token(Some("Bearer "), Some("token=zzz")), Ok(String::new()));
}

#[test]
fn non_bearer_header_is_rejected() {
    assert_eq!(extract_token(Some("Basic abc"), Some("token=t")), Err(AuthError::InvalidAuthorizationHeader));
}

#[test]
fn query_token_is_used_without_header() {
    assert_eq!(extract_token(None, Some("a=1&token=xyz&token=second")), Ok("xyz".to_string()));
    assert_eq!(extract_token(None, Some("a=1&b=2")), Err(AuthError::MissingAuthentication));
    assert_eq!(extract_token(None, None), Err(AuthError::MissingAuthentication));
    assert_eq!(AuthError::MissingAuthentication.message(), "Missing authentication");
    assert_eq!(AuthError::InvalidAuthorizationHeader.message(), "Invalid Authorization header");
}

#[test]
fn claims_json_matches_serde_layout() {
    let c = access_claims(USER, "a\"b@example.com", 1_700_000_900);
    assert_eq!(c.exp, 1_700_000_900usize);
    let text = claims_json(&c);
    assert_eq!(
        text,
        "{\"sub\":\"67e55044-10b1-426f-9247-bb680e5fe0c8\",\"email\":\"a\\\"b@example.com\",\"exp\":1700000900}"
    );
}

#[test]
fn access_token_carries_the_claims() {
    let t = access_token_at(USER, "u@example.com", SECRET, 1_700_000_900);
    let claims = decode(&t);
    assert_eq!(claims["sub"], "67e55044-10b1-426f-9247-bb680e5fe0c8");
    assert_eq!(claims["email"], "u@example.com");
    assert_eq!(claims["exp"], 1_700_000_900u64);
}

#[test]
fn awkward_claims_are_signed() {
    let email = "q\"\\x\u{1}\n\u{7f}\u{e9}\u{1f600}@example.com";
    let t = access_token_at(USER, email, b"", -5);
    let mut validation = jsonwebtoken::Validation::default();
    validation.validate_exp = false;
    validation.required_spec_claims.clear();
    let claims = jsonwebtoken::decode::<serde_json::Value>(&t, &jsonwebtoken::DecodingKey::from_secret(b""), &validation)
        .unwrap()
        .claims;
    assert_eq!(claims["email"], email);
    assert_eq!(claims["exp"], (-5i64) as usize as u64);
}

#[test]
fn generated_access_token_expires_in_fifteen_minutes() {
    let before = chrono::Utc::now().timestamp();
    let t = generate_access_token(USER, "u@example.com", SECRET).unwrap();
    let after = chrono::Utc::now().timestamp();
    let exp = decode(&t)["exp"].as_i64().unwrap();
    assert!(exp >= before + 900 && exp <= after + 900);
}

#[test]
fn refresh_tokens_are_64_alphanumerics() {
    let a = generate_refresh_token();
    let b = generate_refresh_token();
    assert_eq!(a.len(), 64);
    assert!(a.chars().all(|c| c.is_ascii_alphanumeric()));
    assert_ne!(a, b);
}

fn registered_hash(password: &str) -> String {
    match after_domain_upsert(Some(7), password) {
        RegisterStep::InsertUser { domain_id, password_hash } => {
            assert_eq!(domain_id, 7);
            password_hash
        }
        _ => panic!("registration did not reach the account insert"),
    }
}

#[test]
fn registered_password_logs_in() {
    let hash = registered_hash("password123");
    assert!(hash.starts_with("$argon2"));
    let record = UserRecord { id: USER, email: "test@example.com".to_string(), password_hash: hash };
    let d = decide_login(&UserLookup::Found(record), "password123");
    assert_eq!(d, LoginDecision::Accepted(USER));
    assert_eq!(login_status(d), 200);
}

#[test]
fn wrong_password_is_refused() {
    let record = UserRecord { id: USER, email: "e".to_string(), password_hash: registered_hash("right") };
    let d = decide_login(&UserLookup::Found(record), "wrong");
    assert_eq!(d, LoginDecision::WrongPassword(USER));
    assert_eq!(login_status(d), 401);
}

#[test]
fn login_lookup_outcomes() {
    assert_eq!(decide_login(&UserLookup::NotFound, "x"), LoginDecision::UnknownUser);
    assert_eq!(login_status(LoginDecision::UnknownUser), 401);
    assert_eq!(decide_login(&UserLookup::Failed, "x"), LoginDecision::DatabaseError);
    assert_eq!(login_status(LoginDecision::DatabaseError), 500);
    let bad = UserRecord { id: 1, email: "e".to_string(), password_hash: "not a hash".to_string() };
    assert_eq!(decide_login(&UserLookup::Found(bad), "x"), LoginDecision::CorruptPasswordHash);
}

#[test]
fn registration_outcomes() {
    assert!(matches!(after_domain_upsert(None, "pw"), RegisterStep::ServerError));
    assert_eq!(after_user_insert(Some(9)), RegisterOutcome::Created(9));
    assert_eq!(after_user_insert(None), RegisterOutcome::ServerError);
    assert_eq!(register_status(RegisterOutcome::Created(9)), 201);
    assert_eq!(register_status(RegisterOutcome::ServerError), 500);
}

#[test]
fn login_issues_both_tokens() {
    let t = issue_tokens(USER, "u@example.com", SECRET).unwrap();
    assert_eq!(decode(&t.access_token)["email"], "u@example.com");
    assert_eq!(t.refresh_token.len(), 64);
    let now = chrono::Utc::now().timestamp();
    assert!(t.refresh_expires_at > now + 604_000 && t.refresh_expires_at <= now + 604_800);
}

#[test]
fn refresh_needs_a_matching_token() {
    assert!(matches!(refresh_access(None, SECRET), Ok(None)));
    let row = RefreshRow { user_id: USER, email: "r@example.com".to_string() };
    let r = refresh_access(Some(row), SECRET).unwrap().unwrap();
    assert_eq!(r.token_type, "Bearer");
    assert_eq!(decode(&r.access_token)["email"], "r@example.com");
    assert_eq!(bearer_response("t".to_string()).token_type, "Bearer");
}

#[test]
fn audit_entries_name_the_user() {
    let e = user_event(USER, AuditAction::LoginFailed, Some("10.0.0.1".to_string()), None);
    assert_eq!(e.user_id, Some(USER));
    assert_eq!(e.action, "login_failed");
    assert_eq!(e.resource_type, "user");
    assert_eq!(e.resource_id.as_deref(), Some("67e55044-10b1-426f-9247-bb680e5fe0c8"));
    assert_eq!(e.ip_address.as_deref(), Some("10.0.0.1"));
    assert_eq!(user_event(1, AuditAction::UserRegistered, None, None).action, "user_registered");
    assert_eq!(user_event(1, AuditAction::UserLoggedIn, None, None).action, "user_logged_in");
}

#[test]
fn tokens_at_a_clock_reading() {
    let now = 1_700_000_000;
    let t = access_token_from_clock(now, USER, "u@example.com", SECRET).unwrap();
    assert_eq!(decode(&t)["exp"], 1_700_000_900u64);
    let issued = issue_tokens_at(now, USER, "u@example.com", SECRET, "r".repeat(64)).unwrap();
    assert_eq!(decode(&issued.access_token)["exp"], 1_700_000_900u64);
    assert_eq!(issued.refresh_token, "r".repeat(64));
    assert_eq!(issued.refresh_expires_at, now + 604_800);
    let row = RefreshRow { user_id: USER, email: "r@example.com".to_string() };
    let r = refresh_access_at(Some(row), now, SECRET).unwrap().unwrap();
    assert_eq!(decode(&r.access_token)["exp"], 1_700_000_900u64);
}

#[test]
fn expiry_beyond_the_clock_range_is_refused() {
    assert_eq!(access_token_from_clock(MAX_TIMESTAMP - 899, USER, "u", SECRET).err(), Some(TokenError::TimestampOutOfRange));
    assert!(access_token_from_clock(MAX_TIMESTAMP - 900, USER, "u", SECRET).is_ok());
    assert!(access_token_from_clock(MIN_TIMESTAMP, USER, "u", SECRET).is_ok());
    assert_eq!(access_token_from_clock(MIN_TIMESTAMP - 1, USER, "u", SECRET).err(), Some(TokenError::TimestampOutOfRange));
    assert_eq!(
        issue_tokens_at(MAX_TIMESTAMP - 604_799, USER, "u", SECRET, String::new()).err(),
        Some(TokenError::TimestampOutOfRange)
    );
    assert!(issue_tokens_at(MAX_TIMESTAMP - 604_800, USER, "u", SECRET, String::new()).is_ok());
    assert_eq!(
        chrono::DateTime::from_timestamp(MAX_TIMESTAMP, 0).map(|d| d.to_rfc3339()),
        Some("+262142-12-31T23:59:59+00:00".to_string())
    );
    assert!(chrono::DateTime::from_timestamp(MAX_TIMESTAMP + 1, 0).is_none());
    assert!(chrono::DateTime::from_timestamp(MIN_TIMESTAMP, 0).is_some());
    assert!(chrono::DateTime::from_timestamp(MIN_TIMESTAMP - 1, 0).is_none());
}

#[test]
fn issued_tokens_authenticate() {
    let t = generate_access_token(USER, "u@example.com", SECRET).unwrap();
    let header = format!("Bearer {}", t);
    let c = authenticate(Some(&header), None, SECRET).unwrap();
    assert_eq!(c.sub, USER);
    assert_eq!(c.email, "u@example.com");
    let c = authenticate(None, Some(&format!("x=1&token={}", t)), SECRET).unwrap();
    assert_eq!(c.sub, USER);
    assert_eq!(authenticate(Some(&header), None, b"other").err(), Some(AuthRejection::InvalidToken));
    let expired = access_token_at(USER, "u@example.com", SECRET, 1_000);
    assert_eq!(authenticate(Some(&format!("Bearer {}", expired)), None, SECRET).err(), Some(AuthRejection::InvalidToken));
    assert_eq!(authenticate(None, None, SECRET).err(), Some(AuthRejection::Missing(AuthError::MissingAuthentication)));
    assert_eq!(authenticate(Some("Token x"), None, SECRET).err(), Some(AuthRejection::Missing(AuthError::InvalidAuthorizationHeader)));
    assert_eq!(AuthRejection::InvalidToken.message(), "Invalid token");
    assert_eq!(AuthRejection::Missing(AuthError::MissingAuthentication).message(), "Missing authentication");
}

#[test]
fn refused_logins_are_answered_with_their_texts() {
    assert_eq!(login_refusal(LoginDecision::UnknownUser).as_deref(), Some("Invalid credentials"));
    assert_eq!(login_refusal(LoginDecision::WrongPassword(1)).as_deref(), Some("Invalid credentials"));
    assert_eq!(login_refusal(LoginDecision::DatabaseError).as_deref(), Some("Database error"));
    assert_eq!(login_refusal(LoginDecision::Accepted(1)), None);
}
