use magenta_adapters::openai::auth::clock_millis;
use magenta_adapters::openai::auth::{
    access_step, account_id_claim, email_claim, force_refresh_step, jwt_payload,
    jwt_payload_bytes, name_claim, oauth_error_message, plan_claim, record_from_token_response,
    record_from_token_response_at, refresh_step, restored_record, token_request_failure,
    AccessStep, CredentialRecord, JwtClaims, OAuthErrorResponse, OpenAiAuthError, RefreshStep,
    TokenResponse,
};
use magenta_adapters::openai::callback::{
    authorization_url, callback_request, callback_response, code_exchange_body, random_urlsafe,
    redirect_uri, refresh_body, OAUTH_CLIENT_ID,
};

fn no_claims() -> JwtClaims {
    JwtClaims {
        chatgpt_account_id: None,
        chatgpt_plan_type: None,
        email: None,
        name: None,
        auth_account_id: None,
        auth_plan_type: None,
        profile_email: None,
        profile_name: None,
        first_organization_id: None,
    }
}

fn token(access: &str) -> TokenResponse {
    TokenResponse {
        access_token: access.to_owned(),
        refresh_token: Some("refresh".to_owned()),
        expires_in: Some(60),
        id_token: None,
    }
}

fn record(access: &str, expires_at_ms: Option<u64>) -> CredentialRecord {
    CredentialRecord {
        access_token: access.to_owned(),
        refresh_token: Some("refresh-token".to_owned()),
        account_id: Some("account-123".to_owned()),
        name: None,
        email: Some("person@example.com".to_owned()),
        plan: Some("plus".to_owned()),
        expires_at_ms,
    }
}

fn check_token_claims_preserve_account_metadata() {
    let mut claims = no_claims();
    claims.profile_email = Some(" Person@Example.com ".to_owned());
    claims.profile_name = Some(" Person Example ".to_owned());
    claims.auth_account_id = Some("account-123".to_owned());
    claims.auth_plan_type = Some("plus".to_owned());
    let record = record_from_token_response(token("header.payload.signature"), None, None, Some(claims))
        .expect("record should build");

    assert_eq!(record.account_id.as_deref(), Some("account-123"));
    assert_eq!(record.name.as_deref(), Some("Person Example"));
    assert_eq!(record.email.as_deref(), Some("person@example.com"));
    assert_eq!(record.plan.as_deref(), Some("plus"));
    assert_eq!(record.refresh_token.as_deref(), Some("refresh"));
}

#[test]
fn record_expiry_counts_from_the_given_time() {
    let record = record_from_token_response_at(token("access"), None, None, None, 1_000).unwrap();
    assert_eq!(record.expires_at_ms, Some(61_000));
    let far = TokenResponse { expires_in: Some(u64::MAX), ..token("access") };
    let record = record_from_token_response_at(far, None, None, None, 5).unwrap();
    assert_eq!(record.expires_at_ms, Some(u64::MAX));
}

#[test]
fn id_token_claims_come_before_access_token_claims_and_the_previous_record() {
    let mut id = no_claims();
    id.chatgpt_plan_type = Some("pro".to_owned());
    let mut access = no_claims();
    access.chatgpt_plan_type = Some("plus".to_owned());
    access.name = Some("Access Name".to_owned());
    let previous = record("old", Some(7));
    let response = TokenResponse { access_token: "new".to_owned(), refresh_token: None, expires_in: None, id_token: None };
    let record = record_from_token_response_at(response, Some(&previous), Some(id), Some(access), 0).unwrap();
    assert_eq!(record.plan.as_deref(), Some("pro"));
    assert_eq!(record.name.as_deref(), Some("Access Name"));
    assert_eq!(record.account_id.as_deref(), Some("account-123"));
    assert_eq!(record.refresh_token.as_deref(), Some("refresh-token"));
    assert_eq!(record.expires_at_ms, Some(7));
}

#[test]
fn an_empty_access_token_is_refused() {
    let result = record_from_token_response_at(token(""), None, None, None, 0);
    assert_eq!(result, Err(OpenAiAuthError::MissingAccessToken));
    assert_eq!(
        OpenAiAuthError::MissingAccessToken.describe(),
        "the OAuth response did not contain an access token"
    );
}

#[test]
fn claims_fall_back_in_order() {
    let mut claims = no_claims();
    claims.first_organization_id = Some("org-1".to_owned());
    assert_eq!(account_id_claim(&claims).as_deref(), Some("org-1"));
    claims.auth_account_id = Some("auth".to_owned());
    assert_eq!(account_id_claim(&claims).as_deref(), Some("auth"));
    claims.chatgpt_account_id = Some("top".to_owned());
    assert_eq!(account_id_claim(&claims).as_deref(), Some("top"));
    assert_eq!(plan_claim(&claims), None);
    claims.email = Some("  ".to_owned());
    assert_eq!(email_claim(&claims), None);
    claims.name = Some("\tAda ".to_owned());
    assert_eq!(name_claim(&claims).as_deref(), Some("Ada"));
}

#[test]
fn jwt_payload_is_the_second_segment() {
    assert_eq!(jwt_payload("a.b.c").as_deref(), Some("b"));
    assert_eq!(jwt_payload("a.b").as_deref(), Some("b"));
    assert_eq!(jwt_payload("a..c").as_deref(), Some(""));
    assert_eq!(jwt_payload("abc"), None);
    assert_eq!(jwt_payload_bytes("x.e30.y"), Some(b"{}".to_vec()));
    assert_eq!(jwt_payload_bytes("x.e30=.y"), Some(b"{}".to_vec()));
    assert_eq!(jwt_payload_bytes("x.!!.y"), None);
}

fn check_saved_credentials_without_a_name_remain_compatible() {
    let stored = record("access-token", None);
    let restored = restored_record(stored.clone(), None, 0).unwrap();
    assert_eq!(restored, stored);
    assert_eq!(restored.name, None);
    assert_eq!(restored.account().email.as_deref(), Some("person@example.com"));
    assert_eq!(restored.account().provider, "openai");
}

#[test]
fn a_saved_record_without_access_token_is_invalid() {
    let result = restored_record(record("", None), None, 0);
    assert_eq!(result, Err(OpenAiAuthError::StoredCredentials("access token is empty".to_owned())));
}

#[test]
fn refresh_is_needed_inside_the_window() {
    assert!(!record("a", None).needs_refresh_at(0));
    assert!(record("a", Some(300_000)).needs_refresh_at(0));
    assert!(!record("a", Some(300_001)).needs_refresh_at(0));
    assert!(record("a", Some(u64::MAX)).needs_refresh_at(u64::MAX));
    assert!(!record("a", None).needs_refresh());
}

#[test]
fn access_and_refresh_steps() {
    assert_eq!(access_step(None, 0), Err(OpenAiAuthError::AuthenticationRequired));
    assert_eq!(access_step(Some(record("a", None)), 0), Ok(AccessStep::Use("a".to_owned())));
    assert_eq!(access_step(Some(record("a", Some(1))), 0), Ok(AccessStep::Refresh(record("a", Some(1)))));
    assert_eq!(force_refresh_step(Some(record("new", None)), "old"), Ok(AccessStep::Use("new".to_owned())));
    assert_eq!(force_refresh_step(Some(record("old", None)), "old"), Ok(AccessStep::Refresh(record("old", None))));
    assert_eq!(force_refresh_step(None, "old"), Err(OpenAiAuthError::AuthenticationRequired));
    let stale = record("stale", Some(1));
    assert_eq!(
        refresh_step(Some(record("fresh", None)), &stale, 0),
        Ok(RefreshStep::Current(record("fresh", None)))
    );
    assert_eq!(refresh_step(None, &stale, 0), Ok(RefreshStep::Exchange("refresh-token".to_owned())));
    let mut without = stale.clone();
    without.refresh_token = None;
    assert_eq!(refresh_step(Some(record("stale", None)), &without, 0), Err(OpenAiAuthError::AuthenticationRequired));
}

#[test]
fn oauth_error_messages_prefer_the_description() {
    let parsed = OAuthErrorResponse {
        error: Some("invalid_grant".to_owned()),
        error_description: Some("code expired".to_owned()),
    };
    assert_eq!(oauth_error_message(400, Some(parsed), b"ignored"), "HTTP 400: code expired");
    let code_only = OAuthErrorResponse { error: Some("invalid_grant".to_owned()), error_description: None };
    assert_eq!(oauth_error_message(401, Some(code_only), b""), "HTTP 401: invalid_grant");
    assert_eq!(oauth_error_message(500, None, b"upstream down"), "HTTP 500: upstream down");
    assert_eq!(
        oauth_error_message(502, None, b"  "),
        "HTTP 502: the authorization server rejected the request"
    );
    assert_eq!(
        oauth_error_message(503, None, &[0xff, 0xfe]),
        "HTTP 503: the authorization server rejected the request"
    );
}

#[test]
fn token_requests_fail_outside_two_hundreds() {
    assert_eq!(token_request_failure(200, None, b""), None);
    assert_eq!(
        token_request_failure(400, None, b"bad"),
        Some(OpenAiAuthError::TokenExchange("HTTP 400: bad".to_owned()))
    );
    assert_eq!(
        OpenAiAuthError::TokenExchange("x".to_owned()).describe(),
        "the OAuth token exchange failed: x"
    );
}

fn check_authorization_url_uses_pkce_and_local_callback() {
    let url = authorization_url("state", "verifier").expect("URL should build");
    let parsed = url::Url::parse(&url).expect("URL should parse");
    let query = parsed.query_pairs().collect::<std::collections::HashMap<_, _>>();

    assert_eq!(query.get("client_id").map(std::convert::AsRef::as_ref), Some(OAUTH_CLIENT_ID));
    assert_eq!(
        query.get("redirect_uri").map(std::convert::AsRef::as_ref),
        Some(redirect_uri().as_str())
    );
    assert_eq!(query.get("code_challenge_method").map(std::convert::AsRef::as_ref), Some("S256"));
    assert_eq!(query.get("state").map(std::convert::AsRef::as_ref), Some("state"));
    assert!(query.get("code_challenge").is_some_and(|value| !value.is_empty()));
    assert_eq!(redirect_uri(), "http://localhost:1455/auth/callback");
}

#[test]
fn the_challenge_is_the_hashed_verifier() {
    let url = authorization_url("s", "dBjftJeZ4CVP-mB92K27uhbUJU1p1r_wW1gFWFOEjXk").unwrap();
    let parsed = url::Url::parse(&url).unwrap();
    let challenge = parsed
        .query_pairs()
        .find(|(key, _)| key == "code_challenge")
        .map(|(_, value)| value.into_owned());
    assert_eq!(challenge.as_deref(), Some("E9Melhoa2OwvFrEMTJguCHaoeK1t8URWbuGJSstw-cM"));
}

#[test]
fn token_forms_carry_their_pairs() {
    let body = code_exchange_body("the code", "v");
    let pairs = url::form_urlencoded::parse(&body).into_owned().collect::<Vec<_>>();
    assert_eq!(pairs[0], ("grant_type".to_owned(), "authorization_code".to_owned()));
    assert_eq!(pairs[2], ("code".to_owned(), "the code".to_owned()));
    assert_eq!(pairs[3].1, redirect_uri());
    assert_eq!(pairs[4], ("code_verifier".to_owned(), "v".to_owned()));
    let body = refresh_body("r&t");
    assert_eq!(String::from_utf8(body).unwrap(), format!("grant_type=refresh_token&client_id={OAUTH_CLIENT_ID}&refresh_token=r%26t"));
}

#[test]
fn random_strings_have_the_encoded_length() {
    assert_eq!(random_urlsafe(32).len(), 43);
    assert_eq!(random_urlsafe(24).len(), 32);
    assert_ne!(random_urlsafe(32), random_urlsafe(32));
}

#[test]
fn the_callback_accepts_the_code_with_the_expected_state() {
    let decision = callback_request("GET /auth/callback?code=abc&state=s1 HTTP/1.1\r\n", "s1");
    assert_eq!(decision.outcome, Ok(Some("abc".to_owned())));
    let reply = decision.reply.unwrap();
    assert_eq!(reply.status, "200 OK");
    assert_eq!(reply.message, "Magenta is signed in. You can close this window.");
}

#[test]
fn the_callback_refuses_what_it_cannot_use() {
    let other = callback_request("GET /favicon.ico HTTP/1.1", "s1");
    assert_eq!(other.outcome, Ok(None));
    assert_eq!(other.reply.unwrap().status, "404 Not Found");

    let wrong = callback_request("GET /auth/callback?code=abc&state=s2 HTTP/1.1", "s1");
    assert_eq!(wrong.outcome, Err(OpenAiAuthError::CallbackRejected("state did not match".to_owned())));
    assert_eq!(wrong.reply.unwrap().message, "The sign-in request was rejected.");

    let denied = callback_request("GET /auth/callback?state=s1&error=access_denied HTTP/1.1", "s1");
    assert_eq!(
        denied.outcome,
        Err(OpenAiAuthError::CallbackRejected("access_denied: authorization was denied".to_owned()))
    );

    let described = callback_request(
        "GET /auth/callback?state=s1&error=e&error_description=no%20way HTTP/1.1",
        "s1",
    );
    assert_eq!(described.outcome, Err(OpenAiAuthError::CallbackRejected("e: no way".to_owned())));

    let missing = callback_request("GET /auth/callback?state=s1&code= HTTP/1.1", "s1");
    assert_eq!(
        missing.outcome,
        Err(OpenAiAuthError::CallbackRejected("authorization code is missing".to_owned()))
    );
    assert_eq!(missing.reply, None);

    let malformed = callback_request("GET", "s1");
    assert_eq!(
        malformed.outcome,
        Err(OpenAiAuthError::CallbackRejected("malformed HTTP request".to_owned()))
    );

    let later = callback_request("GET /auth/callback?state=s0&state=s1&code=c HTTP/1.1", "s1");
    assert_eq!(later.outcome, Ok(Some("c".to_owned())));
}

#[test]
fn callback_responses_state_the_page_length() {
    let response = callback_response("200 OK", "é");
    let (head, page) = response.split_once("\r\n\r\n").unwrap();
    assert!(head.starts_with("HTTP/1.1 200 OK\r\nContent-Type: text/html; charset=utf-8\r\n"));
    assert!(head.ends_with(&format!("Content-Length: {}\r\nConnection: close", page.len())));
    assert!(page.contains("<p>é</p>"));
}

#[test]
fn auth_token_claims_preserve_account_metadata() {
    check_token_claims_preserve_account_metadata();
}

#[test]
fn tests_token_claims_preserve_account_metadata() {
    check_token_claims_preserve_account_metadata();
}

#[test]
fn auth_saved_credentials_without_a_name_remain_compatible() {
    check_saved_credentials_without_a_name_remain_compatible();
}

#[test]
fn tests_saved_credentials_without_a_name_remain_compatible() {
    check_saved_credentials_without_a_name_remain_compatible();
}

#[test]
fn auth_authorization_url_uses_pkce_and_local_callback() {
    check_authorization_url_uses_pkce_and_local_callback();
}

#[test]
fn tests_authorization_url_uses_pkce_and_local_callback() {
    check_authorization_url_uses_pkce_and_local_callback();
}

#[test]
fn clock_readings_become_capped_milliseconds() {
    assert_eq!(clock_millis(Some(1_700_000_000_000)), 1_700_000_000_000);
    assert_eq!(clock_millis(Some(u128::from(u64::MAX) + 1)), u64::MAX);
    assert_eq!(clock_millis(None), 0);
}
