use pup::callback::{callback_query, parse_callback_query, CallbackListener, ListenerReply, ListenerState};
use pup::error::AuthError;
use pup::flow::{
    current_access_token, format_remaining, login_step, LoginAttempt, logout_deletes_client, refresh_inputs,
    token_status, CallbackResult, LoginAction, LoginEvent, LoginPhase, TokenStatus,
};
use pup::oauth::{
    build_authorization_url, challenge_for, client_from_registration, code_grant_body,
    generate_pkce_challenge, generate_state, join_scopes, refresh_grant_body,
    tokens_from_response, Grant, RegistrationResponse, TokenResponse,
};
use pup::types::{default_scopes, default_token_type, ClientCredentials, TokenSet};

fn token(issued_at: i64, expires_in: i64) -> TokenSet {
    TokenSet {
        access_token: "acc".into(),
        refresh_token: "ref".into(),
        token_type: "Bearer".into(),
        expires_in,
        issued_at,
        scope: String::new(),
        client_id: "cid".into(),
    }
}

fn creds(id: &str) -> ClientCredentials {
    ClientCredentials {
        client_id: id.into(),
        client_name: "pup".into(),
        redirect_uris: vec!["http://127.0.0.1:9000/callback".into()],
        registered_at: 1,
        site: "datadoghq.com".into(),
    }
}

fn attempt(state: &str) -> LoginAttempt {
    LoginAttempt {
        state: state.into(),
        verifier: "verifier-1".into(),
        redirect_uri: "http://127.0.0.1:9000/callback".into(),
    }
}

fn redirect(code: &str, state: &str) -> CallbackResult {
    CallbackResult {
        code: code.into(),
        state: state.into(),
        error: None,
        error_description: None,
    }
}

#[test]
fn expiry_boundary_at_five_minutes() {
    let now = 1_000_000;
    // issued_at + expires_in == now + 300: expired.
    assert!(token(now, 300).is_expired(now));
    assert!(token(now - 100, 400).is_expired(now));
    // One second more: still valid.
    assert!(!token(now, 301).is_expired(now));
    assert!(token(0, 10).is_expired(1_000));
    assert!(!token(0, 9_999_999_999).is_expired(1_000));
}

#[test]
fn status_reports_without_refreshing() {
    let now = 1_000;
    assert_eq!(token_status(None, now), TokenStatus::Absent);
    assert_eq!(token_status(Some(&token(0, 1_200)), now), TokenStatus::Expired);
    assert_eq!(
        token_status(Some(&token(0, 4_600)), now),
        TokenStatus::Valid { remaining_secs: 3_600 }
    );
    assert_eq!(format_remaining(3_545), "59m5s");
    assert_eq!(format_remaining(0), "0m0s");
    assert_eq!(format_remaining(600), "10m0s");
}

#[test]
fn access_token_for_collaborators() {
    let now = 1_000;
    assert_eq!(
        current_access_token(Some("envtok".into()), None, now).unwrap(),
        "envtok"
    );
    assert_eq!(
        current_access_token(None, None, now).unwrap_err(),
        AuthError::NoCredentials
    );
    assert_eq!(
        current_access_token(None, Some(token(0, 1_200)), now).unwrap_err(),
        AuthError::TokenExpired
    );
    assert_eq!(
        current_access_token(None, Some(token(0, 5_000)), now).unwrap(),
        "acc"
    );
}

#[test]
fn refresh_needs_tokens_refresh_token_and_client() {
    assert_eq!(
        refresh_inputs(None, Some(creds("c"))).unwrap_err(),
        AuthError::NoCredentials
    );
    let mut no_refresh = token(0, 10);
    no_refresh.refresh_token = String::new();
    assert_eq!(
        refresh_inputs(Some(no_refresh), Some(creds("c"))).unwrap_err(),
        AuthError::NoRefreshToken
    );
    assert_eq!(
        refresh_inputs(Some(token(0, 10)), None).unwrap_err(),
        AuthError::NoClientCredentials
    );
    let (rt, c) = refresh_inputs(Some(token(0, 10)), Some(creds("c"))).unwrap();
    assert_eq!(rt, "ref");
    assert_eq!(c.client_id, "c");
}

#[test]
fn logout_drops_client_only_for_default_session() {
    assert!(logout_deletes_client(None));
    assert!(!logout_deletes_client(Some("prod")));
}

#[test]
fn login_with_matching_state_persists_tokens_and_session() {
    let expected = &attempt("st8");
    let (p, a) = login_step(
        LoginPhase::LoadingClient,
        expected,
        LoginEvent::StoredClient(Some(creds("cid-1"))),
    );
    assert!(matches!(a, LoginAction::OpenBrowser { ref client_id } if client_id == "cid-1"));
    let (p, a) = login_step(p, expected, LoginEvent::Callback(Ok(redirect("the-code", "st8"))));
    match a {
        LoginAction::ExchangeCode { code, client_id, verifier, redirect_uri } => {
            assert_eq!(code, "the-code");
            assert_eq!(client_id, "cid-1");
            assert_eq!(verifier, "verifier-1");
            assert_eq!(redirect_uri, "http://127.0.0.1:9000/callback");
        }
        other => panic!("expected exchange, got {other:?}"),
    }
    let (p, a) = login_step(p, expected, LoginEvent::Exchanged(Ok(token(5, 3600))));
    assert!(matches!(a, LoginAction::SaveTokens(ref t) if t.issued_at == 5));
    let (p, a) = login_step(p, expected, LoginEvent::TokensSaved(Ok(())));
    assert!(matches!(a, LoginAction::SaveSession));
    let (p, a) = login_step(p, expected, LoginEvent::SessionSaved(Ok(())));
    assert!(matches!(a, LoginAction::Finish));
    assert!(matches!(p, LoginPhase::Done));
}

#[test]
fn login_registers_a_client_when_none_is_stored() {
    let (p, a) = login_step(LoginPhase::LoadingClient, &attempt("s"), LoginEvent::StoredClient(None));
    assert!(matches!(a, LoginAction::Register));
    let (p, a) = login_step(p, &attempt("s"), LoginEvent::Registered(Ok(creds("new"))));
    assert!(matches!(a, LoginAction::SaveClient(ref c) if c.client_id == "new"));
    let (_, a) = login_step(p, &attempt("s"), LoginEvent::ClientSaved(Ok(())));
    assert!(matches!(a, LoginAction::OpenBrowser { ref client_id } if client_id == "new"));
}

#[test]
fn login_with_mismatched_state_aborts_before_exchange() {
    let (p, a) = login_step(
        LoginPhase::AwaitingCallback { client_id: "cid".into() },
        &attempt("sent"),
        LoginEvent::Callback(Ok(redirect("code", "forged"))),
    );
    assert!(matches!(a, LoginAction::Abort(AuthError::StateMismatch)));
    assert!(matches!(p, LoginPhase::Failed));
    // Nothing after the abort leads to an exchange.
    let (p, a) = login_step(p, &attempt("sent"), LoginEvent::Callback(Ok(redirect("code", "sent"))));
    assert!(matches!(a, LoginAction::Wait));
    let (_, a) = login_step(p, &attempt("sent"), LoginEvent::Exchanged(Ok(token(0, 1))));
    assert!(matches!(a, LoginAction::Wait));
}

#[test]
fn login_surfaces_provider_error_verbatim() {
    let cb = CallbackResult {
        code: String::new(),
        state: "s".into(),
        error: Some("access_denied".into()),
        error_description: Some("User denied".into()),
    };
    let (_, a) = login_step(
        LoginPhase::AwaitingCallback { client_id: "cid".into() },
        &attempt("s"),
        LoginEvent::Callback(Ok(cb)),
    );
    match a {
        LoginAction::Abort(AuthError::Authorization { code, description }) => {
            assert_eq!(code, "access_denied");
            assert_eq!(description.as_deref(), Some("User denied"));
        }
        other => panic!("expected provider error, got {other:?}"),
    }
}

#[test]
fn login_timeout_aborts() {
    let (p, a) = login_step(
        LoginPhase::AwaitingCallback { client_id: "cid".into() },
        &attempt("s"),
        LoginEvent::Callback(Err(AuthError::CallbackTimeout)),
    );
    assert!(matches!(a, LoginAction::Abort(AuthError::CallbackTimeout)));
    assert!(matches!(p, LoginPhase::Failed));
}

#[test]
fn callback_query_values_are_kept_as_received() {
    let r = parse_callback_query("code=abc%2F1&state=x-y_z&extra=1");
    assert_eq!(r.code, "abc%2F1");
    assert_eq!(r.state, "x-y_z");
    assert!(r.error.is_none());
    let e = parse_callback_query("error=access_denied&error_description=no+thanks&state=s");
    assert_eq!(e.error.as_deref(), Some("access_denied"));
    assert_eq!(e.error_description.as_deref(), Some("no+thanks"));
    assert_eq!(e.code, "");
    let last = parse_callback_query("state=a&state=b&flag");
    assert_eq!(last.state, "b");
    let eq_in_value = parse_callback_query("code=a=b");
    assert_eq!(eq_in_value.code, "a=b");
}

#[test]
fn only_the_callback_path_is_accepted() {
    assert_eq!(
        callback_query("GET /callback?code=c&state=s HTTP/1.1").as_deref(),
        Some("code=c&state=s")
    );
    assert_eq!(callback_query("GET /callback HTTP/1.1").as_deref(), Some(""));
    assert!(callback_query("GET /favicon.ico HTTP/1.1").is_none());
    assert!(callback_query("GET").is_none());
}

#[test]
fn listener_honours_exactly_one_callback() {
    let mut l = CallbackListener::new(8123);
    assert_eq!(l.redirect_uri(), "http://127.0.0.1:8123/callback");
    assert!(matches!(l.on_request("GET /favicon.ico HTTP/1.1"), ListenerReply::NotFound));
    assert_eq!(l.current_state(), ListenerState::Listening);
    match l.on_request("GET /callback?code=c1&state=s1 HTTP/1.1") {
        ListenerReply::Honour(cb) => {
            assert_eq!(cb.code, "c1");
            assert_eq!(cb.state, "s1");
        }
        other => panic!("expected the callback, got {other:?}"),
    }
    assert!(matches!(
        l.on_request("GET /callback?code=c2&state=s2 HTTP/1.1"),
        ListenerReply::Refused
    ));
    assert!(l.on_timeout().is_ok());
    assert_eq!(l.current_state(), ListenerState::Received);
}

#[test]
fn listener_timeout_ends_the_wait() {
    let mut l = CallbackListener::new(1);
    assert_eq!(l.on_timeout().unwrap_err(), AuthError::CallbackTimeout);
    assert_eq!(l.current_state(), ListenerState::TimedOut);
    assert!(matches!(
        l.on_request("GET /callback?code=c&state=s HTTP/1.1"),
        ListenerReply::Refused
    ));
}

#[test]
fn pkce_challenge_matches_the_reference_vector() {
    assert_eq!(
        challenge_for("dBjftJeZ4CVP-mB92K27uhbUJU1p1r_wW1gFWFOEjXk"),
        "E9Melhoa2OwvFrEMTJguCHaoeK1t8URWbuGJSstw-cM"
    );
}

#[test]
fn pkce_pairs_and_states_are_fresh_and_url_safe() {
    let a = generate_pkce_challenge().unwrap();
    let b = generate_pkce_challenge().unwrap();
    assert_eq!(a.verifier.len(), 43);
    assert_ne!(a.verifier, b.verifier);
    assert_eq!(a.challenge, challenge_for(&a.verifier));
    let s = generate_state().unwrap();
    assert_eq!(s.len(), 43);
    assert!(s
        .chars()
        .all(|c| c.is_ascii_alphanumeric() || c == '-' || c == '_'));
    assert_ne!(s, generate_state().unwrap());
}

#[test]
fn authorization_url_is_fully_encoded() {
    let url = build_authorization_url(
        "https://app.datadoghq.com/oauth2/v1/authorize",
        "cid",
        "http://127.0.0.1:8000/callback",
        "st",
        "ch",
        &vec!["monitors_read", "logs_read_data"],
    );
    assert_eq!(
        url,
        "https://app.datadoghq.com/oauth2/v1/authorize?response_type=code&client_id=cid\
         &redirect_uri=http%3A%2F%2F127.0.0.1%3A8000%2Fcallback&state=st&code_challenge=ch\
         &code_challenge_method=S256&scope=monitors_read%20logs_read_data"
    );
}

#[test]
fn grant_bodies() {
    assert_eq!(
        code_grant_body("c d", "http://x/cb", "v~1", "id"),
        "grant_type=authorization_code&code=c%20d&redirect_uri=http%3A%2F%2Fx%2Fcb\
         &code_verifier=v~1&client_id=id"
    );
    assert_eq!(
        refresh_grant_body("r/t", "id"),
        "grant_type=refresh_token&refresh_token=r%2Ft&client_id=id"
    );
}

#[test]
fn scopes_are_space_joined() {
    assert_eq!(join_scopes(&vec![]), "");
    assert_eq!(join_scopes(&vec!["a"]), "a");
    assert_eq!(join_scopes(&vec!["a", "b", "c"]), "a b c");
    let scopes = default_scopes();
    assert_eq!(scopes.len(), 37);
    assert_eq!(scopes[0], "dashboards_read");
    assert_eq!(scopes[36], "usage_read");
    assert_eq!(default_token_type(), "Bearer");
}

#[test]
fn registration_answers() {
    let ok = client_from_registration(
        true,
        RegistrationResponse { client_id: Some("cid".into()), client_name: None },
        "pup".into(),
        "http://127.0.0.1:1/callback".into(),
        "datadoghq.com".into(),
        77,
    )
    .unwrap();
    assert_eq!(ok.client_id, "cid");
    assert_eq!(ok.client_name, "pup");
    assert_eq!(ok.redirect_uris, vec!["http://127.0.0.1:1/callback".to_string()]);
    assert_eq!(ok.registered_at, 77);
    assert!(matches!(
        client_from_registration(
            true,
            RegistrationResponse { client_id: None, client_name: None },
            "pup".into(),
            "u".into(),
            "s".into(),
            0
        ),
        Err(AuthError::Registration { .. })
    ));
    assert!(matches!(
        client_from_registration(
            false,
            RegistrationResponse { client_id: Some("x".into()), client_name: None },
            "pup".into(),
            "u".into(),
            "s".into(),
            0
        ),
        Err(AuthError::Registration { .. })
    ));
}

#[test]
fn token_responses_are_restamped_locally() {
    let resp = TokenResponse {
        access_token: Some("a".into()),
        refresh_token: None,
        token_type: None,
        expires_in: Some(3600),
        scope: Some("s1 s2".into()),
        error: None,
    };
    let t = tokens_from_response(Grant::Refresh, resp, "cid".into(), "old-rt".into(), 500).unwrap();
    assert_eq!(t.issued_at, 500);
    assert_eq!(t.refresh_token, "old-rt");
    assert_eq!(t.token_type, "Bearer");
    assert_eq!(t.client_id, "cid");
    assert_eq!(t.scope, "s1 s2");

    let refused = TokenResponse {
        access_token: None,
        refresh_token: None,
        token_type: None,
        expires_in: None,
        scope: None,
        error: Some("invalid_grant".into()),
    };
    assert_eq!(
        tokens_from_response(Grant::AuthorizationCode, refused.clone(), "c".into(), String::new(), 0)
            .unwrap_err(),
        AuthError::TokenExchange { reason: "invalid_grant".into() }
    );
    assert_eq!(
        tokens_from_response(Grant::Refresh, refused, "c".into(), String::new(), 0).unwrap_err(),
        AuthError::TokenRefresh { reason: "invalid_grant".into() }
    );
    let malformed = TokenResponse {
        access_token: Some("a".into()),
        refresh_token: None,
        token_type: None,
        expires_in: None,
        scope: None,
        error: None,
    };
    assert!(matches!(
        tokens_from_response(Grant::AuthorizationCode, malformed, "c".into(), String::new(), 0),
        Err(AuthError::TokenExchange { .. })
    ));
}

#[test]
fn token_response_fields_and_error_kinds() {
    let full = TokenResponse {
        access_token: Some("a".into()),
        refresh_token: Some("r2".into()),
        token_type: Some("DPoP".into()),
        expires_in: Some(60),
        scope: None,
        error: None,
    };
    let t = tokens_from_response(Grant::AuthorizationCode, full, "c".into(), "r1".into(), 9).unwrap();
    assert_eq!(t.token_type, "DPoP");
    assert_eq!(t.scope, "");
    assert_eq!(t.refresh_token, "r2");
    let missing = TokenResponse {
        access_token: None,
        refresh_token: None,
        token_type: None,
        expires_in: Some(60),
        scope: None,
        error: None,
    };
    assert!(matches!(
        tokens_from_response(Grant::Refresh, missing, "c".into(), String::new(), 0),
        Err(AuthError::TokenRefresh { .. })
    ));
}
