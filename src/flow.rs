use vstd::prelude::*;

use crate::error::AuthError;
use crate::text::{push_decimal, same_text};
use crate::types::{expired_at, expiry_of, ClientCredentials, TokenSet};

verus! {

/// What the callback listener captured from the browser redirect.
#[derive(Debug, Clone)]
pub struct CallbackResult {
    pub code: String,
    pub state: String,
    pub error: Option<String>,
    pub error_description: Option<String>,
}

/// What belongs to one login attempt and must not leak into another: the CSRF
/// state sent with the authorization request, the PKCE verifier behind its
/// challenge, and the redirect URI of this attempt's listener.
#[derive(Debug, Clone)]
pub struct LoginAttempt {
    pub state: String,
    pub verifier: String,
    pub redirect_uri: String,
}

/// Where a login stands.
#[derive(Debug)]
pub enum LoginPhase {
    /// Waiting for the stored client registration of the site (if any).
    LoadingClient,
    /// Waiting for a new client registration.
    Registering,
    /// Waiting for the new registration to be stored.
    SavingClient { client_id: String },
    /// The browser was sent to the authorization page; waiting for the redirect.
    AwaitingCallback { client_id: String },
    /// Waiting for the code exchange.
    Exchanging,
    /// Waiting for the new tokens to be stored.
    SavingTokens,
    /// Waiting for the session to be recorded.
    SavingSession,
    /// Logged in.
    Done,
    /// Aborted; nothing further happens.
    Failed,
}

/// What the caller reports back after carrying out an action.
#[derive(Debug)]
pub enum LoginEvent {
    StoredClient(Option<ClientCredentials>),
    Registered(Result<ClientCredentials, AuthError>),
    ClientSaved(Result<(), AuthError>),
    /// The redirect, or the timeout error when none came in time.
    Callback(Result<CallbackResult, AuthError>),
    Exchanged(Result<TokenSet, AuthError>),
    TokensSaved(Result<(), AuthError>),
    SessionSaved(Result<(), AuthError>),
}

/// What the caller must do next.
#[derive(Debug)]
pub enum LoginAction {
    /// Register a new OAuth client for the site.
    Register,
    /// Store this client registration for the site.
    SaveClient(ClientCredentials),
    /// Open the authorization page for this client and wait for the redirect.
    OpenBrowser { client_id: String },
    /// Exchange this authorization code for tokens, as this client, with this
    /// attempt's PKCE verifier and redirect URI.
    ExchangeCode { code: String, client_id: String, verifier: String, redirect_uri: String },
    /// Store these tokens under the login's site and org.
    SaveTokens(TokenSet),
    /// Record the (site, org) session.
    SaveSession,
    /// The login succeeded.
    Finish,
    /// The login stops with this error.
    Abort(AuthError),
    /// The event does not belong to this phase; nothing to do.
    Wait,
}

/// The next phase and action of the login `attempt`.
pub open spec fn login_next(phase: LoginPhase, attempt: LoginAttempt, ev: LoginEvent) -> (
    LoginPhase,
    LoginAction,
) {
    match (phase, ev) {
        (LoginPhase::LoadingClient, LoginEvent::StoredClient(Some(c))) => (
            LoginPhase::AwaitingCallback { client_id: c.client_id },
            LoginAction::OpenBrowser { client_id: c.client_id },
        ),
        (LoginPhase::LoadingClient, LoginEvent::StoredClient(None)) => (
            LoginPhase::Registering,
            LoginAction::Register,
        ),
        (LoginPhase::Registering, LoginEvent::Registered(Ok(c))) => (
            LoginPhase::SavingClient { client_id: c.client_id },
            LoginAction::SaveClient(c),
        ),
        (LoginPhase::SavingClient { client_id }, LoginEvent::ClientSaved(Ok(()))) => (
            LoginPhase::AwaitingCallback { client_id },
            LoginAction::OpenBrowser { client_id },
        ),
        (LoginPhase::AwaitingCallback { client_id }, LoginEvent::Callback(Ok(cb))) => {
            match cb.error {
                Some(code) => (
                    LoginPhase::Failed,
                    LoginAction::Abort(
                        AuthError::Authorization { code, description: cb.error_description },
                    ),
                ),
                None => if cb.state@ == attempt.state@ {
                    (
                        LoginPhase::Exchanging,
                        LoginAction::ExchangeCode {
                            code: cb.code,
                            client_id,
                            verifier: attempt.verifier,
                            redirect_uri: attempt.redirect_uri,
                        },
                    )
                } else {
                    (LoginPhase::Failed, LoginAction::Abort(AuthError::StateMismatch))
                },
            }
        },
        (LoginPhase::Exchanging, LoginEvent::Exchanged(Ok(t))) => (
            LoginPhase::SavingTokens,
            LoginAction::SaveTokens(t),
        ),
        (LoginPhase::SavingTokens, LoginEvent::TokensSaved(Ok(()))) => (
            LoginPhase::SavingSession,
            LoginAction::SaveSession,
        ),
        (LoginPhase::SavingSession, LoginEvent::SessionSaved(Ok(()))) => (
            LoginPhase::Done,
            LoginAction::Finish,
        ),
        (LoginPhase::Registering, LoginEvent::Registered(Err(e))) => (
            LoginPhase::Failed,
            LoginAction::Abort(e),
        ),
        (LoginPhase::SavingClient { .. }, LoginEvent::ClientSaved(Err(e))) => (
            LoginPhase::Failed,
            LoginAction::Abort(e),
        ),
        (LoginPhase::AwaitingCallback { .. }, LoginEvent::Callback(Err(e))) => (
            LoginPhase::Failed,
            LoginAction::Abort(e),
        ),
        (LoginPhase::Exchanging, LoginEvent::Exchanged(Err(e))) => (
            LoginPhase::Failed,
            LoginAction::Abort(e),
        ),
        (LoginPhase::SavingTokens, LoginEvent::TokensSaved(Err(e))) => (
            LoginPhase::Failed,
            LoginAction::Abort(e),
        ),
        (LoginPhase::SavingSession, LoginEvent::SessionSaved(Err(e))) => (
            LoginPhase::Failed,
            LoginAction::Abort(e),
        ),
        (p, _) => (p, LoginAction::Wait),
    }
}

/// Advances a login by one reported event. The redirect's `state` must equal the
/// one this attempt sent, character for character, before any code exchange, and
/// the exchange uses this attempt's verifier and redirect URI.
pub fn login_step(phase: LoginPhase, attempt: &LoginAttempt, ev: LoginEvent) -> (r: (
    LoginPhase,
    LoginAction,
))
    ensures
        r == login_next(phase, *attempt, ev),
{
    match (phase, ev) {
        (LoginPhase::LoadingClient, LoginEvent::StoredClient(Some(c))) => {
            let id = c.client_id;
            let id2 = id.clone();
            (LoginPhase::AwaitingCallback { client_id: id }, LoginAction::OpenBrowser { client_id: id2 })
        },
        (LoginPhase::LoadingClient, LoginEvent::StoredClient(None)) => (
            LoginPhase::Registering,
            LoginAction::Register,
        ),
        (LoginPhase::Registering, LoginEvent::Registered(Ok(c))) => {
            let id = c.client_id.clone();
            (LoginPhase::SavingClient { client_id: id }, LoginAction::SaveClient(c))
        },
        (LoginPhase::SavingClient { client_id }, LoginEvent::ClientSaved(Ok(()))) => {
            let id2 = client_id.clone();
            (LoginPhase::AwaitingCallback { client_id }, LoginAction::OpenBrowser { client_id: id2 })
        },
        (LoginPhase::AwaitingCallback { client_id }, LoginEvent::Callback(Ok(cb))) => {
            match cb.error {
                Some(code) => (
                    LoginPhase::Failed,
                    LoginAction::Abort(
                        AuthError::Authorization { code, description: cb.error_description },
                    ),
                ),
                None => {
                    if same_text(cb.state.as_str(), attempt.state.as_str()) {
                        (
                            LoginPhase::Exchanging,
                            LoginAction::ExchangeCode {
                                code: cb.code,
                                client_id,
                                verifier: attempt.verifier.clone(),
                                redirect_uri: attempt.redirect_uri.clone(),
                            },
                        )
                    } else {
                        (LoginPhase::Failed, LoginAction::Abort(AuthError::StateMismatch))
                    }
                },
            }
        },
        (LoginPhase::Exchanging, LoginEvent::Exchanged(Ok(t))) => (
            LoginPhase::SavingTokens,
            LoginAction::SaveTokens(t),
        ),
        (LoginPhase::SavingTokens, LoginEvent::TokensSaved(Ok(()))) => (
            LoginPhase::SavingSession,
            LoginAction::SaveSession,
        ),
        (LoginPhase::SavingSession, LoginEvent::SessionSaved(Ok(()))) => (
            LoginPhase::Done,
            LoginAction::Finish,
        ),
        (LoginPhase::Registering, LoginEvent::Registered(Err(e))) => (
            LoginPhase::Failed,
            LoginAction::Abort(e),
        ),
        (LoginPhase::SavingClient { .. }, LoginEvent::ClientSaved(Err(e))) => (
            LoginPhase::Failed,
            LoginAction::Abort(e),
        ),
        (LoginPhase::AwaitingCallback { .. }, LoginEvent::Callback(Err(e))) => (
            LoginPhase::Failed,
            LoginAction::Abort(e),
        ),
        (LoginPhase::Exchanging, LoginEvent::Exchanged(Err(e))) => (
            LoginPhase::Failed,
            LoginAction::Abort(e),
        ),
        (LoginPhase::SavingTokens, LoginEvent::TokensSaved(Err(e))) => (
            LoginPhase::Failed,
            LoginAction::Abort(e),
        ),
        (LoginPhase::SavingSession, LoginEvent::SessionSaved(Err(e))) => (
            LoginPhase::Failed,
            LoginAction::Abort(e),
        ),
        (p, _) => (p, LoginAction::Wait),
    }
}

/// With a stored client, a redirect that echoes the sent state and carries a code
/// leads through the exchange to stored tokens, a recorded session, and success.
pub proof fn lemma_login_succeeds(
    client: ClientCredentials,
    attempt: LoginAttempt,
    cb: CallbackResult,
    t: TokenSet,
)
    requires
        cb.error is None,
        cb.state@ == attempt.state@,
    ensures
        ({
            let (waiting, open) = login_next(
                LoginPhase::LoadingClient,
                attempt,
                LoginEvent::StoredClient(Some(client)),
            );
            let (exchanging, exchange) = login_next(waiting, attempt, LoginEvent::Callback(Ok(cb)));
            let (saving, save) = login_next(exchanging, attempt, LoginEvent::Exchanged(Ok(t)));
            let (recording, record) = login_next(saving, attempt, LoginEvent::TokensSaved(Ok(())));
            let (last, finish) = login_next(recording, attempt, LoginEvent::SessionSaved(Ok(())));
            &&& open == LoginAction::OpenBrowser { client_id: client.client_id }
            &&& exchange == LoginAction::ExchangeCode {
                code: cb.code,
                client_id: client.client_id,
                verifier: attempt.verifier,
                redirect_uri: attempt.redirect_uri,
            }
            &&& save == LoginAction::SaveTokens(t)
            &&& record == LoginAction::SaveSession
            &&& finish == LoginAction::Finish
            &&& last == LoginPhase::Done
        }),
{
}

/// A redirect whose state differs from the one sent aborts the login with a state
/// mismatch, and once aborted no event leads anywhere: no code is ever exchanged.
pub proof fn lemma_state_mismatch_stops_login(
    client_id: String,
    attempt: LoginAttempt,
    cb: CallbackResult,
    later: LoginEvent,
)
    requires
        cb.error is None,
        cb.state@ != attempt.state@,
    ensures
        login_next(LoginPhase::AwaitingCallback { client_id }, attempt, LoginEvent::Callback(Ok(cb)))
            == (LoginPhase::Failed, LoginAction::Abort(AuthError::StateMismatch)),
        login_next(LoginPhase::Failed, attempt, later) == (LoginPhase::Failed, LoginAction::Wait),
{
}

/// An explicit error in the redirect aborts the login with the provider's code and
/// description as received.
pub proof fn lemma_provider_error_surfaces(client_id: String, attempt: LoginAttempt, cb: CallbackResult)
    requires
        cb.error is Some,
    ensures
        login_next(LoginPhase::AwaitingCallback { client_id }, attempt, LoginEvent::Callback(Ok(cb)))
            == (
            LoginPhase::Failed,
            LoginAction::Abort(
                AuthError::Authorization { code: cb.error->0, description: cb.error_description },
            ),
        ),
{
}

/// Without a stored client, the login registers one, stores it, and then goes on as
/// with a stored client: a redirect echoing the sent state is exchanged with this
/// attempt's verifier and redirect URI, and the tokens and session are stored.
pub proof fn lemma_login_registers_then_succeeds(
    client: ClientCredentials,
    attempt: LoginAttempt,
    cb: CallbackResult,
    t: TokenSet,
)
    requires
        cb.error is None,
        cb.state@ == attempt.state@,
    ensures
        ({
            let (registering, register) = login_next(
                LoginPhase::LoadingClient,
                attempt,
                LoginEvent::StoredClient(None),
            );
            let (saving_client, save_client) = login_next(
                registering,
                attempt,
                LoginEvent::Registered(Ok(client)),
            );
            let (waiting, open) = login_next(saving_client, attempt, LoginEvent::ClientSaved(Ok(())));
            let (exchanging, exchange) = login_next(waiting, attempt, LoginEvent::Callback(Ok(cb)));
            let (saving, save) = login_next(exchanging, attempt, LoginEvent::Exchanged(Ok(t)));
            let (recording, record) = login_next(saving, attempt, LoginEvent::TokensSaved(Ok(())));
            let (last, finish) = login_next(recording, attempt, LoginEvent::SessionSaved(Ok(())));
            &&& register == LoginAction::Register
            &&& save_client == LoginAction::SaveClient(client)
            &&& open == LoginAction::OpenBrowser { client_id: client.client_id }
            &&& exchange == LoginAction::ExchangeCode {
                code: cb.code,
                client_id: client.client_id,
                verifier: attempt.verifier,
                redirect_uri: attempt.redirect_uri,
            }
            &&& save == LoginAction::SaveTokens(t)
            &&& record == LoginAction::SaveSession
            &&& finish == LoginAction::Finish
            &&& last == LoginPhase::Done
        }),
{
}

/// Logging out of the org-less session also drops the site's client registration;
/// logging out of a named org keeps it, since other orgs share it.
pub fn logout_deletes_client(org: Option<&str>) -> (r: bool)
    ensures
        r == org is None,
{
    org.is_none()
}

/// Checks that a refresh can be attempted: stored tokens with a refresh token, and a
/// stored client registration. Hands back the refresh token and the registration.
pub fn refresh_inputs(tokens: Option<TokenSet>, creds: Option<ClientCredentials>) -> (r: Result<
    (String, ClientCredentials),
    AuthError,
>)
    ensures
        tokens is None ==> r == Err::<(String, ClientCredentials), AuthError>(
            AuthError::NoCredentials,
        ),
        (tokens is Some && tokens->0.refresh_token@.len() == 0) ==> r == Err::<
            (String, ClientCredentials),
            AuthError,
        >(AuthError::NoRefreshToken),
        (tokens is Some && tokens->0.refresh_token@.len() > 0) ==> match creds {
            None => r == Err::<(String, ClientCredentials), AuthError>(
                AuthError::NoClientCredentials,
            ),
            Some(c) => r == Ok::<(String, ClientCredentials), AuthError>(
                (tokens->0.refresh_token, c),
            ),
        },
{
    match tokens {
        None => Err(AuthError::NoCredentials),
        Some(t) => {
            if t.refresh_token.as_str().unicode_len() == 0 {
                return Err(AuthError::NoRefreshToken);
            }
            match creds {
                None => Err(AuthError::NoClientCredentials),
                Some(c) => Ok((t.refresh_token, c)),
            }
        },
    }
}

/// The state of a stored login, as reported without side effects.
#[derive(Debug, Clone, Copy, PartialEq, Eq, Structural)]
pub enum TokenStatus {
    /// No tokens are stored.
    Absent,
    /// Tokens are stored but expired, or inside the expiry buffer.
    Expired,
    /// Tokens are valid for this many more seconds.
    Valid { remaining_secs: i128 },
}

/// Classifies the stored tokens at time `now`. Never refreshes anything.
pub fn token_status(tokens: Option<&TokenSet>, now: i64) -> (r: TokenStatus)
    ensures
        tokens is None ==> r == TokenStatus::Absent,
        (tokens is Some && expired_at(*tokens->0, now as int)) ==> r == TokenStatus::Expired,
        (tokens is Some && !expired_at(*tokens->0, now as int)) ==> r == (TokenStatus::Valid {
            remaining_secs: (expiry_of(*tokens->0) - now) as i128,
        }),
{
    match tokens {
        None => TokenStatus::Absent,
        Some(t) => {
            if t.is_expired(now) {
                TokenStatus::Expired
            } else {
                TokenStatus::Valid { remaining_secs: t.remaining_secs_at(now) }
            }
        },
    }
}

/// Remaining time as minutes and seconds, "<m>m<s>s".
pub open spec fn remaining_text(secs: nat) -> Seq<char> {
    crate::text::decimal(secs / 60) + seq!['m'] + crate::text::decimal(secs % 60) + seq!['s']
}

/// Renders a remaining time as minutes and seconds, such as "59m5s".
pub fn format_remaining(secs: u64) -> (r: String)
    ensures
        r@ == remaining_text(secs as nat),
{
    let mut out = String::new();
    push_decimal(&mut out, secs / 60);
    out.append("m");
    push_decimal(&mut out, secs % 60);
    out.append("s");
    proof {
        reveal_strlit("m");
        reveal_strlit("s");
    }
    assert(out@ =~= remaining_text(secs as nat));
    out
}

/// The access token a collaborator may use: the one given in the environment when
/// there is one, else the stored one unless it is absent or expired at `now`.
pub fn current_access_token(env_token: Option<String>, stored: Option<TokenSet>, now: i64) -> (r:
    Result<String, AuthError>)
    ensures
        env_token matches Some(tok) ==> r == Ok::<String, AuthError>(tok),
        (env_token is None && stored is None) ==> r == Err::<String, AuthError>(
            AuthError::NoCredentials,
        ),
        (env_token is None && stored is Some) ==> r == if expired_at(stored->0, now as int) {
            Err::<String, AuthError>(AuthError::TokenExpired)
        } else {
            Ok::<String, AuthError>(stored->0.access_token)
        },
{
    match env_token {
        Some(tok) => Ok(tok),
        None => match stored {
            None => Err(AuthError::NoCredentials),
            Some(t) => {
                if t.is_expired(now) {
                    Err(AuthError::TokenExpired)
                } else {
                    Ok(t.access_token)
                }
            },
        },
    }
}

} // verus!
