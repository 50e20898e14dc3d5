use vstd::prelude::*;

verus! {

/// Everything that can stop an authentication operation.
#[derive(Debug, Clone, PartialEq, Eq)]
pub enum AuthError {
    /// Dynamic client registration failed or returned a malformed body.
    Registration { reason: String },
    /// The authorization server redirected back with an explicit OAuth error.
    Authorization { code: String, description: Option<String> },
    /// The `state` echoed by the redirect differs from the one sent (possible CSRF).
    StateMismatch,
    /// No redirect arrived within the time budget.
    CallbackTimeout,
    /// The local listener for the redirect could not be set up.
    CallbackUnavailable { reason: String },
    /// Exchanging the authorization code for tokens failed.
    TokenExchange { reason: String },
    /// Refreshing the access token failed.
    TokenRefresh { reason: String },
    /// The storage backend cannot hold what was asked of it.
    StorageUnavailable { reason: String },
    /// No usable tokens are stored for the requested site and org.
    NoCredentials,
    /// The stored token set is expired (or within the expiry buffer).
    TokenExpired,
    /// The stored token set carries no refresh token.
    NoRefreshToken,
    /// No client registration is stored for the site.
    NoClientCredentials,
    /// A stored token record is in neither the org-map shape nor the legacy shape.
    UnrecognisedTokenFormat,
    /// The system's secure random source failed.
    RandomUnavailable,
}

} // verus!
