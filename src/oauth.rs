use vstd::prelude::*;

use vstd::utf8::encode_utf8;

use crate::error::AuthError;
use crate::text::push_char;
use crate::types::{ClientCredentials, TokenSet};

verus! {

/// Number of random bytes behind a PKCE verifier and a CSRF state.
pub const RANDOM_TOKEN_BYTES: usize = 32;

/// What SHA-256 gives for `data`.
pub uninterp spec fn sha256_of(data: Seq<u8>) -> Seq<u8>;

/// The unpadded URL-safe base64 text of `data`.
pub uninterp spec fn base64url_of(data: Seq<u8>) -> Seq<char>;

/// Relies on `rand::rngs::OsRng::try_fill_bytes`: fills the buffer from the operating
/// system's secure random source, or reports that the source failed.
#[verifier::external_body]
fn os_random_bytes(n: usize) -> (r: Option<Vec<u8>>)
    ensures
        r matches Some(b) ==> b@.len() == n,
{
    let mut buf = vec![0u8; n];
    match rand::RngCore::try_fill_bytes(&mut rand::rngs::OsRng, &mut buf) {
        Ok(()) => Some(buf),
        Err(_) => None,
    }
}

/// Relies on `sha2::Sha256::digest`: the 32-byte SHA-256 digest of the input.
#[verifier::external_body]
fn sha256(data: &[u8]) -> (r: Vec<u8>)
    ensures
        r@ == sha256_of(data@),
        r@.len() == 32,
{
    <sha2::Sha256 as sha2::Digest>::digest(data).to_vec()
}

/// A character of the URL-safe base64 alphabet: ASCII letters, digits, '-' and '_'.
pub open spec fn url_safe_char(c: char) -> bool {
    ('A' <= c && c <= 'Z') || ('a' <= c && c <= 'z') || ('0' <= c && c <= '9') || c == '-' || c
        == '_'
}

/// Text made of URL-safe base64 characters only.
pub open spec fn url_safe_text(s: Seq<char>) -> bool {
    forall|i: int| 0 <= i < s.len() ==> url_safe_char(#[trigger] s[i])
}

/// Relies on `base64`'s `URL_SAFE_NO_PAD` engine: URL-safe base64 without padding,
/// four characters for each three bytes and two or three for a final one or two
/// (`encoded_len`), drawn from the `URL_SAFE` alphabet. `encoded_len` panics on a
/// length whose output size overflows, which the bound on `data` rules out.
#[verifier::external_body]
fn base64url(data: &[u8]) -> (r: String)
    requires
        data@.len() <= 0x4000_0000_0000_0000,
    ensures
        r@ == base64url_of(data@),
        r@.len() == (4 * data@.len() + 2) / 3,
        url_safe_text(r@),
{
    base64::Engine::encode(&base64::engine::general_purpose::URL_SAFE_NO_PAD, data)
}

/// A PKCE verifier and the challenge derived from it (method S256).
#[derive(Debug, Clone)]
pub struct PkceChallenge {
    pub verifier: String,
    pub challenge: String,
}

/// The S256 challenge of a verifier: base64url(SHA-256(verifier)).
pub open spec fn s256_challenge(verifier: Seq<char>) -> Seq<char> {
    base64url_of(sha256_of(encode_utf8(verifier)))
}

/// Derives the S256 challenge of `verifier`.
pub fn challenge_for(verifier: &str) -> (r: String)
    ensures
        r@ == s256_challenge(verifier@),
        r@.len() == 43,
        url_safe_text(r@),
{
    let digest = sha256(verifier.as_bytes());
    base64url(digest.as_slice())
}

/// A fresh PKCE pair: a verifier made of 32 random bytes in URL-safe base64, and its
/// S256 challenge. Fails only when the system's random source does.
pub fn generate_pkce_challenge() -> (r: Result<PkceChallenge, AuthError>)
    ensures
        r matches Ok(p) ==> ((exists|b: Seq<u8>| b.len() == 32 && p.verifier@ == base64url_of(b))
            && p.verifier@.len() == 43 && url_safe_text(p.verifier@) && p.challenge@
            == s256_challenge(p.verifier@) && p.challenge@.len() == 43 && url_safe_text(
            p.challenge@,
        )),
        r matches Err(e) ==> e == AuthError::RandomUnavailable,
{
    match os_random_bytes(RANDOM_TOKEN_BYTES) {
        Some(bytes) => {
            let verifier = base64url(bytes.as_slice());
            let challenge = challenge_for(verifier.as_str());
            Ok(PkceChallenge { verifier, challenge })
        },
        None => Err(AuthError::RandomUnavailable),
    }
}

/// A fresh CSRF state: 32 random bytes in URL-safe base64, independent of any PKCE pair.
pub fn generate_state() -> (r: Result<String, AuthError>)
    ensures
        r matches Ok(s) ==> ((exists|b: Seq<u8>| b.len() == 32 && s@ == base64url_of(b))
            && s@.len() == 43 && url_safe_text(s@)),
        r matches Err(e) ==> e == AuthError::RandomUnavailable,
{
    match os_random_bytes(RANDOM_TOKEN_BYTES) {
        Some(bytes) => Ok(base64url(bytes.as_slice())),
        None => Err(AuthError::RandomUnavailable),
    }
}

/// Bytes that stand for themselves in a URL component (RFC 3986 unreserved).
pub open spec fn unreserved(b: u8) -> bool {
    (0x41 <= b <= 0x5a) || (0x61 <= b <= 0x7a) || (0x30 <= b <= 0x39) || b == 0x2d || b == 0x2e
        || b == 0x5f || b == 0x7e
}

/// Upper-case hexadecimal digit of `d` (below sixteen).
pub open spec fn hex_digit(d: u8) -> char {
    if d < 10 {
        (0x30 + d) as char
    } else {
        (0x37 + d) as char
    }
}

/// Percent-encoding of a byte string: unreserved bytes as themselves, the rest as `%XX`.
pub open spec fn percent_encoded(bytes: Seq<u8>) -> Seq<char>
    decreases bytes.len(),
{
    if bytes.len() == 0 {
        Seq::empty()
    } else {
        let b = bytes.last();
        let tail = if unreserved(b) {
            seq![b as char]
        } else {
            seq!['%', hex_digit(b / 16), hex_digit(b % 16)]
        };
        percent_encoded(bytes.drop_last()) + tail
    }
}

fn hex(d: u8) -> (c: char)
    requires
        d < 16,
    ensures
        c == hex_digit(d),
{
    if d < 10 {
        (0x30 + d) as char
    } else {
        (0x37 + d) as char
    }
}

/// Appends the percent-encoding of `s`'s UTF-8 bytes to `out`.
pub fn push_percent_encoded(out: &mut String, s: &str)
    ensures
        final(out)@ == old(out)@ + percent_encoded(encode_utf8(s@)),
{
    let bytes = s.as_bytes();
    let mut i: usize = 0;
    while i < bytes.len()
        invariant
            bytes@ == encode_utf8(s@),
            i <= bytes@.len(),
            out@ == old(out)@ + percent_encoded(bytes@.subrange(0, i as int)),
        decreases bytes@.len() - i,
    {
        let b = bytes[i];
        proof {
            assert(bytes@.subrange(0, i as int + 1).drop_last() =~= bytes@.subrange(0, i as int));
        }
        if (0x41 <= b && b <= 0x5a) || (0x61 <= b && b <= 0x7a) || (0x30 <= b && b <= 0x39) || b
            == 0x2d || b == 0x2e || b == 0x5f || b == 0x7e {
            push_char(out, b as char);
        } else {
            push_char(out, '%');
            push_char(out, hex(b / 16));
            push_char(out, hex(b % 16));
        }
        assert(out@ =~= old(out)@ + percent_encoded(bytes@.subrange(0, i as int + 1)));
        i = i + 1;
    }
    assert(bytes@.subrange(0, bytes@.len() as int) =~= bytes@);
}

/// Parts joined with `sep` between each two.
pub open spec fn joined(parts: Seq<Seq<char>>, sep: Seq<char>) -> Seq<char>
    decreases parts.len(),
{
    if parts.len() == 0 {
        Seq::empty()
    } else if parts.len() == 1 {
        parts[0]
    } else {
        joined(parts.drop_last(), sep) + sep + parts.last()
    }
}

/// Joins the scope names with single spaces, as the `scope` parameter wants them.
pub fn join_scopes(scopes: &Vec<&str>) -> (r: String)
    ensures
        r@ == joined(scopes@.map_values(|s: &str| s@), " "@),
{
    let ghost names = scopes@.map_values(|s: &str| s@);
    let mut out = String::new();
    let mut i: usize = 0;
    while i < scopes.len()
        invariant
            names == scopes@.map_values(|s: &str| s@),
            i <= scopes@.len(),
            out@ == joined(names.subrange(0, i as int), " "@),
        decreases scopes@.len() - i,
    {
        proof {
            assert(names.subrange(0, i as int + 1).drop_last() =~= names.subrange(0, i as int));
        }
        if i > 0 {
            out.append(" ");
        }
        out.append(scopes[i]);
        assert(out@ =~= joined(names.subrange(0, i as int + 1), " "@));
        i = i + 1;
    }
    assert(names.subrange(0, scopes@.len() as int) =~= names);
    out
}

/// The authorization-code request with PKCE for `endpoint`.
pub open spec fn authorization_url_of(
    endpoint: Seq<char>,
    client_id: Seq<char>,
    redirect_uri: Seq<char>,
    state: Seq<char>,
    challenge: Seq<char>,
    scope: Seq<char>,
) -> Seq<char> {
    endpoint + "?response_type=code&client_id="@ + percent_encoded(
        encode_utf8(client_id),
    ) + "&redirect_uri="@ + percent_encoded(encode_utf8(redirect_uri))
        + "&state="@ + percent_encoded(encode_utf8(state)) + "&code_challenge="@
        + percent_encoded(encode_utf8(challenge))
        + "&code_challenge_method=S256&scope="@ + percent_encoded(
        encode_utf8(scope),
    )
}

/// Builds the URL that sends the browser to the authorization page. Pure: no
/// network call, no failure.
pub fn build_authorization_url(
    endpoint: &str,
    client_id: &str,
    redirect_uri: &str,
    state: &str,
    challenge: &str,
    scopes: &Vec<&str>,
) -> (r: String)
    ensures
        r@ == authorization_url_of(
            endpoint@,
            client_id@,
            redirect_uri@,
            state@,
            challenge@,
            joined(scopes@.map_values(|s: &str| s@), " "@),
        ),
{
    let scope = join_scopes(scopes);
    let mut out = String::from_str(endpoint);
    out.append("?response_type=code&client_id=");
    push_percent_encoded(&mut out, client_id);
    out.append("&redirect_uri=");
    push_percent_encoded(&mut out, redirect_uri);
    out.append("&state=");
    push_percent_encoded(&mut out, state);
    out.append("&code_challenge=");
    push_percent_encoded(&mut out, challenge);
    out.append("&code_challenge_method=S256&scope=");
    push_percent_encoded(&mut out, scope.as_str());
    out
}

/// Form body of the authorization-code grant.
pub open spec fn code_grant_body_of(
    code: Seq<char>,
    redirect_uri: Seq<char>,
    verifier: Seq<char>,
    client_id: Seq<char>,
) -> Seq<char> {
    "grant_type=authorization_code&code="@ + percent_encoded(encode_utf8(code))
        + "&redirect_uri="@ + percent_encoded(encode_utf8(redirect_uri))
        + "&code_verifier="@ + percent_encoded(encode_utf8(verifier))
        + "&client_id="@ + percent_encoded(encode_utf8(client_id))
}

/// The form body that exchanges an authorization code, with its PKCE verifier.
pub fn code_grant_body(code: &str, redirect_uri: &str, verifier: &str, client_id: &str) -> (r:
    String)
    ensures
        r@ == code_grant_body_of(code@, redirect_uri@, verifier@, client_id@),
{
    let mut out = String::from_str("grant_type=authorization_code&code=");
    push_percent_encoded(&mut out, code);
    out.append("&redirect_uri=");
    push_percent_encoded(&mut out, redirect_uri);
    out.append("&code_verifier=");
    push_percent_encoded(&mut out, verifier);
    out.append("&client_id=");
    push_percent_encoded(&mut out, client_id);
    out
}

/// Form body of the refresh grant.
pub open spec fn refresh_grant_body_of(refresh_token: Seq<char>, client_id: Seq<char>) -> Seq<
    char,
> {
    "grant_type=refresh_token&refresh_token="@ + percent_encoded(
        encode_utf8(refresh_token),
    ) + "&client_id="@ + percent_encoded(encode_utf8(client_id))
}

/// The form body that trades a refresh token for new tokens.
pub fn refresh_grant_body(refresh_token: &str, client_id: &str) -> (r: String)
    ensures
        r@ == refresh_grant_body_of(refresh_token@, client_id@),
{
    let mut out = String::from_str("grant_type=refresh_token&refresh_token=");
    push_percent_encoded(&mut out, refresh_token);
    out.append("&client_id=");
    push_percent_encoded(&mut out, client_id);
    out
}

/// The fields of a registration response that matter.
#[derive(Debug, Clone)]
pub struct RegistrationResponse {
    pub client_id: Option<String>,
    pub client_name: Option<String>,
}

/// Turns a registration answer into the site's client credentials, stamped with the
/// local time `now`. A failed request or a body without `client_id` is a registration error.
pub fn client_from_registration(
    success: bool,
    resp: RegistrationResponse,
    requested_name: String,
    redirect_uri: String,
    site: String,
    now: i64,
) -> (r: Result<ClientCredentials, AuthError>)
    ensures
        (!success || resp.client_id is None) <==> (r matches Err(AuthError::Registration { .. })),
        r matches Ok(c) ==> (c.client_id == resp.client_id->0 && c.client_name == (match resp.client_name {
            Some(n) => n,
            None => requested_name,
        }) && c.redirect_uris@ == seq![redirect_uri] && c.registered_at == now && c.site == site),
{
    if !success {
        return Err(
            AuthError::Registration { reason: String::from_str("registration request failed") },
        );
    }
    match resp.client_id {
        None => Err(
            AuthError::Registration { reason: String::from_str("response carries no client_id") },
        ),
        Some(id) => {
            let name = match resp.client_name {
                Some(n) => n,
                None => requested_name,
            };
            let mut uris: Vec<String> = Vec::new();
            uris.push(redirect_uri);
            Ok(
                ClientCredentials {
                    client_id: id,
                    client_name: name,
                    redirect_uris: uris,
                    registered_at: now,
                    site,
                },
            )
        },
    }
}

/// The fields of a token-endpoint response that matter.
#[derive(Debug, Clone)]
pub struct TokenResponse {
    pub access_token: Option<String>,
    pub refresh_token: Option<String>,
    pub token_type: Option<String>,
    pub expires_in: Option<i64>,
    pub scope: Option<String>,
    /// The OAuth error code of a refused grant, such as `invalid_grant`.
    pub error: Option<String>,
}

/// Which grant a token response answers.
#[derive(Debug, Clone, Copy, PartialEq, Eq, Structural)]
pub enum Grant {
    AuthorizationCode,
    Refresh,
}

/// The error of a failed grant, with a reason.
pub open spec fn grant_error(grant: Grant, reason: String) -> AuthError {
    match grant {
        Grant::AuthorizationCode => AuthError::TokenExchange { reason },
        Grant::Refresh => AuthError::TokenRefresh { reason },
    }
}

fn grant_failure(grant: Grant, reason: String) -> (r: AuthError)
    ensures
        r == grant_error(grant, reason),
{
    match grant {
        Grant::AuthorizationCode => AuthError::TokenExchange { reason },
        Grant::Refresh => AuthError::TokenRefresh { reason },
    }
}

/// Turns a token-endpoint answer into a token set issued at the local time `now`
/// (never a time the server states). A refused grant fails with the provider's error
/// code as reason; a body without access token or lifetime fails as malformed. A
/// response without a new refresh token keeps `previous_refresh`.
pub fn tokens_from_response(
    grant: Grant,
    resp: TokenResponse,
    client_id: String,
    previous_refresh: String,
    now: i64,
) -> (r: Result<TokenSet, AuthError>)
    ensures
        resp.error matches Some(code) ==> r == Err::<TokenSet, AuthError>(grant_error(grant, code)),
        (resp.error is None && (resp.access_token is None || resp.expires_in is None)) ==> (r matches Err(
            e,
        ) && (if grant == Grant::AuthorizationCode {
            e is TokenExchange
        } else {
            e is TokenRefresh
        })),
        r matches Ok(t) ==> (resp.error is None && Some(t.access_token) == resp.access_token && Some(
            t.expires_in,
        ) == resp.expires_in && t.issued_at == now && t.client_id == client_id && t.refresh_token
            == (match resp.refresh_token {
            Some(x) => x,
            None => previous_refresh,
        }) && t.scope@ == (match resp.scope {
            Some(x) => x@,
            None => Seq::<char>::empty(),
        }) && t.token_type@ == (match resp.token_type {
            Some(x) => x@,
            None => crate::types::bearer(),
        })),
        (resp.error is None && resp.access_token is Some && resp.expires_in is Some) ==> r is Ok,
{
    if let Some(code) = resp.error {
        return Err(grant_failure(grant, code));
    }
    let access = match resp.access_token {
        Some(a) => a,
        None => {
            return Err(grant_failure(grant, String::from_str("malformed response: no access_token")));
        },
    };
    let expires_in = match resp.expires_in {
        Some(e) => e,
        None => {
            return Err(grant_failure(grant, String::from_str("malformed response: no expires_in")));
        },
    };
    let token_type = match resp.token_type {
        Some(t) => t,
        None => crate::types::default_token_type(),
    };
    Ok(
        TokenSet {
            access_token: access,
            refresh_token: match resp.refresh_token {
                Some(x) => x,
                None => previous_refresh,
            },
            token_type,
            expires_in,
            issued_at: now,
            scope: match resp.scope {
                Some(s) => s,
                None => String::new(),
            },
            client_id,
        },
    )
}

} // verus!
