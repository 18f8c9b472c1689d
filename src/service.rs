use crate::state::{LoginState, OAuth2LoginState};
use crate::store::{expiry, set_spec, take_spec, InMemoryStore, StoreEntry};
use vstd::prelude::*;

verus! {

/// Capacity of the in-process login-state store.
pub const LOGIN_STATE_STORE_SIZE: usize = 100;

/// How long, in seconds, a started login stays valid.
pub const LOGIN_STATE_TTL_SECS: u64 = 600;

/// Everything that can go wrong during an OpenID Connect login.
#[derive(Clone, Copy, Debug, PartialEq, Eq, Structural)]
pub enum Error {
    /// Provider metadata could not be discovered, or the client could not be built.
    Discovery,
    /// The shared store backend failed.
    Store,
    /// The login state is unknown: never issued, already used, or expired.
    UnknownOrExpiredState,
    /// The provider rejected the code or PKCE verifier, or the transport failed.
    TokenExchange,
    /// The token response carries no ID token.
    MissingIdToken,
    /// The ID token's signature, issuer, audience, expiry or nonce is wrong.
    ClaimsValidation,
    /// The access-token hash in the ID token does not match the access token.
    MismatchingHash,
    /// The claims carry no preferred username.
    MissingUsername,
    /// The claims carry no email address.
    MissingEmail,
}

/// The caller-facing part of a completed login's OAuth2 request.
#[derive(Clone, Debug, PartialEq, Eq)]
pub struct OAuth2Info {
    pub application_id: u128,
    pub scope: String,
    pub state: Option<String>,
}

/// The result of a completed login.
#[derive(Clone, Debug, PartialEq, Eq)]
pub struct UserInfo {
    pub subject: String,
    pub username: String,
    pub email: String,
    pub oauth2: OAuth2Info,
}

/// What the authorisation URL is built from once a login has been started.
#[derive(Clone, Debug, PartialEq, Eq)]
pub struct LoginStart {
    /// The CSRF token, sent as the `state` parameter; the login state is stored under it.
    pub csrf_token: String,
    /// The nonce to bind into the ID token.
    pub nonce: String,
    /// The SHA-256 PKCE code challenge.
    pub pkce_challenge: String,
}

/// The claims of an ID token whose signature, issuer, audience, expiry and nonce were
/// checked, with the access-token hashes to compare.
#[derive(Clone, Debug, PartialEq, Eq)]
pub struct VerifiedClaims {
    pub subject: String,
    pub preferred_username: Option<String>,
    pub email: Option<String>,
    /// The access-token hash claim, where the ID token has one.
    pub access_token_hash: Option<String>,
    /// The hash of the access token received, where it could be computed with the ID token's
    /// signing algorithm.
    pub actual_hash: Option<String>,
}

/// How the exchange of an authorisation code at the provider ended.
#[derive(Clone, Debug, PartialEq, Eq)]
pub enum ExchangeOutcome {
    Failed,
    NoIdToken,
    InvalidClaims,
    Verified(VerifiedClaims),
}

/// Relies on openidconnect's `CsrfToken::new_random`: 16 random bytes, base64url-encoded
/// without padding (22 characters).
#[verifier::external_body]
fn new_csrf_token() -> (r: String)
    ensures
        r@.len() == 22,
{
    openidconnect::CsrfToken::new_random().secret().clone()
}

/// Relies on openidconnect's `Nonce::new_random`: 16 random bytes, base64url-encoded without
/// padding (22 characters).
#[verifier::external_body]
fn new_nonce() -> (r: String)
    ensures
        r@.len() == 22,
{
    openidconnect::Nonce::new_random().secret().clone()
}

/// The S256 PKCE code challenge of a verifier: the unpadded base64url encoding of the SHA-256
/// digest of its bytes.
pub uninterp spec fn pkce_s256_of(verifier: Seq<char>) -> Seq<char>;

/// Relies on openidconnect's `PkceCodeChallenge::new_random_sha256`: a verifier of 32 random
/// bytes, base64url-encoded without padding (43 characters), and its S256 challenge, derived
/// from the verifier by `from_code_verifier_sha256` (43 characters).
/// Returns the challenge, then the verifier.
#[verifier::external_body]
fn new_pkce_pair() -> (r: (String, String))
    ensures
        r.0@.len() == 43,
        r.1@.len() == 43,
        r.0@ == pkce_s256_of(r.1@),
{
    let (challenge, verifier) = openidconnect::PkceCodeChallenge::new_random_sha256();
    (challenge.as_str().to_string(), verifier.secret().clone())
}

/// Draws a PKCE pair, a CSRF token and a nonce for a new login, and builds its login state.
pub fn new_login(application_id: u128, scope: String, caller_state: Option<String>) -> (r: (
    LoginStart,
    LoginState,
))
    ensures
        r.0.csrf_token@.len() == 22,
        r.0.nonce@.len() == 22,
        r.0.pkce_challenge@.len() == 43,
        r.1.nonce == r.0.nonce,
        r.1.pkce_verifier@.len() == 43,
        r.0.pkce_challenge@ == pkce_s256_of(r.1.pkce_verifier@),
        r.1.oauth2 == (OAuth2LoginState { application_id, scope, state: caller_state }),
{
    let (pkce_challenge, pkce_verifier) = new_pkce_pair();
    let csrf_token = new_csrf_token();
    let nonce = new_nonce();
    let state = LoginState {
        nonce: nonce.clone(),
        pkce_verifier,
        oauth2: OAuth2LoginState { application_id, scope, state: caller_state },
    };
    (LoginStart { csrf_token, nonce, pkce_challenge }, state)
}

/// Starts a login: draws a PKCE pair, a CSRF token and a nonce, and stores the login state
/// under the CSRF token until `now + LOGIN_STATE_TTL_SECS`.
pub fn start_login(
    store: &mut InMemoryStore,
    application_id: u128,
    scope: String,
    caller_state: Option<String>,
    now: u64,
) -> (r: LoginStart)
    requires
        old(store).wf(),
    ensures
        final(store).wf(),
        final(store).capacity() == old(store).capacity(),
        r.csrf_token@.len() == 22,
        r.nonce@.len() == 22,
        r.pkce_challenge@.len() == 43,
        exists|verifier: String|
            verifier@.len() == 43 && r.pkce_challenge@ == pkce_s256_of(verifier@)
                && final(store).entries() == set_spec(
                old(store).entries(),
                old(store).capacity(),
                (StoreEntry {
                    key: r.csrf_token,
                    value: LoginState {
                        nonce: r.nonce,
                        pkce_verifier: verifier,
                        oauth2: OAuth2LoginState { application_id, scope, state: caller_state },
                    },
                    expires_at: expiry(now, LOGIN_STATE_TTL_SECS),
                }),
            ),
{
    let (start, state) = new_login(application_id, scope, caller_state);
    store.set(start.csrf_token.clone(), state, LOGIN_STATE_TTL_SECS, now);
    start
}

/// The scopes every login asks for besides `openid`: `email`, then `profile`.
pub fn login_scopes() -> (r: Vec<String>)
    ensures
        r@.len() == 2,
        r@[0]@ == "email"@,
        r@[1]@ == "profile"@,
{
    let mut scopes: Vec<String> = Vec::new();
    scopes.push("email".to_owned());
    scopes.push("profile".to_owned());
    scopes
}

/// The PKCE parameters of the authorisation URL of a started login: its code challenge, and
/// the S256 method.
pub fn pkce_params(start: &LoginStart) -> (r: Vec<(String, String)>)
    ensures
        r@.len() == 2,
        r@[0].0@ == "code_challenge"@,
        r@[0].1@ == start.pkce_challenge@,
        r@[1].0@ == "code_challenge_method"@,
        r@[1].1@ == "S256"@,
{
    let mut params: Vec<(String, String)> = Vec::new();
    params.push(("code_challenge".to_owned(), start.pkce_challenge.clone()));
    params.push(("code_challenge_method".to_owned(), "S256".to_owned()));
    params
}

/// Takes the login state stored under `csrf_token` out of the store; every way of not
/// finding it is the one error `UnknownOrExpiredState`.
pub fn take_login_state(store: &mut InMemoryStore, csrf_token: &String, now: u64) -> (r: Result<
    LoginState,
    Error,
>)
    requires
        old(store).wf(),
    ensures
        final(store).wf(),
        final(store).capacity() == old(store).capacity(),
        final(store).entries() == take_spec(old(store).entries(), csrf_token@, now).0,
        match take_spec(old(store).entries(), csrf_token@, now).1 {
            Some(v) => r == Ok::<LoginState, Error>(v),
            None => r == Err::<LoginState, Error>(Error::UnknownOrExpiredState),
        },
{
    match store.get_and_remove(csrf_token, now) {
        Ok(v) => Ok(v),
        Err(_) => Err(Error::UnknownOrExpiredState),
    }
}

/// What a login completes with, given the OAuth2 part of its state and the outcome of the
/// code exchange.
pub open spec fn finish_spec(oauth2: OAuth2LoginState, outcome: ExchangeOutcome) -> Result<UserInfo, Error> {
    match outcome {
        ExchangeOutcome::Failed => Err(Error::TokenExchange),
        ExchangeOutcome::NoIdToken => Err(Error::MissingIdToken),
        ExchangeOutcome::InvalidClaims => Err(Error::ClaimsValidation),
        ExchangeOutcome::Verified(c) => {
            if c.access_token_hash is Some && c.actual_hash is None {
                Err(Error::ClaimsValidation)
            } else if c.access_token_hash is Some && c.actual_hash.unwrap()@
                != c.access_token_hash.unwrap()@ {
                Err(Error::MismatchingHash)
            } else if c.preferred_username is None {
                Err(Error::MissingUsername)
            } else if c.email is None {
                Err(Error::MissingEmail)
            } else {
                Ok(
                    UserInfo {
                        subject: c.subject,
                        username: c.preferred_username.unwrap(),
                        email: c.email.unwrap(),
                        oauth2: OAuth2Info {
                            application_id: oauth2.application_id,
                            scope: oauth2.scope,
                            state: oauth2.state,
                        },
                    },
                )
            }
        },
    }
}

/// Completes a login from the OAuth2 part of its state and the outcome of the code exchange:
/// the access-token hash, where the ID token has one, must match, and the username and email
/// must be present.
pub fn finish_login(oauth2: OAuth2LoginState, outcome: ExchangeOutcome) -> (r: Result<UserInfo, Error>)
    ensures
        r == finish_spec(oauth2, outcome),
{
    match outcome {
        ExchangeOutcome::Failed => Err(Error::TokenExchange),
        ExchangeOutcome::NoIdToken => Err(Error::MissingIdToken),
        ExchangeOutcome::InvalidClaims => Err(Error::ClaimsValidation),
        ExchangeOutcome::Verified(c) => {
            match &c.access_token_hash {
                Some(expected) => match &c.actual_hash {
                    None => {
                        return Err(Error::ClaimsValidation);
                    },
                    Some(actual) => {
                        if *actual != *expected {
                            return Err(Error::MismatchingHash);
                        }
                    },
                },
                None => {},
            }
            let username = match c.preferred_username {
                Some(u) => u,
                None => {
                    return Err(Error::MissingUsername);
                },
            };
            let email = match c.email {
                Some(e) => e,
                None => {
                    return Err(Error::MissingEmail);
                },
            };
            Ok(
                UserInfo {
                    subject: c.subject,
                    username,
                    email,
                    oauth2: OAuth2Info {
                        application_id: oauth2.application_id,
                        scope: oauth2.scope,
                        state: oauth2.state,
                    },
                },
            )
        },
    }
}

/// Rebuilds a login state from the fields a shared store handed back. A record that lacks
/// any required field counts as absent, like a key that was never stored.
pub fn login_state_from_fields(
    nonce: Option<String>,
    pkce_verifier: Option<String>,
    application_id: Option<u128>,
    scope: Option<String>,
    caller_state: Option<String>,
) -> (r: Result<LoginState, Error>)
    ensures
        match (nonce, pkce_verifier, application_id, scope) {
            (Some(n), Some(v), Some(a), Some(s)) => r == Ok::<LoginState, Error>(
                LoginState {
                    nonce: n,
                    pkce_verifier: v,
                    oauth2: OAuth2LoginState { application_id: a, scope: s, state: caller_state },
                },
            ),
            _ => r == Err::<LoginState, Error>(Error::UnknownOrExpiredState),
        },
{
    match (nonce, pkce_verifier, application_id, scope) {
        (Some(nonce), Some(pkce_verifier), Some(application_id), Some(scope)) => Ok(
            LoginState {
                nonce,
                pkce_verifier,
                oauth2: OAuth2LoginState { application_id, scope, state: caller_state },
            },
        ),
        _ => Err(Error::UnknownOrExpiredState),
    }
}

} // verus!
