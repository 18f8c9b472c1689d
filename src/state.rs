use vstd::prelude::*;

verus! {

/// The part of a login attempt that belongs to the requesting OAuth2 application.
#[derive(Clone, Debug, PartialEq, Eq)]
pub struct OAuth2LoginState {
    /// Identifier of the requesting client application, as the 128 bits of its UUID.
    pub application_id: u128,
    /// Requested scope string.
    pub scope: String,
    /// Opaque state of the caller, round-tripped back to it.
    pub state: Option<String>,
}

/// Server-held verification record of one outstanding login attempt.
#[derive(Clone, Debug, PartialEq, Eq)]
pub struct LoginState {
    /// Random value bound into the ID token.
    pub nonce: String,
    /// Secret half of the PKCE pair, presented at token exchange.
    pub pkce_verifier: String,
    pub oauth2: OAuth2LoginState,
}

} // verus!
