use vstd::prelude::*;

pub mod state;
pub mod media;
pub mod service;
pub mod store;

pub use service::{
    finish_login, login_scopes, login_state_from_fields, new_login, pkce_params, start_login, take_login_state, Error, ExchangeOutcome, LoginStart, OAuth2Info,
    UserInfo, VerifiedClaims, LOGIN_STATE_STORE_SIZE, LOGIN_STATE_TTL_SECS,
};
pub use state::{LoginState, OAuth2LoginState};
pub use store::{InMemoryStore, StoreError};
