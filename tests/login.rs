use kitsune_oidc::{
    finish_login, login_scopes, login_state_from_fields, pkce_params, start_login, take_login_state, Error, ExchangeOutcome, InMemoryStore,
    LoginState, OAuth2LoginState, StoreError, VerifiedClaims, LOGIN_STATE_STORE_SIZE,
    LOGIN_STATE_TTL_SECS,
};

fn oauth2(app: u128) -> OAuth2LoginState {
    OAuth2LoginState {
        application_id: app,
        scope: "read write".to_string(),
        state: Some("xyz".to_string()),
    }
}

fn login_state(nonce: &str) -> LoginState {
    LoginState {
        nonce: nonce.to_string(),
        pkce_verifier: "verifier".to_string(),
        oauth2: oauth2(7),
    }
}

fn claims() -> VerifiedClaims {
    VerifiedClaims {
        subject: "sub-1".to_string(),
        preferred_username: Some("alice".to_string()),
        email: Some("alice@example.com".to_string()),
        access_token_hash: Some("abc".to_string()),
        actual_hash: Some("abc".to_string()),
    }
}

#[test]
fn generated_material_is_pairwise_distinct() {
    let n = 50;
    let mut store = InMemoryStore::new(LOGIN_STATE_STORE_SIZE);
    let mut starts = Vec::new();
    for _ in 0..n {
        starts.push(start_login(&mut store, 1, "read".to_string(), None, 0));
    }
    let mut values = Vec::new();
    for s in &starts {
        assert_eq!(s.csrf_token.len(), 22);
        assert_eq!(s.nonce.len(), 22);
        assert_eq!(s.pkce_challenge.len(), 43);
        let state = take_login_state(&mut store, &s.csrf_token, 1).unwrap();
        assert_eq!(state.pkce_verifier.len(), 43);
        assert_ne!(state.pkce_verifier, s.pkce_challenge);
        values.push(s.csrf_token.clone());
        values.push(s.nonce.clone());
        values.push(s.pkce_challenge.clone());
        values.push(state.pkce_verifier);
    }
    let total = values.len();
    values.sort();
    values.dedup();
    assert_eq!(values.len(), total);
}

#[test]
fn get_and_remove_is_destructive() {
    let mut store = InMemoryStore::new(10);
    store.set("k".to_string(), login_state("n"), 60, 0);
    assert_eq!(store.get_and_remove(&"k".to_string(), 1), Ok(login_state("n")));
    assert_eq!(store.get_and_remove(&"k".to_string(), 1), Err(StoreError::NotFound));
    assert_eq!(store.len(), 0);
}

#[test]
fn repeated_completions_succeed_once() {
    let mut store = InMemoryStore::new(10);
    store.set("k".to_string(), login_state("n"), 60, 0);
    let mut ok = 0;
    let mut unknown = 0;
    for _ in 0..8 {
        match take_login_state(&mut store, &"k".to_string(), 5) {
            Ok(_) => ok += 1,
            Err(Error::UnknownOrExpiredState) => unknown += 1,
            Err(e) => panic!("unexpected error {:?}", e),
        }
    }
    assert_eq!(ok, 1);
    assert_eq!(unknown, 7);
}

#[test]
fn expired_state_is_not_found() {
    let mut store = InMemoryStore::new(10);
    store.set("k".to_string(), login_state("n"), 30, 100);
    store.set("j".to_string(), login_state("m"), 30, 100);
    assert_eq!(store.get_and_remove(&"k".to_string(), 130), Err(StoreError::NotFound));
    assert_eq!(store.get_and_remove(&"j".to_string(), 129), Ok(login_state("m")));
}

#[test]
fn ttl_saturates_at_the_end_of_time() {
    let mut store = InMemoryStore::new(10);
    store.set("k".to_string(), login_state("n"), u64::MAX, 5);
    assert_eq!(store.get_and_remove(&"k".to_string(), u64::MAX - 1), Ok(login_state("n")));
}

#[test]
fn over_capacity_evicts_oldest() {
    let mut store = InMemoryStore::new(3);
    for i in 0..5u32 {
        store.set(format!("k{}", i), login_state(&format!("n{}", i)), 60, 0);
        assert!(store.len() <= 3);
    }
    assert_eq!(store.len(), 3);
    assert_eq!(store.get_and_remove(&"k0".to_string(), 1), Err(StoreError::NotFound));
    assert_eq!(store.get_and_remove(&"k1".to_string(), 1), Err(StoreError::NotFound));
    assert_eq!(store.get_and_remove(&"k2".to_string(), 1), Ok(login_state("n2")));
    assert_eq!(store.get_and_remove(&"k4".to_string(), 1), Ok(login_state("n4")));
}

#[test]
fn set_overwrites_same_key() {
    let mut store = InMemoryStore::new(2);
    store.set("a".to_string(), login_state("first"), 60, 0);
    store.set("b".to_string(), login_state("b"), 60, 0);
    store.set("a".to_string(), login_state("second"), 60, 0);
    assert_eq!(store.len(), 2);
    assert_eq!(store.get_and_remove(&"a".to_string(), 1), Ok(login_state("second")));
    assert_eq!(store.get_and_remove(&"b".to_string(), 1), Ok(login_state("b")));
}

#[test]
fn zero_capacity_keeps_nothing() {
    let mut store = InMemoryStore::new(0);
    store.set("a".to_string(), login_state("n"), 60, 0);
    assert_eq!(store.len(), 0);
    assert_eq!(store.get_and_remove(&"a".to_string(), 1), Err(StoreError::NotFound));
}

#[test]
fn start_login_stores_state_under_csrf_token() {
    let mut store = InMemoryStore::new(LOGIN_STATE_STORE_SIZE);
    let start = start_login(&mut store, 0x11, "read write".to_string(), Some("xyz".to_string()), 1000);
    assert_eq!(store.len(), 1);
    let state = take_login_state(&mut store, &start.csrf_token, 1000 + LOGIN_STATE_TTL_SECS - 1).unwrap();
    assert_eq!(state.nonce, start.nonce);
    assert_eq!(state.oauth2.application_id, 0x11);
    assert_eq!(state.oauth2.scope, "read write");
    assert_eq!(state.oauth2.state, Some("xyz".to_string()));
}

#[test]
fn started_login_expires_after_ttl() {
    let mut store = InMemoryStore::new(LOGIN_STATE_STORE_SIZE);
    let start = start_login(&mut store, 1, "read".to_string(), None, 1000);
    assert_eq!(
        take_login_state(&mut store, &start.csrf_token, 1000 + LOGIN_STATE_TTL_SECS),
        Err(Error::UnknownOrExpiredState)
    );
}

#[test]
fn unknown_csrf_token_is_rejected() {
    let mut store = InMemoryStore::new(LOGIN_STATE_STORE_SIZE);
    start_login(&mut store, 1, "read".to_string(), None, 0);
    assert_eq!(
        take_login_state(&mut store, &"never-issued".to_string(), 1),
        Err(Error::UnknownOrExpiredState)
    );
    assert_eq!(store.len(), 1);
}

#[test]
fn mismatching_hash_fails_after_state_is_gone() {
    let mut store = InMemoryStore::new(LOGIN_STATE_STORE_SIZE);
    let start = start_login(&mut store, 1, "read".to_string(), None, 0);
    let state = take_login_state(&mut store, &start.csrf_token, 1).unwrap();
    let mut c = claims();
    c.actual_hash = Some("abd".to_string());
    assert_eq!(finish_login(state.oauth2, ExchangeOutcome::Verified(c)), Err(Error::MismatchingHash));
    assert_eq!(
        take_login_state(&mut store, &start.csrf_token, 1),
        Err(Error::UnknownOrExpiredState)
    );
}

#[test]
fn missing_email_fails() {
    let mut c = claims();
    c.email = None;
    assert_eq!(finish_login(oauth2(1), ExchangeOutcome::Verified(c)), Err(Error::MissingEmail));
}

#[test]
fn missing_username_fails() {
    let mut c = claims();
    c.preferred_username = None;
    c.email = None;
    assert_eq!(finish_login(oauth2(1), ExchangeOutcome::Verified(c)), Err(Error::MissingUsername));
}

#[test]
fn exchange_failures_map_to_errors() {
    assert_eq!(finish_login(oauth2(1), ExchangeOutcome::Failed), Err(Error::TokenExchange));
    assert_eq!(finish_login(oauth2(1), ExchangeOutcome::NoIdToken), Err(Error::MissingIdToken));
    assert_eq!(finish_login(oauth2(1), ExchangeOutcome::InvalidClaims), Err(Error::ClaimsValidation));
}

#[test]
fn uncomputable_hash_fails_validation() {
    let mut c = claims();
    c.actual_hash = None;
    assert_eq!(finish_login(oauth2(1), ExchangeOutcome::Verified(c)), Err(Error::ClaimsValidation));
}

#[test]
fn successful_completion_returns_user_info() {
    let info = finish_login(oauth2(9), ExchangeOutcome::Verified(claims())).unwrap();
    assert_eq!(info.subject, "sub-1");
    assert_eq!(info.username, "alice");
    assert_eq!(info.email, "alice@example.com");
    assert_eq!(info.oauth2.application_id, 9);
    assert_eq!(info.oauth2.scope, "read write");
    assert_eq!(info.oauth2.state, Some("xyz".to_string()));
}

#[test]
fn absent_hash_claim_skips_the_comparison() {
    let mut c = claims();
    c.access_token_hash = None;
    c.actual_hash = None;
    let info = finish_login(oauth2(2), ExchangeOutcome::Verified(c)).unwrap();
    assert_eq!(info.username, "alice");
}

#[test]
fn shared_store_fields_rebuild_login_state() {
    let r = login_state_from_fields(
        Some("n".to_string()),
        Some("verifier".to_string()),
        Some(7),
        Some("read write".to_string()),
        Some("xyz".to_string()),
    );
    assert_eq!(r, Ok(login_state("n")));
}

#[test]
fn shared_store_record_missing_a_field_is_unknown() {
    let r = login_state_from_fields(Some("n".to_string()), None, Some(7), Some("s".to_string()), None);
    assert_eq!(r, Err(Error::UnknownOrExpiredState));
}

#[test]
fn logins_ask_for_email_and_profile() {
    assert_eq!(login_scopes(), vec!["email".to_string(), "profile".to_string()]);
}

#[test]
fn pkce_params_carry_the_challenge() {
    let mut store = InMemoryStore::new(LOGIN_STATE_STORE_SIZE);
    let start = start_login(&mut store, 1, "read".to_string(), None, 0);
    let params = pkce_params(&start);
    assert_eq!(
        params,
        vec![
            ("code_challenge".to_string(), start.pkce_challenge.clone()),
            ("code_challenge_method".to_string(), "S256".to_string()),
        ]
    );
    let state = take_login_state(&mut store, &start.csrf_token, 1).unwrap();
    assert_ne!(start.pkce_challenge, state.pkce_verifier);
}

#[test]
fn challenge_is_s256_of_stored_verifier() {
    let mut store = InMemoryStore::new(LOGIN_STATE_STORE_SIZE);
    let start = start_login(&mut store, 1, "read".to_string(), None, 0);
    let state = take_login_state(&mut store, &start.csrf_token, 1).unwrap();
    let expected = openidconnect::PkceCodeChallenge::from_code_verifier_sha256(
        &openidconnect::PkceCodeVerifier::new(state.pkce_verifier),
    );
    assert_eq!(start.pkce_challenge, expected.as_str());
}
