use tasksync::credentials::{
    apply_refresh, authorize_url, credential_from_exchange, exchange_params, is_expired,
    refresh_params, AuthError, RefreshAction, RefreshCoordinator, TokenGrant,
};

fn grant(access: &str, refresh: Option<&str>, expires_in: u64) -> TokenGrant {
    TokenGrant {
        access_token: access.to_string(),
        refresh_token: refresh.map(|s| s.to_string()),
        expires_in,
        token_type: "Bearer".to_string(),
    }
}

#[test]
fn authorize_url_is_the_documented_shape() {
    let url = authorize_url("my-client", "oob", "https://www.googleapis.com/auth/calendar.events");
    assert_eq!(
        url,
        "https://accounts.google.com/o/oauth2/auth?client_id=my-client&redirect_uri=oob&response_type=code&scope=https://www.googleapis.com/auth/calendar.events&access_type=offline"
    );
}

#[test]
fn exchange_params_carry_the_five_fields_in_order() {
    let p = exchange_params("the-code", "cid", "not-a-real-secret", "oob");
    assert_eq!(p.len(), 5);
    assert_eq!(p[0], ("code".to_string(), "the-code".to_string()));
    assert_eq!(p[1], ("client_id".to_string(), "cid".to_string()));
    assert_eq!(p[2], ("client_secret".to_string(), "not-a-real-secret".to_string()));
    assert_eq!(p[3], ("redirect_uri".to_string(), "oob".to_string()));
    assert_eq!(p[4], ("grant_type".to_string(), "authorization_code".to_string()));
}

#[test]
fn refresh_params_carry_the_four_fields_in_order() {
    let p = refresh_params("rtok", "cid", "not-a-real-secret");
    assert_eq!(p.len(), 4);
    assert_eq!(p[0], ("refresh_token".to_string(), "rtok".to_string()));
    assert_eq!(p[1], ("client_id".to_string(), "cid".to_string()));
    assert_eq!(p[2], ("client_secret".to_string(), "not-a-real-secret".to_string()));
    assert_eq!(p[3], ("grant_type".to_string(), "refresh_token".to_string()));
}

#[test]
fn exchange_builds_a_credential_with_derived_expiry() {
    let c = credential_from_exchange(grant("at", Some("rt"), 3600), 1_700_000_000).unwrap();
    assert_eq!(c.access_token, "at");
    assert_eq!(c.refresh_token, "rt");
    assert_eq!(c.expires_at, 1_700_003_600);
    assert_eq!(c.token_type, "Bearer");
}

#[test]
fn exchange_without_refresh_token_fails() {
    let r = credential_from_exchange(grant("at", None, 3600), 1_700_000_000);
    assert_eq!(r.unwrap_err(), AuthError::ExchangeFailed);
}

#[test]
fn refresh_replaces_the_refresh_token_when_sent() {
    let prior = credential_from_exchange(grant("old", Some("old-rt"), 10), 100).unwrap();
    let c = apply_refresh(&prior, grant("new", Some("new-rt"), 3600), 200);
    assert_eq!(c.access_token, "new");
    assert_eq!(c.refresh_token, "new-rt");
    assert_eq!(c.expires_at, 3800);
}

#[test]
fn refresh_preserves_the_prior_refresh_token_when_omitted() {
    let prior = credential_from_exchange(grant("old", Some("old-rt"), 10), 100).unwrap();
    let c = apply_refresh(&prior, grant("new", None, 3600), 200);
    assert_eq!(c.access_token, "new");
    assert_eq!(c.refresh_token, "old-rt");
}

#[test]
fn expiry_is_checked_with_the_safety_margin() {
    let cred = credential_from_exchange(grant("at", Some("rt"), 3600), 1000).unwrap();
    // expires_at == 4600
    assert!(!is_expired(&cred, 4539, 60));
    assert!(is_expired(&cred, 4540, 60));
    assert!(is_expired(&cred, 4600, 0));
    assert!(!is_expired(&cred, 4599, 0));
    assert!(is_expired(&cred, 0, u64::MAX));
}

#[test]
fn concurrent_refreshes_make_exactly_one_network_call() {
    let mut coord = RefreshCoordinator::new();
    let first = coord.request();
    let second = coord.request();
    assert_eq!(first, RefreshAction::StartNetworkRefresh);
    assert_eq!(second, RefreshAction::AwaitInFlight);
    let delivered = coord.complete();
    assert_eq!(delivered, 2);
    assert!(!coord.in_flight);
    assert_eq!(coord.waiters, 0);
}

#[test]
fn after_completion_a_new_refresh_starts_again() {
    let mut coord = RefreshCoordinator::new();
    assert_eq!(coord.request(), RefreshAction::StartNetworkRefresh);
    coord.complete();
    assert_eq!(coord.request(), RefreshAction::StartNetworkRefresh);
}
