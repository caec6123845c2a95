//! OAuth2 credential lifecycle for a provider: building the
//! authorization URL, turning token-endpoint responses into
//! credentials, deciding expiry, and serializing refreshes.
//!
//! The network call to the token endpoint happens outside the
//! library; it hands back the plain fields of the endpoint's response
//! as a `TokenGrant`, and the functions here decide everything else.

use vstd::prelude::*;
use vstd::string::StringExecFns;

verus! {

/// Credential failures, both surfaced to the caller as "needs
/// re-authorization".
#[derive(Clone, Copy, PartialEq, Eq, Structural, Debug)]
pub enum AuthError {
    /// The provider rejected the authorization code, or the exchange
    /// response was unusable.
    ExchangeFailed,
    /// The provider rejected the refresh token, or the refresh
    /// response was unusable.
    RefreshFailed,
}

/// The plain fields of a successful token-endpoint response.
#[derive(Clone, Debug, PartialEq)]
pub struct TokenGrant {
    pub access_token: String,
    /// Absent when the provider omits the refresh token on a refresh
    /// grant; the prior one is preserved in that case.
    pub refresh_token: Option<String>,
    /// Validity window in seconds from issuance.
    pub expires_in: u64,
    pub token_type: String,
}

/// The OAuth2 token bundle enabling authenticated calls to a
/// provider.
#[derive(Clone, Debug, PartialEq)]
pub struct Credential {
    pub access_token: String,
    pub refresh_token: String,
    /// Issuance time plus the granted validity window, in seconds
    /// since the epoch.
    pub expires_at: u64,
    pub token_type: String,
}

/// Builds the provider authorization URL; no side effect.
pub fn authorize_url(client_id: &str, redirect_uri: &str, scope: &str) -> (r: String)
    ensures
        r@ == "https://accounts.google.com/o/oauth2/auth?client_id="@ + client_id@
            + "&redirect_uri="@ + redirect_uri@ + "&response_type=code&scope="@ + scope@
            + "&access_type=offline"@,
{
    let mut s = String::new();
    s.append("https://accounts.google.com/o/oauth2/auth?client_id=");
    s.append(client_id);
    s.append("&redirect_uri=");
    s.append(redirect_uri);
    s.append("&response_type=code&scope=");
    s.append(scope);
    s.append("&access_type=offline");
    s
}

/// The form parameters of an authorization-code exchange against the
/// token endpoint.
pub fn exchange_params(code: &str, client_id: &str, client_secret: &str, redirect_uri: &str) -> (r:
    Vec<(String, String)>)
    ensures
        r@.len() == 5,
        r@[0].0@ == "code"@ && r@[0].1@ == code@,
        r@[1].0@ == "client_id"@ && r@[1].1@ == client_id@,
        r@[2].0@ == "client_secret"@ && r@[2].1@ == client_secret@,
        r@[3].0@ == "redirect_uri"@ && r@[3].1@ == redirect_uri@,
        r@[4].0@ == "grant_type"@ && r@[4].1@ == "authorization_code"@,
{
    let mut v: Vec<(String, String)> = Vec::new();
    v.push((String::from_str("code"), String::from_str(code)));
    v.push((String::from_str("client_id"), String::from_str(client_id)));
    v.push((String::from_str("client_secret"), String::from_str(client_secret)));
    v.push((String::from_str("redirect_uri"), String::from_str(redirect_uri)));
    v.push((String::from_str("grant_type"), String::from_str("authorization_code")));
    v
}

/// The form parameters of a refresh-token grant against the token
/// endpoint.
pub fn refresh_params(refresh_token: &str, client_id: &str, client_secret: &str) -> (r: Vec<
    (String, String),
>)
    ensures
        r@.len() == 4,
        r@[0].0@ == "refresh_token"@ && r@[0].1@ == refresh_token@,
        r@[1].0@ == "client_id"@ && r@[1].1@ == client_id@,
        r@[2].0@ == "client_secret"@ && r@[2].1@ == client_secret@,
        r@[3].0@ == "grant_type"@ && r@[3].1@ == "refresh_token"@,
{
    let mut v: Vec<(String, String)> = Vec::new();
    v.push((String::from_str("refresh_token"), String::from_str(refresh_token)));
    v.push((String::from_str("client_id"), String::from_str(client_id)));
    v.push((String::from_str("client_secret"), String::from_str(client_secret)));
    v.push((String::from_str("grant_type"), String::from_str("refresh_token")));
    v
}

/// Turns the response of a one-shot authorization-code exchange into
/// a credential. An exchange response without a refresh token is
/// unusable and fails.
pub fn credential_from_exchange(grant: TokenGrant, issued_at: u64) -> (r: Result<
    Credential,
    AuthError,
>)
    requires
        issued_at + grant.expires_in <= u64::MAX,
    ensures
        grant.refresh_token is Some <==> r is Ok,
        r matches Ok(c) ==> c.access_token == grant.access_token && c.refresh_token
            == grant.refresh_token->0 && c.expires_at == issued_at + grant.expires_in
            && c.token_type == grant.token_type,
        r is Err ==> r == Result::<Credential, AuthError>::Err(AuthError::ExchangeFailed),
{
    match grant.refresh_token {
        Some(rt) => Ok(
            Credential {
                access_token: grant.access_token,
                refresh_token: rt,
                expires_at: issued_at + grant.expires_in,
                token_type: grant.token_type,
            },
        ),
        None => Err(AuthError::ExchangeFailed),
    }
}

/// Applies a refresh-grant response to the prior credential: the
/// access token and expiry are replaced, and the refresh token is
/// replaced when the provider sent one, preserved otherwise.
pub fn apply_refresh(prior: &Credential, grant: TokenGrant, issued_at: u64) -> (r: Credential)
    requires
        issued_at + grant.expires_in <= u64::MAX,
    ensures
        r.access_token == grant.access_token,
        r.expires_at == issued_at + grant.expires_in,
        r.token_type == grant.token_type,
        grant.refresh_token matches Some(t) ==> r.refresh_token == t,
        grant.refresh_token is None ==> r.refresh_token == prior.refresh_token,
{
    let refresh_token = match grant.refresh_token {
        Some(rt) => rt,
        None => prior.refresh_token.clone(),
    };
    Credential {
        access_token: grant.access_token,
        refresh_token,
        expires_at: issued_at + grant.expires_in,
        token_type: grant.token_type,
    }
}

/// Whether the credential must be treated as expired at time `now`:
/// true once `now` is within `margin` seconds of `expires_at`, so
/// callers refresh proactively rather than failing requests.
pub fn is_expired(cred: &Credential, now: u64, margin: u64) -> (r: bool)
    ensures
        r == (now as int + margin as int >= cred.expires_at as int),
{
    if margin >= cred.expires_at {
        true
    } else {
        now >= cred.expires_at - margin
    }
}

/// What a caller asking for a refresh must do next.
#[derive(Clone, Copy, PartialEq, Eq, Structural, Debug)]
pub enum RefreshAction {
    /// No refresh is in flight: this caller performs the single
    /// network call.
    StartNetworkRefresh,
    /// A refresh is already in flight: wait for its result instead of
    /// making a second call.
    AwaitInFlight,
}

/// Serializes token refreshes per credential: at most one network
/// refresh is in flight at a time, and every caller that asked while
/// one was in flight receives that call's result.
#[derive(Clone, Copy, PartialEq, Eq, Structural, Debug)]
pub struct RefreshCoordinator {
    pub in_flight: bool,
    /// Callers waiting for the in-flight refresh, beyond the one that
    /// started it.
    pub waiters: u64,
}

/// The transition a refresh request makes.
pub open spec fn spec_request(s: RefreshCoordinator) -> (RefreshCoordinator, RefreshAction) {
    if !s.in_flight {
        (RefreshCoordinator { in_flight: true, waiters: s.waiters }, RefreshAction::StartNetworkRefresh)
    } else {
        (
            RefreshCoordinator { in_flight: true, waiters: (s.waiters + 1) as u64 },
            RefreshAction::AwaitInFlight,
        )
    }
}

/// The transition a completed refresh makes; the integer is the
/// number of callers the result is delivered to.
pub open spec fn spec_complete(s: RefreshCoordinator) -> (RefreshCoordinator, int) {
    (RefreshCoordinator { in_flight: false, waiters: 0 }, s.waiters + 1)
}

impl RefreshCoordinator {
    /// A coordinator with no refresh in flight.
    pub fn new() -> (s: RefreshCoordinator)
        ensures
            !s.in_flight,
            s.waiters == 0,
    {
        RefreshCoordinator { in_flight: false, waiters: 0 }
    }

    /// Registers a refresh request and says what the caller must do.
    pub fn request(&mut self) -> (a: RefreshAction)
        requires
            old(self).waiters < u64::MAX,
        ensures
            (*final(self), a) == spec_request(*old(self)),
    {
        if !self.in_flight {
            self.in_flight = true;
            RefreshAction::StartNetworkRefresh
        } else {
            self.waiters = self.waiters + 1;
            RefreshAction::AwaitInFlight
        }
    }

    /// Registers the completion of the in-flight refresh and returns
    /// how many callers receive its result.
    pub fn complete(&mut self) -> (n: u64)
        requires
            old(self).in_flight,
            old(self).waiters < u64::MAX,
        ensures
            *final(self) == spec_complete(*old(self)).0,
            n as int == spec_complete(*old(self)).1,
    {
        let n = self.waiters + 1;
        self.in_flight = false;
        self.waiters = 0;
        n
    }
}

/// Refresh serialization: two concurrent refresh requests on an idle
/// coordinator make exactly one network call — the first starts it,
/// the second awaits it — and the completed call's result is
/// delivered to both callers.
pub proof fn lemma_refresh_serialized(s: RefreshCoordinator)
    requires
        !s.in_flight,
        s.waiters == 0,
    ensures
        spec_request(s).1 == RefreshAction::StartNetworkRefresh,
        spec_request(spec_request(s).0).1 == RefreshAction::AwaitInFlight,
        spec_complete(spec_request(spec_request(s).0).0).1 == 2,
{
}

} // verus!
