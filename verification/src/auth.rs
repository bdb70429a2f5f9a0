//! The OAuth decisions: when the access token must be refreshed, what a
//! token response sets, how the login callback guards against forged
//! requests, and the names used for the stored refresh token.
use vstd::prelude::*;
use vstd::string::*;

use crate::text::str_eq;

verus! {

/// All possible auth states
#[derive(Debug, Clone, Copy, PartialEq, Eq, Structural)]
pub enum AuthStatus {
    /// Refresh token found
    Authenticated,
    /// Refresh token not found
    Unauthenticated,
}

/// A user is authenticated when a refresh token is stored and refreshing
/// with it succeeds (the refresh is only tried when one is stored).
pub fn auth_status(refresh_token_stored: bool, refresh_succeeded: bool) -> (r: AuthStatus)
    ensures
        r == (if refresh_token_stored && refresh_succeeded {
            AuthStatus::Authenticated
        } else {
            AuthStatus::Unauthenticated
        }),
{
    if refresh_token_stored && refresh_succeeded {
        AuthStatus::Authenticated
    } else {
        AuthStatus::Unauthenticated
    }
}

/// Nanoseconds in a second.
pub open spec fn nanos_per_second() -> int {
    1_000_000_000
}

/// Last representable instant (9999-12-31T23:59:59.999999999Z) in
/// nanoseconds since the Unix epoch.
pub open spec fn max_instant_nanos() -> int {
    253_402_300_799_999_999_999
}

/// First representable instant (-9999-01-01T00:00:00Z) in nanoseconds
/// since the Unix epoch.
pub open spec fn min_instant_nanos() -> int {
    -377_705_203_200_000_000_000
}

/// A token is refreshed when it expires within this margin.
pub open spec fn refresh_margin_nanos() -> int {
    30 * nanos_per_second()
}

/// Lifetime of a token whose response gives none.
pub open spec fn default_lifetime_nanos() -> int {
    3600 * nanos_per_second()
}

/// The access token and its expiry, in nanoseconds since the Unix epoch.
pub struct TokenState {
    pub token: String,
    pub expires_at: i128,
}

pub open spec fn must_refresh(expires_at: int, now: int) -> bool {
    expires_at <= now + refresh_margin_nanos()
}

impl TokenState {
    /// An empty token that expired at the Unix epoch.
    pub fn new() -> (s: Self)
        ensures
            s.token@.len() == 0,
            s.expires_at == 0,
    {
        TokenState { token: String::new(), expires_at: 0 }
    }

    /// `get_token` refreshes when the token expires within 30 seconds of
    /// `now`; `refresh_token` skips the refresh otherwise.
    pub fn needs_refresh(&self, now: i128) -> (r: bool)
        requires
            now + refresh_margin_nanos() <= max_instant_nanos(),
        ensures
            r == must_refresh(self.expires_at as int, now as int),
    {
        self.expires_at <= now + 30_000_000_000
    }

    /// A token response at `now`: the new token, valid for `expires_in`
    /// nanoseconds (an hour when the response gives no lifetime).
    pub fn apply_response(&mut self, token: String, now: i128, expires_in: Option<u128>)
        requires
            now >= min_instant_nanos(),
            now + (match expires_in {
                Some(e) => e as int,
                None => default_lifetime_nanos(),
            }) <= max_instant_nanos(),
        ensures
            final(self).token == token,
            final(self).expires_at == now + (match expires_in {
                Some(e) => e as int,
                None => default_lifetime_nanos(),
            }),
    {
        let lifetime: u128 = match expires_in {
            Some(e) => e,
            None => 3_600_000_000_000,
        };
        self.token = token;
        self.expires_at = now + lifetime as i128;
    }
}

/// Once due, a refresh stays due as time passes.
pub proof fn refresh_stays_due(expires_at: int, t1: int, t2: int)
    requires
        must_refresh(expires_at, t1),
        t1 <= t2,
    ensures
        must_refresh(expires_at, t2),
{
}

/// A fresh token with a lifetime over 30 seconds is not refreshed at the
/// time it was obtained.
pub proof fn fresh_token_not_due(now: int, lifetime: int)
    requires
        lifetime > refresh_margin_nanos(),
    ensures
        !must_refresh(now + lifetime, now),
{
}

/// What the login callback answers.
#[derive(Debug, Clone, Copy, PartialEq, Eq, Structural)]
pub enum CallbackReply {
    /// The code was handed to the waiting login.
    LoginSuccessful,
    /// The `state` does not match the one sent: the login is aborted.
    StateMismatch,
    /// No code (or no state, or no waiting login).
    NoCode,
}

/// Text of a callback reply.
pub fn callback_reply_text(r: CallbackReply) -> (s: &'static str)
    ensures
        s@ == match r {
            CallbackReply::LoginSuccessful => "Login successful! You can close this tab."@,
            CallbackReply::StateMismatch => "Security Error: CSRF state mismatch! Login aborted."@,
            CallbackReply::NoCode => "Error: No code found"@,
        },
{
    match r {
        CallbackReply::LoginSuccessful => "Login successful! You can close this tab.",
        CallbackReply::StateMismatch => "Security Error: CSRF state mismatch! Login aborted.",
        CallbackReply::NoCode => "Error: No code found",
    }
}

/// The login callback: it holds the one-shot channel to the waiting login
/// and the `state` it expects.
pub struct LoginCallback {
    pub expected_state: String,
    /// The channel to the waiting login is still there.
    pub waiting: bool,
}

/// One callback request: (next waiting flag, reply, code handed over).
pub open spec fn callback_step(
    waiting: bool,
    expected: Seq<char>,
    code: Option<Seq<char>>,
    state: Option<Seq<char>>,
) -> (bool, CallbackReply, Option<Seq<char>>) {
    if code is Some && state is Some && waiting {
        if state->0 == expected {
            (false, CallbackReply::LoginSuccessful, code)
        } else {
            (false, CallbackReply::StateMismatch, None)
        }
    } else {
        (waiting, CallbackReply::NoCode, None)
    }
}

impl LoginCallback {
    pub fn new(expected_state: String) -> (c: Self)
        ensures
            c.expected_state == expected_state,
            c.waiting,
    {
        LoginCallback { expected_state, waiting: true }
    }

    /// Handles a request with the given `code` and `state` parameters. With
    /// both present and the login still waiting, the channel is used up; the
    /// code goes to the login only when the state is the expected one.
    pub fn handle(&mut self, code: Option<String>, state: Option<String>) -> (r: (
        CallbackReply,
        Option<String>,
    ))
        ensures
            final(self).expected_state == old(self).expected_state,
            (final(self).waiting, r.0, match r.1 {
                Some(c) => Some(c@),
                None => None::<Seq<char>>,
            }) == callback_step(
                old(self).waiting,
                old(self).expected_state@,
                match code {
                    Some(c) => Some(c@),
                    None => None::<Seq<char>>,
                },
                match state {
                    Some(s) => Some(s@),
                    None => None::<Seq<char>>,
                },
            ),
    {
        match (code, state) {
            (Some(c), Some(s)) => {
                if self.waiting {
                    self.waiting = false;
                    if str_eq(s.as_str(), self.expected_state.as_str()) {
                        (CallbackReply::LoginSuccessful, Some(c))
                    } else {
                        (CallbackReply::StateMismatch, None)
                    }
                } else {
                    (CallbackReply::NoCode, None)
                }
            },
            _ => (CallbackReply::NoCode, None),
        }
    }
}

/// A code reaches the login only with the expected state.
pub proof fn code_requires_state(
    waiting: bool,
    expected: Seq<char>,
    code: Option<Seq<char>>,
    state: Option<Seq<char>>,
)
    requires
        callback_step(waiting, expected, code, state).2 is Some,
    ensures
        state == Some(expected),
        waiting,
        !callback_step(waiting, expected, code, state).0,
{
}

/// After the channel is used up, no later request hands over a code.
pub proof fn used_channel_stays_used(
    expected: Seq<char>,
    code: Option<Seq<char>>,
    state: Option<Seq<char>>,
)
    ensures
        callback_step(false, expected, code, state) == (false, CallbackReply::NoCode, None::<
            Seq<char>,
        >),
{
}

/// Service under which refresh tokens are stored.
pub fn keyring_service() -> (r: &'static str)
    ensures
        r@ == "modelcheck"@,
{
    "modelcheck"
}

/// Name of the stored refresh token of a provider.
pub fn refresh_entry_name(provider_name: &str) -> (r: String)
    ensures
        r@ == provider_name@ + "-refresh-token"@,
{
    String::from_str(provider_name).concat("-refresh-token")
}

/// Decimal digits of `n`.
pub open spec fn decimal(n: nat) -> Seq<char>
    decreases n,
{
    if n < 10 {
        seq![digit_char(n)]
    } else {
        decimal(n / 10) + seq![digit_char(n % 10)]
    }
}

pub open spec fn digit_char(d: nat) -> char {
    if d == 0 {
        '0'
    } else if d == 1 {
        '1'
    } else if d == 2 {
        '2'
    } else if d == 3 {
        '3'
    } else if d == 4 {
        '4'
    } else if d == 5 {
        '5'
    } else if d == 6 {
        '6'
    } else if d == 7 {
        '7'
    } else if d == 8 {
        '8'
    } else {
        '9'
    }
}

fn digit_str(d: u32) -> (s: &'static str)
    requires
        d < 10,
    ensures
        s@ == seq![digit_char(d as nat)],
{
    proof {
        reveal_strlit("0");
        reveal_strlit("1");
        reveal_strlit("2");
        reveal_strlit("3");
        reveal_strlit("4");
        reveal_strlit("5");
        reveal_strlit("6");
        reveal_strlit("7");
        reveal_strlit("8");
        reveal_strlit("9");
    }
    let s = if d == 0 {
        "0"
    } else if d == 1 {
        "1"
    } else if d == 2 {
        "2"
    } else if d == 3 {
        "3"
    } else if d == 4 {
        "4"
    } else if d == 5 {
        "5"
    } else if d == 6 {
        "6"
    } else if d == 7 {
        "7"
    } else if d == 8 {
        "8"
    } else {
        "9"
    };
    assert(s@ =~= seq![digit_char(d as nat)]);
    s
}

/// Decimal representation of `n`.
pub fn decimal_string(n: u32) -> (s: String)
    ensures
        s@ == decimal(n as nat),
    decreases n,
{
    if n < 10 {
        String::from_str(digit_str(n))
    } else {
        let high = decimal_string(n / 10);
        high.concat(digit_str(n % 10))
    }
}

/// Address the browser is sent back to after the login.
pub fn redirect_uri(port: u16) -> (r: String)
    ensures
        r@ == "http://127.0.0.1:"@ + decimal(port as nat),
{
    let digits = decimal_string(port as u32);
    String::from_str("http://127.0.0.1:").concat(digits.as_str())
}

/// Whether `url::Url::parse` accepts `s`.
pub uninterp spec fn url_parses(s: Seq<char>) -> bool;

/// `url::Url::parse`, as re-exported by `oauth2`; `AuthUrl::new` and
/// `TokenUrl::new` fail exactly where it does. The contract names whether
/// `s` parses; the URL grammar itself is not stated.
#[verifier::external_body]
fn parses_as_url(s: &str) -> (r: bool)
    ensures
        r == url_parses(s@),
{
    match oauth2::url::Url::parse(s) {
        Ok(_) => true,
        Err(_) => false,
    }
}

/// An OAuth endpoint of the configuration that is not a URL.
#[derive(Debug, Clone, Copy, PartialEq, Eq, Structural)]
pub enum EndpointError {
    InvalidAuthUri,
    InvalidTokenUri,
}

/// `OAuth::new` builds its client from the authorization and token
/// addresses: it fails on the first of them that is not a URL.
pub fn check_endpoints(auth_uri: &str, token_uri: &str) -> (r: Result<(), EndpointError>)
    ensures
        r == (if !url_parses(auth_uri@) {
            Err::<(), EndpointError>(EndpointError::InvalidAuthUri)
        } else if !url_parses(token_uri@) {
            Err::<(), EndpointError>(EndpointError::InvalidTokenUri)
        } else {
            Ok::<(), EndpointError>(())
        }),
{
    if !parses_as_url(auth_uri) {
        Err(EndpointError::InvalidAuthUri)
    } else if !parses_as_url(token_uri) {
        Err(EndpointError::InvalidTokenUri)
    } else {
        Ok(())
    }
}

} // verus!
