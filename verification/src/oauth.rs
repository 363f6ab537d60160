//! Login by device code, and the tokens it gives.
//!
//! The client shows a code to the user and polls the token endpoint until the user has entered it
//! in a browser. This module decides what is sent, when to poll again, and what a reply means.

use vstd::prelude::*;

use crate::error::{prefixed, AppError, Result};
use crate::text::{
    ascii_lowercase, ascii_lowercase_chars, chars_of, contains_chars, contains_str, contains_text,
    same_text, string_of, trim, trimmed, views, words, words_of, CharSet,
};

verus! {

pub const DEVICE_CODE_URL: &'static str = "https://oauth.ibroadcast.com/device/code";

pub const TOKEN_URL: &'static str = "https://oauth.ibroadcast.com/token";

pub const REVOKE_URL: &'static str = "https://oauth.ibroadcast.com/revoke";

pub const RFC8628_DEVICE_GRANT_TYPE: &'static str = "urn:ietf:params:oauth:grant-type:device_code";

pub const IBROADCAST_DEVICE_GRANT_TYPE: &'static str = "device_code";

/// A token counts as expired so many seconds before it does.
pub const CLOCK_SKEW_SECONDS: i64 = 60;

/// No clock shows more seconds since 1970.
pub const MAX_UNIX_SECONDS: i64 = 185_542_587_187_200;

/// `chrono::Utc::now` and `timestamp`: the seconds since 1970 that the machine's clock shows.
/// Which number it is, is not stated; it is not negative, since the crate refuses a clock before
/// 1970, and the crate's range of dates bounds it.
#[verifier::external_body]
fn unix_seconds() -> (res: i64)
    ensures
        0 <= res <= MAX_UNIX_SECONDS,
{
    chrono::Utc::now().timestamp()
}

/// The code that the user enters to authorize the client.
#[derive(Debug)]
pub struct DeviceCode {
    pub device_code: String,
    pub user_code: String,
    pub verification_uri: String,
    pub verification_uri_complete: Option<String>,
    pub interval: Option<u64>,
    pub expires_in: Option<u64>,
}

pub struct DeviceCodeView {
    pub device_code: Seq<char>,
    pub user_code: Seq<char>,
    pub verification_uri: Seq<char>,
    pub verification_uri_complete: Option<Seq<char>>,
    pub interval: Option<u64>,
    pub expires_in: Option<u64>,
}

impl View for DeviceCode {
    type V = DeviceCodeView;

    open spec fn view(&self) -> DeviceCodeView {
        DeviceCodeView {
            device_code: self.device_code@,
            user_code: self.user_code@,
            verification_uri: self.verification_uri@,
            verification_uri_complete: crate::config::text_view(self.verification_uri_complete),
            interval: self.interval,
            expires_in: self.expires_in,
        }
    }
}

impl DeviceCode {
    /// The seconds between two polls: those that the server asks for, or five.
    pub fn poll_interval(&self) -> (res: u64)
        ensures
            res == match self.interval {
                Some(interval) => interval,
                None => 5,
            },
    {
        match self.interval {
            Some(interval) => interval,
            None => 5,
        }
    }
}

#[derive(Debug)]
pub struct TokenSet {
    pub access_token: String,
    pub refresh_token: String,
    pub expires_at: i64,
    pub scope: Vec<String>,
}

pub struct TokenView {
    pub access_token: Seq<char>,
    pub refresh_token: Seq<char>,
    pub expires_at: i64,
    pub scope: Seq<Seq<char>>,
}

pub open spec fn strings_view(strings: Seq<String>) -> Seq<Seq<char>> {
    Seq::new(strings.len(), |i: int| strings[i]@)
}

impl View for TokenSet {
    type V = TokenView;

    open spec fn view(&self) -> TokenView {
        TokenView {
            access_token: self.access_token@,
            refresh_token: self.refresh_token@,
            expires_at: self.expires_at,
            scope: strings_view(self.scope@),
        }
    }
}

/// The scopes of a token, which the server sends in either of two forms.
#[derive(Debug)]
pub enum ScopeField {
    SpaceDelimited(String),
    List(Vec<String>),
}

/// The reply of the token endpoint.
#[derive(Debug)]
pub struct RawTokenResponse {
    pub access_token: String,
    pub refresh_token: Option<String>,
    pub expires_in: i64,
    pub scope: Option<ScopeField>,
}

/// The refusal of the token endpoint.
#[derive(Debug)]
pub struct OAuthErrorResponse {
    pub error: Option<String>,
    pub error_description: Option<String>,
}

impl ScopeField {
    /// The scopes one by one.
    pub open spec fn scopes(self) -> Seq<Seq<char>> {
        match self {
            ScopeField::SpaceDelimited(value) => words(value@),
            ScopeField::List(values) => strings_view(values@),
        }
    }

    /// The scopes one by one.
    pub fn into_vec(self) -> (res: Vec<String>)
        ensures
            strings_view(res@) == self.scopes(),
    {
        match self {
            ScopeField::SpaceDelimited(value) => {
                let chars = chars_of(value.as_str());
                let parts = words_of(chars.as_slice());
                let mut out: Vec<String> = Vec::new();
                let mut i: usize = 0;
                while i < parts.len()
                    invariant
                        i <= parts@.len(),
                        strings_view(out@) =~= views(parts@).take(i as int),
                    decreases parts@.len() - i,
                {
                    let ghost held = strings_view(out@);
                    out.push(string_of(parts[i].as_slice()));
                    i = i + 1;
                    assert(strings_view(out@) =~= held.push(parts@[i - 1]@));
                }
                assert(strings_view(out@) =~= views(parts@));
                out
            },
            ScopeField::List(values) => values,
        }
    }
}

/// `value - CLOCK_SKEW_SECONDS`, not below the smallest number.
pub open spec fn skewed(value: i64) -> int {
    if value - CLOCK_SKEW_SECONDS < i64::MIN {
        i64::MIN as int
    } else {
        value - CLOCK_SKEW_SECONDS
    }
}

/// The token counts as expired at the given time.
pub open spec fn expired_at(expires_at: i64, now: int) -> bool {
    now >= skewed(expires_at)
}

/// The refresh token of a reply: its own, or the previous one where it brings none.
pub open spec fn kept_refresh_token(
    response: RawTokenResponse,
    previous: Option<&str>,
) -> Option<Seq<char>> {
    match (response.refresh_token, previous) {
        (Some(token), _) => Some(token@),
        (None, Some(token)) => Some(token@),
        (None, None) => None,
    }
}

/// The token that a reply describes at the given time; none where no refresh token is known.
pub open spec fn token_of(
    response: RawTokenResponse,
    previous: Option<&str>,
    now: int,
) -> Option<TokenView> {
    match kept_refresh_token(response, previous) {
        None => None,
        Some(refresh_token) => Some(
            TokenView {
                access_token: response.access_token@,
                refresh_token,
                expires_at: (now + response.expires_in) as i64,
                scope: match response.scope {
                    Some(scope) => scope.scopes(),
                    None => Seq::empty(),
                },
            },
        ),
    }
}

/// A result is the token, or the error that no refresh token is known.
pub open spec fn is_token(result: Result<TokenSet>, token: Option<TokenView>) -> bool {
    match (result, token) {
        (Ok(set), Some(view)) => set@ == view,
        (Err(error), None) => error is Auth && error->Auth_0@
            == "token response omitted refresh_token"@,
        _ => false,
    }
}

impl TokenSet {
    /// Whether the token counts as expired at the given number of seconds since 1970.
    pub fn is_expired_at(&self, now: i64) -> (res: bool)
        ensures
            res == expired_at(self.expires_at, now as int),
    {
        let threshold: i64 = match self.expires_at.checked_sub(CLOCK_SKEW_SECONDS) {
            Some(threshold) => threshold,
            None => i64::MIN,
        };
        now >= threshold
    }

    /// Whether the token counts as expired now.
    pub fn is_expired(&self) -> (res: bool)
        ensures
            exists|now: i64|
                0 <= now <= MAX_UNIX_SECONDS && res == #[trigger] expired_at(
                    self.expires_at,
                    now as int,
                ),
            self.expires_at <= CLOCK_SKEW_SECONDS ==> res,
            self.expires_at > MAX_UNIX_SECONDS + CLOCK_SKEW_SECONDS ==> !res,
    {
        let now: i64 = unix_seconds();
        let res = self.is_expired_at(now);
        assert(res == expired_at(self.expires_at, now as int));
        res
    }

    /// The token that a reply describes, received at the given number of seconds since 1970.
    pub fn from_response_at(
        response: RawTokenResponse,
        previous_refresh: Option<&str>,
        now: i64,
    ) -> (res: Result<TokenSet>)
        requires
            i64::MIN <= now + response.expires_in <= i64::MAX,
        ensures
            is_token(res, token_of(response, previous_refresh, now as int)),
    {
        let refresh_token = match response.refresh_token {
            Some(token) => token,
            None => match previous_refresh {
                Some(token) => token.to_owned(),
                None => {
                    return Err(AppError::Auth("token response omitted refresh_token".to_owned()));
                },
            },
        };
        let scope = match response.scope {
            Some(scope) => scope.into_vec(),
            None => Vec::new(),
        };
        assert(response.scope is None ==> strings_view(scope@) =~= Seq::<Seq<char>>::empty());
        Ok(
            TokenSet {
                access_token: response.access_token,
                refresh_token,
                expires_at: now + response.expires_in,
                scope,
            },
        )
    }

    /// The token that a reply received now describes.
    pub fn from_response(
        response: RawTokenResponse,
        previous_refresh: Option<&str>,
    ) -> (res: Result<TokenSet>)
        requires
            response.expires_in <= i64::MAX - MAX_UNIX_SECONDS,
        ensures
            exists|now: int|
                0 <= now <= MAX_UNIX_SECONDS && is_token(
                    res,
                    #[trigger] token_of(response, previous_refresh, now),
                ),
            res is Ok <==> kept_refresh_token(response, previous_refresh) is Some,
    {
        let now: i64 = unix_seconds();
        let ghost told = token_of(response, previous_refresh, now as int);
        let res = TokenSet::from_response_at(response, previous_refresh, now);
        assert(is_token(res, told));
        res
    }
}

/// The secret that is sent: without surrounding white space, and none where nothing is left.
pub open spec fn sent_secret(client_secret: Option<&str>) -> Option<Seq<char>> {
    crate::config::trimmed_value(
        match client_secret {
            Some(secret) => Some(secret@),
            None => None,
        },
    )
}

/// The fields of a form.
pub open spec fn form_view(form: Seq<(&str, &str)>) -> Seq<(Seq<char>, Seq<char>)> {
    Seq::new(form.len(), |i: int| (form[i].0@, form[i].1@))
}

/// The fields, and the secret behind them if one is sent.
pub open spec fn with_secret(
    fields: Seq<(Seq<char>, Seq<char>)>,
    client_secret: Option<&str>,
) -> Seq<(Seq<char>, Seq<char>)> {
    match sent_secret(client_secret) {
        Some(secret) => fields.push(("client_secret"@, secret)),
        None => fields,
    }
}

/// What is sent to ask for a token.
pub open spec fn token_fields(
    grant_type: Seq<char>,
    client_id: Seq<char>,
    client_secret: Option<&str>,
    device_code: Seq<char>,
) -> Seq<(Seq<char>, Seq<char>)> {
    with_secret(
        seq![
            ("grant_type"@, grant_type),
            ("client_id"@, client_id),
            ("device_code"@, device_code),
        ],
        client_secret,
    )
}

/// What is sent to refresh a token.
pub open spec fn refresh_fields(
    client_id: Seq<char>,
    client_secret: Option<&str>,
    refresh_token: Seq<char>,
) -> Seq<(Seq<char>, Seq<char>)> {
    with_secret(
        seq![
            ("grant_type"@, "refresh_token"@),
            ("client_id"@, client_id),
            ("refresh_token"@, refresh_token),
        ],
        client_secret,
    )
}

/// What is sent to revoke a token.
pub open spec fn revoke_fields(
    client_id: Seq<char>,
    client_secret: Option<&str>,
    refresh_token: Seq<char>,
) -> Seq<(Seq<char>, Seq<char>)> {
    with_secret(
        seq![("refresh_token"@, refresh_token), ("client_id"@, client_id)],
        client_secret,
    )
}

/// Appends the secret to a form, if there is one.
pub fn add_client_secret<'a>(
    form: &mut Vec<(&'static str, &'a str)>,
    client_secret: Option<&'a str>,
)
    ensures
        form_view(final(form)@) == with_secret(form_view(old(form)@), client_secret),
{
    if let Some(secret) = client_secret {
        let secret = trimmed(secret);
        if !secret.is_empty() {
            let ghost held = form_view(form@);
            form.push(("client_secret", secret));
            assert(form_view(form@) =~= held.push(("client_secret"@, secret@)));
        }
    }
}

/// The form by which a device code is redeemed.
pub fn token_form<'a>(
    grant_type: &'static str,
    client_id: &'a str,
    client_secret: Option<&'a str>,
    device_code: &'a str,
) -> (res: Vec<(&'static str, &'a str)>)
    ensures
        form_view(res@) == token_fields(grant_type@, client_id@, client_secret, device_code@),
{
    let mut form: Vec<(&'static str, &'a str)> = Vec::new();
    form.push(("grant_type", grant_type));
    form.push(("client_id", client_id));
    form.push(("device_code", device_code));
    assert(form_view(form@) =~= seq![
        ("grant_type"@, grant_type@),
        ("client_id"@, client_id@),
        ("device_code"@, device_code@),
    ]);
    add_client_secret(&mut form, client_secret);
    form
}

/// The form by which a token is refreshed.
pub fn refresh_form<'a>(
    client_id: &'a str,
    client_secret: Option<&'a str>,
    refresh_token: &'a str,
) -> (res: Vec<(&'static str, &'a str)>)
    ensures
        form_view(res@) == refresh_fields(client_id@, client_secret, refresh_token@),
{
    let mut form: Vec<(&'static str, &'a str)> = Vec::new();
    form.push(("grant_type", "refresh_token"));
    form.push(("client_id", client_id));
    form.push(("refresh_token", refresh_token));
    assert(form_view(form@) =~= seq![
        ("grant_type"@, "refresh_token"@),
        ("client_id"@, client_id@),
        ("refresh_token"@, refresh_token@),
    ]);
    add_client_secret(&mut form, client_secret);
    form
}

/// The form by which a token is revoked.
pub fn revoke_form<'a>(
    client_id: &'a str,
    client_secret: Option<&'a str>,
    refresh_token: &'a str,
) -> (res: Vec<(&'static str, &'a str)>)
    ensures
        form_view(res@) == revoke_fields(client_id@, client_secret, refresh_token@),
{
    let mut form: Vec<(&'static str, &'a str)> = Vec::new();
    form.push(("refresh_token", refresh_token));
    form.push(("client_id", client_id));
    assert(form_view(form@) =~= seq![
        ("refresh_token"@, refresh_token@),
        ("client_id"@, client_id@),
    ]);
    add_client_secret(&mut form, client_secret);
    form
}

/// The scopes as one text, with single spaces between them.
pub fn joined_scopes(scopes: &[&str]) -> (res: String)
    ensures
        res@ == crate::text::join(Seq::new(scopes@.len(), |i: int| scopes@[i]@), " "@),
{
    let mut out = String::new();
    let ghost all = Seq::new(scopes@.len(), |i: int| scopes@[i]@);
    let mut i: usize = 0;
    assert(all.take(0) =~= Seq::<Seq<char>>::empty());
    while i < scopes.len()
        invariant
            i <= scopes@.len(),
            all == Seq::new(scopes@.len(), |i: int| scopes@[i]@),
            out@ == crate::text::join(all.take(i as int), " "@),
        decreases scopes@.len() - i,
    {
        assert(all.take(i + 1).drop_last() =~= all.take(i as int));
        assert(all.take(i + 1).last() == scopes@[i as int]@);
        if i > 0 {
            out.append(" ");
        }
        out.append(scopes[i]);
        assert(i == 0 ==> out@ =~= scopes@[0]@);
        i = i + 1;
    }
    assert(all.take(i as int) =~= all);
    out
}

/// What a refusal says, by views.
pub struct RefusalView {
    pub error: Option<Seq<char>>,
    pub description: Option<Seq<char>>,
}

impl View for OAuthErrorResponse {
    type V = RefusalView;

    open spec fn view(&self) -> RefusalView {
        RefusalView {
            error: match self.error {
                Some(error) => Some(error@),
                None => None,
            },
            description: match self.error_description {
                Some(description) => Some(description@),
                None => None,
            },
        }
    }
}

pub open spec fn refusal_view(refusal: Option<OAuthErrorResponse>) -> Option<RefusalView> {
    match refusal {
        Some(refusal) => Some(refusal@),
        None => None,
    }
}

/// The first known error code that occurs in a text.
pub open spec fn code_in(text: Seq<char>) -> Option<Seq<char>> {
    if contains_text(text, "authorization_pending"@) {
        Some("authorization_pending"@)
    } else if contains_text(text, "slow_down"@) {
        Some("slow_down"@)
    } else if contains_text(text, "expired_token"@) {
        Some("expired_token"@)
    } else if contains_text(text, "access_denied"@) {
        Some("access_denied"@)
    } else if contains_text(text, "invalid_client"@) {
        Some("invalid_client"@)
    } else {
        None
    }
}

/// What a refusal says: what was read from it, or else a known error code in its plain text.
pub open spec fn refusal_of(parsed: Option<RefusalView>, text: Seq<char>) -> Option<RefusalView> {
    match parsed {
        Some(refusal) => Some(refusal),
        None => match code_in(text) {
            Some(code) => Some(RefusalView { error: Some(code), description: None }),
            None => None,
        },
    }
}

/// What a refusal says: `parsed` where the text is a JSON object, or else a known error code that
/// occurs in the text.
pub fn oauth_error_from_text(parsed: Option<OAuthErrorResponse>, text: &str) -> (res: Option<
    OAuthErrorResponse,
>)
    ensures
        refusal_view(res) == refusal_of(refusal_view(parsed), text@),
{
    if parsed.is_some() {
        return parsed;
    }
    let code = if contains_str(text, "authorization_pending") {
        "authorization_pending"
    } else if contains_str(text, "slow_down") {
        "slow_down"
    } else if contains_str(text, "expired_token") {
        "expired_token"
    } else if contains_str(text, "access_denied") {
        "access_denied"
    } else if contains_str(text, "invalid_client") {
        "invalid_client"
    } else {
        return None;
    };
    Some(OAuthErrorResponse { error: Some(code.to_owned()), error_description: None })
}

/// Everything that a refusal says, in one text.
pub open spec fn refusal_text(error: Option<RefusalView>, raw: Seq<char>) -> Seq<char> {
    match error {
        Some(refusal) => {
            let code = match refusal.error {
                Some(code) => code + " "@,
                None => Seq::empty(),
            };
            let description = match refusal.description {
                Some(description) => description + " "@,
                None => Seq::empty(),
            };
            code + description + raw
        },
        None => raw,
    }
}

/// The server does not know the grant type, as far as its words tell.
pub open spec fn rejects_grant_type(error: Option<RefusalView>, raw: Seq<char>) -> bool {
    let lower = ascii_lowercase(refusal_text(error, raw));
    contains_text(lower, "grant_type"@) && contains_text(lower, "invalid"@)
}

/// Whether the server rejected the grant type, in whatever words and letter case.
pub fn is_invalid_grant_type(error: Option<&OAuthErrorResponse>, raw_text: &str) -> (res: bool)
    ensures
        res == rejects_grant_type(
            match error {
                Some(error) => Some(error@),
                None => None,
            },
            raw_text@,
        ),
{
    let mut text = String::new();
    if let Some(error) = error {
        if let Some(code) = &error.error {
            text.append(code.as_str());
            text.append(" ");
        }
        if let Some(description) = &error.error_description {
            text.append(description.as_str());
            text.append(" ");
        }
    }
    text.append(raw_text);
    let ghost said = refusal_text(
        match error {
            Some(error) => Some(error@),
            None => None,
        },
        raw_text@,
    );
    assert(text@ =~= said);
    let chars = chars_of(text.as_str());
    let lower = ascii_lowercase_chars(chars.as_slice());
    let grant_type = chars_of("grant_type");
    let invalid = chars_of("invalid");
    contains_chars(lower.as_slice(), grant_type.as_slice()) && contains_chars(
        lower.as_slice(),
        invalid.as_slice(),
    )
}

/// The state of polling for a token.
#[derive(Clone, Copy, Debug, PartialEq, Eq, Structural)]
pub struct DevicePoll {
    /// The seconds between two polls.
    pub interval: u64,
    /// The seconds after which the device code expires.
    pub timeout: Option<u64>,
    /// The second grant type has been tried.
    pub fallback_used: bool,
    /// The next poll comes after the interval and not at once.
    pub sleep_before_poll: bool,
}

/// The next step of polling.
#[derive(Clone, Copy, Debug, PartialEq, Eq, Structural)]
pub enum PollStep {
    /// The device code expired.
    Expired,
    /// Poll the token endpoint after so many seconds.
    Poll { wait_seconds: u64 },
}

/// What the refusal of a poll leads to.
pub enum PollVerdict {
    /// Poll again.
    Again(DevicePoll),
    /// Give up with this message.
    Fail(Seq<char>),
}

/// The message for an error code that ends the login.
pub open spec fn refusal_message(code: Seq<char>, description: Seq<char>) -> Seq<char> {
    if code == "invalid_client"@ {
        code + ": "@ + description
            + ". Check your client_id; if your iBroadcast app requires a secret, set IBROADCAST_CLIENT_SECRET."@
    } else {
        code + ": "@ + description
    }
}

impl DevicePoll {
    pub open spec fn started(interval_seconds: u64, expires_in: Option<u64>) -> DevicePoll {
        DevicePoll {
            interval: if interval_seconds == 0 {
                1
            } else {
                interval_seconds
            },
            timeout: expires_in,
            fallback_used: false,
            sleep_before_poll: true,
        }
    }

    /// The device code has expired when so many nanoseconds have passed.
    pub open spec fn timed_out(self, elapsed_nanos: int) -> bool {
        match self.timeout {
            Some(seconds) => elapsed_nanos >= seconds * 1_000_000_000,
            None => false,
        }
    }

    /// What follows, and the state after it.
    pub open spec fn stepped(self, elapsed_nanos: int) -> (DevicePoll, PollStep) {
        if self.timed_out(elapsed_nanos) {
            (self, PollStep::Expired)
        } else {
            (
                DevicePoll { sleep_before_poll: true, ..self },
                PollStep::Poll {
                    wait_seconds: if self.sleep_before_poll {
                        self.interval
                    } else {
                        0
                    },
                },
            )
        }
    }

    pub open spec fn spec_grant_type(self) -> Seq<char> {
        if self.fallback_used {
            IBROADCAST_DEVICE_GRANT_TYPE@
        } else {
            RFC8628_DEVICE_GRANT_TYPE@
        }
    }

    /// What follows from a refusal: the second grant type is tried at once where the first is not
    /// known; pending authorizations are polled again; everything else ends the login.
    pub open spec fn refused(
        self,
        error: Option<RefusalView>,
        status: Seq<char>,
        text: Seq<char>,
    ) -> PollVerdict {
        if rejects_grant_type(error, text) && !self.fallback_used {
            PollVerdict::Again(
                DevicePoll { fallback_used: true, sleep_before_poll: false, ..self },
            )
        } else {
            let code = match error {
                Some(refusal) => refusal.error,
                None => None,
            };
            let description = match error {
                Some(refusal) => match refusal.description {
                    Some(description) => description,
                    None => ""@,
                },
                None => ""@,
            };
            match code {
                None => PollVerdict::Fail("server returned "@ + status + ": "@ + text),
                Some(code) => if code == "authorization_pending"@ {
                    PollVerdict::Again(self)
                } else if code == "slow_down"@ {
                    PollVerdict::Again(
                        DevicePoll { interval: (self.interval + 5) as u64, ..self },
                    )
                } else if code == "expired_token"@ {
                    PollVerdict::Fail("device code expired; restart login"@)
                } else if code == "access_denied"@ {
                    PollVerdict::Fail("authorization was denied"@)
                } else {
                    PollVerdict::Fail(refusal_message(code, description))
                },
            }
        }
    }

    /// Begins to poll.
    pub fn begin(interval_seconds: u64, expires_in: Option<u64>) -> (res: DevicePoll)
        ensures
            res == DevicePoll::started(interval_seconds, expires_in),
    {
        DevicePoll {
            interval: if interval_seconds == 0 {
                1
            } else {
                interval_seconds
            },
            timeout: expires_in,
            fallback_used: false,
            sleep_before_poll: true,
        }
    }

    /// The grant type that is sent.
    pub fn grant_type(&self) -> (res: &'static str)
        ensures
            res@ == self.spec_grant_type(),
    {
        if self.fallback_used {
            IBROADCAST_DEVICE_GRANT_TYPE
        } else {
            RFC8628_DEVICE_GRANT_TYPE
        }
    }

    /// The next step when so many nanoseconds have passed since polling began.
    pub fn next_step(&mut self, elapsed_nanos: u128) -> (res: PollStep)
        ensures
            (*final(self), res) == old(self).stepped(elapsed_nanos as int),
    {
        if let Some(seconds) = self.timeout {
            if elapsed_nanos >= seconds as u128 * 1_000_000_000 {
                return PollStep::Expired;
            }
        }
        if self.sleep_before_poll {
            PollStep::Poll { wait_seconds: self.interval }
        } else {
            self.sleep_before_poll = true;
            PollStep::Poll { wait_seconds: 0 }
        }
    }

    /// The error of a device code that expired while it was polled for.
    pub fn expired_error() -> (res: AppError)
        ensures
            res is Auth,
            res->Auth_0@ == "device code expired before authorization completed"@,
    {
        AppError::Auth("device code expired before authorization completed".to_owned())
    }

    /// Takes the refusal of a poll into account: `None` where polling goes on.
    pub fn on_refusal(
        &mut self,
        error: Option<&OAuthErrorResponse>,
        status: &str,
        text: &str,
    ) -> (res: Option<AppError>)
        requires
            old(self).interval <= u64::MAX - 5,
        ensures
            match old(self).refused(
                match error {
                    Some(error) => Some(error@),
                    None => None,
                },
                status@,
                text@,
            ) {
                PollVerdict::Again(next) => res is None && *final(self) == next,
                PollVerdict::Fail(message) => *final(self) == *old(self) && res is Some && res->0
                    is Auth && res->0->Auth_0@ == message,
            },
    {
        if is_invalid_grant_type(error, text) && !self.fallback_used {
            self.fallback_used = true;
            self.sleep_before_poll = false;
            return None;
        }
        let refusal = match error {
            Some(refusal) => refusal,
            None => {
                return Some(AppError::auth_response(status, text));
            },
        };
        let code = match &refusal.error {
            Some(code) => code.as_str(),
            None => {
                return Some(AppError::auth_response(status, text));
            },
        };
        if same_text(code, "authorization_pending") {
            return None;
        }
        if same_text(code, "slow_down") {
            self.interval = self.interval + 5;
            return None;
        }
        if same_text(code, "expired_token") {
            return Some(AppError::Auth("device code expired; restart login".to_owned()));
        }
        if same_text(code, "access_denied") {
            return Some(AppError::Auth("authorization was denied".to_owned()));
        }
        let mut message = prefixed(code, ": ");
        let description = match &refusal.error_description {
            Some(description) => description.as_str(),
            None => "",
        };
        message.append(description);
        if same_text(code, "invalid_client") {
            message.append(
                ". Check your client_id; if your iBroadcast app requires a secret, set IBROADCAST_CLIENT_SECRET.",
            );
        }
        Some(AppError::Auth(message))
    }
}

/// Only the RFC 8628 grant type is sent first; the second grant type is tried at once when the
/// server rejects it, and it is not given up for another: a second rejection does not change it.
pub proof fn law_fallback_is_tried_once(
    poll: DevicePoll,
    error: Option<RefusalView>,
    status: Seq<char>,
    text: Seq<char>,
)
    requires
        rejects_grant_type(error, text),
    ensures
        !poll.fallback_used ==> poll.spec_grant_type() == RFC8628_DEVICE_GRANT_TYPE@
            && poll.refused(error, status, text) == PollVerdict::Again(
            DevicePoll { fallback_used: true, sleep_before_poll: false, ..poll },
        ),
        poll.fallback_used ==> (poll.refused(error, status, text) matches PollVerdict::Again(next)
            ==> next.fallback_used && next.spec_grant_type() == IBROADCAST_DEVICE_GRANT_TYPE@),
{
}

/// A server that asks to slow down is asked less often, and never more often than before.
pub proof fn law_interval_never_shrinks(
    poll: DevicePoll,
    error: Option<RefusalView>,
    status: Seq<char>,
    text: Seq<char>,
)
    requires
        poll.interval <= u64::MAX - 5,
    ensures
        DevicePoll::started(poll.interval, poll.timeout).interval >= 1,
        poll.refused(error, status, text) matches PollVerdict::Again(next) ==> next.interval
            >= poll.interval && next.timeout == poll.timeout,
{
}

/// A secret is sent only where one is left without surrounding white space, and then behind all
/// other fields, which it leaves as they are.
pub proof fn law_blank_secret_is_not_sent(
    fields: Seq<(Seq<char>, Seq<char>)>,
    client_secret: Option<&str>,
)
    ensures
        client_secret is None ==> with_secret(fields, client_secret) == fields,
        client_secret is Some && trim(client_secret->0@, CharSet::WhiteSpace).len() == 0
            ==> with_secret(fields, client_secret) == fields,
        client_secret is Some && trim(client_secret->0@, CharSet::WhiteSpace).len() > 0
            ==> with_secret(fields, client_secret) == fields.push(
            ("client_secret"@, trim(client_secret->0@, CharSet::WhiteSpace)),
        ),
{
}

} // verus!
