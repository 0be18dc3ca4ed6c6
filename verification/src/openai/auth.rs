//! OpenAI account credentials: the saved record, the claims read from its tokens,
//! when it must be refreshed, and the errors of the sign-in flow.
use vstd::prelude::*;

use crate::codec::{
    decode_url_safe, decode_url_safe_no_pad, url_safe_decoded, url_safe_no_pad_decoded,
};
use crate::text::{
    append_decimal, append_str, ascii_lowercase, chars_of, decimal, is_blank, opt_view,
    string_from_chars, string_from_range, to_ascii_lowercase, trim, trim_is_empty, trimmed,
};

verus! {

/// The provider id of OpenAI.
pub const OPENAI_PROVIDER: &'static str = "openai";

/// How long before expiry an access token is refreshed, in milliseconds.
pub const REFRESH_WINDOW_MS: u64 = 300000;

/// What the sign-in flow can fail with.
#[derive(Clone, Debug, PartialEq, Eq)]
pub enum OpenAiAuthError {
    AuthenticationRequired,
    CallbackListener(String),
    CallbackTimeout,
    CallbackRejected(String),
    TokenExchange(String),
    MissingAccessToken,
    StoredCredentials(String),
    CredentialStore(String),
    AuthorizationUrl(String),
}

/// The message shown for each sign-in error.
pub open spec fn auth_error_text(error: OpenAiAuthError) -> Seq<char> {
    match error {
        OpenAiAuthError::AuthenticationRequired => "the OpenAI account is not signed in"@,
        OpenAiAuthError::CallbackListener(detail) =>
            "could not open a local OAuth callback listener: "@ + detail@,
        OpenAiAuthError::CallbackTimeout => "the OAuth callback timed out"@,
        OpenAiAuthError::CallbackRejected(detail) => "the OAuth callback was rejected: "@ + detail@,
        OpenAiAuthError::TokenExchange(detail) => "the OAuth token exchange failed: "@ + detail@,
        OpenAiAuthError::MissingAccessToken =>
            "the OAuth response did not contain an access token"@,
        OpenAiAuthError::StoredCredentials(detail) =>
            "the saved OpenAI credentials are invalid: "@ + detail@,
        OpenAiAuthError::CredentialStore(detail) => "the secure credential store failed: "@ + detail@,
        OpenAiAuthError::AuthorizationUrl(detail) =>
            "could not build the OpenAI authorization URL: "@ + detail@,
    }
}

impl OpenAiAuthError {
    /// The error's message.
    pub fn describe(&self) -> (text: String)
        ensures
            text@ == auth_error_text(*self),
    {
        let mut text = String::new();
        match self {
            OpenAiAuthError::AuthenticationRequired => append_str(&mut text, "the OpenAI account is not signed in"),
            OpenAiAuthError::CallbackListener(detail) => {
                append_str(&mut text, "could not open a local OAuth callback listener: ");
                append_str(&mut text, detail.as_str());
            },
            OpenAiAuthError::CallbackTimeout => append_str(&mut text, "the OAuth callback timed out"),
            OpenAiAuthError::CallbackRejected(detail) => {
                append_str(&mut text, "the OAuth callback was rejected: ");
                append_str(&mut text, detail.as_str());
            },
            OpenAiAuthError::TokenExchange(detail) => {
                append_str(&mut text, "the OAuth token exchange failed: ");
                append_str(&mut text, detail.as_str());
            },
            OpenAiAuthError::MissingAccessToken => append_str(&mut text, "the OAuth response did not contain an access token"),
            OpenAiAuthError::StoredCredentials(detail) => {
                append_str(&mut text, "the saved OpenAI credentials are invalid: ");
                append_str(&mut text, detail.as_str());
            },
            OpenAiAuthError::CredentialStore(detail) => {
                append_str(&mut text, "the secure credential store failed: ");
                append_str(&mut text, detail.as_str());
            },
            OpenAiAuthError::AuthorizationUrl(detail) => {
                append_str(&mut text, "could not build the OpenAI authorization URL: ");
                append_str(&mut text, detail.as_str());
            },
        }
        text
    }
}

/// The credentials kept for the signed-in account.
#[derive(Clone, Debug, PartialEq, Eq)]
pub struct CredentialRecord {
    pub access_token: String,
    pub refresh_token: Option<String>,
    pub account_id: Option<String>,
    pub name: Option<String>,
    pub email: Option<String>,
    pub plan: Option<String>,
    pub expires_at_ms: Option<u64>,
}

/// A credential record as values.
pub struct CredentialView {
    pub access_token: Seq<char>,
    pub refresh_token: Option<Seq<char>>,
    pub account_id: Option<Seq<char>>,
    pub name: Option<Seq<char>>,
    pub email: Option<Seq<char>>,
    pub plan: Option<Seq<char>>,
    pub expires_at_ms: Option<u64>,
}

impl View for CredentialRecord {
    type V = CredentialView;

    open spec fn view(&self) -> CredentialView {
        CredentialView {
            access_token: self.access_token@,
            refresh_token: opt_view(self.refresh_token),
            account_id: opt_view(self.account_id),
            name: opt_view(self.name),
            email: opt_view(self.email),
            plan: opt_view(self.plan),
            expires_at_ms: self.expires_at_ms,
        }
    }
}

/// The account that the application shows for a signed-in provider.
#[derive(Clone, Debug, PartialEq, Eq)]
pub struct ProviderAccount {
    pub provider: String,
    pub name: Option<String>,
    pub email: Option<String>,
    pub plan: Option<String>,
}

/// What the token endpoint answers.
#[derive(Clone, Debug, PartialEq, Eq)]
pub struct TokenResponse {
    pub access_token: String,
    pub refresh_token: Option<String>,
    pub expires_in: Option<u64>,
    pub id_token: Option<String>,
}

/// The error body of the OAuth endpoints.
#[derive(Clone, Debug, PartialEq, Eq)]
pub struct OAuthErrorResponse {
    pub error: Option<String>,
    pub error_description: Option<String>,
}

/// The string claims of a token payload that the sign-in flow reads: those at the top
/// level, those under the `https://api.openai.com/auth` and
/// `https://api.openai.com/profile` namespaces, and the `id` of the first entry of
/// `organizations`. A claim that is absent or not a string is `None`.
#[derive(Clone, Debug, PartialEq, Eq)]
pub struct JwtClaims {
    pub chatgpt_account_id: Option<String>,
    pub chatgpt_plan_type: Option<String>,
    pub email: Option<String>,
    pub name: Option<String>,
    pub auth_account_id: Option<String>,
    pub auth_plan_type: Option<String>,
    pub profile_email: Option<String>,
    pub profile_name: Option<String>,
    pub first_organization_id: Option<String>,
}

/// The first of two optional values that is present.
pub open spec fn or_else<T>(first: Option<T>, second: Option<T>) -> Option<T> {
    match first {
        Some(v) => Some(v),
        None => second,
    }
}

fn or_else_string(first: Option<String>, second: Option<String>) -> (r: Option<String>)
    ensures
        opt_view(r) == or_else(opt_view(first), opt_view(second)),
{
    match first {
        Some(v) => Some(v),
        None => second,
    }
}

fn clone_opt(o: &Option<String>) -> (r: Option<String>)
    ensures
        opt_view(r) == opt_view(*o),
{
    match o {
        Some(s) => Some(s.clone()),
        None => None,
    }
}

/// The account id: the top-level claim, else the one under the auth namespace, else
/// the id of the first organization.
pub open spec fn account_id_claim_spec(claims: JwtClaims) -> Option<Seq<char>> {
    or_else(
        or_else(opt_view(claims.chatgpt_account_id), opt_view(claims.auth_account_id)),
        opt_view(claims.first_organization_id),
    )
}

/// The plan: the top-level claim, else the one under the auth namespace.
pub open spec fn plan_claim_spec(claims: JwtClaims) -> Option<Seq<char>> {
    or_else(opt_view(claims.chatgpt_plan_type), opt_view(claims.auth_plan_type))
}

/// The e-mail address: the profile claim, else the top-level one, trimmed and in ASCII
/// lowercase; `None` where that leaves nothing.
pub open spec fn email_claim_spec(claims: JwtClaims) -> Option<Seq<char>> {
    match or_else(opt_view(claims.profile_email), opt_view(claims.email)) {
        Some(email) => {
            let normalized = ascii_lowercase(trimmed(email));
            if normalized.len() == 0 { None } else { Some(normalized) }
        },
        None => None,
    }
}

/// The display name: the profile claim, else the top-level one, trimmed; `None` where
/// that leaves nothing.
pub open spec fn name_claim_spec(claims: JwtClaims) -> Option<Seq<char>> {
    match or_else(opt_view(claims.profile_name), opt_view(claims.name)) {
        Some(name) => {
            let t = trimmed(name);
            if t.len() == 0 { None } else { Some(t) }
        },
        None => None,
    }
}

pub fn account_id_claim(claims: &JwtClaims) -> (r: Option<String>)
    ensures
        opt_view(r) == account_id_claim_spec(*claims),
{
    or_else_string(
        or_else_string(clone_opt(&claims.chatgpt_account_id), clone_opt(&claims.auth_account_id)),
        clone_opt(&claims.first_organization_id),
    )
}

pub fn plan_claim(claims: &JwtClaims) -> (r: Option<String>)
    ensures
        opt_view(r) == plan_claim_spec(*claims),
{
    or_else_string(clone_opt(&claims.chatgpt_plan_type), clone_opt(&claims.auth_plan_type))
}

pub fn email_claim(claims: &JwtClaims) -> (r: Option<String>)
    ensures
        opt_view(r) == email_claim_spec(*claims),
{
    match or_else_string(clone_opt(&claims.profile_email), clone_opt(&claims.email)) {
        Some(email) => {
            let t = trim(email.as_str());
            let lower = to_ascii_lowercase(t.as_str());
            if lower.len() == 0 {
                None
            } else {
                Some(string_from_chars(&lower))
            }
        },
        None => None,
    }
}

pub fn name_claim(claims: &JwtClaims) -> (r: Option<String>)
    ensures
        opt_view(r) == name_claim_spec(*claims),
{
    match or_else_string(clone_opt(&claims.profile_name), clone_opt(&claims.name)) {
        Some(name) => {
            let t = trim(name.as_str());
            if t.as_str().unicode_len() == 0 {
                None
            } else {
                Some(t)
            }
        },
        None => None,
    }
}

/// The part of `s` before its first `.`, or all of `s`.
pub open spec fn before_dot(s: Seq<char>) -> Seq<char>
    decreases s.len(),
{
    if s.len() == 0 {
        s
    } else if s[0] == '.' {
        Seq::empty()
    } else {
        seq![s[0]] + before_dot(s.drop_first())
    }
}

/// The part of `s` after its first `.`, or `None` where it has none.
pub open spec fn after_dot(s: Seq<char>) -> Option<Seq<char>>
    decreases s.len(),
{
    if s.len() == 0 {
        None
    } else if s[0] == '.' {
        Some(s.drop_first())
    } else {
        after_dot(s.drop_first())
    }
}

/// The second `.`-separated segment of a token (`token.split('.').nth(1)`).
pub open spec fn jwt_payload_spec(token: Seq<char>) -> Option<Seq<char>> {
    match after_dot(token) {
        Some(rest) => Some(before_dot(rest)),
        None => None,
    }
}

/// The second `.`-separated segment of a token.
pub fn jwt_payload(token: &str) -> (r: Option<String>)
    ensures
        opt_view(r) == jwt_payload_spec(token@),
{
    let chars = chars_of(token);
    let mut i: usize = 0;
    assert(chars@.skip(0) =~= chars@);
    while i < chars.len() && chars[i] != '.'
        invariant
            i <= chars@.len(),
            chars@ == token@,
            after_dot(token@) == after_dot(chars@.skip(i as int)),
        decreases chars.len() - i,
    {
        assert(chars@.skip(i as int).drop_first() =~= chars@.skip(i + 1));
        i += 1;
    }
    if i == chars.len() {
        assert(chars@.skip(i as int).len() == 0);
        return None;
    }
    assert(chars@.skip(i as int).drop_first() =~= chars@.skip(i + 1));
    let start = i + 1;
    let mut j: usize = start;
    assert(chars@.subrange(start as int, j as int) + before_dot(chars@.skip(j as int)) =~= before_dot(chars@.skip(start as int)));
    while j < chars.len() && chars[j] != '.'
        invariant
            start <= j <= chars@.len(),
            chars@ == token@,
            chars@.subrange(start as int, j as int) + before_dot(chars@.skip(j as int)) == before_dot(chars@.skip(start as int)),
        decreases chars.len() - j,
    {
        assert(chars@.skip(j as int).drop_first() =~= chars@.skip(j + 1));
        assert(chars@.subrange(start as int, j + 1) =~= chars@.subrange(start as int, j as int) + seq![chars@[j as int]]);
        j += 1;
    }
    if j == chars.len() {
        assert(chars@.skip(j as int).len() == 0);
    }
    assert(chars@.subrange(start as int, j as int) + before_dot(chars@.skip(j as int)) =~= chars@.subrange(start as int, j as int));
    Some(string_from_range(&chars, start, j))
}

/// The decoded payload of a token: its second segment in URL-safe base64, read without
/// padding or else with it.
pub open spec fn jwt_payload_bytes_spec(token: Seq<char>) -> Option<Seq<u8>> {
    match jwt_payload_spec(token) {
        Some(payload) => match url_safe_no_pad_decoded(payload) {
            Some(bytes) => Some(bytes),
            None => url_safe_decoded(payload),
        },
        None => None,
    }
}

/// The decoded payload bytes of a token, which hold its JSON claims.
pub fn jwt_payload_bytes(token: &str) -> (r: Option<Vec<u8>>)
    ensures
        match r {
            Some(b) => jwt_payload_bytes_spec(token@) == Some(b@),
            None => jwt_payload_bytes_spec(token@) is None,
        },
{
    match jwt_payload(token) {
        Some(payload) => match decode_url_safe_no_pad(payload.as_str()) {
            Some(bytes) => Some(bytes),
            None => decode_url_safe(payload.as_str()),
        },
        None => None,
    }
}

/// A claim read from the ID token's claims, else from the access token's.
pub open spec fn claim_from(
    id_claims: Option<JwtClaims>,
    access_claims: Option<JwtClaims>,
    pick: spec_fn(JwtClaims) -> Option<Seq<char>>,
) -> Option<Seq<char>> {
    or_else(
        match id_claims { Some(c) => pick(c), None => None },
        match access_claims { Some(c) => pick(c), None => None },
    )
}

/// A field of the previous record, where there is one.
pub open spec fn previous_field(
    previous: Option<CredentialRecord>,
    pick: spec_fn(CredentialView) -> Option<Seq<char>>,
) -> Option<Seq<char>> {
    match previous {
        Some(p) => pick(p@),
        None => None,
    }
}

/// The previous record a caller handed over, by value.
pub open spec fn previous_record(previous: Option<&CredentialRecord>) -> Option<CredentialRecord> {
    match previous {
        Some(p) => Some(*p),
        None => None,
    }
}

/// `x` capped at `u64::MAX`.
pub open spec fn saturate(x: int) -> u64 {
    if x > u64::MAX { u64::MAX } else if x < 0 { 0 } else { x as u64 }
}

/// The record that a token response makes: its tokens, each claim from the ID token,
/// else the access token, else the previous record, and the expiry `expires_in`
/// seconds after `now_ms` (saturating), else the previous expiry.
pub open spec fn record_spec(
    token: TokenResponse,
    previous: Option<CredentialRecord>,
    id_claims: Option<JwtClaims>,
    access_claims: Option<JwtClaims>,
    now_ms: u64,
) -> CredentialView {
    CredentialView {
        access_token: token.access_token@,
        refresh_token: or_else(
            opt_view(token.refresh_token),
            previous_field(previous, |p: CredentialView| p.refresh_token),
        ),
        account_id: or_else(
            claim_from(id_claims, access_claims, |c: JwtClaims| account_id_claim_spec(c)),
            previous_field(previous, |p: CredentialView| p.account_id),
        ),
        name: or_else(
            claim_from(id_claims, access_claims, |c: JwtClaims| name_claim_spec(c)),
            previous_field(previous, |p: CredentialView| p.name),
        ),
        email: or_else(
            claim_from(id_claims, access_claims, |c: JwtClaims| email_claim_spec(c)),
            previous_field(previous, |p: CredentialView| p.email),
        ),
        plan: or_else(
            claim_from(id_claims, access_claims, |c: JwtClaims| plan_claim_spec(c)),
            previous_field(previous, |p: CredentialView| p.plan),
        ),
        expires_at_ms: match token.expires_in {
            Some(seconds) => Some(saturate(now_ms + saturate(seconds * 1000))),
            None => match previous {
                Some(p) => p.expires_at_ms,
                None => None,
            },
        },
    }
}

fn saturating_millis(now_ms: u64, seconds: u64) -> (r: u64)
    ensures
        r == saturate(now_ms + saturate(seconds * 1000)),
{
    let millis = match seconds.checked_mul(1000) {
        Some(m) => m,
        None => u64::MAX,
    };
    now_ms.saturating_add(millis)
}

fn claim_or(
    id_claims: &Option<JwtClaims>,
    access_claims: &Option<JwtClaims>,
    which: u8,
) -> (r: Option<String>)
    requires
        which < 4,
    ensures
        opt_view(r) == claim_from(*id_claims, *access_claims, |c: JwtClaims| pick_claim(c, which)),
{
    let first = match id_claims {
        Some(c) => pick_claim_exec(c, which),
        None => None,
    };
    match first {
        Some(v) => Some(v),
        None => match access_claims {
            Some(c) => pick_claim_exec(c, which),
            None => None,
        },
    }
}

/// One of the four claims a record keeps: account id, name, e-mail address, plan.
pub open spec fn pick_claim(c: JwtClaims, which: u8) -> Option<Seq<char>> {
    if which == 0 {
        account_id_claim_spec(c)
    } else if which == 1 {
        name_claim_spec(c)
    } else if which == 2 {
        email_claim_spec(c)
    } else {
        plan_claim_spec(c)
    }
}

fn pick_claim_exec(c: &JwtClaims, which: u8) -> (r: Option<String>)
    ensures
        opt_view(r) == pick_claim(*c, which),
{
    if which == 0 {
        account_id_claim(c)
    } else if which == 1 {
        name_claim(c)
    } else if which == 2 {
        email_claim(c)
    } else {
        plan_claim(c)
    }
}

/// The record that a token response makes at the time `now_ms`; an empty access
/// token is refused.
pub fn record_from_token_response_at(
    token: TokenResponse,
    previous: Option<&CredentialRecord>,
    id_claims: Option<JwtClaims>,
    access_claims: Option<JwtClaims>,
    now_ms: u64,
) -> (r: Result<CredentialRecord, OpenAiAuthError>)
    ensures
        token.access_token@.len() == 0 ==> r == Err::<CredentialRecord, OpenAiAuthError>(OpenAiAuthError::MissingAccessToken),
        token.access_token@.len() > 0 ==> (r matches Ok(record)
            && record@ == record_spec(token, previous_record(previous), id_claims, access_claims, now_ms)),
{
    if token.access_token.as_str().unicode_len() == 0 {
        return Err(OpenAiAuthError::MissingAccessToken);
    }
    let account_claim = claim_or(&id_claims, &access_claims, 0);
    let name_from_claims = claim_or(&id_claims, &access_claims, 1);
    let email_from_claims = claim_or(&id_claims, &access_claims, 2);
    let plan_from_claims = claim_or(&id_claims, &access_claims, 3);
    let (prev_refresh, prev_account, prev_name, prev_email, prev_plan, prev_expiry) = match previous {
        Some(p) => (
            clone_opt(&p.refresh_token),
            clone_opt(&p.account_id),
            clone_opt(&p.name),
            clone_opt(&p.email),
            clone_opt(&p.plan),
            p.expires_at_ms,
        ),
        None => (None, None, None, None, None, None),
    };
    let expires_at_ms = match token.expires_in {
        Some(seconds) => Some(saturating_millis(now_ms, seconds)),
        None => prev_expiry,
    };
    let record = CredentialRecord {
        access_token: token.access_token,
        refresh_token: or_else_string(token.refresh_token, prev_refresh),
        account_id: or_else_string(account_claim, prev_account),
        name: or_else_string(name_from_claims, prev_name),
        email: or_else_string(email_from_claims, prev_email),
        plan: or_else_string(plan_from_claims, prev_plan),
        expires_at_ms,
    };
    proof {
        assert(claim_from(id_claims, access_claims, |c: JwtClaims| pick_claim(c, 0)) == claim_from(id_claims, access_claims, |c: JwtClaims| account_id_claim_spec(c)));
        assert(claim_from(id_claims, access_claims, |c: JwtClaims| pick_claim(c, 1)) == claim_from(id_claims, access_claims, |c: JwtClaims| name_claim_spec(c)));
        assert(claim_from(id_claims, access_claims, |c: JwtClaims| pick_claim(c, 2)) == claim_from(id_claims, access_claims, |c: JwtClaims| email_claim_spec(c)));
        assert(claim_from(id_claims, access_claims, |c: JwtClaims| pick_claim(c, 3)) == claim_from(id_claims, access_claims, |c: JwtClaims| plan_claim_spec(c)));
    }
    Ok(record)
}

/// A clock reading in milliseconds as a `u64`: capped at `u64::MAX`, and zero for a
/// reading before the epoch.
pub open spec fn clock_millis_spec(reading: Option<u128>) -> u64 {
    match reading {
        Some(millis) => if millis > u64::MAX { u64::MAX } else { millis as u64 },
        None => 0,
    }
}

/// Turns a clock reading into milliseconds as a `u64`.
pub fn clock_millis(reading: Option<u128>) -> (ms: u64)
    ensures
        ms == clock_millis_spec(reading),
{
    match reading {
        Some(millis) => if millis > u64::MAX as u128 { u64::MAX } else { millis as u64 },
        None => 0,
    }
}

/// Milliseconds since the Unix epoch by the system clock, capped at `u64::MAX`, or zero
/// when the clock reads a time before the epoch.
pub fn now_ms() -> (now: u64)
{
    clock_millis(crate::storage::database::system_millis())
}

/// Whether a record expiring at `expires_at_ms` must be refreshed at `now_ms`: when it
/// expires within the refresh window. A record without an expiry never must.
pub open spec fn needs_refresh_spec(expires_at_ms: Option<u64>, now_ms: u64) -> bool {
    match expires_at_ms {
        Some(expiry) => expiry <= saturate(now_ms + REFRESH_WINDOW_MS),
        None => false,
    }
}

impl CredentialRecord {
    /// The account that this record signs in.
    pub fn account(&self) -> (account: ProviderAccount)
        ensures
            account.provider@ == OPENAI_PROVIDER@,
            opt_view(account.name) == opt_view(self.name),
            opt_view(account.email) == opt_view(self.email),
            opt_view(account.plan) == opt_view(self.plan),
    {
        let mut provider = String::new();
        append_str(&mut provider, OPENAI_PROVIDER);
        ProviderAccount {
            provider,
            name: clone_opt(&self.name),
            email: clone_opt(&self.email),
            plan: clone_opt(&self.plan),
        }
    }

    /// Whether the record must be refreshed at the time `now_ms`.
    pub fn needs_refresh_at(&self, now_ms: u64) -> (b: bool)
        ensures
            b == needs_refresh_spec(self.expires_at_ms, now_ms),
    {
        match self.expires_at_ms {
            Some(expiry) => expiry <= now_ms.saturating_add(REFRESH_WINDOW_MS),
            None => false,
        }
    }

    /// Whether the record must be refreshed now, by the system clock: the refresh rule
    /// applied at the clock's reading. A record without an expiry never must; one that
    /// expires within the refresh window of the epoch always must.
    pub fn needs_refresh(&self) -> (b: bool)
        ensures
            self.expires_at_ms is None ==> !b,
            exists|now: u64| b == #[trigger] needs_refresh_spec(self.expires_at_ms, now),
    {
        let now = now_ms();
        self.needs_refresh_at(now)
    }
}

/// The record that a token response makes now, by the system clock; an empty access
/// token is refused. Where the response gives no lifetime, the clock plays no part.
pub fn record_from_token_response(
    token: TokenResponse,
    previous: Option<&CredentialRecord>,
    id_claims: Option<JwtClaims>,
    access_claims: Option<JwtClaims>,
) -> (r: Result<CredentialRecord, OpenAiAuthError>)
    ensures
        token.access_token@.len() == 0 ==> r == Err::<CredentialRecord, OpenAiAuthError>(OpenAiAuthError::MissingAccessToken),
        token.access_token@.len() > 0 ==> (r matches Ok(record)
            && exists|now: u64| record@ == #[trigger] record_spec(token, previous_record(previous), id_claims, access_claims, now)),
{
    let now = now_ms();
    record_from_token_response_at(token, previous, id_claims, access_claims, now)
}

/// A saved record as it is restored at `now_ms`: refused where its access token is
/// empty, else rebuilt from its own tokens with the claims of its access token, itself
/// as the previous record.
pub fn restored_record(
    stored: CredentialRecord,
    access_claims: Option<JwtClaims>,
    now_ms: u64,
) -> (r: Result<CredentialRecord, OpenAiAuthError>)
    ensures
        stored.access_token@.len() == 0 ==> (r matches Err(OpenAiAuthError::StoredCredentials(detail))
            && detail@ == "access token is empty"@),
        stored.access_token@.len() > 0 ==> (r matches Ok(record) && record@ == record_spec(
            TokenResponse {
                access_token: stored.access_token,
                refresh_token: stored.refresh_token,
                expires_in: None,
                id_token: None,
            },
            Some(stored),
            None,
            access_claims,
            now_ms,
        )),
{
    if stored.access_token.as_str().unicode_len() == 0 {
        let mut detail = String::new();
        append_str(&mut detail, "access token is empty");
        return Err(OpenAiAuthError::StoredCredentials(detail));
    }
    let token = TokenResponse {
        access_token: stored.access_token.clone(),
        refresh_token: clone_opt(&stored.refresh_token),
        expires_in: None,
        id_token: None,
    };
    let ghost token_spec = TokenResponse {
        access_token: stored.access_token,
        refresh_token: stored.refresh_token,
        expires_in: None,
        id_token: None,
    };
    let r = record_from_token_response_at(token, Some(&stored), None, access_claims, now_ms);
    proof {
        assert(r matches Ok(record) && record@ == record_spec(token_spec, Some(stored), None, access_claims, now_ms));
    }
    r
}

/// What a request for an access token does with the signed-in record at `now_ms`.
#[derive(Clone, Debug, PartialEq, Eq)]
pub enum AccessStep {
    /// The record's access token is still good.
    Use(String),
    /// The record must be refreshed first.
    Refresh(CredentialRecord),
}

/// The access token to use at `now_ms`: an error where nobody is signed in, the
/// record's token where it needs no refresh, else a refresh of the record.
pub fn access_step(state: Option<CredentialRecord>, now_ms: u64) -> (r: Result<AccessStep, OpenAiAuthError>)
    ensures
        state is None ==> r == Err::<AccessStep, OpenAiAuthError>(OpenAiAuthError::AuthenticationRequired),
        state matches Some(record) ==> if needs_refresh_spec(record.expires_at_ms, now_ms) {
            r == Ok::<AccessStep, OpenAiAuthError>(AccessStep::Refresh(record))
        } else {
            r matches Ok(AccessStep::Use(token)) && token@ == record.access_token@
        },
{
    match state {
        None => Err(OpenAiAuthError::AuthenticationRequired),
        Some(record) => {
            if record.needs_refresh_at(now_ms) {
                Ok(AccessStep::Refresh(record))
            } else {
                Ok(AccessStep::Use(record.access_token))
            }
        },
    }
}

/// What a forced refresh after a rejected access token does: an error where nobody is
/// signed in; the current token where another refresh has already replaced the one that
/// failed; else a refresh of the current record.
pub fn force_refresh_step(current: Option<CredentialRecord>, failed_access_token: &str) -> (r: Result<AccessStep, OpenAiAuthError>)
    ensures
        current is None ==> r == Err::<AccessStep, OpenAiAuthError>(OpenAiAuthError::AuthenticationRequired),
        current matches Some(record) ==> if record.access_token@ != failed_access_token@ {
            r matches Ok(AccessStep::Use(token)) && token@ == record.access_token@
        } else {
            r == Ok::<AccessStep, OpenAiAuthError>(AccessStep::Refresh(record))
        },
{
    match current {
        None => Err(OpenAiAuthError::AuthenticationRequired),
        Some(record) => {
            if crate::text::str_is(record.access_token.as_str(), failed_access_token) {
                Ok(AccessStep::Refresh(record))
            } else {
                Ok(AccessStep::Use(record.access_token))
            }
        },
    }
}

/// What refreshing a stale record does.
#[derive(Clone, Debug, PartialEq, Eq)]
pub enum RefreshStep {
    /// Another refresh has already stored a good record: it is the result.
    Current(CredentialRecord),
    /// The refresh token to exchange.
    Exchange(String),
}

/// How a stale record is refreshed at `now_ms`: where the current record has another
/// access token and needs no refresh, it is kept; else the stale record's refresh
/// token is exchanged, and without one the user must sign in again.
pub fn refresh_step(current: Option<CredentialRecord>, stale: &CredentialRecord, now_ms: u64) -> (r: Result<RefreshStep, OpenAiAuthError>)
    ensures
        match current {
            Some(c) if c.access_token@ != stale.access_token@ && !needs_refresh_spec(c.expires_at_ms, now_ms) =>
                r == Ok::<RefreshStep, OpenAiAuthError>(RefreshStep::Current(c)),
            _ => match stale.refresh_token {
                Some(t) => r matches Ok(RefreshStep::Exchange(token)) && token@ == t@,
                None => r == Err::<RefreshStep, OpenAiAuthError>(OpenAiAuthError::AuthenticationRequired),
            },
        },
{
    if let Some(c) = current {
        if !crate::text::str_is(c.access_token.as_str(), stale.access_token.as_str()) && !c.needs_refresh_at(now_ms) {
            return Ok(RefreshStep::Current(c));
        }
    }
    match &stale.refresh_token {
        Some(t) => Ok(RefreshStep::Exchange(t.clone())),
        None => Err(OpenAiAuthError::AuthenticationRequired),
    }
}

/// `String::from_utf8`, its error dropped: the text where the bytes are valid UTF-8.
#[verifier::external_body]
pub(crate) fn utf8_text(bytes: &[u8]) -> (text: Option<String>)
    ensures
        match text {
            Some(t) => vstd::utf8::valid_utf8(bytes@) && t@ == vstd::utf8::decode_utf8(bytes@),
            None => !vstd::utf8::valid_utf8(bytes@),
        },
{
    String::from_utf8(bytes.to_vec()).ok()
}

/// The text of a body where it is valid UTF-8.
pub open spec fn body_text(body: Seq<u8>) -> Option<Seq<char>> {
    if vstd::utf8::valid_utf8(body) { Some(vstd::utf8::decode_utf8(body)) } else { None }
}

/// The message for a refused OAuth request: `HTTP <status>: <detail>`, where the detail
/// is the error description, else the error code, else the body as text, and a fixed
/// sentence where the one chosen is blank or there is none.
pub open spec fn oauth_error_message_spec(status: u16, parsed: Option<OAuthErrorResponse>, body: Seq<u8>) -> Seq<char> {
    let chosen = or_else(
        match parsed {
            Some(p) => or_else(opt_view(p.error_description), opt_view(p.error)),
            None => None,
        },
        body_text(body),
    );
    let detail = match chosen {
        Some(d) => if is_blank(d) { "the authorization server rejected the request"@ } else { d },
        None => "the authorization server rejected the request"@,
    };
    "HTTP "@ + decimal(status as nat) + ": "@ + detail
}

/// The message for a refused OAuth request, from its status, its body parsed as an OAuth
/// error (where it parsed), and its raw bytes.
pub fn oauth_error_message(status: u16, parsed: Option<OAuthErrorResponse>, body: &[u8]) -> (message: String)
    ensures
        message@ == oauth_error_message_spec(status, parsed, body@),
{
    let from_parsed = match parsed {
        Some(p) => or_else_string(p.error_description, p.error),
        None => None,
    };
    let chosen = match from_parsed {
        Some(d) => Some(d),
        None => utf8_text(body),
    };
    let mut message = String::new();
    append_str(&mut message, "HTTP ");
    append_decimal(&mut message, status as u64);
    append_str(&mut message, ": ");
    match chosen {
        Some(d) => {
            if trim_is_empty(d.as_str()) {
                append_str(&mut message, "the authorization server rejected the request");
            } else {
                append_str(&mut message, d.as_str());
            }
        },
        None => append_str(&mut message, "the authorization server rejected the request"),
    }
    message
}

/// Whether an HTTP status is a success (2xx).
pub open spec fn is_success_status(status: u16) -> bool {
    200 <= status <= 299
}

/// The failure of a token request with the given status: none for a success, else a
/// token-exchange error carrying the OAuth error message.
pub fn token_request_failure(status: u16, parsed: Option<OAuthErrorResponse>, body: &[u8]) -> (r: Option<OpenAiAuthError>)
    ensures
        is_success_status(status) ==> r is None,
        !is_success_status(status) ==> (r matches Some(OpenAiAuthError::TokenExchange(message))
            && message@ == oauth_error_message_spec(status, parsed, body@)),
{
    if 200 <= status && status <= 299 {
        None
    } else {
        Some(OpenAiAuthError::TokenExchange(oauth_error_message(status, parsed, body)))
    }
}

/// A saved record restored without fresh claims comes back unchanged: every field is
/// the saved one.
pub proof fn lemma_restore_without_claims_keeps_record(stored: CredentialRecord, now_ms: u64)
    requires
        stored.access_token@.len() > 0,
    ensures
        record_spec(
            TokenResponse {
                access_token: stored.access_token,
                refresh_token: stored.refresh_token,
                expires_in: None,
                id_token: None,
            },
            Some(stored),
            None,
            None,
            now_ms,
        ) == stored@,
{
}

/// Once a record must be refreshed, it must be at every later time too.
pub proof fn lemma_refresh_need_persists(expires_at_ms: Option<u64>, earlier: u64, later: u64)
    requires
        earlier <= later,
        needs_refresh_spec(expires_at_ms, earlier),
    ensures
        needs_refresh_spec(expires_at_ms, later),
{
}

/// A record whose expiry lies beyond the refresh window is used as it is, and one
/// without an expiry always is.
pub proof fn lemma_fresh_record_is_used(record: CredentialRecord, now_ms: u64)
    requires
        match record.expires_at_ms {
            Some(expiry) => expiry > now_ms + REFRESH_WINDOW_MS,
            None => true,
        },
    ensures
        !needs_refresh_spec(record.expires_at_ms, now_ms),
{
}

/// The provider error for a failed sign-in step.
pub fn auth_error(kind: crate::domain::ProviderErrorKind, error: &OpenAiAuthError) -> (e: crate::domain::ProviderError)
    ensures
        e.provider@ == OPENAI_PROVIDER@,
        e.kind == kind,
        e.message@ == auth_error_text(*error),
        e.http_status is None,
{
    let mut provider = String::new();
    append_str(&mut provider, OPENAI_PROVIDER);
    crate::domain::ProviderError { provider, kind, message: error.describe(), http_status: None }
}

} // verus!
