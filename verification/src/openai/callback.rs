//! The OAuth browser flow: the authorization URL, the form bodies sent to the token
//! endpoint, and what the local callback server decides for each request it receives.
use vstd::prelude::*;

use super::auth::OpenAiAuthError;
use crate::codec::{random_bytes, sha256, sha256_of, url_safe_no_pad, url_safe_no_pad_of};
use crate::text::{
    append_decimal, append_str, byte_len, decimal, split_words, str_is, utf8_len, words,
};

verus! {

pub const AUTHORIZE_URL: &'static str = "https://auth.openai.com/oauth/authorize";

pub const TOKEN_URL: &'static str = "https://auth.openai.com/oauth/token";

pub const OAUTH_CLIENT_ID: &'static str = "app_EMoamEEZ73f0CkXaXp7hrann";

pub const CALLBACK_PATH: &'static str = "/auth/callback";

pub const CALLBACK_PORT: u16 = 1455;

pub const OAUTH_SCOPE: &'static str =
    "openid profile email offline_access api.connectors.read api.connectors.invoke";

/// How long the callback server waits for the browser, in seconds.
pub const CALLBACK_TIMEOUT_SECS: u64 = 300;

/// The most bytes of an error body that are read.
pub const MAX_ERROR_BODY: usize = 65536;

/// Key/value pairs as values.
pub type PairsView = Seq<(Seq<char>, Seq<char>)>;

/// What `url::Url::parse` makes of a text: its path and its decoded query pairs in
/// order, or the text of the parse error.
pub uninterp spec fn parsed_url(text: Seq<char>) -> Result<(Seq<char>, PairsView), Seq<char>>;

/// `url::Url::parse`, handing out the path and the query pairs (`query_pairs`) of the
/// URL, or the parse error as text.
#[verifier::external_body]
fn parse_url(text: &str) -> (r: Result<(String, Vec<(String, String)>), String>)
    ensures
        match r {
            Ok(parts) => parsed_url(text@) == Ok::<(Seq<char>, PairsView), Seq<char>>((parts.0@, parts.1.deep_view())),
            Err(e) => parsed_url(text@) == Err::<(Seq<char>, PairsView), Seq<char>>(e@),
        },
{
    match url::Url::parse(text) {
        Ok(url) => Ok((
            url.path().to_owned(),
            url.query_pairs().map(|(key, value)| (key.into_owned(), value.into_owned())).collect(),
        )),
        Err(error) => Err(error.to_string()),
    }
}

/// What parsing `base` with `url::Url::parse` and appending `pairs` to its query with
/// `query_pairs_mut` serializes to, or the text of the parse error.
pub uninterp spec fn url_with_query_of(base: Seq<char>, pairs: PairsView) -> Result<Seq<char>, Seq<char>>;

/// `url::Url::parse` of `base`, then `query_pairs_mut().extend_pairs(pairs)`, then the
/// URL as a string.
#[verifier::external_body]
fn url_with_query(base: &str, pairs: &Vec<(String, String)>) -> (r: Result<String, String>)
    ensures
        match r {
            Ok(url) => url_with_query_of(base@, pairs.deep_view()) == Ok::<Seq<char>, Seq<char>>(url@),
            Err(e) => url_with_query_of(base@, pairs.deep_view()) == Err::<Seq<char>, Seq<char>>(e@),
        },
{
    match url::Url::parse(base) {
        Ok(mut url) => {
            url.query_pairs_mut().extend_pairs(pairs.iter());
            Ok(url.into())
        },
        Err(error) => Err(error.to_string()),
    }
}

/// The `application/x-www-form-urlencoded` serialization of `pairs`, as bytes.
pub uninterp spec fn form_urlencoded_of(pairs: PairsView) -> Seq<u8>;

/// `url::form_urlencoded::Serializer` over a new string, given all `pairs`, finished,
/// as bytes.
#[verifier::external_body]
fn form_urlencoded(pairs: &Vec<(String, String)>) -> (body: Vec<u8>)
    ensures
        body@ == form_urlencoded_of(pairs.deep_view()),
{
    url::form_urlencoded::Serializer::new(String::new()).extend_pairs(pairs.iter()).finish().into_bytes()
}

fn push_pair(pairs: &mut Vec<(String, String)>, key: &str, value: &str)
    ensures
        final(pairs).deep_view() == old(pairs).deep_view().push((key@, value@)),
{
    let mut k = String::new();
    append_str(&mut k, key);
    let mut v = String::new();
    append_str(&mut v, value);
    pairs.push((k, v));
    assert(pairs.deep_view() =~= old(pairs).deep_view().push((key@, value@)));
}

/// The local address the browser is sent back to.
pub open spec fn redirect_uri_spec() -> Seq<char> {
    "http://localhost:"@ + decimal(CALLBACK_PORT as nat) + CALLBACK_PATH@
}

pub fn redirect_uri() -> (uri: String)
    ensures
        uri@ == redirect_uri_spec(),
{
    let mut uri = String::new();
    append_str(&mut uri, "http://localhost:");
    append_decimal(&mut uri, CALLBACK_PORT as u64);
    append_str(&mut uri, CALLBACK_PATH);
    uri
}

/// The PKCE challenge of a verifier: the URL-safe base64 of its SHA-256 digest.
pub open spec fn code_challenge_spec(verifier: Seq<char>) -> Seq<char> {
    url_safe_no_pad_of(sha256_of(vstd::utf8::encode_utf8(verifier)))
}

/// The query of the authorization URL, in order.
pub open spec fn authorization_pairs(state: Seq<char>, verifier: Seq<char>) -> PairsView {
    seq![
        ("response_type"@, "code"@),
        ("client_id"@, OAUTH_CLIENT_ID@),
        ("redirect_uri"@, redirect_uri_spec()),
        ("scope"@, OAUTH_SCOPE@),
        ("code_challenge"@, code_challenge_spec(verifier)),
        ("code_challenge_method"@, "S256"@),
        ("state"@, state),
        ("id_token_add_organizations"@, "true"@),
        ("codex_cli_simplified_flow"@, "true"@),
        ("originator"@, "omp"@),
    ]
}

/// The authorization URL for a sign-in with the given state and PKCE verifier; where
/// the URL crate refuses the base URL, the error says why.
pub fn authorization_url(state: &str, verifier: &str) -> (r: Result<String, OpenAiAuthError>)
    ensures
        match url_with_query_of(AUTHORIZE_URL@, authorization_pairs(state@, verifier@)) {
            Ok(url) => r matches Ok(u) && u@ == url,
            Err(e) => r matches Err(OpenAiAuthError::AuthorizationUrl(detail)) && detail@ == e,
        },
{
    let digest = sha256(verifier.as_bytes());
    let challenge = url_safe_no_pad(digest.as_slice());
    let redirect = redirect_uri();
    let mut pairs: Vec<(String, String)> = Vec::new();
    push_pair(&mut pairs, "response_type", "code");
    push_pair(&mut pairs, "client_id", OAUTH_CLIENT_ID);
    push_pair(&mut pairs, "redirect_uri", redirect.as_str());
    push_pair(&mut pairs, "scope", OAUTH_SCOPE);
    push_pair(&mut pairs, "code_challenge", challenge.as_str());
    push_pair(&mut pairs, "code_challenge_method", "S256");
    push_pair(&mut pairs, "state", state);
    push_pair(&mut pairs, "id_token_add_organizations", "true");
    push_pair(&mut pairs, "codex_cli_simplified_flow", "true");
    push_pair(&mut pairs, "originator", "omp");
    assert(pairs.deep_view() =~= authorization_pairs(state@, verifier@));
    match url_with_query(AUTHORIZE_URL, &pairs) {
        Ok(url) => Ok(url),
        Err(e) => Err(OpenAiAuthError::AuthorizationUrl(e)),
    }
}

/// The form pairs that exchange an authorization code for tokens.
pub open spec fn code_exchange_pairs(code: Seq<char>, verifier: Seq<char>) -> PairsView {
    seq![
        ("grant_type"@, "authorization_code"@),
        ("client_id"@, OAUTH_CLIENT_ID@),
        ("code"@, code),
        ("redirect_uri"@, redirect_uri_spec()),
        ("code_verifier"@, verifier),
    ]
}

/// The form body that exchanges an authorization code for tokens.
pub fn code_exchange_body(code: &str, verifier: &str) -> (body: Vec<u8>)
    ensures
        body@ == form_urlencoded_of(code_exchange_pairs(code@, verifier@)),
{
    let redirect = redirect_uri();
    let mut pairs: Vec<(String, String)> = Vec::new();
    push_pair(&mut pairs, "grant_type", "authorization_code");
    push_pair(&mut pairs, "client_id", OAUTH_CLIENT_ID);
    push_pair(&mut pairs, "code", code);
    push_pair(&mut pairs, "redirect_uri", redirect.as_str());
    push_pair(&mut pairs, "code_verifier", verifier);
    assert(pairs.deep_view() =~= code_exchange_pairs(code@, verifier@));
    form_urlencoded(&pairs)
}

/// The form pairs that exchange a refresh token for new tokens.
pub open spec fn refresh_pairs(refresh_token: Seq<char>) -> PairsView {
    seq![
        ("grant_type"@, "refresh_token"@),
        ("client_id"@, OAUTH_CLIENT_ID@),
        ("refresh_token"@, refresh_token),
    ]
}

/// The form body that exchanges a refresh token for new tokens.
pub fn refresh_body(refresh_token: &str) -> (body: Vec<u8>)
    ensures
        body@ == form_urlencoded_of(refresh_pairs(refresh_token@)),
{
    let mut pairs: Vec<(String, String)> = Vec::new();
    push_pair(&mut pairs, "grant_type", "refresh_token");
    push_pair(&mut pairs, "client_id", OAUTH_CLIENT_ID);
    push_pair(&mut pairs, "refresh_token", refresh_token);
    assert(pairs.deep_view() =~= refresh_pairs(refresh_token@));
    form_urlencoded(&pairs)
}

/// A fresh random URL-safe string: `byte_count` random bytes in URL-safe base64.
pub fn random_urlsafe(byte_count: usize) -> (s: String)
    ensures
        exists|bytes: Seq<u8>| bytes.len() == byte_count && s@ == #[trigger] url_safe_no_pad_of(bytes),
{
    let bytes = random_bytes(byte_count);
    let s = url_safe_no_pad(bytes.as_slice());
    assert(s@ == url_safe_no_pad_of(bytes@));
    s
}

/// The value of the last pair with the given key (what collecting the pairs into a map
/// and looking the key up gives).
pub open spec fn query_value(pairs: PairsView, key: Seq<char>) -> Option<Seq<char>>
    decreases pairs.len(),
{
    if pairs.len() == 0 {
        None
    } else if pairs.last().0 == key {
        Some(pairs.last().1)
    } else {
        query_value(pairs.drop_last(), key)
    }
}

fn lookup(pairs: &Vec<(String, String)>, key: &str) -> (r: Option<String>)
    ensures
        match r {
            Some(v) => query_value(pairs.deep_view(), key@) == Some(v@),
            None => query_value(pairs.deep_view(), key@) is None,
        },
{
    let mut i: usize = pairs.len();
    assert(pairs.deep_view().take(i as int) =~= pairs.deep_view());
    while i > 0
        invariant
            i <= pairs@.len(),
            query_value(pairs.deep_view(), key@) == query_value(pairs.deep_view().take(i as int), key@),
        decreases i,
    {
        let pair = &pairs[i - 1];
        assert(pairs.deep_view().take(i as int).last() == pair.deep_view());
        if str_is(pair.0.as_str(), key) {
            return Some(pair.1.clone());
        }
        assert(pairs.deep_view().take(i as int).drop_last() =~= pairs.deep_view().take(i - 1));
        i -= 1;
    }
    None
}

/// The reply the callback server sends: an HTTP status line and a sentence.
#[derive(Clone, Debug, PartialEq, Eq)]
pub struct CallbackReply {
    pub status: String,
    pub message: String,
}

/// What the callback server does with one request: the reply it sends, if any, and
/// the outcome: the authorization code, `None` to keep waiting, or an error.
#[derive(Debug, PartialEq, Eq)]
pub struct CallbackDecision {
    pub reply: Option<CallbackReply>,
    pub outcome: Result<Option<String>, OpenAiAuthError>,
}

/// The reply and outcome as values.
pub open spec fn reply_is(reply: Option<CallbackReply>, status: Seq<char>, message: Seq<char>) -> bool {
    reply matches Some(r) && r.status@ == status && r.message@ == message
}

pub open spec fn rejected_with(outcome: Result<Option<String>, OpenAiAuthError>, detail: Seq<char>) -> bool {
    outcome matches Err(OpenAiAuthError::CallbackRejected(d)) && d@ == detail
}

/// What the callback server decides for a request whose first line is `line`, while it
/// expects the state `expected`:
/// - a line with no target is refused, without a reply;
/// - a target that does not parse after `http://localhost` is refused with the parse
///   error, without a reply;
/// - a path other than the callback path is answered 404 and waited past;
/// - a missing or different `state` is answered 400 and refused;
/// - an `error` is answered 400 and refused with the error and its description;
/// - a missing or empty `code` is refused, without a reply;
/// - else the code is the outcome, and the browser is told that sign-in worked.
pub open spec fn callback_spec(line: Seq<char>, expected: Seq<char>, d: CallbackDecision) -> bool {
    let ws = words(line);
    if ws.len() < 2 {
        d.reply is None && rejected_with(d.outcome, "malformed HTTP request"@)
    } else {
        match parsed_url("http://localhost"@ + ws[1]) {
            Err(e) => d.reply is None && rejected_with(d.outcome, e),
            Ok((path, query)) => if path != CALLBACK_PATH@ {
                reply_is(d.reply, "404 Not Found"@, "Not found."@) && d.outcome == Ok::<Option<String>, OpenAiAuthError>(None)
            } else if query_value(query, "state"@) != Some(expected) {
                reply_is(d.reply, "400 Bad Request"@, "The sign-in request was rejected."@)
                    && rejected_with(d.outcome, "state did not match"@)
            } else if query_value(query, "error"@) is Some {
                let description = match query_value(query, "error_description"@) {
                    Some(text) => text,
                    None => "authorization was denied"@,
                };
                reply_is(d.reply, "400 Bad Request"@, "Sign-in was not completed."@)
                    && rejected_with(d.outcome, query_value(query, "error"@)->0 + ": "@ + description)
            } else if query_value(query, "code"@) is None || query_value(query, "code"@)->0.len() == 0 {
                d.reply is None && rejected_with(d.outcome, "authorization code is missing"@)
            } else {
                reply_is(d.reply, "200 OK"@, "Magenta is signed in. You can close this window."@)
                    && (d.outcome matches Ok(Some(code)) && code@ == query_value(query, "code"@)->0)
            }
        }
    }
}

fn reply(status: &str, message: &str) -> (r: Option<CallbackReply>)
    ensures
        reply_is(r, status@, message@),
{
    let mut s = String::new();
    append_str(&mut s, status);
    let mut m = String::new();
    append_str(&mut m, message);
    Some(CallbackReply { status: s, message: m })
}

fn rejected(detail: &str) -> (r: Result<Option<String>, OpenAiAuthError>)
    ensures
        rejected_with(r, detail@),
{
    let mut d = String::new();
    append_str(&mut d, detail);
    Err(OpenAiAuthError::CallbackRejected(d))
}

/// What the callback server does with a request whose first line is `line`.
pub fn callback_request(line: &str, expected_state: &str) -> (d: CallbackDecision)
    ensures
        callback_spec(line@, expected_state@, d),
{
    let ws = split_words(line);
    proof {
        assert(ws@.map_values(|w: String| w@).len() == ws@.len());
    }
    if ws.len() < 2 {
        return CallbackDecision { reply: None, outcome: rejected("malformed HTTP request") };
    }
    proof {
        assert(ws@.map_values(|w: String| w@)[1] == ws@[1]@);
    }
    let mut text = String::new();
    append_str(&mut text, "http://localhost");
    append_str(&mut text, ws[1].as_str());
    match parse_url(text.as_str()) {
        Err(e) => CallbackDecision { reply: None, outcome: Err(OpenAiAuthError::CallbackRejected(e)) },
        Ok((path, query)) => {
            if !str_is(path.as_str(), CALLBACK_PATH) {
                return CallbackDecision { reply: reply("404 Not Found", "Not found."), outcome: Ok(None) };
            }
            let state_ok = match lookup(&query, "state") {
                Some(s) => str_is(s.as_str(), expected_state),
                None => false,
            };
            if !state_ok {
                return CallbackDecision {
                    reply: reply("400 Bad Request", "The sign-in request was rejected."),
                    outcome: rejected("state did not match"),
                };
            }
            if let Some(error) = lookup(&query, "error") {
                let mut detail = error;
                append_str(&mut detail, ": ");
                match lookup(&query, "error_description") {
                    Some(description) => append_str(&mut detail, description.as_str()),
                    None => append_str(&mut detail, "authorization was denied"),
                }
                return CallbackDecision {
                    reply: reply("400 Bad Request", "Sign-in was not completed."),
                    outcome: Err(OpenAiAuthError::CallbackRejected(detail)),
                };
            }
            match lookup(&query, "code") {
                Some(code) => {
                    if code.as_str().unicode_len() == 0 {
                        CallbackDecision { reply: None, outcome: rejected("authorization code is missing") }
                    } else {
                        CallbackDecision {
                            reply: reply("200 OK", "Magenta is signed in. You can close this window."),
                            outcome: Ok(Some(code)),
                        }
                    }
                },
                None => CallbackDecision { reply: None, outcome: rejected("authorization code is missing") },
            }
        },
    }
}

/// The HTML page the callback server sends with a message.
pub open spec fn callback_page(message: Seq<char>) -> Seq<char> {
    "<!doctype html><html><body style=\"font-family:sans-serif;background:#090e0f;color:#d9f9ff\"><p>"@
        + message + "</p></body></html>"@
}

/// The whole HTTP response for a reply: status line, headers with the page's length in
/// bytes, and the page.
pub open spec fn callback_response_spec(status: Seq<char>, message: Seq<char>) -> Seq<char> {
    "HTTP/1.1 "@ + status + "\r\nContent-Type: text/html; charset=utf-8\r\nContent-Length: "@
        + decimal(utf8_len(callback_page(message))) + "\r\nConnection: close\r\n\r\n"@
        + callback_page(message)
}

/// The HTTP response that carries a reply.
pub fn callback_response(status: &str, message: &str) -> (response: String)
    ensures
        response@ == callback_response_spec(status@, message@),
{
    let mut page = String::new();
    append_str(&mut page, "<!doctype html><html><body style=\"font-family:sans-serif;background:#090e0f;color:#d9f9ff\"><p>");
    append_str(&mut page, message);
    append_str(&mut page, "</p></body></html>");
    let length = byte_len(page.as_str());
    let mut response = String::new();
    append_str(&mut response, "HTTP/1.1 ");
    append_str(&mut response, status);
    append_str(&mut response, "\r\nContent-Type: text/html; charset=utf-8\r\nContent-Length: ");
    append_decimal(&mut response, length as u64);
    append_str(&mut response, "\r\nConnection: close\r\n\r\n");
    append_str(&mut response, page.as_str());
    response
}

/// The callback server accepts a code only from a request to the callback path whose
/// state is the expected one and which reports no error; and it then answers 200.
pub proof fn lemma_code_needs_matching_state(line: Seq<char>, expected: Seq<char>, d: CallbackDecision)
    requires
        callback_spec(line, expected, d),
        d.outcome matches Ok(Some(_)),
    ensures
        words(line).len() >= 2,
        parsed_url("http://localhost"@ + words(line)[1]) matches Ok((path, query))
            && path == CALLBACK_PATH@
            && query_value(query, "state"@) == Some(expected)
            && query_value(query, "error"@) is None,
        reply_is(d.reply, "200 OK"@, "Magenta is signed in. You can close this window."@),
{
}

} // verus!
