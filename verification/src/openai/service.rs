//! The Codex service the adapter talks to: its address, the headers of every request,
//! and the slash commands it offers.
use vstd::prelude::*;

use super::auth::{body_text, or_else, utf8_text};
use super::chat::{classify_status, classify_status_spec, describe_spec, provider_error, OpenAiProviderError};
use crate::domain::{ConversationMode, ModelDescriptor, ProviderError, ProviderErrorKind};
use crate::text::{append_range, append_str, chars_of, is_blank, opt_view, str_is, trim_is_empty};

verus! {

pub const CODEX_BASE_URL: &'static str = "https://chatgpt.com/backend-api/codex";

pub const CLIENT_VERSION: &'static str = "0.153.0";

pub const OPENAI: &'static str = "openai";

fn owned(s: &str) -> (r: String)
    ensures
        r@ == s@,
{
    let mut r = String::new();
    append_str(&mut r, s);
    r
}

/// A header name and value as values.
pub type HeaderView = (Seq<char>, Seq<char>);

pub open spec fn headers_view(v: Seq<(&'static str, String)>) -> Seq<HeaderView> {
    v.map_values(|h: (&'static str, String)| (h.0@, h.1@))
}

/// The headers of a request to the service: the accepted type, the authorization, a
/// JSON body, the Responses beta, the client's identity and version, then the account
/// and a routing hint where there are ones.
pub open spec fn headers_spec(
    authorization: Seq<char>,
    account_id: Option<Seq<char>>,
    accept: Seq<char>,
    routing_hint: Option<Seq<char>>,
) -> Seq<HeaderView> {
    let base = seq![
        ("accept"@, accept),
        ("authorization"@, authorization),
        ("content-type"@, "application/json"@),
        ("openai-beta"@, "responses=experimental"@),
        ("originator"@, "omp"@),
        ("version"@, CLIENT_VERSION@),
    ];
    let with_account = match account_id {
        Some(id) => base.push(("chatgpt-account-id"@, id)),
        None => base,
    };
    match routing_hint {
        Some(hint) => with_account.push(("x-codex-routing-hint"@, hint)),
        None => with_account,
    }
}

fn push_header(headers: &mut Vec<(&'static str, String)>, name: &'static str, value: &str)
    ensures
        headers_view(final(headers)@) == headers_view(old(headers)@).push((name@, value@)),
{
    let ghost before = headers@;
    headers.push((name, owned(value)));
    assert(headers_view(headers@) =~= headers_view(before).push((name@, value@)));
}

/// The headers of a request to the service.
pub fn headers(
    authorization: &str,
    account_id: Option<&str>,
    accept: &str,
    routing_hint: Option<&str>,
) -> (headers: Vec<(&'static str, String)>)
    ensures
        headers_view(headers@) == headers_spec(
            authorization@,
            match account_id { Some(a) => Some(a@), None => None },
            accept@,
            match routing_hint { Some(h) => Some(h@), None => None },
        ),
{
    let mut headers: Vec<(&'static str, String)> = Vec::new();
    assert(headers_view(headers@) =~= Seq::<HeaderView>::empty());
    push_header(&mut headers, "accept", accept);
    push_header(&mut headers, "authorization", authorization);
    push_header(&mut headers, "content-type", "application/json");
    push_header(&mut headers, "openai-beta", "responses=experimental");
    push_header(&mut headers, "originator", "omp");
    push_header(&mut headers, "version", CLIENT_VERSION);
    if let Some(id) = account_id {
        push_header(&mut headers, "chatgpt-account-id", id);
    }
    if let Some(hint) = routing_hint {
        push_header(&mut headers, "x-codex-routing-hint", hint);
    }
    headers
}

/// `s` without trailing slashes.
pub open spec fn without_trailing_slashes(s: Seq<char>) -> Seq<char>
    decreases s.len(),
{
    if s.len() > 0 && s.last() == '/' { without_trailing_slashes(s.drop_last()) } else { s }
}

/// `s` without leading slashes.
pub open spec fn without_leading_slashes(s: Seq<char>) -> Seq<char>
    decreases s.len(),
{
    if s.len() > 0 && s[0] == '/' { without_leading_slashes(s.drop_first()) } else { s }
}

/// The address of a resource of the service: the base and the resource joined by one
/// slash.
pub open spec fn endpoint_spec(base: Seq<char>, resource: Seq<char>) -> Seq<char> {
    without_trailing_slashes(base) + seq!['/'] + without_leading_slashes(resource)
}

pub fn endpoint(base_url: &str, resource: &str) -> (url: String)
    ensures
        url@ == endpoint_spec(base_url@, resource@),
{
    let base = chars_of(base_url);
    let mut hi: usize = base.len();
    assert(base@.take(hi as int) =~= base@);
    while hi > 0 && base[hi - 1] == '/'
        invariant
            hi <= base@.len(),
            base@ == base_url@,
            without_trailing_slashes(base_url@) == without_trailing_slashes(base@.take(hi as int)),
        decreases hi,
    {
        assert(base@.take(hi as int).drop_last() =~= base@.take(hi - 1));
        hi -= 1;
    }
    let res = chars_of(resource);
    let mut lo: usize = 0;
    assert(res@.skip(0) =~= res@);
    while lo < res.len() && res[lo] == '/'
        invariant
            lo <= res@.len(),
            res@ == resource@,
            without_leading_slashes(resource@) == without_leading_slashes(res@.skip(lo as int)),
        decreases res.len() - lo,
    {
        assert(res@.skip(lo as int).drop_first() =~= res@.skip(lo + 1));
        lo += 1;
    }
    let mut url = String::new();
    append_range(&mut url, &base, 0, hi);
    crate::text::push_char(&mut url, '/');
    append_range(&mut url, &res, lo, res.len());
    assert(base@.subrange(0, hi as int) =~= base@.take(hi as int));
    assert(res@.subrange(lo as int, res@.len() as int) =~= res@.skip(lo as int));
    url
}

// ----- slash commands -----

/// Whether a command needs a prompt, or what it asks when none is given.
#[derive(Clone, Debug, PartialEq, Eq)]
pub enum CommandPromptRequirement {
    Required,
    Optional { fallback_prompt: String },
}

/// The tools an agent may use while it answers a command.
#[derive(Clone, Copy, Debug, PartialEq, Eq, Structural)]
pub enum AgentToolPolicy {
    ReadOnly,
}

/// A slash command offered by a provider.
#[derive(Clone, Debug, PartialEq, Eq)]
pub struct CommandDescriptor {
    pub id: String,
    pub label: String,
    pub description: String,
    pub supported_modes: Vec<ConversationMode>,
    pub prompt_requirement: CommandPromptRequirement,
    pub response_instructions: String,
    pub agent_tool_policy: AgentToolPolicy,
}

pub const PLAN_INSTRUCTIONS: &'static str = "Write a readable Markdown implementation plan with these sections: goal, relevant current state, implementation changes, interfaces, tests, and assumptions. Inspect the workspace before making claims.";

pub const REVIEW_INSTRUCTIONS: &'static str = "Write a readable Markdown review. List findings before the summary, ordered by severity, and include file/line evidence and remediation for each. Explicitly state when no findings exist. Follow with test gaps and a short summary.";

pub const EXPLAIN_INSTRUCTIONS: &'static str = "Write a readable Markdown explanation with an overview, execution or data flow, relevant components or examples, and caveats where useful.";

/// The commands of the catalog, in order: `plan` and `review` for agents, `explain`
/// for chats and agents; all read-only, and only `review` works without a prompt.
pub open spec fn catalog_spec(commands: Seq<CommandDescriptor>) -> bool {
    &&& commands.len() == 3
    &&& commands[0].id@ == "plan"@ && commands[0].label@ == "Plan"@
    &&& commands[0].supported_modes@ == seq![ConversationMode::Agent]
    &&& commands[0].prompt_requirement is Required
    &&& commands[0].response_instructions@ == PLAN_INSTRUCTIONS@
    &&& commands[1].id@ == "review"@ && commands[1].label@ == "Review"@
    &&& commands[1].supported_modes@ == seq![ConversationMode::Agent]
    &&& (commands[1].prompt_requirement matches CommandPromptRequirement::Optional { fallback_prompt }
        && fallback_prompt@ == "Review the current workspace changes"@)
    &&& commands[1].response_instructions@ == REVIEW_INSTRUCTIONS@
    &&& commands[2].id@ == "explain"@ && commands[2].label@ == "Explain"@
    &&& commands[2].supported_modes@ == seq![ConversationMode::Chat, ConversationMode::Agent]
    &&& commands[2].prompt_requirement is Required
    &&& commands[2].response_instructions@ == EXPLAIN_INSTRUCTIONS@
    &&& forall|i: int| 0 <= i < 3 ==> #[trigger] commands[i].agent_tool_policy == AgentToolPolicy::ReadOnly
}

/// The commands that the OpenAI adapter offers.
pub fn catalog() -> (commands: Vec<CommandDescriptor>)
    ensures
        catalog_spec(commands@),
        commands@[0].description@ == "Create a structured implementation plan for the workspace."@,
        commands@[1].description@ == "Review current workspace changes and report actionable findings."@,
        commands@[2].description@ == "Explain a subject using the relevant workspace context."@,
{
    let mut agent_only: Vec<ConversationMode> = Vec::new();
    agent_only.push(ConversationMode::Agent);
    assert(agent_only@ =~= seq![ConversationMode::Agent]);
    let mut agent_only_too: Vec<ConversationMode> = Vec::new();
    agent_only_too.push(ConversationMode::Agent);
    assert(agent_only_too@ =~= seq![ConversationMode::Agent]);
    let mut both: Vec<ConversationMode> = Vec::new();
    both.push(ConversationMode::Chat);
    both.push(ConversationMode::Agent);
    assert(both@ =~= seq![ConversationMode::Chat, ConversationMode::Agent]);
    let mut commands: Vec<CommandDescriptor> = Vec::new();
    commands.push(CommandDescriptor {
        id: owned("plan"),
        label: owned("Plan"),
        description: owned("Create a structured implementation plan for the workspace."),
        supported_modes: agent_only,
        prompt_requirement: CommandPromptRequirement::Required,
        response_instructions: owned(PLAN_INSTRUCTIONS),
        agent_tool_policy: AgentToolPolicy::ReadOnly,
    });
    commands.push(CommandDescriptor {
        id: owned("review"),
        label: owned("Review"),
        description: owned("Review current workspace changes and report actionable findings."),
        supported_modes: agent_only_too,
        prompt_requirement: CommandPromptRequirement::Optional { fallback_prompt: owned("Review the current workspace changes") },
        response_instructions: owned(REVIEW_INSTRUCTIONS),
        agent_tool_policy: AgentToolPolicy::ReadOnly,
    });
    commands.push(CommandDescriptor {
        id: owned("explain"),
        label: owned("Explain"),
        description: owned("Explain a subject using the relevant workspace context."),
        supported_modes: both,
        prompt_requirement: CommandPromptRequirement::Required,
        response_instructions: owned(EXPLAIN_INSTRUCTIONS),
        agent_tool_policy: AgentToolPolicy::ReadOnly,
    });
    assert forall|i: int| 0 <= i < 3 implies #[trigger] commands@[i].agent_tool_policy == AgentToolPolicy::ReadOnly by {}
    commands
}

/// The commands a provider offers: the catalog for OpenAI, none for any other.
pub fn commands(provider: &str) -> (commands: Vec<CommandDescriptor>)
    ensures
        provider@ == OPENAI@ ==> catalog_spec(commands@),
        provider@ != OPENAI@ ==> commands@.len() == 0,
{
    if !str_is(provider, OPENAI) {
        return Vec::new();
    }
    catalog()
}

// ----- failed requests -----

/// The parts of an error body that the adapter reads: `error.message`, `error` itself
/// where it is a string, and a top-level `message`; each where it is a string.
#[derive(Clone, Debug, PartialEq, Eq)]
pub struct ErrorBody {
    pub error_message: Option<String>,
    pub error_text: Option<String>,
    pub message: Option<String>,
}

/// The message of a failed request: the error's message, else the error as text, else
/// a top-level message, else the body as text; a fixed sentence where that is blank or
/// there is none.
pub open spec fn response_error_message_spec(parsed: Option<ErrorBody>, body: Seq<u8>) -> Seq<char> {
    let from_json = match parsed {
        Some(p) => or_else(or_else(opt_view(p.error_message), opt_view(p.error_text)), opt_view(p.message)),
        None => None,
    };
    match or_else(from_json, body_text(body)) {
        Some(m) => if is_blank(m) { "the provider returned an empty error response"@ } else { m },
        None => "the provider returned an empty error response"@,
    }
}

/// The message of a failed request, from its body parsed as JSON (where it parsed)
/// and its raw bytes.
pub fn response_error_message(parsed: Option<ErrorBody>, body: &[u8]) -> (message: String)
    ensures
        message@ == response_error_message_spec(parsed, body@),
{
    let from_json = match parsed {
        Some(p) => match p.error_message {
            Some(m) => Some(m),
            None => match p.error_text {
                Some(t) => Some(t),
                None => p.message,
            },
        },
        None => None,
    };
    let chosen = match from_json {
        Some(m) => Some(m),
        None => utf8_text(body),
    };
    match chosen {
        Some(m) => if trim_is_empty(m.as_str()) { owned("the provider returned an empty error response") } else { m },
        None => owned("the provider returned an empty error response"),
    }
}

/// The provider error for a failed HTTP request: classified by its status, which it
/// keeps, with the detail read from its body.
pub fn http_error(status: u16, detail: String) -> (e: ProviderError)
    ensures
        e.kind == classify_status_spec(status),
        e.http_status == Some(status),
        e.provider@ == OPENAI@,
        e.message@ == "OpenAI returned HTTP "@ + crate::text::decimal(status as nat) + ": "@ + detail@,
{
    let kind = classify_status(status);
    provider_error(kind, &OpenAiProviderError::Http { status, detail })
}

/// The detail of a failed request whose body could not be read.
pub fn unreadable_error_detail(reason: &str) -> (detail: String)
    ensures
        detail@ == "could not read the error response: "@ + reason@,
{
    let mut detail = owned("could not read the error response: ");
    append_str(&mut detail, reason);
    detail
}

/// Whether a request is sent again with a refreshed token: after a 401.
pub fn retry_with_fresh_token(status: u16) -> (retry: bool)
    ensures
        retry == (status == 401),
{
    status == 401
}

/// Where a request to the Responses endpoint stands: sent for the first time, or sent
/// again after its access token was refreshed.
#[derive(Clone, Copy, Debug, PartialEq, Eq, Structural)]
pub enum Attempt {
    First,
    AfterRefresh,
}

/// What comes after the endpoint answers a request.
#[derive(Clone, Copy, Debug, PartialEq, Eq, Structural)]
pub enum ExchangeAction {
    /// The answer is a success: its body is the stream.
    Accept,
    /// Force a refresh of the rejected token and send the request again.
    RefreshAndResend,
    /// The answer is an HTTP failure.
    Fail,
}

/// The action for an answer: a first request rejected with 401 is refreshed and sent
/// again; then a success (2xx) is accepted and anything else fails.
pub open spec fn exchange_action_spec(attempt: Attempt, status: u16) -> ExchangeAction {
    if attempt == Attempt::First && status == 401 {
        ExchangeAction::RefreshAndResend
    } else if 200 <= status <= 299 {
        ExchangeAction::Accept
    } else {
        ExchangeAction::Fail
    }
}

/// Decides, from where a request stands and the status of the endpoint's answer, what
/// comes next, and where the request then stands.
pub fn exchange_action(attempt: Attempt, status: u16) -> (r: (ExchangeAction, Attempt))
    ensures
        r.0 == exchange_action_spec(attempt, status),
        r.1 == if r.0 == ExchangeAction::RefreshAndResend { Attempt::AfterRefresh } else { attempt },
{
    let first = match attempt {
        Attempt::First => true,
        Attempt::AfterRefresh => false,
    };
    if first && retry_with_fresh_token(status) {
        (ExchangeAction::RefreshAndResend, Attempt::AfterRefresh)
    } else if 200 <= status && status <= 299 {
        (ExchangeAction::Accept, attempt)
    } else {
        (ExchangeAction::Fail, attempt)
    }
}

/// How an exchange ends when the endpoint answers its requests with `statuses` in turn,
/// from where the request stands: the number of requests sent and the final action, or
/// `None` where the answers run out while the request is to be sent again.
pub open spec fn exchange_run(attempt: Attempt, statuses: Seq<u16>) -> Option<(nat, ExchangeAction)>
    decreases statuses.len(),
{
    if statuses.len() == 0 {
        None
    } else {
        let action = exchange_action_spec(attempt, statuses[0]);
        if action == ExchangeAction::RefreshAndResend {
            match exchange_run(Attempt::AfterRefresh, statuses.drop_first()) {
                Some((sent, last)) => Some((sent + 1, last)),
                None => None,
            }
        } else {
            Some((1, action))
        }
    }
}

/// A request is refreshed and sent again at most once: an exchange that starts afresh
/// sends at most two requests, two exactly when the first is rejected with 401, and the
/// second's answer is accepted only where it is a success; a request already sent again
/// is never refreshed a second time.
pub proof fn lemma_refresh_resends_once(statuses: Seq<u16>)
    requires
        statuses.len() >= 2,
    ensures
        exchange_run(Attempt::First, statuses) matches Some((sent, last)) && (sent == 1 || sent == 2) && (sent
            == 2 <==> statuses[0] == 401) && last != ExchangeAction::RefreshAndResend && (sent == 2 ==> (last
            == ExchangeAction::Accept <==> 200 <= statuses[1] <= 299)),
        forall|status: u16| exchange_action_spec(Attempt::AfterRefresh, status) != ExchangeAction::RefreshAndResend,
{
    let rest = statuses.drop_first();
    assert(rest[0] == statuses[1]);
    assert(exchange_run(Attempt::AfterRefresh, rest) == Some((1nat, exchange_action_spec(Attempt::AfterRefresh, rest[0]))));
}

/// The models of a catalog response, refused where none is usable.
pub fn usable_catalog(models: Vec<ModelDescriptor>) -> (r: Result<Vec<ModelDescriptor>, ProviderError>)
    ensures
        models@.len() > 0 ==> r == Ok::<Vec<ModelDescriptor>, ProviderError>(models),
        models@.len() == 0 ==> (r matches Err(e) && e.kind == ProviderErrorKind::Protocol
            && e.message@ == "OpenAI returned malformed streaming data: "@ + "the model catalog was empty"@),
{
    if models.len() == 0 {
        Err(provider_error(ProviderErrorKind::Protocol, &OpenAiProviderError::Protocol(owned("the model catalog was empty"))))
    } else {
        Ok(models)
    }
}

} // verus!
