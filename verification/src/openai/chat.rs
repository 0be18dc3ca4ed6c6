//! Decoding of chat stream events into generation outputs.
use vstd::prelude::*;

use super::wire::{
    finish_reason_spec, finish_view, parse_finish_reason, reasoning_summary_parts,
    summary_parts_spec, summary_refs_view, usage, FinishView, OutputItem, ResponseError,
    ResponsePayload, StreamEvent, SummaryPart, SummaryRef,
};
use crate::domain::{
    AssistantTextPhase, GenerationEvent, GenerationOutcome, ProviderError, ProviderErrorKind,
    TokenUsage,
};
use crate::keyed::KeyedTable;
use crate::text::{append_decimal, append_str, decimal, opt_view, str_is};

verus! {

pub const UNSPECIFIED_ERROR: &'static str = "the provider reported an unspecified error";

pub const THINKING: &'static str = "Thinking";

pub const REASONING_PREFIX: &'static str = "reasoning:";

/// What one stream event contributes to a generation.
#[derive(Clone, Debug, PartialEq, Eq)]
pub enum StreamOutput {
    Text(String),
    TextWithPhase { delta: String, phase: AssistantTextPhase },
    ReasoningSummaryStarted { key: String, title: String },
    ReasoningSummaryDelta { key: String, delta: String },
    ReasoningSummaryCompleted { key: String, text: String },
    Completed(GenerationOutcome),
}

/// A stream output with its text as plain sequences.
pub enum OutputView {
    Text(Seq<char>),
    TextWithPhase(Seq<char>, AssistantTextPhase),
    SummaryStarted(Seq<char>, Seq<char>),
    SummaryDelta(Seq<char>, Seq<char>),
    SummaryCompleted(Seq<char>, Seq<char>),
    Completed(FinishView, Option<TokenUsage>),
}

pub open spec fn output_view(o: StreamOutput) -> OutputView {
    match o {
        StreamOutput::Text(t) => OutputView::Text(t@),
        StreamOutput::TextWithPhase { delta, phase } => OutputView::TextWithPhase(delta@, phase),
        StreamOutput::ReasoningSummaryStarted { key, title } => OutputView::SummaryStarted(key@, title@),
        StreamOutput::ReasoningSummaryDelta { key, delta } => OutputView::SummaryDelta(key@, delta@),
        StreamOutput::ReasoningSummaryCompleted { key, text } => OutputView::SummaryCompleted(key@, text@),
        StreamOutput::Completed(outcome) => OutputView::Completed(finish_view(outcome.finish_reason), outcome.usage),
    }
}

pub open spec fn outputs_view(v: Seq<StreamOutput>) -> Seq<OutputView> {
    v.map_values(|o: StreamOutput| output_view(o))
}

/// Why a stream event could not be turned into output.
#[derive(Clone, Debug, PartialEq, Eq)]
pub enum OpenAiProviderError {
    Serialize(String),
    RequestBuild(String),
    Transport(String),
    Http { status: u16, detail: String },
    Protocol(String),
    IncompleteStream,
    StreamFailed(String),
}

/// A decoding failure with its text as a plain sequence.
pub enum ErrorView {
    Protocol(Seq<char>),
    StreamFailed(Seq<char>),
}

/// The decoding failures as plain values; other failures have no view here.
pub open spec fn error_view(e: OpenAiProviderError) -> Option<ErrorView> {
    match e {
        OpenAiProviderError::Protocol(m) => Some(ErrorView::Protocol(m@)),
        OpenAiProviderError::StreamFailed(m) => Some(ErrorView::StreamFailed(m@)),
        _ => None,
    }
}

/// The error class that an HTTP status maps to.
pub open spec fn classify_status_spec(status: u16) -> ProviderErrorKind {
    if status == 401 {
        ProviderErrorKind::AuthenticationRequired
    } else if status == 403 {
        ProviderErrorKind::PermissionDenied
    } else if status == 408 || status == 429 {
        ProviderErrorKind::RateLimited
    } else if status == 400 || status == 404 || status == 422 {
        ProviderErrorKind::InvalidRequest
    } else if 500 <= status <= 599 {
        ProviderErrorKind::ServiceUnavailable
    } else {
        ProviderErrorKind::Other
    }
}

/// Classifies an HTTP status of a failed request.
pub fn classify_status(status: u16) -> (kind: ProviderErrorKind)
    ensures
        kind == classify_status_spec(status),
{
    match status {
        401 => ProviderErrorKind::AuthenticationRequired,
        403 => ProviderErrorKind::PermissionDenied,
        408 | 429 => ProviderErrorKind::RateLimited,
        400 | 404 | 422 => ProviderErrorKind::InvalidRequest,
        500..=599 => ProviderErrorKind::ServiceUnavailable,
        _ => ProviderErrorKind::Other,
    }
}

/// The phase named by an item's `phase` field.
pub open spec fn text_phase_spec(value: Seq<char>) -> Option<AssistantTextPhase> {
    if value == "commentary"@ {
        Some(AssistantTextPhase::Commentary)
    } else if value == "final_answer"@ {
        Some(AssistantTextPhase::FinalAnswer)
    } else {
        None
    }
}

/// The phase named by an item's `phase` field.
pub fn assistant_text_phase(value: &str) -> (phase: Option<AssistantTextPhase>)
    ensures
        phase == text_phase_spec(value@),
{
    if str_is(value, "commentary") {
        Some(AssistantTextPhase::Commentary)
    } else if str_is(value, "final_answer") {
        Some(AssistantTextPhase::FinalAnswer)
    } else {
        None
    }
}

/// The text of a provider error object: `code: message`, or whichever part exists.
pub open spec fn error_detail_spec(error: ResponseError) -> Seq<char> {
    match (error.code, error.message) {
        (Some(code), Some(message)) => code@ + ": "@ + message@,
        (None, Some(message)) => message@,
        (Some(code), None) => code@,
        (None, None) => UNSPECIFIED_ERROR@,
    }
}

/// Describes a provider error object.
pub fn response_error_detail(error: &ResponseError) -> (detail: String)
    ensures
        detail@ == error_detail_spec(*error),
{
    match (&error.code, &error.message) {
        (Some(code), Some(message)) => {
            let mut s = code.clone();
            append_str(&mut s, ": ");
            append_str(&mut s, message.as_str());
            s
        },
        (None, Some(message)) => message.clone(),
        (Some(code), None) => code.clone(),
        (None, None) => {
            let mut s = String::new();
            append_str(&mut s, UNSPECIFIED_ERROR);
            s
        },
    }
}

/// The key that identifies one reasoning summary part: `reasoning:<item>:<index>`.
pub open spec fn summary_key_of(item_id: Seq<char>, index: nat) -> Seq<char> {
    REASONING_PREFIX@ + item_id + seq![':'] + decimal(index)
}

pub fn summary_key_for(item_id: &str, index: u64) -> (key: String)
    ensures
        key@ == summary_key_of(item_id@, index as nat),
{
    let mut key = String::new();
    append_str(&mut key, REASONING_PREFIX);
    append_str(&mut key, item_id);
    crate::text::push_char(&mut key, ':');
    append_decimal(&mut key, index);
    assert(key@ =~= summary_key_of(item_id@, index as nat));
    key
}

/// The summary key of an event, when it names both an item and a summary index.
pub open spec fn summary_key_spec(event: StreamEvent) -> Option<Seq<char>> {
    match (event.item_id, event.summary_index) {
        (Some(id), Some(index)) => Some(summary_key_of(id@, index as nat)),
        _ => None,
    }
}

fn summary_key(event: &StreamEvent) -> (key: Option<String>)
    ensures
        opt_view(key) == summary_key_spec(*event),
{
    match (&event.item_id, event.summary_index) {
        (Some(id), Some(index)) => Some(summary_key_for(id.as_str(), index)),
        _ => None,
    }
}

pub open spec fn is_nonempty(o: Option<String>) -> bool {
    o matches Some(s) && s@.len() > 0
}

/// What a single stream event means on its own, without any state.
pub open spec fn stream_event_spec(event: StreamEvent) -> Result<Option<OutputView>, ErrorView> {
    let kind = event.kind@;
    if kind == "response.output_text.delta"@ || kind == "response.refusal.delta"@ {
        if is_nonempty(event.delta) {
            let delta = event.delta->0@;
            Ok(
                Some(
                    match event.phase {
                        Some(p) => match text_phase_spec(p@) {
                            Some(phase) => OutputView::TextWithPhase(delta, phase),
                            None => OutputView::Text(delta),
                        },
                        None => OutputView::Text(delta),
                    },
                ),
            )
        } else {
            Ok(None)
        }
    } else if kind == "response.reasoning_summary_part.added"@ {
        let valid_part = match event.part {
            None => true,
            Some(part) => opt_view(part.part_type) == Some("summary_text"@),
        };
        if !valid_part {
            Ok(None)
        } else {
            match summary_key_spec(event) {
                Some(key) => Ok(Some(OutputView::SummaryStarted(key, THINKING@))),
                None => Ok(None),
            }
        }
    } else if kind == "response.reasoning_summary_text.delta"@ {
        match summary_key_spec(event) {
            Some(key) => if is_nonempty(event.delta) {
                Ok(Some(OutputView::SummaryDelta(key, event.delta->0@)))
            } else {
                Ok(None)
            },
            None => Ok(None),
        }
    } else if kind == "response.reasoning_summary_text.done"@ {
        match summary_key_spec(event) {
            Some(key) => Ok(
                Some(
                    OutputView::SummaryCompleted(
                        key,
                        match event.text {
                            Some(t) => t@,
                            None => Seq::empty(),
                        },
                    ),
                ),
            ),
            None => Ok(None),
        }
    } else if kind == "response.completed"@ || kind == "response.incomplete"@ {
        match event.response {
            Some(response) => Ok(
                Some(
                    OutputView::Completed(
                        finish_reason_spec(response),
                        match response.usage {
                            Some(u) => Some(TokenUsage { input_tokens: u.input_tokens, output_tokens: u.output_tokens }),
                            None => None,
                        },
                    ),
                ),
            ),
            None => Err(
                ErrorView::Protocol(
                    if kind == "response.completed"@ {
                        "response.completed did not contain a response payload"@
                    } else {
                        "response.incomplete did not contain a response payload"@
                    },
                ),
            ),
        }
    } else if kind == "response.failed"@ || kind == "error"@ || kind == "response.error"@ {
        Err(
            ErrorView::StreamFailed(
                match event.error {
                    Some(e) => error_detail_spec(e),
                    None => match event.response {
                        Some(r) => match r.error {
                            Some(e) => error_detail_spec(e),
                            None => UNSPECIFIED_ERROR@,
                        },
                        None => UNSPECIFIED_ERROR@,
                    },
                },
            ),
        )
    } else {
        Ok(None)
    }
}

pub open spec fn stream_result_view(r: Result<Option<StreamOutput>, OpenAiProviderError>) -> Result<Option<OutputView>, ErrorView> {
    match r {
        Ok(Some(o)) => Ok(Some(output_view(o))),
        Ok(None) => Ok(None),
        Err(e) => match error_view(e) {
            Some(v) => Err(v),
            None => Err(ErrorView::Protocol(Seq::empty())),
        },
    }
}

fn owned(s: &'static str) -> (r: String)
    ensures
        r@ == s@,
{
    let mut r = String::new();
    append_str(&mut r, s);
    r
}

fn completed_output(response: &ResponsePayload) -> (o: StreamOutput)
    ensures
        output_view(o) == OutputView::Completed(
            finish_reason_spec(*response),
            match response.usage {
                Some(u) => Some(TokenUsage { input_tokens: u.input_tokens, output_tokens: u.output_tokens }),
                None => None,
            },
        ),
{
    StreamOutput::Completed(
        GenerationOutcome { finish_reason: parse_finish_reason(response), usage: usage(response) },
    )
}

/// Decodes one stream event on its own.
pub fn stream_event(event: &StreamEvent) -> (r: Result<Option<StreamOutput>, OpenAiProviderError>)
    ensures
        stream_result_view(r) == stream_event_spec(*event),
        r matches Err(e) ==> error_view(e) is Some,
{
    let kind = event.kind.as_str();
    if str_is(kind, "response.output_text.delta") || str_is(kind, "response.refusal.delta") {
        match &event.delta {
            Some(delta) => {
                if delta.as_str().is_empty() {
                    return Ok(None);
                }
                let phase = match &event.phase {
                    Some(p) => assistant_text_phase(p.as_str()),
                    None => None,
                };
                match phase {
                    Some(phase) => Ok(Some(StreamOutput::TextWithPhase { delta: delta.clone(), phase })),
                    None => Ok(Some(StreamOutput::Text(delta.clone()))),
                }
            },
            None => Ok(None),
        }
    } else if str_is(kind, "response.reasoning_summary_part.added") {
        let valid_part = match &event.part {
            None => true,
            Some(part) => match &part.part_type {
                Some(t) => str_is(t.as_str(), "summary_text"),
                None => false,
            },
        };
        if !valid_part {
            return Ok(None);
        }
        match summary_key(event) {
            Some(key) => Ok(Some(StreamOutput::ReasoningSummaryStarted { key, title: owned(THINKING) })),
            None => Ok(None),
        }
    } else if str_is(kind, "response.reasoning_summary_text.delta") {
        match summary_key(event) {
            Some(key) => match &event.delta {
                Some(delta) => {
                    if delta.as_str().is_empty() {
                        Ok(None)
                    } else {
                        Ok(Some(StreamOutput::ReasoningSummaryDelta { key, delta: delta.clone() }))
                    }
                },
                None => Ok(None),
            },
            None => Ok(None),
        }
    } else if str_is(kind, "response.reasoning_summary_text.done") {
        match summary_key(event) {
            Some(key) => {
                let text = match &event.text {
                    Some(t) => t.clone(),
                    None => String::new(),
                };
                Ok(Some(StreamOutput::ReasoningSummaryCompleted { key, text }))
            },
            None => Ok(None),
        }
    } else if str_is(kind, "response.completed") || str_is(kind, "response.incomplete") {
        match &event.response {
            Some(response) => Ok(Some(completed_output(response))),
            None => {
                if str_is(kind, "response.completed") {
                    Err(OpenAiProviderError::Protocol(owned("response.completed did not contain a response payload")))
                } else {
                    Err(OpenAiProviderError::Protocol(owned("response.incomplete did not contain a response payload")))
                }
            },
        }
    } else if str_is(kind, "response.failed") || str_is(kind, "error") || str_is(kind, "response.error") {
        let detail = match &event.error {
            Some(e) => response_error_detail(e),
            None => match &event.response {
                Some(r) => match &r.error {
                    Some(e) => response_error_detail(e),
                    None => owned(UNSPECIFIED_ERROR),
                },
                None => owned(UNSPECIFIED_ERROR),
            },
        };
        Err(OpenAiProviderError::StreamFailed(detail))
    } else {
        Ok(None)
    }
}

/// Whether a reasoning summary has been announced and whether it has been completed.
#[derive(Clone, Copy, Debug, PartialEq, Eq, Structural)]
pub struct SummaryFlags {
    pub started: bool,
    pub completed: bool,
}

pub open spec fn flags_at(s: spec_fn(Seq<char>) -> Option<SummaryFlags>, key: Seq<char>) -> SummaryFlags {
    match s(key) {
        Some(f) => f,
        None => SummaryFlags { started: false, completed: false },
    }
}

pub open spec fn with_flags(
    s: spec_fn(Seq<char>) -> Option<SummaryFlags>,
    key: Seq<char>,
    f: SummaryFlags,
) -> spec_fn(Seq<char>) -> Option<SummaryFlags> {
    |q: Seq<char>| if q == key { Some(f) } else { s(q) }
}

pub open spec fn with_phase(
    p: spec_fn(Seq<char>) -> Option<AssistantTextPhase>,
    key: Seq<char>,
    phase: AssistantTextPhase,
) -> spec_fn(Seq<char>) -> Option<AssistantTextPhase> {
    |q: Seq<char>| if q == key { Some(phase) } else { p(q) }
}

/// What emitting an output records about its summary: a start marks it started, a
/// delta too, and a completion marks it started and completed.
pub open spec fn note_output(
    s: spec_fn(Seq<char>) -> Option<SummaryFlags>,
    o: OutputView,
) -> spec_fn(Seq<char>) -> Option<SummaryFlags> {
    match o {
        OutputView::SummaryStarted(key, _) => with_flags(s, key, SummaryFlags { started: true, completed: flags_at(s, key).completed }),
        OutputView::SummaryDelta(key, _) => with_flags(s, key, SummaryFlags { started: true, completed: flags_at(s, key).completed }),
        OutputView::SummaryCompleted(key, _) => with_flags(s, key, SummaryFlags { started: true, completed: true }),
        _ => s,
    }
}

/// The completed reasoning summaries found in a final response: each one not yet
/// completed is announced (when not started) and completed, in order, once.
pub open spec fn fallback_spec(
    s: spec_fn(Seq<char>) -> Option<SummaryFlags>,
    parts: Seq<SummaryRef>,
) -> (spec_fn(Seq<char>) -> Option<SummaryFlags>, Seq<OutputView>)
    decreases parts.len(),
{
    if parts.len() == 0 {
        (s, Seq::empty())
    } else {
        let (s1, outs) = fallback_spec(s, parts.drop_last());
        let (id, index, text) = parts.last();
        let key = summary_key_of(id, index);
        let f = flags_at(s1, key);
        if f.completed {
            (s1, outs)
        } else {
            let started = if f.started {
                Seq::empty()
            } else {
                seq![OutputView::SummaryStarted(key, THINKING@)]
            };
            (
                with_flags(s1, key, SummaryFlags { started: true, completed: true }),
                outs + started + seq![OutputView::SummaryCompleted(key, text)],
            )
        }
    }
}

/// The phase table after an event: a message item with an id and a known phase records it.
pub open spec fn phases_after(
    p: spec_fn(Seq<char>) -> Option<AssistantTextPhase>,
    event: StreamEvent,
) -> spec_fn(Seq<char>) -> Option<AssistantTextPhase> {
    let kind = event.kind@;
    if kind == "response.output_item.added"@ || kind == "response.output_item.done"@ {
        match event.item {
            Some(item) => if opt_view(item.item_type) == Some("message"@) && item.id is Some
                && item.phase is Some && text_phase_spec(item.phase->0@) is Some {
                with_phase(p, item.id->0@, text_phase_spec(item.phase->0@)->0)
            } else {
                p
            },
            None => p,
        }
    } else {
        p
    }
}

pub open spec fn is_completion(o: OutputView) -> bool {
    o is Completed
}

/// Everything one event does to the chat stream: the new phase and summary tables
/// and the outputs, or the decoding failure.
pub open spec fn observe_spec(
    p: spec_fn(Seq<char>) -> Option<AssistantTextPhase>,
    s: spec_fn(Seq<char>) -> Option<SummaryFlags>,
    event: StreamEvent,
) -> (
    spec_fn(Seq<char>) -> Option<AssistantTextPhase>,
    spec_fn(Seq<char>) -> Option<SummaryFlags>,
    Result<Seq<OutputView>, ErrorView>,
) {
    let p1 = phases_after(p, event);
    let kind = event.kind@;
    if kind == "response.output_text.delta"@ && event.phase is None && event.item_id is Some
        && p1(event.item_id->0@) is Some {
        let phase = p1(event.item_id->0@)->0;
        (
            p1,
            s,
            Ok(
                if is_nonempty(event.delta) {
                    seq![OutputView::TextWithPhase(event.delta->0@, phase)]
                } else {
                    Seq::empty()
                },
            ),
        )
    } else {
        match stream_event_spec(event) {
            Err(e) => (p1, s, Err(e)),
            Ok(decoded) => {
                let (s2, outs_a) = match decoded {
                    Some(o) => if is_completion(o) {
                        (s, Seq::empty())
                    } else {
                        let pre = match o {
                            OutputView::SummaryDelta(key, _) => if flags_at(s, key).started {
                                Seq::empty()
                            } else {
                                seq![OutputView::SummaryStarted(key, THINKING@)]
                            },
                            OutputView::SummaryCompleted(key, _) => if flags_at(s, key).started {
                                Seq::empty()
                            } else {
                                seq![OutputView::SummaryStarted(key, THINKING@)]
                            },
                            _ => Seq::empty(),
                        };
                        (note_output(s, o), pre.push(o))
                    },
                    None => (s, Seq::empty()),
                };
                let (s3, outs_b) = if (kind == "response.completed"@ || kind == "response.incomplete"@)
                    && event.response is Some {
                    fallback_spec(s2, summary_parts_spec(event.response->0.output@))
                } else {
                    (s2, Seq::empty())
                };
                let terminal = match decoded {
                    Some(o) => if is_completion(o) {
                        seq![o]
                    } else {
                        Seq::empty()
                    },
                    None => Seq::empty(),
                };
                (p1, s3, Ok(outs_a + outs_b + terminal))
            },
        }
    }
}

/// The per-stream memory of the chat decoder: the phase of each message item and the
/// progress of each reasoning summary.
pub struct ChatStreamState {
    phases: KeyedTable<AssistantTextPhase>,
    summaries: KeyedTable<SummaryFlags>,
}

fn title() -> (t: String)
    ensures
        t@ == THINKING@,
{
    owned(THINKING)
}

impl ChatStreamState {
    pub closed spec fn phase_of(self, key: Seq<char>) -> Option<AssistantTextPhase> {
        self.phases.get_spec(key)
    }

    pub closed spec fn summary_of(self, key: Seq<char>) -> Option<SummaryFlags> {
        self.summaries.get_spec(key)
    }

    pub open spec fn phase_fn(self) -> spec_fn(Seq<char>) -> Option<AssistantTextPhase> {
        |q: Seq<char>| self.phase_of(q)
    }

    pub open spec fn summary_fn(self) -> spec_fn(Seq<char>) -> Option<SummaryFlags> {
        |q: Seq<char>| self.summary_of(q)
    }

    /// A state that knows no phases and no summaries.
    pub fn new() -> (state: Self)
        ensures
            forall|q: Seq<char>| #[trigger] state.phase_of(q) is None && state.summary_of(q) is None,
    {
        ChatStreamState { phases: KeyedTable::new(), summaries: KeyedTable::new() }
    }

    fn flags(&self, key: &str) -> (f: SummaryFlags)
        ensures
            f == flags_at(self.summary_fn(), key@),
    {
        match self.summaries.get(key) {
            Some(f) => *f,
            None => SummaryFlags { started: false, completed: false },
        }
    }

    fn set_flags(&mut self, key: String, f: SummaryFlags)
        ensures
            forall|q: Seq<char>| #[trigger] final(self).summary_of(q) == with_flags(old(self).summary_fn(), key@, f)(q),
            forall|q: Seq<char>| #[trigger] final(self).phase_of(q) == old(self).phase_of(q),
    {
        self.summaries.insert(key, f);
    }

    fn note(&mut self, o: &StreamOutput)
        ensures
            forall|q: Seq<char>| #[trigger] final(self).summary_of(q) == note_output(old(self).summary_fn(), output_view(*o))(q),
            forall|q: Seq<char>| #[trigger] final(self).phase_of(q) == old(self).phase_of(q),
    {
        match o {
            StreamOutput::ReasoningSummaryStarted { key, .. } => {
                let f = self.flags(key.as_str());
                self.set_flags(key.clone(), SummaryFlags { started: true, completed: f.completed });
            },
            StreamOutput::ReasoningSummaryDelta { key, .. } => {
                let f = self.flags(key.as_str());
                self.set_flags(key.clone(), SummaryFlags { started: true, completed: f.completed });
            },
            StreamOutput::ReasoningSummaryCompleted { key, .. } => {
                self.set_flags(key.clone(), SummaryFlags { started: true, completed: true });
            },
            _ => {},
        }
    }

    /// Feeds one decoded event and returns the outputs it produces, in order; a failure
    /// to decode it is a protocol error.
    pub fn observe(&mut self, event: &StreamEvent) -> (r: Result<Vec<StreamOutput>, ProviderError>)
        ensures
            ({
                let (p, s, res) = observe_spec(old(self).phase_fn(), old(self).summary_fn(), *event);
                &&& forall|q: Seq<char>| #[trigger] final(self).phase_of(q) == p(q)
                &&& forall|q: Seq<char>| #[trigger] final(self).summary_of(q) == s(q)
                &&& match (r, res) {
                    (Ok(outs), Ok(v)) => outputs_view(outs@) == v,
                    (Err(e), Err(v)) => e.kind == ProviderErrorKind::Protocol && e.provider@ == OPENAI@
                        && e.http_status is None && e.message@ == error_view_message(v),
                    _ => false,
                }
            }),
    {
        match self.decode_event(event) {
            Ok(outputs) => Ok(outputs),
            Err(e) => Err(provider_error(ProviderErrorKind::Protocol, &e)),
        }
    }

    fn decode_event(&mut self, event: &StreamEvent) -> (r: Result<Vec<StreamOutput>, OpenAiProviderError>)
        ensures
            ({
                let (p, s, res) = observe_spec(old(self).phase_fn(), old(self).summary_fn(), *event);
                &&& forall|q: Seq<char>| #[trigger] final(self).phase_of(q) == p(q)
                &&& forall|q: Seq<char>| #[trigger] final(self).summary_of(q) == s(q)
                &&& match (r, res) {
                    (Ok(outs), Ok(v)) => outputs_view(outs@) == v,
                    (Err(e), Err(v)) => error_view(e) == Some(v),
                    _ => false,
                }
            }),
    {
        let ghost p0 = self.phase_fn();
        let ghost s0 = self.summary_fn();
        let kind = event.kind.as_str();
        if str_is(kind, "response.output_item.added") || str_is(kind, "response.output_item.done") {
            match &event.item {
                Some(item) => {
                    let is_message = match &item.item_type {
                        Some(t) => str_is(t.as_str(), "message"),
                        None => false,
                    };
                    if is_message {
                        match (&item.id, &item.phase) {
                            (Some(id), Some(phase)) => match assistant_text_phase(phase.as_str()) {
                                Some(phase) => {
                                    self.phases.insert(id.clone(), phase);
                                },
                                None => {},
                            },
                            _ => {},
                        }
                    }
                },
                None => {},
            }
        }
        let ghost p1 = phases_after(p0, *event);
        assert(forall|q: Seq<char>| #[trigger] self.phase_of(q) == p1(q));
        assert(forall|q: Seq<char>| #[trigger] self.summary_of(q) == s0(q));

        if str_is(kind, "response.output_text.delta") && event.phase.is_none() {
            match &event.item_id {
                Some(item_id) => match self.phases.get(item_id.as_str()) {
                    Some(phase) => {
                        let phase = *phase;
                        let mut outputs: Vec<StreamOutput> = Vec::new();
                        match &event.delta {
                            Some(delta) => {
                                if !delta.as_str().is_empty() {
                                    outputs.push(StreamOutput::TextWithPhase { delta: delta.clone(), phase });
                                }
                            },
                            None => {},
                        }
                        proof {
                            assert(outputs_view(outputs@) =~= observe_spec(p0, s0, *event).2->Ok_0);
                        }
                        return Ok(outputs);
                    },
                    None => {},
                },
                None => {},
            }
        }

        let decoded = match stream_event(event) {
            Ok(d) => d,
            Err(e) => {
                return Err(e);
            },
        };
        let ghost decoded_view = match stream_event_spec(*event) {
            Ok(d) => d,
            Err(_) => None,
        };
        let mut outputs: Vec<StreamOutput> = Vec::new();
        let mut terminal: Option<StreamOutput> = None;
        match decoded {
            Some(StreamOutput::Completed(outcome)) => {
                terminal = Some(StreamOutput::Completed(outcome));
            },
            Some(output) => {
                let pre_key = match &output {
                    StreamOutput::ReasoningSummaryDelta { key, .. } => Some(key),
                    StreamOutput::ReasoningSummaryCompleted { key, .. } => Some(key),
                    _ => None,
                };
                match pre_key {
                    Some(key) => {
                        let f = self.flags(key.as_str());
                        if !f.started {
                            outputs.push(StreamOutput::ReasoningSummaryStarted { key: key.clone(), title: title() });
                        }
                    },
                    None => {},
                }
                let ghost s_before_note = self.summary_fn();
                proof {
                    assert(s_before_note =~= s0);
                }
                self.note(&output);
                outputs.push(output);
            },
            None => {},
        }
        let ghost s2 = self.summary_fn();
        let ghost outs_a = outputs_view(outputs@);
        let ghost spec_s2 = match decoded_view {
            Some(o) => if is_completion(o) {
                s0
            } else {
                note_output(s0, o)
            },
            None => s0,
        };
        proof {
            assert(s2 =~= spec_s2);
        }

        if str_is(kind, "response.completed") || str_is(kind, "response.incomplete") {
            match &event.response {
                Some(response) => {
                    let parts = reasoning_summary_parts(&response.output);
                    let ghost refs = summary_parts_spec(response.output@);
                    let mut i: usize = 0;
                    while i < parts.len()
                        invariant
                            i <= parts@.len(),
                            summary_refs_view(parts@) == refs,
                            forall|q: Seq<char>| #[trigger] self.phase_of(q) == p1(q),
                            forall|q: Seq<char>| #[trigger] self.summary_of(q) == fallback_spec(s2, refs.take(i as int)).0(q),
                            outputs_view(outputs@) == outs_a + fallback_spec(s2, refs.take(i as int)).1,
                        decreases parts.len() - i,
                    {
                        proof {
                            assert(refs.take(i + 1).drop_last() =~= refs.take(i as int));
                            assert(refs.take(i + 1).last() == refs[i as int]);
                            assert(summary_refs_view(parts@)[i as int] == refs[i as int]);
                        }
                        let key = summary_key_for(parts[i].0.as_str(), parts[i].1);
                        let f = self.flags(key.as_str());
                        let ghost s1 = fallback_spec(s2, refs.take(i as int)).0;
                        let ghost outs1 = fallback_spec(s2, refs.take(i as int)).1;
                        proof {
                            assert(key@ == summary_key_of(refs[i as int].0, refs[i as int].1));
                            assert(self.summary_of(key@) == s1(key@));
                            assert(f == flags_at(s1, key@));
                        }
                        if !f.completed {
                            let ghost before = outputs@;
                            if !f.started {
                                outputs.push(StreamOutput::ReasoningSummaryStarted { key: key.clone(), title: title() });
                            }
                            outputs.push(StreamOutput::ReasoningSummaryCompleted { key: key.clone(), text: parts[i].2.clone() });
                            let ghost key_view = key@;
                            self.set_flags(key, SummaryFlags { started: true, completed: true });
                            proof {
                                let started = if f.started {
                                    Seq::<OutputView>::empty()
                                } else {
                                    seq![OutputView::SummaryStarted(key_view, THINKING@)]
                                };
                                assert(outputs_view(outputs@) =~= outputs_view(before) + started + seq![
                                    OutputView::SummaryCompleted(key_view, refs[i as int].2),
                                ]);
                                let step = fallback_spec(s2, refs.take(i + 1));
                                assert(step.1 == outs1 + started + seq![OutputView::SummaryCompleted(key_view, refs[i as int].2)]);
                                assert(outputs_view(outputs@) =~= outs_a + step.1);
                            }
                        }
                        i += 1;
                    }
                    assert(refs.take(parts@.len() as int) =~= refs);
                },
                None => {},
            }
        }
        match terminal {
            Some(t) => {
                outputs.push(t);
            },
            None => {},
        }
        proof {
            assert(outputs_view(outputs@) =~= observe_spec(p0, s0, *event).2->Ok_0);
        }
        Ok(outputs)
    }
}

/// The fallback completes every summary it mentions.
pub proof fn lemma_fallback_completes(s: spec_fn(Seq<char>) -> Option<SummaryFlags>, parts: Seq<SummaryRef>)
    ensures
        forall|i: int|
            0 <= i < parts.len() ==> #[trigger] flags_at(fallback_spec(s, parts).0, summary_key_of(parts[i].0, parts[i].1)).completed,
        forall|k: Seq<char>| flags_at(s, k).completed ==> #[trigger] flags_at(fallback_spec(s, parts).0, k).completed,
    decreases parts.len(),
{
    if parts.len() > 0 {
        let prev = parts.drop_last();
        lemma_fallback_completes(s, prev);
        let s1 = fallback_spec(s, prev).0;
        let (id, index, text) = parts.last();
        let key = summary_key_of(id, index);
        let result = fallback_spec(s, parts).0;
        assert forall|k: Seq<char>| flags_at(s1, k).completed implies #[trigger] flags_at(result, k).completed by {
            if !flags_at(s1, key).completed {
                assert(result == with_flags(s1, key, SummaryFlags { started: true, completed: true }));
            }
        }
        assert(flags_at(result, key).completed) by {
            if !flags_at(s1, key).completed {
                assert(result == with_flags(s1, key, SummaryFlags { started: true, completed: true }));
            }
        }
        assert forall|i: int| 0 <= i < parts.len() implies #[trigger] flags_at(
            result,
            summary_key_of(parts[i].0, parts[i].1),
        ).completed by {
            if i < parts.len() - 1 {
                assert(prev[i] == parts[i]);
                assert(flags_at(s1, summary_key_of(prev[i].0, prev[i].1)).completed);
            }
        }
        assert forall|k: Seq<char>| flags_at(s, k).completed implies #[trigger] flags_at(result, k).completed by {
            assert(flags_at(s1, k).completed);
        }
    }
}

/// Once every summary a fallback mentions is completed, the fallback changes nothing
/// and emits nothing.
pub proof fn lemma_fallback_repeat_is_silent(s: spec_fn(Seq<char>) -> Option<SummaryFlags>, parts: Seq<SummaryRef>)
    requires
        forall|i: int| 0 <= i < parts.len() ==> #[trigger] flags_at(s, summary_key_of(parts[i].0, parts[i].1)).completed,
    ensures
        fallback_spec(s, parts).1 == Seq::<OutputView>::empty(),
        fallback_spec(s, parts).0 == s,
    decreases parts.len(),
{
    if parts.len() > 0 {
        assert forall|i: int| 0 <= i < parts.drop_last().len() implies #[trigger] flags_at(
            s,
            summary_key_of(parts.drop_last()[i].0, parts.drop_last()[i].1),
        ).completed by {
            assert(parts.drop_last()[i] == parts[i]);
        }
        lemma_fallback_repeat_is_silent(s, parts.drop_last());
    }
}

/// Reasoning summaries recovered from a final response are reported once: replaying
/// the same summaries afterwards reports nothing.
pub proof fn lemma_summary_fallback_deduplicates(s: spec_fn(Seq<char>) -> Option<SummaryFlags>, parts: Seq<SummaryRef>)
    ensures
        fallback_spec(fallback_spec(s, parts).0, parts).1 == Seq::<OutputView>::empty(),
{
    lemma_fallback_completes(s, parts);
    lemma_fallback_repeat_is_silent(fallback_spec(s, parts).0, parts);
}

/// The summary whose start an output needs: that of a delta or a completion.
pub open spec fn needs_start(o: OutputView) -> Option<Seq<char>> {
    match o {
        OutputView::SummaryDelta(key, _) => Some(key),
        OutputView::SummaryCompleted(key, _) => Some(key),
        _ => None,
    }
}

pub open spec fn is_start_of(o: OutputView, key: Seq<char>) -> bool {
    o matches OutputView::SummaryStarted(k, _) && k == key
}

/// Whether a summary's start is among the first `i` outputs.
pub open spec fn announced_before(outs: Seq<OutputView>, key: Seq<char>, i: int) -> bool {
    exists|j: int| 0 <= j < i && #[trigger] is_start_of(outs[j], key)
}

/// Every delta or completion of a summary comes after its start: one recorded in the
/// state before, or one earlier among the outputs.
pub open spec fn starts_first(s: spec_fn(Seq<char>) -> Option<SummaryFlags>, outs: Seq<OutputView>) -> bool {
    forall|i: int|
        0 <= i < outs.len() && #[trigger] needs_start(outs[i]) is Some ==> flags_at(s, needs_start(outs[i])->0).started
            || announced_before(outs, needs_start(outs[i])->0, i)
}

/// The state after the outputs records a summary as started only where it was before
/// or the outputs announced its start.
pub open spec fn starts_announced(
    s: spec_fn(Seq<char>) -> Option<SummaryFlags>,
    outs: Seq<OutputView>,
    after: spec_fn(Seq<char>) -> Option<SummaryFlags>,
) -> bool {
    forall|k: Seq<char>| #[trigger] flags_at(after, k).started ==> flags_at(s, k).started || announced_before(outs, k, outs.len() as int)
}

proof fn lemma_announced_extends(a: Seq<OutputView>, b: Seq<OutputView>, key: Seq<char>)
    ensures
        forall|i: int| 0 <= i <= a.len() && announced_before(a, key, i) ==> #[trigger] announced_before(a + b, key, i),
        forall|i: int| 0 <= i <= b.len() && announced_before(b, key, i) ==> #[trigger] announced_before(a + b, key, a.len() + i),
{
    assert forall|i: int| 0 <= i <= a.len() && announced_before(a, key, i) implies #[trigger] announced_before(a + b, key, i) by {
        let j = choose|j: int| 0 <= j < i && #[trigger] is_start_of(a[j], key);
        assert((a + b)[j] == a[j]);
    }
    assert forall|i: int| 0 <= i <= b.len() && announced_before(b, key, i) implies #[trigger] announced_before(a + b, key, a.len() + i) by {
        let j = choose|j: int| 0 <= j < i && #[trigger] is_start_of(b[j], key);
        assert((a + b)[a.len() + j] == b[j]);
    }
}

proof fn lemma_announced_mono(outs: Seq<OutputView>, key: Seq<char>, i: int, i2: int)
    requires
        announced_before(outs, key, i),
        i <= i2,
    ensures
        announced_before(outs, key, i2),
{
    let j = choose|j: int| 0 <= j < i && #[trigger] is_start_of(outs[j], key);
    assert(0 <= j < i2 && is_start_of(outs[j], key));
}

proof fn lemma_starts_compose(
    s: spec_fn(Seq<char>) -> Option<SummaryFlags>,
    a: Seq<OutputView>,
    s2: spec_fn(Seq<char>) -> Option<SummaryFlags>,
    b: Seq<OutputView>,
    s3: spec_fn(Seq<char>) -> Option<SummaryFlags>,
)
    requires
        starts_first(s, a),
        starts_announced(s, a, s2),
        starts_first(s2, b),
        starts_announced(s2, b, s3),
    ensures
        starts_first(s, a + b),
        starts_announced(s, a + b, s3),
{
    let ab = a + b;
    assert forall|i: int| 0 <= i < ab.len() && #[trigger] needs_start(ab[i]) is Some implies flags_at(s, needs_start(ab[i])->0).started
        || announced_before(ab, needs_start(ab[i])->0, i) by {
        let key = needs_start(ab[i])->0;
        lemma_announced_extends(a, b, key);
        if i < a.len() {
            assert(ab[i] == a[i]);
            assert(needs_start(a[i]) is Some);
            if !flags_at(s, key).started {
                assert(announced_before(a, key, i));
                assert(announced_before(ab, key, i));
            }
        } else {
            let m = i - a.len();
            assert(ab[i] == b[m]);
            assert(needs_start(b[m]) is Some);
            if flags_at(s2, key).started {
                if !flags_at(s, key).started {
                    assert(announced_before(a, key, a.len() as int));
                    assert(announced_before(ab, key, a.len() as int));
                    lemma_announced_mono(ab, key, a.len() as int, i);
                }
            } else {
                assert(announced_before(b, key, m));
                assert(announced_before(ab, key, a.len() + m));
            }
        }
    }
    assert forall|k: Seq<char>| #[trigger] flags_at(s3, k).started implies flags_at(s, k).started || announced_before(ab, k, ab.len() as int) by {
        lemma_announced_extends(a, b, k);
        if flags_at(s2, k).started {
            if !flags_at(s, k).started {
                assert(announced_before(a, k, a.len() as int));
                assert(announced_before(ab, k, a.len() as int));
                let j = choose|j: int| 0 <= j < a.len() && #[trigger] is_start_of(ab[j], k);
                assert(0 <= j < ab.len() && is_start_of(ab[j], k));
            }
        } else {
            assert(announced_before(b, k, b.len() as int));
            assert(announced_before(ab, k, (a.len() + b.len()) as int));
        }
    }
}

proof fn lemma_fallback_starts(s: spec_fn(Seq<char>) -> Option<SummaryFlags>, parts: Seq<SummaryRef>)
    ensures
        starts_first(s, fallback_spec(s, parts).1),
        starts_announced(s, fallback_spec(s, parts).1, fallback_spec(s, parts).0),
    decreases parts.len(),
{
    if parts.len() > 0 {
        let prev = parts.drop_last();
        lemma_fallback_starts(s, prev);
        let (s1, outs1) = fallback_spec(s, prev);
        let (id, index, text) = parts.last();
        let key = summary_key_of(id, index);
        let f = flags_at(s1, key);
        if !f.completed {
            let started = if f.started { Seq::<OutputView>::empty() } else { seq![OutputView::SummaryStarted(key, THINKING@)] };
            let s2 = with_flags(s1, key, SummaryFlags { started: true, completed: true });
            assert forall|i: int| 0 <= i < started.len() && #[trigger] needs_start(started[i]) is Some implies flags_at(s1, needs_start(started[i])->0).started
                || announced_before(started, needs_start(started[i])->0, i) by {}
            assert forall|k: Seq<char>| #[trigger] flags_at(s1, k).started implies flags_at(s1, k).started || announced_before(started, k, started.len() as int) by {}
            lemma_starts_compose(s, outs1, s1, started, s1);
            let last = seq![OutputView::SummaryCompleted(key, text)];
            if !f.started {
                assert(is_start_of(started[0], key));
                assert(announced_before(started, key, 1));
            }
            assert(flags_at(s1, key).started || announced_before(started, key, started.len() as int));
            assert(fallback_spec(s, parts).1 == outs1 + started + last);
            assert(fallback_spec(s, parts).0 == s2);
            // the start the completion needs: recorded in s1, or announced just before it
            let mid = outs1 + started;
            assert(flags_at(s, key).started || announced_before(mid, key, mid.len() as int)) by {
                lemma_announced_extends(outs1, started, key);
                if f.started {
                    assert(flags_at(s, key).started || announced_before(outs1, key, outs1.len() as int));
                }
            }
            let all = mid + last;
            assert forall|i: int| 0 <= i < all.len() && #[trigger] needs_start(all[i]) is Some implies flags_at(s, needs_start(all[i])->0).started
                || announced_before(all, needs_start(all[i])->0, i) by {
                lemma_announced_extends(mid, last, needs_start(all[i])->0);
                let key2 = needs_start(all[i])->0;
                if i < mid.len() {
                    assert(all[i] == mid[i]);
                    assert(needs_start(mid[i]) is Some);
                    if !flags_at(s, key2).started {
                        assert(announced_before(mid, key2, i));
                        assert(announced_before(all, key2, i));
                    }
                } else {
                    assert(all[i] == last[0]);
                    assert(key2 == key);
                    if !flags_at(s, key).started {
                        assert(announced_before(all, key, mid.len() as int));
                        lemma_announced_mono(all, key, mid.len() as int, i);
                    }
                }
            }
            assert forall|k: Seq<char>| #[trigger] flags_at(s2, k).started implies flags_at(s, k).started || announced_before(all, k, all.len() as int) by {
                lemma_announced_extends(mid, last, k);
                if !flags_at(s, k).started {
                    if k != key {
                        assert(flags_at(s1, k).started);
                    }
                    assert(announced_before(mid, k, mid.len() as int));
                    assert(announced_before(all, k, mid.len() as int));
                    lemma_announced_mono(all, k, mid.len() as int, all.len() as int);
                }
            }
        }
    }
}

/// A chat stream announces every reasoning summary before its text or its completion:
/// within one event's outputs, a summary's delta or completion follows its start, or
/// the state already recorded the start; and the state records a start only where it
/// was recorded before or the event announced it. From a new state, which records no
/// summary, every delta and completion so follows a start announced earlier in the run.
pub proof fn lemma_summaries_start_first(
    p: spec_fn(Seq<char>) -> Option<AssistantTextPhase>,
    s: spec_fn(Seq<char>) -> Option<SummaryFlags>,
    event: StreamEvent,
)
    ensures
        observe_spec(p, s, event).2 matches Ok(outs) ==> starts_first(s, outs) && starts_announced(
            s,
            outs,
            observe_spec(p, s, event).1,
        ),
{
    let p1 = phases_after(p, event);
    let kind = event.kind@;
    if kind == "response.output_text.delta"@ && event.phase is None && event.item_id is Some
        && p1(event.item_id->0@) is Some {
    } else {
        match stream_event_spec(event) {
            Err(_) => {},
            Ok(decoded) => {
                let (s2, outs_a) = match decoded {
                    Some(o) => if is_completion(o) {
                        (s, Seq::<OutputView>::empty())
                    } else {
                        let pre = match o {
                            OutputView::SummaryDelta(key, _) => if flags_at(s, key).started {
                                Seq::empty()
                            } else {
                                seq![OutputView::SummaryStarted(key, THINKING@)]
                            },
                            OutputView::SummaryCompleted(key, _) => if flags_at(s, key).started {
                                Seq::empty()
                            } else {
                                seq![OutputView::SummaryStarted(key, THINKING@)]
                            },
                            _ => Seq::empty(),
                        };
                        (note_output(s, o), pre.push(o))
                    },
                    None => (s, Seq::empty()),
                };
                assert(starts_first(s, outs_a) && starts_announced(s, outs_a, s2)) by {
                    if let Some(o) = decoded {
                        if !is_completion(o) {
                            assert forall|i: int| 0 <= i < outs_a.len() && #[trigger] needs_start(outs_a[i]) is Some implies flags_at(s, needs_start(outs_a[i])->0).started
                                || announced_before(outs_a, needs_start(outs_a[i])->0, i) by {
                                if i == outs_a.len() - 1 && outs_a.len() == 2 {
                                    assert(is_start_of(outs_a[0], needs_start(outs_a[i])->0));
                                }
                            }
                            assert forall|k: Seq<char>| #[trigger] flags_at(s2, k).started implies flags_at(s, k).started || announced_before(outs_a, k, outs_a.len() as int) by {
                                if !flags_at(s, k).started {
                                    if outs_a.len() == 2 {
                                        assert(is_start_of(outs_a[0], k));
                                    } else {
                                        assert(is_start_of(outs_a[0], k));
                                    }
                                }
                            }
                        }
                    }
                }
                let (s3, outs_b) = if (kind == "response.completed"@ || kind == "response.incomplete"@)
                    && event.response is Some {
                    lemma_fallback_starts(s2, summary_parts_spec(event.response->0.output@));
                    fallback_spec(s2, summary_parts_spec(event.response->0.output@))
                } else {
                    (s2, Seq::<OutputView>::empty())
                };
                lemma_starts_compose(s, outs_a, s2, outs_b, s3);
                let terminal = match decoded {
                    Some(o) => if is_completion(o) { seq![o] } else { Seq::<OutputView>::empty() },
                    None => Seq::<OutputView>::empty(),
                };
                assert forall|i: int| 0 <= i < terminal.len() && #[trigger] needs_start(terminal[i]) is Some implies flags_at(s3, needs_start(terminal[i])->0).started
                    || announced_before(terminal, needs_start(terminal[i])->0, i) by {}
                lemma_starts_compose(s, outs_a + outs_b, s3, terminal, s3);
                assert(observe_spec(p, s, event).2 == Ok::<Seq<OutputView>, ErrorView>(outs_a + outs_b + terminal));
                assert(observe_spec(p, s, event).1 == s3);
            },
        }
    }
}

/// The chat decoder run over a sequence of events from given tables: the tables after
/// the events and every output in order, or the first failure.
pub open spec fn run_spec(
    p: spec_fn(Seq<char>) -> Option<AssistantTextPhase>,
    s: spec_fn(Seq<char>) -> Option<SummaryFlags>,
    events: Seq<StreamEvent>,
) -> (
    spec_fn(Seq<char>) -> Option<AssistantTextPhase>,
    spec_fn(Seq<char>) -> Option<SummaryFlags>,
    Result<Seq<OutputView>, ErrorView>,
)
    decreases events.len(),
{
    if events.len() == 0 {
        (p, s, Ok(Seq::empty()))
    } else {
        let (p1, s1, r) = run_spec(p, s, events.drop_last());
        match r {
            Err(e) => (p1, s1, Err(e)),
            Ok(outs) => {
                let (p2, s2, r2) = observe_spec(p1, s1, events.last());
                match r2 {
                    Err(e) => (p2, s2, Err(e)),
                    Ok(more) => (p2, s2, Ok(outs + more)),
                }
            },
        }
    }
}

proof fn lemma_run_starts(
    p: spec_fn(Seq<char>) -> Option<AssistantTextPhase>,
    s: spec_fn(Seq<char>) -> Option<SummaryFlags>,
    events: Seq<StreamEvent>,
)
    ensures
        run_spec(p, s, events).2 matches Ok(outs) ==> starts_first(s, outs) && starts_announced(
            s,
            outs,
            run_spec(p, s, events).1,
        ),
    decreases events.len(),
{
    if events.len() > 0 {
        lemma_run_starts(p, s, events.drop_last());
        let (p1, s1, r) = run_spec(p, s, events.drop_last());
        if let Ok(outs) = r {
            lemma_summaries_start_first(p1, s1, events.last());
            let (p2, s2, r2) = observe_spec(p1, s1, events.last());
            if let Ok(more) = r2 {
                lemma_starts_compose(s, outs, s1, more, s2);
            }
        }
    }
}

/// Over a whole stream, fed event by event from a state that records no summary (as a
/// new state records none), every reasoning summary's delta or completion comes after
/// that summary's start, announced earlier in the stream's outputs, possibly by an
/// earlier event.
pub proof fn lemma_stream_announces_summaries_first(
    p: spec_fn(Seq<char>) -> Option<AssistantTextPhase>,
    s: spec_fn(Seq<char>) -> Option<SummaryFlags>,
    events: Seq<StreamEvent>,
)
    requires
        forall|k: Seq<char>| #[trigger] s(k) is None,
    ensures
        run_spec(p, s, events).2 matches Ok(outs) ==> forall|i: int|
            0 <= i < outs.len() && #[trigger] needs_start(outs[i]) is Some ==> announced_before(outs, needs_start(outs[i])->0, i),
{
    lemma_run_starts(p, s, events);
    if let Ok(outs) = run_spec(p, s, events).2 {
        assert forall|i: int| 0 <= i < outs.len() && #[trigger] needs_start(outs[i]) is Some implies announced_before(
            outs,
            needs_start(outs[i])->0,
            i,
        ) by {
            assert(s(needs_start(outs[i])->0) is None);
        }
    }
}

/// The completion, when an event produces one, is the last output of that event.
pub proof fn lemma_completion_is_last(
    p: spec_fn(Seq<char>) -> Option<AssistantTextPhase>,
    s: spec_fn(Seq<char>) -> Option<SummaryFlags>,
    event: StreamEvent,
)
    ensures
        observe_spec(p, s, event).2 matches Ok(outs) ==> forall|i: int|
            0 <= i < outs.len() - 1 ==> !is_completion(#[trigger] outs[i]),
{
    lemma_fallback_has_no_completion(s, summary_parts_spec(match event.response { Some(r) => r.output@, None => Seq::empty() }));
    lemma_fallback_has_no_completion(
        match stream_event_spec(event) {
            Ok(Some(o)) => if is_completion(o) { s } else { note_output(s, o) },
            _ => s,
        },
        summary_parts_spec(match event.response { Some(r) => r.output@, None => Seq::empty() }),
    );
}

proof fn lemma_fallback_has_no_completion(s: spec_fn(Seq<char>) -> Option<SummaryFlags>, parts: Seq<SummaryRef>)
    ensures
        forall|i: int| 0 <= i < fallback_spec(s, parts).1.len() ==> !is_completion(#[trigger] fallback_spec(s, parts).1[i]),
    decreases parts.len(),
{
    if parts.len() > 0 {
        let prev = parts.drop_last();
        lemma_fallback_has_no_completion(s, prev);
        let outs1 = fallback_spec(s, prev).1;
        let outs = fallback_spec(s, parts).1;
        assert forall|i: int| 0 <= i < outs.len() implies !is_completion(#[trigger] outs[i]) by {
            if i < outs1.len() {
                assert(outs[i] == outs1[i]);
            }
        }
    }
}

pub const OPENAI: &'static str = "openai";

/// The human-readable text of a failure.
pub open spec fn describe_spec(e: OpenAiProviderError) -> Seq<char> {
    match e {
        OpenAiProviderError::Serialize(m) => "could not serialize the OpenAI request: "@ + m@,
        OpenAiProviderError::RequestBuild(m) => "could not build the OpenAI request: "@ + m@,
        OpenAiProviderError::Transport(m) => "OpenAI request transport failed: "@ + m@,
        OpenAiProviderError::Http { status, detail } => "OpenAI returned HTTP "@ + decimal(status as nat) + ": "@ + detail@,
        OpenAiProviderError::Protocol(m) => "OpenAI returned malformed streaming data: "@ + m@,
        OpenAiProviderError::IncompleteStream => "OpenAI ended the stream before a completion event"@,
        OpenAiProviderError::StreamFailed(m) => "OpenAI rejected the stream: "@ + m@,
    }
}

impl OpenAiProviderError {
    /// The human-readable text of this failure.
    pub fn describe(&self) -> (text: String)
        ensures
            text@ == describe_spec(*self),
    {
        let mut s = String::new();
        match self {
            OpenAiProviderError::Serialize(m) => {
                append_str(&mut s, "could not serialize the OpenAI request: ");
                append_str(&mut s, m.as_str());
            },
            OpenAiProviderError::RequestBuild(m) => {
                append_str(&mut s, "could not build the OpenAI request: ");
                append_str(&mut s, m.as_str());
            },
            OpenAiProviderError::Transport(m) => {
                append_str(&mut s, "OpenAI request transport failed: ");
                append_str(&mut s, m.as_str());
            },
            OpenAiProviderError::Http { status, detail } => {
                append_str(&mut s, "OpenAI returned HTTP ");
                append_decimal(&mut s, *status as u64);
                append_str(&mut s, ": ");
                append_str(&mut s, detail.as_str());
            },
            OpenAiProviderError::Protocol(m) => {
                append_str(&mut s, "OpenAI returned malformed streaming data: ");
                append_str(&mut s, m.as_str());
            },
            OpenAiProviderError::IncompleteStream => {
                append_str(&mut s, "OpenAI ended the stream before a completion event");
            },
            OpenAiProviderError::StreamFailed(m) => {
                append_str(&mut s, "OpenAI rejected the stream: ");
                append_str(&mut s, m.as_str());
            },
        }
        s
    }
}

/// A provider error from the OpenAI adapter; HTTP failures keep their status.
pub fn provider_error(kind: ProviderErrorKind, error: &OpenAiProviderError) -> (e: ProviderError)
    ensures
        e.provider@ == OPENAI@,
        e.kind == kind,
        e.message@ == describe_spec(*error),
        e.http_status == match *error {
            OpenAiProviderError::Http { status, .. } => Some(status),
            _ => None::<u16>,
        },
{
    let http_status = match error {
        OpenAiProviderError::Http { status, .. } => Some(*status),
        _ => None,
    };
    ProviderError { provider: owned(OPENAI), kind, message: error.describe(), http_status }
}

/// Refuses any data that arrives after the stream has completed.
pub fn ensure_stream_is_active(completed: bool) -> (r: Result<(), ProviderError>)
    ensures
        r is Ok <==> !completed,
        r matches Err(e) ==> e.kind == ProviderErrorKind::Protocol && e.message@
            == "OpenAI returned malformed streaming data: "@ + "received data after completion"@
            && e.provider@ == OPENAI@ && e.http_status is None,
{
    if completed {
        let error = OpenAiProviderError::Protocol(owned("received data after completion"));
        return Err(provider_error(ProviderErrorKind::Protocol, &error));
    }
    Ok(())
}

/// The generation event that a stream output becomes.
pub fn generation_event(output: StreamOutput) -> (event: GenerationEvent)
    ensures
        event == match output {
            StreamOutput::Text(delta) => GenerationEvent::TextDelta(delta),
            StreamOutput::TextWithPhase { delta, phase } => GenerationEvent::TextDeltaWithPhase { delta, phase },
            StreamOutput::ReasoningSummaryStarted { key, title } => GenerationEvent::ReasoningSummaryStarted { key, title },
            StreamOutput::ReasoningSummaryDelta { key, delta } => GenerationEvent::ReasoningSummaryDelta { key, delta },
            StreamOutput::ReasoningSummaryCompleted { key, text } => GenerationEvent::ReasoningSummaryCompleted { key, text },
            StreamOutput::Completed(outcome) => GenerationEvent::Completed(outcome),
        },
{
    match output {
        StreamOutput::Text(delta) => GenerationEvent::TextDelta(delta),
        StreamOutput::TextWithPhase { delta, phase } => GenerationEvent::TextDeltaWithPhase { delta, phase },
        StreamOutput::ReasoningSummaryStarted { key, title } => GenerationEvent::ReasoningSummaryStarted { key, title },
        StreamOutput::ReasoningSummaryDelta { key, delta } => GenerationEvent::ReasoningSummaryDelta { key, delta },
        StreamOutput::ReasoningSummaryCompleted { key, text } => GenerationEvent::ReasoningSummaryCompleted { key, text },
        StreamOutput::Completed(outcome) => GenerationEvent::Completed(outcome),
    }
}

/// The message of a decoding failure, as a provider error reports it.
pub open spec fn error_view_message(v: ErrorView) -> Seq<char> {
    match v {
        ErrorView::Protocol(m) => "OpenAI returned malformed streaming data: "@ + m,
        ErrorView::StreamFailed(m) => "OpenAI rejected the stream: "@ + m,
    }
}

/// The output that a generation event carries.
pub open spec fn event_output_view(e: GenerationEvent) -> Option<OutputView> {
    match e {
        GenerationEvent::Started => None,
        GenerationEvent::TextDelta(t) => Some(OutputView::Text(t@)),
        GenerationEvent::TextDeltaWithPhase { delta, phase } => Some(OutputView::TextWithPhase(delta@, phase)),
        GenerationEvent::ReasoningSummaryStarted { key, title } => Some(OutputView::SummaryStarted(key@, title@)),
        GenerationEvent::ReasoningSummaryDelta { key, delta } => Some(OutputView::SummaryDelta(key@, delta@)),
        GenerationEvent::ReasoningSummaryCompleted { key, text } => Some(OutputView::SummaryCompleted(key@, text@)),
        GenerationEvent::Completed(outcome) => Some(OutputView::Completed(finish_view(outcome.finish_reason), outcome.usage)),
    }
}

pub open spec fn events_view(v: Seq<GenerationEvent>) -> Seq<Option<OutputView>> {
    v.map_values(|e: GenerationEvent| event_output_view(e))
}

pub open spec fn outputs_as_events(v: Seq<OutputView>) -> Seq<Option<OutputView>> {
    v.map_values(|o: OutputView| Some(o))
}

/// Whether the outputs hold a completion.
pub open spec fn has_completion(v: Seq<OutputView>) -> bool {
    exists|i: int| 0 <= i < v.len() && is_completion(#[trigger] v[i])
}

impl ChatStreamState {
    /// One decoded event of a chat stream, given whether the stream has already
    /// completed: data after the completion is refused; else the event's outputs become
    /// generation events, in order, and a failure to decode it is a protocol error.
    /// Gives the events and whether the stream is now complete.
    pub fn step(&mut self, event: &StreamEvent, completed: bool) -> (r: Result<(Vec<GenerationEvent>, bool), ProviderError>)
        ensures
            completed ==> (r matches Err(e) && e.kind == ProviderErrorKind::Protocol && e.provider@ == OPENAI@
                && e.message@ == "OpenAI returned malformed streaming data: "@ + "received data after completion"@),
            completed ==> final(self).phase_fn() == old(self).phase_fn() && final(self).summary_fn()
                == old(self).summary_fn(),
            !completed ==> ({
                let (p, s, res) = observe_spec(old(self).phase_fn(), old(self).summary_fn(), *event);
                &&& forall|q: Seq<char>| #[trigger] final(self).phase_of(q) == p(q)
                &&& forall|q: Seq<char>| #[trigger] final(self).summary_of(q) == s(q)
                &&& match res {
                    Ok(v) => r matches Ok((events, done)) && events_view(events@) == outputs_as_events(v)
                        && done == has_completion(v),
                    Err(v) => r matches Err(e) && e.kind == ProviderErrorKind::Protocol && e.provider@ == OPENAI@
                        && e.http_status is None && e.message@ == error_view_message(v),
                }
            }),
    {
        if let Err(e) = ensure_stream_is_active(completed) {
            assert(self.phase_fn() == old(self).phase_fn());
            return Err(e);
        }
        let ghost v = observe_spec(self.phase_fn(), self.summary_fn(), *event).2;
        match self.observe(event) {
            Err(e) => Err(e),
            Ok(outputs) => {
                let ghost outs = outputs@;
                let mut events: Vec<GenerationEvent> = Vec::new();
                let mut done = false;
                let n = outputs.len();
                let mut rest = outputs;
                let mut k: usize = 0;
                while k < n
                    invariant
                        n == outs.len(),
                        k <= outs.len(),
                        rest@ == outs.skip(k as int),
                        events_view(events@) == outputs_as_events(outputs_view(outs.take(k as int))),
                        done == has_completion(outputs_view(outs.take(k as int))),
                    decreases n - k,
                {
                    let output = rest.remove(0);
                    assert(output == outs[k as int]);
                    assert(rest@ =~= outs.skip(k + 1));
                    let ghost before = events@;
                    let finishes = match &output {
                        StreamOutput::Completed(_) => true,
                        _ => false,
                    };
                    let event = generation_event(output);
                    events.push(event);
                    proof {
                        let taken = outputs_view(outs.take(k + 1));
                        assert(outs.take(k + 1) =~= outs.take(k as int).push(outs[k as int]));
                        assert(taken =~= outputs_view(outs.take(k as int)).push(output_view(outs[k as int])));
                        assert(events_view(events@) =~= events_view(before).push(event_output_view(event)));
                        assert(outputs_as_events(taken) =~= outputs_as_events(outputs_view(outs.take(k as int))).push(
                            Some(output_view(outs[k as int])),
                        ));
                        if finishes {
                            assert(is_completion(taken[k as int]));
                        } else if done {
                            let j = choose|j: int| 0 <= j < k && is_completion(#[trigger] outputs_view(outs.take(k as int))[j]);
                            assert(taken[j] == outputs_view(outs.take(k as int))[j]);
                        } else {
                            assert forall|j: int| 0 <= j < taken.len() implies !is_completion(#[trigger] taken[j]) by {
                                if j < k {
                                    assert(taken[j] == outputs_view(outs.take(k as int))[j]);
                                }
                            }
                        }
                    }
                    done = done || finishes;
                    k += 1;
                }
                assert(outs.take(outs.len() as int) =~= outs);
                Ok((events, done))
            },
        }
    }
}

/// Refuses a stream that ended before its completion.
pub fn ensure_stream_completed(completed: bool) -> (r: Result<(), ProviderError>)
    ensures
        r is Ok <==> completed,
        r matches Err(e) ==> e.kind == ProviderErrorKind::IncompleteResponse && e.provider@ == OPENAI@
            && e.http_status is None && e.message@ == "OpenAI ended the stream before a completion event"@,
{
    if completed {
        Ok(())
    } else {
        Err(provider_error(ProviderErrorKind::IncompleteResponse, &OpenAiProviderError::IncompleteStream))
    }
}

/// The text an output carries, where it is a text output.
pub open spec fn text_carried(o: OutputView) -> Option<Seq<char>> {
    match o {
        OutputView::Text(d) => Some(d),
        OutputView::TextWithPhase(d, _) => Some(d),
        _ => None,
    }
}

/// The known phase an event names, if any.
pub open spec fn named_phase(phase: Option<String>) -> Option<AssistantTextPhase> {
    match phase {
        Some(p) => text_phase_spec(p@),
        None => None,
    }
}

/// A refusal is streamed to the user like output text: a refusal delta that is not
/// empty decodes to a text output carrying exactly that delta, with the phase the event
/// names where it names a known one and as plain text otherwise; and it decodes exactly
/// as an output text delta with the same delta and phase does.
pub proof fn lemma_refusal_streams_as_text(refusal: StreamEvent, text: StreamEvent)
    requires
        refusal.kind@ == "response.refusal.delta"@,
        refusal.delta matches Some(d) && d@.len() > 0,
        text.kind@ == "response.output_text.delta"@,
        text.delta == refusal.delta,
        text.phase == refusal.phase,
    ensures
        stream_event_spec(refusal) matches Ok(Some(o)) && text_carried(o) == Some(refusal.delta->0@),
        named_phase(refusal.phase) is None ==> stream_event_spec(refusal)
            == Ok::<Option<OutputView>, ErrorView>(Some(OutputView::Text(refusal.delta->0@))),
        named_phase(refusal.phase) matches Some(phase) ==> stream_event_spec(refusal)
            == Ok::<Option<OutputView>, ErrorView>(Some(OutputView::TextWithPhase(refusal.delta->0@, phase))),
        stream_event_spec(refusal) == stream_event_spec(text),
{
}

} // verus!
