//! Decoding of agent stream events: the output items captured while a response
//! streams, function-call arguments reassembled from their deltas, and the tool calls
//! or completion that end an agent step.
use vstd::prelude::*;

use super::chat::{
    assistant_text_phase, provider_error, response_error_detail, summary_key_for, summary_key_of,
    summary_key_spec, text_phase_spec, error_detail_spec, named_phase, describe_spec, ErrorView, OpenAiProviderError,
    OPENAI, THINKING, UNSPECIFIED_ERROR,
};
use super::wire::{
    finish_reason_spec, finish_view, parse_finish_reason, reasoning_summary_parts,
    summary_parts_spec, summary_refs_view, usage, OutputItem, ResponsePayload, StreamEvent,
    SummaryPart, SummaryRef, FinishView,
};
use crate::domain::{
    AgentToolDefinition, AgentToolOutput, AssistantTextPhase, EffortLevel, GenerationOutcome, ProviderError, ProviderErrorKind,
    TokenUsage,
};
use crate::keyed::KeyedTable;
use crate::text::{append_decimal, append_str, decimal, opt_view, str_is};

verus! {

fn owned(s: &str) -> (r: String)
    ensures
        r@ == s@,
{
    let mut r = String::new();
    append_str(&mut r, s);
    r
}

fn clone_opt(o: &Option<String>) -> (r: Option<String>)
    ensures
        r == *o,
{
    match o {
        Some(s) => Some(s.clone()),
        None => None,
    }
}

// ----- keys -----

/// The key under which an event's function-call arguments are gathered: the item id,
/// else the output index, else `current`.
pub open spec fn event_key_spec(event: StreamEvent) -> Seq<char> {
    match event.item_id {
        Some(id) => "id:"@ + id@,
        None => match event.output_index {
            Some(index) => "index:"@ + decimal(index as nat),
            None => "current"@,
        },
    }
}

pub fn event_key(event: &StreamEvent) -> (key: String)
    ensures
        key@ == event_key_spec(*event),
{
    match &event.item_id {
        Some(id) => {
            let mut key = owned("id:");
            append_str(&mut key, id.as_str());
            key
        },
        None => match event.output_index {
            Some(index) => {
                let mut key = owned("index:");
                append_decimal(&mut key, index);
                key
            },
            None => owned("current"),
        },
    }
}

/// The key of an output item: its id, else its output index.
pub open spec fn item_key_spec(id: Option<Seq<char>>, output_index: Option<u64>) -> Option<Seq<char>> {
    match id {
        Some(id) => Some("id:"@ + id),
        None => match output_index {
            Some(index) => Some("index:"@ + decimal(index as nat)),
            None => None,
        },
    }
}

pub fn item_key(item: &OutputItem, output_index: Option<u64>) -> (key: Option<String>)
    ensures
        opt_view(key) == item_key_spec(opt_view(item.id), output_index),
{
    match &item.id {
        Some(id) => {
            let mut key = owned("id:");
            append_str(&mut key, id.as_str());
            Some(key)
        },
        None => match output_index {
            Some(index) => {
                let mut key = owned("index:");
                append_decimal(&mut key, index);
                Some(key)
            },
            None => None,
        },
    }
}

/// An output item as values.
pub struct ItemView {
    pub item_type: Option<Seq<char>>,
    pub id: Option<Seq<char>>,
    pub phase: Option<Seq<char>>,
    pub call_id: Option<Seq<char>>,
    pub call_id_present: bool,
    pub name: Option<Seq<char>>,
    pub arguments: Option<Seq<char>>,
    pub summary: Seq<SummaryPart>,
    pub raw: Seq<char>,
}

pub open spec fn item_view(item: OutputItem) -> ItemView {
    ItemView {
        item_type: opt_view(item.item_type),
        id: opt_view(item.id),
        phase: opt_view(item.phase),
        call_id: opt_view(item.call_id),
        call_id_present: item.call_id_present,
        name: opt_view(item.name),
        arguments: opt_view(item.arguments),
        summary: item.summary@,
        raw: item.raw@,
    }
}

pub open spec fn items_view(items: Seq<OutputItem>) -> Seq<ItemView> {
    items.map_values(|item: OutputItem| item_view(item))
}

/// Whether an item is a function call.
pub open spec fn is_function_call_spec(item: ItemView) -> bool {
    item.item_type == Some("function_call"@)
}

pub fn is_function_call(item: &OutputItem) -> (b: bool)
    ensures
        b == is_function_call_spec(item_view(*item)),
{
    match &item.item_type {
        Some(t) => str_is(t.as_str(), "function_call"),
        None => false,
    }
}

fn clone_part(part: &SummaryPart) -> (c: SummaryPart)
    ensures
        c == *part,
{
    SummaryPart { part_type: clone_opt(&part.part_type), text: clone_opt(&part.text) }
}

/// A copy of an item with the same values.
pub fn clone_item(item: &OutputItem) -> (c: OutputItem)
    ensures
        item_view(c) == item_view(*item),
{
    let mut summary: Vec<SummaryPart> = Vec::new();
    let mut i: usize = 0;
    while i < item.summary.len()
        invariant
            i <= item.summary@.len(),
            summary@ == item.summary@.take(i as int),
        decreases item.summary.len() - i,
    {
        summary.push(clone_part(&item.summary[i]));
        assert(summary@ =~= item.summary@.take(i + 1));
        i += 1;
    }
    assert(item.summary@.take(item.summary@.len() as int) =~= item.summary@);
    OutputItem {
        item_type: clone_opt(&item.item_type),
        id: clone_opt(&item.id),
        phase: clone_opt(&item.phase),
        call_id: clone_opt(&item.call_id),
        call_id_present: item.call_id_present,
        name: clone_opt(&item.name),
        arguments: clone_opt(&item.arguments),
        summary,
        raw: item.raw.clone(),
    }
}

// ----- captured items -----

/// An output item captured while the response streams, under its key.
#[derive(Clone, Debug, PartialEq, Eq)]
pub struct CapturedItem {
    pub key: String,
    pub item: OutputItem,
}

pub open spec fn captured_view(items: Seq<CapturedItem>) -> Seq<(Seq<char>, ItemView)> {
    items.map_values(|c: CapturedItem| (c.key@, item_view(c.item)))
}

/// The first position of a key among captured items.
pub open spec fn key_position(items: Seq<(Seq<char>, ItemView)>, key: Seq<char>) -> Option<int>
    decreases items.len(),
{
    if items.len() == 0 {
        None
    } else {
        match key_position(items.drop_last(), key) {
            Some(i) => Some(i),
            None => if items.last().0 == key { Some(items.len() - 1) } else { None },
        }
    }
}

/// Capturing an item: it replaces the item with its key, or is appended under its key,
/// or, without one, under `item:<count>`.
pub open spec fn upsert_spec(items: Seq<(Seq<char>, ItemView)>, item: ItemView, output_index: Option<u64>) -> Seq<(Seq<char>, ItemView)> {
    match item_key_spec(item.id, output_index) {
        Some(key) => match key_position(items, key) {
            Some(i) => items.update(i, (key, item)),
            None => items.push((key, item)),
        },
        None => items.push(("item:"@ + decimal(items.len()), item)),
    }
}

/// The arguments gathered for function calls after an event: a delta is appended to
/// the event's key, a final text replaces it.
pub open spec fn arguments_after(
    args: spec_fn(Seq<char>) -> Option<Seq<char>>,
    event: StreamEvent,
) -> spec_fn(Seq<char>) -> Option<Seq<char>> {
    let key = event_key_spec(event);
    if event.kind@ == "response.function_call_arguments.delta"@ && event.delta is Some {
        let gathered = match args(key) { Some(a) => a, None => Seq::empty() };
        |q: Seq<char>| if q == key { Some(gathered + event.delta->0@) } else { args(q) }
    } else if event.kind@ == "response.function_call_arguments.done"@ && event.arguments is Some {
        |q: Seq<char>| if q == key { Some(event.arguments->0@) } else { args(q) }
    } else {
        args
    }
}

/// A captured function call with its gathered arguments, where there are some.
pub open spec fn with_arguments_item(entry: (Seq<char>, ItemView), args: spec_fn(Seq<char>) -> Option<Seq<char>>) -> (Seq<char>, ItemView) {
    if is_function_call_spec(entry.1) && args(entry.0) is Some {
        (entry.0, ItemView { arguments: args(entry.0), ..entry.1 })
    } else {
        entry
    }
}

pub open spec fn with_arguments(items: Seq<(Seq<char>, ItemView)>, args: spec_fn(Seq<char>) -> Option<Seq<char>>) -> Seq<(Seq<char>, ItemView)> {
    items.map_values(|e: (Seq<char>, ItemView)| with_arguments_item(e, args))
}

/// Whether an event announces or finishes an output item.
pub open spec fn is_item_event(kind: Seq<char>) -> bool {
    kind == "response.output_item.added"@ || kind == "response.output_item.done"@
}

/// The captured items after an event: an announced item is captured; then every
/// captured function call takes its gathered arguments.
pub open spec fn items_after(
    items: Seq<(Seq<char>, ItemView)>,
    args: spec_fn(Seq<char>) -> Option<Seq<char>>,
    event: StreamEvent,
) -> Seq<(Seq<char>, ItemView)> {
    let captured = if is_item_event(event.kind@) && event.item is Some {
        upsert_spec(items, item_view(event.item->0), event.output_index)
    } else {
        items
    };
    with_arguments(captured, arguments_after(args, event))
}

/// The phases known after an event: a message item with an id and a known phase
/// records it.
pub open spec fn agent_phases_after(
    p: spec_fn(Seq<char>) -> Option<AssistantTextPhase>,
    event: StreamEvent,
) -> spec_fn(Seq<char>) -> Option<AssistantTextPhase> {
    if is_item_event(event.kind@) && event.item is Some {
        let item = item_view(event.item->0);
        if item.item_type == Some("message"@) && item.id is Some && item.phase is Some
            && text_phase_spec(item.phase->0) is Some {
            |q: Seq<char>| if q == item.id->0 { text_phase_spec(item.phase->0) } else { p(q) }
        } else {
            p
        }
    } else {
        p
    }
}

// ----- tool calls -----

/// A tool call requested by the model.
#[derive(Clone, Debug, PartialEq, Eq)]
pub struct AgentToolCall {
    pub id: String,
    pub name: String,
    pub arguments: String,
}

pub struct CallView {
    pub id: Seq<char>,
    pub name: Seq<char>,
    pub arguments: Seq<char>,
}

pub open spec fn call_view(c: AgentToolCall) -> CallView {
    CallView { id: c.id@, name: c.name@, arguments: c.arguments@ }
}

pub open spec fn calls_view(v: Seq<AgentToolCall>) -> Seq<CallView> {
    v.map_values(|c: AgentToolCall| call_view(c))
}

/// The tool calls among output items, in order: each function call needs a call id
/// (its item id where it has no `call_id` field at all), a name and arguments; the
/// first that lacks one fails.
pub open spec fn function_calls_spec(items: Seq<ItemView>) -> Result<Seq<CallView>, Seq<char>>
    decreases items.len(),
{
    if items.len() == 0 {
        Ok(Seq::empty())
    } else {
        match function_calls_spec(items.drop_last()) {
            Err(e) => Err(e),
            Ok(calls) => {
                let item = items.last();
                if !is_function_call_spec(item) {
                    Ok(calls)
                } else {
                    let id = if item.call_id_present { item.call_id } else { item.id };
                    match id {
                        None => Err("function call had no call_id"@),
                        Some(id) => match item.name {
                            None => Err("function call had no name"@),
                            Some(name) => match item.arguments {
                                None => Err("function call had no arguments"@),
                                Some(arguments) => Ok(calls.push(CallView { id, name, arguments })),
                            },
                        },
                    }
                }
            },
        }
    }
}

fn protocol_error(message: &str) -> (e: ProviderError)
    ensures
        e.kind == ProviderErrorKind::Protocol,
        e.provider@ == OPENAI@,
        e.http_status is None,
        e.message@ == "OpenAI returned malformed streaming data: "@ + message@,
{
    provider_error(ProviderErrorKind::Protocol, &OpenAiProviderError::Protocol(owned(message)))
}

/// The tool calls among output items.
pub fn function_calls(output: &Vec<OutputItem>) -> (r: Result<Vec<AgentToolCall>, ProviderError>)
    ensures
        match function_calls_spec(items_view(output@)) {
            Ok(calls) => r matches Ok(v) && calls_view(v@) == calls,
            Err(detail) => r matches Err(e) && e.kind == ProviderErrorKind::Protocol
                && e.provider@ == OPENAI@ && e.http_status is None
                && e.message@ == "OpenAI returned malformed streaming data: "@ + detail,
        },
{
    let mut calls: Vec<AgentToolCall> = Vec::new();
    let mut i: usize = 0;
    assert(items_view(output@.take(0)) =~= Seq::<ItemView>::empty());
    assert(calls_view(calls@) =~= Seq::<CallView>::empty());
    while i < output.len()
        invariant
            i <= output@.len(),
            function_calls_spec(items_view(output@.take(i as int))) == Ok::<Seq<CallView>, Seq<char>>(calls_view(calls@)),
        decreases output.len() - i,
    {
        let item = &output[i];
        proof {
            assert(items_view(output@.take(i + 1)).drop_last() =~= items_view(output@.take(i as int)));
            assert(items_view(output@.take(i + 1)).last() == item_view(*item));
        }
        if is_function_call(item) {
            let id = if item.call_id_present { clone_opt(&item.call_id) } else { clone_opt(&item.id) };
            let id = match id {
                Some(id) => id,
                None => {
                    proof {
                        lemma_calls_error_persists(output@, i as int + 1, "function call had no call_id"@);
                    }
                    return Err(protocol_error("function call had no call_id"));
                },
            };
            let name = match &item.name {
                Some(n) => n.clone(),
                None => {
                    proof {
                        lemma_calls_error_persists(output@, i as int + 1, "function call had no name"@);
                    }
                    return Err(protocol_error("function call had no name"));
                },
            };
            let arguments = match &item.arguments {
                Some(a) => a.clone(),
                None => {
                    proof {
                        lemma_calls_error_persists(output@, i as int + 1, "function call had no arguments"@);
                    }
                    return Err(protocol_error("function call had no arguments"));
                },
            };
            let ghost before = calls@;
            calls.push(AgentToolCall { id, name, arguments });
            proof {
                assert(calls_view(calls@) =~= calls_view(before).push(call_view(calls@.last())));
            }
        }
        i += 1;
    }
    assert(output@.take(output@.len() as int) =~= output@);
    Ok(calls)
}

/// Once the calls of a prefix fail, the calls of the whole output fail the same way.
proof fn lemma_calls_error_persists(items: Seq<OutputItem>, i: int, detail: Seq<char>)
    requires
        0 <= i <= items.len(),
        function_calls_spec(items_view(items.take(i))) == Err::<Seq<CallView>, Seq<char>>(detail),
    ensures
        function_calls_spec(items_view(items)) == Err::<Seq<CallView>, Seq<char>>(detail),
    decreases items.len() - i,
{
    if i < items.len() {
        assert(items_view(items.take(i + 1)).drop_last() =~= items_view(items.take(i)));
        lemma_calls_error_persists(items, i + 1, detail);
    } else {
        assert(items.take(i) =~= items);
    }
}

// ----- the stream state -----

/// The progress of one reasoning summary of an agent step.
#[derive(Clone, Debug, PartialEq, Eq)]
pub struct AgentSummary {
    pub text: String,
    pub started: bool,
    pub completed: bool,
}

/// A summary's progress as values.
pub struct SummaryView {
    pub text: Seq<char>,
    pub started: bool,
    pub completed: bool,
}

pub open spec fn summary_view(s: Option<AgentSummary>) -> SummaryView {
    match s {
        Some(s) => SummaryView { text: s.text@, started: s.started, completed: s.completed },
        None => SummaryView { text: Seq::empty(), started: false, completed: false },
    }
}

/// A summary event held back until the next events are handed out.
#[derive(Clone, Debug, PartialEq, Eq)]
pub enum PendingSummary {
    Started(String),
    Completed(String, String),
}

pub enum PendingView {
    Started(Seq<char>),
    Completed(Seq<char>, Seq<char>),
}

pub open spec fn pending_view(p: PendingSummary) -> PendingView {
    match p {
        PendingSummary::Started(key) => PendingView::Started(key@),
        PendingSummary::Completed(key, text) => PendingView::Completed(key@, text@),
    }
}

pub open spec fn pendings_view(v: Seq<PendingSummary>) -> Seq<PendingView> {
    v.map_values(|p: PendingSummary| pending_view(p))
}

/// What the per-step memory of the agent decoder holds: the request's input items (as
/// JSON text), the output items captured so far, the function-call arguments gathered
/// per key, the phase of each message item, the progress of each reasoning summary, and
/// the summary events waiting to be handed out.
pub struct AgentStreamState {
    input_items: Vec<String>,
    output_items: Vec<CapturedItem>,
    arguments: KeyedTable<String>,
    phases: KeyedTable<AssistantTextPhase>,
    summaries: KeyedTable<AgentSummary>,
    pending: Vec<PendingSummary>,
}

impl AgentStreamState {
    pub closed spec fn input_view(self) -> Seq<Seq<char>> {
        self.input_items.deep_view()
    }

    pub closed spec fn items(self) -> Seq<(Seq<char>, ItemView)> {
        captured_view(self.output_items@)
    }

    pub closed spec fn argument_of(self, key: Seq<char>) -> Option<Seq<char>> {
        opt_view(self.arguments.get_spec(key))
    }

    pub closed spec fn phase_of(self, key: Seq<char>) -> Option<AssistantTextPhase> {
        self.phases.get_spec(key)
    }

    pub closed spec fn summary_of(self, key: Seq<char>) -> SummaryView {
        summary_view(self.summaries.get_spec(key))
    }

    pub closed spec fn pending(self) -> Seq<PendingView> {
        pendings_view(self.pending@)
    }

    pub open spec fn args_fn(self) -> spec_fn(Seq<char>) -> Option<Seq<char>> {
        |q: Seq<char>| self.argument_of(q)
    }

    pub open spec fn phase_fn(self) -> spec_fn(Seq<char>) -> Option<AssistantTextPhase> {
        |q: Seq<char>| self.phase_of(q)
    }

    /// Everything but the captured items, arguments and phases is as in `other`.
    pub open spec fn same_summaries(self, other: Self) -> bool {
        &&& self.input_view() == other.input_view()
        &&& forall|q: Seq<char>| #[trigger] self.summary_of(q) == other.summary_of(q)
        &&& self.pending() == other.pending()
    }

    /// Everything but the summaries and pending events is as in `other`.
    pub open spec fn same_items(self, other: Self) -> bool {
        &&& self.input_view() == other.input_view()
        &&& self.items() == other.items()
        &&& forall|q: Seq<char>| #[trigger] self.argument_of(q) == other.argument_of(q)
        &&& forall|q: Seq<char>| #[trigger] self.phase_of(q) == other.phase_of(q)
    }

    /// A state for a step whose request had the given input items.
    pub fn with_input(input_items: Vec<String>) -> (state: Self)
        ensures
            state.input_view() == input_items.deep_view(),
            state.items().len() == 0,
            forall|q: Seq<char>| #[trigger] state.argument_of(q) is None,
            forall|q: Seq<char>| #[trigger] state.phase_of(q) is None,
            forall|q: Seq<char>| #[trigger] state.summary_of(q) == summary_view(None),
            state.pending().len() == 0,
    {
        let state = AgentStreamState {
            input_items,
            output_items: Vec::new(),
            arguments: KeyedTable::new(),
            phases: KeyedTable::new(),
            summaries: KeyedTable::new(),
            pending: Vec::new(),
        };
        assert(state.items() =~= Seq::<(Seq<char>, ItemView)>::empty());
        assert(state.pending() =~= Seq::<PendingView>::empty());
        state
    }

    fn find_item(&self, key: &str) -> (position: Option<usize>)
        ensures
            self.items().len() == self.output_items@.len(),
            match position {
                Some(i) => key_position(self.items(), key@) == Some(i as int) && i < self.output_items@.len(),
                None => key_position(self.items(), key@) is None,
            },
    {
        let mut i: usize = 0;
        assert(self.items().take(0) =~= Seq::<(Seq<char>, ItemView)>::empty());
        while i < self.output_items.len()
            invariant
                i <= self.output_items@.len(),
                self.items().len() == self.output_items@.len(),
                key_position(self.items().take(i as int), key@) is None,
            decreases self.output_items.len() - i,
        {
            proof {
                assert(self.items().take(i + 1).drop_last() =~= self.items().take(i as int));
                assert(self.items()[i as int].0 == self.output_items@[i as int].key@);
            }
            if str_is(self.output_items[i].key.as_str(), key) {
                proof {
                    lemma_key_position_prefix(self.items(), key@, i as int + 1);
                }
                return Some(i);
            }
            i += 1;
        }
        assert(self.items().take(i as int) =~= self.items());
        None
    }

    /// Captures an output item.
    pub fn upsert_item(&mut self, item: OutputItem, output_index: Option<u64>)
        ensures
            final(self).items() == upsert_spec(old(self).items(), item_view(item), output_index),
            final(self).same_summaries(*old(self)),
            forall|q: Seq<char>| #[trigger] final(self).argument_of(q) == old(self).argument_of(q),
            forall|q: Seq<char>| #[trigger] final(self).phase_of(q) == old(self).phase_of(q),
    {
        let ghost before = self.items();
        match item_key(&item, output_index) {
            Some(key) => match self.find_item(key.as_str()) {
                Some(i) => {
                    self.output_items.set(i, CapturedItem { key, item });
                    assert(self.items() =~= before.update(i as int, (self.output_items@[i as int].key@, item_view(item))));
                },
                None => {
                    self.output_items.push(CapturedItem { key, item });
                    assert(self.items() =~= before.push((self.output_items@.last().key@, item_view(item))));
                },
            },
            None => {
                let mut key = owned("item:");
                append_decimal(&mut key, self.output_items.len() as u64);
                self.output_items.push(CapturedItem { key, item });
                assert(self.items() =~= before.push(("item:"@ + decimal(before.len()), item_view(item))));
            },
        }
    }

    fn gather_arguments(&mut self, event: &StreamEvent)
        ensures
            forall|q: Seq<char>| #[trigger] final(self).argument_of(q) == arguments_after(old(self).args_fn(), *event)(q),
            final(self).items() == old(self).items(),
            final(self).same_summaries(*old(self)),
            forall|q: Seq<char>| #[trigger] final(self).phase_of(q) == old(self).phase_of(q),
    {
        proof {
            reveal_strlit("response.function_call_arguments.delta");
            reveal_strlit("response.function_call_arguments.done");
            assert("response.function_call_arguments.delta"@[34] != "response.function_call_arguments.done"@[34]);
        }
        if str_is(event.kind.as_str(), "response.function_call_arguments.delta") {
            if let Some(delta) = &event.delta {
                let key = event_key(event);
                let mut gathered = match self.arguments.get(key.as_str()) {
                    Some(a) => a.clone(),
                    None => String::new(),
                };
                append_str(&mut gathered, delta.as_str());
                self.arguments.insert(key, gathered);
            }
        } else if str_is(event.kind.as_str(), "response.function_call_arguments.done") {
            if let Some(arguments) = &event.arguments {
                let key = event_key(event);
                self.arguments.insert(key, arguments.clone());
            }
        }
    }

    fn apply_arguments(&mut self)
        ensures
            final(self).items() == with_arguments(old(self).items(), old(self).args_fn()),
            final(self).same_summaries(*old(self)),
            forall|q: Seq<char>| #[trigger] final(self).argument_of(q) == old(self).argument_of(q),
            forall|q: Seq<char>| #[trigger] final(self).phase_of(q) == old(self).phase_of(q),
    {
        let ghost before = self.items();
        let ghost args = self.args_fn();
        let mut items: Vec<CapturedItem> = Vec::new();
        std::mem::swap(&mut items, &mut self.output_items);
        let mut i: usize = 0;
        while i < items.len()
            invariant
                i <= items@.len(),
                captured_view(items@).len() == before.len(),
                forall|k: int| 0 <= k < i ==> #[trigger] captured_view(items@)[k] == with_arguments_item(before[k], args),
                forall|k: int| i <= k < before.len() ==> #[trigger] captured_view(items@)[k] == before[k],
                forall|q: Seq<char>| #[trigger] args(q) == self.argument_of(q),
            decreases items.len() - i,
        {
            let ghost entry = items@[i as int];
            proof {
                assert(captured_view(items@)[i as int] == before[i as int]);
            }
            if is_function_call(&items[i].item) {
                let found = match self.arguments.get(items[i].key.as_str()) {
                    Some(a) => Some(a.clone()),
                    None => None,
                };
                proof {
                    assert(opt_view(found) == self.argument_of(entry.key@));
                    assert(opt_view(found) == args(entry.key@));
                }
                if let Some(arguments) = found {
                    let ghost prior = captured_view(items@);
                    let mut captured = items.remove(i);
                    captured.item.arguments = Some(arguments);
                    items.insert(i, captured);
                    proof {
                        assert(captured_view(items@) =~= prior.update(i as int, (entry.key@, ItemView {
                            arguments: args(entry.key@),
                            ..item_view(entry.item)
                        })));
                    }
                }
            }
            i += 1;
        }
        std::mem::swap(&mut items, &mut self.output_items);
        assert(self.items() =~= with_arguments(before, args));
    }

    /// Feeds one event to the captured items, gathered arguments and phases.
    pub fn observe(&mut self, event: &StreamEvent)
        ensures
            final(self).items() == items_after(old(self).items(), old(self).args_fn(), *event),
            forall|q: Seq<char>| #[trigger] final(self).argument_of(q) == arguments_after(old(self).args_fn(), *event)(q),
            forall|q: Seq<char>| #[trigger] final(self).phase_of(q) == agent_phases_after(old(self).phase_fn(), *event)(q),
            final(self).same_summaries(*old(self)),
    {
        let ghost start = *self;
        let is_item = str_is(event.kind.as_str(), "response.output_item.added")
            || str_is(event.kind.as_str(), "response.output_item.done");
        if is_item {
            if let Some(item) = &event.item {
                let is_message = match &item.item_type {
                    Some(t) => str_is(t.as_str(), "message"),
                    None => false,
                };
                if is_message {
                    if let (Some(id), Some(phase)) = (&item.id, &item.phase) {
                        if let Some(p) = assistant_text_phase(phase.as_str()) {
                            self.phases.insert(id.clone(), p);
                        }
                    }
                }
                self.upsert_item(clone_item(item), event.output_index);
            }
        }
        let ghost mid = *self;
        self.gather_arguments(event);
        self.apply_arguments();
        proof {
            assert(mid.items() == if is_item_event(event.kind@) && event.item is Some {
                upsert_spec(start.items(), item_view(event.item->0), event.output_index)
            } else {
                start.items()
            });
            assert(self.args_fn() =~= arguments_after(start.args_fn(), *event));
        }
    }

    /// The phase recorded for an item, if any.
    pub fn phase_for(&self, item_id: Option<&str>) -> (phase: Option<AssistantTextPhase>)
        ensures
            phase == match item_id {
                Some(id) => self.phase_of(id@),
                None => None,
            },
    {
        match item_id {
            Some(id) => match self.phases.get(id) {
                Some(p) => Some(*p),
                None => None,
            },
            None => None,
        }
    }
}

proof fn lemma_key_position_prefix(items: Seq<(Seq<char>, ItemView)>, key: Seq<char>, n: int)
    requires
        0 < n <= items.len(),
        key_position(items.take(n - 1), key) is None,
        items[n - 1].0 == key,
    ensures
        key_position(items, key) == Some(n - 1),
{
    assert(items.take(n).drop_last() =~= items.take(n - 1));
    assert(items.take(n).last() == items[n - 1]);
    lemma_key_position_extend(items, key, n, n - 1);
}

proof fn lemma_key_position_extend(items: Seq<(Seq<char>, ItemView)>, key: Seq<char>, n: int, p: int)
    requires
        0 < n <= items.len(),
        key_position(items.take(n), key) == Some(p),
    ensures
        key_position(items, key) == Some(p),
    decreases items.len() - n,
{
    if n < items.len() {
        assert(items.take(n + 1).drop_last() =~= items.take(n));
        lemma_key_position_extend(items, key, n + 1, p);
    } else {
        assert(items.take(n) =~= items);
    }
}

// ----- the whole state as values -----

/// The decoder state as values: input items, captured items, and the tables as
/// functions.
pub struct AgentView {
    pub input: Seq<Seq<char>>,
    pub items: Seq<(Seq<char>, ItemView)>,
    pub args: spec_fn(Seq<char>) -> Option<Seq<char>>,
    pub phases: spec_fn(Seq<char>) -> Option<AssistantTextPhase>,
    pub summaries: spec_fn(Seq<char>) -> SummaryView,
    pub pending: Seq<PendingView>,
}

impl AgentStreamState {
    pub open spec fn summary_fn(self) -> spec_fn(Seq<char>) -> SummaryView {
        |q: Seq<char>| self.summary_of(q)
    }

    pub open spec fn view_of(self) -> AgentView {
        AgentView {
            input: self.input_view(),
            items: self.items(),
            args: self.args_fn(),
            phases: self.phase_fn(),
            summaries: self.summary_fn(),
            pending: self.pending(),
        }
    }

    /// Whether this state holds the values `v`.
    pub open spec fn holds(self, v: AgentView) -> bool {
        &&& self.input_view() == v.input
        &&& self.items() == v.items
        &&& forall|q: Seq<char>| #[trigger] self.argument_of(q) == (v.args)(q)
        &&& forall|q: Seq<char>| #[trigger] self.phase_of(q) == (v.phases)(q)
        &&& forall|q: Seq<char>| #[trigger] self.summary_of(q) == (v.summaries)(q)
        &&& self.pending() == v.pending
    }
}

/// The state after an event is observed.
pub open spec fn observed(v: AgentView, event: StreamEvent) -> AgentView {
    AgentView {
        items: items_after(v.items, v.args, event),
        args: arguments_after(v.args, event),
        phases: agent_phases_after(v.phases, event),
        ..v
    }
}

/// One summary replaced.
pub open spec fn with_summary(s: spec_fn(Seq<char>) -> SummaryView, key: Seq<char>, value: SummaryView) -> spec_fn(Seq<char>) -> SummaryView {
    |q: Seq<char>| if q == key { value } else { s(q) }
}

/// A summary marked started.
pub open spec fn started(v: SummaryView) -> SummaryView {
    SummaryView { started: true, ..v }
}

// ----- outputs -----

/// What an agent step continues from: the request's input items, the response's output
/// items, and the model that produced them.
#[derive(Debug, PartialEq, Eq)]
pub struct AgentContinuation {
    pub provider: String,
    pub model: String,
    pub effort: EffortLevel,
    pub input: Vec<String>,
    pub output: Vec<OutputItem>,
}

pub struct ContinuationView {
    pub provider: Seq<char>,
    pub model: Seq<char>,
    pub effort: EffortLevel,
    pub input: Seq<Seq<char>>,
    pub output: Seq<ItemView>,
}

pub open spec fn continuation_view(c: AgentContinuation) -> ContinuationView {
    ContinuationView {
        provider: c.provider@,
        model: c.model@,
        effort: c.effort,
        input: c.input.deep_view(),
        output: items_view(c.output@),
    }
}

/// A later step of an agent run: the continuation of the step before, what the tools
/// answered to its calls, and the instructions and tools again.
#[derive(Debug, PartialEq, Eq)]
pub struct AgentResumeRequest {
    pub continuation: AgentContinuation,
    pub outputs: Vec<AgentToolOutput>,
    pub instructions: String,
    pub tools: Vec<AgentToolDefinition>,
}

/// What one agent stream event contributes.
#[derive(Debug, PartialEq, Eq)]
pub enum AgentOutput {
    Text(String),
    TextWithPhase { delta: String, phase: AssistantTextPhase },
    ReasoningSummaryStarted { key: String, title: String },
    ReasoningSummaryDelta { key: String, delta: String },
    ReasoningSummaryCompleted { key: String, text: String },
    AgentTools { calls: Vec<AgentToolCall>, continuation: AgentContinuation },
    Completed(GenerationOutcome),
}

pub enum AgentOutputView {
    Text(Seq<char>),
    TextWithPhase(Seq<char>, AssistantTextPhase),
    SummaryStarted(Seq<char>, Seq<char>),
    SummaryDelta(Seq<char>, Seq<char>),
    SummaryCompleted(Seq<char>, Seq<char>),
    AgentTools(Seq<CallView>, ContinuationView),
    Completed(FinishView, Option<TokenUsage>),
}

pub open spec fn agent_output_view(o: AgentOutput) -> AgentOutputView {
    match o {
        AgentOutput::Text(t) => AgentOutputView::Text(t@),
        AgentOutput::TextWithPhase { delta, phase } => AgentOutputView::TextWithPhase(delta@, phase),
        AgentOutput::ReasoningSummaryStarted { key, title } => AgentOutputView::SummaryStarted(key@, title@),
        AgentOutput::ReasoningSummaryDelta { key, delta } => AgentOutputView::SummaryDelta(key@, delta@),
        AgentOutput::ReasoningSummaryCompleted { key, text } => AgentOutputView::SummaryCompleted(key@, text@),
        AgentOutput::AgentTools { calls, continuation } => AgentOutputView::AgentTools(calls_view(calls@), continuation_view(continuation)),
        AgentOutput::Completed(outcome) => AgentOutputView::Completed(finish_view(outcome.finish_reason), outcome.usage),
    }
}

pub open spec fn opt_output_view(o: Option<AgentOutput>) -> Option<AgentOutputView> {
    match o {
        Some(o) => Some(agent_output_view(o)),
        None => None,
    }
}

/// Whether an optional text is present and not empty.
pub open spec fn nonempty(o: Option<String>) -> bool {
    o matches Some(t) && t@.len() > 0
}

/// A text delta: with the event's own phase, else the phase recorded for its item.
pub open spec fn text_spec(v: AgentView, event: StreamEvent) -> Option<AgentOutputView> {
    if nonempty(event.delta) {
        let own = match event.phase { Some(p) => text_phase_spec(p@), None => None };
        let recorded = match event.item_id { Some(id) => (v.phases)(id@), None => None };
        match (match own { Some(p) => Some(p), None => recorded }) {
            Some(phase) => Some(AgentOutputView::TextWithPhase(event.delta->0@, phase)),
            None => Some(AgentOutputView::Text(event.delta->0@)),
        }
    } else {
        None
    }
}

/// A summary part announced: started, unless it already was.
pub open spec fn part_spec(v: AgentView, event: StreamEvent) -> (AgentView, Option<AgentOutputView>) {
    match summary_key_spec(event) {
        Some(key) => {
            let before = (v.summaries)(key);
            let v2 = AgentView { summaries: with_summary(v.summaries, key, started(before)), ..v };
            if before.started {
                (v2, None)
            } else {
                (v2, Some(AgentOutputView::SummaryStarted(key, THINKING@)))
            }
        },
        None => (v, None),
    }
}

/// A summary delta: appended (announcing the summary first where it was not started).
pub open spec fn delta_spec(v: AgentView, event: StreamEvent) -> (AgentView, Option<AgentOutputView>) {
    match summary_key_spec(event) {
        Some(key) => if nonempty(event.delta) {
            let before = (v.summaries)(key);
            let pending = if before.started { v.pending } else { v.pending.push(PendingView::Started(key)) };
            let after = SummaryView { text: before.text + event.delta->0@, started: true, completed: before.completed };
            (
                AgentView { summaries: with_summary(v.summaries, key, after), pending, ..v },
                Some(AgentOutputView::SummaryDelta(key, event.delta->0@)),
            )
        } else {
            (v, None)
        },
        None => (v, None),
    }
}

/// A summary finished: completed with the event's text, else the gathered text, once
/// (announcing the summary first where it was not started).
pub open spec fn done_spec(v: AgentView, event: StreamEvent) -> (AgentView, Option<AgentOutputView>) {
    match summary_key_spec(event) {
        Some(key) => {
            let before = (v.summaries)(key);
            if before.completed {
                (v, None)
            } else {
                let text = if nonempty(event.text) { event.text->0@ } else { before.text };
                let pending = if before.started { v.pending } else { v.pending.push(PendingView::Started(key)) };
                (
                    AgentView {
                        summaries: with_summary(v.summaries, key, SummaryView { text, started: true, completed: true }),
                        pending,
                        ..v
                    },
                    Some(AgentOutputView::SummaryCompleted(key, text)),
                )
            }
        },
        None => (v, None),
    }
}

/// The summary parts of output items (as values), in order.
pub open spec fn view_summary_parts(items: Seq<ItemView>) -> Seq<SummaryRef>
    decreases items.len(),
{
    if items.len() == 0 {
        Seq::empty()
    } else {
        let item = items.last();
        view_summary_parts(items.drop_last()) + if item.item_type == Some("reasoning"@) && item.id is Some {
            super::wire::item_summary_parts(item.id->0, item.summary)
        } else {
            Seq::empty()
        }
    }
}

proof fn lemma_view_summary_parts(items: Seq<OutputItem>)
    ensures
        view_summary_parts(items_view(items)) == summary_parts_spec(items),
    decreases items.len(),
{
    if items.len() > 0 {
        assert(items_view(items).drop_last() =~= items_view(items.drop_last()));
        lemma_view_summary_parts(items.drop_last());
    }
}

/// The summaries a final response reports that were not completed while streaming:
/// each is announced (where it was not started) and completed, in order, once.
pub open spec fn fallback_step(v: AgentView, parts: Seq<SummaryRef>) -> AgentView
    decreases parts.len(),
{
    if parts.len() == 0 {
        v
    } else {
        let v1 = fallback_step(v, parts.drop_last());
        let (id, index, text) = parts.last();
        let key = summary_key_of(id, index);
        let before = (v1.summaries)(key);
        if before.completed {
            v1
        } else {
            let announced = if before.started { v1.pending } else { v1.pending.push(PendingView::Started(key)) };
            AgentView {
                summaries: with_summary(v1.summaries, key, SummaryView { text, started: true, completed: true }),
                pending: announced.push(PendingView::Completed(key, text)),
                ..v1
            }
        }
    }
}

/// The id key of an item of a final response.
pub open spec fn id_key(item: ItemView) -> Option<Seq<char>> {
    item_key_spec(item.id, None)
}

/// Whether a final response has an item with the given id key.
pub open spec fn duplicated(output: Seq<ItemView>, key: Seq<char>) -> bool {
    exists|j: int| 0 <= j < output.len() && #[trigger] id_key(output[j]) == Some(key)
}

/// The captured items that a final response does not repeat, in order.
pub open spec fn extra_items(captured: Seq<(Seq<char>, ItemView)>, output: Seq<ItemView>) -> Seq<ItemView>
    decreases captured.len(),
{
    if captured.len() == 0 {
        Seq::empty()
    } else {
        extra_items(captured.drop_last(), output) + if duplicated(output, captured.last().0) {
            Seq::empty()
        } else {
            seq![captured.last().1]
        }
    }
}

/// The output of an agent step: the captured items where the final response lists
/// none, else the response's items followed by the captured ones it does not repeat.
pub open spec fn response_output_spec(captured: Seq<(Seq<char>, ItemView)>, output: Seq<ItemView>) -> Seq<ItemView> {
    if output.len() == 0 {
        captured.map_values(|e: (Seq<char>, ItemView)| e.1)
    } else {
        output + extra_items(captured, output)
    }
}

/// What ends an agent step: without a response payload, a protocol error; else the
/// step's output, its summaries completed, and either the tool calls it requests, with
/// what continues from them, or the completion.
pub open spec fn completion_spec(v: AgentView, event: StreamEvent, model: Seq<char>, effort: EffortLevel)
    -> (AgentView, Result<Option<AgentOutputView>, ErrorView>)
{
    match event.response {
        None => (v, Err(ErrorView::Protocol("agent completion did not contain a response payload"@))),
        Some(response) => {
            let output = response_output_spec(v.items, items_view(response.output@));
            let v2 = fallback_step(v, view_summary_parts(output));
            match function_calls_spec(output) {
                Err(detail) => (v2, Err(ErrorView::Protocol(detail))),
                Ok(calls) => if calls.len() == 0 {
                    (v2, Ok(Some(AgentOutputView::Completed(finish_reason_spec(response), match response.usage {
                        Some(u) => Some(TokenUsage { input_tokens: u.input_tokens, output_tokens: u.output_tokens }),
                        None => None,
                    }))))
                } else {
                    (v2, Ok(Some(AgentOutputView::AgentTools(calls, ContinuationView {
                        provider: OPENAI@,
                        model,
                        effort,
                        input: v.input,
                        output,
                    }))))
                },
            }
        },
    }
}

/// The detail of a failure event: its error, else its response's error.
pub open spec fn stream_error_detail(event: StreamEvent) -> Seq<char> {
    match event.error {
        Some(e) => error_detail_spec(e),
        None => match event.response {
            Some(r) => match r.error {
                Some(e) => error_detail_spec(e),
                None => UNSPECIFIED_ERROR@,
            },
            None => UNSPECIFIED_ERROR@,
        },
    }
}

pub open spec fn is_text_kind(k: Seq<char>) -> bool {
    k == "response.output_text.delta"@ || k == "response.refusal.delta"@
}

pub open spec fn is_completion_kind(k: Seq<char>) -> bool {
    k == "response.completed"@ || k == "response.done"@ || k == "response.incomplete"@
}

pub open spec fn is_failure_kind(k: Seq<char>) -> bool {
    k == "response.failed"@ || k == "error"@ || k == "response.error"@
}

/// Everything one event does to an agent step.
pub open spec fn agent_event_spec(v: AgentView, event: StreamEvent, model: Seq<char>, effort: EffortLevel)
    -> (AgentView, Result<Option<AgentOutputView>, ErrorView>)
{
    let o = observed(v, event);
    let k = event.kind@;
    if is_text_kind(k) {
        (o, Ok(text_spec(o, event)))
    } else if k == "response.reasoning_summary_part.added"@ {
        let (v2, out) = part_spec(o, event);
        (v2, Ok(out))
    } else if k == "response.reasoning_summary_text.delta"@ {
        let (v2, out) = delta_spec(o, event);
        (v2, Ok(out))
    } else if k == "response.reasoning_summary_text.done"@ {
        let (v2, out) = done_spec(o, event);
        (v2, Ok(out))
    } else if is_completion_kind(k) {
        completion_spec(o, event, model, effort)
    } else if is_failure_kind(k) {
        (o, Err(ErrorView::StreamFailed(stream_error_detail(event))))
    } else {
        (o, Ok(None))
    }
}

/// The provider error for a decoding failure.
pub open spec fn agent_error_is(e: ProviderError, error: ErrorView) -> bool {
    &&& e.kind == ProviderErrorKind::Protocol
    &&& e.provider@ == OPENAI@
    &&& e.http_status is None
    &&& e.message@ == match error {
        ErrorView::Protocol(m) => "OpenAI returned malformed streaming data: "@ + m,
        ErrorView::StreamFailed(m) => "OpenAI rejected the stream: "@ + m,
    }
}

pub open spec fn agent_result_is(r: Result<Option<AgentOutput>, ProviderError>, spec: Result<Option<AgentOutputView>, ErrorView>) -> bool {
    match spec {
        Ok(out) => r matches Ok(o) && opt_output_view(o) == out,
        Err(error) => r matches Err(e) && agent_error_is(e, error),
    }
}

fn clone_strings(v: &Vec<String>) -> (c: Vec<String>)
    ensures
        c.deep_view() == v.deep_view(),
{
    let mut c: Vec<String> = Vec::new();
    let mut i: usize = 0;
    while i < v.len()
        invariant
            i <= v@.len(),
            c@ == v@.take(i as int),
        decreases v.len() - i,
    {
        c.push(v[i].clone());
        assert(c@ =~= v@.take(i + 1));
        i += 1;
    }
    assert(v@.take(v@.len() as int) =~= v@);
    c
}

impl AgentStreamState {
    fn summary(&self, key: &str) -> (s: AgentSummary)
        ensures
            summary_view(Some(s)) == self.summary_of(key@),
    {
        match self.summaries.get(key) {
            Some(v) => AgentSummary { text: v.text.clone(), started: v.started, completed: v.completed },
            None => AgentSummary { text: String::new(), started: false, completed: false },
        }
    }

    fn set_summary(&mut self, key: String, value: AgentSummary, Ghost(w): Ghost<AgentView>)
        requires
            old(self).holds(w),
        ensures
            final(self).holds(AgentView { summaries: with_summary(w.summaries, key@, summary_view(Some(value))), ..w }),
    {
        let ghost k = key@;
        let ghost sv = summary_view(Some(value));
        self.summaries.insert(key, value);
        proof {
            let target = AgentView { summaries: with_summary(w.summaries, k, sv), ..w };
            assert forall|q: Seq<char>| #[trigger] self.summary_of(q) == (target.summaries)(q) by {
                if q != k {
                    assert(old(self).summary_of(q) == (w.summaries)(q));
                }
            }
            assert forall|q: Seq<char>| #[trigger] self.argument_of(q) == (target.args)(q) by {
                assert(old(self).argument_of(q) == (w.args)(q));
            }
            assert forall|q: Seq<char>| #[trigger] self.phase_of(q) == (target.phases)(q) by {
                assert(old(self).phase_of(q) == (w.phases)(q));
            }
        }
    }

    fn push_pending(&mut self, p: PendingSummary, Ghost(w): Ghost<AgentView>)
        requires
            old(self).holds(w),
        ensures
            final(self).holds(AgentView { pending: w.pending.push(pending_view(p)), ..w }),
    {
        let ghost pv = pending_view(p);
        self.pending.push(p);
        proof {
            assert(self.pending() =~= w.pending.push(pv));
            let target = AgentView { pending: w.pending.push(pv), ..w };
            assert forall|q: Seq<char>| #[trigger] self.summary_of(q) == (target.summaries)(q) by {
                assert(old(self).summary_of(q) == (w.summaries)(q));
            }
            assert forall|q: Seq<char>| #[trigger] self.argument_of(q) == (target.args)(q) by {
                assert(old(self).argument_of(q) == (w.args)(q));
            }
            assert forall|q: Seq<char>| #[trigger] self.phase_of(q) == (target.phases)(q) by {
                assert(old(self).phase_of(q) == (w.phases)(q));
            }
        }
    }

    /// Hands out the summary events held back, in order, and forgets them.
    pub fn take_pending(&mut self) -> (taken: Vec<PendingSummary>)
        ensures
            pendings_view(taken@) == old(self).pending(),
            final(self).holds(AgentView { pending: Seq::empty(), ..old(self).view_of() }),
    {
        let mut taken: Vec<PendingSummary> = Vec::new();
        std::mem::swap(&mut taken, &mut self.pending);
        assert(self.pending() =~= Seq::<PendingView>::empty());
        taken
    }

    fn decode_text(&self, event: &StreamEvent, Ghost(w): Ghost<AgentView>) -> (r: Option<AgentOutput>)
        requires
            self.holds(w),
        ensures
            opt_output_view(r) == text_spec(w, *event),
    {
        match &event.delta {
            Some(delta) => {
                if delta.as_str().unicode_len() == 0 {
                    return None;
                }
                let own = match &event.phase {
                    Some(p) => assistant_text_phase(p.as_str()),
                    None => None,
                };
                let phase = match own {
                    Some(p) => Some(p),
                    None => match &event.item_id {
                        Some(id) => self.phase_for(Some(id.as_str())),
                        None => None,
                    },
                };
                match phase {
                    Some(phase) => Some(AgentOutput::TextWithPhase { delta: delta.clone(), phase }),
                    None => Some(AgentOutput::Text(delta.clone())),
                }
            },
            None => None,
        }
    }

    fn decode_part(&mut self, event: &StreamEvent, Ghost(w): Ghost<AgentView>) -> (r: Option<AgentOutput>)
        requires
            old(self).holds(w),
        ensures
            final(self).holds(part_spec(w, *event).0),
            opt_output_view(r) == part_spec(w, *event).1,
    {
        match (&event.item_id, event.summary_index) {
            (Some(id), Some(index)) => {
                let key = summary_key_for(id.as_str(), index);
                let before = self.summary(key.as_str());
                let began = !before.started;
                let completed = before.completed;
                self.set_summary(key.clone(), AgentSummary { text: before.text, started: true, completed }, Ghost(w));
                if began {
                    Some(AgentOutput::ReasoningSummaryStarted { key, title: owned(THINKING) })
                } else {
                    None
                }
            },
            _ => None,
        }
    }

    fn decode_delta(&mut self, event: &StreamEvent, Ghost(w): Ghost<AgentView>) -> (r: Option<AgentOutput>)
        requires
            old(self).holds(w),
        ensures
            final(self).holds(delta_spec(w, *event).0),
            opt_output_view(r) == delta_spec(w, *event).1,
    {
        match (&event.item_id, event.summary_index, &event.delta) {
            (Some(id), Some(index), Some(delta)) => {
                if delta.as_str().unicode_len() == 0 {
                    return None;
                }
                let key = summary_key_for(id.as_str(), index);
                let before = self.summary(key.as_str());
                let ghost w1 = if before.started { w } else { AgentView { pending: w.pending.push(PendingView::Started(key@)), ..w } };
                if !before.started {
                    self.push_pending(PendingSummary::Started(key.clone()), Ghost(w));
                }
                let mut text = before.text;
                append_str(&mut text, delta.as_str());
                self.set_summary(key.clone(), AgentSummary { text, started: true, completed: before.completed }, Ghost(w1));
                Some(AgentOutput::ReasoningSummaryDelta { key, delta: delta.clone() })
            },
            _ => None,
        }
    }

    fn decode_done(&mut self, event: &StreamEvent, Ghost(w): Ghost<AgentView>) -> (r: Option<AgentOutput>)
        requires
            old(self).holds(w),
        ensures
            final(self).holds(done_spec(w, *event).0),
            opt_output_view(r) == done_spec(w, *event).1,
    {
        match (&event.item_id, event.summary_index) {
            (Some(id), Some(index)) => {
                let key = summary_key_for(id.as_str(), index);
                let before = self.summary(key.as_str());
                if before.completed {
                    return None;
                }
                let text = match &event.text {
                    Some(t) => if t.as_str().unicode_len() > 0 { t.clone() } else { before.text },
                    None => before.text,
                };
                let ghost w1 = if before.started { w } else { AgentView { pending: w.pending.push(PendingView::Started(key@)), ..w } };
                if !before.started {
                    self.push_pending(PendingSummary::Started(key.clone()), Ghost(w));
                }
                self.set_summary(key.clone(), AgentSummary { text: text.clone(), started: true, completed: true }, Ghost(w1));
                Some(AgentOutput::ReasoningSummaryCompleted { key, text })
            },
            _ => None,
        }
    }

    fn queue_reasoning_fallback(&mut self, output: &Vec<OutputItem>, Ghost(w): Ghost<AgentView>)
        requires
            old(self).holds(w),
        ensures
            final(self).holds(fallback_step(w, summary_parts_spec(output@))),
    {
        let parts = reasoning_summary_parts(output);
        let ghost refs = summary_refs_view(parts@);
        let mut i: usize = 0;
        assert(refs.take(0) =~= Seq::<SummaryRef>::empty());
        while i < parts.len()
            invariant
                i <= parts@.len(),
                refs == summary_refs_view(parts@),
                refs == summary_parts_spec(output@),
                self.holds(fallback_step(w, refs.take(i as int))),
            decreases parts.len() - i,
        {
            let ghost v1 = fallback_step(w, refs.take(i as int));
            proof {
                assert(refs.take(i + 1).drop_last() =~= refs.take(i as int));
                assert(refs.take(i + 1).last() == refs[i as int]);
            }
            let key = summary_key_for(parts[i].0.as_str(), parts[i].1);
            let before = self.summary(key.as_str());
            if !before.completed {
                let ghost w1 = if before.started { v1 } else { AgentView { pending: v1.pending.push(PendingView::Started(key@)), ..v1 } };
                if !before.started {
                    self.push_pending(PendingSummary::Started(key.clone()), Ghost(v1));
                }
                let text = parts[i].2.clone();
                self.set_summary(key.clone(), AgentSummary { text: text.clone(), started: true, completed: true }, Ghost(w1));
                let ghost w2 = AgentView { summaries: with_summary(w1.summaries, key@, summary_view(Some(AgentSummary { text: text, started: true, completed: true }))), ..w1 };
                self.push_pending(PendingSummary::Completed(key, text), Ghost(w2));
            }
            i += 1;
        }
        assert(refs.take(parts@.len() as int) =~= refs);
    }

    fn has_id_key(output: &Vec<OutputItem>, key: &str) -> (b: bool)
        ensures
            b == duplicated(items_view(output@), key@),
    {
        let mut j: usize = 0;
        while j < output.len()
            invariant
                j <= output@.len(),
                forall|k: int| 0 <= k < j ==> #[trigger] id_key(items_view(output@)[k]) != Some(key@),
            decreases output.len() - j,
        {
            let candidate = item_key(&output[j], None);
            proof {
                assert(items_view(output@)[j as int] == item_view(output@[j as int]));
            }
            match candidate {
                Some(c) => {
                    if str_is(c.as_str(), key) {
                        proof {
                            assert(id_key(items_view(output@)[j as int]) == Some(key@));
                        }
                        return true;
                    }
                },
                None => {},
            }
            j += 1;
        }
        false
    }

    /// The output of an agent step from its final response and the captured items.
    pub fn response_output(&self, response: &ResponsePayload) -> (output: Vec<OutputItem>)
        ensures
            items_view(output@) == response_output_spec(self.items(), items_view(response.output@)),
    {
        let mut output: Vec<OutputItem> = Vec::new();
        let ghost response_view = items_view(response.output@);
        if response.output.len() == 0 {
            let mut i: usize = 0;
            while i < self.output_items.len()
                invariant
                    i <= self.output_items@.len(),
                    self.items().len() == self.output_items@.len(),
                    items_view(output@) == self.items().take(i as int).map_values(|e: (Seq<char>, ItemView)| e.1),
                decreases self.output_items.len() - i,
            {
                let c = clone_item(&self.output_items[i].item);
                let ghost prev = output@;
                output.push(c);
                assert(items_view(output@) =~= items_view(prev).push(item_view(c)));
                assert(self.items()[i as int].1 == item_view(c));
                assert(items_view(output@) =~= self.items().take(i + 1).map_values(|e: (Seq<char>, ItemView)| e.1));
                i += 1;
            }
            assert(self.items().take(i as int) =~= self.items());
            return output;
        }
        let mut i: usize = 0;
        while i < response.output.len()
            invariant
                i <= response.output@.len(),
                items_view(output@) == response_view.take(i as int),
                response_view == items_view(response.output@),
            decreases response.output.len() - i,
        {
            let c = clone_item(&response.output[i]);
            let ghost prev = output@;
            output.push(c);
            assert(items_view(output@) =~= items_view(prev).push(item_view(c)));
            assert(response_view[i as int] == item_view(c));
            assert(items_view(output@) =~= response_view.take(i + 1));
            i += 1;
        }
        assert(response_view.take(i as int) =~= response_view);
        let mut k: usize = 0;
        assert(self.items().take(0) =~= Seq::<(Seq<char>, ItemView)>::empty());
        while k < self.output_items.len()
            invariant
                k <= self.output_items@.len(),
                self.items().len() == self.output_items@.len(),
                response_view == items_view(response.output@),
                items_view(output@) == response_view + extra_items(self.items().take(k as int), response_view),
            decreases self.output_items.len() - k,
        {
            proof {
                assert(self.items().take(k + 1).drop_last() =~= self.items().take(k as int));
                assert(self.items().take(k + 1).last() == self.items()[k as int]);
            }
            let dup = Self::has_id_key(&response.output, self.output_items[k].key.as_str());
            let ghost before = output@;
            if !dup {
                let c = clone_item(&self.output_items[k].item);
                output.push(c);
                assert(items_view(output@) =~= items_view(before).push(item_view(c)));
                assert(self.items()[k as int].1 == item_view(c));
            }
            assert(items_view(output@) =~= response_view + extra_items(self.items().take(k + 1), response_view));
            k += 1;
        }
        assert(self.items().take(k as int) =~= self.items());
        output
    }

    fn decode_completion(&mut self, event: &StreamEvent, model: &str, effort: EffortLevel, Ghost(w): Ghost<AgentView>)
        -> (r: Result<Option<AgentOutput>, ProviderError>)
        requires
            old(self).holds(w),
        ensures
            final(self).holds(completion_spec(w, *event, model@, effort).0),
            agent_result_is(r, completion_spec(w, *event, model@, effort).1),
    {
        match &event.response {
            None => Err(protocol_error("agent completion did not contain a response payload")),
            Some(response) => {
                let output = self.response_output(response);
                proof {
                    lemma_view_summary_parts(output@);
                }
                let input = clone_strings(&self.input_items);
                self.queue_reasoning_fallback(&output, Ghost(w));
                match function_calls(&output) {
                    Err(e) => Err(e),
                    Ok(calls) => {
                        if calls.len() == 0 {
                            Ok(Some(AgentOutput::Completed(GenerationOutcome {
                                finish_reason: parse_finish_reason(response),
                                usage: usage(response),
                            })))
                        } else {
                            Ok(Some(AgentOutput::AgentTools {
                                calls,
                                continuation: AgentContinuation {
                                    provider: owned(OPENAI),
                                    model: owned(model),
                                    effort,
                                    input,
                                    output,
                                },
                            }))
                        }
                    },
                }
            },
        }
    }

    /// Feeds one decoded event of an agent step and returns what it contributes.
    pub fn decode_agent_event(&mut self, event: &StreamEvent, model: &str, effort: EffortLevel)
        -> (r: Result<Option<AgentOutput>, ProviderError>)
        ensures
            final(self).holds(agent_event_spec(old(self).view_of(), *event, model@, effort).0),
            agent_result_is(r, agent_event_spec(old(self).view_of(), *event, model@, effort).1),
    {
        let ghost v = self.view_of();
        self.observe(event);
        let ghost o = observed(v, *event);
        assert(self.holds(o));
        let kind = event.kind.as_str();
        if str_is(kind, "response.output_text.delta") || str_is(kind, "response.refusal.delta") {
            Ok(self.decode_text(event, Ghost(o)))
        } else if str_is(kind, "response.reasoning_summary_part.added") {
            Ok(self.decode_part(event, Ghost(o)))
        } else if str_is(kind, "response.reasoning_summary_text.delta") {
            Ok(self.decode_delta(event, Ghost(o)))
        } else if str_is(kind, "response.reasoning_summary_text.done") {
            Ok(self.decode_done(event, Ghost(o)))
        } else if str_is(kind, "response.completed") || str_is(kind, "response.done") || str_is(kind, "response.incomplete") {
            self.decode_completion(event, model, effort, Ghost(o))
        } else if str_is(kind, "response.failed") || str_is(kind, "error") || str_is(kind, "response.error") {
            Err(agent_stream_error(event))
        } else {
            Ok(None)
        }
    }
}

/// The provider error that a failure event reports.
pub fn agent_stream_error(event: &StreamEvent) -> (e: ProviderError)
    ensures
        agent_error_is(e, ErrorView::StreamFailed(stream_error_detail(*event))),
{
    let detail = match &event.error {
        Some(error) => response_error_detail(error),
        None => match &event.response {
            Some(response) => match &response.error {
                Some(error) => response_error_detail(error),
                None => owned(UNSPECIFIED_ERROR),
            },
            None => owned(UNSPECIFIED_ERROR),
        },
    };
    provider_error(ProviderErrorKind::Protocol, &OpenAiProviderError::StreamFailed(detail))
}

// ----- provider events -----

/// One event of an agent step, as the application receives it.
#[derive(Debug, PartialEq, Eq)]
pub enum AgentProviderEvent {
    Started,
    TextDelta(String),
    TextDeltaWithPhase { delta: String, phase: AssistantTextPhase },
    ReasoningSummaryStarted { key: String, title: String },
    ReasoningSummaryDelta { key: String, delta: String },
    ReasoningSummaryCompleted { key: String, text: String },
    ToolCall { call: AgentToolCall, continuation: AgentContinuation },
    Completed(GenerationOutcome),
}

pub enum EventView {
    Started,
    TextDelta(Seq<char>),
    TextDeltaWithPhase(Seq<char>, AssistantTextPhase),
    SummaryStarted(Seq<char>, Seq<char>),
    SummaryDelta(Seq<char>, Seq<char>),
    SummaryCompleted(Seq<char>, Seq<char>),
    ToolCall(CallView, ContinuationView),
    Completed(FinishView, Option<TokenUsage>),
}

pub open spec fn event_view(e: AgentProviderEvent) -> EventView {
    match e {
        AgentProviderEvent::Started => EventView::Started,
        AgentProviderEvent::TextDelta(t) => EventView::TextDelta(t@),
        AgentProviderEvent::TextDeltaWithPhase { delta, phase } => EventView::TextDeltaWithPhase(delta@, phase),
        AgentProviderEvent::ReasoningSummaryStarted { key, title } => EventView::SummaryStarted(key@, title@),
        AgentProviderEvent::ReasoningSummaryDelta { key, delta } => EventView::SummaryDelta(key@, delta@),
        AgentProviderEvent::ReasoningSummaryCompleted { key, text } => EventView::SummaryCompleted(key@, text@),
        AgentProviderEvent::ToolCall { call, continuation } => EventView::ToolCall(call_view(call), continuation_view(continuation)),
        AgentProviderEvent::Completed(outcome) => EventView::Completed(finish_view(outcome.finish_reason), outcome.usage),
    }
}

pub open spec fn events_view(v: Seq<AgentProviderEvent>) -> Seq<EventView> {
    v.map_values(|e: AgentProviderEvent| event_view(e))
}

/// The events of held-back summary events.
pub open spec fn pending_events(p: Seq<PendingView>) -> Seq<EventView> {
    p.map_values(|x: PendingView| match x {
        PendingView::Started(key) => EventView::SummaryStarted(key, THINKING@),
        PendingView::Completed(key, text) => EventView::SummaryCompleted(key, text),
    })
}

/// The events of one output: one tool call event per call, all with the same
/// continuation.
pub open spec fn output_events(o: AgentOutputView) -> Seq<EventView> {
    match o {
        AgentOutputView::Text(t) => seq![EventView::TextDelta(t)],
        AgentOutputView::TextWithPhase(t, p) => seq![EventView::TextDeltaWithPhase(t, p)],
        AgentOutputView::SummaryStarted(k, t) => seq![EventView::SummaryStarted(k, t)],
        AgentOutputView::SummaryDelta(k, d) => seq![EventView::SummaryDelta(k, d)],
        AgentOutputView::SummaryCompleted(k, t) => seq![EventView::SummaryCompleted(k, t)],
        AgentOutputView::AgentTools(calls, c) => calls.map_values(|call: CallView| EventView::ToolCall(call, c)),
        AgentOutputView::Completed(f, u) => seq![EventView::Completed(f, u)],
    }
}

/// Whether an output ends the agent step.
pub open spec fn is_terminal(o: Option<AgentOutputView>) -> bool {
    o matches Some(v) && (v is AgentTools || v is Completed)
}

fn clone_continuation(c: &AgentContinuation) -> (d: AgentContinuation)
    ensures
        continuation_view(d) == continuation_view(*c),
{
    let mut output: Vec<OutputItem> = Vec::new();
    let mut i: usize = 0;
    while i < c.output.len()
        invariant
            i <= c.output@.len(),
            items_view(output@) == items_view(c.output@).take(i as int),
        decreases c.output.len() - i,
    {
        let item = clone_item(&c.output[i]);
        let ghost prev = output@;
        output.push(item);
        assert(items_view(output@) =~= items_view(prev).push(item_view(item)));
        assert(items_view(output@) =~= items_view(c.output@).take(i + 1));
        i += 1;
    }
    assert(items_view(c.output@).take(c.output@.len() as int) =~= items_view(c.output@));
    AgentContinuation {
        provider: c.provider.clone(),
        model: c.model.clone(),
        effort: c.effort,
        input: clone_strings(&c.input),
        output,
    }
}

/// The events that the held-back summary events and one output become, in order, and
/// whether the output ends the step.
pub fn agent_provider_events(state: &mut AgentStreamState, output: Option<AgentOutput>) -> (r: (Vec<AgentProviderEvent>, bool))
    ensures
        events_view(r.0@) == pending_events(old(state).pending()) + match opt_output_view(output) {
            Some(o) => output_events(o),
            None => Seq::empty(),
        },
        r.1 == is_terminal(opt_output_view(output)),
        final(state).holds(AgentView { pending: Seq::empty(), ..old(state).view_of() }),
{
    let pending = state.take_pending();
    let mut events: Vec<AgentProviderEvent> = Vec::new();
    let mut i: usize = 0;
    while i < pending.len()
        invariant
            i <= pending@.len(),
            events_view(events@) == pending_events(pendings_view(pending@).take(i as int)),
        decreases pending.len() - i,
    {
        let event = match &pending[i] {
            PendingSummary::Started(key) => AgentProviderEvent::ReasoningSummaryStarted { key: key.clone(), title: owned(THINKING) },
            PendingSummary::Completed(key, text) => AgentProviderEvent::ReasoningSummaryCompleted { key: key.clone(), text: text.clone() },
        };
        let ghost prev = events@;
        events.push(event);
        proof {
            assert(events_view(events@) =~= events_view(prev).push(event_view(event)));
            assert(pendings_view(pending@).take(i + 1) =~= pendings_view(pending@).take(i as int).push(pending_view(pending@[i as int])));
            assert(pending_events(pendings_view(pending@).take(i + 1)) =~= pending_events(pendings_view(pending@).take(i as int)).push(event_view(event)));
        }
        i += 1;
    }
    assert(pendings_view(pending@).take(pending@.len() as int) =~= pendings_view(pending@));
    let ghost before = events@;
    let mut terminal = false;
    match output {
        Some(AgentOutput::Text(delta)) => events.push(AgentProviderEvent::TextDelta(delta)),
        Some(AgentOutput::TextWithPhase { delta, phase }) => events.push(AgentProviderEvent::TextDeltaWithPhase { delta, phase }),
        Some(AgentOutput::ReasoningSummaryStarted { key, title }) => events.push(AgentProviderEvent::ReasoningSummaryStarted { key, title }),
        Some(AgentOutput::ReasoningSummaryDelta { key, delta }) => events.push(AgentProviderEvent::ReasoningSummaryDelta { key, delta }),
        Some(AgentOutput::ReasoningSummaryCompleted { key, text }) => events.push(AgentProviderEvent::ReasoningSummaryCompleted { key, text }),
        Some(AgentOutput::AgentTools { calls, continuation }) => {
            terminal = true;
            let ghost cv = continuation_view(continuation);
            let ghost calls_v = calls_view(calls@);
            let mut rest = calls;
            let mut k: usize = 0;
            let ghost all = rest@;
            assert(all.len() == rest.len());
            while rest.len() > 0
                invariant
                    k <= all.len(),
                    all.len() <= usize::MAX,
                    rest@ == all.skip(k as int),
                    calls_v == calls_view(all),
                    continuation_view(continuation) == cv,
                    events_view(events@) == events_view(before) + calls_v.take(k as int).map_values(|call: CallView| EventView::ToolCall(call, cv)),
                decreases rest.len(),
            {
                let call = rest.remove(0);
                let c = clone_continuation(&continuation);
                let ghost prev = events@;
                let event = AgentProviderEvent::ToolCall { call, continuation: c };
                events.push(event);
                proof {
                    assert(all.skip(k as int)[0] == all[k as int]);
                    assert(events_view(events@) =~= events_view(prev).push(event_view(event)));
                    assert(calls_v.take(k + 1) =~= calls_v.take(k as int).push(calls_v[k as int]));
                    assert(events_view(events@) =~= events_view(before) + calls_v.take(k + 1).map_values(|call: CallView| EventView::ToolCall(call, cv)));
                    assert(rest@ =~= all.skip(k + 1));
                }
                k += 1;
            }
            assert(all.skip(k as int).len() == 0);
            assert(calls_v.take(k as int) =~= calls_v);
        },
        Some(AgentOutput::Completed(outcome)) => {
            terminal = true;
            events.push(AgentProviderEvent::Completed(outcome));
        },
        None => {},
    }
    assert(events_view(events@) =~= pending_events(old(state).pending()) + match opt_output_view(output) {
        Some(o) => output_events(o),
        None => Seq::<EventView>::empty(),
    });
    (events, terminal)
}

/// A stream that ends before its step did is incomplete.
pub fn ensure_step_finished(terminal: bool) -> (r: Result<(), ProviderError>)
    ensures
        terminal ==> r is Ok,
        !terminal ==> (r matches Err(e) && e.kind == ProviderErrorKind::Protocol && e.provider@ == OPENAI@
            && e.message@ == describe_spec(OpenAiProviderError::IncompleteStream)),
{
    if terminal {
        Ok(())
    } else {
        Err(provider_error(ProviderErrorKind::Protocol, &OpenAiProviderError::IncompleteStream))
    }
}

/// A reasoning summary is completed at most once: once a `done` event completed it,
/// the same event again yields nothing and changes nothing.
pub proof fn lemma_summary_completes_once(v: AgentView, event: StreamEvent)
    requires
        summary_key_spec(event) is Some,
    ensures
        done_spec(done_spec(v, event).0, event).1 is None,
{
}

/// Argument deltas of one function call are joined in the order they arrive.
pub proof fn lemma_argument_deltas_join(
    args: spec_fn(Seq<char>) -> Option<Seq<char>>,
    first: StreamEvent,
    second: StreamEvent,
)
    requires
        first.kind@ == "response.function_call_arguments.delta"@,
        second.kind@ == "response.function_call_arguments.delta"@,
        first.delta is Some,
        second.delta is Some,
        event_key_spec(first) == event_key_spec(second),
    ensures
        arguments_after(arguments_after(args, first), second)(event_key_spec(first)) == Some(
            match args(event_key_spec(first)) { Some(a) => a, None => Seq::<char>::empty() }
                + first.delta->0@ + second.delta->0@,
        ),
{
    let key = event_key_spec(first);
    let before = match args(key) { Some(a) => a, None => Seq::<char>::empty() };
    assert(arguments_after(args, first)(key) == Some(before + first.delta->0@));
    assert(before + first.delta->0@ + second.delta->0@ =~= (before + first.delta->0@) + second.delta->0@);
}

/// The text an agent output carries, where it is a text output.
pub open spec fn agent_text_carried(o: AgentOutputView) -> Option<Seq<char>> {
    match o {
        AgentOutputView::Text(d) => Some(d),
        AgentOutputView::TextWithPhase(d, _) => Some(d),
        _ => None,
    }
}

/// In an agent step a refusal is text: a refusal delta that is not empty yields a text
/// output carrying exactly that delta, with the phase the event names where it names a
/// known one, as plain text where it names none and its item has no recorded phase;
/// and it yields exactly what an output text delta with the same delta, phase and item
/// yields.
pub proof fn lemma_agent_refusal_is_text(
    v: AgentView,
    refusal: StreamEvent,
    text: StreamEvent,
    model: Seq<char>,
    effort: EffortLevel,
)
    requires
        refusal.kind@ == "response.refusal.delta"@,
        refusal.delta matches Some(d) && d@.len() > 0,
        text.kind@ == "response.output_text.delta"@,
        text.delta == refusal.delta,
        text.phase == refusal.phase,
        text.item_id == refusal.item_id,
        observed(v, text).phases == observed(v, refusal).phases,
    ensures
        agent_event_spec(v, refusal, model, effort).1 matches Ok(Some(o)) && agent_text_carried(o) == Some(
            refusal.delta->0@,
        ),
        named_phase(refusal.phase) matches Some(phase) ==> agent_event_spec(
            v,
            refusal,
            model,
            effort,
        ).1 == Ok::<Option<AgentOutputView>, ErrorView>(Some(AgentOutputView::TextWithPhase(refusal.delta->0@, phase))),
        (refusal.phase is None && refusal.item_id is None) ==> agent_event_spec(v, refusal, model, effort).1
            == Ok::<Option<AgentOutputView>, ErrorView>(Some(AgentOutputView::Text(refusal.delta->0@))),
        agent_event_spec(v, refusal, model, effort).1 == agent_event_spec(v, text, model, effort).1,
{
}

} // verus!
