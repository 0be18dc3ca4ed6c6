//! An agent step's whole event stream: the start, the events of every dispatched
//! server-sent event until the one that ends the step, and how the stream ends.
use vstd::prelude::*;

use super::agent::{
    agent_error_is, agent_event_spec, agent_provider_events, ensure_step_finished, events_view, is_terminal,
    opt_output_view, output_events, pending_events, summary_view, AgentOutputView, AgentProviderEvent,
    AgentStreamState, AgentView, EventView, SummaryView,
};
use super::chat::{describe_spec, provider_error, ErrorView, OpenAiProviderError};
use super::wire::StreamEvent;
use crate::domain::{AssistantTextPhase, EffortLevel, ProviderError, ProviderErrorKind};

verus! {

/// An entry of an agent step's event stream as the contracts see it: an event, or a
/// failure with its kind and message.
pub enum AgentItemView {
    Event(EventView),
    Failure(ProviderErrorKind, Seq<char>),
}

pub open spec fn agent_item_view(r: Result<AgentProviderEvent, ProviderError>) -> AgentItemView {
    match r {
        Ok(e) => AgentItemView::Event(super::agent::event_view(e)),
        Err(e) => AgentItemView::Failure(e.kind, e.message@),
    }
}

pub open spec fn agent_items_view(v: Seq<Result<AgentProviderEvent, ProviderError>>) -> Seq<AgentItemView> {
    v.map_values(|r: Result<AgentProviderEvent, ProviderError>| agent_item_view(r))
}

pub open spec fn as_items(events: Seq<EventView>) -> Seq<AgentItemView> {
    events.map_values(|e: EventView| AgentItemView::Event(e))
}

/// The failure for a decoding failure or a failed step.
pub open spec fn agent_failure(error: ErrorView) -> AgentItemView {
    AgentItemView::Failure(
        ProviderErrorKind::Protocol,
        match error {
            ErrorView::Protocol(m) => "OpenAI returned malformed streaming data: "@ + m,
            ErrorView::StreamFailed(m) => "OpenAI rejected the stream: "@ + m,
        },
    )
}

/// The failure for a stream that ended before its step did.
pub open spec fn incomplete_step() -> AgentItemView {
    AgentItemView::Failure(ProviderErrorKind::Protocol, describe_spec(OpenAiProviderError::IncompleteStream))
}

/// The decoder state with its held-back summary events handed out.
pub open spec fn flushed(v: AgentView) -> AgentView {
    AgentView { pending: Seq::empty(), ..v }
}

/// The events that the held-back summary events and an output become.
pub open spec fn step_events(v: AgentView, out: Option<AgentOutputView>) -> Seq<EventView> {
    pending_events(v.pending) + match out {
        Some(o) => output_events(o),
        None => Seq::empty(),
    }
}

/// The entries that the dispatched events give, fed one after another from a decoder
/// state: the entries, the state after them, whether an output ended the step, and
/// whether they end in a failure. Held-back summary events go out with the next output;
/// the events after the output that ends the step are not read.
pub open spec fn agent_dispatched(
    v: AgentView,
    decoded: Seq<Result<StreamEvent, String>>,
    model: Seq<char>,
    effort: EffortLevel,
) -> (Seq<AgentItemView>, AgentView, bool, bool)
    decreases decoded.len(),
{
    if decoded.len() == 0 {
        (Seq::empty(), v, false, false)
    } else {
        match decoded[0] {
            Err(m) => (
                seq![AgentItemView::Failure(ProviderErrorKind::Protocol, describe_spec(OpenAiProviderError::Protocol(m)))],
                v,
                false,
                true,
            ),
            Ok(event) => {
                let (v2, r) = agent_event_spec(v, event, model, effort);
                match r {
                    Err(error) => (seq![agent_failure(error)], v2, false, true),
                    Ok(None) => agent_dispatched(v2, decoded.drop_first(), model, effort),
                    Ok(Some(o)) => {
                        let head = as_items(step_events(v2, Some(o)));
                        if is_terminal(Some(o)) {
                            (head, flushed(v2), true, false)
                        } else {
                            let rest = agent_dispatched(flushed(v2), decoded.drop_first(), model, effort);
                            (head + rest.0, rest.1, rest.2, rest.3)
                        }
                    },
                }
            },
        }
    }
}

/// The decoder state of a step whose request had the given input items.
pub open spec fn fresh_agent_view(input: Seq<Seq<char>>) -> AgentView {
    AgentView {
        input,
        items: Seq::empty(),
        args: |q: Seq<char>| None::<Seq<char>>,
        phases: |q: Seq<char>| None::<AssistantTextPhase>,
        summaries: |q: Seq<char>| summary_view(None),
        pending: Seq::empty(),
    }
}

/// An agent step's event stream: the start; the entries of the events dispatched while
/// the body was read, up to the output that ends the step; then, unless the step ended
/// or those entries ended in a failure, the failure to read the body where reading
/// failed, or else the entries of the event the decoder held at the end of the body
/// (the held-back summary events at least), and the refusal of a stream that ended
/// before its step did.
pub open spec fn agent_stream_spec(
    input: Seq<Seq<char>>,
    decoded: Seq<Result<StreamEvent, String>>,
    last: Option<Result<StreamEvent, String>>,
    read_failure: Option<String>,
    model: Seq<char>,
    effort: EffortLevel,
) -> Seq<AgentItemView> {
    let run = agent_dispatched(fresh_agent_view(input), decoded, model, effort);
    let ending = if run.2 || run.3 {
        Seq::empty()
    } else {
        match read_failure {
            Some(m) => seq![AgentItemView::Failure(ProviderErrorKind::Transport, describe_spec(OpenAiProviderError::Transport(m)))],
            None => match last {
                None => as_items(step_events(run.1, None)).push(incomplete_step()),
                Some(Err(m)) => seq![AgentItemView::Failure(ProviderErrorKind::Protocol, describe_spec(OpenAiProviderError::Protocol(m)))],
                Some(Ok(event)) => {
                    let (v2, r) = agent_event_spec(run.1, event, model, effort);
                    match r {
                        Err(error) => seq![agent_failure(error)],
                        Ok(out) => if is_terminal(out) {
                            as_items(step_events(v2, out))
                        } else {
                            as_items(step_events(v2, out)).push(incomplete_step())
                        },
                    }
                },
            },
        }
    };
    seq![AgentItemView::Event(EventView::Started)] + run.0 + ending
}

proof fn lemma_holds_view(state: AgentStreamState, v: AgentView)
    requires
        state.holds(v),
    ensures
        state.view_of() == v,
{
    assert(state.view_of().args =~= v.args);
    assert(state.view_of().phases =~= v.phases);
    assert(state.view_of().summaries =~= v.summaries);
}

fn push_failure(items: &mut Vec<Result<AgentProviderEvent, ProviderError>>, error: ProviderError)
    ensures
        agent_items_view(final(items)@) == agent_items_view(old(items)@).push(agent_item_view(Err(error))),
{
    let ghost before = items@;
    items.push(Err(error));
    assert(agent_items_view(items@) =~= agent_items_view(before).push(agent_item_view(Err(error))));
}

fn push_events(items: &mut Vec<Result<AgentProviderEvent, ProviderError>>, events: Vec<AgentProviderEvent>)
    ensures
        agent_items_view(final(items)@) == agent_items_view(old(items)@) + as_items(events_view(events@)),
{
    let ghost start = agent_items_view(items@);
    let ghost all = events_view(events@);
    let n = events.len();
    let mut rest = events;
    let mut k: usize = 0;
    while k < n
        invariant
            n == all.len(),
            k <= n,
            rest@.len() == n - k,
            events_view(rest@) == all.skip(k as int),
            agent_items_view(items@) == start + as_items(all.take(k as int)),
        decreases n - k,
    {
        let ghost rest_before = rest@;
        let event = rest.remove(0);
        proof {
            assert(events_view(rest_before)[0] == all[k as int]);
            assert(events_view(rest@) =~= events_view(rest_before).drop_first());
            assert(events_view(rest@) =~= all.skip(k + 1));
        }
        let ghost before = items@;
        items.push(Ok(event));
        proof {
            assert(all.take(k + 1) =~= all.take(k as int).push(all[k as int]));
            assert(as_items(all.take(k + 1)) =~= as_items(all.take(k as int)).push(AgentItemView::Event(all[k as int])));
            assert(agent_items_view(items@) =~= agent_items_view(before).push(agent_item_view(Ok(event))));
        }
        k += 1;
    }
    assert(all.take(n as int) =~= all);
}

fn protocol_failure(message: &String) -> (e: ProviderError)
    ensures
        agent_item_view(Err(e)) == AgentItemView::Failure(
            ProviderErrorKind::Protocol,
            describe_spec(OpenAiProviderError::Protocol(*message)),
        ),
{
    provider_error(ProviderErrorKind::Protocol, &OpenAiProviderError::Protocol(message.clone()))
}

/// Runs an agent step's event stream for a request with the given input items: over
/// the server-sent events dispatched while the body was read, each decoded from its
/// data or refused with the decoder's message; the event the decoder held at the end of
/// the body; and the failure to read the body, where reading failed after the
/// dispatched events. Gives the events and the failure that ends the stream, if any.
pub fn agent_stream(
    input: Vec<String>,
    decoded: &Vec<Result<StreamEvent, String>>,
    last: Option<Result<StreamEvent, String>>,
    read_failure: Option<String>,
    model: &str,
    effort: EffortLevel,
) -> (items: Vec<Result<AgentProviderEvent, ProviderError>>)
    ensures
        agent_items_view(items@) == agent_stream_spec(input.deep_view(), decoded@, last, read_failure, model@, effort),
{
    let ghost input_view = input.deep_view();
    let ghost start = fresh_agent_view(input_view);
    let ghost whole = agent_dispatched(start, decoded@, model@, effort);
    let mut items: Vec<Result<AgentProviderEvent, ProviderError>> = Vec::new();
    items.push(Ok(AgentProviderEvent::Started));
    let mut state = AgentStreamState::with_input(input);
    let ghost mut v = start;
    let mut i: usize = 0;
    proof {
        assert(state.items() =~= v.items);
        assert(state.pending() =~= v.pending);
        assert(decoded@.skip(0) =~= decoded@);
        assert(agent_items_view(items@) =~= seq![AgentItemView::Event(EventView::Started)]);
    }
    while i < decoded.len()
        invariant
            i <= decoded@.len(),
            start == fresh_agent_view(input_view),
            input_view == input.deep_view(),
            whole == agent_dispatched(start, decoded@, model@, effort),
            state.holds(v),
            ({
                let rest = agent_dispatched(v, decoded@.skip(i as int), model@, effort);
                &&& seq![AgentItemView::Event(EventView::Started)] + whole.0 == agent_items_view(items@) + rest.0
                &&& whole.1 == rest.1
                &&& whole.2 == rest.2
                &&& whole.3 == rest.3
            }),
        decreases decoded.len() - i,
    {
        let ghost tail = decoded@.skip(i as int);
        proof {
            assert(tail[0] == decoded@[i as int]);
            assert(tail.drop_first() =~= decoded@.skip(i + 1));
            lemma_holds_view(state, v);
        }
        match &decoded[i] {
            Err(message) => {
                push_failure(&mut items, protocol_failure(message));
                proof {
                    assert(seq![AgentItemView::Event(EventView::Started)] + whole.0 =~= agent_items_view(items@));
                    assert(agent_stream_spec(input_view, decoded@, last, read_failure, model@, effort) =~= agent_items_view(
                        items@,
                    ));
                }
                return items;
            },
            Ok(event) => {
                let ghost step = agent_event_spec(v, *event, model@, effort);
                match state.decode_agent_event(event, model, effort) {
                    Err(error) => {
                        push_failure(&mut items, error);
                        proof {
                            assert(seq![AgentItemView::Event(EventView::Started)] + whole.0 =~= agent_items_view(items@));
                    assert(agent_stream_spec(input_view, decoded@, last, read_failure, model@, effort) =~= agent_items_view(
                        items@,
                    ));
                        }
                        return items;
                    },
                    Ok(None) => {
                        proof {
                            v = step.0;
                        }
                    },
                    Ok(Some(output)) => {
                        proof {
                            lemma_holds_view(state, step.0);
                        }
                        let ghost out = opt_output_view(Some(output));
                        let (events, ends) = agent_provider_events(&mut state, Some(output));
                        let ghost before = agent_items_view(items@);
                        push_events(&mut items, events);
                        if ends {
                            proof {
                                assert(seq![AgentItemView::Event(EventView::Started)] + whole.0 =~= agent_items_view(items@));
                    assert(agent_stream_spec(input_view, decoded@, last, read_failure, model@, effort) =~= agent_items_view(
                        items@,
                    ));
                            }
                            return items;
                        }
                        proof {
                            v = flushed(step.0);
                            let rest = agent_dispatched(v, decoded@.skip(i + 1), model@, effort);
                            assert(agent_items_view(items@) + rest.0 =~= before + (as_items(step_events(step.0, out))
                                + rest.0));
                        }
                    },
                }
            },
        }
        i += 1;
    }
    proof {
        assert(decoded@.skip(i as int).len() == 0);
        assert(agent_items_view(items@) =~= seq![AgentItemView::Event(EventView::Started)] + whole.0);
        lemma_holds_view(state, v);
    }
    match read_failure {
        Some(message) => {
            push_failure(
                &mut items,
                provider_error(ProviderErrorKind::Transport, &OpenAiProviderError::Transport(message)),
            );
        },
        None => match last {
            None => {
                let (events, _) = agent_provider_events(&mut state, None);
                push_events(&mut items, events);
                if let Err(error) = ensure_step_finished(false) {
                    push_failure(&mut items, error);
                }
            },
            Some(Err(message)) => {
                push_failure(&mut items, protocol_failure(&message));
            },
            Some(Ok(event)) => {
                match state.decode_agent_event(&event, model, effort) {
                    Err(error) => {
                        push_failure(&mut items, error);
                    },
                    Ok(out) => {
                        let ghost step = agent_event_spec(v, event, model@, effort);
                        proof {
                            lemma_holds_view(state, step.0);
                        }
                        let (events, ends) = agent_provider_events(&mut state, out);
                        push_events(&mut items, events);
                        if !ends {
                            if let Err(error) = ensure_step_finished(false) {
                                push_failure(&mut items, error);
                            }
                        }
                    },
                }
            },
        },
    }
    proof {
        assert(agent_items_view(items@) =~= agent_stream_spec(
            input_view,
            decoded@,
            last,
            read_failure,
            model@,
            effort,
        ));
    }
    items
}

proof fn lemma_agent_dispatched_shape(
    v: AgentView,
    decoded: Seq<Result<StreamEvent, String>>,
    model: Seq<char>,
    effort: EffortLevel,
)
    ensures
        ({
            let r = agent_dispatched(v, decoded, model, effort);
            &&& forall|i: int| 0 <= i < r.0.len() - 1 ==> #[trigger] r.0[i] is Event
            &&& !r.3 ==> forall|i: int| 0 <= i < r.0.len() ==> #[trigger] r.0[i] is Event
            &&& r.3 ==> !r.2
        }),
    decreases decoded.len(),
{
    if decoded.len() == 0 {
        return;
    }
    match decoded[0] {
        Err(m) => {},
        Ok(event) => {
            let (v2, r) = agent_event_spec(v, event, model, effort);
            match r {
                Err(error) => {},
                Ok(None) => {
                    lemma_agent_dispatched_shape(v2, decoded.drop_first(), model, effort);
                },
                Ok(Some(o)) => {
                    let head = as_items(step_events(v2, Some(o)));
                    if !is_terminal(Some(o)) {
                        lemma_agent_dispatched_shape(flushed(v2), decoded.drop_first(), model, effort);
                        let rest = agent_dispatched(flushed(v2), decoded.drop_first(), model, effort);
                        let items = head + rest.0;
                        assert forall|i: int| 0 <= i < items.len() && (i < items.len() - 1 || !rest.3) implies #[trigger] items[i] is Event by {
                            if i >= head.len() {
                                assert(items[i] == rest.0[i - head.len()]);
                            }
                        }
                    }
                },
            }
        },
    }
}

/// The shape of every agent step's event stream: it opens with the start, and a
/// failure can only be its last entry.
pub proof fn lemma_agent_stream_shape(
    input: Seq<Seq<char>>,
    decoded: Seq<Result<StreamEvent, String>>,
    last: Option<Result<StreamEvent, String>>,
    read_failure: Option<String>,
    model: Seq<char>,
    effort: EffortLevel,
)
    ensures
        ({
            let items = agent_stream_spec(input, decoded, last, read_failure, model, effort);
            &&& items.len() > 0 && items[0] == AgentItemView::Event(EventView::Started)
            &&& forall|i: int| 0 <= i < items.len() - 1 ==> #[trigger] items[i] is Event
        }),
{
    let run = agent_dispatched(fresh_agent_view(input), decoded, model, effort);
    lemma_agent_dispatched_shape(fresh_agent_view(input), decoded, model, effort);
    let items = agent_stream_spec(input, decoded, last, read_failure, model, effort);
    let body = seq![AgentItemView::Event(EventView::Started)] + run.0;
    let ending = items.subrange(body.len() as int, items.len() as int);
    assert(items =~= body + ending);
    let n = run.0.len() as int;
    assert(forall|i: int| 0 <= i < ending.len() - 1 ==> #[trigger] ending[i] is Event);
    assert forall|i: int| 0 <= i < items.len() - 1 implies #[trigger] items[i] is Event by {
        if 1 <= i <= n {
            assert(items[i] == run.0[i - 1]);
        } else if i > n {
            assert(items[i] == ending[i - n - 1]);
        }
    }
}

} // verus!
