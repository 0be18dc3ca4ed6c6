//! A chat generation's whole event stream: the start, the outputs of every dispatched
//! server-sent event in order, and how the stream ends.
use vstd::prelude::*;

use super::chat::{
    ensure_stream_completed, ensure_stream_is_active, error_view_message, event_output_view, events_view,
    flags_at, has_completion, is_completion, is_start_of, lemma_completion_is_last, lemma_summaries_start_first,
    needs_start, observe_spec, outputs_as_events, provider_error, ChatStreamState,
    OpenAiProviderError, OutputView, describe_spec,
};
use super::wire::StreamEvent;
use crate::domain::{AssistantTextPhase, GenerationEvent, ProviderError, ProviderErrorKind};
use crate::openai::chat::SummaryFlags;

verus! {

/// An entry of a generation's event stream as the contracts see it: an event and the
/// output it carries (none for the start), or a failure with its kind and message.
pub enum StreamItemView {
    Event(Option<OutputView>),
    Failure(ProviderErrorKind, Seq<char>),
}

pub open spec fn stream_item_view(r: Result<GenerationEvent, ProviderError>) -> StreamItemView {
    match r {
        Ok(e) => StreamItemView::Event(event_output_view(e)),
        Err(e) => StreamItemView::Failure(e.kind, e.message@),
    }
}

pub open spec fn stream_items_view(v: Seq<Result<GenerationEvent, ProviderError>>) -> Seq<StreamItemView> {
    v.map_values(|r: Result<GenerationEvent, ProviderError>| stream_item_view(r))
}

pub open spec fn output_items(outs: Seq<OutputView>) -> Seq<StreamItemView> {
    outs.map_values(|o: OutputView| StreamItemView::Event(Some(o)))
}

/// Whether an entry is the event that completes the generation.
pub open spec fn completes(item: StreamItemView) -> bool {
    item matches StreamItemView::Event(Some(o)) && is_completion(o)
}

/// The message of the failure for data that arrives after the completion.
pub open spec fn after_completion_message() -> Seq<char> {
    "OpenAI returned malformed streaming data: "@ + "received data after completion"@
}

/// The entries that the dispatched events give, fed one after another from the given
/// tables, with whether the stream has completed before them: the entries, whether it
/// has completed after them, and whether they end in a failure. Data after the
/// completion is refused; an event whose data did not decode, or that the decoder
/// refuses, is a protocol failure.
pub open spec fn dispatched_items(
    p: spec_fn(Seq<char>) -> Option<AssistantTextPhase>,
    s: spec_fn(Seq<char>) -> Option<SummaryFlags>,
    completed: bool,
    decoded: Seq<Result<StreamEvent, String>>,
) -> (Seq<StreamItemView>, bool, bool)
    decreases decoded.len(),
{
    if decoded.len() == 0 {
        (Seq::empty(), completed, false)
    } else if completed {
        (seq![StreamItemView::Failure(ProviderErrorKind::Protocol, after_completion_message())], true, true)
    } else {
        match decoded[0] {
            Err(m) => (
                seq![StreamItemView::Failure(ProviderErrorKind::Protocol, describe_spec(OpenAiProviderError::Protocol(m)))],
                false,
                true,
            ),
            Ok(event) => {
                let (p2, s2, r) = observe_spec(p, s, event);
                match r {
                    Err(v) => (seq![StreamItemView::Failure(ProviderErrorKind::Protocol, error_view_message(v))], false, true),
                    Ok(outs) => {
                        let rest = dispatched_items(p2, s2, has_completion(outs), decoded.drop_first());
                        (output_items(outs) + rest.0, rest.1, rest.2)
                    },
                }
            },
        }
    }
}

pub open spec fn no_phases() -> spec_fn(Seq<char>) -> Option<AssistantTextPhase> {
    |q: Seq<char>| None::<AssistantTextPhase>
}

pub open spec fn no_summaries() -> spec_fn(Seq<char>) -> Option<SummaryFlags> {
    |q: Seq<char>| None::<SummaryFlags>
}

/// A chat generation's event stream: the start; the entries of the dispatched events,
/// each decoded from its data or refused with the decoder's message; then, unless those
/// ended in a failure, the failure to read the body where reading failed, or the
/// refusal of a stream that ended before its completion.
pub open spec fn chat_stream_spec(decoded: Seq<Result<StreamEvent, String>>, read_failure: Option<String>) -> Seq<
    StreamItemView,
> {
    let run = dispatched_items(no_phases(), no_summaries(), false, decoded);
    let ending = if run.2 {
        Seq::empty()
    } else {
        match read_failure {
            Some(m) => seq![StreamItemView::Failure(ProviderErrorKind::Transport, describe_spec(OpenAiProviderError::Transport(m)))],
            None => if run.1 {
                Seq::empty()
            } else {
                seq![StreamItemView::Failure(ProviderErrorKind::IncompleteResponse, describe_spec(OpenAiProviderError::IncompleteStream))]
            },
        }
    };
    seq![StreamItemView::Event(None)] + run.0 + ending
}

fn push_failure(items: &mut Vec<Result<GenerationEvent, ProviderError>>, error: ProviderError)
    ensures
        stream_items_view(final(items)@) == stream_items_view(old(items)@).push(stream_item_view(Err(error))),
{
    let ghost before = items@;
    items.push(Err(error));
    assert(items@ =~= before.push(Err(error)));
    assert(stream_items_view(items@) =~= stream_items_view(before).push(stream_item_view(Err(error))));
}

fn push_events(items: &mut Vec<Result<GenerationEvent, ProviderError>>, events: Vec<GenerationEvent>, Ghost(outs): Ghost<Seq<OutputView>>)
    requires
        events_view(events@) == outputs_as_events(outs),
    ensures
        stream_items_view(final(items)@) == stream_items_view(old(items)@) + output_items(outs),
{
    let ghost start = stream_items_view(items@);
    let ghost all = events@;
    let n = events.len();
    let mut rest = events;
    let mut k: usize = 0;
    assert(events_view(all).len() == outs.len());
    while k < n
        invariant
            n == all.len(),
            n == outs.len(),
            k <= n,
            rest@ == all.skip(k as int),
            events_view(all) == outputs_as_events(outs),
            stream_items_view(items@) == start + output_items(outs.take(k as int)),
        decreases n - k,
    {
        let event = rest.remove(0);
        assert(event == all[k as int]);
        assert(rest@ =~= all.skip(k + 1));
        assert(events_view(all)[k as int] == outputs_as_events(outs)[k as int]);
        let ghost before = items@;
        items.push(Ok(event));
        proof {
            assert(items@ =~= before.push(Ok(event)));
            assert(outs.take(k + 1) =~= outs.take(k as int).push(outs[k as int]));
            assert(output_items(outs.take(k + 1)) =~= output_items(outs.take(k as int)).push(
                StreamItemView::Event(Some(outs[k as int])),
            ));
            assert(stream_items_view(items@) =~= stream_items_view(before).push(stream_item_view(Ok(event))));
        }
        k += 1;
    }
    assert(outs.take(n as int) =~= outs);
}

/// Runs a chat generation's event stream over the dispatched server-sent events, each
/// decoded from its data or refused with the decoder's message, and the failure to read
/// the body, where reading failed after them. Gives the events and the failure that
/// ends the stream, if any, in order.
pub fn chat_stream(decoded: &Vec<Result<StreamEvent, String>>, read_failure: Option<String>) -> (items: Vec<
    Result<GenerationEvent, ProviderError>,
>)
    ensures
        stream_items_view(items@) == chat_stream_spec(decoded@, read_failure),
{
    let ghost whole = dispatched_items(no_phases(), no_summaries(), false, decoded@);
    let mut items: Vec<Result<GenerationEvent, ProviderError>> = Vec::new();
    items.push(Ok(GenerationEvent::Started));
    let mut state = ChatStreamState::new();
    let mut completed = false;
    let mut i: usize = 0;
    proof {
        assert(state.phase_fn() =~= no_phases());
        assert(state.summary_fn() =~= no_summaries());
        assert(decoded@.skip(0) =~= decoded@);
        assert(stream_items_view(items@) =~= seq![StreamItemView::Event(None)]);
    }
    while i < decoded.len()
        invariant
            i <= decoded@.len(),
            whole == dispatched_items(no_phases(), no_summaries(), false, decoded@),
            ({
                let rest = dispatched_items(state.phase_fn(), state.summary_fn(), completed, decoded@.skip(i as int));
                &&& seq![StreamItemView::Event(None)] + whole.0 == stream_items_view(items@) + rest.0
                &&& whole.1 == rest.1
                &&& whole.2 == rest.2
            }),
        decreases decoded.len() - i,
    {
        let ghost tail = decoded@.skip(i as int);
        let ghost p = state.phase_fn();
        let ghost s = state.summary_fn();
        proof {
            assert(tail[0] == decoded@[i as int]);
            assert(tail.drop_first() =~= decoded@.skip(i + 1));
        }
        if let Err(error) = ensure_stream_is_active(completed) {
            push_failure(&mut items, error);
            proof {
                assert(seq![StreamItemView::Event(None)] + whole.0 =~= stream_items_view(items@));
            }
            return items;
        }
        match &decoded[i] {
            Err(message) => {
                let error = provider_error(ProviderErrorKind::Protocol, &OpenAiProviderError::Protocol(message.clone()));
                push_failure(&mut items, error);
                proof {
                    assert(seq![StreamItemView::Event(None)] + whole.0 =~= stream_items_view(items@));
                }
                return items;
            },
            Ok(event) => {
                let ghost step = observe_spec(p, s, *event);
                match state.step(event, false) {
                    Err(error) => {
                        push_failure(&mut items, error);
                        proof {
                            assert(seq![StreamItemView::Event(None)] + whole.0 =~= stream_items_view(items@));
                        }
                        return items;
                    },
                    Ok((events, done)) => {
                        let ghost outs = step.2->Ok_0;
                        let ghost before = stream_items_view(items@);
                        push_events(&mut items, events, Ghost(outs));
                        completed = done;
                        proof {
                            assert(state.phase_fn() =~= step.0);
                            assert(state.summary_fn() =~= step.1);
                            let rest = dispatched_items(step.0, step.1, has_completion(outs), decoded@.skip(i + 1));
                            assert(stream_items_view(items@) + rest.0 =~= before + (output_items(outs) + rest.0));
                        }
                    },
                }
            },
        }
        i += 1;
    }
    proof {
        assert(decoded@.skip(i as int).len() == 0);
        assert(stream_items_view(items@) =~= seq![StreamItemView::Event(None)] + whole.0);
    }
    match read_failure {
        Some(message) => {
            let error = provider_error(ProviderErrorKind::Transport, &OpenAiProviderError::Transport(message));
            push_failure(&mut items, error);
        },
        None => {
            if let Err(error) = ensure_stream_completed(completed) {
                push_failure(&mut items, error);
            }
        },
    }
    items
}

/// The failure that refuses data after the completion.
pub open spec fn after_completion_failure() -> StreamItemView {
    StreamItemView::Failure(ProviderErrorKind::Protocol, after_completion_message())
}

proof fn lemma_dispatched_shape(
    p: spec_fn(Seq<char>) -> Option<AssistantTextPhase>,
    s: spec_fn(Seq<char>) -> Option<SummaryFlags>,
    completed: bool,
    decoded: Seq<Result<StreamEvent, String>>,
)
    ensures
        ({
            let r = dispatched_items(p, s, completed, decoded);
            &&& r.1 == (completed || exists|i: int| 0 <= i < r.0.len() && completes(#[trigger] r.0[i]))
            &&& forall|i: int| 0 <= i < r.0.len() - 1 ==> #[trigger] r.0[i] is Event
            &&& r.2 ==> r.0.len() > 0 && r.0.last() is Failure
            &&& !r.2 ==> forall|i: int| 0 <= i < r.0.len() ==> #[trigger] r.0[i] is Event
            &&& completed ==> (r.0.len() == 0 && !r.2 || r.0 == seq![after_completion_failure()])
            &&& forall|i: int| 0 <= i < r.0.len() && completes(#[trigger] r.0[i]) ==> r.1 && (i == r.0.len() - 1
                && !r.2 || i + 1 == r.0.len() - 1 && r.0[i + 1] == after_completion_failure())
        }),
    decreases decoded.len(),
{
    if decoded.len() == 0 || completed {
        return;
    }
    match decoded[0] {
        Err(m) => {},
        Ok(event) => {
            let (p2, s2, r) = observe_spec(p, s, event);
            match r {
                Err(v) => {},
                Ok(outs) => {
                    let c2 = has_completion(outs);
                    lemma_dispatched_shape(p2, s2, c2, decoded.drop_first());
                    lemma_completion_is_last(p, s, event);
                    let rest = dispatched_items(p2, s2, c2, decoded.drop_first());
                    let head = output_items(outs);
                    let items = head + rest.0;
                    let n = head.len() as int;
                    assert(forall|i: int| 0 <= i < n ==> #[trigger] items[i] == head[i]);
                    assert(forall|i: int| n <= i < items.len() ==> #[trigger] items[i] == rest.0[i - n]);
                    if c2 {
                        let k = choose|k: int| 0 <= k < outs.len() && is_completion(#[trigger] outs[k]);
                        assert(completes(items[k]));
                    }
                    if exists|i: int| 0 <= i < rest.0.len() && completes(#[trigger] rest.0[i]) {
                        let k = choose|k: int| 0 <= k < rest.0.len() && completes(#[trigger] rest.0[k]);
                        assert(completes(items[k + n]));
                    }
                    if exists|i: int| 0 <= i < items.len() && completes(#[trigger] items[i]) {
                        let k = choose|k: int| 0 <= k < items.len() && completes(#[trigger] items[k]);
                        if k < n {
                            assert(is_completion(outs[k]));
                        } else {
                            assert(completes(rest.0[k - n]));
                        }
                    }
                    assert forall|i: int| 0 <= i < items.len() && completes(#[trigger] items[i]) implies rest.1 && (i
                        == items.len() - 1 && !rest.2 || i + 1 == items.len() - 1 && items[i + 1]
                        == after_completion_failure()) by {
                        if i < n {
                            assert(is_completion(outs[i]));
                            assert(i == outs.len() - 1);
                        } else {
                            assert(completes(rest.0[i - n]));
                        }
                    }
                    if rest.2 {
                        assert(items.last() == rest.0.last());
                    }
                },
            }
        },
    }
}

/// The shape of every chat generation's event stream: it opens with the start; a
/// failure can only be its last entry; nothing but a failure follows the completion,
/// so there is at most one; where data follows the completion and reading did not fail,
/// that failure refuses the data; and where reading did not fail and no completion
/// came, the stream ends in a failure.
pub proof fn lemma_chat_stream_shape(decoded: Seq<Result<StreamEvent, String>>, read_failure: Option<String>)
    ensures
        ({
            let items = chat_stream_spec(decoded, read_failure);
            &&& items.len() > 0 && items[0] == StreamItemView::Event(None)
            &&& forall|i: int| 0 <= i < items.len() - 1 ==> #[trigger] items[i] is Event
            &&& forall|i: int, j: int|
                #![trigger items[i], items[j]]
                0 <= i < j < items.len() && completes(items[i]) ==> items[j] is Failure
            &&& read_failure is None ==> forall|i: int|
                0 <= i < items.len() - 1 && completes(#[trigger] items[i]) ==> items[i + 1]
                    == after_completion_failure()
            &&& read_failure is None && (forall|i: int| 0 <= i < items.len() ==> !completes(#[trigger] items[i]))
                ==> items.last() is Failure
        }),
{
    let run = dispatched_items(no_phases(), no_summaries(), false, decoded);
    lemma_dispatched_shape(no_phases(), no_summaries(), false, decoded);
    let items = chat_stream_spec(decoded, read_failure);
    let body = seq![StreamItemView::Event(None)] + run.0;
    let ending = items.subrange(body.len() as int, items.len() as int);
    assert(items =~= body + ending);
    let n = run.0.len() as int;
    assert(forall|i: int| 1 <= i <= n ==> #[trigger] items[i] == run.0[i - 1]);
    assert(ending.len() <= 1);
    assert(run.2 ==> ending.len() == 0);
    assert(ending.len() == 1 ==> ending[0] is Failure);
    assert forall|i: int| 0 <= i < items.len() - 1 implies #[trigger] items[i] is Event by {
        if 1 <= i <= n {
            assert(items[i] == run.0[i - 1]);
        }
    }
    assert forall|i: int, j: int|
        #![trigger items[i], items[j]]
        0 <= i < j < items.len() && completes(items[i]) implies items[j] is Failure by {
        assert(1 <= i <= n);
        assert(completes(run.0[i - 1]));
        if j <= n {
            assert(items[j] == run.0[j - 1]);
        } else {
            assert(!run.2);
            assert(items[j] == ending[j - n - 1]);
        }
    }
    if read_failure is None {
        assert forall|i: int| 0 <= i < items.len() - 1 && completes(#[trigger] items[i]) implies items[i + 1]
            == after_completion_failure() by {
            assert(completes(run.0[i - 1]));
            if i == n {
                assert(run.1);
                assert(ending.len() == 0);
            }
        }
        if forall|i: int| 0 <= i < items.len() ==> !completes(#[trigger] items[i]) {
            assert forall|i: int| 0 <= i < run.0.len() implies !completes(#[trigger] run.0[i]) by {
                assert(items[i + 1] == run.0[i]);
            }
            if run.2 {
                assert(items.last() == run.0.last());
            }
        }
    }
}

/// The summary whose start an entry needs: that of a summary delta or completion.
pub open spec fn item_needs_start(item: StreamItemView) -> Option<Seq<char>> {
    match item {
        StreamItemView::Event(Some(o)) => needs_start(o),
        _ => None,
    }
}

/// Whether an entry is the start of a summary.
pub open spec fn item_starts(item: StreamItemView, key: Seq<char>) -> bool {
    item matches StreamItemView::Event(Some(o)) && is_start_of(o, key)
}

/// Whether a summary's start is among the first `i` entries.
pub open spec fn item_announced_before(items: Seq<StreamItemView>, key: Seq<char>, i: int) -> bool {
    exists|j: int| 0 <= j < i && #[trigger] item_starts(items[j], key)
}

proof fn lemma_dispatched_starts(
    p: spec_fn(Seq<char>) -> Option<AssistantTextPhase>,
    s: spec_fn(Seq<char>) -> Option<SummaryFlags>,
    completed: bool,
    decoded: Seq<Result<StreamEvent, String>>,
)
    ensures
        ({
            let items = dispatched_items(p, s, completed, decoded).0;
            forall|i: int|
                0 <= i < items.len() && #[trigger] item_needs_start(items[i]) is Some ==> flags_at(
                    s,
                    item_needs_start(items[i])->0,
                ).started || item_announced_before(items, item_needs_start(items[i])->0, i)
        }),
    decreases decoded.len(),
{
    if decoded.len() == 0 || completed {
        return;
    }
    match decoded[0] {
        Err(m) => {},
        Ok(event) => {
            let (p2, s2, r) = observe_spec(p, s, event);
            match r {
                Err(v) => {},
                Ok(outs) => {
                    let c2 = has_completion(outs);
                    lemma_dispatched_starts(p2, s2, c2, decoded.drop_first());
                    lemma_summaries_start_first(p, s, event);
                    let rest = dispatched_items(p2, s2, c2, decoded.drop_first()).0;
                    let head = output_items(outs);
                    let items = head + rest;
                    let n = head.len() as int;
                    assert forall|i: int|
                        0 <= i < items.len() && #[trigger] item_needs_start(items[i]) is Some implies flags_at(
                            s,
                            item_needs_start(items[i])->0,
                        ).started || item_announced_before(items, item_needs_start(items[i])->0, i) by {
                        let key = item_needs_start(items[i])->0;
                        if i < n {
                            assert(items[i] == StreamItemView::Event(Some(outs[i])));
                            assert(needs_start(outs[i]) == Some(key));
                            if !flags_at(s, key).started {
                                let j = choose|j: int| 0 <= j < i && #[trigger] is_start_of(outs[j], key);
                                assert(items[j] == StreamItemView::Event(Some(outs[j])));
                                assert(item_starts(items[j], key));
                            }
                        } else {
                            assert(items[i] == rest[i - n]);
                            assert(item_needs_start(rest[i - n]) == Some(key));
                            if item_announced_before(rest, key, i - n) {
                                let j = choose|j: int| 0 <= j < i - n && #[trigger] item_starts(rest[j], key);
                                assert(items[j + n] == rest[j]);
                                assert(item_starts(items[j + n], key));
                            } else if !flags_at(s, key).started {
                                assert(flags_at(s2, key).started);
                                let j = choose|j: int| 0 <= j < outs.len() && #[trigger] is_start_of(outs[j], key);
                                assert(items[j] == StreamItemView::Event(Some(outs[j])));
                                assert(item_starts(items[j], key));
                            }
                        }
                    }
                },
            }
        },
    }
}

/// Over a chat generation's whole event stream, every reasoning summary's delta or
/// completion comes after that summary's start.
pub proof fn lemma_chat_stream_starts_summaries_first(
    decoded: Seq<Result<StreamEvent, String>>,
    read_failure: Option<String>,
)
    ensures
        ({
            let items = chat_stream_spec(decoded, read_failure);
            forall|i: int|
                0 <= i < items.len() && #[trigger] item_needs_start(items[i]) is Some ==> item_announced_before(
                    items,
                    item_needs_start(items[i])->0,
                    i,
                )
        }),
{
    let run = dispatched_items(no_phases(), no_summaries(), false, decoded);
    lemma_dispatched_starts(no_phases(), no_summaries(), false, decoded);
    let items = chat_stream_spec(decoded, read_failure);
    let body = seq![StreamItemView::Event(None)] + run.0;
    let ending = items.subrange(body.len() as int, items.len() as int);
    assert(items =~= body + ending);
    let n = run.0.len() as int;
    assert forall|i: int|
        0 <= i < items.len() && #[trigger] item_needs_start(items[i]) is Some implies item_announced_before(
            items,
            item_needs_start(items[i])->0,
            i,
        ) by {
        let key = item_needs_start(items[i])->0;
        assert(1 <= i <= n);
        assert(items[i] == run.0[i - 1]);
        assert(item_needs_start(run.0[i - 1]) == Some(key));
        assert(!flags_at(no_summaries(), key).started);
        let j = choose|j: int| 0 <= j < i - 1 && #[trigger] item_starts(run.0[j], key);
        assert(items[j + 1] == run.0[j]);
        assert(item_starts(items[j + 1], key));
    }
}

} // verus!
