use magenta_adapters::domain::{AssistantTextPhase, EffortLevel, FinishReason, ProviderErrorKind};
use magenta_adapters::openai::agent::{
    agent_provider_events, agent_stream_error, ensure_step_finished,
    event_key, function_calls, item_key, AgentOutput, AgentProviderEvent, AgentStreamState,
    AgentToolCall,
};
use magenta_adapters::openai::agent_stream::agent_stream;
use magenta_adapters::openai::wire::{OutputItem, ResponseError, ResponsePayload, StreamEvent, SummaryPart};

const MODEL: &str = "gpt-5.6-luna";

fn event(kind: &str) -> StreamEvent {
    StreamEvent {
        kind: kind.to_owned(),
        delta: None,
        text: None,
        arguments: None,
        item_id: None,
        output_index: None,
        summary_index: None,
        phase: None,
        part: None,
        item: None,
        response: None,
        error: None,
    }
}

fn function_call(id: Option<&str>, call_id: &str, name: &str, arguments: &str) -> OutputItem {
    OutputItem {
        item_type: Some("function_call".to_owned()),
        id: id.map(str::to_owned),
        phase: None,
        call_id: Some(call_id.to_owned()),
        call_id_present: true,
        name: Some(name.to_owned()),
        arguments: Some(arguments.to_owned()),
        summary: Vec::new(),
        raw: String::new(),
    }
}

fn completed(output: Vec<OutputItem>) -> StreamEvent {
    StreamEvent {
        response: Some(ResponsePayload { usage: None, incomplete_details: None, error: None, output }),
        ..event("response.completed")
    }
}

#[test]
fn streamed_function_call_arguments_are_reassembled() {
    let mut state = AgentStreamState::with_input(Vec::new());
    let added = StreamEvent {
        output_index: Some(0),
        item: Some(function_call(Some("item_1"), "call_1", "create_file", "")),
        ..event("response.output_item.added")
    };
    assert!(state.decode_agent_event(&added, MODEL, EffortLevel::XHigh).unwrap().is_none());
    for delta in [r#"{"path":"hello-gtk/"#, r#"main.c","content":"Hello, World"}"#] {
        let event = StreamEvent {
            item_id: Some("item_1".to_owned()),
            delta: Some(delta.to_owned()),
            ..event("response.function_call_arguments.delta")
        };
        assert!(state.decode_agent_event(&event, MODEL, EffortLevel::XHigh).unwrap().is_none());
    }
    let output = state
        .decode_agent_event(&completed(Vec::new()), MODEL, EffortLevel::XHigh)
        .unwrap()
        .expect("completion should contain a tool call");
    let AgentOutput::AgentTools { calls, continuation } = output else {
        panic!("expected a tool call output");
    };
    assert_eq!(
        calls,
        vec![AgentToolCall {
            id: "call_1".to_owned(),
            name: "create_file".to_owned(),
            arguments: r#"{"path":"hello-gtk/main.c","content":"Hello, World"}"#.to_owned(),
        }]
    );
    assert_eq!(continuation.output.len(), 1);
    assert_eq!(continuation.output[0].arguments.as_deref(), Some(calls[0].arguments.as_str()));
    assert_eq!(continuation.model, MODEL);
    assert_eq!(continuation.provider, "openai");
}

#[test]
fn completed_response_function_call_is_forwarded() {
    let user_input = r#"{"type":"message","role":"user"}"#.to_owned();
    let mut state = AgentStreamState::with_input(vec![user_input.clone()]);
    let output = state
        .decode_agent_event(
            &completed(vec![function_call(None, "call_2", "list_files", "{\"path\":\".\"}")]),
            MODEL,
            EffortLevel::High,
        )
        .unwrap()
        .unwrap();
    let AgentOutput::AgentTools { calls, continuation } = output else {
        panic!("expected a tool call output");
    };
    assert_eq!(calls[0].name, "list_files");
    assert_eq!(calls[0].arguments, r#"{"path":"."}"#);
    assert_eq!(continuation.input, vec![user_input]);
    assert_eq!(continuation.output.len(), 1);
    assert_eq!(continuation.effort, EffortLevel::High);
}

#[test]
fn a_response_without_calls_completes_the_step() {
    let mut state = AgentStreamState::with_input(Vec::new());
    let output = state.decode_agent_event(&completed(Vec::new()), MODEL, EffortLevel::Low).unwrap().unwrap();
    let AgentOutput::Completed(outcome) = output else {
        panic!("expected a completion");
    };
    assert_eq!(outcome.finish_reason, FinishReason::Stop);
    let missing = state.decode_agent_event(&event("response.done"), MODEL, EffortLevel::Low).unwrap_err();
    assert_eq!(missing.kind, ProviderErrorKind::Protocol);
    assert!(missing.message.ends_with("agent completion did not contain a response payload"));
}

#[test]
fn function_calls_need_ids_names_and_arguments() {
    let mut nameless = function_call(Some("i"), "c", "n", "{}");
    nameless.name = None;
    let error = function_calls(&vec![nameless]).unwrap_err();
    assert_eq!(error.message, "OpenAI returned malformed streaming data: function call had no name");
    let mut idless = function_call(None, "c", "n", "{}");
    idless.call_id = None;
    idless.call_id_present = false;
    assert!(function_calls(&vec![idless]).unwrap_err().message.ends_with("function call had no call_id"));
    let mut by_item = function_call(Some("item"), "c", "n", "{}");
    by_item.call_id = None;
    by_item.call_id_present = false;
    assert_eq!(function_calls(&vec![by_item]).unwrap()[0].id, "item");
    let mut null_call_id = function_call(Some("item"), "c", "n", "{}");
    null_call_id.call_id = None;
    assert!(function_calls(&vec![null_call_id]).unwrap_err().message.ends_with("function call had no call_id"));
}

#[test]
fn keys_name_items_by_id_then_index() {
    let with_id = StreamEvent { item_id: Some("x".to_owned()), output_index: Some(3), ..event("e") };
    assert_eq!(event_key(&with_id), "id:x");
    let with_index = StreamEvent { output_index: Some(3), ..event("e") };
    assert_eq!(event_key(&with_index), "index:3");
    assert_eq!(event_key(&event("e")), "current");
    assert_eq!(item_key(&function_call(None, "c", "n", ""), Some(2)).as_deref(), Some("index:2"));
    assert_eq!(item_key(&function_call(None, "c", "n", ""), None), None);
}

#[test]
fn text_takes_the_phase_of_its_message_item() {
    let mut state = AgentStreamState::with_input(Vec::new());
    let message = OutputItem {
        item_type: Some("message".to_owned()),
        id: Some("m1".to_owned()),
        phase: Some("commentary".to_owned()),
        call_id: None,
        call_id_present: false,
        name: None,
        arguments: None,
        summary: Vec::new(),
        raw: String::new(),
    };
    let added = StreamEvent { item: Some(message), ..event("response.output_item.added") };
    state.decode_agent_event(&added, MODEL, EffortLevel::Low).unwrap();
    let delta = StreamEvent {
        item_id: Some("m1".to_owned()),
        delta: Some("Looking".to_owned()),
        ..event("response.output_text.delta")
    };
    let output = state.decode_agent_event(&delta, MODEL, EffortLevel::Low).unwrap();
    assert_eq!(
        output,
        Some(AgentOutput::TextWithPhase { delta: "Looking".to_owned(), phase: AssistantTextPhase::Commentary })
    );
    let empty = StreamEvent { delta: Some(String::new()), ..event("response.output_text.delta") };
    assert_eq!(state.decode_agent_event(&empty, MODEL, EffortLevel::Low).unwrap(), None);
}

#[test]
fn summaries_are_announced_once_and_completed_once() {
    let mut state = AgentStreamState::with_input(Vec::new());
    let delta = StreamEvent {
        item_id: Some("r".to_owned()),
        summary_index: Some(0),
        delta: Some("Think".to_owned()),
        ..event("response.reasoning_summary_text.delta")
    };
    let output = state.decode_agent_event(&delta, MODEL, EffortLevel::Low).unwrap();
    let (events, terminal) = agent_provider_events(&mut state, output);
    assert!(!terminal);
    assert_eq!(
        events,
        vec![
            AgentProviderEvent::ReasoningSummaryStarted { key: "reasoning:r:0".to_owned(), title: "Thinking".to_owned() },
            AgentProviderEvent::ReasoningSummaryDelta { key: "reasoning:r:0".to_owned(), delta: "Think".to_owned() },
        ]
    );
    let done = StreamEvent { item_id: Some("r".to_owned()), summary_index: Some(0), ..event("response.reasoning_summary_text.done") };
    let output = state.decode_agent_event(&done, MODEL, EffortLevel::Low).unwrap();
    assert_eq!(
        output,
        Some(AgentOutput::ReasoningSummaryCompleted { key: "reasoning:r:0".to_owned(), text: "Think".to_owned() })
    );
    assert_eq!(state.decode_agent_event(&done, MODEL, EffortLevel::Low).unwrap(), None);
}

#[test]
fn final_summaries_are_completed_from_the_response() {
    let mut state = AgentStreamState::with_input(Vec::new());
    let reasoning = OutputItem {
        item_type: Some("reasoning".to_owned()),
        id: Some("r".to_owned()),
        phase: None,
        call_id: None,
        call_id_present: false,
        name: None,
        arguments: None,
        summary: vec![SummaryPart { part_type: Some("summary_text".to_owned()), text: Some("Plan".to_owned()) }],
        raw: String::new(),
    };
    let output = state.decode_agent_event(&completed(vec![reasoning]), MODEL, EffortLevel::Low).unwrap();
    let (events, terminal) = agent_provider_events(&mut state, output);
    assert!(terminal);
    assert_eq!(events.len(), 3);
    assert_eq!(
        events[1],
        AgentProviderEvent::ReasoningSummaryCompleted { key: "reasoning:r:0".to_owned(), text: "Plan".to_owned() }
    );
    assert!(matches!(events[2], AgentProviderEvent::Completed(_)));
}

#[test]
fn tool_calls_become_one_event_each() {
    let mut state = AgentStreamState::with_input(Vec::new());
    let output = state
        .decode_agent_event(
            &completed(vec![function_call(None, "a", "one", "{}"), function_call(None, "b", "two", "{}")]),
            MODEL,
            EffortLevel::Low,
        )
        .unwrap();
    let (events, terminal) = agent_provider_events(&mut state, output);
    assert!(terminal);
    assert_eq!(events.len(), 2);
    assert!(matches!(&events[1], AgentProviderEvent::ToolCall { call, .. } if call.id == "b"));
}

#[test]
fn failures_and_stream_ends_are_protocol_errors() {
    let failed = StreamEvent {
        error: Some(ResponseError { code: Some("rate".to_owned()), message: Some("slow down".to_owned()) }),
        ..event("response.failed")
    };
    let error = agent_stream_error(&failed);
    assert_eq!(error.message, "OpenAI rejected the stream: rate: slow down");
    assert!(ensure_step_finished(true).is_ok());
    assert_eq!(
        ensure_step_finished(false).unwrap_err().message,
        "OpenAI ended the stream before a completion event"
    );
}


#[test]
fn an_agent_step_stream_ends_at_the_output_that_ends_the_step() {
    let mut delta = event("response.output_text.delta");
    delta.delta = Some("working".to_owned());
    let completed = StreamEvent {
        response: Some(ResponsePayload { usage: None, incomplete_details: None, error: None, output: Vec::new() }),
        ..event("response.completed")
    };
    let items = agent_stream(Vec::new(), &vec![Ok(delta.clone()), Ok(completed), Err("ignored".to_owned())], None, None, MODEL, EffortLevel::High);
    assert_eq!(items.len(), 3);
    assert_eq!(items[0], Ok(AgentProviderEvent::Started));
    assert_eq!(items[1], Ok(AgentProviderEvent::TextDelta("working".to_owned())));
    assert!(matches!(items[2], Ok(AgentProviderEvent::Completed(_))));

    let items = agent_stream(Vec::new(), &vec![Ok(delta.clone())], None, None, MODEL, EffortLevel::High);
    assert_eq!(items.len(), 3);
    let error = items[2].as_ref().unwrap_err();
    assert_eq!(error.kind, ProviderErrorKind::Protocol);
    assert_eq!(error.message, "OpenAI ended the stream before a completion event");

    let items = agent_stream(Vec::new(), &vec![Ok(delta)], None, Some("reset".to_owned()), MODEL, EffortLevel::High);
    assert_eq!(items[2].as_ref().unwrap_err().kind, ProviderErrorKind::Transport);

    let items = agent_stream(Vec::new(), &Vec::new(), Some(Err("expected value".to_owned())), None, MODEL, EffortLevel::High);
    assert_eq!(items[1].as_ref().unwrap_err().message, "OpenAI returned malformed streaming data: expected value");
}

#[test]
fn a_summary_finished_without_a_start_is_announced_first() {
    let done = StreamEvent {
        item_id: Some("rs_1".to_owned()),
        summary_index: Some(0),
        text: Some("planned".to_owned()),
        ..event("response.reasoning_summary_text.done")
    };
    let items = agent_stream(Vec::new(), &vec![Ok(done)], None, None, MODEL, EffortLevel::High);
    assert_eq!(items.len(), 4);
    assert_eq!(items[0], Ok(AgentProviderEvent::Started));
    assert_eq!(
        items[1],
        Ok(AgentProviderEvent::ReasoningSummaryStarted { key: "reasoning:rs_1:0".to_owned(), title: "Thinking".to_owned() })
    );
    assert_eq!(
        items[2],
        Ok(AgentProviderEvent::ReasoningSummaryCompleted { key: "reasoning:rs_1:0".to_owned(), text: "planned".to_owned() })
    );
    assert!(items[3].is_err());
}
