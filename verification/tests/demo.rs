use std::time::Duration;

use magenta_adapters::demo::{
    demo_events, fake_response, latest_user_prompt, response_chunks, DemoProvider,
};
use magenta_adapters::domain::{
    FinishReason, GenerationEvent, GenerationOutcome, Message, MessageRole, MessageStatus,
    ProviderErrorKind,
};

fn message(role: MessageRole, content: &str) -> Message {
    Message {
        role,
        content: content.to_owned(),
        status: MessageStatus::Complete,
        attachments: Vec::new(),
    }
}

#[test]
fn demo_response_response_chunks_preserve_markdown_and_unicode() {
    let response = "A calm café with **bold** detail.";
    let chunks = response_chunks(response);

    assert!(!chunks.is_empty());
    assert_eq!(chunks.concat(), response);
}

#[test]
fn response_response_chunks_preserve_markdown_and_unicode() {
    let response = "A calm café with **bold** detail.";
    let chunks = response_chunks(response);

    assert!(!chunks.is_empty());
    assert_eq!(chunks.concat(), response);
}

#[test]
fn demo_response_fake_responses_are_deterministic_and_rich() {
    let response = fake_response("streaming responses in GPUI");

    assert_eq!(response, fake_response("streaming responses in GPUI"));
    assert!(response.contains("**streaming responses in GPUI**"));
}

#[test]
fn response_fake_responses_are_deterministic_and_rich() {
    let response = fake_response("streaming responses in GPUI");

    assert_eq!(response, fake_response("streaming responses in GPUI"));
    assert!(response.contains("**streaming responses in GPUI**"));
}

#[test]
fn chunks_cut_after_whitespace_once_twenty_bytes_are_reached() {
    let chunks = response_chunks("aaaa bbbb cccc dddd eeee ffff");
    assert_eq!(chunks, vec!["aaaa bbbb cccc dddd ".to_owned(), "eeee ffff".to_owned()]);
    assert!(response_chunks("").is_empty());
    assert_eq!(response_chunks("no-spaces-in-this-very-long-word"), vec!["no-spaces-in-this-very-long-word".to_owned()]);
}

#[test]
fn fake_response_picks_the_template_by_byte_sum() {
    // "a" sums to 97, 97 % 3 == 1: the numbered-steps template.
    assert!(fake_response("a").starts_with("Here is a practical shape for **a**:"));
    // "c" sums to 99, 99 % 3 == 0: the focused-direction template.
    assert!(fake_response("c").starts_with("## A focused direction\n\nI would turn **c** into"));
    // "b" sums to 98, 98 % 3 == 2: the small-first template with a code block.
    let small = fake_response("b");
    assert!(small.starts_with("I would keep **b** deliberately small"));
    assert!(small.contains("struct Operation {\n    input: String,"));
}

#[test]
fn latest_user_prompt_skips_assistant_messages() {
    let messages = vec![
        message(MessageRole::User, "first"),
        message(MessageRole::User, "second"),
        message(MessageRole::Assistant, "reply"),
    ];
    assert_eq!(latest_user_prompt(&messages), Some("second".to_owned()));
    assert_eq!(latest_user_prompt(&[message(MessageRole::Assistant, "x")].to_vec()), None);
}

fn check_stream_reassembles_the_response_and_completes_once() {
    let prompt = "keep the provider boundary narrow";
    let events = demo_events("anthropic", &vec![message(MessageRole::User, prompt)]);
    assert_eq!(events.first(), Some(&Ok(GenerationEvent::Started)));
    let mut text = String::new();
    for event in &events[1..events.len() - 1] {
        match event {
            Ok(GenerationEvent::TextDelta(chunk)) => text.push_str(chunk),
            other => panic!("unexpected event {other:?}"),
        }
    }
    assert_eq!(text, fake_response(prompt));
    assert_eq!(
        events.last(),
        Some(&Ok(GenerationEvent::Completed(GenerationOutcome {
            finish_reason: FinishReason::Stop,
            usage: None
        })))
    );
}

fn check_stream_reports_a_typed_error_without_user_context() {
    let events = demo_events("anthropic", &Vec::new());
    assert_eq!(events.len(), 1);
    let error = events[0].clone().expect_err("the stream must fail");
    assert_eq!(error.provider, "anthropic");
    assert_eq!(error.kind, ProviderErrorKind::Other);
    assert_eq!(error.message, "the generation request did not contain a user message");
}

#[test]
fn demo_provider_uses_the_initial_delay_first() {
    let provider = DemoProvider::new(Duration::from_millis(260), Duration::from_millis(38));
    assert_eq!(provider.delay_before(true), Duration::from_millis(260));
    assert_eq!(provider.delay_before(false), Duration::from_millis(38));
}

#[test]
fn demo_demo_stream_reassembles_the_response_and_completes_once() {
    check_stream_reassembles_the_response_and_completes_once();
}

#[test]
fn mod_demo_stream_reassembles_the_response_and_completes_once() {
    check_stream_reassembles_the_response_and_completes_once();
}

#[test]
fn demo_demo_stream_reports_a_typed_error_without_user_context() {
    check_stream_reports_a_typed_error_without_user_context();
}

#[test]
fn mod_demo_stream_reports_a_typed_error_without_user_context() {
    check_stream_reports_a_typed_error_without_user_context();
}

#[test]
fn every_chunk_but_the_last_ends_in_whitespace() {
    let response = fake_response("keep the provider boundary narrow");
    let chunks = response_chunks(&response);
    assert!(chunks.len() > 1);
    for chunk in &chunks[..chunks.len() - 1] {
        assert!(!chunk.is_empty());
        assert!(chunk.chars().last().unwrap().is_whitespace());
    }
    assert_eq!(response_chunks("abcdefghijklmnopqrstuvwxyz0123456789"), vec!["abcdefghijklmnopqrstuvwxyz0123456789".to_owned()]);
    assert!(response_chunks("").is_empty());
}
