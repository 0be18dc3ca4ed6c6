use magenta_adapters::sse::{EventDecoder, ServerSentEvent};

#[test]
fn sse_decoder_joins_data_lines_and_resets_on_blank_line() {
    let mut decoder = EventDecoder::default();

    assert_eq!(
        decoder.push_line("event: response.output_text.delta\n"),
        None
    );
    assert_eq!(decoder.push_line("data: {\n"), None);
    assert_eq!(decoder.push_line("data: \"delta\":\"hello\"}\n"), None);
    assert_eq!(
        decoder.push_line("\n"),
        Some(ServerSentEvent {
            event: "response.output_text.delta".to_owned(),
            data: "{\n\"delta\":\"hello\"}".to_owned(),
        })
    );
    assert_eq!(decoder.push_line(": keep-alive\n"), None);
}

#[test]
fn sse_decoder_supports_data_without_a_space_after_the_colon() {
    let mut decoder = EventDecoder::default();

    assert_eq!(decoder.push_line("data:{}\r\n"), None);
    assert_eq!(
        decoder.push_line("\r\n"),
        Some(ServerSentEvent {
            event: "message".to_owned(),
            data: "{}".to_owned(),
        })
    );
}

#[test]
fn decoder_resets_after_an_event_and_ignores_blank_lines_without_data() {
    let mut decoder = EventDecoder::new();
    assert_eq!(decoder.push_line("event: first\n"), None);
    assert_eq!(decoder.push_line("\n"), None);
    assert_eq!(decoder.push_line("data: x\n"), None);
    assert_eq!(
        decoder.push_line("\n"),
        Some(ServerSentEvent { event: "message".to_owned(), data: "x".to_owned() })
    );
    assert_eq!(decoder.finish(), None);
}

#[test]
fn decoder_ignores_unknown_fields_and_keeps_empty_first_data() {
    let mut decoder = EventDecoder::new();
    assert_eq!(decoder.push_line("id: 7\n"), None);
    assert_eq!(decoder.push_line("retry\n"), None);
    assert_eq!(decoder.push_line("data:\n"), None);
    assert_eq!(decoder.push_line("data:  two spaces\n"), None);
    assert_eq!(
        decoder.finish(),
        Some(ServerSentEvent { event: "message".to_owned(), data: " two spaces".to_owned() })
    );
}

#[test]
fn decoder_finish_flushes_a_pending_event() {
    let mut decoder = EventDecoder::new();
    decoder.push_line("event: e");
    decoder.push_line("data: a");
    decoder.push_line("data: b");
    assert_eq!(
        decoder.finish(),
        Some(ServerSentEvent { event: "e".to_owned(), data: "a\nb".to_owned() })
    );
}

#[test]
fn decoder_joins_data_lines_and_resets_on_blank_line() {
    let mut decoder = EventDecoder::default();

    assert_eq!(
        decoder.push_line("event: response.output_text.delta\n"),
        None
    );
    assert_eq!(decoder.push_line("data: {\n"), None);
    assert_eq!(decoder.push_line("data: \"delta\":\"hello\"}\n"), None);
    assert_eq!(
        decoder.push_line("\n"),
        Some(ServerSentEvent {
            event: "response.output_text.delta".to_owned(),
            data: "{\n\"delta\":\"hello\"}".to_owned(),
        })
    );
    assert_eq!(decoder.push_line(": keep-alive\n"), None);
}

#[test]
fn decoder_supports_data_without_a_space_after_the_colon() {
    let mut decoder = EventDecoder::default();

    assert_eq!(decoder.push_line("data:{}\r\n"), None);
    assert_eq!(
        decoder.push_line("\r\n"),
        Some(ServerSentEvent {
            event: "message".to_owned(),
            data: "{}".to_owned(),
        })
    );
}
