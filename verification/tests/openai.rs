use magenta_adapters::openai::service::{
    exchange_action, http_error, response_error_message, retry_with_fresh_token, unreadable_error_detail,
    usable_catalog, Attempt, ErrorBody, ExchangeAction,
};
use magenta_adapters::openai::response_stream::chat_stream;
use magenta_adapters::openai::auth::{auth_error, OpenAiAuthError};
use magenta_adapters::domain::{
    AgentRequest, AgentToolDefinition, AgentToolOutput, GenerationConfig, AssistantTextPhase, Attachment, EffortLevel, FinishReason, GenerationEvent, Message,
    MessageRole, MessageStatus, ProviderErrorKind,
};
use magenta_adapters::openai::chat::{
    classify_status, ensure_stream_completed, ensure_stream_is_active, generation_event, provider_error,
    response_error_detail, stream_event, ChatStreamState, OpenAiProviderError, StreamOutput,
};
use magenta_adapters::openai::models::{
    effort_from_wire, known_model_limits, model_descriptors, valid_limits, ModelInfo,
    ModelsResponse, ReasoningLevel,
};
use magenta_adapters::openai::service::{
    catalog, commands as service_commands, endpoint, headers, AgentToolPolicy, CommandPromptRequirement,
    CLIENT_VERSION, CODEX_BASE_URL,
};
use magenta_adapters::openai::agent::{AgentContinuation, AgentResumeRequest};
use magenta_adapters::openai::request::{
    from_agent_request, from_request, from_resume, read_plan, FunctionTool, InputContent, InputItem,
};
use magenta_adapters::openai::wire::{
    parse_finish_reason, reasoning_summary_parts, usage, IncompleteDetails, OutputItem,
    ResponseError, ResponsePayload, ResponseUsage, StreamEvent, SummaryPart,
};

fn event(kind: &str) -> StreamEvent {
    StreamEvent {
        kind: kind.to_owned(),
        delta: None,
        text: None,
        arguments: None,
        item_id: None,
        output_index: None,
        summary_index: None,
        phase: None,
        part: None,
        item: None,
        response: None,
        error: None,
    }
}

fn payload() -> ResponsePayload {
    ResponsePayload { usage: None, incomplete_details: None, error: None, output: Vec::new() }
}

fn item(kind: &str, id: &str) -> OutputItem {
    OutputItem {
        item_type: Some(kind.to_owned()),
        id: Some(id.to_owned()),
        phase: None,
        call_id: None,
        call_id_present: false,
        name: None,
        arguments: None,
        summary: Vec::new(),
        raw: String::new(),
    }
}

fn model(slug: &str) -> ModelInfo {
    ModelInfo {
        slug: slug.to_owned(),
        display_name: None,
        description: None,
        default_reasoning_level: None,
        supported_reasoning_levels: Vec::new(),
        visibility: None,
        priority: 0,
        context_window_tokens: None,
        max_output_tokens: None,
    }
}

fn message(role: MessageRole, content: &str) -> Message {
    Message { role, content: content.to_owned(), status: MessageStatus::Complete, attachments: Vec::new() }
}

#[test]
fn mod_status_classification_preserves_auth_and_service_failures() {
    assert_eq!(classify_status(401), ProviderErrorKind::AuthenticationRequired);
    assert_eq!(classify_status(429), ProviderErrorKind::RateLimited);
    assert_eq!(classify_status(503), ProviderErrorKind::ServiceUnavailable);
}

#[test]
fn openai_status_classification_preserves_auth_and_service_failures() {
    assert_eq!(classify_status(401), ProviderErrorKind::AuthenticationRequired);
    assert_eq!(classify_status(429), ProviderErrorKind::RateLimited);
    assert_eq!(classify_status(503), ProviderErrorKind::ServiceUnavailable);
}

#[test]
fn status_classification_covers_every_class() {
    assert_eq!(classify_status(403), ProviderErrorKind::PermissionDenied);
    assert_eq!(classify_status(408), ProviderErrorKind::RateLimited);
    assert_eq!(classify_status(400), ProviderErrorKind::InvalidRequest);
    assert_eq!(classify_status(404), ProviderErrorKind::InvalidRequest);
    assert_eq!(classify_status(422), ProviderErrorKind::InvalidRequest);
    assert_eq!(classify_status(500), ProviderErrorKind::ServiceUnavailable);
    assert_eq!(classify_status(599), ProviderErrorKind::ServiceUnavailable);
    assert_eq!(classify_status(600), ProviderErrorKind::Other);
    assert_eq!(classify_status(302), ProviderErrorKind::Other);
}

fn check_stream_events_keep_text_and_completion_order() {
    let mut delta = event("response.output_text.delta");
    delta.delta = Some("hello".to_owned());
    assert_eq!(stream_event(&delta), Ok(Some(StreamOutput::Text("hello".to_owned()))));

    let mut completed = event("response.completed");
    let mut response = payload();
    response.usage = Some(ResponseUsage { input_tokens: 1, output_tokens: 2 });
    completed.response = Some(response);
    match stream_event(&completed) {
        Ok(Some(StreamOutput::Completed(outcome))) => {
            assert_eq!(outcome.finish_reason, FinishReason::Stop);
            assert_eq!(outcome.usage.map(|u| u.output_tokens), Some(2));
        }
        other => panic!("unexpected {other:?}"),
    }
}

#[test]
fn reasoning_summary_events_use_stable_keys_and_decode_text() {
    let mut added = event("response.reasoning_summary_part.added");
    added.item_id = Some("rs_1".to_owned());
    added.summary_index = Some(0);
    added.part = Some(SummaryPart { part_type: Some("summary_text".to_owned()), text: None });
    assert_eq!(
        stream_event(&added),
        Ok(Some(StreamOutput::ReasoningSummaryStarted { key: "reasoning:rs_1:0".to_owned(), title: "Thinking".to_owned() }))
    );

    let mut delta = event("response.reasoning_summary_text.delta");
    delta.item_id = Some("rs_1".to_owned());
    delta.summary_index = Some(0);
    delta.delta = Some("Inspecting the request".to_owned());
    assert_eq!(
        stream_event(&delta),
        Ok(Some(StreamOutput::ReasoningSummaryDelta { key: "reasoning:rs_1:0".to_owned(), delta: "Inspecting the request".to_owned() }))
    );

    let mut done = event("response.reasoning_summary_text.done");
    done.item_id = Some("rs_1".to_owned());
    done.summary_index = Some(12);
    done.text = Some("Inspecting the request".to_owned());
    assert_eq!(
        stream_event(&done),
        Ok(Some(StreamOutput::ReasoningSummaryCompleted { key: "reasoning:rs_1:12".to_owned(), text: "Inspecting the request".to_owned() }))
    );
}

#[test]
fn completed_responses_fallback_to_deduplicated_reasoning_summaries_before_completion() {
    let mut state = ChatStreamState::new();
    let mut completed = event("response.completed");
    let mut response = payload();
    let mut reasoning = item("reasoning", "rs_2");
    reasoning.summary = vec![SummaryPart { part_type: Some("summary_text".to_owned()), text: Some("Checked the inputs.".to_owned()) }];
    response.output = vec![reasoning];
    completed.response = Some(response);

    let outputs = state.observe(&completed).expect("fallback should decode");
    assert_eq!(outputs.len(), 3);
    assert_eq!(outputs[0], StreamOutput::ReasoningSummaryStarted { key: "reasoning:rs_2:0".to_owned(), title: "Thinking".to_owned() });
    assert_eq!(outputs[1], StreamOutput::ReasoningSummaryCompleted { key: "reasoning:rs_2:0".to_owned(), text: "Checked the inputs.".to_owned() });
    assert!(matches!(outputs[2], StreamOutput::Completed(_)));

    let duplicate = state.observe(&completed).expect("duplicate completion should decode");
    assert_eq!(duplicate.len(), 1);
    assert!(matches!(duplicate[0], StreamOutput::Completed(_)));
}

#[test]
fn output_item_phases_are_preserved_for_text_deltas() {
    let mut state = ChatStreamState::new();
    let mut commentary = event("response.output_item.added");
    let mut message_item = item("message", "msg_1");
    message_item.phase = Some("commentary".to_owned());
    commentary.item = Some(message_item.clone());
    state.observe(&commentary).expect("commentary should decode");
    let mut delta = event("response.output_text.delta");
    delta.item_id = Some("msg_1".to_owned());
    delta.delta = Some("Working".to_owned());
    assert_eq!(
        state.observe(&delta).expect("commentary delta should decode"),
        vec![StreamOutput::TextWithPhase { delta: "Working".to_owned(), phase: AssistantTextPhase::Commentary }]
    );

    let mut final_item = event("response.output_item.done");
    message_item.phase = Some("final_answer".to_owned());
    final_item.item = Some(message_item);
    state.observe(&final_item).expect("final item should decode");
    let mut final_delta = event("response.output_text.delta");
    final_delta.item_id = Some("msg_1".to_owned());
    final_delta.delta = Some("Done".to_owned());
    assert_eq!(
        state.observe(&final_delta).expect("final delta should decode"),
        vec![StreamOutput::TextWithPhase { delta: "Done".to_owned(), phase: AssistantTextPhase::FinalAnswer }]
    );
}

#[test]
fn fallback_ignores_encrypted_or_non_summary_reasoning_content() {
    let mut reasoning = item("reasoning", "rs_3");
    reasoning.summary = vec![SummaryPart { part_type: Some("reasoning_text".to_owned()), text: Some("private".to_owned()) }];
    assert_eq!(reasoning_summary_parts(&vec![reasoning]).len(), 0);
}

#[test]
fn summary_deltas_announce_their_summary_once() {
    let mut state = ChatStreamState::new();
    let mut delta = event("response.reasoning_summary_text.delta");
    delta.item_id = Some("rs".to_owned());
    delta.summary_index = Some(1);
    delta.delta = Some("a".to_owned());
    let first = state.observe(&delta).unwrap();
    assert_eq!(first.len(), 2);
    assert!(matches!(&first[0], StreamOutput::ReasoningSummaryStarted { key, .. } if key == "reasoning:rs:1"));
    let second = state.observe(&delta).unwrap();
    assert_eq!(second.len(), 1);
}

#[test]
fn failed_events_report_the_provider_error_detail() {
    let mut failed = event("response.failed");
    failed.error = Some(ResponseError { code: Some("rate_limit".to_owned()), message: Some("slow down".to_owned()) });
    assert_eq!(stream_event(&failed), Err(OpenAiProviderError::StreamFailed("rate_limit: slow down".to_owned())));
    assert_eq!(
        stream_event(&event("error")),
        Err(OpenAiProviderError::StreamFailed("the provider reported an unspecified error".to_owned()))
    );
    assert_eq!(
        stream_event(&event("response.completed")),
        Err(OpenAiProviderError::Protocol("response.completed did not contain a response payload".to_owned()))
    );
    assert_eq!(stream_event(&event("response.created")), Ok(None));
}

#[test]
fn error_details_combine_code_and_message() {
    assert_eq!(response_error_detail(&ResponseError { code: None, message: Some("m".to_owned()) }), "m");
    assert_eq!(response_error_detail(&ResponseError { code: Some("c".to_owned()), message: None }), "c");
    let error = provider_error(ProviderErrorKind::RateLimited, &OpenAiProviderError::Http { status: 429, detail: "busy".to_owned() });
    assert_eq!(error.message, "OpenAI returned HTTP 429: busy");
    assert_eq!(error.http_status, Some(429));
    assert_eq!(error.provider, "openai");
    assert!(ensure_stream_is_active(false).is_ok());
    assert_eq!(
        ensure_stream_is_active(true).unwrap_err().message,
        "OpenAI returned malformed streaming data: received data after completion"
    );
    assert_eq!(generation_event(StreamOutput::Text("x".to_owned())), GenerationEvent::TextDelta("x".to_owned()));
}

#[test]
fn response_events_map_deltas_completion_usage_and_incomplete_reasons() {
    let mut response = payload();
    response.usage = Some(ResponseUsage { input_tokens: 4, output_tokens: 7 });
    assert_eq!(usage(&response).map(|u| u.output_tokens), Some(7));
    assert_eq!(parse_finish_reason(&response), FinishReason::Stop);
    let mut incomplete = payload();
    incomplete.incomplete_details = Some(IncompleteDetails { reason: Some("max_output_tokens".to_owned()) });
    assert_eq!(parse_finish_reason(&incomplete), FinishReason::Length);
    incomplete.incomplete_details = Some(IncompleteDetails { reason: Some("content_filter".to_owned()) });
    assert_eq!(parse_finish_reason(&incomplete), FinishReason::ContentFilter);
    incomplete.incomplete_details = Some(IncompleteDetails { reason: Some("other".to_owned()) });
    assert_eq!(parse_finish_reason(&incomplete), FinishReason::Other("other".to_owned()));
}

#[test]
fn model_catalog_accepts_the_codex_models_envelope() {
    let mut gpt = model("gpt-5.4");
    gpt.display_name = Some("GPT-5.4".to_owned());
    gpt.default_reasoning_level = Some("medium".to_owned());
    gpt.supported_reasoning_levels = ["low", "medium", "high", "xhigh", "max"]
        .iter()
        .map(|effort| ReasoningLevel { effort: (*effort).to_owned() })
        .collect();
    gpt.visibility = Some("list".to_owned());
    gpt.priority = 2;
    let models = model_descriptors(ModelsResponse::Models { models: vec![gpt] });
    assert_eq!(models.len(), 1);
    assert_eq!(models[0].id, "gpt-5.4");
    assert_eq!(models[0].default_effort, EffortLevel::Medium);
    assert_eq!(
        models[0].supported_efforts,
        vec![EffortLevel::Low, EffortLevel::Medium, EffortLevel::High, EffortLevel::XHigh, EffortLevel::Max]
    );
    assert_eq!(models[0].limits.context_window_tokens, 1_050_000);
    assert_eq!(models[0].limits.max_output_tokens, 128_000);
}

#[test]
fn model_catalog_prefers_valid_provider_limits() {
    let mut future = model("future-model");
    future.context_window_tokens = Some(64000);
    future.max_output_tokens = Some(8000);
    let model = model_descriptors(ModelsResponse::Models { models: vec![future] }).pop().unwrap();
    assert_eq!(model.limits.context_window_tokens, 64_000);
    assert_eq!(model.limits.max_output_tokens, 8_000);
}

#[test]
fn model_catalog_keeps_visible_entries_with_non_list_visibility() {
    let mut visible = model("gpt-visible");
    visible.visibility = Some("public".to_owned());
    let mut hidden = model("gpt-hidden");
    hidden.visibility = Some("hidden".to_owned());
    let mut alias = model("gpt-hidden-alias");
    alias.visibility = Some("HIDE".to_owned());
    let models = model_descriptors(ModelsResponse::Data { data: vec![visible, hidden, alias] });
    assert_eq!(models.len(), 1);
    assert_eq!(models[0].id, "gpt-visible");
}

#[test]
fn model_catalog_orders_by_priority_then_id_and_drops_blank_names() {
    let mut a = model("b-model");
    a.priority = 1;
    let b = model("a-model");
    let mut c = model("c-model");
    c.priority = 1;
    let mut blank = model("  ");
    blank.priority = 9;
    let models = model_descriptors(ModelsResponse::List(vec![b, c, blank, a]));
    let ids: Vec<&str> = models.iter().map(|m| m.id.as_str()).collect();
    assert_eq!(ids, vec!["b-model", "c-model", "a-model"]);
    assert_eq!(models[2].supported_efforts.len(), 5);
    assert_eq!(models[2].default_effort, EffortLevel::Low);
}

#[test]
fn limits_and_effort_names_follow_the_catalog_rules() {
    assert_eq!(valid_limits(Some(10), Some(10)), None);
    assert_eq!(valid_limits(Some(0), Some(1)), None);
    assert!(valid_limits(Some(10), Some(9)).is_some());
    assert_eq!(known_model_limits("GPT-5.4-MINI-2").context_window_tokens, 400_000);
    assert_eq!(known_model_limits("gpt-5.5").context_window_tokens, 1_050_000);
    assert_eq!(known_model_limits("other").context_window_tokens, 0);
    assert_eq!(effort_from_wire("xhigh"), Some(EffortLevel::XHigh));
    assert_eq!(effort_from_wire("huge"), None);
}

#[test]
fn responses_request_encodes_user_and_assistant_history() {
    let request = from_request(
        "gpt-5.4",
        EffortLevel::High,
        &vec![message(MessageRole::User, "Hello"), message(MessageRole::Assistant, "Hi there")],
        &Vec::new(),
    )
    .expect("request should be valid");
    assert_eq!(request.model, "gpt-5.4");
    assert!(request.stream);
    assert!(!request.store);
    assert_eq!(request.reasoning.effort, "high");
    assert_eq!(
        request.input[0],
        InputItem::Message { role: "user".to_owned(), content: vec![InputContent::InputText { text: "Hello".to_owned() }], status: None }
    );
    assert_eq!(
        request.input[1],
        InputItem::Message {
            role: "assistant".to_owned(),
            content: vec![InputContent::OutputText { text: "Hi there".to_owned() }],
            status: Some("completed".to_owned())
        }
    );
}

fn image(name: &str, mime: &str, size: u64) -> Attachment {
    Attachment { name: name.to_owned(), path: name.as_bytes().to_vec(), mime_type: mime.to_owned(), byte_size: size, managed: true }
}

#[test]
fn responses_request_rejects_images_over_the_request_limit() {
    let mut user = message(MessageRole::User, "Analyze this image");
    user.attachments.push(image("not-read.png", "image/png", 32 * 1024 * 1024 + 1));
    let messages = vec![user];
    assert!(read_plan(&messages).is_empty());
    let error = from_request("gpt-5.6-luna", EffortLevel::Medium, &messages, &Vec::new())
        .expect_err("oversized image requests must be rejected before reading files");
    assert_eq!(error, "attached images exceed Magenta's 32 MiB request limit");
}

#[test]
fn responses_request_encodes_saved_images_as_data_urls() {
    let mut user = message(MessageRole::User, "What is shown here?");
    user.attachments.push(image("reference.png", "image/png", 4));
    let messages = vec![user];
    assert_eq!(read_plan(&messages), vec![b"reference.png".to_vec()]);
    let request = from_request("gpt-5.6-luna", EffortLevel::Medium, &messages, &vec![Some(vec![0x89, b'P', b'N', b'G'])])
        .expect("image request should be valid");
    match &request.input[0] {
        InputItem::Message { content, .. } => {
            assert_eq!(content[1], InputContent::InputImage { image_url: "data:image/png;base64,iVBORw==".to_owned() });
        }
        other => panic!("expected a message, got {other:?}"),
    }
}

#[test]
fn responses_request_allows_an_image_without_prompt_text() {
    let mut user = message(MessageRole::User, "  ");
    user.attachments.push(image("reference.jpeg", "image/jpeg", 2));
    let messages = vec![user];
    let request = from_request("m", EffortLevel::Low, &messages, &vec![Some(vec![1, 2])]).unwrap();
    match &request.input[0] {
        InputItem::Message { content, .. } => assert_eq!(content.len(), 1),
        other => panic!("expected a message, got {other:?}"),
    }
    assert_eq!(
        from_request("m", EffortLevel::Low, &messages, &vec![None]).unwrap_err(),
        "an attached image is no longer available locally"
    );
    assert_eq!(
        from_request("m", EffortLevel::Low, &messages, &vec![Some(vec![1])]).unwrap_err(),
        "an attached image changed after it was saved"
    );
    assert_eq!(
        from_request("m", EffortLevel::Low, &vec![message(MessageRole::Assistant, "x")], &Vec::new()).unwrap_err(),
        "the generation request did not contain a user message"
    );
    let mut bmp = message(MessageRole::User, "x");
    bmp.attachments.push(image("a.bmp", "image/bmp", 1));
    assert_eq!(
        from_request("m", EffortLevel::Low, &vec![bmp], &Vec::new()).unwrap_err(),
        "an attached image has an unsupported file type"
    );
    let mut many = message(MessageRole::User, "x");
    for n in 0..5 {
        many.attachments.push(image(&format!("{n}.png"), "image/png", 1));
    }
    assert_eq!(
        from_request("m", EffortLevel::Low, &vec![many], &Vec::new()).unwrap_err(),
        "a message can contain at most four images"
    );
}

#[test]
fn mod_stream_events_keep_text_and_completion_order() {
    check_stream_events_keep_text_and_completion_order();
}

#[test]
fn openai_stream_events_keep_text_and_completion_order() {
    check_stream_events_keep_text_and_completion_order();
}

fn check_codex_headers_use_the_oh_my_pi_compatibility_values() {
    let headers = headers("Bearer token", Some("account-123"), "application/json", None);
    let has = |name: &str, value: &str| headers.iter().any(|(n, v)| *n == name && v == value);
    assert!(has("openai-beta", "responses=experimental"));
    assert!(has("originator", "omp"));
    assert!(has("version", CLIENT_VERSION));
    assert!(has("chatgpt-account-id", "account-123"));
}

#[test]
fn openai_codex_headers_use_the_oh_my_pi_compatibility_values() {
    check_codex_headers_use_the_oh_my_pi_compatibility_values();
}

#[test]
fn mod_codex_headers_use_the_oh_my_pi_compatibility_values() {
    check_codex_headers_use_the_oh_my_pi_compatibility_values();
}

#[test]
fn headers_come_in_a_fixed_order() {
    let plain = headers("Bearer t", None, "text/event-stream", Some("hint"));
    let names = plain.iter().map(|(name, _)| *name).collect::<Vec<_>>();
    assert_eq!(
        names,
        vec!["accept", "authorization", "content-type", "openai-beta", "originator", "version", "x-codex-routing-hint"]
    );
    assert_eq!(plain[0].1, "text/event-stream");
}

#[test]
fn endpoints_join_with_one_slash() {
    assert_eq!(endpoint("https://chatgpt.com/backend-api/codex/", "/responses"), "https://chatgpt.com/backend-api/codex/responses");
    assert_eq!(endpoint(CODEX_BASE_URL, "models"), "https://chatgpt.com/backend-api/codex/models");
    assert_eq!(endpoint("base//", "//x"), "base/x");
}

#[test]
fn catalog_contains_the_three_supported_commands() {
    let commands = catalog();
    assert_eq!(commands.len(), 3);
    assert_eq!(commands[0].id, "plan");
    assert_eq!(commands[1].id, "review");
    assert_eq!(commands[2].id, "explain");
    assert!(commands.iter().all(|command| {
        command.agent_tool_policy == AgentToolPolicy::ReadOnly && !command.response_instructions.is_empty()
    }));
    assert_eq!(
        commands[1].prompt_requirement,
        CommandPromptRequirement::Optional { fallback_prompt: "Review the current workspace changes".to_owned() }
    );
    assert!(service_commands("anthropic").is_empty());
    assert_eq!(service_commands("openai").len(), 3);
}

#[test]
fn failed_requests_report_the_best_message_available() {
    let body = ErrorBody { error_message: Some("bad key".to_owned()), error_text: None, message: Some("m".to_owned()) };
    assert_eq!(response_error_message(Some(body), b"{}"), "bad key");
    let text = ErrorBody { error_message: None, error_text: Some("quota".to_owned()), message: None };
    assert_eq!(response_error_message(Some(text), b"{}"), "quota");
    assert_eq!(response_error_message(None, b"gateway timeout"), "gateway timeout");
    assert_eq!(response_error_message(None, b" \n"), "the provider returned an empty error response");
    let error = http_error(429, "slow".to_owned());
    assert_eq!(error.kind, ProviderErrorKind::RateLimited);
    assert_eq!(error.http_status, Some(429));
    assert_eq!(error.message, "OpenAI returned HTTP 429: slow");
    assert_eq!(unreadable_error_detail("eof"), "could not read the error response: eof");
    assert!(retry_with_fresh_token(401));
    assert!(!retry_with_fresh_token(403));
    assert!(usable_catalog(Vec::new()).unwrap_err().message.ends_with("the model catalog was empty"));
}

#[test]
fn sign_in_failures_become_provider_errors() {
    let error = auth_error(ProviderErrorKind::AuthenticationRequired, &OpenAiAuthError::CallbackTimeout);
    assert_eq!(error.provider, "openai");
    assert_eq!(error.message, "the OAuth callback timed out");
    assert_eq!(error.http_status, None);
}

#[test]
fn agent_request_encodes_strict_workspace_tools_and_instructions() {
    let parameters =
        r#"{"type":"object","properties":{"path":{"type":"string"}},"required":["path"],"additionalProperties":false}"#;
    let request = AgentRequest {
        generation: GenerationConfig {
            provider: "openai-codex".to_owned(),
            model: "gpt-5.6-luna".to_owned(),
            effort: EffortLevel::High,
        },
        messages: vec![message(MessageRole::User, "Inspect the workspace")],
        instructions: "Use only workspace tools.".to_owned(),
        tools: vec![AgentToolDefinition {
            name: "read_file".to_owned(),
            description: "Read one file.".to_owned(),
            parameters: parameters.to_owned(),
            mutating: false,
            protected_read: true,
        }],
    };

    let wire = from_agent_request(&request, &Vec::new()).expect("agent request should be valid");

    assert_eq!(wire.instructions.as_deref(), Some("Use only workspace tools."));
    assert_eq!(wire.tools[0].kind, "function");
    assert_eq!(wire.tools[0].name, "read_file");
    assert!(wire.tools[0].strict);
    assert_eq!(wire.tools[0].parameters, parameters);
    assert_eq!(wire.tool_choice, Some("required"));
    assert_eq!(wire.model, "gpt-5.6-luna");
    assert_eq!(wire.reasoning.effort, "high");
}

#[test]
fn agent_request_without_tools_leaves_the_choice_to_the_model() {
    let request = AgentRequest {
        generation: GenerationConfig {
            provider: "openai-codex".to_owned(),
            model: "gpt-5.6-luna".to_owned(),
            effort: EffortLevel::Low,
        },
        messages: vec![message(MessageRole::User, "Hello")],
        instructions: "Be brief.".to_owned(),
        tools: Vec::new(),
    };
    let wire = from_agent_request(&request, &Vec::new()).expect("agent request should be valid");
    assert!(wire.tools.is_empty());
    assert_eq!(wire.tool_choice, None);
}

#[test]
fn agent_request_without_a_user_message_is_refused() {
    let request = AgentRequest {
        generation: GenerationConfig {
            provider: "openai-codex".to_owned(),
            model: "gpt-5.6-luna".to_owned(),
            effort: EffortLevel::Low,
        },
        messages: vec![message(MessageRole::Assistant, "Hi")],
        instructions: "Be brief.".to_owned(),
        tools: Vec::new(),
    };
    assert_eq!(
        from_agent_request(&request, &Vec::new()),
        Err("the generation request did not contain a user message".to_owned())
    );
}

#[test]
fn agent_resume_appends_tool_outputs_to_the_opaque_continuation() {
    let user = r#"{"type":"message","role":"user","content":[{"type":"input_text","text":"Inspect the workspace"}]}"#;
    let mut call = item("function_call", "fc-1");
    call.call_id = Some("call-1".to_owned());
    call.call_id_present = true;
    call.raw = r#"{"type":"function_call","call_id":"call-1"}"#.to_owned();
    let continuation = AgentContinuation {
        provider: "openai-codex".to_owned(),
        model: "gpt-5.6-luna".to_owned(),
        effort: EffortLevel::Medium,
        input: vec![user.to_owned()],
        output: vec![call.clone()],
    };
    let request = AgentResumeRequest {
        continuation,
        outputs: vec![AgentToolOutput {
            call_id: "call-1".to_owned(),
            output: "src/main.rs".to_owned(),
            is_error: false,
        }],
        instructions: "Use only workspace tools.".to_owned(),
        tools: Vec::new(),
    };

    let wire = from_resume(&request, "gpt-5.6-luna", EffortLevel::Medium);

    assert_eq!(wire.input.len(), 3);
    assert_eq!(wire.input[0], InputItem::Raw { json: user.to_owned() });
    assert_eq!(wire.input[1], InputItem::Continued { item: call });
    assert_eq!(
        wire.input[2],
        InputItem::FunctionCallOutput { call_id: "call-1".to_owned(), output: "src/main.rs".to_owned() }
    );
    assert_eq!(wire.tool_choice, None);
    assert_eq!(wire.instructions.as_deref(), Some("Use only workspace tools."));
    assert_eq!(wire.reasoning.effort, "medium");
}

#[test]
fn agent_resume_offers_the_tools_again() {
    let request = AgentResumeRequest {
        continuation: AgentContinuation {
            provider: "openai-codex".to_owned(),
            model: "gpt-5.6-luna".to_owned(),
            effort: EffortLevel::High,
            input: Vec::new(),
            output: Vec::new(),
        },
        outputs: Vec::new(),
        instructions: "Use only workspace tools.".to_owned(),
        tools: vec![AgentToolDefinition {
            name: "list_files".to_owned(),
            description: "List files.".to_owned(),
            parameters: "{}".to_owned(),
            mutating: false,
            protected_read: false,
        }],
    };
    let wire = from_resume(&request, "gpt-5.6-luna", EffortLevel::High);
    assert_eq!(
        wire.tools,
        vec![FunctionTool {
            kind: "function",
            name: "list_files".to_owned(),
            description: "List files.".to_owned(),
            parameters: "{}".to_owned(),
            strict: true,
        }]
    );
    assert_eq!(wire.tool_choice, None);
    assert!(wire.input.is_empty());
}

#[test]
fn chat_steps_turn_outputs_into_events_and_refuse_data_after_completion() {
    let mut state = ChatStreamState::new();
    let mut delta = event("response.reasoning_summary_text.delta");
    delta.item_id = Some("rs_9".to_owned());
    delta.summary_index = Some(0);
    delta.delta = Some("Looking".to_owned());
    let (events, done) = state.step(&delta, false).expect("a summary delta should decode");
    assert!(!done);
    assert_eq!(events.len(), 2);
    assert!(matches!(events[0], GenerationEvent::ReasoningSummaryStarted { .. }));
    assert!(matches!(events[1], GenerationEvent::ReasoningSummaryDelta { .. }));

    let mut completed = event("response.completed");
    completed.response = Some(payload());
    let (events, done) = state.step(&completed, false).expect("a completion should decode");
    assert!(done);
    assert!(matches!(events.last(), Some(GenerationEvent::Completed(_))));

    let late = state.step(&event("response.output_text.delta"), true).unwrap_err();
    assert_eq!(late.kind, ProviderErrorKind::Protocol);
    assert_eq!(late.message, "OpenAI returned malformed streaming data: received data after completion");

    let failed = ChatStreamState::new().step(&event("response.completed"), false).unwrap_err();
    assert_eq!(failed.kind, ProviderErrorKind::Protocol);
    assert_eq!(
        failed.message,
        "OpenAI returned malformed streaming data: response.completed did not contain a response payload"
    );
}

#[test]
fn a_stream_must_end_with_its_completion() {
    assert!(ensure_stream_completed(true).is_ok());
    let error = ensure_stream_completed(false).unwrap_err();
    assert_eq!(error.kind, ProviderErrorKind::IncompleteResponse);
    assert_eq!(error.message, "OpenAI ended the stream before a completion event");
}

#[test]
fn observe_reports_every_decoding_failure_as_a_protocol_error() {
    let mut state = ChatStreamState::new();
    let mut failed = event("response.failed");
    failed.error = Some(ResponseError { code: Some("rate_limit".to_owned()), message: Some("slow down".to_owned()) });
    let error = state.observe(&failed).unwrap_err();
    assert_eq!(error.kind, ProviderErrorKind::Protocol);
    assert_eq!(error.message, "OpenAI rejected the stream: rate_limit: slow down");
    let missing = state.observe(&event("response.incomplete")).unwrap_err();
    assert_eq!(missing.kind, ProviderErrorKind::Protocol);
    assert_eq!(
        missing.message,
        "OpenAI returned malformed streaming data: response.incomplete did not contain a response payload"
    );
}

fn text_delta(text: &str) -> StreamEvent {
    let mut delta = event("response.output_text.delta");
    delta.delta = Some(text.to_owned());
    delta
}

fn completion() -> StreamEvent {
    let mut completed = event("response.completed");
    completed.response = Some(payload());
    completed
}

#[test]
fn a_chat_stream_starts_then_carries_the_outputs_in_order() {
    let items = chat_stream(&vec![Ok(text_delta("he")), Ok(text_delta("llo")), Ok(completion())], None);
    assert_eq!(items.len(), 4);
    assert_eq!(items[0], Ok(GenerationEvent::Started));
    assert_eq!(items[1], Ok(GenerationEvent::TextDelta("he".to_owned())));
    assert_eq!(items[2], Ok(GenerationEvent::TextDelta("llo".to_owned())));
    assert!(matches!(items[3], Ok(GenerationEvent::Completed(_))));
}

#[test]
fn data_after_the_completion_is_refused() {
    let items = chat_stream(&vec![Ok(completion()), Err("not json".to_owned()), Ok(text_delta("late"))], None);
    assert_eq!(items.len(), 3);
    let error = items[2].clone().unwrap_err();
    assert_eq!(error.kind, ProviderErrorKind::Protocol);
    assert_eq!(error.message, "OpenAI returned malformed streaming data: received data after completion");
}

#[test]
fn a_chat_stream_without_a_completion_ends_incomplete() {
    let items = chat_stream(&vec![Ok(text_delta("partial"))], None);
    assert_eq!(items.len(), 3);
    let error = items[2].clone().unwrap_err();
    assert_eq!(error.kind, ProviderErrorKind::IncompleteResponse);
    assert_eq!(error.message, "OpenAI ended the stream before a completion event");

    let items = chat_stream(&Vec::new(), None);
    assert_eq!(items[0], Ok(GenerationEvent::Started));
    assert_eq!(items[1].clone().unwrap_err().kind, ProviderErrorKind::IncompleteResponse);
}

#[test]
fn undecodable_data_and_read_failures_end_a_chat_stream() {
    let items = chat_stream(&vec![Ok(text_delta("a")), Err("expected value".to_owned()), Ok(completion())], None);
    assert_eq!(items.len(), 3);
    let error = items[2].clone().unwrap_err();
    assert_eq!(error.kind, ProviderErrorKind::Protocol);
    assert_eq!(error.message, "OpenAI returned malformed streaming data: expected value");

    let items = chat_stream(&vec![Ok(text_delta("a"))], Some("connection reset".to_owned()));
    assert_eq!(items.len(), 3);
    let error = items[2].clone().unwrap_err();
    assert_eq!(error.kind, ProviderErrorKind::Transport);
    assert_eq!(error.message, "OpenAI request transport failed: connection reset");

    let items = chat_stream(&vec![Ok(completion())], Some("closed".to_owned()));
    assert_eq!(items[2].clone().unwrap_err().kind, ProviderErrorKind::Transport);
}

#[test]
fn a_rejected_token_is_refreshed_and_resent_once() {
    assert_eq!(exchange_action(Attempt::First, 401), (ExchangeAction::RefreshAndResend, Attempt::AfterRefresh));
    assert_eq!(exchange_action(Attempt::AfterRefresh, 401), (ExchangeAction::Fail, Attempt::AfterRefresh));
    assert_eq!(exchange_action(Attempt::AfterRefresh, 200), (ExchangeAction::Accept, Attempt::AfterRefresh));
    assert_eq!(exchange_action(Attempt::First, 204), (ExchangeAction::Accept, Attempt::First));
    assert_eq!(exchange_action(Attempt::First, 500), (ExchangeAction::Fail, Attempt::First));
    assert_eq!(exchange_action(Attempt::First, 302), (ExchangeAction::Fail, Attempt::First));
}

#[test]
fn a_chat_stream_announces_each_summary_before_its_text() {
    let mut delta = event("response.reasoning_summary_text.delta");
    delta.item_id = Some("rs_1".to_owned());
    delta.summary_index = Some(0);
    delta.delta = Some("thinking".to_owned());
    let items = chat_stream(&vec![Ok(delta.clone()), Ok(delta), Ok(completion())], None);
    assert_eq!(items.len(), 5);
    assert_eq!(
        items[1],
        Ok(GenerationEvent::ReasoningSummaryStarted { key: "reasoning:rs_1:0".to_owned(), title: "Thinking".to_owned() })
    );
    assert_eq!(
        items[2],
        Ok(GenerationEvent::ReasoningSummaryDelta { key: "reasoning:rs_1:0".to_owned(), delta: "thinking".to_owned() })
    );
    assert_eq!(
        items[3],
        Ok(GenerationEvent::ReasoningSummaryDelta { key: "reasoning:rs_1:0".to_owned(), delta: "thinking".to_owned() })
    );
    assert!(matches!(items[4], Ok(GenerationEvent::Completed(_))));
}
