use magenta_adapters::storage::turns::{begin_turn_plan, regeneration_plan, retry_plan, TurnPlan};
use magenta_adapters::storage::turns::ensure_conversation_changed;
use magenta_adapters::storage::records::{as_i64, as_u64};
use magenta_adapters::storage::turns::{check_finalizable, finalized_rows};
use magenta_adapters::storage::turns::{check_no_duplicate_sequences, needs_index_repair};
use magenta_adapters::storage::agent::{cache_over_budget, check_memory, review_outcome, MAX_CACHE_BYTES};
use magenta_adapters::domain::{
    AgentActivityKind, AssistantTraceKind, AssistantTraceStatus, ConversationMode, EffortLevel,
    Message, MessageRole, MessageStatus,
};
use magenta_adapters::storage::attachments::{
    check_attachment_count, check_attachment_file, classify_attachment, image_type,
    imported_attachment, name_from_bytes, opaque_name, unreadable_attachment,
};
use magenta_adapters::storage::database::{
    database_error, decode_mode, DatabaseErrorCause, SqliteCode, StorageErrorKind,
};
use magenta_adapters::storage::records::{
    activity_kind, agent_run_status, around_window, build_page, decode_optional_path,
    decode_path, encode_path, mode_name, page, page_after, page_around, parse_activity_kind,
    parse_mode, parse_role, parse_status, parse_trace_kind, parse_trace_status, read_window,
    role_name, status, trace_kind, trace_status, window_probes, StoredMessage, PAGE_SIZE,
};
use magenta_adapters::storage::search::{
    fts_query, highlights, like_pattern, marked_text, normalized_query, rank_key,
    search_limit, search_results, ConversationSearchResult, RankedSearchResult,
};
use magenta_adapters::storage::traces::{
    assistant_trace, legacy_traces, migrated_trace, AssistantTrace, AssistantTraceEntry, LegacyActivity, TraceRow,
};
use magenta_adapters::storage::settings::{
    appearance_word, default_settings, gather_comments, preference_writes, remove_preference, save_preference, read_settings,
    saved_settings_text, settings_writes, settings_written,
    AppSettings, AppearanceMode, GenerationPreference, GenerationSettings, SettingValue, SettingWrite,
    TypographySettings,
};
use magenta_adapters::storage::turns::{
    check_prompt, check_turn_input, ensure_idle, ensure_no_active, last_user_message,
    next_sequence, prompt_sequence, regeneration_target, retry_target, streaming_answer,
};

fn stored(sequence: i64) -> StoredMessage {
    StoredMessage {
        id: sequence as u64 + 100,
        sequence,
        message: Message {
            role: MessageRole::User,
            content: format!("message {sequence}"),
            status: MessageStatus::Complete,
            attachments: Vec::new(),
        },
        created_at: 0,
        generation: String::new(),
        outcome: None,
        failure: None,
        trace: AssistantTrace { entries: Vec::new(), thinking_duration_ms: None },
        omitted_context_messages: 0,
    }
}

fn message(role: MessageRole) -> Message {
    Message { role, content: String::new(), status: MessageStatus::Complete, attachments: Vec::new() }
}

#[test]
fn stored_words_read_back() {
    for role in [MessageRole::User, MessageRole::Assistant] {
        assert_eq!(parse_role(role_name(role)), Ok(role));
    }
    for state in [MessageStatus::Complete, MessageStatus::Streaming, MessageStatus::Stopped, MessageStatus::Failed] {
        assert_eq!(parse_status(status(state)), Ok(state));
    }
    for mode in [ConversationMode::Chat, ConversationMode::Agent] {
        assert_eq!(parse_mode(mode_name(mode)), Ok(mode));
    }
    for kind in [AssistantTraceKind::ReasoningSummary, AssistantTraceKind::Tool] {
        assert_eq!(parse_trace_kind(trace_kind(kind)), Ok(kind));
    }
    for state in [
        AssistantTraceStatus::Streaming,
        AssistantTraceStatus::Requested,
        AssistantTraceStatus::Running,
        AssistantTraceStatus::AwaitingApproval,
        AssistantTraceStatus::Completed,
        AssistantTraceStatus::Rejected,
        AssistantTraceStatus::Failed,
        AssistantTraceStatus::Stopped,
    ] {
        assert_eq!(parse_trace_status(trace_status(state)), Ok(state));
    }
    for kind in [AgentActivityKind::ToolCall, AgentActivityKind::ApprovalRequested, AgentActivityKind::ToolResult] {
        assert_eq!(parse_activity_kind(activity_kind(kind)), Ok(kind));
    }
    assert_eq!(agent_run_status(MessageStatus::Streaming), "running");
    assert_eq!(agent_run_status(MessageStatus::Complete), "completed");
}

#[test]
fn unknown_words_are_invalid_data() {
    let error = parse_role("system").unwrap_err();
    assert_eq!(error.kind, StorageErrorKind::InvalidData);
    assert_eq!(error.message, "unknown message role");
    assert_eq!(parse_status("queued").unwrap_err().message, "unknown message status");
    assert_eq!(parse_mode("Chat").unwrap_err().message, "unknown conversation mode");
    assert_eq!(parse_trace_kind("").unwrap_err().message, "unknown assistant trace kind");
    assert_eq!(parse_trace_status("done").unwrap_err().message, "unknown assistant trace status");
    assert_eq!(parse_activity_kind("tool").unwrap_err().message, "unknown agent activity kind");
}

#[test]
fn paths_read_back_unless_they_hold_a_zero_byte() {
    let path = b"/home/user/image.png".to_vec();
    assert_eq!(decode_path(encode_path(&path)), Ok(path.clone()));
    let error = decode_path(b"a\0b".to_vec()).unwrap_err();
    assert_eq!(error.kind, StorageErrorKind::InvalidData);
    assert_eq!(error.message, "invalid attachment path");
    assert_eq!(decode_optional_path(None), Ok(None));
    assert_eq!(decode_optional_path(Some(path.clone())), Ok(Some(path)));
}

#[test]
fn a_backward_page_keeps_the_newest_fifty_oldest_first() {
    let newest_first = (0..51).rev().map(stored).collect::<Vec<_>>();
    let result = page(newest_first, true);
    assert_eq!(result.messages.len(), PAGE_SIZE);
    assert_eq!(result.messages[0].sequence, 1);
    assert_eq!(result.messages[49].sequence, 50);
    assert!(result.has_older);
    assert_eq!(result.older_cursor, Some(1));
    assert_eq!(result.newer_cursor, Some(50));
    assert!(result.has_newer);

    let short = page(vec![stored(3), stored(2)], false);
    assert_eq!(short.messages.iter().map(|m| m.sequence).collect::<Vec<_>>(), vec![2, 3]);
    assert!(!short.has_older);
    assert!(!short.has_newer);

    let empty = page(Vec::new(), true);
    assert!(empty.messages.is_empty());
    assert_eq!(empty.older_cursor, None);
    assert!(!empty.has_newer);
}

#[test]
fn a_forward_page_knows_newer_messages_by_its_extra_row() {
    let rows = (10..61).map(stored).collect::<Vec<_>>();
    let result = page_after(rows);
    assert_eq!(result.messages.len(), 50);
    assert!(result.has_newer);
    assert!(result.has_older);
    assert_eq!(result.newer_cursor, Some(59));
    let first = page_after(vec![stored(0)]);
    assert!(!first.has_older);
    assert!(!first.has_newer);
}

#[test]
fn a_page_around_a_hit_needs_the_hit() {
    assert_eq!(around_window(100), (76, 125));
    assert_eq!(around_window(3), (0, 28));
    assert_eq!(around_window(i64::MAX), (i64::MAX - 24, i64::MAX));
    let error = page_around(Vec::new(), true, true).unwrap_err();
    assert_eq!(error.kind, StorageErrorKind::NotFound);
    assert_eq!(error.message, "search result message does not exist");
    let found = page_around(vec![stored(4), stored(5)], true, false).unwrap();
    assert_eq!(found.older_cursor, Some(4));
    assert_eq!(found.newer_cursor, Some(5));
    assert!(found.has_older);
    assert!(!found.has_newer);
}

#[test]
fn windows_probe_only_what_the_read_did_not_learn() {
    let backward = read_window((0..51).rev().map(stored).collect(), false);
    assert_eq!(backward.known_older, Some(true));
    assert_eq!(window_probes(&backward), (None, Some(50)));
    let page = build_page(backward, false, true);
    assert!(page.has_older);
    assert!(page.has_newer);
    assert_eq!(page.messages[0].sequence, 1);

    let forward = read_window(vec![stored(7), stored(8)], true);
    assert_eq!(forward.known_newer, Some(false));
    assert_eq!(window_probes(&forward), (Some(7), None));
    let page = build_page(forward, true, true);
    assert!(page.has_older);
    assert!(!page.has_newer);
}

#[test]
fn turns_refuse_blank_prompts_and_busy_conversations() {
    assert_eq!(check_prompt(" \n\t").unwrap_err().message, "empty prompt");
    assert!(check_prompt(" hi ").is_ok());
    assert!(check_turn_input("", 1, false).is_ok());
    assert!(check_turn_input("", 0, true).is_ok());
    assert_eq!(check_turn_input(" ", 0, false).unwrap_err().kind, StorageErrorKind::InvalidData);
    let busy = ensure_idle(true).unwrap_err();
    assert_eq!(busy.kind, StorageErrorKind::Conflict);
    assert_eq!(busy.message, "conversation already has a streaming response");
    assert!(ensure_idle(false).is_ok());
    assert_eq!(ensure_no_active(2).unwrap_err().message, "conversation already has a streaming message");
    assert!(ensure_no_active(0).is_ok());
}

#[test]
fn regeneration_and_retry_need_the_right_target() {
    assert_eq!(regeneration_target(Some((4, "assistant".to_owned()))), Ok(4));
    assert_eq!(regeneration_target(None).unwrap_err().kind, StorageErrorKind::NotFound);
    assert_eq!(
        regeneration_target(Some((4, "user".to_owned()))).unwrap_err().message,
        "regeneration target is not an assistant"
    );
    assert_eq!(retry_target(Some((9, "assistant".to_owned(), "failed".to_owned()))), Ok(9));
    assert_eq!(
        retry_target(Some((9, "assistant".to_owned(), "complete".to_owned()))).unwrap_err().message,
        "retry target is not a failed assistant"
    );
    assert_eq!(retry_target(None).unwrap_err().message, "message does not exist");
}

#[test]
fn a_turn_answers_the_last_user_message() {
    let context = vec![message(MessageRole::User), message(MessageRole::Assistant), message(MessageRole::User), message(MessageRole::Assistant)];
    assert_eq!(last_user_message(&context), Ok(2));
    let error = last_user_message(&vec![message(MessageRole::Assistant)]).unwrap_err();
    assert_eq!(error.message, "missing user context");
    assert_eq!(next_sequence(4), Ok(5));
    assert_eq!(next_sequence(i64::MAX).unwrap_err().message, "message sequence overflow");
    assert_eq!(prompt_sequence(5), 4);
    assert_eq!(prompt_sequence(i64::MIN), i64::MIN);
    let answer = streaming_answer();
    assert_eq!(answer.status, MessageStatus::Streaming);
    assert!(answer.content.is_empty());
}

#[test]
fn database_failures_are_classified() {
    assert_eq!(database_error(DatabaseErrorCause::NoRows, "x".to_owned()).kind, StorageErrorKind::NotFound);
    assert_eq!(database_error(DatabaseErrorCause::InvalidColumnType, String::new()).kind, StorageErrorKind::InvalidData);
    assert_eq!(
        database_error(DatabaseErrorCause::Sqlite(SqliteCode::ConstraintViolation), String::new()).kind,
        StorageErrorKind::Conflict
    );
    assert_eq!(
        database_error(DatabaseErrorCause::Sqlite(SqliteCode::NotADatabase), String::new()).kind,
        StorageErrorKind::InvalidData
    );
    let busy = database_error(DatabaseErrorCause::Sqlite(SqliteCode::Other), "database is locked".to_owned());
    assert_eq!(busy.kind, StorageErrorKind::Unavailable);
    assert_eq!(busy.message, "database is locked");
}

#[test]
fn search_queries_quote_every_word() {
    assert_eq!(fts_query("  hello  world ").as_deref(), Some("\"hello\"* AND \"world\"*"));
    assert_eq!(fts_query("say \"hi\"").as_deref(), Some("\"say\"* AND \"\"\"hi\"\"\"*"));
    assert_eq!(fts_query(" \t "), None);
    assert_eq!(search_limit(500), 100);
    assert_eq!(search_limit(7), 7);
}

#[test]
fn marked_text_yields_byte_spans() {
    let (plain, spans) = marked_text("a\u{1}bc\u{2}d");
    assert_eq!(plain, "abcd");
    assert_eq!(spans, vec![(1, 3)]);
    let (plain, spans) = marked_text("é\u{1}ü\u{2}\u{1}\u{2}x\u{1}yz");
    assert_eq!(plain, "éüxyz");
    assert_eq!(spans, vec![(2, 4), (5, 7)]);
    let (_, none) = marked_text("\u{2}plain");
    assert!(none.is_empty());
}

fn hit(conversation_id: u64, source: u8, rank: f64, updated_at: i64) -> RankedSearchResult {
    RankedSearchResult {
        result: ConversationSearchResult {
            conversation_id,
            message_id: None,
            message_sequence: None,
            title: format!("c{conversation_id}"),
            title_highlights: Vec::new(),
            snippet: String::new(),
            snippet_highlights: Vec::new(),
            updated_at,
        },
        source,
        rank: rank_key(rank.to_bits()),
    }
}

#[test]
fn rank_keys_order_like_total_cmp() {
    let values = [-3.5_f64, -0.0, 0.0, 1.0, 2.5, f64::INFINITY];
    for pair in values.windows(2) {
        assert!(rank_key(pair[0].to_bits()) < rank_key(pair[1].to_bits()));
    }
}

#[test]
fn search_results_rank_merge_and_keep_one_hit_per_conversation() {
    let candidates = vec![
        hit(1, 1, -5.0, 10),
        hit(2, 0, -1.0, 10),
        hit(3, 0, -2.0, 10),
        hit(2, 1, -9.0, 10),
        hit(4, 0, -2.0, 20),
    ];
    let results = search_results(candidates, 10);
    let ids = results.iter().map(|r| r.conversation_id).collect::<Vec<_>>();
    assert_eq!(ids, vec![4, 3, 2, 1]);
    let limited = search_results(vec![hit(1, 0, 0.0, 0), hit(2, 0, 1.0, 0)], 1);
    assert_eq!(limited.len(), 1);
    assert_eq!(limited[0].conversation_id, 1);
}

#[test]
fn application_search_highlights_lowercase_matches() {
    assert_eq!(normalized_query("  HeLLo "), "hello");
    assert_eq!(like_pattern("ab"), "%ab%");
    assert_eq!(highlights("Hello hello", "hello"), vec![(0, 5), (6, 11)]);
    assert_eq!(highlights("aaaa", "aa"), vec![(0, 2), (2, 4)]);
    assert_eq!(highlights("Ünï ünï", "ünï"), vec![(0, 5), (6, 11)]);
    assert!(highlights("text", "").is_empty());
}

#[test]
fn attachments_are_limited_and_typed() {
    assert_eq!(check_attachment_count(5).unwrap_err().kind, StorageErrorKind::TooManyAttachments);
    assert!(check_attachment_count(4).is_ok());
    assert_eq!(check_attachment_file(false, 1).unwrap_err().message, "attachment is not a regular file");
    assert_eq!(check_attachment_file(true, 10 * 1024 * 1024 + 1).unwrap_err().kind, StorageErrorKind::AttachmentTooLarge);
    assert!(check_attachment_file(true, 10 * 1024 * 1024).is_ok());
    assert_eq!(unreadable_attachment().message, "cannot read attachment");

    let png = [0x89, b'P', b'N', b'G', b'\r', b'\n', 0x1a, b'\n', 0, 0, 0, 0];
    assert_eq!(image_type(&png), Ok(("image/png", "png")));
    let jpeg = [0xff, 0xd8, 0xff, 0xe0, 0, 0];
    assert_eq!(image_type(&jpeg), Ok(("image/jpeg", "jpg")));
    let text = b"plain text, not an image";
    let error = image_type(text).unwrap_err();
    assert_eq!(error.kind, StorageErrorKind::UnsupportedAttachment);
    assert_eq!(error.message, "attachment is not a supported image");
    let broken_gif = b"GIF89a";
    assert_eq!(image_type(broken_gif).unwrap_err().message, "attachment is not a readable GIF image");
    let large = vec![0u8; 10 * 1024 * 1024 + 1];
    assert_eq!(classify_attachment(&large).unwrap_err().kind, StorageErrorKind::AttachmentTooLarge);
}

#[test]
fn attachments_get_opaque_names() {
    assert_eq!(name_from_bytes(&vec![0x00, 0xab, 0x10], "png"), "00ab10.png");
    let name = opaque_name("gif");
    assert_eq!(name.len(), 36);
    assert!(name.ends_with(".gif"));
    assert!(name[..32].chars().all(|c| c.is_ascii_hexdigit()));
}

#[test]
fn imported_attachments_refer_to_the_picked_file() {
    let attachment = imported_attachment("cat.png".to_owned(), b"/home/me/cat.png".to_vec(), "image/png", 12);
    assert!(!attachment.managed);
    assert_eq!(attachment.path, b"/home/me/cat.png".to_vec());
    assert_eq!(attachment.name, "cat.png");
    assert_eq!(attachment.mime_type, "image/png");
    assert_eq!(attachment.byte_size, 12);
}

const README_SETTINGS: &str = r#"version = 1

[appearance]
theme = "dark"

[typography]
ui_font = "system-ui"
ui_size = 15
monospace_font = "system-monospace"
monospace_size = 13
math_font = "default"
inline_math_size = 13
display_math_size = 16
"#;

#[test]
fn the_documented_settings_file_reads_as_the_defaults() {
    assert_eq!(read_settings(README_SETTINGS), Ok(default_settings()));
    assert_eq!(read_settings(""), Ok(default_settings()));
}

#[test]
fn settings_fall_back_value_by_value() {
    let text = r#"
version = 2
[appearance]
theme = "light"
[typography]
ui_font = "Inter"
ui_size = 100
monospace_size = 9
[generation.chat]
provider = " openai "
model = "gpt-5"
effort = "high"
[generation.work]
provider = "openai"
model = ""
effort = "high"
"#;
    let settings = read_settings(text).unwrap();
    assert_eq!(settings.version, 2);
    assert_eq!(settings.appearance, AppearanceMode::Light);
    assert_eq!(settings.typography.ui_font, "Inter");
    assert_eq!(settings.typography.ui_size, 15);
    assert_eq!(settings.typography.monospace_size, 9);
    let chat = settings.generation.chat.unwrap();
    assert_eq!(chat.provider, "openai");
    assert_eq!(chat.model, "gpt-5");
    assert_eq!(chat.effort, EffortLevel::High);
    assert_eq!(settings.generation.work, None);

    let old = read_settings("version = 1\n[generation.chat]\nprovider = \"openai\"\nmodel = \"m\"\neffort = \"low\"\n").unwrap();
    assert_eq!(old.generation.chat, None);
    let odd = read_settings("version = 0\n[appearance]\ntheme = \"neon\"\n").unwrap();
    assert_eq!(odd.version, 1);
    assert_eq!(odd.appearance, AppearanceMode::Dark);
    assert!(read_settings("version = ").is_err());
}

#[test]
fn ids_convert_within_range() {
    assert_eq!(as_i64(5), Ok(5));
    assert_eq!(as_i64(u64::MAX).unwrap_err().kind, StorageErrorKind::InvalidData);
    assert_eq!(as_u64(7), Ok(7));
    assert_eq!(as_u64(-1).unwrap_err().message, "out of range integral type conversion attempted");
}

#[test]
fn finalizing_needs_a_terminal_answer_still_streaming_in_the_store() {
    let mut answer = message(MessageRole::Assistant);
    assert!(check_finalizable(&answer).is_ok());
    answer.status = MessageStatus::Streaming;
    assert_eq!(
        check_finalizable(&answer).unwrap_err().message,
        "only terminal assistant messages can be finalized"
    );
    assert!(check_finalizable(&message(MessageRole::User)).is_err());
    assert!(finalized_rows(1).is_ok());
    assert_eq!(finalized_rows(0).unwrap_err().kind, StorageErrorKind::Conflict);
}

#[test]
fn legacy_indexes_are_repaired_only_when_orphaned() {
    let inline = "CREATE TABLE messages(id INTEGER, Unique(conversation_id, sequence))";
    assert!(!needs_index_repair(inline, true));
    assert!(needs_index_repair("CREATE TABLE messages(id INTEGER)", true));
    assert!(!needs_index_repair("CREATE TABLE messages(id INTEGER)", false));
    assert_eq!(
        check_no_duplicate_sequences(true).unwrap_err().message,
        "cannot repair duplicate message sequences"
    );
    assert!(check_no_duplicate_sequences(false).is_ok());
}

#[test]
fn memories_need_content_and_reviews_need_a_memory() {
    assert_eq!(check_memory("   ").unwrap_err().message, "memory is empty");
    assert!(check_memory("prefers tabs").is_ok());
    assert_eq!(review_outcome(0).unwrap_err().kind, StorageErrorKind::NotFound);
    assert!(review_outcome(1).is_ok());
    assert!(!cache_over_budget(MAX_CACHE_BYTES));
    assert!(cache_over_budget(MAX_CACHE_BYTES + 1));
}

#[test]
fn decode_mode_reads_both_modes_and_names_an_unknown_one() {
    assert_eq!(decode_mode("chat"), Ok(ConversationMode::Chat));
    assert_eq!(decode_mode("agent"), Ok(ConversationMode::Agent));
    let error = decode_mode("solo").unwrap_err();
    assert_eq!(error.kind, StorageErrorKind::InvalidData);
    assert_eq!(error.message, "unknown conversation mode solo");
}

fn activity(message_id: i64, call_id: &str, kind: &str, status: &str, summary: &str, detail: &str, at: i64) -> LegacyActivity {
    LegacyActivity {
        message_id,
        call_id: call_id.to_owned(),
        tool_name: "write_file".to_owned(),
        kind: kind.to_owned(),
        status: status.to_owned(),
        summary: summary.to_owned(),
        detail: detail.to_owned(),
        created_at: at,
    }
}

#[test]
fn legacy_activity_folds_into_one_entry_per_call_by_message() {
    let rows = vec![
        activity(7, "c1", "tool-call", "running", "Write a", "{\"path\":\"a\"}", 10),
        activity(7, "c1", "approval-requested", "running", "Approve a", "ignored", 11),
        activity(7, "c1", "tool-result", "failed", "Wrote a", "The user REJECTED the change", 12),
        activity(7, "c2", "approval-requested", "running", "Approve b", "{\"path\":\"b\"}", 13),
        activity(3, "c9", "tool-result", "failed", "Wrote c", "disk full", 14),
        activity(7, "c2", "tool-result", "completed", "Wrote b", "ok", 15),
    ];
    let groups = legacy_traces(&rows);
    assert_eq!(groups.len(), 2);
    assert_eq!(groups[0].0, 3);
    assert_eq!(groups[1].0, 7);

    let c9 = &groups[0].1[0];
    assert_eq!(c9.status, AssistantTraceStatus::Failed);
    assert_eq!(c9.output, "disk full");
    assert_eq!(c9.input, "");
    assert_eq!(c9.title, "Wrote c");
    assert_eq!(c9.started_at, 14);
    assert_eq!(c9.finished_at, Some(14));

    let calls = &groups[1].1;
    assert_eq!(calls.len(), 2);
    assert_eq!(calls[0].call_id, "c1");
    assert_eq!(calls[0].input, "{\"path\":\"a\"}");
    assert_eq!(calls[0].title, "Approve a");
    assert_eq!(calls[0].status, AssistantTraceStatus::Rejected);
    assert_eq!(calls[0].started_at, 10);
    assert_eq!(calls[0].finished_at, Some(12));
    assert_eq!(calls[1].call_id, "c2");
    assert_eq!(calls[1].input, "{\"path\":\"b\"}");
    assert_eq!(calls[1].status, AssistantTraceStatus::Completed);
    assert_eq!(calls[1].output, "ok");
    assert_eq!(calls[1].tool_name, "write_file");
}

#[test]
fn legacy_activity_of_another_kind_only_opens_its_call() {
    let groups = legacy_traces(&vec![activity(1, "c", "note", "running", "Noted", "x", 5)]);
    assert_eq!(groups.len(), 1);
    let call = &groups[0].1[0];
    assert_eq!(call.status, AssistantTraceStatus::Requested);
    assert_eq!(call.title, "Noted");
    assert_eq!(call.input, "");
    assert_eq!(call.finished_at, None);
}

#[test]
fn migrated_calls_become_numbered_tool_entries() {
    let groups = legacy_traces(&vec![
        activity(2, "a", "tool-call", "running", "Read", "{}", 1),
        activity(2, "b", "tool-call", "running", "List", "[]", 2),
    ]);
    let trace = migrated_trace(&groups[0].1);
    assert_eq!(trace.thinking_duration_ms, None);
    assert_eq!(trace.entries.len(), 2);
    assert_eq!(trace.entries[0].key, "tool:a");
    assert_eq!(trace.entries[0].sequence, 0);
    assert_eq!(trace.entries[0].kind, AssistantTraceKind::Tool);
    assert_eq!(trace.entries[0].tool_name.as_deref(), Some("write_file"));
    assert_eq!(trace.entries[0].started_at, Some(1));
    assert_eq!(trace.entries[1].key, "tool:b");
    assert_eq!(trace.entries[1].sequence, 1);
    assert_eq!(trace.entries[1].input, "[]");
}

fn trace_row(kind: &str, status: &str, sequence: i64) -> TraceRow {
    TraceRow {
        key: "summary:0".to_owned(),
        sequence,
        kind: kind.to_owned(),
        status: status.to_owned(),
        title: "Thinking".to_owned(),
        tool_name: None,
        input: String::new(),
        output: "text".to_owned(),
        started_at: Some(3),
        finished_at: None,
    }
}

#[test]
fn stored_trace_rows_read_back_or_fail_on_the_first_bad_row() {
    let trace = assistant_trace(&vec![trace_row("reasoning_summary", "completed", 0)], Some(1500)).unwrap();
    assert_eq!(trace.thinking_duration_ms, Some(1500));
    assert_eq!(
        trace.entries,
        vec![AssistantTraceEntry {
            key: "summary:0".to_owned(),
            sequence: 0,
            kind: AssistantTraceKind::ReasoningSummary,
            status: AssistantTraceStatus::Completed,
            title: "Thinking".to_owned(),
            tool_name: None,
            input: String::new(),
            output: "text".to_owned(),
            started_at: Some(3),
            finished_at: None,
        }]
    );
    let error = assistant_trace(&vec![trace_row("tool", "done", 0), trace_row("other", "completed", 1)], None).unwrap_err();
    assert_eq!(error.message, "unknown assistant trace status");
    let error = assistant_trace(&vec![trace_row("other", "done", 0)], None).unwrap_err();
    assert_eq!(error.message, "unknown assistant trace kind");
    let error = assistant_trace(&vec![trace_row("tool", "running", -1)], None).unwrap_err();
    assert_eq!(error.kind, StorageErrorKind::InvalidData);
    assert_eq!(error.message, "out of range integral type conversion attempted");
    let error = assistant_trace(&Vec::new(), Some(-5)).unwrap_err();
    assert_eq!(error.kind, StorageErrorKind::InvalidData);
    assert!(assistant_trace(&Vec::new(), None).unwrap().entries.is_empty());
}

fn document_of(writes: &[SettingWrite]) -> String {
    let mut document = toml_edit::DocumentMut::new();
    for write in writes {
        let item = match &write.value {
            SettingValue::Integer(number) => toml_edit::value(*number),
            SettingValue::Text(text) => toml_edit::value(text.as_str()),
        };
        match write.path.as_slice() {
            [key] => document[*key] = item,
            [table, key] => document[*table][*key] = item,
            [table, inner, key] => document[*table][*inner][*key] = item,
            _ => panic!("unexpected path {:?}", write.path),
        }
    }
    document.to_string()
}

fn saved_settings() -> AppSettings {
    AppSettings {
        version: 2,
        appearance: AppearanceMode::Light,
        typography: TypographySettings {
            ui_font: "Inter".to_owned(),
            ui_size: 14,
            monospace_font: "JetBrains Mono".to_owned(),
            monospace_size: 12,
            math_font: "default".to_owned(),
            inline_math_size: 13,
            display_math_size: 18,
        },
        generation: GenerationSettings {
            chat: Some(GenerationPreference {
                provider: "openai-codex".to_owned(),
                model: "gpt-5.4".to_owned(),
                effort: EffortLevel::High,
            }),
            work: None,
        },
    }
}

#[test]
fn saving_writes_the_version_appearance_and_typography() {
    let writes = settings_writes(&saved_settings());
    assert_eq!(writes.len(), 9);
    assert_eq!(writes[0], SettingWrite { path: vec!["version"], value: SettingValue::Integer(2) });
    assert_eq!(
        writes[1],
        SettingWrite { path: vec!["appearance", "theme"], value: SettingValue::Text("light".to_owned()) }
    );
    assert_eq!(
        writes[4],
        SettingWrite { path: vec!["typography", "monospace_font"], value: SettingValue::Text("JetBrains Mono".to_owned()) }
    );
    assert_eq!(
        writes[8],
        SettingWrite { path: vec!["typography", "display_math_size"], value: SettingValue::Integer(18) }
    );
    assert_eq!(appearance_word(AppearanceMode::System), "system");
    assert_eq!(appearance_word(AppearanceMode::Dark), "dark");
}

#[test]
fn saving_a_model_preference_writes_provider_model_and_effort() {
    let preference = saved_settings().generation.chat.unwrap();
    let writes = preference_writes("chat", &preference);
    assert_eq!(writes.len(), 3);
    assert_eq!(writes[0].path, vec!["generation", "chat", "provider"]);
    assert_eq!(writes[0].value, SettingValue::Text("openai-codex".to_owned()));
    assert_eq!(writes[1].value, SettingValue::Text("gpt-5.4".to_owned()));
    assert_eq!(writes[2].path, vec!["generation", "chat", "effort"]);
    assert_eq!(writes[2].value, SettingValue::Text("high".to_owned()));
}

#[test]
fn saved_settings_read_back_as_themselves() {
    let saved = saved_settings();
    let mut writes = settings_writes(&saved);
    writes.extend(preference_writes("chat", saved.generation.chat.as_ref().unwrap()));
    let text = document_of(&writes);
    assert_eq!(read_settings(&text), Ok(saved));
}

#[test]
fn comments_are_gathered_from_fragments_that_hold_them() {
    assert_eq!(gather_comments(&Vec::new()), None);
    assert_eq!(gather_comments(&vec![" ".to_owned(), "\n".to_owned()]), None);
    assert_eq!(
        gather_comments(&vec!["# keep".to_owned(), "  ".to_owned(), " # model\n".to_owned(), "#last".to_owned()]),
        Some("# keep\n # model\n#last".to_owned())
    );
}

#[test]
fn saving_writes_only_the_documented_keys() {
    let saved = saved_settings();
    let documented = [
        vec!["version"],
        vec!["appearance", "theme"],
        vec!["typography", "ui_font"],
        vec!["typography", "ui_size"],
        vec!["typography", "monospace_font"],
        vec!["typography", "monospace_size"],
        vec!["typography", "math_font"],
        vec!["typography", "inline_math_size"],
        vec!["typography", "display_math_size"],
    ];
    let paths: Vec<Vec<&str>> = settings_writes(&saved).into_iter().map(|write| write.path).collect();
    assert_eq!(paths, documented.to_vec());
    let preference = saved.generation.chat.unwrap();
    for write in preference_writes("work", &preference) {
        assert_eq!(write.path[..2], ["generation", "work"]);
    }
}

#[test]
fn saving_a_preference_keeps_the_comments_of_the_values_it_replaces() {
    let text = "version = 2\n\n[generation.chat]\n# chosen in the picker\nprovider = \"p\"\nmodel = \"old\" # the model\neffort = \"low\"\n";
    let preference = GenerationPreference {
        provider: "openai-codex".to_owned(),
        model: "gpt-5.4".to_owned(),
        effort: EffortLevel::High,
    };
    let saved = save_preference(text, "chat", &preference).unwrap();
    assert!(saved.contains("# chosen in the picker"));
    assert!(saved.contains("# the model"));
    assert!(saved.contains("\"gpt-5.4\""));
    assert!(!saved.contains("\"old\""));
    assert_eq!(read_settings(&saved).unwrap().generation.chat, Some(preference.clone()));

    let replaced = save_preference("generation = 3\n", "work", &preference).unwrap();
    assert_eq!(read_settings(&format!("version = 2\n{replaced}")).unwrap().generation.work, Some(preference.clone()));
    assert_eq!(save_preference("version = ", "chat", &preference), None);
}

#[test]
fn removing_a_preference_prunes_only_empty_uncommented_tables() {
    let text = "version = 2\n\n[generation.chat]\nprovider = \"p\"\nmodel = \"m\"\neffort = \"low\"\n";
    let removed = remove_preference(text, "chat").unwrap();
    assert!(!removed.contains("generation"));
    assert!(removed.contains("version = 2"));

    let text = "[generation.chat]\nprovider = \"p\"\nmodel = \"m\"\neffort = \"low\"\n\n[generation.work]\nprovider = \"q\"\n";
    let removed = remove_preference(text, "chat").unwrap();
    assert!(!removed.contains("[generation.chat]"));
    assert!(removed.contains("[generation.work]"));
    assert_eq!(read_settings(&format!("version = 2\n{removed}")).unwrap().generation.chat, None);

    let text = "[generation.chat]\nprovider = \"p\"\nmodel = \"m\"\neffort = \"low\"\ntemperature = 1\n";
    let removed = remove_preference(text, "chat").unwrap();
    assert!(removed.contains("[generation.chat]"));
    assert!(removed.contains("temperature = 1"));
    assert!(!removed.contains("provider"));

    let text = "# models\n[generation]\n\n[generation.chat]\nprovider = \"p\"\n";
    let removed = remove_preference(text, "chat").unwrap();
    assert!(removed.contains("# models"));
    assert!(removed.contains("[generation]"));
    assert!(!removed.contains("[generation.chat]"));
}

#[test]
fn removing_a_preference_keeps_the_comments_that_stood_with_it() {
    let text = "[generation.chat]\n# picked by hand\nprovider = \"p\"\n# the model\nmodel = \"m\"\neffort = \"low\"\n";
    let removed = remove_preference(text, "chat").unwrap();
    assert!(removed.contains("[generation.chat]"));
    assert!(removed.contains("# picked by hand"));
    assert!(removed.contains("# the model"));
    assert!(removed.find("# picked by hand") < removed.find("[generation.chat]"));
    assert!(!removed.contains("provider"));
    assert!(!removed.contains("effort"));
}

#[test]
fn removing_a_preference_leaves_other_documents_alone() {
    assert_eq!(remove_preference("version = 2\n", "chat"), Some("version = 2\n".to_owned()));
    assert_eq!(remove_preference("generation = 3\n", "chat"), Some("generation = 3\n".to_owned()));
    assert_eq!(remove_preference("[generation]\nchat = 1\n", "chat"), Some("[generation]\nchat = 1\n".to_owned()));
    assert_eq!(remove_preference("version = ", "chat"), None);
}

#[test]
fn writing_the_settings_keeps_other_keys_and_comments() {
    let text = "# my settings\nversion = 1\nextra = \"kept\"\n\n[typography]\nui_font = \"Old\" # the font\nline_height = 3\n";
    let written = settings_written(text, &saved_settings()).unwrap();
    assert!(written.contains("# my settings"));
    assert!(written.contains("extra = \"kept\""));
    assert!(written.contains("line_height = 3"));
    assert!(written.contains("version = 2"));
    assert!(written.contains("\"Inter\""));
    assert!(!written.contains("\"Old\""));
    assert_eq!(settings_written("typography = 3\n", &saved_settings()), None);
    assert_eq!(settings_written("version = ", &saved_settings()), None);
}

#[test]
fn saved_settings_text_reads_back_as_the_settings() {
    let saved = saved_settings();
    let text = saved_settings_text("", &saved).unwrap();
    assert_eq!(read_settings(&text), Ok(saved.clone()));

    let mut cleared = saved.clone();
    cleared.generation.chat = None;
    let again = saved_settings_text(&text, &cleared).unwrap();
    assert_eq!(read_settings(&again), Ok(cleared));
    assert!(!again.contains("openai-codex"));
}

#[test]
fn saving_into_a_broken_document_reports_why() {
    let error = saved_settings_text("version = ", &saved_settings()).unwrap_err();
    assert!(!error.is_empty());
    assert_eq!(
        saved_settings_text("appearance = 1\n", &saved_settings()),
        Err("the settings document could not be edited".to_owned())
    );
}

#[test]
fn changing_a_missing_conversation_is_not_found() {
    assert!(ensure_conversation_changed(1).is_ok());
    let error = ensure_conversation_changed(0).unwrap_err();
    assert_eq!(error.kind, StorageErrorKind::NotFound);
    assert_eq!(error.message, "conversation does not exist");
}

#[test]
fn turns_are_planned_from_their_input_state_and_mode() {
    assert_eq!(
        begin_turn_plan("Hello", 0, false, false, 4, ConversationMode::Chat),
        Ok(TurnPlan { user_sequence: 4, assistant_sequence: 5, starts_agent_run: false })
    );
    assert_eq!(
        begin_turn_plan("  ", 0, true, false, 0, ConversationMode::Agent),
        Ok(TurnPlan { user_sequence: 0, assistant_sequence: 1, starts_agent_run: true })
    );
    let empty = begin_turn_plan(" ", 0, false, true, 0, ConversationMode::Chat).unwrap_err();
    assert_eq!((empty.kind, empty.message.as_str()), (StorageErrorKind::InvalidData, "empty prompt"));
    let busy = begin_turn_plan("Hi", 0, false, true, 0, ConversationMode::Chat).unwrap_err();
    assert_eq!(busy.kind, StorageErrorKind::Conflict);
    let full = begin_turn_plan("Hi", 0, false, false, i64::MAX, ConversationMode::Chat).unwrap_err();
    assert_eq!(full.message, "message sequence overflow");
    assert_eq!(
        regeneration_plan(7, ConversationMode::Agent),
        TurnPlan { user_sequence: 6, assistant_sequence: 7, starts_agent_run: true }
    );
    assert_eq!(regeneration_plan(i64::MIN, ConversationMode::Chat).user_sequence, i64::MIN);
    assert_eq!(
        retry_plan(2, 9, ConversationMode::Chat),
        TurnPlan { user_sequence: 2, assistant_sequence: 9, starts_agent_run: false }
    );
}
