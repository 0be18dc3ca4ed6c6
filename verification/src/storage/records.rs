//! How stored rows are read back: the words that the tables use for roles, states and
//! modes, the bytes of stored paths, and how a window of rows becomes a page of
//! messages with its cursors.
use vstd::prelude::*;

use super::database::{failure, StorageError, StorageErrorKind};
use super::traces::AssistantTrace;
use crate::domain::{
    AgentActivityKind, AssistantTraceKind, AssistantTraceStatus, ConversationMode, Message,
    MessageRole, MessageStatus,
};
use crate::text::str_is;

verus! {

/// The number of messages on a page.
pub const PAGE_SIZE: usize = 50;

// ----- words of the tables -----

pub open spec fn role_text(role: MessageRole) -> Seq<char> {
    match role {
        MessageRole::User => "user"@,
        MessageRole::Assistant => "assistant"@,
    }
}

pub open spec fn status_text(status: MessageStatus) -> Seq<char> {
    match status {
        MessageStatus::Complete => "complete"@,
        MessageStatus::Streaming => "streaming"@,
        MessageStatus::Stopped => "stopped"@,
        MessageStatus::Failed => "failed"@,
    }
}

pub open spec fn run_status_text(status: MessageStatus) -> Seq<char> {
    match status {
        MessageStatus::Complete => "completed"@,
        MessageStatus::Streaming => "running"@,
        MessageStatus::Stopped => "stopped"@,
        MessageStatus::Failed => "failed"@,
    }
}

pub open spec fn mode_text(mode: ConversationMode) -> Seq<char> {
    match mode {
        ConversationMode::Chat => "chat"@,
        ConversationMode::Agent => "agent"@,
    }
}

pub open spec fn trace_kind_text(kind: AssistantTraceKind) -> Seq<char> {
    match kind {
        AssistantTraceKind::ReasoningSummary => "reasoning_summary"@,
        AssistantTraceKind::Tool => "tool"@,
    }
}

pub open spec fn trace_status_text(status: AssistantTraceStatus) -> Seq<char> {
    match status {
        AssistantTraceStatus::Streaming => "streaming"@,
        AssistantTraceStatus::Requested => "requested"@,
        AssistantTraceStatus::Running => "running"@,
        AssistantTraceStatus::AwaitingApproval => "awaiting_approval"@,
        AssistantTraceStatus::Completed => "completed"@,
        AssistantTraceStatus::Rejected => "rejected"@,
        AssistantTraceStatus::Failed => "failed"@,
        AssistantTraceStatus::Stopped => "stopped"@,
    }
}

pub open spec fn activity_kind_text(kind: AgentActivityKind) -> Seq<char> {
    match kind {
        AgentActivityKind::ToolCall => "tool-call"@,
        AgentActivityKind::ApprovalRequested => "approval-requested"@,
        AgentActivityKind::ToolResult => "tool-result"@,
    }
}

/// The word stored for a role.
pub fn role_name(role: MessageRole) -> (name: &'static str)
    ensures
        name@ == role_text(role),
{
    match role {
        MessageRole::User => "user",
        MessageRole::Assistant => "assistant",
    }
}

/// The word stored for a message state.
pub fn status(state: MessageStatus) -> (name: &'static str)
    ensures
        name@ == status_text(state),
{
    match state {
        MessageStatus::Complete => "complete",
        MessageStatus::Streaming => "streaming",
        MessageStatus::Stopped => "stopped",
        MessageStatus::Failed => "failed",
    }
}

/// The word stored for the agent run that belongs to a message in the given state.
pub fn agent_run_status(status: MessageStatus) -> (name: &'static str)
    ensures
        name@ == run_status_text(status),
{
    match status {
        MessageStatus::Complete => "completed",
        MessageStatus::Streaming => "running",
        MessageStatus::Stopped => "stopped",
        MessageStatus::Failed => "failed",
    }
}

/// The word stored for a conversation mode.
pub fn mode_name(mode: ConversationMode) -> (name: &'static str)
    ensures
        name@ == mode_text(mode),
{
    match mode {
        ConversationMode::Chat => "chat",
        ConversationMode::Agent => "agent",
    }
}

/// The word stored for a trace entry's kind.
pub fn trace_kind(kind: AssistantTraceKind) -> (name: &'static str)
    ensures
        name@ == trace_kind_text(kind),
{
    match kind {
        AssistantTraceKind::ReasoningSummary => "reasoning_summary",
        AssistantTraceKind::Tool => "tool",
    }
}

/// The word stored for a trace entry's state.
pub fn trace_status(status: AssistantTraceStatus) -> (name: &'static str)
    ensures
        name@ == trace_status_text(status),
{
    match status {
        AssistantTraceStatus::Streaming => "streaming",
        AssistantTraceStatus::Requested => "requested",
        AssistantTraceStatus::Running => "running",
        AssistantTraceStatus::AwaitingApproval => "awaiting_approval",
        AssistantTraceStatus::Completed => "completed",
        AssistantTraceStatus::Rejected => "rejected",
        AssistantTraceStatus::Failed => "failed",
        AssistantTraceStatus::Stopped => "stopped",
    }
}

/// The word stored for an agent activity's kind.
pub fn activity_kind(kind: AgentActivityKind) -> (name: &'static str)
    ensures
        name@ == activity_kind_text(kind),
{
    match kind {
        AgentActivityKind::ToolCall => "tool-call",
        AgentActivityKind::ApprovalRequested => "approval-requested",
        AgentActivityKind::ToolResult => "tool-result",
    }
}

/// A word read back: the value whose word it is, or invalid data with `message`.
pub open spec fn parsed_as<T>(r: Result<T, StorageError>, value: Option<T>, message: Seq<char>) -> bool {
    match value {
        Some(v) => r == Ok::<T, StorageError>(v),
        None => r matches Err(e) && e.kind == StorageErrorKind::InvalidData && e.message@ == message,
    }
}

pub open spec fn role_of(text: Seq<char>) -> Option<MessageRole> {
    if text == "user"@ {
        Some(MessageRole::User)
    } else if text == "assistant"@ {
        Some(MessageRole::Assistant)
    } else {
        None
    }
}

pub open spec fn status_of(text: Seq<char>) -> Option<MessageStatus> {
    if text == "complete"@ {
        Some(MessageStatus::Complete)
    } else if text == "streaming"@ {
        Some(MessageStatus::Streaming)
    } else if text == "stopped"@ {
        Some(MessageStatus::Stopped)
    } else if text == "failed"@ {
        Some(MessageStatus::Failed)
    } else {
        None
    }
}

pub open spec fn mode_of(text: Seq<char>) -> Option<ConversationMode> {
    if text == "chat"@ {
        Some(ConversationMode::Chat)
    } else if text == "agent"@ {
        Some(ConversationMode::Agent)
    } else {
        None
    }
}

pub open spec fn trace_kind_of(text: Seq<char>) -> Option<AssistantTraceKind> {
    if text == "reasoning_summary"@ {
        Some(AssistantTraceKind::ReasoningSummary)
    } else if text == "tool"@ {
        Some(AssistantTraceKind::Tool)
    } else {
        None
    }
}

pub open spec fn trace_status_of(text: Seq<char>) -> Option<AssistantTraceStatus> {
    if text == "streaming"@ {
        Some(AssistantTraceStatus::Streaming)
    } else if text == "requested"@ {
        Some(AssistantTraceStatus::Requested)
    } else if text == "running"@ {
        Some(AssistantTraceStatus::Running)
    } else if text == "awaiting_approval"@ {
        Some(AssistantTraceStatus::AwaitingApproval)
    } else if text == "completed"@ {
        Some(AssistantTraceStatus::Completed)
    } else if text == "rejected"@ {
        Some(AssistantTraceStatus::Rejected)
    } else if text == "failed"@ {
        Some(AssistantTraceStatus::Failed)
    } else if text == "stopped"@ {
        Some(AssistantTraceStatus::Stopped)
    } else {
        None
    }
}

pub open spec fn activity_kind_of(text: Seq<char>) -> Option<AgentActivityKind> {
    if text == "tool-call"@ {
        Some(AgentActivityKind::ToolCall)
    } else if text == "approval-requested"@ {
        Some(AgentActivityKind::ApprovalRequested)
    } else if text == "tool-result"@ {
        Some(AgentActivityKind::ToolResult)
    } else {
        None
    }
}

/// Reads a stored role.
pub fn parse_role(value: &str) -> (r: Result<MessageRole, StorageError>)
    ensures
        parsed_as(r, role_of(value@), "unknown message role"@),
{
    if str_is(value, "user") {
        Ok(MessageRole::User)
    } else if str_is(value, "assistant") {
        Ok(MessageRole::Assistant)
    } else {
        Err(failure(StorageErrorKind::InvalidData, "unknown message role"))
    }
}

/// Reads a stored message state.
pub fn parse_status(value: &str) -> (r: Result<MessageStatus, StorageError>)
    ensures
        parsed_as(r, status_of(value@), "unknown message status"@),
{
    if str_is(value, "complete") {
        Ok(MessageStatus::Complete)
    } else if str_is(value, "streaming") {
        Ok(MessageStatus::Streaming)
    } else if str_is(value, "stopped") {
        Ok(MessageStatus::Stopped)
    } else if str_is(value, "failed") {
        Ok(MessageStatus::Failed)
    } else {
        Err(failure(StorageErrorKind::InvalidData, "unknown message status"))
    }
}

/// Reads a stored conversation mode.
pub fn parse_mode(value: &str) -> (r: Result<ConversationMode, StorageError>)
    ensures
        parsed_as(r, mode_of(value@), "unknown conversation mode"@),
{
    if str_is(value, "chat") {
        Ok(ConversationMode::Chat)
    } else if str_is(value, "agent") {
        Ok(ConversationMode::Agent)
    } else {
        Err(failure(StorageErrorKind::InvalidData, "unknown conversation mode"))
    }
}

/// Reads a stored trace kind.
pub fn parse_trace_kind(value: &str) -> (r: Result<AssistantTraceKind, StorageError>)
    ensures
        parsed_as(r, trace_kind_of(value@), "unknown assistant trace kind"@),
{
    if str_is(value, "reasoning_summary") {
        Ok(AssistantTraceKind::ReasoningSummary)
    } else if str_is(value, "tool") {
        Ok(AssistantTraceKind::Tool)
    } else {
        Err(failure(StorageErrorKind::InvalidData, "unknown assistant trace kind"))
    }
}

/// Reads a stored trace state.
pub fn parse_trace_status(value: &str) -> (r: Result<AssistantTraceStatus, StorageError>)
    ensures
        parsed_as(r, trace_status_of(value@), "unknown assistant trace status"@),
{
    if str_is(value, "streaming") {
        Ok(AssistantTraceStatus::Streaming)
    } else if str_is(value, "requested") {
        Ok(AssistantTraceStatus::Requested)
    } else if str_is(value, "running") {
        Ok(AssistantTraceStatus::Running)
    } else if str_is(value, "awaiting_approval") {
        Ok(AssistantTraceStatus::AwaitingApproval)
    } else if str_is(value, "completed") {
        Ok(AssistantTraceStatus::Completed)
    } else if str_is(value, "rejected") {
        Ok(AssistantTraceStatus::Rejected)
    } else if str_is(value, "failed") {
        Ok(AssistantTraceStatus::Failed)
    } else if str_is(value, "stopped") {
        Ok(AssistantTraceStatus::Stopped)
    } else {
        Err(failure(StorageErrorKind::InvalidData, "unknown assistant trace status"))
    }
}

/// Reads a stored agent activity kind.
pub fn parse_activity_kind(value: &str) -> (r: Result<AgentActivityKind, StorageError>)
    ensures
        parsed_as(r, activity_kind_of(value@), "unknown agent activity kind"@),
{
    if str_is(value, "tool-call") {
        Ok(AgentActivityKind::ToolCall)
    } else if str_is(value, "approval-requested") {
        Ok(AgentActivityKind::ApprovalRequested)
    } else if str_is(value, "tool-result") {
        Ok(AgentActivityKind::ToolResult)
    } else {
        Err(failure(StorageErrorKind::InvalidData, "unknown agent activity kind"))
    }
}

/// Every role, state and mode written reads back as itself.
pub proof fn lemma_message_words_read_back(role: MessageRole, state: MessageStatus, mode: ConversationMode)
    ensures
        role_of(role_text(role)) == Some(role),
        status_of(status_text(state)) == Some(state),
        mode_of(mode_text(mode)) == Some(mode),
{
    reveal_strlit("user");
    reveal_strlit("assistant");
    reveal_strlit("complete");
    reveal_strlit("streaming");
    reveal_strlit("stopped");
    reveal_strlit("failed");
    reveal_strlit("chat");
    reveal_strlit("agent");
    assert("assistant"@.len() != "user"@.len());
    assert("streaming"@.len() != "complete"@.len());
    assert("stopped"@.len() != "streaming"@.len());
    assert("stopped"@.len() != "complete"@.len());
    assert("failed"@.len() != "complete"@.len());
    assert("failed"@.len() != "streaming"@.len());
    assert("failed"@.len() != "stopped"@.len());
    assert("agent"@.len() != "chat"@.len());
}

/// Every trace kind and trace state written reads back as itself.
pub proof fn lemma_trace_words_read_back(kind: AssistantTraceKind, state: AssistantTraceStatus)
    ensures
        trace_kind_of(trace_kind_text(kind)) == Some(kind),
        trace_status_of(trace_status_text(state)) == Some(state),
{
    reveal_strlit("reasoning_summary");
    reveal_strlit("tool");
    reveal_strlit("streaming");
    reveal_strlit("requested");
    reveal_strlit("running");
    reveal_strlit("awaiting_approval");
    reveal_strlit("completed");
    reveal_strlit("rejected");
    reveal_strlit("failed");
    reveal_strlit("stopped");
    assert("tool"@.len() != "reasoning_summary"@.len());
    match state {
        AssistantTraceStatus::Streaming => {},
        AssistantTraceStatus::Requested => {
            assert("requested"@[0] != "streaming"@[0]);
        },
        AssistantTraceStatus::Running => {
            assert("running"@.len() != "streaming"@.len());
            assert("running"@.len() != "requested"@.len());
        },
        AssistantTraceStatus::AwaitingApproval => {
            assert("awaiting_approval"@[0] != "streaming"@[0]);
            assert("awaiting_approval"@[0] != "requested"@[0]);
            assert("awaiting_approval"@[0] != "running"@[0]);
        },
        AssistantTraceStatus::Completed => {
            assert("completed"@[0] != "streaming"@[0]);
            assert("completed"@[0] != "requested"@[0]);
            assert("completed"@[0] != "running"@[0]);
            assert("completed"@[0] != "awaiting_approval"@[0]);
        },
        AssistantTraceStatus::Rejected => {
            assert("rejected"@[0] != "streaming"@[0]);
            assert("rejected"@.len() != "requested"@.len());
            assert("rejected"@.len() != "running"@.len());
            assert("rejected"@[0] != "awaiting_approval"@[0]);
            assert("rejected"@[0] != "completed"@[0]);
        },
        AssistantTraceStatus::Failed => {
            assert("failed"@[0] != "streaming"@[0]);
            assert("failed"@[0] != "requested"@[0]);
            assert("failed"@[0] != "running"@[0]);
            assert("failed"@[0] != "awaiting_approval"@[0]);
            assert("failed"@[0] != "completed"@[0]);
            assert("failed"@[0] != "rejected"@[0]);
        },
        AssistantTraceStatus::Stopped => {
            assert("stopped"@.len() != "streaming"@.len());
            assert("stopped"@[0] != "requested"@[0]);
            assert("stopped"@[0] != "running"@[0]);
            assert("stopped"@[0] != "awaiting_approval"@[0]);
            assert("stopped"@[0] != "completed"@[0]);
            assert("stopped"@[0] != "rejected"@[0]);
            assert("stopped"@[0] != "failed"@[0]);
        },
    }
}

/// Every activity kind written reads back as itself.
pub proof fn lemma_activity_words_read_back(kind: AgentActivityKind)
    ensures
        activity_kind_of(activity_kind_text(kind)) == Some(kind),
{
    reveal_strlit("tool-call");
    reveal_strlit("approval-requested");
    reveal_strlit("tool-result");
    assert("approval-requested"@[0] != "tool-call"@[0]);
    assert("tool-result"@.len() != "tool-call"@.len());
    assert("tool-result"@[0] != "approval-requested"@[0]);
}

// ----- paths -----

/// A path as stored: its raw bytes.
pub fn encode_path(path: &Vec<u8>) -> (bytes: Vec<u8>)
    ensures
        bytes@ == path@,
{
    path.clone()
}

/// A stored path read back: refused where a byte is zero, which no path holds.
pub fn decode_path(bytes: Vec<u8>) -> (r: Result<Vec<u8>, StorageError>)
    ensures
        (exists|i: int| 0 <= i < bytes@.len() && bytes@[i] == 0) ==> (r matches Err(e)
            && e.kind == StorageErrorKind::InvalidData && e.message@ == "invalid attachment path"@),
        (forall|i: int| 0 <= i < bytes@.len() ==> bytes@[i] != 0) ==> (r matches Ok(path) && path@ == bytes@),
{
    let mut i: usize = 0;
    while i < bytes.len()
        invariant
            i <= bytes@.len(),
            forall|j: int| 0 <= j < i ==> bytes@[j] != 0,
        decreases bytes.len() - i,
    {
        if bytes[i] == 0 {
            return Err(failure(StorageErrorKind::InvalidData, "invalid attachment path"));
        }
        i += 1;
    }
    Ok(bytes)
}

/// An optional stored path read back.
pub fn decode_optional_path(bytes: Option<Vec<u8>>) -> (r: Result<Option<Vec<u8>>, StorageError>)
    ensures
        match bytes {
            None => r matches Ok(None),
            Some(b) => if forall|i: int| 0 <= i < b@.len() ==> b@[i] != 0 {
                r matches Ok(Some(path)) && path@ == b@
            } else {
                r matches Err(e) && e.kind == StorageErrorKind::InvalidData
            },
        },
{
    match bytes {
        None => Ok(None),
        Some(b) => match decode_path(b) {
            Ok(path) => Ok(Some(path)),
            Err(e) => Err(e),
        },
    }
}

// ----- pages -----

/// A stored message with its place in the conversation and what was recorded with it:
/// the JSON text of the generation it was made with, of its outcome and of its
/// failure, where there are any, and its assistant trace.
#[derive(Clone, Debug, PartialEq, Eq)]
pub struct StoredMessage {
    pub id: u64,
    pub sequence: i64,
    pub message: Message,
    pub created_at: i64,
    pub omitted_context_messages: u64,
    pub generation: String,
    pub outcome: Option<String>,
    pub failure: Option<String>,
    pub trace: AssistantTrace,
}

/// A page of messages, oldest first, with the cursors at its ends and whether more
/// messages lie before and after it.
#[derive(Clone, Debug, PartialEq, Eq)]
pub struct MessagePage {
    pub messages: Vec<StoredMessage>,
    pub older_cursor: Option<i64>,
    pub has_older: bool,
    pub newer_cursor: Option<i64>,
    pub has_newer: bool,
}

/// The sequence of the first message, if any.
pub open spec fn first_sequence(rows: Seq<StoredMessage>) -> Option<i64> {
    if rows.len() > 0 { Some(rows[0].sequence) } else { None }
}

/// The sequence of the last message, if any.
pub open spec fn last_sequence(rows: Seq<StoredMessage>) -> Option<i64> {
    if rows.len() > 0 { Some(rows.last().sequence) } else { None }
}

/// At most a page's worth of rows, from the front.
pub open spec fn page_prefix(rows: Seq<StoredMessage>) -> Seq<StoredMessage> {
    if rows.len() > PAGE_SIZE { rows.take(PAGE_SIZE as int) } else { rows }
}

fn first_sequence_exec(rows: &Vec<StoredMessage>) -> (r: Option<i64>)
    ensures
        r == first_sequence(rows@),
{
    if rows.len() > 0 { Some(rows[0].sequence) } else { None }
}

fn last_sequence_exec(rows: &Vec<StoredMessage>) -> (r: Option<i64>)
    ensures
        r == last_sequence(rows@),
{
    if rows.len() > 0 { Some(rows[rows.len() - 1].sequence) } else { None }
}

/// The first `PAGE_SIZE` rows, or all of them.
fn prefix(rows: Vec<StoredMessage>) -> (out: Vec<StoredMessage>)
    ensures
        out@ == page_prefix(rows@),
{
    let mut out = rows;
    out.truncate(PAGE_SIZE);
    assert(out@ =~= page_prefix(rows@));
    out
}

/// The first `PAGE_SIZE` rows, or all of them, in reverse order.
fn reversed_prefix(rows: Vec<StoredMessage>) -> (out: Vec<StoredMessage>)
    ensures
        out@ == page_prefix(rows@).reverse(),
{
    let mut rest = prefix(rows);
    let ghost kept = rest@;
    let mut out: Vec<StoredMessage> = Vec::new();
    while rest.len() > 0
        invariant
            kept == page_prefix(rows@),
            rest@.len() <= kept.len(),
            rest@ == kept.take(rest@.len() as int),
            out@ == kept.skip(rest@.len() as int).reverse(),
        decreases rest.len(),
    {
        let ghost n = rest@.len();
        let item = rest.pop().unwrap();
        out.push(item);
        proof {
            assert(kept.skip(n - 1) =~= seq![kept[n - 1]] + kept.skip(n as int));
            assert(rest@ =~= kept.take(n - 1));
            assert(out@ =~= kept.skip(n - 1).reverse());
        }
    }
    assert(kept.skip(0) =~= kept);
    out
}

/// The page that a backward read makes: `newest_first` holds up to one row more than
/// a page, newest first; the page keeps the newest `PAGE_SIZE` of them, oldest first,
/// and there are older messages exactly when the read found the extra row. Whether
/// newer ones exist the caller found out by probing after the newest row of the read
/// (`newer_probe`).
pub fn page(newest_first: Vec<StoredMessage>, newer_found: bool) -> (p: MessagePage)
    ensures
        p.messages@ == page_prefix(newest_first@).reverse(),
        p.has_older == (newest_first@.len() > PAGE_SIZE),
        p.older_cursor == first_sequence(p.messages@),
        p.newer_cursor == last_sequence(p.messages@),
        p.has_newer == (p.newer_cursor is Some && newer_found),
{
    let has_older = newest_first.len() > PAGE_SIZE;
    let messages = reversed_prefix(newest_first);
    let older_cursor = first_sequence_exec(&messages);
    let newer_cursor = last_sequence_exec(&messages);
    let has_newer = newer_cursor.is_some() && newer_found;
    MessagePage { messages, older_cursor, has_older, newer_cursor, has_newer }
}

/// Where a backward read must probe for newer messages: after its newest row, which
/// becomes the page's newer cursor.
pub fn newer_probe(newest_first: &Vec<StoredMessage>) -> (cursor: Option<i64>)
    ensures
        cursor == first_sequence(newest_first@),
        cursor == last_sequence(page_prefix(newest_first@).reverse()),
{
    first_sequence_exec(newest_first)
}

/// The page that a forward read makes: `oldest_first` holds up to one row more than a
/// page; the page keeps the first `PAGE_SIZE`, there are newer messages exactly when the
/// read found the extra row, and older ones exactly when the page does not start at
/// sequence zero.
pub fn page_after(oldest_first: Vec<StoredMessage>) -> (p: MessagePage)
    ensures
        p.messages@ == page_prefix(oldest_first@),
        p.has_newer == (oldest_first@.len() > PAGE_SIZE),
        p.older_cursor == first_sequence(p.messages@),
        p.newer_cursor == last_sequence(p.messages@),
        p.has_older == (p.older_cursor matches Some(c) && c > 0),
{
    let has_newer = oldest_first.len() > PAGE_SIZE;
    let messages = prefix(oldest_first);
    let older_cursor = first_sequence_exec(&messages);
    let newer_cursor = last_sequence_exec(&messages);
    let has_older = match older_cursor {
        Some(c) => c > 0,
        None => false,
    };
    MessagePage { messages, older_cursor, has_older, newer_cursor, has_newer }
}

/// The sequences read around a search hit: 24 before it (not below zero) to 25 after
/// it (saturating).
pub open spec fn around_window_spec(target: i64) -> (i64, i64) {
    (
        if target < 24 { 0 } else { (target - 24) as i64 },
        if target > i64::MAX - 25 { i64::MAX } else { (target + 25) as i64 },
    )
}

pub fn around_window(target: i64) -> (w: (i64, i64))
    ensures
        w == around_window_spec(target),
{
    let first = if target < 24 { 0 } else { target - 24 };
    let last = if target > i64::MAX - 25 { i64::MAX } else { target + 25 };
    (first, last)
}

/// The page around a search hit, from the rows of its window, oldest first, and
/// whether messages were found before and after them. Where the window is empty the
/// hit no longer exists.
pub fn page_around(rows: Vec<StoredMessage>, older_found: bool, newer_found: bool) -> (r: Result<MessagePage, StorageError>)
    ensures
        rows@.len() == 0 ==> (r matches Err(e) && e.kind == StorageErrorKind::NotFound
            && e.message@ == "search result message does not exist"@),
        rows@.len() > 0 ==> (r matches Ok(p)
            && p.messages@ == rows@
            && p.older_cursor == first_sequence(rows@)
            && p.newer_cursor == last_sequence(rows@)
            && p.has_older == older_found
            && p.has_newer == newer_found),
{
    if rows.len() == 0 {
        return Err(failure(StorageErrorKind::NotFound, "search result message does not exist"));
    }
    let older_cursor = first_sequence_exec(&rows);
    let newer_cursor = last_sequence_exec(&rows);
    Ok(MessagePage { messages: rows, older_cursor, has_older: older_found, newer_cursor, has_newer: newer_found })
}

/// A window of rows as one read fetched it, with what the read itself tells of older
/// and newer messages.
pub struct PageWindow {
    pub rows: Vec<StoredMessage>,
    pub known_older: Option<bool>,
    pub known_newer: Option<bool>,
}

/// The window that one read makes: a forward read (`after`) fetched up to one row more
/// than a page, oldest first, keeps the first `PAGE_SIZE` and knows whether newer rows
/// exist; a backward read fetched them newest first, keeps the newest `PAGE_SIZE`
/// oldest first, and knows whether older rows exist.
pub fn read_window(fetched: Vec<StoredMessage>, after: bool) -> (w: PageWindow)
    ensures
        after ==> w.rows@ == page_prefix(fetched@) && w.known_older is None
            && w.known_newer == Some(fetched@.len() > PAGE_SIZE),
        !after ==> w.rows@ == page_prefix(fetched@).reverse()
            && w.known_older == Some(fetched@.len() > PAGE_SIZE) && w.known_newer is None,
{
    let overflow = fetched.len() > PAGE_SIZE;
    if after {
        PageWindow { rows: prefix(fetched), known_older: None, known_newer: Some(overflow) }
    } else {
        PageWindow { rows: reversed_prefix(fetched), known_older: Some(overflow), known_newer: None }
    }
}

/// Where the caller must probe for older and newer rows: before the first row where
/// the read does not know, and after the last.
pub fn window_probes(window: &PageWindow) -> (probes: (Option<i64>, Option<i64>))
    ensures
        probes.0 == (if window.known_older is None { first_sequence(window.rows@) } else { None }),
        probes.1 == (if window.known_newer is None { last_sequence(window.rows@) } else { None }),
{
    let older = if window.known_older.is_none() { first_sequence_exec(&window.rows) } else { None };
    let newer = if window.known_newer.is_none() { last_sequence_exec(&window.rows) } else { None };
    (older, newer)
}

/// The page of a window: what the read knew, else what the probes found; without rows
/// nothing lies beyond.
pub fn build_page(window: PageWindow, older_found: bool, newer_found: bool) -> (p: MessagePage)
    ensures
        p.messages@ == window.rows@,
        p.older_cursor == first_sequence(window.rows@),
        p.newer_cursor == last_sequence(window.rows@),
        p.has_older == match window.known_older {
            Some(v) => v,
            None => window.rows@.len() > 0 && older_found,
        },
        p.has_newer == match window.known_newer {
            Some(v) => v,
            None => window.rows@.len() > 0 && newer_found,
        },
{
    let older_cursor = first_sequence_exec(&window.rows);
    let newer_cursor = last_sequence_exec(&window.rows);
    let has_older = match window.known_older {
        Some(v) => v,
        None => older_cursor.is_some() && older_found,
    };
    let has_newer = match window.known_newer {
        Some(v) => v,
        None => newer_cursor.is_some() && newer_found,
    };
    MessagePage { messages: window.rows, older_cursor, has_older, newer_cursor, has_newer }
}

/// The message of a failed integer conversion.
pub const OUT_OF_RANGE: &'static str = "out of range integral type conversion attempted";

/// A stored id as a database integer; ids beyond `i64` are invalid data.
pub fn as_i64(value: u64) -> (r: Result<i64, StorageError>)
    ensures
        value <= i64::MAX ==> r == Ok::<i64, StorageError>(value as i64),
        value > i64::MAX ==> (r matches Err(e) && e.kind == StorageErrorKind::InvalidData && e.message@ == OUT_OF_RANGE@),
{
    if value <= i64::MAX as u64 {
        Ok(value as i64)
    } else {
        Err(failure(StorageErrorKind::InvalidData, OUT_OF_RANGE))
    }
}

/// A database integer as an id; negative values are invalid data.
pub fn as_u64(value: i64) -> (r: Result<u64, StorageError>)
    ensures
        value >= 0 ==> r == Ok::<u64, StorageError>(value as u64),
        value < 0 ==> (r matches Err(e) && e.kind == StorageErrorKind::InvalidData && e.message@ == OUT_OF_RANGE@),
{
    if value >= 0 {
        Ok(value as u64)
    } else {
        Err(failure(StorageErrorKind::InvalidData, OUT_OF_RANGE))
    }
}

} // verus!
