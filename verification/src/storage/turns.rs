//! The decisions of starting, regenerating and retrying a turn: which requests are
//! refused, which stored message a turn answers, and where new messages go.
use vstd::prelude::*;

use super::database::{failure, StorageError, StorageErrorKind};
use crate::domain::{ConversationMode, Message, MessageRole, MessageStatus};
use crate::text::{is_blank, str_is, trim_is_empty};

verus! {

/// An error of the given kind and message.
pub open spec fn fails_with<T>(r: Result<T, StorageError>, kind: StorageErrorKind, message: Seq<char>) -> bool {
    r matches Err(e) && e.kind == kind && e.message@ == message
}

/// A new turn needs a prompt that is not blank.
pub fn check_prompt(prompt: &str) -> (r: Result<(), StorageError>)
    ensures
        is_blank(prompt@) ==> fails_with(r, StorageErrorKind::InvalidData, "empty prompt"@),
        !is_blank(prompt@) ==> r is Ok,
{
    if trim_is_empty(prompt) {
        Err(failure(StorageErrorKind::InvalidData, "empty prompt"))
    } else {
        Ok(())
    }
}

/// A new turn needs a prompt that is not blank, an attachment, or a command.
pub fn check_turn_input(prompt: &str, attachment_count: usize, has_command: bool) -> (r: Result<(), StorageError>)
    ensures
        (is_blank(prompt@) && attachment_count == 0 && !has_command) ==> fails_with(r, StorageErrorKind::InvalidData, "empty prompt"@),
        !(is_blank(prompt@) && attachment_count == 0 && !has_command) ==> r is Ok,
{
    if trim_is_empty(prompt) && attachment_count == 0 && !has_command {
        Err(failure(StorageErrorKind::InvalidData, "empty prompt"))
    } else {
        Ok(())
    }
}

/// A conversation takes a new turn only while none of its messages is streaming.
pub fn ensure_idle(streaming: bool) -> (r: Result<(), StorageError>)
    ensures
        streaming ==> fails_with(r, StorageErrorKind::Conflict, "conversation already has a streaming response"@),
        !streaming ==> r is Ok,
{
    if streaming {
        Err(failure(StorageErrorKind::Conflict, "conversation already has a streaming response"))
    } else {
        Ok(())
    }
}

/// The same, from the number of streaming messages, as the application store counts.
pub fn ensure_no_active(active: i64) -> (r: Result<(), StorageError>)
    ensures
        active != 0 ==> fails_with(r, StorageErrorKind::Conflict, "conversation already has a streaming message"@),
        active == 0 ==> r is Ok,
{
    if active != 0 {
        Err(failure(StorageErrorKind::Conflict, "conversation already has a streaming message"))
    } else {
        Ok(())
    }
}

/// The sequence of a message to regenerate, from its row (sequence and role): it must
/// exist and be an assistant's.
pub fn regeneration_target(row: Option<(i64, String)>) -> (r: Result<i64, StorageError>)
    ensures
        match row {
            None => fails_with(r, StorageErrorKind::NotFound, "message does not exist"@),
            Some((sequence, role)) => if role@ == "assistant"@ {
                r == Ok::<i64, StorageError>(sequence)
            } else {
                fails_with(r, StorageErrorKind::InvalidData, "regeneration target is not an assistant"@)
            },
        },
{
    match row {
        None => Err(failure(StorageErrorKind::NotFound, "message does not exist")),
        Some((sequence, role)) => {
            if str_is(role.as_str(), "assistant") {
                Ok(sequence)
            } else {
                Err(failure(StorageErrorKind::InvalidData, "regeneration target is not an assistant"))
            }
        },
    }
}

/// The sequence of a message to retry, from its row (sequence, role, state): it must
/// exist and be an assistant's that failed.
pub fn retry_target(row: Option<(i64, String, String)>) -> (r: Result<i64, StorageError>)
    ensures
        match row {
            None => fails_with(r, StorageErrorKind::NotFound, "message does not exist"@),
            Some((sequence, role, state)) => if role@ == "assistant"@ && state@ == "failed"@ {
                r == Ok::<i64, StorageError>(sequence)
            } else {
                fails_with(r, StorageErrorKind::InvalidData, "retry target is not a failed assistant"@)
            },
        },
{
    match row {
        None => Err(failure(StorageErrorKind::NotFound, "message does not exist")),
        Some((sequence, role, state)) => {
            if str_is(role.as_str(), "assistant") && str_is(state.as_str(), "failed") {
                Ok(sequence)
            } else {
                Err(failure(StorageErrorKind::InvalidData, "retry target is not a failed assistant"))
            }
        },
    }
}

/// Whether the user wrote no message of `context` after position `i`.
pub open spec fn no_user_after(context: Seq<Message>, i: int) -> bool {
    forall|j: int| i < j < context.len() ==> #[trigger] context[j].role != MessageRole::User
}

/// The position of the last user message of the context that a turn answers; without
/// one the turn has nothing to answer.
pub fn last_user_message(context: &Vec<Message>) -> (r: Result<usize, StorageError>)
    ensures
        match r {
            Ok(i) => i < context@.len() && context@[i as int].role == MessageRole::User
                && no_user_after(context@, i as int),
            Err(e) => e.kind == StorageErrorKind::InvalidData && e.message@ == "missing user context"@
                && no_user_after(context@, -1),
        },
{
    let mut i: usize = context.len();
    while i > 0
        invariant
            i <= context@.len(),
            no_user_after(context@, i - 1),
        decreases i,
    {
        if context[i - 1].role == MessageRole::User {
            return Ok(i - 1);
        }
        i -= 1;
    }
    Err(failure(StorageErrorKind::InvalidData, "missing user context"))
}

/// The sequence after `sequence`, for the assistant message that follows a user one.
pub fn next_sequence(sequence: i64) -> (r: Result<i64, StorageError>)
    ensures
        sequence < i64::MAX ==> r == Ok::<i64, StorageError>((sequence + 1) as i64),
        sequence == i64::MAX ==> fails_with(r, StorageErrorKind::InvalidData, "message sequence overflow"@),
{
    if sequence < i64::MAX {
        Ok(sequence + 1)
    } else {
        Err(failure(StorageErrorKind::InvalidData, "message sequence overflow"))
    }
}

/// The sequence a regenerated answer reports for its prompt: the one before it, not
/// below `i64::MIN`.
pub fn prompt_sequence(answer_sequence: i64) -> (s: i64)
    ensures
        answer_sequence > i64::MIN ==> s == answer_sequence - 1,
        answer_sequence == i64::MIN ==> s == i64::MIN,
{
    if answer_sequence > i64::MIN { answer_sequence - 1 } else { i64::MIN }
}

/// The assistant message a turn starts with: empty, streaming, without attachments.
pub fn streaming_answer() -> (m: Message)
    ensures
        m.role == MessageRole::Assistant,
        m.content@.len() == 0,
        m.status == MessageStatus::Streaming,
        m.attachments@.len() == 0,
{
    Message {
        role: MessageRole::Assistant,
        content: String::new(),
        status: MessageStatus::Streaming,
        attachments: Vec::new(),
    }
}

/// Only an assistant message that stopped streaming can be finalized.
pub fn check_finalizable(message: &Message) -> (r: Result<(), StorageError>)
    ensures
        (message.role == MessageRole::Assistant && message.status != MessageStatus::Streaming) ==> r is Ok,
        !(message.role == MessageRole::Assistant && message.status != MessageStatus::Streaming)
            ==> fails_with(r, StorageErrorKind::InvalidData, "only terminal assistant messages can be finalized"@),
{
    if message.role != MessageRole::Assistant || message.status == MessageStatus::Streaming {
        Err(failure(StorageErrorKind::InvalidData, "only terminal assistant messages can be finalized"))
    } else {
        Ok(())
    }
}

/// Finalizing updates exactly the one message that was still streaming; any other
/// count means another writer finished it first.
pub fn finalized_rows(changed: u64) -> (r: Result<(), StorageError>)
    ensures
        changed == 1 ==> r is Ok,
        changed != 1 ==> fails_with(r, StorageErrorKind::Conflict, "message is no longer streaming"@),
{
    if changed != 1 {
        Err(failure(StorageErrorKind::Conflict, "message is no longer streaming"))
    } else {
        Ok(())
    }
}

/// Whether a legacy message table needs its orphaned unique index repaired: when its
/// definition declares no `UNIQUE` constraint (in any case) and the automatic index is
/// left without a definition.
pub open spec fn needs_index_repair_spec(table_sql: Seq<char>, orphaned_index: bool) -> bool {
    orphaned_index && !crate::text::contains_seq(crate::text::ascii_lowercase(table_sql), "unique"@)
}

pub fn needs_index_repair(table_sql: &str, orphaned_index: bool) -> (repair: bool)
    ensures
        repair == needs_index_repair_spec(table_sql@, orphaned_index),
{
    if !orphaned_index {
        return false;
    }
    let lower = crate::text::to_ascii_lowercase(table_sql);
    let unique = crate::text::chars_of("unique");
    !crate::text::contains_chars(&lower, &unique)
}

/// A repair that would make two messages share a sequence is refused.
pub fn check_no_duplicate_sequences(duplicates: bool) -> (r: Result<(), StorageError>)
    ensures
        duplicates ==> fails_with(r, StorageErrorKind::InvalidData, "cannot repair duplicate message sequences"@),
        !duplicates ==> r is Ok,
{
    if duplicates {
        Err(failure(StorageErrorKind::InvalidData, "cannot repair duplicate message sequences"))
    } else {
        Ok(())
    }
}

/// An update or delete of a conversation that changed no row names a conversation
/// that does not exist.
pub fn ensure_conversation_changed(changed: u64) -> (r: Result<(), StorageError>)
    ensures
        changed == 0 ==> fails_with(r, StorageErrorKind::NotFound, "conversation does not exist"@),
        changed != 0 ==> r is Ok,
{
    if changed == 0 {
        Err(failure(StorageErrorKind::NotFound, "conversation does not exist"))
    } else {
        Ok(())
    }
}

/// Where a turn's messages go and whether it runs as an agent: the sequence its prompt
/// is reported at, the sequence of its answer, and whether an agent run is started.
#[derive(Clone, Copy, Debug, PartialEq, Eq, Structural)]
pub struct TurnPlan {
    pub user_sequence: i64,
    pub assistant_sequence: i64,
    pub starts_agent_run: bool,
}

/// A turn in an agent conversation runs as an agent.
pub open spec fn runs_agent(mode: ConversationMode) -> bool {
    mode == ConversationMode::Agent
}

/// The plan of a new turn: refused without a prompt, attachment or command; refused
/// while the conversation streams; the prompt takes the next sequence and the answer
/// the one after it, which must exist; an agent conversation starts an agent run.
pub open spec fn begin_turn_spec(
    prompt: Seq<char>,
    attachment_count: usize,
    has_command: bool,
    streaming: bool,
    next: i64,
    mode: ConversationMode,
) -> Result<TurnPlan, (StorageErrorKind, Seq<char>)> {
    if is_blank(prompt) && attachment_count == 0 && !has_command {
        Err((StorageErrorKind::InvalidData, "empty prompt"@))
    } else if streaming {
        Err((StorageErrorKind::Conflict, "conversation already has a streaming response"@))
    } else if next == i64::MAX {
        Err((StorageErrorKind::InvalidData, "message sequence overflow"@))
    } else {
        Ok(TurnPlan { user_sequence: next, assistant_sequence: (next + 1) as i64, starts_agent_run: runs_agent(mode) })
    }
}

/// Whether a result is the planned one or the planned failure.
pub open spec fn planned(r: Result<TurnPlan, StorageError>, plan: Result<TurnPlan, (StorageErrorKind, Seq<char>)>) -> bool {
    match plan {
        Ok(p) => r == Ok::<TurnPlan, StorageError>(p),
        Err((kind, message)) => fails_with(r, kind, message),
    }
}

/// Plans a new turn from its input, whether the conversation streams (never for a new
/// one), the next free sequence and the conversation's mode.
pub fn begin_turn_plan(
    prompt: &str,
    attachment_count: usize,
    has_command: bool,
    streaming: bool,
    next: i64,
    mode: ConversationMode,
) -> (r: Result<TurnPlan, StorageError>)
    ensures
        planned(r, begin_turn_spec(prompt@, attachment_count, has_command, streaming, next, mode)),
{
    check_turn_input(prompt, attachment_count, has_command)?;
    ensure_idle(streaming)?;
    let assistant_sequence = next_sequence(next)?;
    Ok(TurnPlan { user_sequence: next, assistant_sequence, starts_agent_run: mode == ConversationMode::Agent })
}

/// The plan of a regenerated answer: it keeps its sequence, its prompt is reported at
/// the sequence before it (not below `i64::MIN`), and an agent conversation restarts
/// the answer's agent run.
pub fn regeneration_plan(answer_sequence: i64, mode: ConversationMode) -> (plan: TurnPlan)
    ensures
        plan.assistant_sequence == answer_sequence,
        plan.user_sequence == if answer_sequence > i64::MIN { answer_sequence - 1 } else { i64::MIN as int },
        plan.starts_agent_run == runs_agent(mode),
{
    TurnPlan {
        user_sequence: prompt_sequence(answer_sequence),
        assistant_sequence: answer_sequence,
        starts_agent_run: mode == ConversationMode::Agent,
    }
}

/// The plan of a retried answer: a new answer at the next free sequence, its prompt
/// being the last user message before the failed answer; an agent conversation starts
/// an agent run.
pub fn retry_plan(user_sequence: i64, next: i64, mode: ConversationMode) -> (plan: TurnPlan)
    ensures
        plan == (TurnPlan { user_sequence, assistant_sequence: next, starts_agent_run: runs_agent(mode) }),
{
    TurnPlan { user_sequence, assistant_sequence: next, starts_agent_run: mode == ConversationMode::Agent }
}

} // verus!
