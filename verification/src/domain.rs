//! Provider-independent values shared by the chat, agent and storage logic.
use vstd::prelude::*;

verus! {

/// Who wrote a message.
#[derive(Clone, Copy, Debug, PartialEq, Eq, Structural)]
pub enum MessageRole {
    User,
    Assistant,
}

/// The lifecycle state of a stored message.
#[derive(Clone, Copy, Debug, PartialEq, Eq, Structural)]
pub enum MessageStatus {
    Complete,
    Streaming,
    Stopped,
    Failed,
}

/// A file attached to a user message. `path` holds the raw bytes of the path.
#[derive(Clone, Debug, PartialEq, Eq)]
pub struct Attachment {
    pub name: String,
    pub path: Vec<u8>,
    pub mime_type: String,
    pub byte_size: u64,
    pub managed: bool,
}

/// A conversation message as the providers see it.
#[derive(Clone, Debug, PartialEq, Eq)]
pub struct Message {
    pub role: MessageRole,
    pub content: String,
    pub status: MessageStatus,
    pub attachments: Vec<Attachment>,
}

/// The class of a provider failure, as the application presents it.
#[derive(Clone, Copy, Debug, PartialEq, Eq, Structural)]
pub enum ProviderErrorKind {
    AuthenticationRequired,
    PermissionDenied,
    RateLimited,
    InvalidRequest,
    ServiceUnavailable,
    Transport,
    Protocol,
    IncompleteResponse,
    Other,
}

/// A provider failure: which provider, what kind, a technical message, and the HTTP
/// status that caused it, when one did.
#[derive(Clone, Debug, PartialEq, Eq)]
pub struct ProviderError {
    pub provider: String,
    pub kind: ProviderErrorKind,
    pub message: String,
    pub http_status: Option<u16>,
}

/// Why a generation ended.
#[derive(Clone, Debug, PartialEq, Eq)]
pub enum FinishReason {
    Stop,
    Length,
    ContentFilter,
    Other(String),
}

/// Token counts reported for a generation.
#[derive(Clone, Copy, Debug, PartialEq, Eq, Structural)]
pub struct TokenUsage {
    pub input_tokens: u64,
    pub output_tokens: u64,
}

/// How a generation ended, with its usage when the provider reported one.
#[derive(Clone, Debug, PartialEq, Eq)]
pub struct GenerationOutcome {
    pub finish_reason: FinishReason,
    pub usage: Option<TokenUsage>,
}

/// Which part of an assistant answer a text delta belongs to.
#[derive(Clone, Copy, Debug, PartialEq, Eq, Structural)]
pub enum AssistantTextPhase {
    Commentary,
    FinalAnswer,
}

/// One event of a chat generation stream.
#[derive(Clone, Debug, PartialEq, Eq)]
pub enum GenerationEvent {
    Started,
    TextDelta(String),
    TextDeltaWithPhase { delta: String, phase: AssistantTextPhase },
    ReasoningSummaryStarted { key: String, title: String },
    ReasoningSummaryDelta { key: String, delta: String },
    ReasoningSummaryCompleted { key: String, text: String },
    Completed(GenerationOutcome),
}

/// How much reasoning effort a model is asked to spend.
#[derive(Clone, Copy, Debug, PartialEq, Eq, Structural)]
pub enum EffortLevel {
    NoReasoning,
    Minimal,
    Low,
    Medium,
    High,
    XHigh,
    Max,
}

/// The token limits of a model; zero means the limit is not known.
#[derive(Clone, Copy, Debug, PartialEq, Eq, Structural)]
pub struct GenerationLimits {
    pub context_window_tokens: u64,
    pub max_output_tokens: u64,
}

/// A model offered by a provider, as the model picker shows it.
#[derive(Clone, Debug, PartialEq, Eq)]
pub struct ModelDescriptor {
    pub provider: String,
    pub id: String,
    pub display_name: String,
    pub description: Option<String>,
    pub priority: i32,
    pub default_effort: EffortLevel,
    pub supported_efforts: Vec<EffortLevel>,
    pub limits: GenerationLimits,
}

/// Whether a conversation is a plain chat or an agent session in a workspace.
#[derive(Clone, Copy, Debug, PartialEq, Eq, Structural)]
pub enum ConversationMode {
    Chat,
    Agent,
}

/// What an entry of an assistant's trace shows.
#[derive(Clone, Copy, Debug, PartialEq, Eq, Structural)]
pub enum AssistantTraceKind {
    ReasoningSummary,
    Tool,
}

/// The state of an entry of an assistant's trace.
#[derive(Clone, Copy, Debug, PartialEq, Eq, Structural)]
pub enum AssistantTraceStatus {
    Streaming,
    Requested,
    Running,
    AwaitingApproval,
    Completed,
    Rejected,
    Failed,
    Stopped,
}

/// What an agent activity records.
#[derive(Clone, Copy, Debug, PartialEq, Eq, Structural)]
pub enum AgentActivityKind {
    ToolCall,
    ApprovalRequested,
    ToolResult,
}

/// The provider, model and effort a generation runs with.
#[derive(Clone, Debug, PartialEq, Eq)]
pub struct GenerationConfig {
    pub provider: String,
    pub model: String,
    pub effort: EffortLevel,
}

/// A workspace tool offered to an agent. `parameters` is the JSON text of the tool's
/// parameter schema.
#[derive(Clone, Debug, PartialEq, Eq)]
pub struct AgentToolDefinition {
    pub name: String,
    pub description: String,
    pub parameters: String,
    pub mutating: bool,
    pub protected_read: bool,
}

/// What a workspace tool answered to one call.
#[derive(Clone, Debug, PartialEq, Eq)]
pub struct AgentToolOutput {
    pub call_id: String,
    pub output: String,
    pub is_error: bool,
}

/// The first step of an agent run: the history, the instructions and the tools.
#[derive(Clone, Debug, PartialEq, Eq)]
pub struct AgentRequest {
    pub generation: GenerationConfig,
    pub messages: Vec<Message>,
    pub instructions: String,
    pub tools: Vec<AgentToolDefinition>,
}

} // verus!
