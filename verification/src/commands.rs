//! The command system's data model and the built-in clear command's
//! decision logic, together with the event payloads the application layer
//! publishes.

use vstd::prelude::*;
use vstd::string::*;
use crate::session::CharacterSession;
use crate::context::BuiltContextResult;

verus! {

/// Grouping of a command.
#[derive(Clone, PartialEq, Eq, Structural, Debug)]
pub enum CommandCategory {
    Chat,
    History,
    Export,
    Settings,
    Other,
}

/// Descriptive metadata of a command.
#[derive(Clone, Debug)]
pub struct CommandMetadata {
    pub id: String,
    pub name: String,
    pub description: String,
    pub icon: Option<String>,
    pub category: Option<CommandCategory>,
    pub priority: i32,
    pub requires_confirmation: bool,
    pub confirmation_message: Option<String>,
}

/// The outcome of executing a command.
#[derive(Clone, Debug)]
pub struct CommandResult {
    pub success: bool,
    pub message: Option<String>,
    pub error: Option<String>,
    /// Raw JSON payload, when the command produced one.
    pub data: Option<String>,
}

/// The built-in command that clears a conversation's history.
pub struct ClearCommand {
    pub metadata: CommandMetadata,
}

impl ClearCommand {
    /// The clear command with its fixed metadata.
    pub fn new() -> (r: ClearCommand)
        ensures
            r.metadata.id@ == "clear"@,
            r.metadata.name@ == "/clear"@,
            r.metadata.priority == 1,
            r.metadata.requires_confirmation,
            r.metadata.category == Some(CommandCategory::History),
            r.metadata.icon is Some,
            r.metadata.confirmation_message is Some,
    {
        ClearCommand {
            metadata: CommandMetadata {
                id: String::from_str("clear"),
                name: String::from_str("/clear"),
                description: String::from_str("清空所有对话记录"),
                icon: Some(String::from_str("MdOutlineDelete")),
                category: Some(CommandCategory::History),
                priority: 1,
                requires_confirmation: true,
                confirmation_message: Some(String::from_str(
                    "确定要清空所有对话记录吗？此操作不可撤销。")),
            },
        }
    }

    /// The command's metadata.
    pub fn metadata(&self) -> (r: &CommandMetadata)
        ensures
            *r == self.metadata,
    {
        &self.metadata
    }

    /// Whether the command applies: only to a session that has turns.
    pub fn is_available(&self, session: Option<&CharacterSession>) -> (r: bool)
        ensures
            r == match session {
                Some(s) => s.chat_history@.len() > 0,
                None => false,
            },
    {
        match session {
            Some(s) => s.chat_history.len() > 0,
            None => false,
        }
    }

    /// Apply the command to a session: empty the log and reset the cursor,
    /// reporting success.
    pub fn apply(&self, session: &mut CharacterSession, now: i64) -> (r: CommandResult)
        ensures
            final(session).chat_history@.len() == 0,
            final(session).last_saved_index == 0,
            final(session).last_active == now,
            final(session).uuid == old(session).uuid,
            r.success,
            r.message is Some,
            r.error is None,
            r.data is None,
    {
        session.clear_history(now);
        CommandResult {
            success: true,
            message: Some(String::from_str("已清空所有对话记录")),
            error: None,
            data: None,
        }
    }
}

// ---------------------------------------------------------------------------
// Event payloads
// ---------------------------------------------------------------------------

/// Payload published when a context has been built.
pub struct ContextBuiltPayload {
    pub uuid: String,
    pub context_result: BuiltContextResult,
    pub timestamp: i64,
}

/// What part of a character an update touched.
#[derive(Clone, Debug)]
pub enum CharacterUpdateType {
    BasicInfo,
    Worldbook,
    Tags,
    FullData,
    Fields { fields: Vec<String> },
}

/// Why a session left the pool.
#[derive(Clone, Debug)]
pub enum SessionUnloadReason {
    UserRequest,
    Expired,
    MemoryCleanup,
    AppShutdown,
    Error(String),
}

/// Token usage of one exchange. The ceiling lets consumers derive a
/// utilization ratio.
#[derive(Clone, Copy, PartialEq, Eq, Structural, Debug)]
pub struct TokenUsageStats {
    pub prompt_tokens: usize,
    pub completion_tokens: usize,
    pub total_tokens: usize,
    pub context_tokens: usize,
    pub budget_ceiling: usize,
}

} // verus!
