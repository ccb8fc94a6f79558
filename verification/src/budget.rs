//! Token budget policy: one absolute ceiling and four sub-reservations
//! (system instructions, character card, world book, chat history), plus the
//! options that configure context building.

use vstd::prelude::*;

verus! {

/// How the total token ceiling is split between the four context segments.
pub struct TokenBudget {
    /// Absolute ceiling for a built context.
    pub total_limit: usize,
    /// Reserved for the system/instruction segment (15% of the default ceiling).
    pub system_reserved: usize,
    /// Reserved for the character card segment (35%).
    pub character_reserved: usize,
    /// Reserved for world-book entries (20%).
    pub worldbook_reserved: usize,
    /// Reserved for chat history (30%).
    pub history_reserved: usize,
}

pub const DEFAULT_TOKEN_LIMIT: usize = 102400;

impl Default for TokenBudget {
    fn default() -> (r: Self)
        ensures
            r.total_limit == DEFAULT_TOKEN_LIMIT,
            r.system_reserved == DEFAULT_TOKEN_LIMIT * 15 / 100,
            r.character_reserved == DEFAULT_TOKEN_LIMIT * 35 / 100,
            r.worldbook_reserved == DEFAULT_TOKEN_LIMIT * 20 / 100,
            r.history_reserved == DEFAULT_TOKEN_LIMIT * 30 / 100,
    {
        let total: usize = DEFAULT_TOKEN_LIMIT;
        TokenBudget {
            total_limit: total,
            system_reserved: total * 15 / 100,
            character_reserved: total * 35 / 100,
            worldbook_reserved: total * 20 / 100,
            history_reserved: total * 30 / 100,
        }
    }
}

/// Options that configure the context builder.
pub struct ContextBuilderOptions {
    /// Token budget limit used for the truncation diagnostic.
    pub token_limit: usize,
    /// Whether smart truncation is enabled.
    pub enable_smart_truncation: bool,
    /// Template for the assistant's role line (may contain placeholders).
    pub ai_role: String,
    /// Template for the assistant's task line (may contain placeholders).
    pub ai_task: String,
    /// Whether chat history is kept in preference to other segments.
    pub prioritize_chat_history: bool,
    /// Placeholder replacement pairs, applied to the role and task templates.
    pub placeholders: Vec<(String, String)>,
}

impl Default for ContextBuilderOptions {
    fn default() -> (r: Self)
        ensures
            r.token_limit == DEFAULT_TOKEN_LIMIT,
            r.enable_smart_truncation,
            r.ai_role@ == "{{ROLE}}"@,
            r.ai_task@ == "{{TASK}}"@,
            r.prioritize_chat_history,
            r.placeholders@.len() == 2,
            r.placeholders@[0].0@ == "{{ROLE}}"@,
            r.placeholders@[1].0@ == "{{TASK}}"@,
    {
        let mut placeholders: Vec<(String, String)> = Vec::new();
        placeholders.push((
            String::from_str("{{ROLE}}"),
            String::from_str("角色卡编写助手"),
        ));
        placeholders.push((
            String::from_str("{{TASK}}"),
            String::from_str(
                "帮助用户创作和完善角色设定, 需要从多个角度(角色动机，角色心理，角色性格，角色背景)等分析，完成角色卡。当用户要求(帮忙填写)的时候，主动使用工具(edit_character)填写用户要求的field。当用户确认添加worldbook条目的时候，使用工具(create_world_book_entry)",
            ),
        ));
        ContextBuilderOptions {
            token_limit: DEFAULT_TOKEN_LIMIT,
            enable_smart_truncation: true,
            ai_role: String::from_str("{{ROLE}}"),
            ai_task: String::from_str("{{TASK}}"),
            prioritize_chat_history: true,
            placeholders,
        }
    }
}

} // verus!
