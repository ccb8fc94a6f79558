//! Budgeted context assembly: the system/instruction turn, the character
//! and world-book turns, the recency-truncated history, and the pending
//! user turn, with exact per-segment token accounting.

use vstd::prelude::*;
use vstd::string::*;
use crate::budget::{TokenBudget, ContextBuilderOptions};
use crate::character::{TavernCardV2Data, CharacterData, character_content, build_character_content};
use crate::messages::{
    OpenAIMessage, MessageView, ChatMessage, message_json, message_json_string, chat_to_openai,
    turn_to_message,
};
use crate::strings::replaced;
use crate::strings::replace_all;
use crate::tokens::{TokenCounter, cl100k_tokens};
use crate::worldbook::{worldbook_content, build_worldbook_content};

verus! {

/// Tokens used by each context segment.
pub struct TokenAllocation {
    /// Character card segment.
    pub character: usize,
    /// World-book segment.
    pub worldbook: usize,
    /// System/instruction segment.
    pub system: usize,
    /// Chat-history segment.
    pub history: usize,
}

/// A fully assembled, budgeted context.
pub struct BuiltContextResult {
    /// The system/instruction turns.
    pub system_messages: Vec<OpenAIMessage>,
    /// The character and world-book turns.
    pub assistant_messages: Vec<OpenAIMessage>,
    /// The included history turns, oldest first.
    pub history_messages: Vec<OpenAIMessage>,
    /// The pending user turn, if one was given.
    pub current_user_message: Option<OpenAIMessage>,
    /// Total token count over all segments.
    pub total_tokens: usize,
    /// Tokens used by each segment.
    pub token_allocation: TokenAllocation,
    /// Whether the total exceeds the configured ceiling.
    pub was_truncated: bool,
}

// ---------------------------------------------------------------------------
// Token costs of messages
// ---------------------------------------------------------------------------

/// A value clipped to what a `usize` can hold.
pub open spec fn nat_sat(x: nat) -> nat {
    if x > usize::MAX as nat {
        usize::MAX as nat
    } else {
        x
    }
}

/// The token cost of one message: the token count of its JSON rendering.
pub open spec fn msg_cost(m: MessageView) -> nat {
    cl100k_tokens(message_json(m)).len()
}

/// The token cost of a message list.
pub open spec fn msgs_cost(ms: Seq<MessageView>) -> nat
    decreases ms.len(),
{
    if ms.len() == 0 {
        0
    } else {
        msgs_cost(ms.drop_last()) + msg_cost(ms.last())
    }
}

/// The views of a message vector.
pub open spec fn views_of(ms: Seq<OpenAIMessage>) -> Seq<MessageView> {
    ms.map_values(|m: OpenAIMessage| m@)
}

/// Saturating add with an exact contract.
fn sat_add(a: usize, b: usize) -> (r: usize)
    ensures
        r as nat == nat_sat(a as nat + b as nat),
{
    a.saturating_add(b)
}

// ---------------------------------------------------------------------------
// History truncation
// ---------------------------------------------------------------------------

/// The token cost of the history suffix that starts at `i`.
pub open spec fn suffix_cost(ms: Seq<MessageView>, i: int) -> nat
    decreases ms.len() - i,
{
    if i < 0 || i >= ms.len() {
        0
    } else {
        msg_cost(ms[i]) + suffix_cost(ms, i + 1)
    }
}

/// The first position whose suffix fits the limit, scanning from `i`.
pub open spec fn cut_from(ms: Seq<MessageView>, limit: int, i: int) -> int
    decreases ms.len() - i,
{
    if i >= ms.len() {
        ms.len() as int
    } else if suffix_cost(ms, i) <= limit {
        i
    } else {
        cut_from(ms, limit, i + 1)
    }
}

/// Where the kept history starts: the least position whose suffix cost is
/// within the limit, so that exactly the most recent turns are kept and the
/// dropped turns are a prefix.
pub open spec fn history_cut(ms: Seq<MessageView>, limit: int) -> int {
    cut_from(ms, limit, 0)
}

/// Suffix costs only shrink as the suffix start moves forward.
pub proof fn lemma_suffix_mono(ms: Seq<MessageView>, i: int, j: int)
    requires
        0 <= i <= j,
    ensures
        suffix_cost(ms, i) >= suffix_cost(ms, j),
    decreases j - i,
{
    if i < j {
        lemma_suffix_mono(ms, i + 1, j);
    }
}

/// The defining properties of the cut position.
pub proof fn lemma_cut_bounds(ms: Seq<MessageView>, limit: int)
    requires
        limit >= 0,
    ensures
        0 <= history_cut(ms, limit) <= ms.len(),
        suffix_cost(ms, history_cut(ms, limit)) <= limit,
        forall|i: int| 0 <= i < history_cut(ms, limit) ==> suffix_cost(ms, i) > limit,
{
    lemma_cut_bounds_from(ms, limit, 0);
}

proof fn lemma_cut_bounds_from(ms: Seq<MessageView>, limit: int, i: int)
    requires
        limit >= 0,
        0 <= i <= ms.len(),
    ensures
        i <= cut_from(ms, limit, i) <= ms.len(),
        suffix_cost(ms, cut_from(ms, limit, i)) <= limit,
        forall|j: int| i <= j < cut_from(ms, limit, i) ==> suffix_cost(ms, j) > limit,
    decreases ms.len() - i,
{
    if i >= ms.len() {
    } else if suffix_cost(ms, i) <= limit {
    } else {
        lemma_cut_bounds_from(ms, limit, i + 1);
    }
}

/// A position whose suffix fits, just after one whose suffix does not, is
/// the cut.
pub proof fn lemma_cut_is(ms: Seq<MessageView>, limit: int, k: int)
    requires
        limit >= 0,
        0 <= k <= ms.len(),
        suffix_cost(ms, k) <= limit,
        k > 0 ==> suffix_cost(ms, k - 1) > limit,
    ensures
        history_cut(ms, limit) == k,
{
    lemma_cut_is_from(ms, limit, 0, k);
}

proof fn lemma_cut_is_from(ms: Seq<MessageView>, limit: int, i: int, k: int)
    requires
        limit >= 0,
        0 <= i <= k <= ms.len(),
        suffix_cost(ms, k) <= limit,
        k > 0 ==> suffix_cost(ms, k - 1) > limit,
    ensures
        cut_from(ms, limit, i) == k,
    decreases k - i,
{
    if i == k {
        if i < ms.len() {
            assert(suffix_cost(ms, i) <= limit);
        }
    } else {
        lemma_suffix_mono(ms, i, k - 1);
        assert(suffix_cost(ms, i) > limit);
        lemma_cut_is_from(ms, limit, i + 1, k);
    }
}

/// The law of recency: a history suffix is kept exactly when its token cost
/// fits the history sub-budget, so the dropped turns are precisely the
/// prefix before the cut.
pub proof fn lemma_history_recency(ms: Seq<MessageView>, limit: int)
    requires
        limit >= 0,
    ensures
        forall|i: int| 0 <= i <= ms.len() ==>
            (suffix_cost(ms, i) <= limit <==> i >= history_cut(ms, limit)),
{
    lemma_cut_bounds(ms, limit);
    assert forall|i: int| 0 <= i <= ms.len() implies
        (suffix_cost(ms, i) <= limit <==> i >= history_cut(ms, limit)) by {
        if i >= history_cut(ms, limit) {
            lemma_suffix_mono(ms, history_cut(ms, limit), i);
        }
    }
}

/// The cost of one message, through its JSON rendering.
pub fn count_message_tokens(counter: &TokenCounter, m: &OpenAIMessage) -> (r: usize)
    ensures
        r == msg_cost(m@),
{
    let json = message_json_string(m);
    counter.count(json.as_str())
}

/// Keep the most recent history turns whose total cost fits `limit`.
/// Returns the kept turns, oldest first, and their total cost.
pub fn build_history_messages(counter: &TokenCounter, history: &Vec<ChatMessage>, limit: usize)
    -> (r: (Vec<OpenAIMessage>, usize))
    ensures
        ({
            let views = history@.map_values(|m: ChatMessage| turn_to_message(m@));
            let cut = history_cut(views, limit as int);
            &&& views_of(r.0@) == views.skip(cut)
            &&& r.1 == suffix_cost(views, cut)
            &&& r.1 <= limit
        }),
{
    let ghost views = history@.map_values(|m: ChatMessage| turn_to_message(m@));
    let n = history.len();
    let mut out: Vec<OpenAIMessage> = Vec::new();
    let mut used: usize = 0;
    let mut jj: usize = n;
    proof {
        assert(views.skip(n as int) =~= Seq::<MessageView>::empty());
        assert(views_of(out@) =~= views.skip(n as int));
    }
    while jj > 0
        invariant
            n == history@.len(),
            views == history@.map_values(|m: ChatMessage| turn_to_message(m@)),
            jj <= n,
            used <= limit,
            views_of(out@) == views.skip(jj as int),
            used == suffix_cost(views, jj as int),
        decreases jj,
    {
        let m = chat_to_openai(&history[jj - 1]);
        let cost = count_message_tokens(counter, &m);
        proof {
            assert(views =~= Seq::new(history@.len(), |i: int| turn_to_message(history@[i]@)));
            assert(views[jj - 1] == turn_to_message(history@[jj - 1]@));
        }
        if cost <= limit - used {
            let ghost pre = out@;
            out.insert(0, m);
            proof {
                assert(out@ =~= seq![m] + pre);
                assert(views_of(out@) =~= seq![m@] + views_of(pre));
                assert(seq![m@] + views.skip(jj as int) =~= views.skip(jj - 1));
            }
            used = used + cost;
            jj = jj - 1;
        } else {
            proof {
                assert(suffix_cost(views, jj - 1) == msg_cost(views[jj - 1])
                    + suffix_cost(views, jj as int));
                lemma_cut_is(views, limit as int, jj as int);
            }
            return (out, used);
        }
    }
    proof {
        lemma_cut_is(views, limit as int, 0);
    }
    (out, used)
}

// ---------------------------------------------------------------------------
// Placeholders and the system turn
// ---------------------------------------------------------------------------

/// First value bound to a key in a placeholder list.
pub open spec fn assoc(ps: Seq<(String, String)>, key: Seq<char>) -> Option<Seq<char>>
    decreases ps.len(),
{
    if ps.len() == 0 {
        None
    } else if ps[0].0@ == key {
        Some(ps[0].1@)
    } else {
        assoc(ps.drop_first(), key)
    }
}

/// One placeholder applied to a template: every occurrence of the key
/// replaced by its bound value, or the template unchanged when unbound.
pub open spec fn apply_placeholder(t: Seq<char>, ps: Seq<(String, String)>, key: Seq<char>)
    -> Seq<char> {
    match assoc(ps, key) {
        Some(v) => replaced(t, key, v),
        None => t,
    }
}

/// A template with the role and task placeholders applied, then the
/// character-name placeholder replaced by the card's name.
pub open spec fn processed(t: Seq<char>, ps: Seq<(String, String)>, char_name: Seq<char>)
    -> Seq<char> {
    replaced(
        apply_placeholder(apply_placeholder(t, ps, "{{ROLE}}"@), ps, "{{TASK}}"@),
        "{{CHARACTER_NAME}}"@,
        char_name,
    )
}

/// Look up the first value bound to `key`.
fn lookup_placeholder(ps: &Vec<(String, String)>, key: &String) -> (r: Option<String>)
    ensures
        match r {
            Some(v) => assoc(ps@, key@) == Some(v@),
            None => assoc(ps@, key@) is None,
        },
{
    let mut i: usize = 0;
    proof {
        assert(ps@.skip(0) =~= ps@);
    }
    while i < ps.len()
        invariant
            i <= ps@.len(),
            assoc(ps@, key@) == assoc(ps@.skip(i as int), key@),
        decreases ps@.len() - i,
    {
        proof {
            assert(ps@.skip(i as int)[0] == ps@[i as int]);
            assert(ps@.skip(i as int).drop_first() =~= ps@.skip(i + 1));
        }
        if ps[i].0.eq(key) {
            let v = ps[i].1.clone();
            return Some(v);
        }
        i += 1;
    }
    proof {
        assert(ps@.skip(ps@.len() as int) =~= Seq::<(String, String)>::empty());
    }
    None
}

/// Apply the role, task and character-name placeholders to a template.
pub fn process_placeholders(ps: &Vec<(String, String)>, template: &str, char_name: &str)
    -> (r: String)
    ensures
        r@ == processed(template@, ps@, char_name@),
{
    proof {
        reveal_strlit("{{ROLE}}");
        reveal_strlit("{{TASK}}");
        reveal_strlit("{{CHARACTER_NAME}}");
    }
    let role_key = String::from_str("{{ROLE}}");
    let task_key = String::from_str("{{TASK}}");
    let mut result = template.to_owned();
    match lookup_placeholder(ps, &role_key) {
        Some(v) => {
            result = replace_all(result.as_str(), "{{ROLE}}", v.as_str());
        },
        None => {},
    }
    match lookup_placeholder(ps, &task_key) {
        Some(v) => {
            result = replace_all(result.as_str(), "{{TASK}}", v.as_str());
        },
        None => {},
    }
    replace_all(result.as_str(), "{{CHARACTER_NAME}}", char_name)
}

/// The fixed tail of the system turn: the tool catalogue and the standing
/// instructions.
pub open spec fn system_fixed_tail() -> Seq<char> {
    "tools:\n  - name: \"edit_character\"\n    description: \"编辑角色字段\"\n    parameters: {\"type\": \"object\", \"properties\": {\"field\": {\"type\": \"string\"}, \"value\": {\"type\": \"string\"}}}\n  - name: \"create_worldbook_entry\"\n    description: \"创建世界书条目\"\n    parameters: {\"type\": \"object\", \"properties\": {\"name\": {\"type\": \"string\"}, \"content\": {\"type\": \"string\"}, \"keys\": {\"type\": \"array\", \"items\": {\"type\": \"string\"}}}}\ninstructions: |\n  基于用户需求分析现有角色设定，提供建议并调用相应工具。\n  始终保持角色设定的一致性和逻辑性，遵循用户的具体要求。\n  如果需要修改角色信息，请使用 edit_character 工具。\n  如果需要添加世界书条目，请使用 create_worldbook_entry 工具。\n"@
}

/// The content of the system turn: the processed role and task lines, then
/// the fixed tail.
pub open spec fn system_content(opts: ContextBuilderOptions, d: TavernCardV2Data) -> Seq<char> {
    "role: "@ + processed(opts.ai_role@, opts.placeholders@, d.name@) + "\n"@
        + "task: "@ + processed(opts.ai_task@, opts.placeholders@, d.name@) + "\n"@
        + system_fixed_tail()
}

/// Render the content of the system turn.
pub fn build_system_content(opts: &ContextBuilderOptions, d: &TavernCardV2Data) -> (r: String)
    ensures
        r@ == system_content(*opts, *d),
{
    let mut out = String::new();
    out.append("role: ");
    let role = process_placeholders(&opts.placeholders, opts.ai_role.as_str(), d.name.as_str());
    out.append(role.as_str());
    out.append("\n");
    out.append("task: ");
    let task = process_placeholders(&opts.placeholders, opts.ai_task.as_str(), d.name.as_str());
    out.append(task.as_str());
    out.append("\n");
    out.append("tools:\n  - name: \"edit_character\"\n    description: \"编辑角色字段\"\n    parameters: {\"type\": \"object\", \"properties\": {\"field\": {\"type\": \"string\"}, \"value\": {\"type\": \"string\"}}}\n  - name: \"create_worldbook_entry\"\n    description: \"创建世界书条目\"\n    parameters: {\"type\": \"object\", \"properties\": {\"name\": {\"type\": \"string\"}, \"content\": {\"type\": \"string\"}, \"keys\": {\"type\": \"array\", \"items\": {\"type\": \"string\"}}}}\ninstructions: |\n  基于用户需求分析现有角色设定，提供建议并调用相应工具。\n  始终保持角色设定的一致性和逻辑性，遵循用户的具体要求。\n  如果需要修改角色信息，请使用 edit_character 工具。\n  如果需要添加世界书条目，请使用 create_worldbook_entry 工具。\n");
    proof {
        assert(out@ =~= system_content(*opts, *d));
    }
    out
}

} // verus!

verus! {

// ---------------------------------------------------------------------------
// The character and world-book turns
// ---------------------------------------------------------------------------

/// The character turn: the rendered card under a `character:` head, marked
/// assistant.
pub open spec fn character_message(d: TavernCardV2Data) -> MessageView {
    MessageView {
        role: "assistant"@,
        content: "character:\n"@ + character_content(d),
        name: None,
        tool_calls: None,
        tool_call_id: None,
    }
}

/// The world-book turn: the budgeted rendering under a `worldbook:` head,
/// marked assistant.
pub open spec fn worldbook_message(book: crate::worldbook::CharacterBook, budget: int)
    -> MessageView {
    MessageView {
        role: "assistant"@,
        content: "worldbook:\n"@ + worldbook_content(book, budget),
        name: None,
        tool_calls: None,
        tool_call_id: None,
    }
}

/// The system turn.
pub open spec fn system_message(opts: ContextBuilderOptions, d: TavernCardV2Data) -> MessageView {
    MessageView {
        role: "system"@,
        content: system_content(opts, d),
        name: None,
        tool_calls: None,
        tool_call_id: None,
    }
}

/// The pending user turn.
pub open spec fn user_message(content: Seq<char>) -> MessageView {
    MessageView {
        role: "user"@,
        content: content,
        name: None,
        tool_calls: None,
        tool_call_id: None,
    }
}

/// Build the character turn and, when a world book is present, the
/// world-book turn. Returns the turns, the card's token count and the
/// rendered book's token count.
pub fn build_assistant_messages(counter: &TokenCounter, d: &TavernCardV2Data,
    worldbook_budget: usize) -> (r: (Vec<OpenAIMessage>, usize, usize))
    ensures
        r.0@.len() >= 1,
        r.0@[0]@ == character_message(*d),
        r.1 == cl100k_tokens(character_content(*d)).len(),
        match d.character_book {
            Some(book) => {
                &&& r.0@.len() == 2
                &&& r.0@[1]@ == worldbook_message(book, worldbook_budget as int)
                &&& r.2 == cl100k_tokens(worldbook_content(book, worldbook_budget as int)).len()
            },
            None => r.0@.len() == 1 && r.2 == 0,
        },
{
    let mut messages: Vec<OpenAIMessage> = Vec::new();
    let content = build_character_content(d);
    let character_tokens = counter.count(content.as_str());
    let mut body = String::from_str("character:\n");
    body.append(content.as_str());
    messages.push(OpenAIMessage {
        role: String::from_str("assistant"),
        content: body,
        name: None,
        tool_calls: None,
        tool_call_id: None,
    });
    let worldbook_tokens: usize;
    match &d.character_book {
        Some(book) => {
            let (wb_content, _used) = build_worldbook_content(counter, book, worldbook_budget);
            worldbook_tokens = counter.count(wb_content.as_str());
            let mut wb_body = String::from_str("worldbook:\n");
            wb_body.append(wb_content.as_str());
            messages.push(OpenAIMessage {
                role: String::from_str("assistant"),
                content: wb_body,
                name: None,
                tool_calls: None,
                tool_call_id: None,
            });
        },
        None => {
            worldbook_tokens = 0;
        },
    }
    (messages, character_tokens, worldbook_tokens)
}

// ---------------------------------------------------------------------------
// The context builder
// ---------------------------------------------------------------------------

proof fn lemma_nat_sat_add(x: nat, y: nat)
    ensures
        nat_sat(nat_sat(x) + y) == nat_sat(x + y),
{
}

/// Builds complete, budgeted contexts.
pub struct ContextBuilder {
    /// How the ceiling is split between segments.
    pub token_budget: TokenBudget,
    /// Templates, placeholders and the truncation ceiling.
    pub options: ContextBuilderOptions,
    /// The token counter used for all accounting.
    pub counter: TokenCounter,
}

impl ContextBuilder {
    /// A builder over the given counter and options, with the default
    /// budget split.
    pub fn new(counter: TokenCounter, options: ContextBuilderOptions) -> (r: ContextBuilder)
        ensures
            r.token_budget.total_limit == crate::budget::DEFAULT_TOKEN_LIMIT,
            r.token_budget.system_reserved == crate::budget::DEFAULT_TOKEN_LIMIT * 15 / 100,
            r.token_budget.character_reserved == crate::budget::DEFAULT_TOKEN_LIMIT * 35 / 100,
            r.token_budget.worldbook_reserved == crate::budget::DEFAULT_TOKEN_LIMIT * 20 / 100,
            r.token_budget.history_reserved == crate::budget::DEFAULT_TOKEN_LIMIT * 30 / 100,
            r.options == options,
    {
        ContextBuilder {
            token_budget: TokenBudget::default(),
            options,
            counter,
        }
    }

    /// Count the tokens of one text.
    pub fn count_tokens(&self, text: &str) -> (n: usize)
        ensures
            n == cl100k_tokens(text@).len(),
    {
        self.counter.count(text)
    }

    /// Count the tokens of a message list, through each message's JSON
    /// rendering, clipping at what a `usize` can hold.
    pub fn count_messages_tokens(&self, msgs: &Vec<OpenAIMessage>) -> (n: usize)
        ensures
            n == nat_sat(msgs_cost(views_of(msgs@))),
    {
        let mut acc: usize = 0;
        let mut i: usize = 0;
        proof {
            assert(views_of(msgs@.take(0)) =~= Seq::<MessageView>::empty());
        }
        while i < msgs.len()
            invariant
                i <= msgs@.len(),
                acc == nat_sat(msgs_cost(views_of(msgs@.take(i as int)))),
            decreases msgs@.len() - i,
        {
            let c = count_message_tokens(&self.counter, &msgs[i]);
            proof {
                let pre = views_of(msgs@.take(i as int));
                let post = views_of(msgs@.take(i + 1));
                assert(post.drop_last() =~= pre);
                assert(post.last() == msgs@[i as int]@);
                lemma_nat_sat_add(msgs_cost(pre), msg_cost(msgs@[i as int]@));
            }
            acc = sat_add(acc, c);
            i += 1;
        }
        proof {
            assert(msgs@.take(msgs@.len() as int) =~= msgs@);
        }
        acc
    }

    /// Assemble the full context: system turn, character and world-book
    /// turns, the most recent history that fits its sub-budget, and the
    /// pending user turn, with per-segment accounting.
    #[verifier::rlimit(100)]
    pub fn build_full_context(&self, character_data: &CharacterData,
        chat_history: &Vec<ChatMessage>, current_user_message: Option<&str>)
        -> (r: Result<BuiltContextResult, String>)
        ensures
            r is Ok,
            ({
                let res = r.unwrap();
                let d = character_data.card.data;
                let views = chat_history@.map_values(|m: ChatMessage| turn_to_message(m@));
                let cut = history_cut(views, self.token_budget.history_reserved as int);
                let cur_cost: nat = match current_user_message {
                    Some(s) => msg_cost(user_message(s@)),
                    None => 0,
                };
                &&& res.system_messages@.len() == 1
                &&& res.system_messages@[0]@ == system_message(self.options, d)
                &&& res.token_allocation.system == nat_sat(msg_cost(system_message(
                    self.options, d)))
                &&& res.assistant_messages@.len() >= 1
                &&& res.assistant_messages@[0]@ == character_message(d)
                &&& res.token_allocation.character == cl100k_tokens(character_content(d)).len()
                &&& match d.character_book {
                    Some(book) => {
                        &&& res.assistant_messages@.len() == 2
                        &&& res.assistant_messages@[1]@ == worldbook_message(book,
                            self.token_budget.worldbook_reserved as int)
                        &&& res.token_allocation.worldbook == cl100k_tokens(worldbook_content(
                            book, self.token_budget.worldbook_reserved as int)).len()
                        &&& crate::selection::costs_sum(crate::selection::selection_of(
                            crate::worldbook::book_items(book.entries@),
                            self.token_budget.worldbook_reserved as int))
                            <= self.token_budget.worldbook_reserved
                    },
                    None => res.assistant_messages@.len() == 1
                        && res.token_allocation.worldbook == 0,
                }
                &&& views_of(res.history_messages@) == views.skip(cut)
                &&& res.token_allocation.history == suffix_cost(views, cut)
                &&& res.token_allocation.history <= self.token_budget.history_reserved
                &&& match current_user_message {
                    Some(s) => res.current_user_message matches Some(m) && m@ == user_message(s@),
                    None => res.current_user_message is None,
                }
                &&& res.total_tokens == nat_sat((res.token_allocation.system
                    + res.token_allocation.character + res.token_allocation.worldbook
                    + res.token_allocation.history + cur_cost) as nat)
                &&& res.was_truncated == (res.total_tokens > self.options.token_limit)
            }),
    {
        // system turn
        let system_text = build_system_content(&self.options, &character_data.card.data);
        let mut system_messages: Vec<OpenAIMessage> = Vec::new();
        system_messages.push(OpenAIMessage {
            role: String::from_str("system"),
            content: system_text,
            name: None,
            tool_calls: None,
            tool_call_id: None,
        });
        let system_tokens = self.count_messages_tokens(&system_messages);
        proof {
            let vs = views_of(system_messages@);
            assert(vs.drop_last() =~= Seq::<MessageView>::empty());
            assert(vs.last() == system_messages@[0]@);
            assert(msgs_cost(vs.drop_last()) == 0);
            assert(msgs_cost(vs) == msg_cost(system_messages@[0]@));
            assert(system_messages@[0]@ == system_message(self.options,
                character_data.card.data));
            assert(system_tokens == nat_sat(msg_cost(system_message(self.options,
                character_data.card.data))));
        }
        // character and world-book turns
        let (assistant_messages, character_tokens, worldbook_tokens) = build_assistant_messages(
            &self.counter, &character_data.card.data, self.token_budget.worldbook_reserved);
        proof {
            // the selected entries' costs stay within the knowledge
            // sub-budget; the rendered segment's own token count also
            // covers the header, which the selection does not bound
            match &character_data.card.data.character_book {
                Some(book) => {
                    crate::selection::lemma_selection_within_budget(
                        crate::worldbook::book_items(book.entries@),
                        self.token_budget.worldbook_reserved as int);
                },
                None => {},
            }
        }
        // history under its sub-budget
        let (history_messages, history_tokens) = build_history_messages(
            &self.counter, chat_history, self.token_budget.history_reserved);
        // pending user turn
        let current_message: Option<OpenAIMessage> = match current_user_message {
            Some(content) => Some(OpenAIMessage {
                role: String::from_str("user"),
                content: content.to_owned(),
                name: None,
                tool_calls: None,
                tool_call_id: None,
            }),
            None => None,
        };
        let current_tokens: usize = match &current_message {
            Some(m) => count_message_tokens(&self.counter, m),
            None => 0,
        };
        let token_allocation = TokenAllocation {
            character: character_tokens,
            worldbook: worldbook_tokens,
            system: system_tokens,
            history: history_tokens,
        };
        let t1 = sat_add(system_tokens, character_tokens);
        let t2 = sat_add(t1, worldbook_tokens);
        let t3 = sat_add(t2, history_tokens);
        let total_tokens = sat_add(t3, current_tokens);
        proof {
            lemma_nat_sat_add(system_tokens as nat + character_tokens as nat,
                worldbook_tokens as nat);
            lemma_nat_sat_add(system_tokens as nat + character_tokens as nat
                + worldbook_tokens as nat, history_tokens as nat);
            lemma_nat_sat_add(system_tokens as nat + character_tokens as nat
                + worldbook_tokens as nat + history_tokens as nat, current_tokens as nat);
        }
        let was_truncated = total_tokens > self.options.token_limit;
        Ok(BuiltContextResult {
            system_messages,
            assistant_messages,
            history_messages,
            current_user_message: current_message,
            total_tokens,
            token_allocation,
            was_truncated,
        })
    }
}

/// A builder with the default options. The tokenizer always loads, so a
/// builder is always returned; the `Result` shape is kept for callers that
/// treat construction as fallible.
pub fn create_default_context_builder() -> (r: Result<ContextBuilder, String>)
    ensures
        r is Ok,
        r matches Ok(b) ==> {
            &&& b.token_budget.total_limit == crate::budget::DEFAULT_TOKEN_LIMIT
            &&& b.token_budget.system_reserved == crate::budget::DEFAULT_TOKEN_LIMIT * 15 / 100
            &&& b.token_budget.character_reserved
                == crate::budget::DEFAULT_TOKEN_LIMIT * 35 / 100
            &&& b.token_budget.worldbook_reserved
                == crate::budget::DEFAULT_TOKEN_LIMIT * 20 / 100
            &&& b.token_budget.history_reserved == crate::budget::DEFAULT_TOKEN_LIMIT * 30 / 100
            &&& b.options.token_limit == crate::budget::DEFAULT_TOKEN_LIMIT
            &&& b.options.enable_smart_truncation
            &&& b.options.ai_role@ == "{{ROLE}}"@
            &&& b.options.ai_task@ == "{{TASK}}"@
            &&& b.options.prioritize_chat_history
            &&& b.options.placeholders@.len() == 2
            &&& b.options.placeholders@[0].0@ == "{{ROLE}}"@
            &&& b.options.placeholders@[1].0@ == "{{TASK}}"@
        },
{
    create_context_builder(ContextBuilderOptions::default())
}

/// A builder with the given options. The tokenizer always loads, so a
/// builder is always returned.
pub fn create_context_builder(options: ContextBuilderOptions) -> (r: Result<ContextBuilder, String>)
    ensures
        r is Ok,
        r matches Ok(b) ==> {
            &&& b.token_budget.total_limit == crate::budget::DEFAULT_TOKEN_LIMIT
            &&& b.token_budget.system_reserved == crate::budget::DEFAULT_TOKEN_LIMIT * 15 / 100
            &&& b.token_budget.character_reserved
                == crate::budget::DEFAULT_TOKEN_LIMIT * 35 / 100
            &&& b.token_budget.worldbook_reserved
                == crate::budget::DEFAULT_TOKEN_LIMIT * 20 / 100
            &&& b.token_budget.history_reserved == crate::budget::DEFAULT_TOKEN_LIMIT * 30 / 100
            &&& b.options == options
        },
{
    match TokenCounter::new() {
        Ok(counter) => Ok(ContextBuilder::new(counter, options)),
        Err(e) => Err(e),
    }
}

// ---------------------------------------------------------------------------
// Budget conservation
// ---------------------------------------------------------------------------

/// Budget conservation: when each segment stays within its own
/// sub-reservation, the segments together stay within the sum of the
/// sub-reservations. The builder itself enforces the history bound and the
/// world-book entry bound; the system and character segments are rendered
/// whole, so their bounds are assumptions here.
pub proof fn lemma_budget_conservation(alloc: TokenAllocation, b: TokenBudget)
    requires
        alloc.system <= b.system_reserved,
        alloc.character <= b.character_reserved,
        alloc.worldbook <= b.worldbook_reserved,
        alloc.history <= b.history_reserved,
    ensures
        alloc.system + alloc.character + alloc.worldbook + alloc.history
            <= b.system_reserved + b.character_reserved + b.worldbook_reserved
                + b.history_reserved,
{
}

} // verus!
