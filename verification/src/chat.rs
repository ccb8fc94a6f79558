//! Provider-facing chat types and the bounded tool-call loop.
//!
//! The loop itself alternates outside work (the network round-trip, the
//! tools' own effects) with decisions; the decisions live here: whether a
//! round may start under the iteration cap, how a reply is classified, and
//! what a tool's outcome looks like as a tool turn. The driver performs the
//! outside work and feeds every reply back through these functions.
//! Sampling parameters (temperature and friends) are attached by the
//! driver at the provider boundary and play no part in the decisions.

use vstd::prelude::*;
use vstd::string::*;
use crate::messages::{MessageRole, ToolCallData};
use crate::strings::{json_string, dec_str, append_json_string, append_u64};
use crate::tools::ToolResult;

verus! {

/// One message of a provider request or reply.
#[derive(Clone, Debug)]
pub struct ChatMessage {
    pub role: MessageRole,
    pub content: String,
    pub name: Option<String>,
    pub tool_calls: Option<Vec<ToolCallData>>,
    pub tool_call_id: Option<String>,
}

/// The target of a named tool choice.
#[derive(Clone, Debug)]
pub struct ToolTarget {
    pub name: String,
}

/// The tool-choice policy sent to the provider.
#[derive(Clone, Debug)]
pub enum ToolChoice {
    /// `"none"`, `"auto"` or `"required"`.
    Mode(String),
    /// A named function the model must call.
    Function { choice_type: String, function: ToolTarget },
}

/// One or several stop sequences.
#[derive(Clone, Debug)]
pub enum StopSequence {
    Single(String),
    Multiple(Vec<String>),
}

/// Token usage reported by the provider.
#[derive(Clone, Copy, PartialEq, Eq, Structural, Debug)]
pub struct Usage {
    pub prompt_tokens: u32,
    pub completion_tokens: u32,
    pub total_tokens: u32,
}

/// A parameter of a tool's schema.
#[derive(Clone, Debug)]
pub struct ToolParameter {
    pub param_type: String,
    pub description: Option<String>,
    pub enum_values: Option<Vec<String>>,
    pub required: Option<Vec<String>>,
}

/// The parameter object of a tool.
#[derive(Clone, Debug)]
pub struct ToolParameters {
    pub param_type: String,
    pub properties: Vec<(String, ToolParameter)>,
    pub required: Option<Vec<String>>,
}

/// The function part of a tool descriptor.
#[derive(Clone, Debug)]
pub struct ToolFunction {
    pub name: String,
    pub description: Option<String>,
    pub parameters: Option<ToolParameters>,
}

/// A tool descriptor as the provider sees it.
#[derive(Clone, Debug)]
pub struct ChatTool {
    pub tool_type: String,
    pub function: ToolFunction,
}

/// One reply choice.
#[derive(Clone, Debug)]
pub struct ChatCompletionChoice {
    pub index: u32,
    pub message: ChatMessage,
    pub finish_reason: String,
}

/// A provider reply.
#[derive(Clone, Debug)]
pub struct ChatCompletionResponse {
    pub id: String,
    pub object: String,
    pub created: u64,
    pub model: String,
    pub system_fingerprint: Option<String>,
    pub choices: Vec<ChatCompletionChoice>,
    pub usage: Usage,
}

/// A provider request. Sampling parameters are attached by the driver at
/// the provider boundary.
#[derive(Clone, Debug)]
pub struct ChatCompletionRequest {
    pub model: String,
    pub messages: Vec<ChatMessage>,
    pub max_tokens: Option<u32>,
    pub stop: Option<StopSequence>,
    pub stream: Option<bool>,
    pub tools: Option<Vec<ChatTool>>,
    pub tool_choice: Option<ToolChoice>,
}

// ---------------------------------------------------------------------------
// Reply classification
// ---------------------------------------------------------------------------

/// Whether a reply message carries at least one function-call directive.
pub open spec fn spec_has_tool_calls(tool_calls: Option<Vec<ToolCallData>>) -> bool {
    match tool_calls {
        Some(tcs) => tcs@.len() > 0,
        None => false,
    }
}

/// Whether a reply message asks for a tool round rather than ending the
/// exchange.
pub fn reply_has_tool_calls(message: &ChatMessage) -> (r: bool)
    ensures
        r == spec_has_tool_calls(message.tool_calls),
{
    match &message.tool_calls {
        Some(tcs) => tcs.len() > 0,
        None => false,
    }
}

// ---------------------------------------------------------------------------
// The bounded loop
// ---------------------------------------------------------------------------

/// Default round-trip cap of the tool-call loop.
pub const DEFAULT_MAX_TOOL_ROUNDS: u32 = 5;

/// The loop counter of one response generation: how many round-trips have
/// started, against a fixed cap.
pub struct ToolLoop {
    pub iteration: u32,
    pub max_iterations: u32,
}

impl ToolLoop {
    /// A fresh loop under the given cap.
    pub fn new(max_iterations: u32) -> (r: ToolLoop)
        ensures
            r.iteration == 0,
            r.max_iterations == max_iterations,
    {
        ToolLoop { iteration: 0, max_iterations }
    }

    /// Try to start a round: allowed exactly while fewer than the cap have
    /// started; a refusal leaves the counter unchanged.
    pub fn begin_round(&mut self) -> (ok: bool)
        ensures
            final(self).max_iterations == old(self).max_iterations,
            ok == (old(self).iteration < old(self).max_iterations),
            ok ==> final(self).iteration == old(self).iteration + 1,
            !ok ==> final(self).iteration == old(self).iteration,
    {
        if self.iteration >= self.max_iterations {
            false
        } else {
            self.iteration = self.iteration + 1;
            true
        }
    }

    /// The error surfaced when the cap aborts the loop, distinct from any
    /// transport failure.
    pub fn cap_exceeded_error() -> (r: String)
        ensures
            r@ == "tool-call loop limit exceeded"@,
    {
        String::from_str("tool-call loop limit exceeded")
    }
}

/// The outcome of running the loop against a sequence of replies, each
/// summarized as "carries tool calls" or not: how many requests were sent
/// and whether the cap aborted the loop.
pub open spec fn loop_result(replies: Seq<bool>, cap: nat, it: nat) -> (nat, bool)
    decreases cap - it,
{
    if it >= cap {
        (it, true)
    } else if it < replies.len() && replies[it as int] {
        loop_result(replies, cap, it + 1)
    } else {
        (it + 1, false)
    }
}

/// Tool-loop termination: against a model that always replies with a
/// function call, the loop sends exactly the cap's number of requests and
/// then aborts — never fewer, never more.
pub proof fn lemma_tool_loop_termination(replies: Seq<bool>, cap: nat)
    requires
        replies.len() >= cap,
        forall|i: int| 0 <= i < replies.len() ==> replies[i],
    ensures
        loop_result(replies, cap, 0) == ((cap, true)),
{
    lemma_tool_loop_termination_from(replies, cap, 0);
}

proof fn lemma_tool_loop_termination_from(replies: Seq<bool>, cap: nat, it: nat)
    requires
        replies.len() >= cap,
        it <= cap,
        forall|i: int| 0 <= i < replies.len() ==> replies[i],
    ensures
        loop_result(replies, cap, it) == ((cap, true)),
    decreases cap - it,
{
    if it < cap {
        lemma_tool_loop_termination_from(replies, cap, it + 1);
    }
}

// ---------------------------------------------------------------------------
// Tool outcomes as turn content
// ---------------------------------------------------------------------------

/// The content of a tool turn for arguments that did not parse:
/// `{"success":false,"error":"Invalid tool arguments: .."}`.
pub open spec fn invalid_args_json(err: Seq<char>) -> Seq<char> {
    "{\"success\":false,\"error\":"@ + json_string("Invalid tool arguments: "@ + err) + "}"@
}

/// Render the tool-turn content for arguments that did not parse.
pub fn invalid_args_content(err: &str) -> (r: String)
    ensures
        r@ == invalid_args_json(err@),
{
    let mut full = String::from_str("Invalid tool arguments: ");
    full.append(err);
    let mut out = String::from_str("{\"success\":false,\"error\":");
    append_json_string(&mut out, full.as_str());
    out.append("}");
    proof {
        assert(out@ =~= invalid_args_json(err@));
    }
    out
}

/// A raw JSON payload, or `null` when there is none.
pub open spec fn opt_raw_json(o: Option<Seq<char>>) -> Seq<char> {
    match o {
        Some(s) => s,
        None => "null"@,
    }
}

/// The content of a tool turn for a completed invocation, mirroring the
/// result's success flag, payload, error text and elapsed time.
pub open spec fn tool_result_json(success: bool, data: Option<Seq<char>>,
    error: Option<Seq<char>>, elapsed_ms: u64) -> Seq<char> {
    if success {
        "{\"success\":true,\"data\":"@ + opt_raw_json(data)
            + ",\"execution_time_ms\":"@ + dec_str(elapsed_ms as nat) + "}"@
    } else {
        "{\"success\":false,\"error\":"@ + json_string(match error {
            Some(e) => e,
            None => "Tool execution failed"@,
        }) + ",\"data\":"@ + opt_raw_json(data)
            + ",\"execution_time_ms\":"@ + dec_str(elapsed_ms as nat) + "}"@
    }
}

/// Render the tool-turn content for a completed invocation.
pub fn tool_result_content(result: &ToolResult) -> (r: String)
    ensures
        r@ == tool_result_json(result.success,
            match result.data { Some(d) => Some(d@), None => None },
            match result.error { Some(e) => Some(e@), None => None },
            result.execution_time_ms),
{
    if result.success {
        let mut out = String::from_str("{\"success\":true,\"data\":");
        match &result.data {
            Some(d) => out.append(d.as_str()),
            None => out.append("null"),
        }
        out.append(",\"execution_time_ms\":");
        append_u64(&mut out, result.execution_time_ms);
        out.append("}");
        proof {
            assert(out@ =~= tool_result_json(result.success,
                match result.data { Some(d) => Some(d@), None => None },
                match result.error { Some(e) => Some(e@), None => None },
                result.execution_time_ms));
        }
        out
    } else {
        let mut out = String::from_str("{\"success\":false,\"error\":");
        match &result.error {
            Some(e) => append_json_string(&mut out, e.as_str()),
            None => append_json_string(&mut out, "Tool execution failed"),
        }
        out.append(",\"data\":");
        match &result.data {
            Some(d) => out.append(d.as_str()),
            None => out.append("null"),
        }
        out.append(",\"execution_time_ms\":");
        append_u64(&mut out, result.execution_time_ms);
        out.append("}");
        proof {
            assert(out@ =~= tool_result_json(result.success,
                match result.data { Some(d) => Some(d@), None => None },
                match result.error { Some(e) => Some(e@), None => None },
                result.execution_time_ms));
        }
        out
    }
}

/// The tool turn answering call `tool_call_id` with `content`.
pub fn tool_turn_message(content: String, tool_call_id: String) -> (r: ChatMessage)
    ensures
        r.role == MessageRole::Tool,
        r.content == content,
        r.name is None,
        r.tool_calls is None,
        r.tool_call_id matches Some(id) && id == tool_call_id,
{
    ChatMessage {
        role: MessageRole::Tool,
        content,
        name: None,
        tool_calls: None,
        tool_call_id: Some(tool_call_id),
    }
}

} // verus!

verus! {

// ---------------------------------------------------------------------------
// Tool-argument parsing
// ---------------------------------------------------------------------------

/// The fields of the JSON object that `s` denotes, each mapped to its text
/// when its value is a JSON string and to `None` otherwise; `None` when `s`
/// is not a JSON object.
pub uninterp spec fn json_object_fields(s: Seq<char>) -> Option<Map<Seq<char>, Option<Seq<char>>>>;

/// Relies on `serde_json::from_str`: parses the argument text as a JSON
/// object, handing each field through with its text when it is a string.
/// The order of the returned pairs follows a hash map's iteration and is
/// not specified.
#[verifier::external_body]
fn parse_json_object(s: &str) -> (r: Result<Vec<(String, Option<String>)>, String>)
    ensures
        match r {
            Ok(v) => {
                &&& json_object_fields(s@) matches Some(m)
                &&& forall|i: int| 0 <= i < v@.len() ==> (json_object_fields(s@).unwrap()
                    .contains_pair(#[trigger] v@[i].0@, crate::messages::opt_view(v@[i].1)))
                &&& forall|i: int, j: int| 0 <= i < j < v@.len()
                    ==> (#[trigger] v@[i].0@) != (#[trigger] v@[j].0@)
                &&& forall|k: Seq<char>| json_object_fields(s@).unwrap().dom().contains(k)
                    ==> exists|i: int| 0 <= i < v@.len() && (#[trigger] v@[i].0@) == k
            },
            Err(_) => json_object_fields(s@) is None,
        },
{
    match serde_json::from_str::<std::collections::HashMap<String, serde_json::Value>>(s) {
        Ok(m) => Ok(m.into_iter().map(|(k, v)| match v {
            serde_json::Value::String(t) => (k, Some(t)),
            _ => (k, None),
        }).collect()),
        Err(e) => Err(format!("{}", e)),
    }
}

/// Parse a tool call's argument text into its string-valued fields, as the
/// tools consume them. Fields with non-string values are dropped; a text
/// that is not a JSON object is a failure the caller turns into a tool
/// failure result. The pair order follows a hash map's iteration and is
/// not specified.
/// The parsed argument pairs are exactly the string-valued fields of the
/// object that `s` denotes.
pub open spec fn parsed_args_ok(s: Seq<char>, v: Seq<(String, String)>) -> bool {
    &&& json_object_fields(s) is Some
    &&& forall|i: int| 0 <= i < v.len() ==> (json_object_fields(s).unwrap()
        .contains_pair(#[trigger] v[i].0@, Some(v[i].1@)))
    &&& forall|k: Seq<char>, t: Seq<char>|
        #[trigger] json_object_fields(s).unwrap().contains_pair(k, Some(t))
        ==> exists|i: int| 0 <= i < v.len() && (#[trigger] v[i].0@) == k
            && v[i].1@ == t
}

#[verifier::rlimit(100)]
pub fn parse_tool_arguments(s: &str) -> (r: Result<Vec<(String, String)>, String>)
    ensures
        match r {
            Ok(v) => parsed_args_ok(s@, v@),
            Err(_) => json_object_fields(s@) is None,
        },
{
    match parse_json_object(s) {
        Ok(fields) => {
            let ghost m = json_object_fields(s@).unwrap();
            let mut out: Vec<(String, String)> = Vec::new();
            let mut i: usize = 0;
            while i < fields.len()
                invariant
                    i <= fields@.len(),
                    json_object_fields(s@) == Some(m),
                    forall|a: int| 0 <= a < fields@.len() ==> m.contains_pair(
                        #[trigger] fields@[a].0@, crate::messages::opt_view(fields@[a].1)),
                    forall|a: int, b: int| 0 <= a < b < fields@.len()
                        ==> (#[trigger] fields@[a].0@) != (#[trigger] fields@[b].0@),
                    forall|k: Seq<char>| m.dom().contains(k)
                        ==> exists|a: int| 0 <= a < fields@.len()
                            && (#[trigger] fields@[a].0@) == k,
                    forall|a: int| 0 <= a < out@.len() ==> m.contains_pair(
                        #[trigger] out@[a].0@, Some(out@[a].1@)),
                    forall|a: int| 0 <= a < i && (#[trigger] fields@[a].1) is Some
                        ==> exists|b: int| 0 <= b < out@.len()
                            && (#[trigger] out@[b].0@) == fields@[a].0@
                            && Some(out@[b].1@) == crate::messages::opt_view(fields@[a].1),
                decreases fields@.len() - i,
            {
                let pair = &fields[i];
                match &pair.1 {
                    Some(v) => {
                        let ghost pre_out = out@;
                        out.push((pair.0.clone(), v.clone()));
                        proof {
                            assert(out@[out@.len() - 1].0@ == fields@[i as int].0@);
                            assert forall|a: int| 0 <= a < i + 1
                                && (#[trigger] fields@[a].1) is Some
                                implies exists|b: int| 0 <= b < out@.len()
                                    && (#[trigger] out@[b].0@) == fields@[a].0@
                                    && Some(out@[b].1@) == crate::messages::opt_view(
                                    fields@[a].1) by {
                                if a < i {
                                    let b = choose|b: int| 0 <= b < pre_out.len()
                                        && (#[trigger] pre_out[b].0@) == fields@[a].0@
                                        && Some(pre_out[b].1@) == crate::messages::opt_view(
                                        fields@[a].1);
                                    assert(out@[b].0@ == fields@[a].0@);
                                } else {
                                    assert(out@[out@.len() - 1].0@ == fields@[a].0@);
                                }
                            }
                        }
                    },
                    None => {},
                }
                i += 1;
            }
            proof {
                assert forall|k: Seq<char>, t: Seq<char>| m.contains_pair(k, Some(t))
                    implies exists|b: int| 0 <= b < out@.len() && (#[trigger] out@[b].0@) == k
                        && out@[b].1@ == t by {
                    let a = choose|a: int| 0 <= a < fields@.len()
                        && (#[trigger] fields@[a].0@) == k;
                    assert(m.contains_pair(fields@[a].0@,
                        crate::messages::opt_view(fields@[a].1)));
                    assert(crate::messages::opt_view(fields@[a].1) == Some(t));
                    assert(fields@[a].1 is Some);
                }
                assert(json_object_fields(s@) matches Some(mm) && mm == m);
                assert(forall|i: int| 0 <= i < out@.len() ==> (json_object_fields(s@).unwrap()
                    .contains_pair(#[trigger] out@[i].0@, Some(out@[i].1@))));
                assert(forall|k: Seq<char>, t: Seq<char>|
                    #[trigger] json_object_fields(s@).unwrap().contains_pair(k, Some(t))
                    ==> exists|i: int| 0 <= i < out@.len() && (#[trigger] out@[i].0@) == k
                        && out@[i].1@ == t);
                assert(parsed_args_ok(s@, out@));
            }
            Ok(out)
        },
        Err(e) => Err(e),
    }
}

// ---------------------------------------------------------------------------
// Request assembly
// ---------------------------------------------------------------------------

/// The role denoted by a stored turn's role text; unknown texts fall back
/// to the user role.
pub open spec fn role_of_str(s: Seq<char>) -> MessageRole {
    if s == "user"@ {
        MessageRole::User
    } else if s == "assistant"@ {
        MessageRole::Assistant
    } else if s == "system"@ {
        MessageRole::System
    } else if s == "tool"@ {
        MessageRole::Tool
    } else {
        MessageRole::User
    }
}

/// Map a role text to its role.
pub fn role_from_text(s: &str) -> (r: MessageRole)
    ensures
        r == role_of_str(s@),
{
    if crate::strings::str_eq(s, "user") {
        MessageRole::User
    } else if crate::strings::str_eq(s, "assistant") {
        MessageRole::Assistant
    } else if crate::strings::str_eq(s, "system") {
        MessageRole::System
    } else if crate::strings::str_eq(s, "tool") {
        MessageRole::Tool
    } else {
        MessageRole::User
    }
}

} // verus!

verus! {

/// The provider-facing message list of a built context, in the fixed
/// order: the system turn, the character and world-book turns also marked
/// system (so the user/assistant timeline stays clean), the kept history
/// with its stored roles, and the pending user turn last.
#[verifier::loop_isolation(false)]
pub fn assemble_request_messages(ctx: &crate::context::BuiltContextResult)
    -> (r: Vec<ChatMessage>)
    ensures
        ({
            let ns = ctx.system_messages@.len() as int;
            let na = ctx.assistant_messages@.len() as int;
            let nh = ctx.history_messages@.len() as int;
            &&& r@.len() == ns + na + nh + (match ctx.current_user_message {
                Some(_) => 1int,
                None => 0int,
            })
            &&& forall|i: int| 0 <= i < ns ==> {
                &&& (#[trigger] r@[i]).role == MessageRole::System
                &&& r@[i].content@ == ctx.system_messages@[i]@.content
                &&& crate::messages::opt_view(r@[i].name) == ctx.system_messages@[i]@.name
                &&& r@[i].tool_calls is None
                &&& r@[i].tool_call_id is None
            }
            &&& forall|i: int| 0 <= i < na ==> {
                &&& (#[trigger] r@[ns + i]).role == MessageRole::System
                &&& r@[ns + i].content@ == ctx.assistant_messages@[i]@.content
                &&& crate::messages::opt_view(r@[ns + i].name) == ctx.assistant_messages@[i]@.name
                &&& r@[ns + i].tool_calls is None
                &&& r@[ns + i].tool_call_id is None
            }
            &&& forall|i: int| 0 <= i < nh ==> {
                &&& (#[trigger] r@[ns + na + i]).role == role_of_str(
                    ctx.history_messages@[i]@.role)
                &&& r@[ns + na + i].content@ == ctx.history_messages@[i]@.content
                &&& crate::messages::opt_view(r@[ns + na + i].name)
                    == ctx.history_messages@[i]@.name
                &&& crate::messages::opt_calls_view(r@[ns + na + i].tool_calls)
                    == ctx.history_messages@[i]@.tool_calls
                &&& crate::messages::opt_view(r@[ns + na + i].tool_call_id)
                    == ctx.history_messages@[i]@.tool_call_id
            }
            &&& match ctx.current_user_message {
                Some(m) => {
                    &&& r@.last().role == MessageRole::User
                    &&& r@.last().content@ == m@.content
                    &&& crate::messages::opt_view(r@.last().name) == m@.name
                    &&& r@.last().tool_calls is None
                    &&& crate::messages::opt_view(r@.last().tool_call_id) == m@.tool_call_id
                },
                None => true,
            }
        }),
{
    let mut out: Vec<ChatMessage> = Vec::new();
    let mut i: usize = 0;
    while i < ctx.system_messages.len()
        invariant
            i <= ctx.system_messages@.len(),
            out@.len() == i,
            forall|j: int| 0 <= j < i ==> {
                &&& (#[trigger] out@[j]).role == MessageRole::System
                &&& out@[j].content@ == ctx.system_messages@[j]@.content
                &&& crate::messages::opt_view(out@[j].name) == ctx.system_messages@[j]@.name
                &&& out@[j].tool_calls is None
                &&& out@[j].tool_call_id is None
            },
        decreases ctx.system_messages@.len() - i,
    {
        let m = &ctx.system_messages[i];
        out.push(ChatMessage {
            role: MessageRole::System,
            content: m.content.clone(),
            name: crate::messages::clone_opt_string(&m.name),
            tool_calls: None,
            tool_call_id: None,
        });
        i += 1;
    }
    let ghost ns = ctx.system_messages@.len() as int;
    let mut i2: usize = 0;
    while i2 < ctx.assistant_messages.len()
        invariant
            i2 <= ctx.assistant_messages@.len(),
            out@.len() == ns + i2,
            forall|j: int| 0 <= j < ns ==> {
                &&& (#[trigger] out@[j]).role == MessageRole::System
                &&& out@[j].content@ == ctx.system_messages@[j]@.content
                &&& crate::messages::opt_view(out@[j].name) == ctx.system_messages@[j]@.name
                &&& out@[j].tool_calls is None
                &&& out@[j].tool_call_id is None
            },
            forall|j: int| 0 <= j < i2 ==> {
                &&& (#[trigger] out@[ns + j]).role == MessageRole::System
                &&& out@[ns + j].content@ == ctx.assistant_messages@[j]@.content
                &&& crate::messages::opt_view(out@[ns + j].name)
                    == ctx.assistant_messages@[j]@.name
                &&& out@[ns + j].tool_calls is None
                &&& out@[ns + j].tool_call_id is None
            },
        decreases ctx.assistant_messages@.len() - i2,
    {
        let m = &ctx.assistant_messages[i2];
        let ghost pre = out@;
        out.push(ChatMessage {
            role: MessageRole::System,
            content: m.content.clone(),
            name: crate::messages::clone_opt_string(&m.name),
            tool_calls: None,
            tool_call_id: None,
        });
        proof {
            assert forall|j: int| 0 <= j < ns implies
                (#[trigger] out@[j]).role == MessageRole::System
                && out@[j].content@ == ctx.system_messages@[j]@.content
                && crate::messages::opt_view(out@[j].name) == ctx.system_messages@[j]@.name
                && out@[j].tool_calls is None
                && out@[j].tool_call_id is None by {
                assert(out@[j] == pre[j]);
            }
            assert forall|j: int| 0 <= j < i2 + 1 implies
                (#[trigger] out@[ns + j]).role == MessageRole::System
                && out@[ns + j].content@ == ctx.assistant_messages@[j]@.content
                && crate::messages::opt_view(out@[ns + j].name)
                    == ctx.assistant_messages@[j]@.name
                && out@[ns + j].tool_calls is None
                && out@[ns + j].tool_call_id is None by {
                if j < i2 {
                    assert(out@[ns + j] == pre[ns + j]);
                } else {
                    assert(out@[ns + j] == out@.last());
                }
            }
        }
        i2 += 1;
    }
    let ghost na = ctx.assistant_messages@.len() as int;
    let mut i3: usize = 0;
    while i3 < ctx.history_messages.len()
        invariant
            i3 <= ctx.history_messages@.len(),
            out@.len() == ns + na + i3,
            forall|j: int| 0 <= j < ns ==> {
                &&& (#[trigger] out@[j]).role == MessageRole::System
                &&& out@[j].content@ == ctx.system_messages@[j]@.content
                &&& crate::messages::opt_view(out@[j].name) == ctx.system_messages@[j]@.name
                &&& out@[j].tool_calls is None
                &&& out@[j].tool_call_id is None
            },
            forall|j: int| 0 <= j < na ==> {
                &&& (#[trigger] out@[ns + j]).role == MessageRole::System
                &&& out@[ns + j].content@ == ctx.assistant_messages@[j]@.content
                &&& crate::messages::opt_view(out@[ns + j].name)
                    == ctx.assistant_messages@[j]@.name
                &&& out@[ns + j].tool_calls is None
                &&& out@[ns + j].tool_call_id is None
            },
            forall|j: int| 0 <= j < i3 ==> {
                &&& (#[trigger] out@[ns + na + j]).role == role_of_str(
                    ctx.history_messages@[j]@.role)
                &&& out@[ns + na + j].content@ == ctx.history_messages@[j]@.content
                &&& crate::messages::opt_view(out@[ns + na + j].name)
                    == ctx.history_messages@[j]@.name
                &&& crate::messages::opt_calls_view(out@[ns + na + j].tool_calls)
                    == ctx.history_messages@[j]@.tool_calls
                &&& crate::messages::opt_view(out@[ns + na + j].tool_call_id)
                    == ctx.history_messages@[j]@.tool_call_id
            },
        decreases ctx.history_messages@.len() - i3,
    {
        let m = &ctx.history_messages[i3];
        let ghost pre = out@;
        out.push(ChatMessage {
            role: role_from_text(m.role.as_str()),
            content: m.content.clone(),
            name: crate::messages::clone_opt_string(&m.name),
            tool_calls: crate::messages::clone_opt_calls(&m.tool_calls),
            tool_call_id: crate::messages::clone_opt_string(&m.tool_call_id),
        });
        proof {
            assert forall|j: int| 0 <= j < ns implies
                (#[trigger] out@[j]).role == MessageRole::System
                && out@[j].content@ == ctx.system_messages@[j]@.content
                && crate::messages::opt_view(out@[j].name) == ctx.system_messages@[j]@.name
                && out@[j].tool_calls is None
                && out@[j].tool_call_id is None by {
                assert(out@[j] == pre[j]);
            }
            assert forall|j: int| 0 <= j < na implies
                (#[trigger] out@[ns + j]).role == MessageRole::System
                && out@[ns + j].content@ == ctx.assistant_messages@[j]@.content
                && crate::messages::opt_view(out@[ns + j].name)
                    == ctx.assistant_messages@[j]@.name
                && out@[ns + j].tool_calls is None
                && out@[ns + j].tool_call_id is None by {
                assert(out@[ns + j] == pre[ns + j]);
            }
            assert forall|j: int| 0 <= j < i3 + 1 implies
                (#[trigger] out@[ns + na + j]).role == role_of_str(
                    ctx.history_messages@[j]@.role)
                && out@[ns + na + j].content@ == ctx.history_messages@[j]@.content
                && crate::messages::opt_view(out@[ns + na + j].name)
                    == ctx.history_messages@[j]@.name
                && crate::messages::opt_calls_view(out@[ns + na + j].tool_calls)
                    == ctx.history_messages@[j]@.tool_calls
                && crate::messages::opt_view(out@[ns + na + j].tool_call_id)
                    == ctx.history_messages@[j]@.tool_call_id by {
                if j < i3 {
                    assert(out@[ns + na + j] == pre[ns + na + j]);
                } else {
                    assert(out@[ns + na + j] == out@.last());
                }
            }
        }
        i3 += 1;
    }
    match &ctx.current_user_message {
        Some(m) => {
            out.push(ChatMessage {
                role: MessageRole::User,
                content: m.content.clone(),
                name: crate::messages::clone_opt_string(&m.name),
                tool_calls: None,
                tool_call_id: crate::messages::clone_opt_string(&m.tool_call_id),
            });
        },
        None => {},
    }
    out
}

} // verus!

verus! {

/// What a tool-choice value means to the provider request, once its text
/// forms are classified.
#[derive(Clone, Debug)]
pub enum ToolChoiceKind {
    /// `"none"`: the model must not call tools.
    NoTools,
    /// `"auto"`: the model decides.
    Auto,
    /// `"required"`: the model must call some tool.
    Required,
    /// A specific function the model must call.
    Named(String),
}

/// The provider-facing chat service's decision core. Building the wire
/// request and awaiting the reply happen at the boundary; what the library
/// decides is how an endpoint and a tool-choice value are interpreted.
pub struct AIChatService;

impl AIChatService {
    /// The versioned base URL a configured endpoint resolves to.
    pub fn base_url(config: &crate::api_config::ApiConfig) -> (r: String)
        ensures
            r@ == crate::api_config::normalized_base_url(config.endpoint@),
    {
        crate::api_config::normalize_base_url(config.endpoint.as_str())
    }

    /// Classify a tool-choice value: the three mode words, compared without
    /// case, or a named function; anything else is passed over.
    pub fn classify_tool_choice(choice: &ToolChoice) -> (r: Option<ToolChoiceKind>)
        ensures
            match choice {
                ToolChoice::Mode(s) => {
                    if crate::services::lower_of(s@) == "none"@ {
                        r matches Some(k) && k is NoTools
                    } else if crate::services::lower_of(s@) == "auto"@ {
                        r matches Some(k) && k is Auto
                    } else if crate::services::lower_of(s@) == "required"@ {
                        r matches Some(k) && k is Required
                    } else {
                        r is None
                    }
                },
                ToolChoice::Function { choice_type, function } => {
                    if crate::services::lower_of(choice_type@) == "function"@ {
                        r matches Some(k) && k matches ToolChoiceKind::Named(n)
                            && n@ == function.name@
                    } else {
                        r is None
                    }
                },
            },
    {
        match choice {
            ToolChoice::Mode(s) => {
                let low = crate::services::to_lowercase_str(s.as_str());
                if crate::strings::str_eq(low.as_str(), "none") {
                    Some(ToolChoiceKind::NoTools)
                } else if crate::strings::str_eq(low.as_str(), "auto") {
                    Some(ToolChoiceKind::Auto)
                } else if crate::strings::str_eq(low.as_str(), "required") {
                    Some(ToolChoiceKind::Required)
                } else {
                    None
                }
            },
            ToolChoice::Function { choice_type, function } => {
                let low = crate::services::to_lowercase_str(choice_type.as_str());
                if crate::strings::str_eq(low.as_str(), "function") {
                    Some(ToolChoiceKind::Named(function.name.clone()))
                } else {
                    None
                }
            },
        }
    }
}

} // verus!
