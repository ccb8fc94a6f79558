//! Conversation turns and their provider-facing JSON shape.
//!
//! A turn's token cost is the token count of its JSON rendering, so the
//! rendering is defined here exactly, field by field, and the executable
//! renderer is proved to produce it.

use vstd::prelude::*;
use vstd::string::*;
use crate::strings::{json_string, append_json_string};

verus! {

/// Role of a turn.
#[derive(Clone, PartialEq, Eq, Structural, Debug)]
pub enum MessageRole {
    System,
    User,
    Assistant,
    Tool,
}

/// One function-call directive issued by the model.
#[derive(Clone, Debug)]
pub struct ToolCallFunctionData {
    pub name: String,
    pub arguments: String,
}

/// One tool call: an id, a call type (always `"function"` on the wire) and
/// the function directive.
#[derive(Clone, Debug)]
pub struct ToolCallData {
    pub id: String,
    pub call_type: String,
    pub function: ToolCallFunctionData,
}

/// One stored conversation turn.
#[derive(Clone, Debug)]
pub struct ChatMessage {
    pub role: String,
    pub content: String,
    pub name: Option<String>,
    pub tool_calls: Option<Vec<ToolCallData>>,
    pub tool_call_id: Option<String>,
    pub timestamp: Option<i64>,
}

/// One provider-facing message.
#[derive(Clone, Debug)]
pub struct OpenAIMessage {
    pub role: String,
    pub content: String,
    pub name: Option<String>,
    pub tool_calls: Option<Vec<ToolCallData>>,
    pub tool_call_id: Option<String>,
}

/// Kind of provider-facing message.
#[derive(Clone, PartialEq, Eq, Structural, Debug)]
pub enum MessageType {
    System,
    User,
    Assistant,
    Tool,
}

// ---------------------------------------------------------------------------
// Views
// ---------------------------------------------------------------------------

/// Mathematical view of one tool call.
pub ghost struct ToolCallView {
    pub id: Seq<char>,
    pub call_type: Seq<char>,
    pub name: Seq<char>,
    pub arguments: Seq<char>,
}

/// Mathematical view of a message: every text field as a character
/// sequence.
pub ghost struct MessageView {
    pub role: Seq<char>,
    pub content: Seq<char>,
    pub name: Option<Seq<char>>,
    pub tool_calls: Option<Seq<ToolCallView>>,
    pub tool_call_id: Option<Seq<char>>,
}

/// Mathematical view of a stored turn.
pub ghost struct TurnView {
    pub role: Seq<char>,
    pub content: Seq<char>,
    pub name: Option<Seq<char>>,
    pub tool_calls: Option<Seq<ToolCallView>>,
    pub tool_call_id: Option<Seq<char>>,
    pub timestamp: Option<i64>,
}

impl View for ToolCallData {
    type V = ToolCallView;

    open spec fn view(&self) -> ToolCallView {
        ToolCallView {
            id: self.id@,
            call_type: self.call_type@,
            name: self.function.name@,
            arguments: self.function.arguments@,
        }
    }
}

/// View of an optional string.
pub open spec fn opt_view(o: Option<String>) -> Option<Seq<char>> {
    match o {
        Some(s) => Some(s@),
        None => None,
    }
}

/// View of an optional tool-call list.
pub open spec fn opt_calls_view(o: Option<Vec<ToolCallData>>) -> Option<Seq<ToolCallView>> {
    match o {
        Some(v) => Some(v@.map_values(|t: ToolCallData| t@)),
        None => None,
    }
}

impl View for OpenAIMessage {
    type V = MessageView;

    open spec fn view(&self) -> MessageView {
        MessageView {
            role: self.role@,
            content: self.content@,
            name: opt_view(self.name),
            tool_calls: opt_calls_view(self.tool_calls),
            tool_call_id: opt_view(self.tool_call_id),
        }
    }
}

impl View for ChatMessage {
    type V = TurnView;

    open spec fn view(&self) -> TurnView {
        TurnView {
            role: self.role@,
            content: self.content@,
            name: opt_view(self.name),
            tool_calls: opt_calls_view(self.tool_calls),
            tool_call_id: opt_view(self.tool_call_id),
            timestamp: self.timestamp,
        }
    }
}

/// The provider-facing form of a stored turn: the same fields without the
/// timestamp.
pub open spec fn turn_to_message(t: TurnView) -> MessageView {
    MessageView {
        role: t.role,
        content: t.content,
        name: t.name,
        tool_calls: t.tool_calls,
        tool_call_id: t.tool_call_id,
    }
}

/// Convert a stored turn to its provider-facing message.
pub fn chat_to_openai(m: &ChatMessage) -> (r: OpenAIMessage)
    ensures
        r@ == turn_to_message(m@),
{
    OpenAIMessage {
        role: m.role.clone(),
        content: m.content.clone(),
        name: clone_opt_string(&m.name),
        tool_calls: clone_opt_calls(&m.tool_calls),
        tool_call_id: clone_opt_string(&m.tool_call_id),
    }
}

/// Clone an optional string, keeping its view.
pub fn clone_opt_string(o: &Option<String>) -> (r: Option<String>)
    ensures
        opt_view(r) == opt_view(*o),
{
    match o {
        Some(s) => Some(s.clone()),
        None => None,
    }
}

/// Clone one tool call, keeping its view.
pub fn clone_toolcall(tc: &ToolCallData) -> (r: ToolCallData)
    ensures
        r@ == tc@,
{
    ToolCallData {
        id: tc.id.clone(),
        call_type: tc.call_type.clone(),
        function: ToolCallFunctionData {
            name: tc.function.name.clone(),
            arguments: tc.function.arguments.clone(),
        },
    }
}

/// Clone an optional tool-call list, keeping its view.
pub fn clone_opt_calls(o: &Option<Vec<ToolCallData>>) -> (r: Option<Vec<ToolCallData>>)
    ensures
        opt_calls_view(r) == opt_calls_view(*o),
{
    match o {
        Some(v) => {
            let mut out: Vec<ToolCallData> = Vec::new();
            let mut i: usize = 0;
            while i < v.len()
                invariant
                    i <= v@.len(),
                    out@.len() == i,
                    forall|j: int| 0 <= j < i ==> #[trigger] out@[j]@ == v@[j]@,
                decreases v@.len() - i,
            {
                out.push(clone_toolcall(&v[i]));
                i += 1;
            }
            proof {
                assert(out@.map_values(|t: ToolCallData| t@)
                    =~= v@.map_values(|t: ToolCallData| t@));
            }
            Some(out)
        },
        None => None,
    }
}

/// Clone a stored turn, keeping its view.
pub fn clone_chat_message(m: &ChatMessage) -> (r: ChatMessage)
    ensures
        r@ == m@,
{
    ChatMessage {
        role: m.role.clone(),
        content: m.content.clone(),
        name: clone_opt_string(&m.name),
        tool_calls: clone_opt_calls(&m.tool_calls),
        tool_call_id: clone_opt_string(&m.tool_call_id),
        timestamp: m.timestamp,
    }
}

// ---------------------------------------------------------------------------
// JSON rendering
// ---------------------------------------------------------------------------

/// JSON for one tool call: `{"id":..,"type":..,"function":{"name":..,"arguments":..}}`.
pub open spec fn toolcall_json(tc: ToolCallView) -> Seq<char> {
    "{\"id\":"@ + json_string(tc.id)
        + ",\"type\":"@ + json_string(tc.call_type)
        + ",\"function\":{\"name\":"@ + json_string(tc.name)
        + ",\"arguments\":"@ + json_string(tc.arguments)
        + "}}"@
}

/// JSON for a tool-call array body: the calls joined by commas.
pub open spec fn toolcalls_body(tcs: Seq<ToolCallView>) -> Seq<char>
    decreases tcs.len(),
{
    if tcs.len() == 0 {
        Seq::empty()
    } else if tcs.len() == 1 {
        toolcall_json(tcs[0])
    } else {
        toolcalls_body(tcs.drop_last()) + ","@ + toolcall_json(tcs.last())
    }
}

/// JSON for an optional string: `null` or a string literal.
pub open spec fn opt_string_json(o: Option<Seq<char>>) -> Seq<char> {
    match o {
        Some(s) => json_string(s),
        None => "null"@,
    }
}

/// JSON for an optional tool-call list: `null` or an array.
pub open spec fn opt_toolcalls_json(o: Option<Seq<ToolCallView>>) -> Seq<char> {
    match o {
        Some(tcs) => "["@ + toolcalls_body(tcs) + "]"@,
        None => "null"@,
    }
}

/// Role and content fields of the rendering.
pub open spec fn message_json_head(m: MessageView) -> Seq<char> {
    "{\"role\":"@ + json_string(m.role) + ",\"content\":"@ + json_string(m.content)
}

/// Name and tool-call fields of the rendering.
pub open spec fn message_json_mid(m: MessageView) -> Seq<char> {
    ",\"name\":"@ + opt_string_json(m.name) + ",\"tool_calls\":"@
        + opt_toolcalls_json(m.tool_calls)
}

/// The JSON rendering of a provider-facing message, with the fields in
/// declaration order and absent options as `null`.
pub open spec fn message_json(m: MessageView) -> Seq<char> {
    message_json_head(m) + message_json_mid(m)
        + ",\"tool_call_id\":"@ + opt_string_json(m.tool_call_id) + "}"@
}

/// Append the JSON for one tool call.
fn append_toolcall_json(out: &mut String, tc: &ToolCallData)
    ensures
        final(out)@ == old(out)@ + toolcall_json(tc@),
{
    out.append("{\"id\":");
    append_json_string(out, tc.id.as_str());
    out.append(",\"type\":");
    append_json_string(out, tc.call_type.as_str());
    out.append(",\"function\":{\"name\":");
    append_json_string(out, tc.function.name.as_str());
    out.append(",\"arguments\":");
    append_json_string(out, tc.function.arguments.as_str());
    out.append("}}");
    proof {
        assert(out@ =~= old(out)@ + toolcall_json(tc@));
    }
}

/// Append the JSON array of tool calls.
fn append_toolcalls_array(out: &mut String, tcs: &Vec<ToolCallData>)
    ensures
        final(out)@ == old(out)@ + "["@ + toolcalls_body(
            tcs@.map_values(|t: ToolCallData| t@)) + "]"@,
{
    out.append("[");
    let ghost all = tcs@.map_values(|t: ToolCallData| t@);
    let mut i: usize = 0;
    proof {
        assert(all.take(0) =~= Seq::<ToolCallView>::empty());
        assert(out@ =~= old(out)@ + "["@ + toolcalls_body(all.take(0)));
    }
    while i < tcs.len()
        invariant
            all == tcs@.map_values(|t: ToolCallData| t@),
            i <= all.len(),
            out@ == old(out)@ + "["@ + toolcalls_body(all.take(i as int)),
        decreases all.len() - i,
    {
        if i > 0 {
            out.append(",");
        }
        append_toolcall_json(out, &tcs[i]);
        proof {
            assert(tcs[i as int]@ == all[i as int]);
            assert(all.take(i + 1).drop_last() =~= all.take(i as int));
            assert(all.take(i + 1).last() == all[i as int]);
            if i == 0 {
                assert(all.take(1).drop_last() =~= Seq::<ToolCallView>::empty());
                assert(toolcalls_body(all.take(1)) == toolcall_json(all[0]));
            }
            assert(out@ =~= old(out)@ + "["@ + toolcalls_body(all.take(i + 1)));
        }
        i += 1;
    }
    proof {
        assert(all.take(all.len() as int) =~= all);
    }
    out.append("]");
}

/// Append the JSON rendering of a provider-facing message.
pub fn append_message_json(out: &mut String, m: &OpenAIMessage)
    ensures
        final(out)@ == old(out)@ + message_json(m@),
{
    out.append("{\"role\":");
    append_json_string(out, m.role.as_str());
    out.append(",\"content\":");
    append_json_string(out, m.content.as_str());
    proof {
        assert(out@ =~= old(out)@ + message_json_head(m@));
    }
    let ghost after_head = out@;
    out.append(",\"name\":");
    match &m.name {
        Some(s) => append_json_string(out, s.as_str()),
        None => out.append("null"),
    }
    out.append(",\"tool_calls\":");
    match &m.tool_calls {
        Some(tcs) => append_toolcalls_array(out, tcs),
        None => out.append("null"),
    }
    proof {
        assert(out@ =~= after_head + message_json_mid(m@));
    }
    let ghost after_mid = out@;
    out.append(",\"tool_call_id\":");
    match &m.tool_call_id {
        Some(s) => append_json_string(out, s.as_str()),
        None => out.append("null"),
    }
    out.append("}");
    proof {
        assert(out@ =~= after_mid + ",\"tool_call_id\":"@ + opt_string_json(m@.tool_call_id)
            + "}"@);
        assert(out@ =~= old(out)@ + message_json(m@));
    }
}

/// The JSON rendering of a message as a fresh string.
pub fn message_json_string(m: &OpenAIMessage) -> (r: String)
    ensures
        r@ == message_json(m@),
{
    let mut out = String::new();
    append_message_json(&mut out, m);
    proof {
        assert(out@ =~= message_json(m@));
    }
    out
}

} // verus!
