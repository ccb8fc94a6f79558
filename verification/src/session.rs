//! Per-conversation session state: the turn log, the persisted-through
//! cursor, liveness metadata, and the mutators that keep the cursor within
//! the log.

use vstd::prelude::*;
use vstd::string::*;
use crate::character::CharacterData;
use crate::messages::{
    ChatMessage, ToolCallData, ToolCallView, TurnView, opt_view, opt_calls_view,
    clone_chat_message,
};

verus! {

/// Lifecycle state of a session.
#[derive(Clone, Debug)]
pub enum SessionStatus {
    Active,
    Paused,
    Loading,
    Error(String),
}

/// Mathematical view of a session status.
pub ghost enum StatusView {
    Active,
    Paused,
    Loading,
    Error(Seq<char>),
}

/// View of a status value.
pub open spec fn status_view(s: SessionStatus) -> StatusView {
    match s {
        SessionStatus::Active => StatusView::Active,
        SessionStatus::Paused => StatusView::Paused,
        SessionStatus::Loading => StatusView::Loading,
        SessionStatus::Error(e) => StatusView::Error(e@),
    }
}

/// Outward-facing session summary.
pub struct SessionInfo {
    pub uuid: String,
    pub character_name: Option<String>,
    pub message_count: usize,
    pub last_active: i64,
    pub status: SessionStatus,
    pub last_context_tokens: usize,
}

/// The turn views of a log.
pub open spec fn turns(v: Seq<ChatMessage>) -> Seq<TurnView> {
    v.map_values(|m: ChatMessage| m@)
}

/// A user turn stamped at `now`.
pub open spec fn user_turn(content: Seq<char>, now: i64) -> TurnView {
    TurnView {
        role: "user"@,
        content: content,
        name: None,
        tool_calls: None,
        tool_call_id: None,
        timestamp: Some(now),
    }
}

/// An assistant turn stamped at `now`, possibly carrying tool-call
/// directives.
pub open spec fn assistant_turn(content: Seq<char>, tool_calls: Option<Seq<ToolCallView>>,
    now: i64) -> TurnView {
    TurnView {
        role: "assistant"@,
        content: content,
        name: None,
        tool_calls: tool_calls,
        tool_call_id: None,
        timestamp: Some(now),
    }
}

/// A tool turn stamped at `now`, answering the call it names.
pub open spec fn tool_turn(content: Seq<char>, tool_call_id: Seq<char>,
    name: Option<Seq<char>>, now: i64) -> TurnView {
    TurnView {
        role: "tool"@,
        content: content,
        name: name,
        tool_calls: None,
        tool_call_id: Some(tool_call_id),
        timestamp: Some(now),
    }
}

/// One conversation's state.
#[derive(Clone, Debug)]
pub struct CharacterSession {
    /// Conversation id.
    pub uuid: String,
    /// The persona snapshot this conversation is grounded in.
    pub character_data: CharacterData,
    /// The ordered turn log.
    pub chat_history: Vec<ChatMessage>,
    /// Token count of the last built context.
    pub last_context_tokens: usize,
    /// Last activity, as seconds since the epoch.
    pub last_active: i64,
    /// Lifecycle state.
    pub status: SessionStatus,
    /// How many leading turns of the log are already durable.
    pub last_saved_index: usize,
}

impl CharacterSession {
    /// The session invariant: the persisted-through cursor never points
    /// past the end of the log.
    pub open spec fn wf(self) -> bool {
        self.last_saved_index <= self.chat_history@.len()
    }

    /// A fresh session with an empty log.
    pub fn new(uuid: String, character_data: CharacterData, now: i64) -> (r: CharacterSession)
        ensures
            r.wf(),
            r.uuid == uuid,
            r.chat_history@.len() == 0,
            r.last_saved_index == 0,
            r.last_context_tokens == 0,
            r.last_active == now,
            status_view(r.status) == StatusView::Loading,
    {
        CharacterSession {
            uuid,
            character_data,
            chat_history: Vec::new(),
            last_context_tokens: 0,
            last_active: now,
            status: SessionStatus::Loading,
            last_saved_index: 0,
        }
    }

    /// A session over a replayed durable history: the cursor starts at the
    /// replayed length, and the session is active.
    pub fn from_loaded(uuid: String, character_data: CharacterData,
        history: Vec<ChatMessage>, now: i64) -> (r: CharacterSession)
        ensures
            r.wf(),
            r.uuid == uuid,
            turns(r.chat_history@) == turns(history@),
            r.last_saved_index == history@.len(),
            r.last_active == now,
            status_view(r.status) == StatusView::Active,
    {
        let count = history.len();
        CharacterSession {
            uuid,
            character_data,
            chat_history: history,
            last_context_tokens: 0,
            last_active: now,
            status: SessionStatus::Active,
            last_saved_index: count,
        }
    }

    /// Append a user turn stamped at `now`.
    pub fn add_user_message(&mut self, content: String, now: i64) -> (r: ChatMessage)
        requires
            old(self).wf(),
        ensures
            final(self).wf(),
            turns(final(self).chat_history@) == turns(old(self).chat_history@).push(
                user_turn(content@, now)),
            r@ == user_turn(content@, now),
            final(self).last_saved_index == old(self).last_saved_index,
            final(self).last_active == now,
            final(self).uuid == old(self).uuid,
            final(self).character_data == old(self).character_data,
            final(self).status == old(self).status,
    {
        let message = ChatMessage {
            role: String::from_str("user"),
            content,
            name: None,
            tool_calls: None,
            tool_call_id: None,
            timestamp: Some(now),
        };
        let copy = clone_chat_message(&message);
        self.chat_history.push(message);
        self.last_active = now;
        proof {
            assert(turns(self.chat_history@)
                =~= turns(old(self).chat_history@).push(user_turn(copy.content@, now)));
        }
        copy
    }

    /// Append an assistant turn stamped at `now`, with any tool-call
    /// directives the model issued.
    pub fn add_assistant_message(&mut self, content: String,
        tool_calls: Option<Vec<ToolCallData>>, now: i64) -> (r: ChatMessage)
        requires
            old(self).wf(),
        ensures
            final(self).wf(),
            turns(final(self).chat_history@) == turns(old(self).chat_history@).push(
                assistant_turn(content@, opt_calls_view(tool_calls), now)),
            r@ == assistant_turn(content@, opt_calls_view(tool_calls), now),
            final(self).last_saved_index == old(self).last_saved_index,
            final(self).last_active == now,
            final(self).uuid == old(self).uuid,
            final(self).character_data == old(self).character_data,
            final(self).status == old(self).status,
    {
        let message = ChatMessage {
            role: String::from_str("assistant"),
            content,
            name: None,
            tool_calls,
            tool_call_id: None,
            timestamp: Some(now),
        };
        let copy = clone_chat_message(&message);
        self.chat_history.push(message);
        self.last_active = now;
        proof {
            assert(turns(self.chat_history@)
                =~= turns(old(self).chat_history@).push(copy@));
        }
        copy
    }

    /// Append a tool turn stamped at `now`, carrying the id of the call it
    /// answers.
    pub fn add_tool_message(&mut self, content: String, tool_call_id: String,
        name: Option<String>, now: i64) -> (r: ChatMessage)
        requires
            old(self).wf(),
        ensures
            final(self).wf(),
            turns(final(self).chat_history@) == turns(old(self).chat_history@).push(
                tool_turn(content@, tool_call_id@, opt_view(name), now)),
            r@ == tool_turn(content@, tool_call_id@, opt_view(name), now),
            final(self).last_saved_index == old(self).last_saved_index,
            final(self).last_active == now,
            final(self).uuid == old(self).uuid,
            final(self).character_data == old(self).character_data,
            final(self).status == old(self).status,
    {
        let message = ChatMessage {
            role: String::from_str("tool"),
            content,
            name,
            tool_calls: None,
            tool_call_id: Some(tool_call_id),
            timestamp: Some(now),
        };
        let copy = clone_chat_message(&message);
        self.chat_history.push(message);
        self.last_active = now;
        proof {
            assert(turns(self.chat_history@)
                =~= turns(old(self).chat_history@).push(copy@));
        }
        copy
    }

    /// Empty the log and reset the persisted-through cursor.
    pub fn clear_history(&mut self, now: i64)
        ensures
            final(self).wf(),
            final(self).chat_history@.len() == 0,
            final(self).last_saved_index == 0,
            final(self).last_active == now,
            final(self).uuid == old(self).uuid,
            final(self).character_data == old(self).character_data,
    {
        self.chat_history.clear();
        self.last_saved_index = 0;
        self.last_active = now;
    }

    /// Remove the turn at `index`, shifting later turns down; fails when
    /// `index` is out of range. The cursor is clipped to the shorter log so
    /// the invariant holds.
    pub fn delete_message(&mut self, index: usize, now: i64) -> (r: Result<ChatMessage, String>)
        requires
            old(self).wf(),
        ensures
            final(self).wf(),
            r is Ok <==> index < old(self).chat_history@.len(),
            match r {
                Ok(m) => {
                    &&& m@ == old(self).chat_history@[index as int]@
                    &&& turns(final(self).chat_history@) == turns(
                        old(self).chat_history@).remove(index as int)
                    &&& final(self).last_saved_index == (
                        if old(self).last_saved_index <= old(self).chat_history@.len() - 1 {
                            old(self).last_saved_index as int
                        } else {
                            old(self).chat_history@.len() - 1
                        })
                    &&& final(self).last_active == now
                },
                Err(_) => *final(self) == *old(self),
            },
            final(self).uuid == old(self).uuid,
            final(self).character_data == old(self).character_data,
    {
        if index >= self.chat_history.len() {
            return Err(String::from_str("message index out of range"));
        }
        let removed = self.chat_history.remove(index);
        if self.last_saved_index > self.chat_history.len() {
            self.last_saved_index = self.chat_history.len();
        }
        self.last_active = now;
        proof {
            assert(turns(self.chat_history@)
                =~= turns(old(self).chat_history@).remove(index as int));
        }
        Ok(removed)
    }

    /// Replace the content of the turn at `index`; fails when `index` is
    /// out of range.
    pub fn edit_message(&mut self, index: usize, new_content: String, now: i64)
        -> (r: Result<ChatMessage, String>)
        requires
            old(self).wf(),
        ensures
            final(self).wf(),
            r is Ok <==> index < old(self).chat_history@.len(),
            match r {
                Ok(m) => {
                    &&& turns(final(self).chat_history@) == turns(old(self).chat_history@)
                        .update(index as int, m@)
                    &&& m@ == TurnView { content: new_content@,
                        ..old(self).chat_history@[index as int]@ }
                    &&& final(self).last_saved_index == old(self).last_saved_index
                    &&& final(self).last_active == now
                },
                Err(_) => *final(self) == *old(self),
            },
            final(self).uuid == old(self).uuid,
            final(self).character_data == old(self).character_data,
    {
        if index >= self.chat_history.len() {
            return Err(String::from_str("message index out of range"));
        }
        let mut updated = clone_chat_message(&self.chat_history[index]);
        updated.content = new_content;
        let copy = clone_chat_message(&updated);
        self.chat_history.set(index, updated);
        self.last_active = now;
        proof {
            assert(turns(self.chat_history@)
                =~= turns(old(self).chat_history@).update(index as int, copy@));
        }
        Ok(copy)
    }

    /// Remove the most recent turn; fails when the log is empty.
    pub fn delete_last_message(&mut self, now: i64) -> (r: Result<ChatMessage, String>)
        requires
            old(self).wf(),
        ensures
            final(self).wf(),
            r is Ok <==> old(self).chat_history@.len() > 0,
            match r {
                Ok(m) => {
                    &&& m@ == old(self).chat_history@.last()@
                    &&& turns(final(self).chat_history@) == turns(
                        old(self).chat_history@).drop_last()
                    &&& final(self).last_saved_index == (
                        if old(self).last_saved_index <= old(self).chat_history@.len() - 1 {
                            old(self).last_saved_index as int
                        } else {
                            old(self).chat_history@.len() - 1
                        })
                    &&& final(self).last_active == now
                },
                Err(_) => *final(self) == *old(self),
            },
            final(self).uuid == old(self).uuid,
            final(self).character_data == old(self).character_data,
    {
        if self.chat_history.len() == 0 {
            return Err(String::from_str("chat history is empty"));
        }
        let removed = match self.chat_history.pop() {
            Some(m) => m,
            None => {
                return Err(String::from_str("chat history is empty"));
            },
        };
        if self.last_saved_index > self.chat_history.len() {
            self.last_saved_index = self.chat_history.len();
        }
        self.last_active = now;
        proof {
            assert(turns(self.chat_history@)
                =~= turns(old(self).chat_history@).drop_last());
        }
        Ok(removed)
    }

    /// The turns not yet durable, and the cursor advanced over them. The
    /// caller appends the returned batch to durable storage; the log itself
    /// is unchanged, so the cursor only moves forward.
    pub fn persist_incremental(&mut self) -> (batch: Vec<ChatMessage>)
        requires
            old(self).wf(),
        ensures
            final(self).wf(),
            turns(batch@) == turns(old(self).chat_history@).skip(
                old(self).last_saved_index as int),
            final(self).last_saved_index == final(self).chat_history@.len(),
            final(self).last_saved_index >= old(self).last_saved_index,
            turns(final(self).chat_history@) == turns(old(self).chat_history@),
            final(self).last_active == old(self).last_active,
            final(self).uuid == old(self).uuid,
            final(self).character_data == old(self).character_data,
    {
        let mut batch: Vec<ChatMessage> = Vec::new();
        let mut i: usize = self.last_saved_index;
        let ghost base = self.last_saved_index as int;
        proof {
            assert(turns(self.chat_history@).skip(base).take(0)
                =~= Seq::<TurnView>::empty());
            assert(turns(batch@) =~= Seq::<TurnView>::empty());
        }
        while i < self.chat_history.len()
            invariant
                base <= i <= self.chat_history@.len(),
                turns(batch@) == turns(self.chat_history@).skip(base).take(i - base),
                self.chat_history@.len() == old(self).chat_history@.len(),
                self == old(self),
                base == old(self).last_saved_index,
            decreases self.chat_history@.len() - i,
        {
            batch.push(clone_chat_message(&self.chat_history[i]));
            proof {
                let s = turns(self.chat_history@).skip(base);
                assert(s.take(i - base + 1).drop_last() =~= s.take(i - base));
                assert(s.take(i - base + 1).last() == turns(self.chat_history@)[i as int]);
                assert(turns(batch@) =~= s.take(i - base + 1));
            }
            i += 1;
        }
        self.last_saved_index = self.chat_history.len();
        proof {
            let s = turns(old(self).chat_history@).skip(base);
            assert(s.take(s.len() as int) =~= s);
        }
        batch
    }

    /// The whole log for a full rewrite of durable storage, and the cursor
    /// set to the log's length. Needed after an edit or delete, which
    /// incremental persistence cannot represent.
    pub fn persist_full_rewrite(&mut self) -> (batch: Vec<ChatMessage>)
        requires
            old(self).wf(),
        ensures
            final(self).wf(),
            turns(batch@) == turns(old(self).chat_history@),
            final(self).last_saved_index == final(self).chat_history@.len(),
            turns(final(self).chat_history@) == turns(old(self).chat_history@),
            final(self).last_active == old(self).last_active,
            final(self).uuid == old(self).uuid,
            final(self).character_data == old(self).character_data,
    {
        let mut batch: Vec<ChatMessage> = Vec::new();
        let mut i: usize = 0;
        proof {
            assert(turns(batch@) =~= turns(self.chat_history@).take(0));
        }
        while i < self.chat_history.len()
            invariant
                i <= self.chat_history@.len(),
                turns(batch@) == turns(self.chat_history@).take(i as int),
                self == old(self),
            decreases self.chat_history@.len() - i,
        {
            batch.push(clone_chat_message(&self.chat_history[i]));
            proof {
                let s = turns(self.chat_history@);
                assert(s.take(i + 1).drop_last() =~= s.take(i as int));
                assert(s.take(i + 1).last() == s[i as int]);
                assert(turns(batch@) =~= s.take(i + 1));
            }
            i += 1;
        }
        self.last_saved_index = self.chat_history.len();
        proof {
            assert(turns(old(self).chat_history@).take(old(self).chat_history@.len() as int)
                =~= turns(old(self).chat_history@));
        }
        batch
    }

    /// Whether the conversation can be continued as it stands: the most
    /// recent turn must be a user turn still awaiting its reply.
    pub fn can_continue(&self) -> (r: bool)
        ensures
            r == (self.chat_history@.len() > 0
                && self.chat_history@.last()@.role == "user"@),
    {
        let n = self.chat_history.len();
        if n == 0 {
            return false;
        }
        crate::strings::str_eq(self.chat_history[n - 1].role.as_str(), "user")
    }

    /// Prepare to regenerate the last reply: the log must end in an
    /// assistant turn over a user turn; the assistant turn is removed so
    /// the reply can be produced again. When the removed turn does not sit
    /// on a user turn the removal stands but an error is reported, as the
    /// log has already diverged from the expected shape.
    pub fn prepare_regenerate(&mut self, now: i64) -> (r: Result<ChatMessage, String>)
        requires
            old(self).wf(),
        ensures
            final(self).wf(),
            r is Ok <==> (old(self).chat_history@.len() >= 2
                && old(self).chat_history@.last()@.role == "assistant"@
                && old(self).chat_history@[old(self).chat_history@.len() - 2]@.role == "user"@),
            (old(self).chat_history@.len() > 0
                && old(self).chat_history@.last()@.role == "assistant"@)
                ==> turns(final(self).chat_history@) == turns(old(self).chat_history@)
                    .drop_last(),
            !(old(self).chat_history@.len() > 0
                && old(self).chat_history@.last()@.role == "assistant"@)
                ==> *final(self) == *old(self),
            match r {
                Ok(m) => m@ == old(self).chat_history@.last()@,
                Err(_) => true,
            },
            final(self).uuid == old(self).uuid,
            final(self).character_data == old(self).character_data,
    {
        let n = self.chat_history.len();
        if n == 0 {
            return Err(String::from_str("chat history is empty"));
        }
        if !crate::strings::str_eq(self.chat_history[n - 1].role.as_str(), "assistant") {
            return Err(String::from_str("the last turn is not an assistant reply"));
        }
        let removed = match self.delete_last_message(now) {
            Ok(m) => m,
            Err(e) => {
                return Err(e);
            },
        };
        proof {
            assert(turns(self.chat_history@).len() == self.chat_history@.len());
            assert(turns(old(self).chat_history@).len() == old(self).chat_history@.len());
            assert(self.chat_history@.len() == old(self).chat_history@.len() - 1);
        }
        let m = self.chat_history.len();
        if m == 0 {
            return Err(String::from_str("no user turn to regenerate from"));
        }
        if !crate::strings::str_eq(self.chat_history[m - 1].role.as_str(), "user") {
            proof {
                assert(self.chat_history@[m - 1]@
                    == turns(old(self).chat_history@).drop_last().last());
                assert(old(self).chat_history@[old(self).chat_history@.len() - 2]@
                    == turns(old(self).chat_history@)[old(self).chat_history@.len() - 2]);
            }
            return Err(String::from_str("the turn before the reply is not a user turn"));
        }
        proof {
            assert(self.chat_history@[m - 1]@
                == turns(old(self).chat_history@).drop_last().last());
            assert(old(self).chat_history@[old(self).chat_history@.len() - 2]@
                == turns(old(self).chat_history@)[old(self).chat_history@.len() - 2]);
        }
        Ok(removed)
    }

    /// A summary of this session.
    pub fn get_session_info(&self) -> (r: SessionInfo)
        ensures
            r.uuid@ == self.uuid@,
            r.character_name matches Some(n) && n@ == self.character_data.card.data.name@,
            r.message_count == self.chat_history@.len(),
            r.last_active == self.last_active,
            status_view(r.status) == status_view(self.status),
            r.last_context_tokens == self.last_context_tokens,
    {
        SessionInfo {
            uuid: self.uuid.clone(),
            character_name: Some(self.character_data.card.data.name.clone()),
            message_count: self.chat_history.len(),
            last_active: self.last_active,
            status: clone_status(&self.status),
            last_context_tokens: self.last_context_tokens,
        }
    }
}

/// Copy a status value.
pub fn clone_status(s: &SessionStatus) -> (r: SessionStatus)
    ensures
        status_view(r) == status_view(*s),
{
    match s {
        SessionStatus::Active => SessionStatus::Active,
        SessionStatus::Paused => SessionStatus::Paused,
        SessionStatus::Loading => SessionStatus::Loading,
        SessionStatus::Error(e) => SessionStatus::Error(e.clone()),
    }
}

// ---------------------------------------------------------------------------
// The cursor law
// ---------------------------------------------------------------------------

/// An abstract log operation: appending a turn, or persisting the pending
/// suffix.
pub ghost enum LogOp {
    Append(TurnView),
    PersistIncremental,
}

/// Log length and cursor after one operation.
pub open spec fn apply_op(len: nat, cursor: nat, op: LogOp) -> (nat, nat) {
    match op {
        LogOp::Append(_) => (len + 1, cursor),
        LogOp::PersistIncremental => (len, len),
    }
}

/// Log length and cursor after a sequence of operations.
pub open spec fn apply_ops(len: nat, cursor: nat, ops: Seq<LogOp>) -> (nat, nat)
    decreases ops.len(),
{
    if ops.len() == 0 {
        (len, cursor)
    } else {
        let step = apply_op(len, cursor, ops[0]);
        apply_ops(step.0, step.1, ops.drop_first())
    }
}

/// Cursor monotonicity: after any sequence of appends and incremental
/// persists, the persisted-through cursor never exceeds the log length and
/// never decreases.
pub proof fn lemma_cursor_monotonic(len: nat, cursor: nat, ops: Seq<LogOp>)
    requires
        cursor <= len,
    ensures
        apply_ops(len, cursor, ops).1 <= apply_ops(len, cursor, ops).0,
        apply_ops(len, cursor, ops).1 >= cursor,
        apply_ops(len, cursor, ops).0 >= len,
    decreases ops.len(),
{
    if ops.len() > 0 {
        let step = apply_op(len, cursor, ops[0]);
        lemma_cursor_monotonic(step.0, step.1, ops.drop_first());
    }
}

} // verus!
