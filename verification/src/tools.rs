//! The tool registry and the built-in tools' decision cores.
//!
//! The registry is a name-keyed table of tool descriptors with a uniform
//! result shape; an unknown name degrades to a structured failure rather
//! than an error path. The tools' own effects (loading and saving the
//! character) happen outside; their decision cores — which fields an edit
//! touches, what entry a creation request builds — live here.

use vstd::prelude::*;
use vstd::string::*;
use crate::strings::str_eq;

verus! {

/// A declared parameter of a tool.
#[derive(Clone, Debug)]
pub struct ToolParameter {
    pub name: String,
    pub description: String,
    pub parameter_type: String,
    pub required: bool,
    /// A JSON-schema fragment for validation, as raw JSON text.
    pub schema: Option<String>,
}

/// A registered tool's descriptor.
#[derive(Clone, Debug)]
pub struct AITool {
    pub name: String,
    pub description: String,
    pub category: String,
    pub parameters: Vec<ToolParameter>,
    pub enabled: bool,
}

/// The uniform result of a tool invocation. The payload, when present, is
/// raw JSON text.
#[derive(Clone, Debug)]
pub struct ToolResult {
    pub success: bool,
    pub data: Option<String>,
    pub error: Option<String>,
    pub execution_time_ms: u64,
}

/// A tool invocation request: the tool's name, its string-valued
/// arguments, and the conversation's character id.
#[derive(Clone, Debug)]
pub struct ToolCallRequest {
    pub tool_name: String,
    pub parameters: Vec<(String, String)>,
    pub character_uuid: Option<String>,
    /// Extra context for the tool, as raw JSON text.
    pub context: Option<String>,
}

/// A name-keyed table of tool descriptors.
pub struct ToolRegistry {
    pub tools: Vec<AITool>,
}

impl ToolRegistry {
    /// Each registered name appears once.
    pub open spec fn wf(self) -> bool {
        forall|i: int, j: int| 0 <= i < j < self.tools@.len()
            ==> (#[trigger] self.tools@[i].name@) != (#[trigger] self.tools@[j].name@)
    }

    /// The registered descriptors.
    pub open spec fn entries(self) -> Seq<AITool> {
        self.tools@
    }

    /// An empty registry.
    pub fn new() -> (r: ToolRegistry)
        ensures
            r.wf(),
            r.entries().len() == 0,
    {
        ToolRegistry { tools: Vec::new() }
    }

    /// Find the position of a tool name.
    fn position_of(&self, name: &str) -> (r: Option<usize>)
        ensures
            match r {
                Some(i) => i < self.entries().len() && self.entries()[i as int].name@ == name@,
                None => forall|i: int| 0 <= i < self.entries().len()
                    ==> (#[trigger] self.entries()[i].name@) != name@,
            },
    {
        let mut i: usize = 0;
        while i < self.tools.len()
            invariant
                i <= self.tools@.len(),
                forall|j: int| 0 <= j < i ==> (#[trigger] self.tools@[j].name@) != name@,
            decreases self.tools@.len() - i,
        {
            if str_eq(self.tools[i].name.as_str(), name) {
                return Some(i);
            }
            i += 1;
        }
        None
    }

    /// Register a tool: replace the descriptor with the same name, or add
    /// the new one.
    pub fn register_tool(&mut self, tool: AITool)
        requires
            old(self).wf(),
        ensures
            final(self).wf(),
            ({
                let pool = old(self).entries();
                if exists|i: int| 0 <= i < pool.len()
                    && (#[trigger] pool[i].name@) == tool.name@ {
                    exists|i: int| 0 <= i < pool.len() && (#[trigger] pool[i].name@) == tool.name@
                        && final(self).entries() == pool.update(i, tool)
                } else {
                    final(self).entries() == pool.push(tool)
                }
            }),
    {
        match self.position_of(tool.name.as_str()) {
            Some(i) => {
                self.tools.set(i, tool);
                proof {
                    assert forall|a: int, b: int| 0 <= a < b < self.tools@.len()
                        implies (#[trigger] self.tools@[a].name@)
                            != (#[trigger] self.tools@[b].name@) by {
                        assert(old(self).tools@[a].name@ != old(self).tools@[b].name@);
                    }
                }
            },
            None => {
                self.tools.push(tool);
            },
        }
    }

    /// Whether a tool of this name is registered.
    pub fn has_tool(&self, name: &str) -> (r: bool)
        ensures
            r == exists|i: int| 0 <= i < self.entries().len()
                && (#[trigger] self.entries()[i].name@) == name@,
    {
        match self.position_of(name) {
            Some(_) => true,
            None => false,
        }
    }

    /// Borrow the descriptor of a tool name.
    pub fn get_tool(&self, name: &str) -> (r: Option<&AITool>)
        ensures
            match r {
                Some(t) => exists|i: int| 0 <= i < self.entries().len()
                    && self.entries()[i] == *t && t.name@ == name@,
                None => forall|i: int| 0 <= i < self.entries().len()
                    ==> (#[trigger] self.entries()[i].name@) != name@,
            },
    {
        match self.position_of(name) {
            Some(i) => Some(&self.tools[i]),
            None => None,
        }
    }

    /// The positions of the enabled tools, in registration order: sound,
    /// complete, and strictly increasing, so free of duplicates.
    pub fn enabled_positions(&self) -> (r: Vec<usize>)
        ensures
            forall|k: int| 0 <= k < r@.len() ==> (#[trigger] r@[k]) < self.entries().len()
                && self.entries()[r@[k] as int].enabled,
            forall|i: int| 0 <= i < self.entries().len() && (#[trigger] self.entries()[i].enabled)
                ==> exists|k: int| 0 <= k < r@.len() && r@[k] == i,
            forall|k1: int, k2: int| 0 <= k1 < k2 < r@.len()
                ==> (#[trigger] r@[k1]) < (#[trigger] r@[k2]),
    {
        let mut out: Vec<usize> = Vec::new();
        let mut i: usize = 0;
        while i < self.tools.len()
            invariant
                i <= self.tools@.len(),
                forall|k: int| 0 <= k < out@.len() ==> (#[trigger] out@[k]) < i
                    && self.tools@[out@[k] as int].enabled,
                forall|j: int| 0 <= j < i && (#[trigger] self.tools@[j].enabled)
                    ==> exists|k: int| 0 <= k < out@.len() && out@[k] == j,
                forall|k1: int, k2: int| 0 <= k1 < k2 < out@.len()
                    ==> (#[trigger] out@[k1]) < (#[trigger] out@[k2]),
            decreases self.tools@.len() - i,
        {
            let ghost pre = out@;
            if self.tools[i].enabled {
                out.push(i);
            }
            proof {
                assert forall|j: int| 0 <= j < i + 1 && (#[trigger] self.tools@[j].enabled)
                    implies exists|k: int| 0 <= k < out@.len() && out@[k] == j by {
                    if j < i {
                        let k = choose|k: int| 0 <= k < pre.len() && pre[k] == j;
                        assert(out@[k] == j);
                    } else {
                        assert(out@[out@.len() - 1] == i as int);
                    }
                }
            }
            i += 1;
        }
        out
    }

    /// The descriptor at a position.
    pub fn tool_at(&self, i: usize) -> (r: &AITool)
        requires
            i < self.entries().len(),
        ensures
            *r == self.entries()[i as int],
    {
        &self.tools[i]
    }

    /// How many tools are registered.
    pub fn len(&self) -> (n: usize)
        ensures
            n == self.entries().len(),
    {
        self.tools.len()
    }

    /// The distinct categories of the registered tools, in order of first
    /// appearance.
    pub fn get_tool_categories(&self) -> (r: Vec<String>)
        ensures
            r@.map_values(|c: String| c@) == distinct_categories(self.entries()),
    {
        let ghost goal = distinct_categories(self.entries());
        let mut out: Vec<String> = Vec::new();
        let mut i: usize = 0;
        proof {
            assert(distinct_categories(self.entries().take(0)) =~= Seq::<Seq<char>>::empty());
            assert(out@.map_values(|c: String| c@) =~= Seq::<Seq<char>>::empty());
        }
        while i < self.tools.len()
            invariant
                i <= self.tools@.len(),
                out@.map_values(|c: String| c@) == distinct_categories(
                    self.entries().take(i as int)),
            decreases self.tools@.len() - i,
        {
            proof {
                let t = self.entries().take(i + 1);
                assert(t.drop_last() =~= self.entries().take(i as int));
                assert(t.last() == self.entries()[i as int]);
            }
            let cat = &self.tools[i].category;
            let mut seen = false;
            let mut k: usize = 0;
            while k < out.len()
                invariant
                    k <= out@.len(),
                    seen == exists|j: int| 0 <= j < k && (#[trigger] out@[j]@) == cat@,
                decreases out@.len() - k,
            {
                if str_eq(out[k].as_str(), cat.as_str()) {
                    seen = true;
                    proof {
                        assert(out@[k as int]@ == cat@);
                    }
                }
                k += 1;
            }
            proof {
                let views = out@.map_values(|c: String| c@);
                assert(seen == views.contains(cat@)) by {
                    if seen {
                        let j = choose|j: int| 0 <= j < out@.len() && (#[trigger] out@[j]@) == cat@;
                        assert(views[j] == cat@);
                    }
                    if views.contains(cat@) {
                        let j = choose|j: int| 0 <= j < views.len() && views[j] == cat@;
                        assert(out@[j]@ == cat@);
                    }
                }
            }
            if !seen {
                out.push(cat.clone());
            }
            proof {
                assert(out@.map_values(|c: String| c@)
                    =~= distinct_categories(self.entries().take(i + 1)));
            }
            i += 1;
        }
        proof {
            assert(self.entries().take(self.entries().len() as int) =~= self.entries());
        }
        out
    }
}

/// The distinct categories of a descriptor sequence, in order of first
/// appearance.
pub open spec fn distinct_categories(tools: Seq<AITool>) -> Seq<Seq<char>>
    decreases tools.len(),
{
    if tools.len() == 0 {
        Seq::empty()
    } else {
        let rest = distinct_categories(tools.drop_last());
        if rest.contains(tools.last().category@) {
            rest
        } else {
            rest.push(tools.last().category@)
        }
    }
}

/// The structured failure returned for an unregistered tool name.
pub fn unknown_tool_result(name: &str, elapsed_ms: u64) -> (r: ToolResult)
    ensures
        !r.success,
        r.data is None,
        r.error matches Some(e) && e@ == "Unknown tool: "@ + name@,
        r.execution_time_ms == elapsed_ms,
{
    let mut msg = String::from_str("Unknown tool: ");
    msg.append(name);
    ToolResult {
        success: false,
        data: None,
        error: Some(msg),
        execution_time_ms: elapsed_ms,
    }
}

} // verus!

verus! {

// ---------------------------------------------------------------------------
// The character-edit tool's decision core
// ---------------------------------------------------------------------------

/// The value bound to `key` by the last argument that names it.
pub open spec fn last_value(params: Seq<(String, String)>, key: Seq<char>) -> Option<Seq<char>>
    decreases params.len(),
{
    if params.len() == 0 {
        None
    } else if params.last().0@ == key {
        Some(params.last().1@)
    } else {
        last_value(params.drop_last(), key)
    }
}

/// A bound value, or the fallback when the key is unbound.
pub open spec fn sel_str(o: Option<Seq<char>>, fallback: Seq<char>) -> Seq<char> {
    match o {
        Some(v) => v,
        None => fallback,
    }
}

/// The argument names the edit tool recognizes as card fields.
pub open spec fn is_edit_key(k: Seq<char>) -> bool {
    ||| k == "name"@
    ||| k == "description"@
    ||| k == "personality"@
    ||| k == "scenario"@
    ||| k == "first_mes"@
    ||| k == "mes_example"@
    ||| k == "creator_notes"@
    ||| k == "system_prompt"@
    ||| k == "post_history_instructions"@
    ||| k == "alternate_greetings"@
    ||| k == "tags"@
    ||| k == "creator"@
    ||| k == "character_version"@
}

/// The recognized argument names, in argument order, repeats kept.
pub open spec fn edit_keys_of(params: Seq<(String, String)>) -> Seq<Seq<char>> {
    params.map_values(|p: (String, String)| p.0@).filter(|k: Seq<char>| is_edit_key(k))
}

/// The views of a string list.
pub open spec fn str_views(v: Seq<String>) -> Seq<Seq<char>> {
    v.map_values(|s: String| s@)
}

/// What a bound list-valued field becomes: the value split at `sep`,
/// trimmed, empties dropped; or the fallback when unbound.
pub open spec fn sel_list(o: Option<Seq<char>>, sep: Seq<char>, fallback: Seq<Seq<char>>)
    -> Seq<Seq<char>> {
    match o {
        Some(v) => crate::strings::cleaned_pieces(crate::strings::split_by(v, sep)),
        None => fallback,
    }
}

} // verus!

verus! {

/// Apply the recognized edits to a card, in argument order, so the last
/// binding of each field wins. Returns the names of the fields that were
/// set, or fails when no argument named a recognized field.
#[verifier::rlimit(100)]
pub fn apply_edits(card: &mut crate::character::TavernCardV2Data,
    params: &Vec<(String, String)>) -> (r: Result<Vec<String>, String>)
    ensures
        r is Ok <==> edit_keys_of(params@).len() > 0,
        r matches Err(_) ==> *final(card) == *old(card),
        match r {
            Ok(updated) => {
                &&& str_views(updated@) == edit_keys_of(params@)
                &&& final(card).name@ == sel_str(last_value(params@, "name"@), old(card).name@)
                &&& final(card).description@ == sel_str(last_value(params@, "description"@),
                    old(card).description@)
                &&& final(card).personality@ == sel_str(last_value(params@, "personality"@),
                    old(card).personality@)
                &&& final(card).scenario@ == sel_str(last_value(params@, "scenario"@),
                    old(card).scenario@)
                &&& final(card).first_mes@ == sel_str(last_value(params@, "first_mes"@),
                    old(card).first_mes@)
                &&& final(card).mes_example@ == sel_str(last_value(params@, "mes_example"@),
                    old(card).mes_example@)
                &&& final(card).creator_notes@ == sel_str(last_value(params@, "creator_notes"@),
                    old(card).creator_notes@)
                &&& final(card).system_prompt@ == sel_str(last_value(params@, "system_prompt"@),
                    old(card).system_prompt@)
                &&& final(card).post_history_instructions@ == sel_str(last_value(params@,
                    "post_history_instructions"@), old(card).post_history_instructions@)
                &&& str_views(final(card).alternate_greetings@) == sel_list(last_value(params@,
                    "alternate_greetings"@), "<START_ALT>"@,
                    str_views(old(card).alternate_greetings@))
                &&& str_views(final(card).tags@) == sel_list(last_value(params@, "tags"@), ","@,
                    str_views(old(card).tags@))
                &&& final(card).creator@ == sel_str(last_value(params@, "creator"@),
                    old(card).creator@)
                &&& final(card).character_version@ == sel_str(last_value(params@,
                    "character_version"@), old(card).character_version@)
                &&& final(card).extensions == old(card).extensions
                &&& final(card).character_book == old(card).character_book
            },
            Err(_) => true,
        },
{
    proof {
        reveal_strlit("<START_ALT>");
        reveal_strlit(",");
    }
    let mut updated: Vec<String> = Vec::new();
    let mut i: usize = 0;
    proof {
        assert(params@.take(0) =~= Seq::<(String, String)>::empty());
        assert(edit_keys_of(params@.take(0)) =~= Seq::<Seq<char>>::empty());
        assert(str_views(updated@) =~= Seq::<Seq<char>>::empty());
    }
    while i < params.len()
        invariant
            i <= params@.len(),
            str_views(updated@) == edit_keys_of(params@.take(i as int)),
            card.name@ == sel_str(last_value(params@.take(i as int), "name"@), old(card).name@),
            card.description@ == sel_str(last_value(params@.take(i as int), "description"@),
                old(card).description@),
            card.personality@ == sel_str(last_value(params@.take(i as int), "personality"@),
                old(card).personality@),
            card.scenario@ == sel_str(last_value(params@.take(i as int), "scenario"@),
                old(card).scenario@),
            card.first_mes@ == sel_str(last_value(params@.take(i as int), "first_mes"@),
                old(card).first_mes@),
            card.mes_example@ == sel_str(last_value(params@.take(i as int), "mes_example"@),
                old(card).mes_example@),
            card.creator_notes@ == sel_str(last_value(params@.take(i as int), "creator_notes"@),
                old(card).creator_notes@),
            card.system_prompt@ == sel_str(last_value(params@.take(i as int), "system_prompt"@),
                old(card).system_prompt@),
            card.post_history_instructions@ == sel_str(last_value(params@.take(i as int),
                "post_history_instructions"@), old(card).post_history_instructions@),
            str_views(card.alternate_greetings@) == sel_list(last_value(params@.take(i as int),
                "alternate_greetings"@), "<START_ALT>"@,
                str_views(old(card).alternate_greetings@)),
            str_views(card.tags@) == sel_list(last_value(params@.take(i as int), "tags"@), ","@,
                str_views(old(card).tags@)),
            card.creator@ == sel_str(last_value(params@.take(i as int), "creator"@),
                old(card).creator@),
            card.character_version@ == sel_str(last_value(params@.take(i as int),
                "character_version"@), old(card).character_version@),
            card.extensions == old(card).extensions,
            card.character_book == old(card).character_book,
            updated@.len() == 0 ==> *card == *old(card),
            "<START_ALT>"@.len() > 0,
            ","@.len() > 0,
        decreases params@.len() - i,
    {
        proof {
            let t = params@.take(i + 1);
            assert(t.drop_last() =~= params@.take(i as int));
            assert(t.last() == params@[i as int]);
            assert(t =~= params@.take(i as int).push(params@[i as int]));
            lemma_edit_keys_push(params@.take(i as int), params@[i as int]);
            lemma_edit_keys_distinct();
        }
        let key = &params[i].0;
        let value = &params[i].1;
        let k = key.as_str();
        if str_eq(k, "name") {
            card.name = value.clone();
            updated.push(key.clone());
        } else if str_eq(k, "description") {
            card.description = value.clone();
            updated.push(key.clone());
        } else if str_eq(k, "personality") {
            card.personality = value.clone();
            updated.push(key.clone());
        } else if str_eq(k, "scenario") {
            card.scenario = value.clone();
            updated.push(key.clone());
        } else if str_eq(k, "first_mes") {
            card.first_mes = value.clone();
            updated.push(key.clone());
        } else if str_eq(k, "mes_example") {
            card.mes_example = value.clone();
            updated.push(key.clone());
        } else if str_eq(k, "creator_notes") {
            card.creator_notes = value.clone();
            updated.push(key.clone());
        } else if str_eq(k, "system_prompt") {
            card.system_prompt = value.clone();
            updated.push(key.clone());
        } else if str_eq(k, "post_history_instructions") {
            card.post_history_instructions = value.clone();
            updated.push(key.clone());
        } else if str_eq(k, "alternate_greetings") {
            card.alternate_greetings = crate::strings::split_trim_nonempty(
                value.as_str(), "<START_ALT>");
            updated.push(key.clone());
        } else if str_eq(k, "tags") {
            card.tags = crate::strings::split_trim_nonempty(value.as_str(), ",");
            updated.push(key.clone());
        } else if str_eq(k, "creator") {
            card.creator = value.clone();
            updated.push(key.clone());
        } else if str_eq(k, "character_version") {
            card.character_version = value.clone();
            updated.push(key.clone());
        }
        proof {
            if is_edit_key(params@[i as int].0@) {
                assert(str_views(updated@)
                    =~= edit_keys_of(params@.take(i as int)).push(params@[i as int].0@));
            }
            assert(str_views(updated@) =~= edit_keys_of(params@.take(i + 1)));
        }
        i += 1;
    }
    proof {
        assert(params@.take(params@.len() as int) =~= params@);
    }
    if updated.len() == 0 {
        proof {
            assert(*card == *old(card));
        }
        return Err(String::from_str("no recognized field argument was given"));
    }
    Ok(updated)
}

/// How the recognized-key list grows by one argument.
proof fn lemma_edit_keys_push(params: Seq<(String, String)>, p: (String, String))
    ensures
        edit_keys_of(params.push(p)) == if is_edit_key(p.0@) {
            edit_keys_of(params).push(p.0@)
        } else {
            edit_keys_of(params)
        },
{
    let f = |q: (String, String)| q.0@;
    let pred = |k: Seq<char>| is_edit_key(k);
    assert(params.push(p).map_values(f) =~= params.map_values(f).push(f(p)));
    assert(params.map_values(f).push(f(p)) =~= params.map_values(f) + seq![f(p)]);
    Seq::filter_distributes_over_add(params.map_values(f), seq![f(p)], pred);
    reveal_with_fuel(Seq::filter, 3);
    assert(seq![f(p)].drop_last() =~= Seq::<Seq<char>>::empty());
    if pred(f(p)) {
        assert(seq![f(p)].filter(pred) =~= seq![f(p)]);
        assert(edit_keys_of(params) + seq![f(p)] =~= edit_keys_of(params).push(f(p)));
    } else {
        assert(seq![f(p)].filter(pred) =~= Seq::<Seq<char>>::empty());
        assert(edit_keys_of(params) + Seq::<Seq<char>>::empty() =~= edit_keys_of(params));
    }
}

} // verus!

verus! {

/// The thirteen recognized field names are pairwise distinct.
#[verifier::rlimit(100)]
proof fn lemma_edit_keys_distinct()
    ensures
        "name"@ != "description"@,
        "name"@ != "personality"@,
        "name"@ != "scenario"@,
        "name"@ != "first_mes"@,
        "name"@ != "mes_example"@,
        "name"@ != "creator_notes"@,
        "name"@ != "system_prompt"@,
        "name"@ != "post_history_instructions"@,
        "name"@ != "alternate_greetings"@,
        "name"@ != "tags"@,
        "name"@ != "creator"@,
        "name"@ != "character_version"@,
        "description"@ != "personality"@,
        "description"@ != "scenario"@,
        "description"@ != "first_mes"@,
        "description"@ != "mes_example"@,
        "description"@ != "creator_notes"@,
        "description"@ != "system_prompt"@,
        "description"@ != "post_history_instructions"@,
        "description"@ != "alternate_greetings"@,
        "description"@ != "tags"@,
        "description"@ != "creator"@,
        "description"@ != "character_version"@,
        "personality"@ != "scenario"@,
        "personality"@ != "first_mes"@,
        "personality"@ != "mes_example"@,
        "personality"@ != "creator_notes"@,
        "personality"@ != "system_prompt"@,
        "personality"@ != "post_history_instructions"@,
        "personality"@ != "alternate_greetings"@,
        "personality"@ != "tags"@,
        "personality"@ != "creator"@,
        "personality"@ != "character_version"@,
        "scenario"@ != "first_mes"@,
        "scenario"@ != "mes_example"@,
        "scenario"@ != "creator_notes"@,
        "scenario"@ != "system_prompt"@,
        "scenario"@ != "post_history_instructions"@,
        "scenario"@ != "alternate_greetings"@,
        "scenario"@ != "tags"@,
        "scenario"@ != "creator"@,
        "scenario"@ != "character_version"@,
        "first_mes"@ != "mes_example"@,
        "first_mes"@ != "creator_notes"@,
        "first_mes"@ != "system_prompt"@,
        "first_mes"@ != "post_history_instructions"@,
        "first_mes"@ != "alternate_greetings"@,
        "first_mes"@ != "tags"@,
        "first_mes"@ != "creator"@,
        "first_mes"@ != "character_version"@,
        "mes_example"@ != "creator_notes"@,
        "mes_example"@ != "system_prompt"@,
        "mes_example"@ != "post_history_instructions"@,
        "mes_example"@ != "alternate_greetings"@,
        "mes_example"@ != "tags"@,
        "mes_example"@ != "creator"@,
        "mes_example"@ != "character_version"@,
        "creator_notes"@ != "system_prompt"@,
        "creator_notes"@ != "post_history_instructions"@,
        "creator_notes"@ != "alternate_greetings"@,
        "creator_notes"@ != "tags"@,
        "creator_notes"@ != "creator"@,
        "creator_notes"@ != "character_version"@,
        "system_prompt"@ != "post_history_instructions"@,
        "system_prompt"@ != "alternate_greetings"@,
        "system_prompt"@ != "tags"@,
        "system_prompt"@ != "creator"@,
        "system_prompt"@ != "character_version"@,
        "post_history_instructions"@ != "alternate_greetings"@,
        "post_history_instructions"@ != "tags"@,
        "post_history_instructions"@ != "creator"@,
        "post_history_instructions"@ != "character_version"@,
        "alternate_greetings"@ != "tags"@,
        "alternate_greetings"@ != "creator"@,
        "alternate_greetings"@ != "character_version"@,
        "tags"@ != "creator"@,
        "tags"@ != "character_version"@,
        "creator"@ != "character_version"@,
{
    assert("name"@.len() == 4) by {
        reveal_strlit("name");
    }
    assert("description"@.len() == 11) by {
        reveal_strlit("description");
    }
    assert("personality"@.len() == 11) by {
        reveal_strlit("personality");
    }
    assert("scenario"@.len() == 8) by {
        reveal_strlit("scenario");
    }
    assert("first_mes"@.len() == 9) by {
        reveal_strlit("first_mes");
    }
    assert("mes_example"@.len() == 11) by {
        reveal_strlit("mes_example");
    }
    assert("creator_notes"@.len() == 13) by {
        reveal_strlit("creator_notes");
    }
    assert("system_prompt"@.len() == 13) by {
        reveal_strlit("system_prompt");
    }
    assert("post_history_instructions"@.len() == 25) by {
        reveal_strlit("post_history_instructions");
    }
    assert("alternate_greetings"@.len() == 19) by {
        reveal_strlit("alternate_greetings");
    }
    assert("tags"@.len() == 4) by {
        reveal_strlit("tags");
    }
    assert("creator"@.len() == 7) by {
        reveal_strlit("creator");
    }
    assert("character_version"@.len() == 17) by {
        reveal_strlit("character_version");
    }
    assert("name"@ != "tags"@) by {
        reveal_strlit("name");
        reveal_strlit("tags");
        assert("name"@[0] != "tags"@[0]);
    }
    assert("description"@ != "personality"@) by {
        reveal_strlit("description");
        reveal_strlit("personality");
        assert("description"@[0] != "personality"@[0]);
    }
    assert("description"@ != "mes_example"@) by {
        reveal_strlit("description");
        reveal_strlit("mes_example");
        assert("description"@[0] != "mes_example"@[0]);
    }
    assert("personality"@ != "mes_example"@) by {
        reveal_strlit("personality");
        reveal_strlit("mes_example");
        assert("personality"@[0] != "mes_example"@[0]);
    }
    assert("creator_notes"@ != "system_prompt"@) by {
        reveal_strlit("creator_notes");
        reveal_strlit("system_prompt");
        assert("creator_notes"@[0] != "system_prompt"@[0]);
    }
}

} // verus!

verus! {

// ---------------------------------------------------------------------------
// The world-book creation tool's decision core
// ---------------------------------------------------------------------------

/// Mathematical view of an extension value.
pub ghost enum ExtView {
    Null,
    Truth(bool),
    Number(i64),
    Text(Seq<char>),
}

/// View of one extension value.
pub open spec fn ext_view(v: crate::worldbook::ExtValue) -> ExtView {
    match v {
        crate::worldbook::ExtValue::Null => ExtView::Null,
        crate::worldbook::ExtValue::Truth(b) => ExtView::Truth(b),
        crate::worldbook::ExtValue::Number(n) => ExtView::Number(n),
        crate::worldbook::ExtValue::Text(s) => ExtView::Text(s@),
    }
}

/// Views of an extension list.
pub open spec fn ext_views(v: Seq<(String, crate::worldbook::ExtValue)>)
    -> Seq<(Seq<char>, ExtView)> {
    v.map_values(|p: (String, crate::worldbook::ExtValue)| (p.0@, ext_view(p.1)))
}

/// Setting a key in an extension list: replace the first binding of the
/// key, or append a new one.
pub open spec fn ext_set_v(m: Seq<(Seq<char>, ExtView)>, k: Seq<char>, val: ExtView)
    -> Seq<(Seq<char>, ExtView)>
    decreases m.len(),
{
    if m.len() == 0 {
        seq![(k, val)]
    } else if m[0].0 == k {
        seq![(k, val)] + m.drop_first()
    } else {
        seq![m[0]] + ext_set_v(m.drop_first(), k, val)
    }
}

proof fn lemma_ext_set_at(m: Seq<(Seq<char>, ExtView)>, k: Seq<char>, val: ExtView, p: int)
    requires
        0 <= p <= m.len(),
        forall|j: int| 0 <= j < p ==> (#[trigger] m[j].0) != k,
        p < m.len() ==> m[p].0 == k,
    ensures
        ext_set_v(m, k, val) == if p < m.len() {
            m.take(p) + seq![(k, val)] + m.skip(p + 1)
        } else {
            m + seq![(k, val)]
        },
    decreases p,
{
    if p == 0 {
        if m.len() == 0 {
            assert(m + seq![(k, val)] =~= seq![(k, val)]);
        } else {
            assert(m.take(0int) + seq![(k, val)] + m.skip(1) =~= seq![(k, val)] + m.drop_first());
        }
    } else {
        assert(m[0].0 != k);
        assert forall|j: int| 0 <= j < p - 1 implies (#[trigger] m.drop_first()[j].0) != k by {
            assert(m.drop_first()[j] == m[j + 1]);
        }
        if p - 1 < m.drop_first().len() {
            assert(m.drop_first()[p - 1] == m[p]);
        }
        lemma_ext_set_at(m.drop_first(), k, val, p - 1);
        if p < m.len() {
            assert(seq![m[0]] + (m.drop_first().take(p - 1) + seq![(k, val)]
                + m.drop_first().skip(p)) =~= m.take(p) + seq![(k, val)] + m.skip(p + 1));
        } else {
            assert(seq![m[0]] + (m.drop_first() + seq![(k, val)]) =~= m + seq![(k, val)]);
        }
    }
}

/// Set a key in an extension list.
pub fn ext_set(exts: &mut Vec<(String, crate::worldbook::ExtValue)>, key: String,
    val: crate::worldbook::ExtValue)
    ensures
        ext_views(final(exts)@) == ext_set_v(ext_views(old(exts)@), key@, ext_view(val)),
{
    let ghost m = ext_views(exts@);
    let mut p: usize = 0;
    while p < exts.len() && !str_eq(exts[p].0.as_str(), key.as_str())
        invariant
            p <= exts@.len(),
            m == ext_views(exts@),
            forall|j: int| 0 <= j < p ==> (#[trigger] m[j].0) != key@,
        decreases exts@.len() - p,
    {
        proof {
            assert(m[p as int].0 == exts@[p as int].0@);
        }
        p += 1;
    }
    proof {
        if p < exts@.len() {
            assert(m[p as int].0 == exts@[p as int].0@);
        }
        lemma_ext_set_at(m, key@, ext_view(val), p as int);
    }
    if p < exts.len() {
        exts.set(p, (key, val));
        proof {
            assert(ext_views(exts@) =~= m.take(p as int) + seq![(old(exts)@[p as int].0@,
                ext_view(old(exts)@[p as int].1))].update(0, (exts@[p as int].0@,
                ext_view(exts@[p as int].1))) + m.skip(p + 1));
            assert(ext_views(exts@) =~= ext_set_v(m, exts@[p as int].0@,
                ext_view(exts@[p as int].1)));
        }
    } else {
        exts.push((key, val));
        proof {
            assert(ext_views(exts@) =~= m + seq![(exts@[exts@.len() - 1].0@,
                ext_view(exts@[exts@.len() - 1].1))]);
        }
    }
}

} // verus!

verus! {

/// The default extension map of a fresh world-book entry.
pub open spec fn default_ext_views() -> Seq<(Seq<char>, ExtView)> {
    seq![
        ("automation_id"@, ExtView::Text(""@)),
        ("case_sensitive"@, ExtView::Null),
        ("cooldown"@, ExtView::Number(0)),
        ("delay"@, ExtView::Number(0)),
        ("delay_until_recursion"@, ExtView::Truth(false)),
        ("depth"@, ExtView::Number(5)),
        ("display_index"@, ExtView::Number(0)),
        ("exclude_recursion"@, ExtView::Truth(false)),
        ("group"@, ExtView::Text(""@)),
        ("group_override"@, ExtView::Truth(false)),
        ("group_weight"@, ExtView::Number(100)),
        ("match_character_depth_prompt"@, ExtView::Truth(false)),
        ("match_character_description"@, ExtView::Truth(false)),
        ("match_character_personality"@, ExtView::Truth(false)),
        ("match_creator_notes"@, ExtView::Truth(false)),
        ("match_persona_description"@, ExtView::Truth(false)),
        ("match_scenario"@, ExtView::Truth(false)),
        ("match_whole_words"@, ExtView::Null),
        ("position"@, ExtView::Number(4)),
        ("prevent_recursion"@, ExtView::Truth(false)),
        ("probability"@, ExtView::Number(100)),
        ("role"@, ExtView::Number(0)),
        ("scan_depth"@, ExtView::Null),
        ("selectiveLogic"@, ExtView::Number(0)),
        ("sticky"@, ExtView::Number(0)),
        ("useProbability"@, ExtView::Truth(true)),
        ("use_group_scoring"@, ExtView::Truth(false)),
        ("vectorized"@, ExtView::Truth(false)),
    ]
}

/// Build the default extension map.
pub fn default_extensions() -> (r: Vec<(String, crate::worldbook::ExtValue)>)
    ensures
        ext_views(r@) == default_ext_views(),
{
    let mut v: Vec<(String, crate::worldbook::ExtValue)> = Vec::new();
    v.push((String::from_str("automation_id"), crate::worldbook::ExtValue::Text(String::new())));
    v.push((String::from_str("case_sensitive"), crate::worldbook::ExtValue::Null));
    v.push((String::from_str("cooldown"), crate::worldbook::ExtValue::Number(0)));
    v.push((String::from_str("delay"), crate::worldbook::ExtValue::Number(0)));
    v.push((String::from_str("delay_until_recursion"),
        crate::worldbook::ExtValue::Truth(false)));
    v.push((String::from_str("depth"), crate::worldbook::ExtValue::Number(5)));
    v.push((String::from_str("display_index"), crate::worldbook::ExtValue::Number(0)));
    v.push((String::from_str("exclude_recursion"), crate::worldbook::ExtValue::Truth(false)));
    v.push((String::from_str("group"), crate::worldbook::ExtValue::Text(String::new())));
    v.push((String::from_str("group_override"), crate::worldbook::ExtValue::Truth(false)));
    v.push((String::from_str("group_weight"), crate::worldbook::ExtValue::Number(100)));
    v.push((String::from_str("match_character_depth_prompt"),
        crate::worldbook::ExtValue::Truth(false)));
    v.push((String::from_str("match_character_description"),
        crate::worldbook::ExtValue::Truth(false)));
    v.push((String::from_str("match_character_personality"),
        crate::worldbook::ExtValue::Truth(false)));
    v.push((String::from_str("match_creator_notes"), crate::worldbook::ExtValue::Truth(false)));
    v.push((String::from_str("match_persona_description"),
        crate::worldbook::ExtValue::Truth(false)));
    v.push((String::from_str("match_scenario"), crate::worldbook::ExtValue::Truth(false)));
    v.push((String::from_str("match_whole_words"), crate::worldbook::ExtValue::Null));
    v.push((String::from_str("position"), crate::worldbook::ExtValue::Number(4)));
    v.push((String::from_str("prevent_recursion"), crate::worldbook::ExtValue::Truth(false)));
    v.push((String::from_str("probability"), crate::worldbook::ExtValue::Number(100)));
    v.push((String::from_str("role"), crate::worldbook::ExtValue::Number(0)));
    v.push((String::from_str("scan_depth"), crate::worldbook::ExtValue::Null));
    v.push((String::from_str("selectiveLogic"), crate::worldbook::ExtValue::Number(0)));
    v.push((String::from_str("sticky"), crate::worldbook::ExtValue::Number(0)));
    v.push((String::from_str("useProbability"), crate::worldbook::ExtValue::Truth(true)));
    v.push((String::from_str("use_group_scoring"), crate::worldbook::ExtValue::Truth(false)));
    v.push((String::from_str("vectorized"), crate::worldbook::ExtValue::Truth(false)));
    proof {
        assert(""@ =~= Seq::<char>::empty()) by {
            reveal_strlit("");
        }
        assert(ext_views(v@) =~= default_ext_views());
    }
    v
}

/// A world book as the creation tool starts one when none exists yet.
pub fn default_book() -> (r: crate::worldbook::CharacterBook)
    ensures
        r.name is None,
        r.description is None,
        r.scan_depth == Some(2i32),
        r.token_budget == Some(500i32),
        r.recursive_scanning == Some(false),
        r.entries@.len() == 0,
        r.extensions@.len() == 0,
{
    crate::worldbook::CharacterBook {
        name: None,
        description: None,
        scan_depth: Some(2),
        token_budget: Some(500),
        recursive_scanning: Some(false),
        extensions: Vec::new(),
        entries: Vec::new(),
    }
}

} // verus!

verus! {

/// The argument names the creation tool stores as entry fields.
pub open spec fn is_entry_field_key(k: Seq<char>) -> bool {
    ||| k == "keys"@
    ||| k == "content"@
    ||| k == "name"@
    ||| k == "comment"@
    ||| k == "enabled"@
    ||| k == "priority"@
    ||| k == "position"@
}

/// Views of an argument list.
pub open spec fn param_views(params: Seq<(String, String)>) -> Seq<(Seq<char>, Seq<char>)> {
    params.map_values(|p: (String, String)| (p.0@, p.1@))
}

/// Whether any argument names `key`.
pub open spec fn has_param(params: Seq<(String, String)>, key: Seq<char>) -> bool {
    exists|i: int| 0 <= i < params.len() && (#[trigger] params[i].0@) == key
}

/// How one argument changes the extension map: entry and book fields are
/// handled elsewhere, the depth-like numbers are stored when they parse,
/// and any other argument is stored as text.
pub open spec fn ext_apply_param(m: Seq<(Seq<char>, ExtView)>, key: Seq<char>, value: Seq<char>)
    -> Seq<(Seq<char>, ExtView)> {
    if key == "at_least_one_field"@ || is_entry_field_key(key) || key == "token_budget"@
        || key == "recursive_scanning"@ {
        m
    } else if key == "depth"@ || key == "probability"@ || key == "scan_depth"@ {
        match crate::strings::parse_i32_spec(value) {
            Some(n) => ext_set_v(m, key, ExtView::Number(n as i64)),
            None => m,
        }
    } else {
        ext_set_v(m, key, ExtView::Text(value))
    }
}

/// The extension map after every argument is applied in order.
pub open spec fn exts_after(m: Seq<(Seq<char>, ExtView)>, params: Seq<(Seq<char>, Seq<char>)>)
    -> Seq<(Seq<char>, ExtView)>
    decreases params.len(),
{
    if params.len() == 0 {
        m
    } else {
        exts_after(ext_apply_param(m, params[0].0, params[0].1), params.drop_first())
    }
}

/// The last successfully parsed number bound to `key`.
pub open spec fn last_parsed_i32(params: Seq<(String, String)>, key: Seq<char>) -> Option<i32>
    decreases params.len(),
{
    if params.len() == 0 {
        None
    } else if params.last().0@ == key && crate::strings::parse_i32_spec(params.last().1@) is Some {
        crate::strings::parse_i32_spec(params.last().1@)
    } else {
        last_parsed_i32(params.drop_last(), key)
    }
}

/// The last successfully parsed boolean bound to `key`.
pub open spec fn last_parsed_bool(params: Seq<(String, String)>, key: Seq<char>) -> Option<bool>
    decreases params.len(),
{
    if params.len() == 0 {
        None
    } else if params.last().0@ == key
        && crate::strings::parse_bool_spec(params.last().1@) is Some {
        crate::strings::parse_bool_spec(params.last().1@)
    } else {
        last_parsed_bool(params.drop_last(), key)
    }
}

/// The largest id any entry carries, or zero.
pub open spec fn max_entry_id(entries: Seq<crate::worldbook::WorldBookEntry>) -> nat
    decreases entries.len(),
{
    if entries.len() == 0 {
        0
    } else {
        let m = max_entry_id(entries.drop_last());
        match entries.last().id {
            Some(v) => if v > m { v as nat } else { m },
            None => m,
        }
    }
}

/// The id a newly created entry receives: one past the largest, starting
/// at one.
pub open spec fn next_entry_id(entries: Seq<crate::worldbook::WorldBookEntry>) -> nat {
    if entries.len() == 0 {
        1
    } else {
        max_entry_id(entries) + 1
    }
}

/// The largest insertion order of any entry, or zero.
pub open spec fn max_insertion_order(entries: Seq<crate::worldbook::WorldBookEntry>) -> nat
    decreases entries.len(),
{
    if entries.len() == 0 {
        0
    } else {
        let m = max_insertion_order(entries.drop_last());
        if entries.last().insertion_order > m {
            entries.last().insertion_order as nat
        } else {
            m
        }
    }
}

/// The insertion order a newly created entry receives.
pub open spec fn next_insertion_order(entries: Seq<crate::worldbook::WorldBookEntry>) -> nat {
    if entries.len() == 0 {
        1
    } else {
        max_insertion_order(entries) + 1
    }
}

/// A key is bound exactly when some argument names it.
proof fn lemma_last_value_some(params: Seq<(String, String)>, key: Seq<char>)
    ensures
        has_param(params, key) <==> last_value(params, key) is Some,
    decreases params.len(),
{
    if params.len() > 0 {
        lemma_last_value_some(params.drop_last(), key);
        if params.last().0@ == key {
            assert(params[params.len() - 1].0@ == key);
        } else {
            assert(has_param(params.drop_last(), key) <==> has_param(params, key)) by {
                if has_param(params, key) {
                    let i = choose|i: int| 0 <= i < params.len()
                        && (#[trigger] params[i].0@) == key;
                    assert(params.drop_last()[i] == params[i]);
                }
                if has_param(params.drop_last(), key) {
                    let i = choose|i: int| 0 <= i < params.drop_last().len()
                        && (#[trigger] params.drop_last()[i].0@) == key;
                    assert(params[i].0@ == key);
                }
            }
        }
    }
}

/// Whether any argument names `key`.
pub fn has_param_exec(params: &Vec<(String, String)>, key: &str) -> (r: bool)
    ensures
        r == has_param(params@, key@),
{
    let mut i: usize = 0;
    while i < params.len()
        invariant
            i <= params@.len(),
            forall|j: int| 0 <= j < i ==> (#[trigger] params@[j].0@) != key@,
        decreases params@.len() - i,
    {
        if str_eq(params[i].0.as_str(), key) {
            proof {
                assert(params@[i as int].0@ == key@);
            }
            return true;
        }
        i += 1;
    }
    false
}

/// The value bound to `key` by the last argument that names it.
pub fn last_param(params: &Vec<(String, String)>, key: &str) -> (r: Option<String>)
    ensures
        match r {
            Some(v) => last_value(params@, key@) == Some(v@),
            None => last_value(params@, key@) is None,
        },
{
    let mut i: usize = params.len();
    proof {
        assert(params@.take(params@.len() as int) =~= params@);
    }
    while i > 0
        invariant
            i <= params@.len(),
            last_value(params@, key@) == last_value(params@.take(i as int), key@),
        decreases i,
    {
        proof {
            let t = params@.take(i as int);
            assert(t.last() == params@[i - 1]);
            assert(t.drop_last() =~= params@.take(i - 1));
        }
        if str_eq(params[i - 1].0.as_str(), key) {
            let v = params[i - 1].1.clone();
            return Some(v);
        }
        i -= 1;
    }
    proof {
        assert(params@.take(0) =~= Seq::<(String, String)>::empty());
    }
    None
}

} // verus!

verus! {

/// Create a world-book entry from the given arguments and append it to the
/// book. The required arguments are `keys`, `content`, `depth`, `comment`
/// and `probability`; the keyword list must be non-empty after splitting
/// and the content non-empty. On failure the book is unchanged.
#[verifier::rlimit(100)]
pub fn create_entry(book: &mut crate::worldbook::CharacterBook,
    params: &Vec<(String, String)>) -> (r: Result<u64, String>)
    requires
        max_entry_id(old(book).entries@) < u64::MAX,
        max_insertion_order(old(book).entries@) < u64::MAX,
    ensures
        r is Ok <==> ({
            &&& has_param(params@, "keys"@)
            &&& has_param(params@, "content"@)
            &&& has_param(params@, "depth"@)
            &&& has_param(params@, "comment"@)
            &&& has_param(params@, "probability"@)
            &&& sel_list(last_value(params@, "keys"@), ","@, Seq::empty()).len() > 0
            &&& sel_str(last_value(params@, "content"@), Seq::empty()).len() > 0
        }),
        r matches Err(_) ==> *final(book) == *old(book),
        match r {
            Ok(id) => {
                let e = final(book).entries@.last();
                &&& id == next_entry_id(old(book).entries@)
                &&& final(book).entries@.len() == old(book).entries@.len() + 1
                &&& final(book).entries@.drop_last() == old(book).entries@
                &&& e.id == Some(id)
                &&& e.insertion_order == next_insertion_order(old(book).entries@)
                &&& str_views(e.keys@) == sel_list(last_value(params@, "keys"@), ","@,
                    Seq::empty())
                &&& e.content@ == sel_str(last_value(params@, "content"@), Seq::empty())
                &&& crate::messages::opt_view(e.name) == last_value(params@, "name"@)
                &&& crate::messages::opt_view(e.comment) == last_value(params@, "comment"@)
                &&& e.enabled == (match last_value(params@, "enabled"@) {
                    Some(v) => match crate::strings::parse_bool_spec(v) {
                        Some(b) => b,
                        None => true,
                    },
                    None => true,
                })
                &&& e.priority == (match last_value(params@, "priority"@) {
                    Some(v) => crate::strings::parse_u32_spec(v),
                    None => Some(10u32),
                })
                &&& crate::messages::opt_view(e.position) == Some(sel_str(last_value(params@,
                    "position"@), "before_char"@))
                &&& e.case_sensitive == Some(false)
                &&& e.selective is None
                &&& e.secondary_keys is None
                &&& e.constant is None
                &&& ext_views(e.extensions@) == exts_after(default_ext_views(),
                    param_views(params@))
                &&& final(book).token_budget == (match last_parsed_i32(params@,
                    "token_budget"@) {
                    Some(n) => Some(n),
                    None => old(book).token_budget,
                })
                &&& final(book).recursive_scanning == (match last_parsed_bool(params@,
                    "recursive_scanning"@) {
                    Some(b) => Some(b),
                    None => old(book).recursive_scanning,
                })
                &&& final(book).name == old(book).name
                &&& final(book).description == old(book).description
                &&& final(book).scan_depth == old(book).scan_depth
                &&& final(book).extensions == old(book).extensions
            },
            Err(_) => true,
        },
{
    proof {
        reveal_strlit(",");
        lemma_last_value_some(params@, "keys"@);
        lemma_last_value_some(params@, "content"@);
    }
    // required arguments, in the order they are reported
    if !has_param_exec(params, "keys") {
        return Err(String::from_str("missing required parameter: keys"));
    }
    if !has_param_exec(params, "content") {
        return Err(String::from_str("missing required parameter: content"));
    }
    if !has_param_exec(params, "depth") {
        return Err(String::from_str("missing required parameter: depth"));
    }
    if !has_param_exec(params, "comment") {
        return Err(String::from_str("missing required parameter: comment"));
    }
    if !has_param_exec(params, "probability") {
        return Err(String::from_str("missing required parameter: probability"));
    }
    let keys_val = match last_param(params, "keys") {
        Some(v) => v,
        None => {
            return Err(String::from_str("missing required parameter: keys"));
        },
    };
    let keys_list = crate::strings::split_trim_nonempty(keys_val.as_str(), ",");
    if keys_list.len() == 0 {
        return Err(String::from_str("keys must not be empty"));
    }
    let content_val = match last_param(params, "content") {
        Some(v) => v,
        None => {
            return Err(String::from_str("missing required parameter: content"));
        },
    };
    if content_val.unicode_len() == 0 {
        return Err(String::from_str("content must not be empty"));
    }
    // optional entry fields, last binding first
    let name_opt = last_param(params, "name");
    let comment_opt = last_param(params, "comment");
    let enabled: bool = match last_param(params, "enabled") {
        Some(v) => {
            match crate::strings::parse_bool(v.as_str()) {
                Some(b) => b,
                None => true,
            }
        },
        None => true,
    };
    let priority: Option<u32> = match last_param(params, "priority") {
        Some(v) => crate::strings::parse_u32(v.as_str()),
        None => Some(10),
    };
    let position: String = match last_param(params, "position") {
        Some(v) => v,
        None => String::from_str("before_char"),
    };
    // fresh id and insertion order
    let new_id = next_id_exec(&book.entries);
    let new_order = next_order_exec(&book.entries);
    // extensions and the book's own overridable fields
    let mut exts = default_extensions();
    let ghost pv = param_views(params@);
    let ghost target = exts_after(default_ext_views(), pv);
    let ghost old_budget = book.token_budget;
    let ghost old_recur = book.recursive_scanning;
    let mut i: usize = 0;
    proof {
        assert(pv.skip(0) =~= pv);
        assert(params@.take(0) =~= Seq::<(String, String)>::empty());
    }
    while i < params.len()
        invariant
            i <= params@.len(),
            pv == param_views(params@),
            target == exts_after(default_ext_views(), pv),
            exts_after(ext_views(exts@), pv.skip(i as int)) == target,
            book.token_budget == (match last_parsed_i32(params@.take(i as int),
                "token_budget"@) {
                Some(n) => Some(n),
                None => old_budget,
            }),
            book.recursive_scanning == (match last_parsed_bool(params@.take(i as int),
                "recursive_scanning"@) {
                Some(b) => Some(b),
                None => old_recur,
            }),
            book.name == old(book).name,
            book.description == old(book).description,
            book.scan_depth == old(book).scan_depth,
            book.extensions == old(book).extensions,
            book.entries == old(book).entries,
            old_budget == old(book).token_budget,
            old_recur == old(book).recursive_scanning,
        decreases params@.len() - i,
    {
        proof {
            assert(pv.skip(i as int)[0] == pv[i as int]);
            assert(pv.skip(i as int).drop_first() =~= pv.skip(i + 1));
            assert(pv[i as int] == (params@[i as int].0@, params@[i as int].1@));
            let t = params@.take(i + 1);
            assert(t.last() == params@[i as int]);
            assert(t.drop_last() =~= params@.take(i as int));
            lemma_param_keys_distinct();
        }
        let key = &params[i].0;
        let value = &params[i].1;
        let k = key.as_str();
        let is_marker = str_eq(k, "at_least_one_field");
        let is_keys = str_eq(k, "keys");
        let is_content = str_eq(k, "content");
        let is_name = str_eq(k, "name");
        let is_comment = str_eq(k, "comment");
        let is_enabled = str_eq(k, "enabled");
        let is_priority = str_eq(k, "priority");
        let is_position = str_eq(k, "position");
        let is_depth = str_eq(k, "depth");
        let is_probability = str_eq(k, "probability");
        let is_scan_depth = str_eq(k, "scan_depth");
        let is_budget = str_eq(k, "token_budget");
        let is_recur = str_eq(k, "recursive_scanning");
        if is_marker || is_keys || is_content || is_name || is_comment || is_enabled
            || is_priority || is_position {
            // entry fields were gathered above; nothing to store here
        } else if is_depth || is_probability || is_scan_depth {
            match crate::strings::parse_i32(value.as_str()) {
                Some(n) => {
                    ext_set(&mut exts, key.clone(), crate::worldbook::ExtValue::Number(n as i64));
                },
                None => {},
            }
        } else if is_budget {
            match crate::strings::parse_i32(value.as_str()) {
                Some(n) => {
                    book.token_budget = Some(n);
                },
                None => {},
            }
        } else if is_recur {
            match crate::strings::parse_bool(value.as_str()) {
                Some(b) => {
                    book.recursive_scanning = Some(b);
                },
                None => {},
            }
        } else {
            ext_set(&mut exts, key.clone(), crate::worldbook::ExtValue::Text(value.clone()));
        }
        i += 1;
    }
    proof {
        assert(pv.skip(params@.len() as int) =~= Seq::<(Seq<char>, Seq<char>)>::empty());
        assert(params@.take(params@.len() as int) =~= params@);
    }
    // the entry itself
    let entry = crate::worldbook::WorldBookEntry {
        id: Some(new_id),
        name: name_opt,
        keys: keys_list,
        content: content_val,
        extensions: exts,
        enabled,
        insertion_order: new_order,
        case_sensitive: Some(false),
        priority,
        comment: comment_opt,
        selective: None,
        secondary_keys: None,
        constant: None,
        position: Some(position),
    };
    book.entries.push(entry);
    proof {
        assert(final(book).entries@.drop_last() =~= old(book).entries@);
    }
    Ok(new_id)
}

/// The id a new entry receives.
fn next_id_exec(entries: &Vec<crate::worldbook::WorldBookEntry>) -> (r: u64)
    requires
        max_entry_id(entries@) < u64::MAX,
    ensures
        r == next_entry_id(entries@),
{
    if entries.len() == 0 {
        return 1;
    }
    let mut m: u64 = 0;
    let mut i: usize = 0;
    proof {
        assert(entries@.take(0) =~= Seq::<crate::worldbook::WorldBookEntry>::empty());
    }
    while i < entries.len()
        invariant
            i <= entries@.len(),
            m == max_entry_id(entries@.take(i as int)),
            max_entry_id(entries@) < u64::MAX,
        decreases entries@.len() - i,
    {
        proof {
            let t = entries@.take(i + 1);
            assert(t.drop_last() =~= entries@.take(i as int));
            assert(t.last() == entries@[i as int]);
            lemma_max_id_mono(entries@, i + 1);
        }
        match entries[i].id {
            Some(v) => {
                if v > m {
                    m = v;
                }
            },
            None => {},
        }
        i += 1;
    }
    proof {
        assert(entries@.take(entries@.len() as int) =~= entries@);
    }
    m + 1
}

/// A prefix's largest id never exceeds the whole sequence's.
proof fn lemma_max_id_mono(entries: Seq<crate::worldbook::WorldBookEntry>, i: int)
    requires
        0 <= i <= entries.len(),
    ensures
        max_entry_id(entries.take(i)) <= max_entry_id(entries),
    decreases entries.len() - i,
{
    if i < entries.len() {
        lemma_max_id_mono(entries, i + 1);
        let t = entries.take(i + 1);
        assert(t.drop_last() =~= entries.take(i));
        assert(t.last() == entries[i]);
    } else {
        assert(entries.take(i) =~= entries);
    }
}

/// The insertion order a new entry receives.
fn next_order_exec(entries: &Vec<crate::worldbook::WorldBookEntry>) -> (r: u64)
    requires
        max_insertion_order(entries@) < u64::MAX,
    ensures
        r == next_insertion_order(entries@),
{
    if entries.len() == 0 {
        return 1;
    }
    let mut m: u64 = 0;
    let mut i: usize = 0;
    proof {
        assert(entries@.take(0) =~= Seq::<crate::worldbook::WorldBookEntry>::empty());
    }
    while i < entries.len()
        invariant
            i <= entries@.len(),
            m == max_insertion_order(entries@.take(i as int)),
            max_insertion_order(entries@) < u64::MAX,
        decreases entries@.len() - i,
    {
        proof {
            let t = entries@.take(i + 1);
            assert(t.drop_last() =~= entries@.take(i as int));
            assert(t.last() == entries@[i as int]);
            lemma_max_order_mono(entries@, i + 1);
        }
        if entries[i].insertion_order > m {
            m = entries[i].insertion_order;
        }
        i += 1;
    }
    proof {
        assert(entries@.take(entries@.len() as int) =~= entries@);
    }
    m + 1
}

/// A prefix's largest insertion order never exceeds the whole sequence's.
proof fn lemma_max_order_mono(entries: Seq<crate::worldbook::WorldBookEntry>, i: int)
    requires
        0 <= i <= entries.len(),
    ensures
        max_insertion_order(entries.take(i)) <= max_insertion_order(entries),
    decreases entries.len() - i,
{
    if i < entries.len() {
        lemma_max_order_mono(entries, i + 1);
        let t = entries.take(i + 1);
        assert(t.drop_last() =~= entries.take(i));
        assert(t.last() == entries[i]);
    } else {
        assert(entries.take(i) =~= entries);
    }
}

} // verus!

verus! {

/// The creation tool's argument names are pairwise distinct.
#[verifier::rlimit(100)]
proof fn lemma_param_keys_distinct()
    ensures
        "at_least_one_field"@ != "keys"@,
        "at_least_one_field"@ != "content"@,
        "at_least_one_field"@ != "name"@,
        "at_least_one_field"@ != "comment"@,
        "at_least_one_field"@ != "enabled"@,
        "at_least_one_field"@ != "priority"@,
        "at_least_one_field"@ != "position"@,
        "at_least_one_field"@ != "depth"@,
        "at_least_one_field"@ != "probability"@,
        "at_least_one_field"@ != "scan_depth"@,
        "at_least_one_field"@ != "token_budget"@,
        "at_least_one_field"@ != "recursive_scanning"@,
        "keys"@ != "content"@,
        "keys"@ != "name"@,
        "keys"@ != "comment"@,
        "keys"@ != "enabled"@,
        "keys"@ != "priority"@,
        "keys"@ != "position"@,
        "keys"@ != "depth"@,
        "keys"@ != "probability"@,
        "keys"@ != "scan_depth"@,
        "keys"@ != "token_budget"@,
        "keys"@ != "recursive_scanning"@,
        "content"@ != "name"@,
        "content"@ != "comment"@,
        "content"@ != "enabled"@,
        "content"@ != "priority"@,
        "content"@ != "position"@,
        "content"@ != "depth"@,
        "content"@ != "probability"@,
        "content"@ != "scan_depth"@,
        "content"@ != "token_budget"@,
        "content"@ != "recursive_scanning"@,
        "name"@ != "comment"@,
        "name"@ != "enabled"@,
        "name"@ != "priority"@,
        "name"@ != "position"@,
        "name"@ != "depth"@,
        "name"@ != "probability"@,
        "name"@ != "scan_depth"@,
        "name"@ != "token_budget"@,
        "name"@ != "recursive_scanning"@,
        "comment"@ != "enabled"@,
        "comment"@ != "priority"@,
        "comment"@ != "position"@,
        "comment"@ != "depth"@,
        "comment"@ != "probability"@,
        "comment"@ != "scan_depth"@,
        "comment"@ != "token_budget"@,
        "comment"@ != "recursive_scanning"@,
        "enabled"@ != "priority"@,
        "enabled"@ != "position"@,
        "enabled"@ != "depth"@,
        "enabled"@ != "probability"@,
        "enabled"@ != "scan_depth"@,
        "enabled"@ != "token_budget"@,
        "enabled"@ != "recursive_scanning"@,
        "priority"@ != "position"@,
        "priority"@ != "depth"@,
        "priority"@ != "probability"@,
        "priority"@ != "scan_depth"@,
        "priority"@ != "token_budget"@,
        "priority"@ != "recursive_scanning"@,
        "position"@ != "depth"@,
        "position"@ != "probability"@,
        "position"@ != "scan_depth"@,
        "position"@ != "token_budget"@,
        "position"@ != "recursive_scanning"@,
        "depth"@ != "probability"@,
        "depth"@ != "scan_depth"@,
        "depth"@ != "token_budget"@,
        "depth"@ != "recursive_scanning"@,
        "probability"@ != "scan_depth"@,
        "probability"@ != "token_budget"@,
        "probability"@ != "recursive_scanning"@,
        "scan_depth"@ != "token_budget"@,
        "scan_depth"@ != "recursive_scanning"@,
        "token_budget"@ != "recursive_scanning"@,
{
    assert("at_least_one_field"@.len() == 18) by {
        reveal_strlit("at_least_one_field");
    }
    assert("keys"@.len() == 4) by {
        reveal_strlit("keys");
    }
    assert("content"@.len() == 7) by {
        reveal_strlit("content");
    }
    assert("name"@.len() == 4) by {
        reveal_strlit("name");
    }
    assert("comment"@.len() == 7) by {
        reveal_strlit("comment");
    }
    assert("enabled"@.len() == 7) by {
        reveal_strlit("enabled");
    }
    assert("priority"@.len() == 8) by {
        reveal_strlit("priority");
    }
    assert("position"@.len() == 8) by {
        reveal_strlit("position");
    }
    assert("depth"@.len() == 5) by {
        reveal_strlit("depth");
    }
    assert("probability"@.len() == 11) by {
        reveal_strlit("probability");
    }
    assert("scan_depth"@.len() == 10) by {
        reveal_strlit("scan_depth");
    }
    assert("token_budget"@.len() == 12) by {
        reveal_strlit("token_budget");
    }
    assert("recursive_scanning"@.len() == 18) by {
        reveal_strlit("recursive_scanning");
    }
    assert("keys"@ != "name"@) by {
        reveal_strlit("keys");
        reveal_strlit("name");
        assert("keys"@[0] != "name"@[0]);
    }
    assert("content"@ != "comment"@) by {
        reveal_strlit("content");
        reveal_strlit("comment");
        assert("content"@[2] != "comment"@[2]);
    }
    assert("content"@ != "enabled"@) by {
        reveal_strlit("content");
        reveal_strlit("enabled");
        assert("content"@[0] != "enabled"@[0]);
    }
    assert("comment"@ != "enabled"@) by {
        reveal_strlit("comment");
        reveal_strlit("enabled");
        assert("comment"@[0] != "enabled"@[0]);
    }
    assert("priority"@ != "position"@) by {
        reveal_strlit("priority");
        reveal_strlit("position");
        assert("priority"@[1] != "position"@[1]);
    }
    assert("at_least_one_field"@ != "recursive_scanning"@) by {
        reveal_strlit("at_least_one_field");
        reveal_strlit("recursive_scanning");
        assert("at_least_one_field"@[0] != "recursive_scanning"@[0]);
    }
}

} // verus!

verus! {

/// The names of the properties a descriptor declares, in order.
pub open spec fn property_names(props: Seq<(String, crate::chat::ToolParameter)>)
    -> Seq<Seq<char>> {
    props.map_values(|p: (String, crate::chat::ToolParameter)| p.0@)
}

/// The character-edit tool.
pub struct EditCharacterTool;

impl EditCharacterTool {
    /// The tool's registry name.
    pub fn name() -> (r: String)
        ensures
            r@ == "edit_character"@,
    {
        String::from_str("edit_character")
    }

    /// The tool's registry descriptor.
    pub fn descriptor() -> (r: AITool)
        ensures
            r.name@ == "edit_character"@,
            r.category@ == "character"@,
            r.enabled,
    {
        AITool {
            name: String::from_str("edit_character"),
            description: String::from_str(
                "直接编辑角色卡字段。使用方法：将要更新的字段作为参数传入，例如要更新description字段，就直接传入description参数。不需要指定角色名称，系统会自动使用当前角色。支持的参数：name, description, personality, scenario, first_mes, mes_example, creator_notes, system_prompt, post_history_instructions, alternate_greetings(使用<START_ALT>标记每段), tags(逗号分隔), creator, character_version"),
            category: String::from_str("character"),
            parameters: Vec::new(),
            enabled: true,
        }
    }

    /// The provider-facing descriptor: one string property per editable
    /// field, plus the marker property that demands at least one of them.
    pub fn to_chat_tool() -> (r: crate::chat::ChatTool)
        ensures
            r.tool_type@ == "function"@,
            r.function.name@ == "edit_character"@,
            r.function.description is Some,
            r.function.parameters matches Some(p) && {
                &&& p.param_type@ == "object"@
                &&& property_names(p.properties@) == seq!["at_least_one_field"@, "name"@,
                    "description"@, "personality"@, "scenario"@, "first_mes"@, "mes_example"@,
                    "creator_notes"@, "system_prompt"@, "post_history_instructions"@,
                    "alternate_greetings"@, "tags"@, "creator"@, "character_version"@]
                &&& p.required matches Some(req) && str_views(req@)
                    == seq!["at_least_one_field"@]
            },
    {
        let mut properties: Vec<(String, crate::chat::ToolParameter)> = Vec::new();
        properties.push((String::from_str("at_least_one_field"), string_param(
            "必须提供至少一个要编辑的字段（如description, personality等）")));
        properties.push((String::from_str("name"), string_param("角色名称")));
        properties.push((String::from_str("description"), string_param("角色描述")));
        properties.push((String::from_str("personality"), string_param("性格特点")));
        properties.push((String::from_str("scenario"), string_param("场景设定")));
        properties.push((String::from_str("first_mes"), string_param("开场白")));
        properties.push((String::from_str("mes_example"), string_param("对话示例")));
        properties.push((String::from_str("creator_notes"), string_param("创作者笔记")));
        properties.push((String::from_str("system_prompt"), string_param("系统提示词")));
        properties.push((String::from_str("post_history_instructions"),
            string_param("历史后指令")));
        properties.push((String::from_str("alternate_greetings"),
            string_param("备用问候语，使用 <START_ALT> 标记每段开头")));
        properties.push((String::from_str("tags"), string_param("标签，多个标签用逗号分隔")));
        properties.push((String::from_str("creator"), string_param("创作者")));
        properties.push((String::from_str("character_version"), string_param("角色版本")));
        let mut required: Vec<String> = Vec::new();
        required.push(String::from_str("at_least_one_field"));
        proof {
            assert(property_names(properties@) =~= seq!["at_least_one_field"@, "name"@,
                "description"@, "personality"@, "scenario"@, "first_mes"@, "mes_example"@,
                "creator_notes"@, "system_prompt"@, "post_history_instructions"@,
                "alternate_greetings"@, "tags"@, "creator"@, "character_version"@]);
            assert(str_views(required@) =~= seq!["at_least_one_field"@]);
        }
        crate::chat::ChatTool {
            tool_type: String::from_str("function"),
            function: crate::chat::ToolFunction {
                name: String::from_str("edit_character"),
                description: Some(String::from_str(
                    "直接编辑角色卡字段。使用方法：将要更新的字段作为参数传入，例如要更新description字段，就直接传入description参数。不需要指定角色名称，系统会自动使用当前角色。支持的参数：name, description, personality, scenario, first_mes, mes_example, creator_notes, system_prompt, post_history_instructions, alternate_greetings(使用<START_ALT>标记每段), tags(逗号分隔), creator, character_version")),
                parameters: Some(crate::chat::ToolParameters {
                    param_type: String::from_str("object"),
                    properties,
                    required: Some(required),
                }),
            },
        }
    }
}

/// The world-book entry creation tool.
pub struct CreateWorldBookEntryTool;

impl CreateWorldBookEntryTool {
    /// The tool's registry name.
    pub fn name() -> (r: String)
        ensures
            r@ == "create_world_book_entry"@,
    {
        String::from_str("create_world_book_entry")
    }

    /// The tool's registry descriptor.
    pub fn descriptor() -> (r: AITool)
        ensures
            r.name@ == "create_world_book_entry"@,
            r.category@ == "character"@,
            r.enabled,
    {
        AITool {
            name: String::from_str("create_world_book_entry"),
            description: String::from_str(
                "为当前角色创建新的世界书条目。必填参数：keys（关键词，多个关键词用逗号分隔）、content（内容）、depth（插入深度）、comment（备注）、probability（触发概率）。选填参数：name（条目名称）、enabled（是否启用，默认true）、priority（优先级，默认10）、position（位置，默认before_char）以及extension相关参数。"),
            category: String::from_str("character"),
            parameters: Vec::new(),
            enabled: true,
        }
    }

    /// The provider-facing descriptor: the required creation arguments and
    /// the optional entry and book settings, all as string properties.
    pub fn to_chat_tool() -> (r: crate::chat::ChatTool)
        ensures
            r.tool_type@ == "function"@,
            r.function.name@ == "create_world_book_entry"@,
            r.function.description is Some,
            r.function.parameters matches Some(p) && {
                &&& p.param_type@ == "object"@
                &&& property_names(p.properties@) == seq!["at_least_one_field"@, "keys"@,
                    "content"@, "depth"@, "comment"@, "probability"@, "name"@, "enabled"@,
                    "priority"@, "position"@, "scan_depth"@, "token_budget"@,
                    "recursive_scanning"@]
                &&& p.required matches Some(req) && str_views(req@)
                    == seq!["at_least_one_field"@, "keys"@, "content"@, "depth"@, "comment"@,
                        "probability"@]
            },
    {
        let mut properties: Vec<(String, crate::chat::ToolParameter)> = Vec::new();
        properties.push((String::from_str("at_least_one_field"),
            string_param("必须提供至少一个要编辑的字段")));
        properties.push((String::from_str("keys"),
            string_param("关键词, 多个关键词用逗号分隔, 用于触发条目")));
        properties.push((String::from_str("content"),
            string_param("条目内容,尽量简短,避免浪费过多token")));
        properties.push((String::from_str("depth"), string_param("插入深度（数字，通常1-10）")));
        properties.push((String::from_str("comment"), string_param(
            "备注，需要简短，格式为<function(rule/background或者其他的)>[10字/words以内概括]")));
        properties.push((String::from_str("probability"), string_param("触发概率（数字0-100）")));
        properties.push((String::from_str("name"), string_param("条目名称")));
        properties.push((String::from_str("enabled"), string_param("是否启用（true/false）")));
        properties.push((String::from_str("priority"), string_param("优先级（数字）")));
        properties.push((String::from_str("position"),
            string_param("位置（before_char/after_char）")));
        properties.push((String::from_str("scan_depth"), string_param("扫描深度")));
        properties.push((String::from_str("token_budget"), string_param("令牌预算")));
        properties.push((String::from_str("recursive_scanning"),
            string_param("递归扫描（true/false）")));
        let mut required: Vec<String> = Vec::new();
        required.push(String::from_str("at_least_one_field"));
        required.push(String::from_str("keys"));
        required.push(String::from_str("content"));
        required.push(String::from_str("depth"));
        required.push(String::from_str("comment"));
        required.push(String::from_str("probability"));
        proof {
            assert(property_names(properties@) =~= seq!["at_least_one_field"@, "keys"@,
                "content"@, "depth"@, "comment"@, "probability"@, "name"@, "enabled"@,
                "priority"@, "position"@, "scan_depth"@, "token_budget"@,
                "recursive_scanning"@]);
            assert(str_views(required@) =~= seq!["at_least_one_field"@, "keys"@, "content"@,
                "depth"@, "comment"@, "probability"@]);
        }
        crate::chat::ChatTool {
            tool_type: String::from_str("function"),
            function: crate::chat::ToolFunction {
                name: String::from_str("create_world_book_entry"),
                description: Some(String::from_str(
                    "为当前角色创建新的世界书条目。必填参数：keys（关键词，多个关键词用逗号分隔）、content（内容）、depth（插入深度）、comment（备注）、probability（触发概率）。选填参数：name（条目名称）、enabled（是否启用，默认true）、priority（优先级，默认10）、position（位置，默认before_char）以及extension相关参数。")),
                parameters: Some(crate::chat::ToolParameters {
                    param_type: String::from_str("object"),
                    properties,
                    required: Some(required),
                }),
            },
        }
    }
}

/// A plain string-typed schema property.
fn string_param(description: &str) -> (r: crate::chat::ToolParameter)
    ensures
        r.param_type@ == "string"@,
        r.description matches Some(d) && d@ == description@,
        r.enum_values is None,
        r.required is None,
{
    crate::chat::ToolParameter {
        param_type: String::from_str("string"),
        description: Some(description.to_owned()),
        enum_values: None,
        required: None,
    }
}

} // verus!

verus! {

/// The built-in tool a registered name resolves to.
#[derive(Clone, Copy, PartialEq, Eq, Structural, Debug)]
pub enum BuiltinTool {
    EditCharacter,
    CreateWorldBookEntry,
}

/// Resolve an invocation to its built-in executor: exactly the two
/// registered names dispatch; anything else is the unknown-tool path.
pub fn resolve_tool(name: &str) -> (r: Option<BuiltinTool>)
    ensures
        r == Some(BuiltinTool::EditCharacter) <==> name@ == "edit_character"@,
        r == Some(BuiltinTool::CreateWorldBookEntry) <==> name@ == "create_world_book_entry"@,
        r is None <==> (name@ != "edit_character"@ && name@ != "create_world_book_entry"@),
{
    proof {
        assert("edit_character"@.len() == 14) by {
            reveal_strlit("edit_character");
        }
        assert("create_world_book_entry"@.len() == 23) by {
            reveal_strlit("create_world_book_entry");
        }
    }
    if str_eq(name, "edit_character") {
        Some(BuiltinTool::EditCharacter)
    } else if str_eq(name, "create_world_book_entry") {
        Some(BuiltinTool::CreateWorldBookEntry)
    } else {
        None
    }
}

/// Make sure the card carries a world book, starting one with the default
/// settings when none exists yet; an existing book is left alone.
pub fn ensure_book(d: &mut crate::character::TavernCardV2Data)
    ensures
        final(d).character_book is Some,
        match old(d).character_book {
            Some(_) => *final(d) == *old(d),
            None => {
                let book = final(d).character_book.unwrap();
                &&& book.name is None
                &&& book.description is None
                &&& book.scan_depth == Some(2i32)
                &&& book.token_budget == Some(500i32)
                &&& book.recursive_scanning == Some(false)
                &&& book.entries@.len() == 0
                &&& book.extensions@.len() == 0
                &&& final(d).name == old(d).name
                &&& final(d).description == old(d).description
                &&& final(d).personality == old(d).personality
                &&& final(d).scenario == old(d).scenario
                &&& final(d).first_mes == old(d).first_mes
                &&& final(d).mes_example == old(d).mes_example
                &&& final(d).creator_notes == old(d).creator_notes
                &&& final(d).system_prompt == old(d).system_prompt
                &&& final(d).post_history_instructions == old(d).post_history_instructions
                &&& final(d).alternate_greetings == old(d).alternate_greetings
                &&& final(d).tags == old(d).tags
                &&& final(d).creator == old(d).creator
                &&& final(d).character_version == old(d).character_version
                &&& final(d).extensions == old(d).extensions
            },
        },
{
    match &d.character_book {
        Some(_) => {},
        None => {
            d.character_book = Some(default_book());
        },
    }
}

} // verus!
