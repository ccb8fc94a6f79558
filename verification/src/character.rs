//! Character card model and its rendered block: each non-empty field
//! becomes one line, empty fields are omitted entirely.

use vstd::prelude::*;
use vstd::string::*;
use crate::worldbook::{CharacterBook, ExtValue, quoted_keys};

verus! {

/// Card metadata.
#[derive(Clone, Debug)]
pub struct CharacterMeta {
    pub uuid: String,
    pub version: String,
    pub created_at: String,
    pub updated_at: String,
}

/// The fields of a character card.
#[derive(Clone, Debug)]
pub struct TavernCardV2Data {
    pub name: String,
    pub description: String,
    pub personality: String,
    pub scenario: String,
    pub first_mes: String,
    pub mes_example: String,
    pub creator_notes: String,
    pub system_prompt: String,
    pub post_history_instructions: String,
    pub alternate_greetings: Vec<String>,
    pub tags: Vec<String>,
    pub creator: String,
    pub character_version: String,
    pub extensions: Vec<(String, ExtValue)>,
    pub character_book: Option<CharacterBook>,
}

/// A character card with its envelope.
#[derive(Clone, Debug)]
pub struct TavernCardV2 {
    pub spec: String,
    pub spec_version: String,
    pub data: TavernCardV2Data,
}

/// A stored character: id, metadata, card and background image path.
#[derive(Clone, Debug)]
pub struct CharacterData {
    pub uuid: String,
    pub meta: CharacterMeta,
    pub card: TavernCardV2,
    pub background_path: String,
}

// ---------------------------------------------------------------------------
// Rendered card block
// ---------------------------------------------------------------------------

/// One card line: nothing for an empty value, otherwise
/// `  <label>: "<value>"\n`.
pub open spec fn card_line(label: Seq<char>, v: Seq<char>) -> Seq<char> {
    if v.len() == 0 {
        Seq::empty()
    } else {
        "  "@ + label + ": \""@ + v + "\"\n"@
    }
}

/// The tags line: nothing when there are no tags, otherwise
/// `  tags: ["a", "b"]\n`.
pub open spec fn tags_line(tags: Seq<Seq<char>>) -> Seq<char> {
    if tags.len() == 0 {
        Seq::empty()
    } else {
        "  tags: ["@ + quoted_keys(tags) + "]\n"@
    }
}

/// The first nine field lines of the card block.
pub open spec fn card_basic_lines(d: TavernCardV2Data) -> Seq<char> {
    card_line("name"@, d.name@)
        + card_line("description"@, d.description@)
        + card_line("personality"@, d.personality@)
        + card_line("scenario"@, d.scenario@)
        + card_line("first_mes"@, d.first_mes@)
        + card_line("mes_example"@, d.mes_example@)
        + card_line("creator_notes"@, d.creator_notes@)
        + card_line("system_prompt"@, d.system_prompt@)
        + card_line("post_history_instructions"@, d.post_history_instructions@)
}

/// The rendered character block: non-empty fields in declaration order,
/// then tags, creator and version.
pub open spec fn character_content(d: TavernCardV2Data) -> Seq<char> {
    card_basic_lines(d)
        + tags_line(d.tags@.map_values(|t: String| t@))
        + card_line("creator"@, d.creator@)
        + card_line("character_version"@, d.character_version@)
}

/// Append one card line.
fn append_card_line(out: &mut String, label: &str, v: &str)
    ensures
        final(out)@ == old(out)@ + card_line(label@, v@),
{
    if v.unicode_len() > 0 {
        out.append("  ");
        out.append(label);
        out.append(": \"");
        out.append(v);
        out.append("\"\n");
        proof {
            assert(out@ =~= old(out)@ + card_line(label@, v@));
        }
    }
}

/// Append the tags line.
fn append_tags_line(out: &mut String, tags: &Vec<String>)
    ensures
        final(out)@ == old(out)@ + tags_line(tags@.map_values(|t: String| t@)),
{
    if tags.len() > 0 {
        out.append("  tags: [");
        append_quoted_list(out, tags);
        out.append("]\n");
        proof {
            assert(tags@.map_values(|t: String| t@).len() == tags@.len());
            assert(out@ =~= old(out)@ + tags_line(tags@.map_values(|t: String| t@)));
        }
    } else {
        proof {
            assert(tags@.map_values(|t: String| t@).len() == 0);
        }
    }
}

/// Append the values joined as `"a", "b"`.
fn append_quoted_list(out: &mut String, items: &Vec<String>)
    ensures
        final(out)@ == old(out)@ + quoted_keys(items@.map_values(|k: String| k@)),
{
    let ghost views = items@.map_values(|k: String| k@);
    let mut i: usize = 0;
    proof {
        assert(views.take(0) =~= Seq::<Seq<char>>::empty());
        assert(old(out)@ + quoted_keys(views.take(0)) =~= old(out)@);
    }
    while i < items.len()
        invariant
            views == items@.map_values(|k: String| k@),
            i <= views.len(),
            out@ == old(out)@ + quoted_keys(views.take(i as int)),
        decreases views.len() - i,
    {
        if i > 0 {
            out.append(", ");
        }
        out.append("\"");
        out.append(items[i].as_str());
        out.append("\"");
        proof {
            assert(views.take(i + 1).drop_last() =~= views.take(i as int));
            assert(views.take(i + 1).last() == views[i as int]);
            assert(views[i as int] == items@[i as int]@);
            if i == 0 {
                assert(quoted_keys(views.take(1)) == "\""@ + views[0] + "\""@);
            }
            assert(out@ =~= old(out)@ + quoted_keys(views.take(i + 1)));
        }
        i += 1;
    }
    proof {
        assert(views.take(views.len() as int) =~= views);
    }
}

/// Render the character block of a card.
#[verifier::rlimit(50)]
pub fn build_character_content(d: &TavernCardV2Data) -> (r: String)
    ensures
        r@ == character_content(*d),
{
    let mut out = String::new();
    append_card_line(&mut out, "name", d.name.as_str());
    append_card_line(&mut out, "description", d.description.as_str());
    append_card_line(&mut out, "personality", d.personality.as_str());
    proof {
        assert(out@ =~= card_line("name"@, d.name@) + card_line("description"@, d.description@)
            + card_line("personality"@, d.personality@));
    }
    let ghost c1 = out@;
    append_card_line(&mut out, "scenario", d.scenario.as_str());
    append_card_line(&mut out, "first_mes", d.first_mes.as_str());
    append_card_line(&mut out, "mes_example", d.mes_example.as_str());
    proof {
        assert(out@ =~= c1 + card_line("scenario"@, d.scenario@)
            + card_line("first_mes"@, d.first_mes@)
            + card_line("mes_example"@, d.mes_example@));
    }
    let ghost c2 = out@;
    append_card_line(&mut out, "creator_notes", d.creator_notes.as_str());
    append_card_line(&mut out, "system_prompt", d.system_prompt.as_str());
    append_card_line(&mut out, "post_history_instructions", d.post_history_instructions.as_str());
    proof {
        assert(out@ =~= c2 + card_line("creator_notes"@, d.creator_notes@)
            + card_line("system_prompt"@, d.system_prompt@)
            + card_line("post_history_instructions"@, d.post_history_instructions@));
        assert(out@ =~= card_basic_lines(*d));
    }
    let ghost c3 = out@;
    append_tags_line(&mut out, &d.tags);
    append_card_line(&mut out, "creator", d.creator.as_str());
    append_card_line(&mut out, "character_version", d.character_version.as_str());
    proof {
        assert(out@ =~= c3 + tags_line(d.tags@.map_values(|t: String| t@))
            + card_line("creator"@, d.creator@)
            + card_line("character_version"@, d.character_version@));
        assert(out@ =~= character_content(*d));
    }
    out
}

} // verus!
