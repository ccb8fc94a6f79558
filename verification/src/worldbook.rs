//! World book (knowledge base): entry model, the exact serialized form of
//! an entry, scoring, and the budgeted rendering that includes entries
//! whole, best score first, until the sub-budget is reached.

use vstd::prelude::*;
use vstd::string::*;
use crate::strings::{dec_str, int_str, append_u64, append_i64, word_count, count_words};
use crate::score::{EntryScore, spec_score_tenths, score_parts};
use crate::selection::{
    ScoredItem, selection_of, costs_sum, select_items, lemma_greedy_elems, lemma_sort_elems,
};
use crate::tokens::{TokenCounter, cl100k_tokens};

verus! {

/// A free-form extension value: what the entry's extension map can hold.
#[derive(Clone, Debug)]
pub enum ExtValue {
    Null,
    Truth(bool),
    Number(i64),
    Text(String),
}

/// One knowledge entry of a world book.
#[derive(Clone, Debug)]
pub struct WorldBookEntry {
    pub id: Option<u64>,
    pub name: Option<String>,
    pub keys: Vec<String>,
    pub content: String,
    pub extensions: Vec<(String, ExtValue)>,
    pub enabled: bool,
    pub insertion_order: u64,
    pub case_sensitive: Option<bool>,
    pub priority: Option<u32>,
    pub comment: Option<String>,
    pub selective: Option<bool>,
    pub secondary_keys: Option<Vec<String>>,
    pub constant: Option<bool>,
    pub position: Option<String>,
}

/// A character's world book.
#[derive(Clone, Debug)]
pub struct CharacterBook {
    pub name: Option<String>,
    pub description: Option<String>,
    pub scan_depth: Option<i32>,
    pub token_budget: Option<i32>,
    pub recursive_scanning: Option<bool>,
    pub extensions: Vec<(String, ExtValue)>,
    pub entries: Vec<WorldBookEntry>,
}

// ---------------------------------------------------------------------------
// Serialized form of one entry
// ---------------------------------------------------------------------------

/// `"true"` or `"false"`.
pub open spec fn bool_str(b: bool) -> Seq<char> {
    if b { "true"@ } else { "false"@ }
}

/// The keys joined as `"a", "b"`.
pub open spec fn quoted_keys(keys: Seq<Seq<char>>) -> Seq<char>
    decreases keys.len(),
{
    if keys.len() == 0 {
        Seq::empty()
    } else if keys.len() == 1 {
        "\""@ + keys[0] + "\""@
    } else {
        quoted_keys(keys.drop_last()) + ", "@ + "\""@ + keys.last() + "\""@
    }
}

/// The id line, when an id is present.
pub open spec fn id_line(e: WorldBookEntry) -> Seq<char> {
    match e.id {
        Some(id) => "      id: "@ + dec_str(id as nat) + ",\n"@,
        None => Seq::empty(),
    }
}

/// The name line, when a name is present.
pub open spec fn name_line(e: WorldBookEntry) -> Seq<char> {
    match e.name {
        Some(n) => "      name: \""@ + n@ + "\",\n"@,
        None => Seq::empty(),
    }
}

/// The keys line.
pub open spec fn keys_line(e: WorldBookEntry) -> Seq<char> {
    "      keys: ["@ + quoted_keys(e.keys@.map_values(|k: String| k@)) + "],\n"@
}

/// The content line.
pub open spec fn content_line(e: WorldBookEntry) -> Seq<char> {
    "      content: \""@ + e.content@ + "\",\n"@
}

/// The enabled line.
pub open spec fn enabled_line(e: WorldBookEntry) -> Seq<char> {
    "      enabled: "@ + bool_str(e.enabled) + ",\n"@
}

/// The priority line, when a priority is present.
pub open spec fn priority_line(e: WorldBookEntry) -> Seq<char> {
    match e.priority {
        Some(p) => "      priority: "@ + dec_str(p as nat) + ",\n"@,
        None => Seq::empty(),
    }
}

/// The complete serialized block of one entry. An entry appears in the
/// rendered world book either as this whole block or not at all.
pub open spec fn entry_block(e: WorldBookEntry) -> Seq<char> {
    "    - {\n"@ + id_line(e) + name_line(e) + keys_line(e) + content_line(e)
        + enabled_line(e) + priority_line(e) + "    }\n"@
}

/// Append `"true"` or `"false"`.
pub fn append_bool(out: &mut String, b: bool)
    ensures
        final(out)@ == old(out)@ + bool_str(b),
{
    if b {
        out.append("true");
    } else {
        out.append("false");
    }
}

/// Append the serialized block of one entry.
#[verifier::rlimit(100)]
pub fn append_entry_block(out: &mut String, e: &WorldBookEntry)
    ensures
        final(out)@ == old(out)@ + entry_block(*e),
{
    out.append("    - {\n");
    match &e.id {
        Some(id) => {
            out.append("      id: ");
            append_u64(out, *id);
            out.append(",\n");
        },
        None => {},
    }
    proof {
        assert(out@ =~= old(out)@ + "    - {\n"@ + id_line(*e));
    }
    let ghost c1 = out@;
    match &e.name {
        Some(n) => {
            out.append("      name: \"");
            out.append(n.as_str());
            out.append("\",\n");
        },
        None => {},
    }
    proof {
        assert(out@ =~= c1 + name_line(*e));
    }
    let ghost c2 = out@;
    out.append("      keys: [");
    append_quoted_keys(out, &e.keys);
    out.append("],\n");
    proof {
        assert(out@ =~= c2 + keys_line(*e));
    }
    let ghost c3 = out@;
    out.append("      content: \"");
    out.append(e.content.as_str());
    out.append("\",\n");
    proof {
        assert(out@ =~= c3 + content_line(*e));
    }
    let ghost c4 = out@;
    out.append("      enabled: ");
    append_bool(out, e.enabled);
    out.append(",\n");
    proof {
        assert(out@ =~= c4 + enabled_line(*e));
    }
    let ghost c5 = out@;
    match &e.priority {
        Some(p) => {
            out.append("      priority: ");
            append_u64(out, *p as u64);
            out.append(",\n");
        },
        None => {},
    }
    proof {
        assert(out@ =~= c5 + priority_line(*e));
    }
    out.append("    }\n");
    proof {
        assert(out@ =~= old(out)@ + entry_block(*e));
    }
}

/// Append the keys joined as `"a", "b"`.
fn append_quoted_keys(out: &mut String, keys: &Vec<String>)
    ensures
        final(out)@ == old(out)@ + quoted_keys(keys@.map_values(|k: String| k@)),
{
    let ghost views = keys@.map_values(|k: String| k@);
    let mut i: usize = 0;
    proof {
        assert(views.take(0) =~= Seq::<Seq<char>>::empty());
        assert(old(out)@ + quoted_keys(views.take(0)) =~= old(out)@);
    }
    while i < keys.len()
        invariant
            views == keys@.map_values(|k: String| k@),
            i <= views.len(),
            out@ == old(out)@ + quoted_keys(views.take(i as int)),
        decreases views.len() - i,
    {
        if i > 0 {
            out.append(", ");
        }
        out.append("\"");
        out.append(keys[i].as_str());
        out.append("\"");
        proof {
            assert(views.take(i + 1).drop_last() =~= views.take(i as int));
            assert(views.take(i + 1).last() == views[i as int]);
            assert(views[i as int] == keys@[i as int]@);
            if i == 0 {
                assert(quoted_keys(views.take(1)) == "\""@ + views[0] + "\""@);
            }
            assert(out@ =~= old(out)@ + quoted_keys(views.take(i + 1)));
        }
        i += 1;
    }
    proof {
        assert(views.take(views.len() as int) =~= views);
    }
}

// ---------------------------------------------------------------------------
// Scoring and selection over a book
// ---------------------------------------------------------------------------

/// Score one entry: base, enabled, priority and keyword parts in tenths,
/// plus the word count that carries the logarithmic part. Pure: scoring an
/// unmodified entry twice gives the same score.
pub fn score_entry(e: &WorldBookEntry) -> (r: EntryScore)
    ensures
        r.tenths == spec_score_tenths(e.enabled, e.priority, e.keys@.len()),
        r.words == word_count(e.content@),
{
    let words = count_words(e.content.as_str());
    score_parts(e.enabled, e.priority, e.keys.len(), words)
}

/// The scored, costed item standing for the entry at position `i`.
pub open spec fn spec_entry_item(e: WorldBookEntry, i: int) -> ScoredItem {
    ScoredItem {
        score: EntryScore {
            tenths: spec_score_tenths(e.enabled, e.priority, e.keys@.len()) as u128,
            words: word_count(e.content@) as u64,
        },
        cost: cl100k_tokens(entry_block(e)).len() as usize,
        index: i as usize,
    }
}

/// All entries of a book as scored items.
pub open spec fn book_items(entries: Seq<WorldBookEntry>) -> Seq<ScoredItem> {
    Seq::new(entries.len(), |i: int| spec_entry_item(entries[i], i))
}

/// The blocks of the selected entries, in selection order.
pub open spec fn picked_blocks(entries: Seq<WorldBookEntry>, picked: Seq<ScoredItem>) -> Seq<char>
    decreases picked.len(),
{
    if picked.len() == 0 {
        Seq::empty()
    } else {
        picked_blocks(entries, picked.drop_last()) + entry_block(entries[picked.last().index as int])
    }
}

// ---------------------------------------------------------------------------
// Rendering the whole book
// ---------------------------------------------------------------------------

/// The book's header: its own fields, the entry count, and the list head.
pub open spec fn book_header(b: CharacterBook) -> Seq<char> {
    book_header_meta(b)
        + "  total_entries: "@ + dec_str(b.entries@.len()) + "\n"@
        + "  entries:\n"@
}

/// The optional descriptive fields of the book's header.
pub open spec fn book_header_meta(b: CharacterBook) -> Seq<char> {
    book_header_names(b) + book_header_scan(b)
}

/// The book's name line, when present.
pub open spec fn book_name_line(b: CharacterBook) -> Seq<char> {
    match b.name {
        Some(n) => "  name: \""@ + n@ + "\"\n"@,
        None => Seq::empty(),
    }
}

/// The book's description line, when present.
pub open spec fn book_desc_line(b: CharacterBook) -> Seq<char> {
    match b.description {
        Some(d) => "  description: \""@ + d@ + "\"\n"@,
        None => Seq::empty(),
    }
}

/// The scan-depth line, when present.
pub open spec fn book_scan_line(b: CharacterBook) -> Seq<char> {
    match b.scan_depth {
        Some(v) => "  scan_depth: "@ + int_str(v as int) + "\n"@,
        None => Seq::empty(),
    }
}

/// The token-budget line, when present.
pub open spec fn book_budget_line(b: CharacterBook) -> Seq<char> {
    match b.token_budget {
        Some(v) => "  token_budget: "@ + int_str(v as int) + "\n"@,
        None => Seq::empty(),
    }
}

/// The recursive-scanning line, when present.
pub open spec fn book_recur_line(b: CharacterBook) -> Seq<char> {
    match b.recursive_scanning {
        Some(v) => "  recursive_scanning: "@ + bool_str(v) + "\n"@,
        None => Seq::empty(),
    }
}

/// Name and description lines of the header.
pub open spec fn book_header_names(b: CharacterBook) -> Seq<char> {
    book_name_line(b) + book_desc_line(b)
}

/// Scan, budget and recursion lines of the header.
pub open spec fn book_header_scan(b: CharacterBook) -> Seq<char> {
    book_scan_line(b) + book_budget_line(b) + book_recur_line(b)
}

/// The rendered world book under a knowledge sub-budget: the header, then
/// the selected entries' complete blocks in selection order.
pub open spec fn worldbook_content(b: CharacterBook, budget: int) -> Seq<char> {
    book_header(b) + picked_blocks(b.entries@, selection_of(book_items(b.entries@), budget))
}

/// Render the world book under the knowledge sub-budget. Returns the
/// rendered text and the total token cost of the included entries, which
/// never exceeds the sub-budget.
pub fn build_worldbook_content(counter: &TokenCounter, book: &CharacterBook, budget: usize)
    -> (r: (String, usize))
    ensures
        r.0@ == worldbook_content(*book, budget as int),
        r.1 == costs_sum(selection_of(book_items(book.entries@), budget as int)),
        r.1 <= budget,
{
    let ghost entries = book.entries@;
    // score and cost every entry
    let mut blocks: Vec<String> = Vec::new();
    let mut items: Vec<ScoredItem> = Vec::new();
    let mut i: usize = 0;
    while i < book.entries.len()
        invariant
            entries == book.entries@,
            i <= entries.len(),
            blocks@.len() == i,
            items@.len() == i,
            forall|j: int| 0 <= j < i ==> #[trigger] blocks@[j]@ == entry_block(entries[j]),
            forall|j: int| 0 <= j < i ==> #[trigger] items@[j] == spec_entry_item(entries[j], j),
        decreases entries.len() - i,
    {
        let e = &book.entries[i];
        let score = score_entry(e);
        let mut block = String::new();
        append_entry_block(&mut block, e);
        let cost = counter.count(block.as_str());
        items.push(ScoredItem { score, cost, index: i });
        blocks.push(block);
        i += 1;
    }
    proof {
        assert(items@ =~= book_items(entries));
    }
    // pick the best-scored entries that fit the sub-budget
    let (picked, total) = select_items(&items, budget);
    let ghost chosen = selection_of(book_items(entries), budget as int);
    proof {
        assert forall|j: int| 0 <= j < picked@.len() implies
            0 <= #[trigger] picked@[j].index < entries.len()
                && blocks@[picked@[j].index as int]@ == entry_block(
                entries[picked@[j].index as int]) by {
            let y = picked@[j];
            assert(picked@.contains(y));
            lemma_greedy_elems(crate::selection::sort_items(items@), budget as int, 0, y);
            lemma_sort_elems(items@, y);
            let k = choose|k: int| 0 <= k < items@.len() && items@[k] == y;
            assert(items@[k] == spec_entry_item(entries[k], k));
            assert(y.index == k);
        }
    }
    // render: header, then the chosen blocks in order
    let mut out = String::new();
    append_book_header(&mut out, book);
    let ghost head = out@;
    let mut j: usize = 0;
    proof {
        assert(chosen.take(0) =~= Seq::<ScoredItem>::empty());
        assert(head + picked_blocks(entries, chosen.take(0)) =~= head);
    }
    while j < picked.len()
        invariant
            entries == book.entries@,
            chosen == picked@,
            j <= picked@.len(),
            forall|t: int| 0 <= t < picked@.len() ==>
                0 <= #[trigger] picked@[t].index < entries.len()
                    && blocks@[picked@[t].index as int]@ == entry_block(
                    entries[picked@[t].index as int]),
            blocks@.len() == entries.len(),
            out@ == head + picked_blocks(entries, chosen.take(j as int)),
        decreases picked@.len() - j,
    {
        let idx = picked[j].index;
        out.append(blocks[idx].as_str());
        proof {
            assert(chosen.take(j + 1).drop_last() =~= chosen.take(j as int));
            assert(chosen.take(j + 1).last() == chosen[j as int]);
            assert(out@ =~= head + picked_blocks(entries, chosen.take(j + 1)));
        }
        j += 1;
    }
    proof {
        assert(chosen.take(chosen.len() as int) =~= chosen);
        assert(out@ =~= worldbook_content(*book, budget as int));
    }
    (out, total)
}

/// Append the book's header.
fn append_book_header(out: &mut String, b: &CharacterBook)
    ensures
        final(out)@ == old(out)@ + book_header(*b),
{
    append_book_meta(out, b);
    let ghost c = out@;
    out.append("  total_entries: ");
    let n = b.entries.len();
    append_u64(out, n as u64);
    out.append("\n");
    out.append("  entries:\n");
    proof {
        assert(out@ =~= c + "  total_entries: "@ + dec_str(b.entries@.len()) + "\n"@
            + "  entries:\n"@);
        assert(out@ =~= old(out)@ + book_header(*b));
    }
}

/// Append the book's name line.
fn append_book_name_line(out: &mut String, b: &CharacterBook)
    ensures
        final(out)@ == old(out)@ + book_name_line(*b),
{
    match &b.name {
        Some(n) => {
            out.append("  name: \"");
            out.append(n.as_str());
            out.append("\"\n");
            proof {
                assert(out@ =~= old(out)@ + book_name_line(*b));
            }
        },
        None => {},
    }
}

/// Append the book's description line.
fn append_book_desc_line(out: &mut String, b: &CharacterBook)
    ensures
        final(out)@ == old(out)@ + book_desc_line(*b),
{
    match &b.description {
        Some(d) => {
            out.append("  description: \"");
            out.append(d.as_str());
            out.append("\"\n");
            proof {
                assert(out@ =~= old(out)@ + book_desc_line(*b));
            }
        },
        None => {},
    }
}

/// Append the scan-depth line.
fn append_book_scan_line(out: &mut String, b: &CharacterBook)
    ensures
        final(out)@ == old(out)@ + book_scan_line(*b),
{
    match &b.scan_depth {
        Some(v) => {
            out.append("  scan_depth: ");
            append_i64(out, *v as i64);
            out.append("\n");
            proof {
                assert(out@ =~= old(out)@ + book_scan_line(*b));
            }
        },
        None => {},
    }
}

/// Append the token-budget line.
fn append_book_budget_line(out: &mut String, b: &CharacterBook)
    ensures
        final(out)@ == old(out)@ + book_budget_line(*b),
{
    match &b.token_budget {
        Some(v) => {
            out.append("  token_budget: ");
            append_i64(out, *v as i64);
            out.append("\n");
            proof {
                assert(out@ =~= old(out)@ + book_budget_line(*b));
            }
        },
        None => {},
    }
}

/// Append the recursive-scanning line.
fn append_book_recur_line(out: &mut String, b: &CharacterBook)
    ensures
        final(out)@ == old(out)@ + book_recur_line(*b),
{
    match &b.recursive_scanning {
        Some(v) => {
            out.append("  recursive_scanning: ");
            append_bool(out, *v);
            out.append("\n");
            proof {
                assert(out@ =~= old(out)@ + book_recur_line(*b));
            }
        },
        None => {},
    }
}

/// Append the book's own descriptive lines.
fn append_book_meta(out: &mut String, b: &CharacterBook)
    ensures
        final(out)@ == old(out)@ + book_header_meta(*b),
{
    append_book_name_line(out, b);
    append_book_desc_line(out, b);
    proof {
        assert(out@ =~= old(out)@ + book_header_names(*b));
    }
    let ghost c = out@;
    append_book_scan_line(out, b);
    append_book_budget_line(out, b);
    append_book_recur_line(out, b);
    proof {
        assert(out@ =~= c + book_header_scan(*b));
        assert(out@ =~= old(out)@ + book_header_meta(*b));
    }
}

} // verus!
