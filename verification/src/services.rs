//! Thin service façades over the tool registry, and the command-enable
//! filter over a pre-read configuration value.

use vstd::prelude::*;
use vstd::string::*;
use crate::tools::{ToolRegistry, distinct_categories};
use crate::strings::{trimmed, split_by, str_eq, split_all, trim_str};

verus! {

/// What `str::to_lowercase` returns; the result depends on the characters
/// alone.
pub uninterp spec fn lower_of(s: Seq<char>) -> Seq<char>;

/// Relies on `str::to_lowercase` of std: Unicode lowercasing, a pure
/// function of the text; an empty text stays empty.
#[verifier::external_body]
pub fn to_lowercase_str(s: &str) -> (r: String)
    ensures
        r@ == lower_of(s@),
        s@.len() == 0 ==> r@.len() == 0,
{
    s.to_lowercase()
}

/// The disabled-command list denoted by a configuration value: the value
/// split at commas, each piece trimmed and lowercased, empties dropped.
pub open spec fn disabled_list(raw: Seq<char>) -> Seq<Seq<char>> {
    split_by(raw, ","@).map_values(|p: Seq<char>| lower_of(trimmed(p)))
        .filter(|p: Seq<char>| p.len() > 0)
}

/// Parse a disabled-command configuration value.
pub fn parse_disabled_list(raw: &str) -> (r: Vec<String>)
    ensures
        r@.map_values(|s: String| s@) == disabled_list(raw@),
{
    proof {
        reveal_strlit(",");
    }
    let pieces = split_all(raw, ",");
    let ghost views = split_by(raw@, ","@);
    let mut out: Vec<String> = Vec::new();
    let mut i: usize = 0;
    proof {
        reveal_with_fuel(Seq::filter, 2);
        assert(views.take(0) =~= Seq::<Seq<char>>::empty());
        assert(lowered_clean(views.take(0)) =~= Seq::<Seq<char>>::empty());
        assert(out@.map_values(|s: String| s@) =~= Seq::<Seq<char>>::empty());
    }
    while i < pieces.len()
        invariant
            pieces@.map_values(|s: String| s@) == views,
            i <= views.len(),
            out@.map_values(|s: String| s@) == lowered_clean(views.take(i as int)),
        decreases pieces@.len() - i,
    {
        let piece = trim_str(pieces[i].as_str());
        let low = to_lowercase_str(piece.as_str());
        proof {
            assert(pieces@[i as int]@ == views[i as int]);
            assert(views.take(i as int).push(views[i as int]) =~= views.take(i + 1));
            lemma_lowered_clean_push(views.take(i as int), views[i as int]);
        }
        if low.unicode_len() > 0 {
            out.push(low);
            proof {
                assert(out@.map_values(|s: String| s@)
                    =~= lowered_clean(views.take(i + 1)));
            }
        } else {
            proof {
                assert(out@.map_values(|s: String| s@)
                    =~= lowered_clean(views.take(i + 1)));
            }
        }
        i += 1;
    }
    proof {
        assert(views.take(views.len() as int) =~= views);
    }
    out
}

/// The lowered, trimmed, non-empty pieces.
pub open spec fn lowered_clean(pieces: Seq<Seq<char>>) -> Seq<Seq<char>> {
    pieces.map_values(|p: Seq<char>| lower_of(trimmed(p))).filter(|p: Seq<char>| p.len() > 0)
}

proof fn lemma_lowered_clean_push(pieces: Seq<Seq<char>>, x: Seq<char>)
    ensures
        lowered_clean(pieces.push(x)) == if lower_of(trimmed(x)).len() > 0 {
            lowered_clean(pieces).push(lower_of(trimmed(x)))
        } else {
            lowered_clean(pieces)
        },
{
    let f = |p: Seq<char>| lower_of(trimmed(p));
    let pred = |p: Seq<char>| p.len() > 0;
    assert(pieces.push(x).map_values(f) =~= pieces.map_values(f).push(f(x)));
    assert(pieces.map_values(f).push(f(x)) =~= pieces.map_values(f) + seq![f(x)]);
    Seq::filter_distributes_over_add(pieces.map_values(f), seq![f(x)], pred);
    reveal_with_fuel(Seq::filter, 3);
    assert(seq![f(x)].drop_last() =~= Seq::<Seq<char>>::empty());
    if pred(f(x)) {
        assert(seq![f(x)].filter(pred) =~= seq![f(x)]);
        assert(lowered_clean(pieces) + seq![f(x)] =~= lowered_clean(pieces).push(f(x)));
    } else {
        assert(seq![f(x)].filter(pred) =~= Seq::<Seq<char>>::empty());
        assert(lowered_clean(pieces) + Seq::<Seq<char>>::empty() =~= lowered_clean(pieces));
    }
}

/// Whether a command id is enabled under a disabled list: its lowercased
/// form must not appear there.
pub fn is_enabled(disabled: &Vec<String>, id: &str) -> (r: bool)
    ensures
        r == !(exists|i: int| 0 <= i < disabled@.len()
            && (#[trigger] disabled@[i]@) == lower_of(id@)),
{
    let low = to_lowercase_str(id);
    let mut i: usize = 0;
    while i < disabled.len()
        invariant
            i <= disabled@.len(),
            low@ == lower_of(id@),
            forall|j: int| 0 <= j < i ==> (#[trigger] disabled@[j]@) != lower_of(id@),
        decreases disabled@.len() - i,
    {
        if str_eq(disabled[i].as_str(), low.as_str()) {
            proof {
                assert(disabled@[i as int]@ == lower_of(id@));
            }
            return false;
        }
        i += 1;
    }
    true
}

/// Service façade over a tool registry.
pub struct AIToolService;

impl AIToolService {
    /// The distinct categories of the registered tools.
    pub fn get_tool_categories(registry: &ToolRegistry) -> (r: Vec<String>)
        ensures
            r@.map_values(|c: String| c@) == distinct_categories(registry.entries()),
    {
        registry.get_tool_categories()
    }
}

/// Application-layer façade over the same registry.
pub struct ToolService;

impl ToolService {
    /// The distinct categories of the registered tools.
    pub fn get_tool_categories(registry: &ToolRegistry) -> (r: Vec<String>)
        ensures
            r@.map_values(|c: String| c@) == distinct_categories(registry.entries()),
    {
        registry.get_tool_categories()
    }
}

} // verus!
