//! Budgeted selection of scored items.
//!
//! Items are ordered by descending score, ties broken by ascending original
//! position, and then included greedily while the running token cost stays
//! within the budget; the first item that would exceed it stops the
//! selection. Both the ordering and the greedy walk are defined as spec
//! functions, and the executable sort and walk are proved to produce them.

use vstd::prelude::*;
use crate::score::{EntryScore, ScoreOrder, score_weight, compare_scores};

verus! {

/// One scored candidate: its exact score, its token cost, and its position
/// in the original entry list.
#[derive(Clone, Copy)]
pub struct ScoredItem {
    pub score: EntryScore,
    pub cost: usize,
    pub index: usize,
}

/// Strict ordering: higher score first, earlier original position first
/// among equal scores.
pub open spec fn precedes(a: ScoredItem, b: ScoredItem) -> bool {
    score_weight(a.score) > score_weight(b.score)
    || (score_weight(a.score) == score_weight(b.score) && a.index < b.index)
}

/// Insertion into an ordered sequence, before the first later element.
pub open spec fn sorted_insert(x: ScoredItem, s: Seq<ScoredItem>) -> Seq<ScoredItem>
    decreases s.len(),
{
    if s.len() == 0 {
        seq![x]
    } else if precedes(x, s[0]) {
        seq![x] + s
    } else {
        seq![s[0]] + sorted_insert(x, s.drop_first())
    }
}

/// The ordered form of an item sequence.
pub open spec fn sort_items(s: Seq<ScoredItem>) -> Seq<ScoredItem>
    decreases s.len(),
{
    if s.len() == 0 {
        Seq::empty()
    } else {
        sorted_insert(s.last(), sort_items(s.drop_last()))
    }
}

/// The greedy walk: include items in order while the running cost stays
/// within the budget; stop at the first item that would exceed it.
pub open spec fn greedy_take(s: Seq<ScoredItem>, budget: int, used: int) -> Seq<ScoredItem>
    decreases s.len(),
{
    if s.len() == 0 {
        Seq::empty()
    } else if used + s[0].cost <= budget {
        seq![s[0]] + greedy_take(s.drop_first(), budget, used + s[0].cost)
    } else {
        Seq::empty()
    }
}

/// Sum of the costs of a sequence of items.
pub open spec fn costs_sum(s: Seq<ScoredItem>) -> int
    decreases s.len(),
{
    if s.len() == 0 {
        0
    } else {
        s[0].cost + costs_sum(s.drop_first())
    }
}

/// What the selection of `items` under `budget` is.
pub open spec fn selection_of(items: Seq<ScoredItem>, budget: int) -> Seq<ScoredItem> {
    greedy_take(sort_items(items), budget, 0)
}

// ---------------------------------------------------------------------------
// Lemmas
// ---------------------------------------------------------------------------

/// Every element of an insertion result is the inserted element or one of
/// the original elements.
pub proof fn lemma_sorted_insert_elems(x: ScoredItem, s: Seq<ScoredItem>, y: ScoredItem)
    ensures
        sorted_insert(x, s).contains(y) <==> (y == x || s.contains(y)),
    decreases s.len(),
{
    if s.len() == 0 {
        assert(sorted_insert(x, s) == seq![x]);
        if y == x {
            assert(seq![x][0] == y);
            assert(seq![x].contains(y));
        }
        if seq![x].contains(y) {
            let i = choose|i: int| 0 <= i < seq![x].len() && seq![x][i] == y;
            assert(y == x);
        }
    } else if precedes(x, s[0]) {
        let r = seq![x] + s;
        assert(sorted_insert(x, s) == r);
        if y == x {
            assert(r[0] == y);
            assert(r.contains(y));
        }
        if s.contains(y) {
            let i = choose|i: int| 0 <= i < s.len() && s[i] == y;
            assert(r[i + 1] == y);
            assert(r.contains(y));
        }
        if r.contains(y) {
            let i = choose|i: int| 0 <= i < r.len() && r[i] == y;
            if i > 0 {
                assert(s[i - 1] == y);
            }
        }
    } else {
        lemma_sorted_insert_elems(x, s.drop_first(), y);
        let inner = sorted_insert(x, s.drop_first());
        let r = seq![s[0]] + inner;
        assert(sorted_insert(x, s) == r);
        assert(r.contains(y) <==> (y == s[0] || inner.contains(y))) by {
            if y == s[0] {
                assert(r[0] == y);
            }
            if inner.contains(y) {
                let i = choose|i: int| 0 <= i < inner.len() && inner[i] == y;
                assert(r[i + 1] == y);
            }
            if r.contains(y) {
                let i = choose|i: int| 0 <= i < r.len() && r[i] == y;
                if i > 0 {
                    assert(inner[i - 1] == y);
                }
            }
        }
        assert(s.contains(y) <==> (y == s[0] || s.drop_first().contains(y))) by {
            if s.contains(y) {
                let i = choose|i: int| 0 <= i < s.len() && s[i] == y;
                if i > 0 {
                    assert(s.drop_first()[i - 1] == y);
                }
            }
            if y == s[0] {
                assert(s.contains(y));
            }
            if s.drop_first().contains(y) {
                let i = choose|i: int| 0 <= i < s.drop_first().len() && s.drop_first()[i] == y;
                assert(s[i + 1] == y);
            }
        }
    }
}

/// Every element of the ordered form is one of the original elements.
pub proof fn lemma_sort_elems(s: Seq<ScoredItem>, y: ScoredItem)
    ensures
        sort_items(s).contains(y) ==> s.contains(y),
    decreases s.len(),
{
    if s.len() > 0 {
        lemma_sort_elems(s.drop_last(), y);
        lemma_sorted_insert_elems(s.last(), sort_items(s.drop_last()), y);
        if sort_items(s).contains(y) {
            if y == s.last() {
                assert(s[s.len() - 1] == y);
            } else {
                assert(s.drop_last().contains(y));
                let i = choose|i: int| 0 <= i < s.drop_last().len() && s.drop_last()[i] == y;
                assert(s[i] == y);
            }
        }
    }
}

/// Every selected item is one of the walked items.
pub proof fn lemma_greedy_elems(s: Seq<ScoredItem>, budget: int, used: int, y: ScoredItem)
    ensures
        greedy_take(s, budget, used).contains(y) ==> s.contains(y),
    decreases s.len(),
{
    if s.len() > 0 && used + s[0].cost <= budget {
        lemma_greedy_elems(s.drop_first(), budget, used + s[0].cost, y);
        if greedy_take(s, budget, used).contains(y) {
            if y != s[0] {
                assert(greedy_take(s.drop_first(), budget, used + s[0].cost).contains(y));
                assert(s.drop_first().contains(y));
                let i = choose|i: int| 0 <= i < s.drop_first().len() && s.drop_first()[i] == y;
                assert(s[i + 1] == y);
            } else {
                assert(s[0] == y);
            }
        }
    }
}

/// The budget is conserved: the selected items' costs stay within what was
/// left of the budget.
pub proof fn lemma_greedy_budget(s: Seq<ScoredItem>, budget: int, used: int)
    requires
        used <= budget,
    ensures
        used + costs_sum(greedy_take(s, budget, used)) <= budget,
        costs_sum(greedy_take(s, budget, used)) >= 0,
    decreases s.len(),
{
    if s.len() > 0 && used + s[0].cost <= budget {
        lemma_greedy_budget(s.drop_first(), budget, used + s[0].cost);
        let g = greedy_take(s, budget, used);
        assert(g == seq![s[0]] + greedy_take(s.drop_first(), budget, used + s[0].cost));
        assert(g.drop_first() =~= greedy_take(s.drop_first(), budget, used + s[0].cost));
    }
}

/// Budget conservation for the knowledge segment: the selected items'
/// total cost never exceeds the sub-budget.
pub proof fn lemma_selection_within_budget(items: Seq<ScoredItem>, budget: int)
    requires
        budget >= 0,
    ensures
        0 <= costs_sum(selection_of(items, budget)) <= budget,
{
    lemma_greedy_budget(sort_items(items), budget, 0);
}

proof fn lemma_sorted_insert_at(x: ScoredItem, s: Seq<ScoredItem>, p: int)
    requires
        0 <= p <= s.len(),
        forall|k: int| 0 <= k < p ==> !precedes(x, #[trigger] s[k]),
        p < s.len() ==> precedes(x, s[p]),
    ensures
        sorted_insert(x, s) == s.take(p) + seq![x] + s.skip(p),
    decreases p,
{
    if p == 0 {
        if s.len() == 0 {
            assert(sorted_insert(x, s) == seq![x]);
            assert(s.take(0) + seq![x] + s.skip(0) =~= seq![x]);
        } else {
            assert(precedes(x, s[0]));
            assert(s.take(0) + seq![x] + s.skip(0) =~= seq![x] + s);
        }
    } else {
        assert(!precedes(x, s[0]));
        assert forall|k: int| 0 <= k < p - 1 implies !precedes(x, #[trigger] s.drop_first()[k]) by {
            assert(s.drop_first()[k] == s[k + 1]);
        }
        if p - 1 < s.drop_first().len() {
            assert(s.drop_first()[p - 1] == s[p]);
        }
        lemma_sorted_insert_at(x, s.drop_first(), p - 1);
        assert(seq![s[0]] + (s.drop_first().take(p - 1) + seq![x] + s.drop_first().skip(p - 1))
            =~= s.take(p) + seq![x] + s.skip(p));
    }
}

// ---------------------------------------------------------------------------
// Executable sort and selection
// ---------------------------------------------------------------------------

/// Whether `a` comes before `b` in the selection order.
pub fn precedes_exec(a: &ScoredItem, b: &ScoredItem) -> (r: bool)
    ensures
        r == precedes(*a, *b),
{
    match compare_scores(a.score, b.score) {
        ScoreOrder::Higher => true,
        ScoreOrder::Same => a.index < b.index,
        ScoreOrder::Lower => false,
    }
}

/// Sort items by descending score, ties by original position.
pub fn sort_scored(items: &Vec<ScoredItem>) -> (r: Vec<ScoredItem>)
    ensures
        r@ == sort_items(items@),
{
    let mut out: Vec<ScoredItem> = Vec::new();
    let mut i: usize = 0;
    proof {
        assert(items@.take(0) =~= Seq::<ScoredItem>::empty());
    }
    while i < items.len()
        invariant
            i <= items@.len(),
            out@ == sort_items(items@.take(i as int)),
        decreases items@.len() - i,
    {
        let x = items[i];
        let mut p: usize = 0;
        while p < out.len() && !precedes_exec(&x, &out[p])
            invariant
                p <= out@.len(),
                forall|k: int| 0 <= k < p ==> !precedes(x, #[trigger] out@[k]),
            decreases out@.len() - p,
        {
            p += 1;
        }
        proof {
            lemma_sorted_insert_at(x, out@, p as int);
        }
        out.insert(p, x);
        proof {
            let t = items@.take(i + 1);
            assert(t.drop_last() =~= items@.take(i as int));
            assert(t.last() == items@[i as int]);
            assert(out@ =~= sort_items(items@.take(i + 1)));
        }
        i += 1;
    }
    proof {
        assert(items@.take(items@.len() as int) =~= items@);
    }
    out
}

/// Select items under a budget: sort, then include greedily until the first
/// item that would exceed the budget. Returns the selected items in
/// selection order together with their total cost.
pub fn select_items(items: &Vec<ScoredItem>, budget: usize) -> (r: (Vec<ScoredItem>, usize))
    ensures
        r.0@ == selection_of(items@, budget as int),
        r.1 == costs_sum(r.0@),
        r.1 <= budget,
{
    let sorted = sort_scored(items);
    let ghost whole = greedy_take(sorted@, budget as int, 0);
    let mut picked: Vec<ScoredItem> = Vec::new();
    let mut used: usize = 0;
    let mut i: usize = 0;
    proof {
        assert(sorted@.skip(0) =~= sorted@);
        assert(picked@ + whole =~= whole);
        assert(costs_sum(picked@) == 0);
    }
    while i < sorted.len()
        invariant
            i <= sorted@.len(),
            used <= budget,
            used == costs_sum(picked@),
            sorted@ == sort_items(items@),
            whole == greedy_take(sorted@, budget as int, 0),
            whole == picked@ + greedy_take(sorted@.skip(i as int), budget as int, used as int),
        decreases sorted@.len() - i,
    {
        let item = sorted[i];
        proof {
            assert(sorted@.skip(i as int)[0] == sorted@[i as int]);
        }
        if item.cost <= budget - used {
            let ghost pre = picked@;
            picked.push(item);
            proof {
                assert(sorted@.skip(i as int).drop_first() =~= sorted@.skip(i + 1));
                assert(greedy_take(sorted@.skip(i as int), budget as int, used as int)
                    == seq![item] + greedy_take(sorted@.skip(i + 1), budget as int,
                        used + item.cost));
                assert(picked@ + greedy_take(sorted@.skip(i + 1), budget as int,
                    used + item.cost) =~= whole);
                lemma_costs_sum_push(pre, item);
            }
            used = used + item.cost;
            i += 1;
        } else {
            proof {
                assert(used + sorted@[i as int].cost > budget);
                assert(sorted@.skip(i as int).len() > 0);
                assert(greedy_take(sorted@.skip(i as int), budget as int, used as int)
                    =~= Seq::<ScoredItem>::empty());
                assert(picked@ + Seq::<ScoredItem>::empty() =~= picked@);
                assert(whole == picked@);
            }
            return (picked, used);
        }
    }
    proof {
        assert(sorted@.skip(sorted@.len() as int) =~= Seq::<ScoredItem>::empty());
        assert(picked@ + Seq::<ScoredItem>::empty() =~= picked@);
    }
    (picked, used)
}

proof fn lemma_costs_sum_push(s: Seq<ScoredItem>, x: ScoredItem)
    ensures
        costs_sum(s.push(x)) == costs_sum(s) + x.cost,
    decreases s.len(),
{
    if s.len() == 0 {
        assert(s.push(x)[0] == x);
        assert(s.push(x).drop_first() =~= Seq::<ScoredItem>::empty());
        assert(costs_sum(s.push(x).drop_first()) == 0);
        assert(costs_sum(s) == 0);
    } else {
        assert(s.push(x)[0] == s[0]);
        assert(s.push(x).drop_first() =~= s.drop_first().push(x));
        lemma_costs_sum_push(s.drop_first(), x);
        assert(costs_sum(s.push(x))
            == s[0].cost + costs_sum(s.drop_first().push(x)));
        assert(costs_sum(s) == s[0].cost + costs_sum(s.drop_first()));
    }
}

} // verus!
