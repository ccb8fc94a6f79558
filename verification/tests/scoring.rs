use card_copilot::score::{EntryScore, ScoreOrder, compare_scores, score_parts};
use card_copilot::selection::{ScoredItem, select_items};
use card_copilot::worldbook::{WorldBookEntry, score_entry};

fn entry(enabled: bool, priority: Option<u32>, keys: Vec<&str>, content: &str) -> WorldBookEntry {
    WorldBookEntry {
        id: None,
        name: None,
        keys: keys.into_iter().map(|k| k.to_string()).collect(),
        content: content.to_string(),
        extensions: Vec::new(),
        enabled,
        insertion_order: 0,
        case_sensitive: None,
        priority,
        comment: None,
        selective: None,
        secondary_keys: None,
        constant: None,
        position: None,
    }
}

#[test]
fn score_formula_in_tenths() {
    // base 1.0 + enabled 2.0 + priority 4 * 0.5 = 5.0
    let five = score_entry(&entry(true, Some(4), vec![], ""));
    assert_eq!(five.tenths, 50);
    assert_eq!(five.words, 0);
    // base 1.0 + enabled 2.0 = 3.0
    let three = score_entry(&entry(true, Some(0), vec![], ""));
    assert_eq!(three.tenths, 30);
    // base alone = 1.0
    let one = score_entry(&entry(false, None, vec![], ""));
    assert_eq!(one.tenths, 10);
    // keywords add 0.3 each; words carry the logarithmic part
    let keyed = score_entry(&entry(false, None, vec!["a", "b"], "three words here"));
    assert_eq!(keyed.tenths, 16);
    assert_eq!(keyed.words, 3);
}

#[test]
fn scoring_is_idempotent() {
    let e = entry(true, Some(7), vec!["k1", "k2", "k3"], "some content with words");
    let a = score_entry(&e);
    let b = score_entry(&e);
    assert_eq!(a.tenths, b.tenths);
    assert_eq!(a.words, b.words);
}

#[test]
fn comparison_is_exact_on_the_log_term() {
    // 1.0 + 0.2*log10(10^6) = 2.2 equals 2.2 + 0.2*log10(1)
    let a = EntryScore { tenths: 10, words: 1_000_000 };
    let b = EntryScore { tenths: 22, words: 1 };
    assert_eq!(compare_scores(a, b), ScoreOrder::Same);
    let bigger = EntryScore { tenths: 10, words: 1_000_001 };
    assert_eq!(compare_scores(bigger, b), ScoreOrder::Higher);
    let smaller = EntryScore { tenths: 10, words: 999_999 };
    assert_eq!(compare_scores(smaller, b), ScoreOrder::Lower);
    // a zero word count contributes nothing, like a word count of one
    let z = EntryScore { tenths: 30, words: 0 };
    let o = EntryScore { tenths: 30, words: 1 };
    assert_eq!(compare_scores(z, o), ScoreOrder::Same);
}

#[test]
fn score_parts_matches_score_entry() {
    let s = score_parts(true, Some(2), 3, 12);
    assert_eq!(s.tenths, 10 + 20 + 10 + 9);
    assert_eq!(s.words, 12);
}

#[test]
fn truncated_knowledge_selection() {
    // three entries scored 5.0, 3.0 and 1.0, each costing 100 tokens,
    // under a sub-budget of 150: only the best-scored one fits
    let items = vec![
        ScoredItem { score: EntryScore { tenths: 50, words: 0 }, cost: 100, index: 0 },
        ScoredItem { score: EntryScore { tenths: 30, words: 0 }, cost: 100, index: 1 },
        ScoredItem { score: EntryScore { tenths: 10, words: 0 }, cost: 100, index: 2 },
    ];
    let (picked, total) = select_items(&items, 150);
    assert_eq!(picked.len(), 1);
    assert_eq!(picked[0].index, 0);
    assert_eq!(total, 100);
}

#[test]
fn selection_stops_at_first_overflow() {
    // the second-best entry does not fit, and the selection does not skip
    // ahead to the cheaper third entry
    let items = vec![
        ScoredItem { score: EntryScore { tenths: 50, words: 0 }, cost: 100, index: 0 },
        ScoredItem { score: EntryScore { tenths: 30, words: 0 }, cost: 200, index: 1 },
        ScoredItem { score: EntryScore { tenths: 10, words: 0 }, cost: 10, index: 2 },
    ];
    let (picked, total) = select_items(&items, 150);
    assert_eq!(picked.len(), 1);
    assert_eq!(picked[0].index, 0);
    assert_eq!(total, 100);
}

#[test]
fn selection_breaks_ties_by_position() {
    let items = vec![
        ScoredItem { score: EntryScore { tenths: 30, words: 0 }, cost: 10, index: 0 },
        ScoredItem { score: EntryScore { tenths: 30, words: 0 }, cost: 10, index: 1 },
        ScoredItem { score: EntryScore { tenths: 50, words: 0 }, cost: 10, index: 2 },
    ];
    let (picked, total) = select_items(&items, 25);
    assert_eq!(total, 20);
    assert_eq!(picked.len(), 2);
    assert_eq!(picked[0].index, 2);
    assert_eq!(picked[1].index, 0);
}
