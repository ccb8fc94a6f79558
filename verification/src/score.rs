//! Knowledge-entry scoring.
//!
//! The inclusion score of a world-book entry is, in tenths of a point:
//! 10 (base) + 20 if enabled + 5 per priority point + 3 per trigger keyword,
//! plus two tenths per decimal order of magnitude of the content's word
//! count (that is, `0.2 * log10(words)` points). The logarithmic term is
//! irrational, so a score is kept as the exact pair `(tenths, words)` and
//! two scores are compared exactly: the score `(t, w)` is larger than
//! `(t', w')` if and only if `10^t * w^2 > 10^t' * w'^2`, because
//! `t + 2*log10(w) > t' + 2*log10(w')` holds exactly when it does.

use vstd::prelude::*;
use vstd::arithmetic::power::{
    pow, lemma_pow_adds, lemma_pow_positive, lemma_pow0, lemma_pow1,
};
use vstd::arithmetic::div_mod::lemma_fundamental_div_mod;

verus! {

/// An entry's exact score: the rational part in tenths of a point and the
/// word count that carries the logarithmic part.
#[derive(Clone, Copy, PartialEq, Eq, Structural, Debug)]
pub struct EntryScore {
    pub tenths: u128,
    pub words: u64,
}

/// A word count of zero contributes nothing, like a word count of one.
pub open spec fn eff_words(w: nat) -> nat {
    if w == 0 { 1 } else { w }
}

/// The integer weight whose ordering is exactly the ordering of the real
/// score values `tenths/10 + 0.2*log10(words)`.
pub open spec fn score_weight(sc: EntryScore) -> int {
    pow(10, sc.tenths as nat) * (eff_words(sc.words as nat) * eff_words(sc.words as nat))
}

/// The rational part of the score, in tenths.
pub open spec fn spec_score_tenths(enabled: bool, priority: Option<u32>, key_count: nat) -> nat {
    10 + (if enabled { 20nat } else { 0nat })
        + 5 * (match priority { Some(p) => p as nat, None => 0nat })
        + 3 * key_count
}

/// Compute the score of an entry from its parts. Pure: the result is a
/// function of the arguments alone.
pub fn score_parts(enabled: bool, priority: Option<u32>, key_count: usize, words: usize)
    -> (r: EntryScore)
    ensures
        r.tenths == spec_score_tenths(enabled, priority, key_count as nat),
        r.words == words,
{
    let base: u128 = if enabled { 30 } else { 10 };
    let prio: u128 = match priority {
        Some(p) => 5 * (p as u128),
        None => 0,
    };
    let keys: u128 = 3 * (key_count as u128);
    EntryScore { tenths: base + prio + keys, words: words as u64 }
}

/// Result of an exact score comparison.
#[derive(Clone, Copy, PartialEq, Eq, Structural, Debug)]
pub enum ScoreOrder {
    Lower,
    Same,
    Higher,
}

/// Exact comparison of two scores: compares `10^t * w^2` values without
/// overflow by factoring out the common power of ten.
pub fn compare_scores(a: EntryScore, b: EntryScore) -> (r: ScoreOrder)
    ensures
        r == ScoreOrder::Higher <==> score_weight(a) > score_weight(b),
        r == ScoreOrder::Same <==> score_weight(a) == score_weight(b),
        r == ScoreOrder::Lower <==> score_weight(a) < score_weight(b),
{
    if a.tenths >= b.tenths {
        let o = half_compare(a.tenths - b.tenths, a.words, b.words);
        proof {
            lemma_weight_factor(a, b);
        }
        o
    } else {
        let o = half_compare(b.tenths - a.tenths, b.words, a.words);
        proof {
            lemma_weight_factor(b, a);
        }
        match o {
            ScoreOrder::Higher => ScoreOrder::Lower,
            ScoreOrder::Same => ScoreOrder::Same,
            ScoreOrder::Lower => ScoreOrder::Higher,
        }
    }
}

/// For `a.tenths >= b.tenths`, comparing the weights is comparing
/// `10^(a.tenths - b.tenths) * wa^2` against `wb^2`.
proof fn lemma_weight_factor(a: EntryScore, b: EntryScore)
    requires
        a.tenths >= b.tenths,
    ensures
        score_weight(a) > score_weight(b) <==> pow(10, (a.tenths - b.tenths) as nat)
            * (eff_words(a.words as nat) * eff_words(a.words as nat))
            > (eff_words(b.words as nat) * eff_words(b.words as nat)),
        score_weight(a) == score_weight(b) <==> pow(10, (a.tenths - b.tenths) as nat)
            * (eff_words(a.words as nat) * eff_words(a.words as nat))
            == (eff_words(b.words as nat) * eff_words(b.words as nat)),
{
    let d = (a.tenths - b.tenths) as nat;
    let c = pow(10, b.tenths as nat);
    let x = pow(10, d) * (eff_words(a.words as nat) * eff_words(a.words as nat));
    let y = (eff_words(b.words as nat) * eff_words(b.words as nat)) as int;
    lemma_pow_adds(10, b.tenths as nat, d);
    lemma_pow_positive(10, b.tenths as nat);
    lemma_pow_positive(10, d);
    assert(score_weight(a) == c * x) by (nonlinear_arith)
        requires
            pow(10, a.tenths as nat) == c * pow(10, d),
            x == pow(10, d) * (eff_words(a.words as nat) * eff_words(a.words as nat)),
            score_weight(a) == pow(10, a.tenths as nat)
                * (eff_words(a.words as nat) * eff_words(a.words as nat)),
    {}
    assert(score_weight(b) == c * y);
    assert(c * x > c * y <==> x > y) by (nonlinear_arith)
        requires c > 0,
    {}
    assert(c * x == c * y <==> x == y) by (nonlinear_arith)
        requires c > 0,
    {}
}

/// Compare `10^d * wa'^2` against `wb'^2` where `w'` is the effective word
/// count. The left side is built up by repeated multiplication; as soon as
/// it can no longer be held exactly it already exceeds any `wb'^2`, so the
/// answer is known without overflow.
fn half_compare(d: u128, wa: u64, wb: u64) -> (r: ScoreOrder)
    ensures
        ({
            let lhs = pow(10, d as nat) * (eff_words(wa as nat) * eff_words(wa as nat));
            let rhs = (eff_words(wb as nat) * eff_words(wb as nat)) as int;
            &&& (r == ScoreOrder::Higher <==> lhs > rhs)
            &&& (r == ScoreOrder::Same <==> lhs == rhs)
            &&& (r == ScoreOrder::Lower <==> lhs < rhs)
        }),
{
    let ea: u128 = if wa == 0 { 1 } else { wa as u128 };
    let eb: u128 = if wb == 0 { 1 } else { wb as u128 };
    proof {
        assert(ea * ea <= u128::MAX && eb * eb <= u128::MAX) by (nonlinear_arith)
            requires
                1 <= ea <= 0xFFFF_FFFF_FFFF_FFFFu128,
                1 <= eb <= 0xFFFF_FFFF_FFFF_FFFFu128,
        {}
    }
    let ea2: u128 = ea * ea;
    let eb2: u128 = eb * eb;
    proof {
        assert(ea2 == eff_words(wa as nat) * eff_words(wa as nat));
        assert(eb2 == eff_words(wb as nat) * eff_words(wb as nat));
    }
    let ghost lhs = pow(10, d as nat) * ea2;
    let mut acc: u128 = ea2;
    let mut i: u128 = 0;
    proof {
        lemma_pow0(10);
        assert(ea2 >= 1) by (nonlinear_arith)
            requires ea >= 1, ea2 == ea * ea,
        {}
        assert(pow(10, 0) * ea2 == ea2);
    }
    while i < d
        invariant
            i <= d,
            ea2 >= 1,
            acc == pow(10, i as nat) * ea2,
            ea2 == eff_words(wa as nat) * eff_words(wa as nat),
            eb2 == eff_words(wb as nat) * eff_words(wb as nat),
            lhs == pow(10, d as nat) * ea2,
        decreases d - i,
    {
        if acc > u128::MAX / 10 {
            // 10^(i+1) * ea2 already exceeds u128::MAX >= wb'^2, and the
            // remaining factors of ten only enlarge the left side
            proof {
                lemma_fundamental_div_mod(u128::MAX as int, 10);
                lemma_pow_adds(10, i as nat, 1);
                lemma_pow_adds(10, (i + 1) as nat, (d - i - 1) as nat);
                lemma_pow_positive(10, (d - i - 1) as nat);
                lemma_pow_positive(10, i as nat);
                lemma_pow1(10);
                assert(pow(10, (i + 1) as nat) == pow(10, i as nat) * 10);
                assert(lhs > eb2 as int) by (nonlinear_arith)
                    requires
                        acc > u128::MAX as int / 10,
                        u128::MAX as int == (u128::MAX as int / 10) * 10 + (
                        u128::MAX as int % 10),
                        u128::MAX as int % 10 < 10,
                        eb2 <= u128::MAX,
                        acc == pow(10, i as nat) * ea2,
                        pow(10, (i + 1) as nat) == pow(10, i as nat) * 10,
                        pow(10, d as nat) == pow(10, (i + 1) as nat) * pow(
                        10, (d - i - 1) as nat),
                        pow(10, (d - i - 1) as nat) >= 1,
                        ea2 >= 1,
                        lhs == pow(10, d as nat) * ea2,
                {}
            }
            return ScoreOrder::Higher;
        }
        proof {
            lemma_fundamental_div_mod(u128::MAX as int, 10);
            lemma_pow_adds(10, i as nat, 1);
            lemma_pow1(10);
            assert(pow(10, (i + 1) as nat) == pow(10, i as nat) * 10);
            assert(acc * 10 <= u128::MAX && acc * 10 == pow(10, (i + 1) as nat) * ea2)
                by (nonlinear_arith)
                requires
                    acc <= u128::MAX as int / 10,
                    u128::MAX as int == (u128::MAX as int / 10) * 10 + (
                    u128::MAX as int % 10),
                    u128::MAX as int % 10 >= 0,
                    acc == pow(10, i as nat) * ea2,
                    pow(10, (i + 1) as nat) == pow(10, i as nat) * 10,
            {}
        }
        acc = acc * 10;
        i = i + 1;
    }
    if acc > eb2 {
        ScoreOrder::Higher
    } else if acc == eb2 {
        ScoreOrder::Same
    } else {
        ScoreOrder::Lower
    }
}

} // verus!
