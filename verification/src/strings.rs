//! Verified string helpers: decimal rendering, whitespace handling,
//! substring search, replacement, splitting, JSON escaping and numeric
//! parsing. Everything is specified over `Seq<char>` views.

use vstd::prelude::*;
use vstd::string::*;

verus! {

// ---------------------------------------------------------------------------
// Decimal rendering
// ---------------------------------------------------------------------------

/// The character for one decimal digit.
pub open spec fn digit_char(d: nat) -> char {
    if d == 0 { '0' }
    else if d == 1 { '1' }
    else if d == 2 { '2' }
    else if d == 3 { '3' }
    else if d == 4 { '4' }
    else if d == 5 { '5' }
    else if d == 6 { '6' }
    else if d == 7 { '7' }
    else if d == 8 { '8' }
    else { '9' }
}

/// Decimal rendering of a natural number, without sign or padding.
pub open spec fn dec_str(n: nat) -> Seq<char>
    decreases n,
{
    if n < 10 {
        seq![digit_char(n)]
    } else {
        dec_str(n / 10).push(digit_char(n % 10))
    }
}

/// Decimal rendering of an integer: a minus sign for negative values.
pub open spec fn int_str(n: int) -> Seq<char> {
    if n >= 0 {
        dec_str(n as nat)
    } else {
        seq!['-'] + dec_str((-n) as nat)
    }
}

/// The string slice for one digit.
fn digit_str(d: u64) -> (r: &'static str)
    requires
        d < 10,
    ensures
        r@ == seq![digit_char(d as nat)],
{
    proof {
        reveal_strlit("0");
        reveal_strlit("1");
        reveal_strlit("2");
        reveal_strlit("3");
        reveal_strlit("4");
        reveal_strlit("5");
        reveal_strlit("6");
        reveal_strlit("7");
        reveal_strlit("8");
        reveal_strlit("9");
    }
    match d {
        0 => "0",
        1 => "1",
        2 => "2",
        3 => "3",
        4 => "4",
        5 => "5",
        6 => "6",
        7 => "7",
        8 => "8",
        _ => "9",
    }
}

/// Append the decimal rendering of `n` to `out`.
pub fn append_u64(out: &mut String, n: u64)
    ensures
        final(out)@ == old(out)@ + dec_str(n as nat),
    decreases n,
{
    if n < 10 {
        out.append(digit_str(n));
    } else {
        append_u64(out, n / 10);
        out.append(digit_str(n % 10));
        proof {
            assert(old(out)@ + dec_str((n / 10) as nat) + seq![digit_char((n % 10) as nat)]
                == old(out)@ + dec_str(n as nat));
        }
    }
}

/// Append the decimal rendering of a signed value to `out`.
pub fn append_i64(out: &mut String, n: i64)
    ensures
        final(out)@ == old(out)@ + int_str(n as int),
{
    if n >= 0 {
        append_u64(out, n as u64);
    } else {
        proof {
            reveal_strlit("-");
        }
        out.append("-");
        let magnitude: u64 = ((-(n + 1)) as u64) + 1;
        append_u64(out, magnitude);
        proof {
            assert(old(out)@ + seq!['-'] + dec_str(magnitude as nat)
                == old(out)@ + int_str(n as int));
        }
    }
}

/// Decimal rendering of a `u64` as a fresh string.
pub fn u64_to_string(n: u64) -> (r: String)
    ensures
        r@ == dec_str(n as nat),
{
    let mut out = String::new();
    append_u64(&mut out, n);
    out
}

// ---------------------------------------------------------------------------
// Whitespace and trimming
// ---------------------------------------------------------------------------

/// The characters with the Unicode `White_Space` property, as `str::trim`
/// and `str::split_whitespace` use it.
pub open spec fn is_ws(c: char) -> bool {
    c == ' ' || c == '\t' || c == '\n' || c == '\u{0B}' || c == '\u{0C}' || c == '\r'
        || c == '\u{85}' || c == '\u{A0}' || c == '\u{1680}'
        || ('\u{2000}' <= c && c <= '\u{200A}')
        || c == '\u{2028}' || c == '\u{2029}' || c == '\u{202F}' || c == '\u{205F}'
        || c == '\u{3000}'
}

/// Executable form of `is_ws`.
pub fn is_ws_char(c: char) -> (r: bool)
    ensures
        r == is_ws(c),
{
    c == ' ' || c == '\t' || c == '\n' || c == '\u{0B}' || c == '\u{0C}' || c == '\r'
        || c == '\u{85}' || c == '\u{A0}' || c == '\u{1680}'
        || ('\u{2000}' <= c && c <= '\u{200A}')
        || c == '\u{2028}' || c == '\u{2029}' || c == '\u{202F}' || c == '\u{205F}'
        || c == '\u{3000}'
}

/// Number of leading whitespace characters.
pub open spec fn leading_ws(s: Seq<char>) -> nat
    decreases s.len(),
{
    if s.len() > 0 && is_ws(s[0]) {
        1 + leading_ws(s.skip(1))
    } else {
        0
    }
}

/// Number of trailing whitespace characters.
pub open spec fn trailing_ws(s: Seq<char>) -> nat
    decreases s.len(),
{
    if s.len() > 0 && is_ws(s[s.len() - 1]) {
        1 + trailing_ws(s.take(s.len() - 1))
    } else {
        0
    }
}

/// What `str::trim` returns.
pub open spec fn trimmed(s: Seq<char>) -> Seq<char> {
    if leading_ws(s) == s.len() {
        Seq::empty()
    } else {
        s.subrange(leading_ws(s) as int, s.len() - trailing_ws(s))
    }
}

proof fn lemma_leading_ws(s: Seq<char>)
    ensures
        leading_ws(s) <= s.len(),
        forall|i: int| 0 <= i < leading_ws(s) ==> is_ws(s[i]),
        leading_ws(s) < s.len() ==> !is_ws(s[leading_ws(s) as int]),
    decreases s.len(),
{
    if s.len() > 0 && is_ws(s[0]) {
        lemma_leading_ws(s.skip(1));
        assert forall|i: int| 0 <= i < leading_ws(s) implies is_ws(s[i]) by {
            if i > 0 {
                assert(is_ws(s.skip(1)[i - 1]));
            }
        }
    }
}

proof fn lemma_trailing_ws(s: Seq<char>)
    ensures
        trailing_ws(s) <= s.len(),
        forall|i: int| s.len() - trailing_ws(s) <= i < s.len() ==> is_ws(s[i]),
        trailing_ws(s) < s.len() ==> !is_ws(s[s.len() - trailing_ws(s) - 1]),
    decreases s.len(),
{
    if s.len() > 0 && is_ws(s[s.len() - 1]) {
        lemma_trailing_ws(s.take(s.len() - 1));
        assert forall|i: int| s.len() - trailing_ws(s) <= i < s.len() implies is_ws(s[i]) by {
            if i < s.len() - 1 {
                assert(is_ws(s.take(s.len() - 1)[i]));
            }
        }
    }
}

/// Trim whitespace from both ends.
pub fn trim_str(s: &str) -> (r: String)
    ensures
        r@ == trimmed(s@),
{
    proof {
        lemma_leading_ws(s@);
        lemma_trailing_ws(s@);
    }
    let n = s.unicode_len();
    let mut start: usize = 0;
    while start < n && is_ws_char(s.get_char(start))
        invariant
            n == s@.len(),
            start <= n,
            forall|i: int| 0 <= i < start ==> is_ws(s@[i]),
            start <= leading_ws(s@),
        decreases n - start,
    {
        proof {
            lemma_leading_ws(s@);
        }
        start += 1;
    }
    proof {
        lemma_leading_ws(s@);
        assert(start == leading_ws(s@));
    }
    if start == n {
        return String::new();
    }
    let mut end: usize = n;
    while end > start && is_ws_char(s.get_char(end - 1))
        invariant
            n == s@.len(),
            start < n,
            start == leading_ws(s@),
            !is_ws(s@[start as int]),
            start <= end <= n,
            forall|i: int| end <= i < n ==> is_ws(s@[i]),
            n - end <= trailing_ws(s@),
        decreases end,
    {
        proof {
            lemma_trailing_ws(s@);
            assert(end - 1 > start) by {
                if end - 1 == start {
                    assert(is_ws(s@[start as int]));
                }
            }
        }
        end -= 1;
    }
    proof {
        lemma_trailing_ws(s@);
        assert(n - end == trailing_ws(s@));
    }
    s.substring_char(start, end).to_owned()
}

// ---------------------------------------------------------------------------
// Word counting
// ---------------------------------------------------------------------------

/// Number of whitespace-separated words, as `str::split_whitespace` counts
/// them: the number of maximal runs of non-whitespace characters.
pub open spec fn word_count(s: Seq<char>) -> nat
    decreases s.len(),
{
    if s.len() == 0 {
        0
    } else if s.len() == 1 {
        if is_ws(s[0]) { 0 } else { 1 }
    } else {
        // a word starts at position 0 when s[0] is not whitespace;
        // every later word start is a non-whitespace after a whitespace
        word_count(s.take(s.len() - 1))
            + if !is_ws(s[s.len() - 1]) && is_ws(s[s.len() - 2]) { 1nat } else { 0nat }
    }
}

/// Count whitespace-separated words.
pub fn count_words(s: &str) -> (r: usize)
    ensures
        r == word_count(s@),
{
    let n = s.unicode_len();
    let mut count: usize = 0;
    let mut i: usize = 0;
    while i < n
        invariant
            n == s@.len(),
            i <= n,
            count == word_count(s@.take(i as int)),
            count <= i,
        decreases n - i,
    {
        let c = s.get_char(i);
        let starts_word = !is_ws_char(c) && (if i == 0 {
            true
        } else {
            is_ws_char(s.get_char(i - 1))
        });
        proof {
            let t = s@.take(i + 1);
            assert(t.take(t.len() - 1) == s@.take(i as int));
            if i > 0 {
                assert(t[t.len() - 1] == s@[i as int]);
                assert(t[t.len() - 2] == s@[i - 1]);
            }
        }
        if starts_word {
            count += 1;
        }
        i += 1;
    }
    proof {
        assert(s@.take(n as int) == s@);
    }
    count
}

} // verus!

verus! {

// ---------------------------------------------------------------------------
// Substring search
// ---------------------------------------------------------------------------

/// Whether `p` occurs in `s` starting at position `i`.
pub open spec fn match_at(s: Seq<char>, p: Seq<char>, i: int) -> bool {
    0 <= i && i + p.len() <= s.len() && s.subrange(i, i + p.len()) == p
}

proof fn lemma_match_at_skip(s: Seq<char>, p: Seq<char>, d: int, k: int)
    requires
        0 <= d <= s.len(),
        0 <= k,
    ensures
        match_at(s.skip(d), p, k) <==> match_at(s, p, k + d),
{
    if k + p.len() <= s.len() - d {
        assert(s.skip(d).subrange(k, k + p.len()) =~= s.subrange(k + d, k + d + p.len()));
    }
}

/// Whether `p` occurs at position `j` of `s`.
pub fn match_here(s: &str, p: &str, j: usize) -> (r: bool)
    requires
        j <= s@.len(),
    ensures
        r <==> match_at(s@, p@, j as int),
{
    let n = s.unicode_len();
    let m = p.unicode_len();
    if m > n - j {
        return false;
    }
    let mut k: usize = 0;
    while k < m
        invariant
            n == s@.len(),
            m == p@.len(),
            j + m <= n,
            k <= m,
            forall|t: int| 0 <= t < k ==> s@[j + t] == p@[t],
        decreases m - k,
    {
        if s.get_char(j + k) != p.get_char(k) {
            assert(s@.subrange(j as int, j + m) != p@) by {
                assert(s@.subrange(j as int, j + m)[k as int] == s@[j + k]);
            }
            return false;
        }
        k += 1;
    }
    assert(s@.subrange(j as int, j + m) =~= p@);
    true
}

/// Whether two string slices hold the same characters.
pub fn str_eq(a: &str, b: &str) -> (r: bool)
    ensures
        r == (a@ == b@),
{
    let n = a.unicode_len();
    if n != b.unicode_len() {
        return false;
    }
    let r = match_here(a, b, 0);
    proof {
        if r {
            assert(a@.subrange(0, n as int) =~= a@);
        }
        if a@ == b@ {
            assert(a@.subrange(0, n as int) =~= b@);
            assert(match_at(a@, b@, 0));
        }
    }
    r
}

/// Find the first occurrence of `p` in `s` at or after `from`.
pub fn find_from(s: &str, p: &str, from: usize) -> (r: Option<usize>)
    requires
        from <= s@.len(),
    ensures
        match r {
            Some(j) => {
                &&& from <= j
                &&& match_at(s@, p@, j as int)
                &&& forall|k: int| from <= k < j ==> !match_at(s@, p@, k)
            },
            None => forall|k: int| from <= k ==> !match_at(s@, p@, k),
        },
{
    let n = s.unicode_len();
    let mut j: usize = from;
    while j < n
        invariant
            n == s@.len(),
            from <= j <= n,
            forall|k: int| from <= k < j ==> !match_at(s@, p@, k),
        decreases n - j,
    {
        if match_here(s, p, j) {
            return Some(j);
        }
        j += 1;
    }
    if match_here(s, p, n) {
        return Some(n);
    }
    assert forall|k: int| from <= k implies !match_at(s@, p@, k) by {
        if k > n {
            assert(!match_at(s@, p@, k));
        }
    }
    None
}

// ---------------------------------------------------------------------------
// Replacement
// ---------------------------------------------------------------------------

/// What `str::replace` returns: every non-overlapping occurrence of `p`,
/// scanned left to right, replaced by `v`.
pub open spec fn replaced(s: Seq<char>, p: Seq<char>, v: Seq<char>) -> Seq<char>
    decreases s.len(),
    when p.len() > 0
{
    if s.len() < p.len() {
        s
    } else if s.take(p.len() as int) == p {
        v + replaced(s.skip(p.len() as int), p, v)
    } else {
        seq![s[0]] + replaced(s.skip(1), p, v)
    }
}

proof fn lemma_replaced_no_match(s: Seq<char>, p: Seq<char>, v: Seq<char>)
    requires
        p.len() > 0,
        forall|k: int| 0 <= k ==> !match_at(s, p, k),
    ensures
        replaced(s, p, v) == s,
    decreases s.len(),
{
    if s.len() >= p.len() {
        assert(!match_at(s, p, 0));
        assert(s.take(p.len() as int) == s.subrange(0, p.len() as int));
        assert forall|k: int| 0 <= k implies !match_at(s.skip(1), p, k) by {
            lemma_match_at_skip(s, p, 1, k);
        }
        lemma_replaced_no_match(s.skip(1), p, v);
        assert(seq![s[0]] + s.skip(1) =~= s);
    }
}

proof fn lemma_replaced_match_at(s: Seq<char>, p: Seq<char>, v: Seq<char>, j: int)
    requires
        p.len() > 0,
        match_at(s, p, j),
        forall|k: int| 0 <= k < j ==> !match_at(s, p, k),
    ensures
        replaced(s, p, v) == s.take(j) + v + replaced(s.skip(j + p.len()), p, v),
    decreases j,
{
    if j == 0 {
        assert(s.take(p.len() as int) == s.subrange(0, p.len() as int));
        assert(s.take(0int) + v =~= v);
        assert(s.take(0int) + v + replaced(s.skip(p.len() as int), p, v)
            =~= v + replaced(s.skip(p.len() as int), p, v));
    } else {
        assert(!match_at(s, p, 0));
        assert(s.take(p.len() as int) == s.subrange(0, p.len() as int));
        assert(s.len() >= p.len());
        assert forall|k: int| 0 <= k < j - 1 implies !match_at(s.skip(1), p, k) by {
            lemma_match_at_skip(s, p, 1, k);
        }
        lemma_match_at_skip(s, p, 1, j - 1);
        lemma_replaced_match_at(s.skip(1), p, v, j - 1);
        assert(seq![s[0]] + s.skip(1).take(j - 1) =~= s.take(j));
        assert(s.skip(1).skip(j - 1 + p.len()) =~= s.skip(j + p.len()));
        assert(seq![s[0]] + (s.skip(1).take(j - 1) + v + replaced(s.skip(j + p.len()), p, v))
            =~= s.take(j) + v + replaced(s.skip(j + p.len()), p, v));
    }
}

/// Replace every occurrence of `pat` in `s` by `val`.
pub fn replace_all(s: &str, pat: &str, val: &str) -> (r: String)
    requires
        pat@.len() > 0,
    ensures
        r@ == replaced(s@, pat@, val@),
{
    let n = s.unicode_len();
    let plen = pat.unicode_len();
    let mut out = String::new();
    let mut pos: usize = 0;
    proof {
        assert(s@.skip(0) =~= s@);
        assert(out@ + replaced(s@, pat@, val@) =~= replaced(s@, pat@, val@));
    }
    loop
        invariant
            n == s@.len(),
            plen == pat@.len(),
            plen > 0,
            pos <= n,
            replaced(s@, pat@, val@) == out@ + replaced(s@.skip(pos as int), pat@, val@),
        decreases n - pos,
    {
        match find_from(s, pat, pos) {
            Some(j) => {
                proof {
                    assert forall|k: int| 0 <= k < j - pos implies !match_at(
                        s@.skip(pos as int), pat@, k) by {
                        lemma_match_at_skip(s@, pat@, pos as int, k);
                    }
                    lemma_match_at_skip(s@, pat@, pos as int, j - pos);
                    lemma_replaced_match_at(s@.skip(pos as int), pat@, val@, j - pos);
                    assert(s@.skip(pos as int).take(j - pos)
                        =~= s@.subrange(pos as int, j as int));
                    assert(s@.skip(pos as int).skip(j - pos + pat@.len())
                        =~= s@.skip(j + pat@.len()));
                }
                let ghost old_out = out@;
                out.append(s.substring_char(pos, j));
                out.append(val);
                pos = j + plen;
                proof {
                    assert(out@ + replaced(s@.skip(pos as int), pat@, val@)
                        =~= replaced(s@, pat@, val@));
                }
            },
            None => {
                proof {
                    assert forall|k: int| 0 <= k implies !match_at(
                        s@.skip(pos as int), pat@, k) by {
                        lemma_match_at_skip(s@, pat@, pos as int, k);
                    }
                    lemma_replaced_no_match(s@.skip(pos as int), pat@, val@);
                    assert(s@.skip(pos as int) =~= s@.subrange(pos as int, n as int));
                }
                out.append(s.substring_char(pos, n));
                return out;
            },
        }
    }
}

} // verus!

verus! {

// ---------------------------------------------------------------------------
// Splitting
// ---------------------------------------------------------------------------

/// What `str::split` returns for a non-empty pattern: the pieces between
/// non-overlapping occurrences of `p`, scanned left to right, with an empty
/// piece for each leading, trailing or doubled separator.
pub open spec fn split_by(s: Seq<char>, p: Seq<char>) -> Seq<Seq<char>>
    decreases s.len(),
    when p.len() > 0
{
    if s.len() < p.len() {
        seq![s]
    } else if s.take(p.len() as int) == p {
        seq![Seq::<char>::empty()] + split_by(s.skip(p.len() as int), p)
    } else {
        let rest = split_by(s.skip(1), p);
        rest.update(0, seq![s[0]] + rest[0])
    }
}

proof fn lemma_split_by_len(s: Seq<char>, p: Seq<char>)
    requires
        p.len() > 0,
    ensures
        split_by(s, p).len() >= 1,
    decreases s.len(),
{
    if s.len() >= p.len() && s.take(p.len() as int) != p {
        lemma_split_by_len(s.skip(1), p);
    }
}

proof fn lemma_split_no_match(s: Seq<char>, p: Seq<char>)
    requires
        p.len() > 0,
        forall|k: int| 0 <= k ==> !match_at(s, p, k),
    ensures
        split_by(s, p) == seq![s],
    decreases s.len(),
{
    if s.len() >= p.len() {
        assert(!match_at(s, p, 0));
        assert(s.take(p.len() as int) == s.subrange(0, p.len() as int));
        assert forall|k: int| 0 <= k implies !match_at(s.skip(1), p, k) by {
            lemma_match_at_skip(s, p, 1, k);
        }
        lemma_split_no_match(s.skip(1), p);
        assert(seq![s[0]] + s.skip(1) =~= s);
        assert(seq![s.skip(1)].update(0, seq![s[0]] + s.skip(1)) =~= seq![s]);
    }
}

proof fn lemma_split_match_at(s: Seq<char>, p: Seq<char>, j: int)
    requires
        p.len() > 0,
        match_at(s, p, j),
        forall|k: int| 0 <= k < j ==> !match_at(s, p, k),
    ensures
        split_by(s, p) == seq![s.take(j)] + split_by(s.skip(j + p.len()), p),
    decreases j,
{
    if j == 0 {
        assert(s.take(p.len() as int) == s.subrange(0, p.len() as int));
        assert(s.take(0int) =~= Seq::<char>::empty());
    } else {
        assert(!match_at(s, p, 0));
        assert(s.take(p.len() as int) == s.subrange(0, p.len() as int));
        assert(s.len() >= p.len());
        assert forall|k: int| 0 <= k < j - 1 implies !match_at(s.skip(1), p, k) by {
            lemma_match_at_skip(s, p, 1, k);
        }
        lemma_match_at_skip(s, p, 1, j - 1);
        lemma_split_match_at(s.skip(1), p, j - 1);
        lemma_split_by_len(s.skip(1).skip(j - 1 + p.len()), p);
        let tail = split_by(s.skip(1).skip(j - 1 + p.len()), p);
        assert(s.skip(1).skip(j - 1 + p.len()) =~= s.skip(j + p.len()));
        let rest = seq![s.skip(1).take(j - 1)] + tail;
        assert(rest[0] == s.skip(1).take(j - 1));
        assert(seq![s[0]] + s.skip(1).take(j - 1) =~= s.take(j));
        assert(rest.update(0, seq![s[0]] + rest[0])
            =~= seq![s.take(j)] + split_by(s.skip(j + p.len()), p));
    }
}

/// Split `s` at every occurrence of `pat`.
pub fn split_all(s: &str, pat: &str) -> (r: Vec<String>)
    requires
        pat@.len() > 0,
    ensures
        r@.map_values(|x: String| x@) == split_by(s@, pat@),
{
    let n = s.unicode_len();
    let plen = pat.unicode_len();
    let mut out: Vec<String> = Vec::new();
    let mut pos: usize = 0;
    proof {
        assert(s@.skip(0) =~= s@);
    }
    loop
        invariant
            n == s@.len(),
            plen == pat@.len(),
            plen > 0,
            pos <= n,
            split_by(s@, pat@) == out@.map_values(|x: String| x@)
                + split_by(s@.skip(pos as int), pat@),
        decreases n - pos,
    {
        proof {
            assert(out@.map_values(|x: String| x@) + split_by(s@.skip(pos as int), pat@)
                =~= split_by(s@, pat@));
        }
        match find_from(s, pat, pos) {
            Some(j) => {
                proof {
                    assert forall|k: int| 0 <= k < j - pos implies !match_at(
                        s@.skip(pos as int), pat@, k) by {
                        lemma_match_at_skip(s@, pat@, pos as int, k);
                    }
                    lemma_match_at_skip(s@, pat@, pos as int, j - pos);
                    lemma_split_match_at(s@.skip(pos as int), pat@, j - pos);
                    assert(s@.skip(pos as int).take(j - pos)
                        =~= s@.subrange(pos as int, j as int));
                    assert(s@.skip(pos as int).skip(j - pos + pat@.len())
                        =~= s@.skip(j + pat@.len()));
                }
                out.push(s.substring_char(pos, j).to_owned());
                pos = j + plen;
                proof {
                    assert(out@.map_values(|x: String| x@)
                        + split_by(s@.skip(pos as int), pat@)
                        =~= split_by(s@, pat@));
                }
            },
            None => {
                proof {
                    assert forall|k: int| 0 <= k implies !match_at(
                        s@.skip(pos as int), pat@, k) by {
                        lemma_match_at_skip(s@, pat@, pos as int, k);
                    }
                    lemma_split_no_match(s@.skip(pos as int), pat@);
                    assert(s@.skip(pos as int) =~= s@.subrange(pos as int, n as int));
                }
                out.push(s.substring_char(pos, n).to_owned());
                proof {
                    assert(out@.map_values(|x: String| x@)
                        =~= split_by(s@, pat@));
                }
                return out;
            },
        }
    }
}

/// Pieces after trimming each and dropping the empty ones.
pub open spec fn cleaned_pieces(parts: Seq<Seq<char>>) -> Seq<Seq<char>> {
    parts.map_values(|x: Seq<char>| trimmed(x)).filter(|x: Seq<char>| x.len() > 0)
}

/// Split `s` at `pat`, trim each piece, and drop the empty ones.
pub fn split_trim_nonempty(s: &str, pat: &str) -> (r: Vec<String>)
    requires
        pat@.len() > 0,
    ensures
        r@.map_values(|x: String| x@) == cleaned_pieces(split_by(s@, pat@)),
{
    let parts = split_all(s, pat);
    let ghost views = split_by(s@, pat@);
    let mut out: Vec<String> = Vec::new();
    let mut i: usize = 0;
    proof {
        assert(views.take(0int) =~= Seq::<Seq<char>>::empty());
        assert(cleaned_pieces(views.take(0int)) =~= Seq::<Seq<char>>::empty());
        assert(out@.map_values(|x: String| x@) =~= Seq::<Seq<char>>::empty());
    }
    while i < parts.len()
        invariant
            parts@.map_values(|x: String| x@) == views,
            i <= parts@.len(),
            out@.map_values(|x: String| x@) == cleaned_pieces(views.take(i as int)),
        decreases parts@.len() - i,
    {
        let piece = trim_str(parts[i].as_str());
        proof {
            assert(views.take(i as int).push(views[i as int]) =~= views.take(i + 1));
            lemma_cleaned_push(views.take(i as int), views[i as int]);
            assert(parts@[i as int]@ == views[i as int]);
        }
        if piece.unicode_len() > 0 {
            out.push(piece);
            proof {
                assert(out@.map_values(|x: String| x@)
                    =~= cleaned_pieces(views.take(i + 1)));
            }
        } else {
            proof {
                assert(out@.map_values(|x: String| x@)
                    =~= cleaned_pieces(views.take(i + 1)));
            }
        }
        i += 1;
    }
    proof {
        assert(views.take(parts@.len() as int) =~= views);
    }
    out
}

proof fn lemma_cleaned_push(parts: Seq<Seq<char>>, x: Seq<char>)
    ensures
        cleaned_pieces(parts.push(x)) == if trimmed(x).len() > 0 {
            cleaned_pieces(parts).push(trimmed(x))
        } else {
            cleaned_pieces(parts)
        },
{
    let f = |y: Seq<char>| trimmed(y);
    let pred = |y: Seq<char>| y.len() > 0;
    assert(parts.push(x).map_values(f) =~= parts.map_values(f).push(f(x)));
    assert(parts.map_values(f).push(f(x)) =~= parts.map_values(f) + seq![f(x)]);
    Seq::filter_distributes_over_add(parts.map_values(f), seq![f(x)], pred);
    reveal_with_fuel(Seq::filter, 3);
    assert(seq![f(x)].drop_last() =~= Seq::<Seq<char>>::empty());
    if pred(f(x)) {
        assert(seq![f(x)].filter(pred) =~= seq![f(x)]);
        assert(cleaned_pieces(parts) + seq![f(x)] =~= cleaned_pieces(parts).push(f(x)));
    } else {
        assert(seq![f(x)].filter(pred) =~= Seq::<Seq<char>>::empty());
        assert(cleaned_pieces(parts) + Seq::<Seq<char>>::empty() =~= cleaned_pieces(parts));
    }
}

} // verus!

verus! {

// ---------------------------------------------------------------------------
// JSON string escaping
// ---------------------------------------------------------------------------

/// Lowercase hexadecimal digit character.
pub open spec fn hex_char(d: nat) -> char {
    if d == 0 { '0' }
    else if d == 1 { '1' }
    else if d == 2 { '2' }
    else if d == 3 { '3' }
    else if d == 4 { '4' }
    else if d == 5 { '5' }
    else if d == 6 { '6' }
    else if d == 7 { '7' }
    else if d == 8 { '8' }
    else if d == 9 { '9' }
    else if d == 10 { 'a' }
    else if d == 11 { 'b' }
    else if d == 12 { 'c' }
    else if d == 13 { 'd' }
    else if d == 14 { 'e' }
    else { 'f' }
}

/// How one character appears inside a JSON string literal: quote and
/// backslash escaped, control characters as their short escapes or as
/// `\u00..`, everything else unchanged.
pub open spec fn esc_char(c: char) -> Seq<char> {
    if c == '"' { seq!['\\', '"'] }
    else if c == '\\' { seq!['\\', '\\'] }
    else if c == '\u{08}' { seq!['\\', 'b'] }
    else if c == '\t' { seq!['\\', 't'] }
    else if c == '\n' { seq!['\\', 'n'] }
    else if c == '\u{0C}' { seq!['\\', 'f'] }
    else if c == '\r' { seq!['\\', 'r'] }
    else if (c as u32) < 0x20 {
        seq!['\\', 'u', '0', '0',
            hex_char(((c as u32) / 16) as nat), hex_char(((c as u32) % 16) as nat)]
    } else {
        seq![c]
    }
}

/// The body of the JSON string literal for `s`.
pub open spec fn json_escaped(s: Seq<char>) -> Seq<char>
    decreases s.len(),
{
    if s.len() == 0 {
        Seq::empty()
    } else {
        json_escaped(s.drop_last()) + esc_char(s.last())
    }
}

/// Hexadecimal digit as a string slice.
fn hex_str(d: u32) -> (r: &'static str)
    requires
        d < 16,
    ensures
        r@ == seq![hex_char(d as nat)],
{
    proof {
        reveal_strlit("a");
        reveal_strlit("b");
        reveal_strlit("c");
        reveal_strlit("d");
        reveal_strlit("e");
        reveal_strlit("f");
    }
    if d < 10 {
        digit_str(d as u64)
    } else {
        match d {
            10 => "a",
            11 => "b",
            12 => "c",
            13 => "d",
            14 => "e",
            _ => "f",
        }
    }
}

/// Append the escaped form of `s` to `out`.
pub fn append_json_escaped(out: &mut String, s: &str)
    ensures
        final(out)@ == old(out)@ + json_escaped(s@),
{
    let n = s.unicode_len();
    let mut i: usize = 0;
    proof {
        assert(s@.take(0) =~= Seq::<char>::empty());
        assert(old(out)@ + json_escaped(s@.take(0)) =~= old(out)@);
    }
    while i < n
        invariant
            n == s@.len(),
            i <= n,
            out@ == old(out)@ + json_escaped(s@.take(i as int)),
        decreases n - i,
    {
        let c = s.get_char(i);
        proof {
            let t = s@.take(i + 1);
            assert(t.drop_last() =~= s@.take(i as int));
            assert(t.last() == s@[i as int]);
            reveal_strlit("\\\"");
            reveal_strlit("\\\\");
            reveal_strlit("\\b");
            reveal_strlit("\\t");
            reveal_strlit("\\n");
            reveal_strlit("\\f");
            reveal_strlit("\\r");
            reveal_strlit("\\u00");
        }
        if c == '"' {
            out.append("\\\"");
        } else if c == '\\' {
            out.append("\\\\");
        } else if c == '\u{08}' {
            out.append("\\b");
        } else if c == '\t' {
            out.append("\\t");
        } else if c == '\n' {
            out.append("\\n");
        } else if c == '\u{0C}' {
            out.append("\\f");
        } else if c == '\r' {
            out.append("\\r");
        } else if (c as u32) < 0x20 {
            out.append("\\u00");
            out.append(hex_str((c as u32) / 16));
            out.append(hex_str((c as u32) % 16));
        } else {
            out.append(s.substring_char(i, i + 1));
            proof {
                assert(s@.subrange(i as int, i + 1) =~= seq![s@[i as int]]);
            }
        }
        proof {
            assert(out@ =~= old(out)@ + json_escaped(s@.take(i + 1)));
        }
        i += 1;
    }
    proof {
        assert(s@.take(n as int) =~= s@);
    }
}

/// The full JSON string literal for `s`, quotes included.
pub open spec fn json_string(s: Seq<char>) -> Seq<char> {
    seq!['"'] + json_escaped(s) + seq!['"']
}

/// Append the JSON string literal for `s` to `out`.
pub fn append_json_string(out: &mut String, s: &str)
    ensures
        final(out)@ == old(out)@ + json_string(s@),
{
    proof {
        reveal_strlit("\"");
    }
    out.append("\"");
    append_json_escaped(out, s);
    out.append("\"");
    proof {
        assert(old(out)@ + seq!['"'] + json_escaped(s@) + seq!['"']
            =~= old(out)@ + json_string(s@));
    }
}

// ---------------------------------------------------------------------------
// Numeric and boolean parsing
// ---------------------------------------------------------------------------

/// Decimal digit test.
pub open spec fn is_digit(c: char) -> bool {
    '0' <= c && c <= '9'
}

/// Value of one decimal digit.
pub open spec fn digit_val(c: char) -> nat {
    ((c as u32) - ('0' as u32)) as nat
}

/// Whether every character is a decimal digit.
pub open spec fn all_digits(s: Seq<char>) -> bool {
    forall|i: int| 0 <= i < s.len() ==> is_digit(#[trigger] s[i])
}

/// Value of a digit string.
pub open spec fn digits_val(s: Seq<char>) -> nat
    decreases s.len(),
{
    if s.len() == 0 {
        0
    } else {
        digits_val(s.drop_last()) * 10 + digit_val(s.last())
    }
}

/// What `str::parse::<u32>` returns: an optional leading `+`, then at least
/// one digit, and a value within range.
pub open spec fn parse_u32_spec(s: Seq<char>) -> Option<u32> {
    let body = if s.len() >= 1 && s[0] == '+' { s.skip(1) } else { s };
    if body.len() == 0 || !all_digits(body) {
        None
    } else if digits_val(body) > u32::MAX {
        None
    } else {
        Some(digits_val(body) as u32)
    }
}

/// What `str::parse::<i32>` returns: an optional sign, then at least one
/// digit, and a value within range.
pub open spec fn parse_i32_spec(s: Seq<char>) -> Option<i32> {
    let neg = s.len() >= 1 && s[0] == '-';
    let body = if s.len() >= 1 && (s[0] == '-' || s[0] == '+') { s.skip(1) } else { s };
    if body.len() == 0 || !all_digits(body) {
        None
    } else {
        let v: int = if neg { -(digits_val(body) as int) } else { digits_val(body) as int };
        if i32::MIN <= v <= i32::MAX {
            Some(v as i32)
        } else {
            None
        }
    }
}

/// Scan a digit body, returning its value clipped at `u32::MAX + 1` (any
/// value above `u32::MAX` is rejected by every caller alike), or `None` when
/// the body is empty or holds a non-digit.
fn scan_digits(s: &str, from: usize) -> (r: Option<u64>)
    requires
        from <= s@.len(),
    ensures
        match r {
            Some(v) => {
                &&& s@.skip(from as int).len() > 0
                &&& all_digits(s@.skip(from as int))
                &&& if digits_val(s@.skip(from as int)) > u32::MAX {
                        v > u32::MAX
                    } else {
                        v == digits_val(s@.skip(from as int))
                    }
            },
            None => s@.skip(from as int).len() == 0 || !all_digits(s@.skip(from as int)),
        },
{
    let n = s.unicode_len();
    if from == n {
        return None;
    }
    let ghost body = s@.skip(from as int);
    let mut acc: u64 = 0;
    let mut i: usize = from;
    proof {
        assert(body.take(0) =~= Seq::<char>::empty());
    }
    while i < n
        invariant
            n == s@.len(),
            from <= i <= n,
            body == s@.skip(from as int),
            all_digits(body.take(i - from)),
            if digits_val(body.take(i - from)) > u32::MAX {
                acc > u32::MAX && acc <= 0xFFFF_FFFF_Fu64
            } else {
                acc == digits_val(body.take(i - from)) && acc <= u32::MAX
            },
        decreases n - i,
    {
        let c = s.get_char(i);
        if !('0' <= c && c <= '9') {
            proof {
                assert(body[i - from] == s@[i as int]);
                assert(!all_digits(body));
            }
            return None;
        }
        let d: u64 = (c as u32 as u64) - ('0' as u32 as u64);
        proof {
            let t = body.take(i - from + 1);
            assert(t.drop_last() =~= body.take(i - from));
            assert(t.last() == body[i - from]);
            assert(body[i - from] == s@[i as int]);
        }
        if acc > u32::MAX as u64 {
            // value already out of range; keep it out of range without overflow
            acc = 0xFFFF_FFFF_Fu64;
            proof {
                let t = body.take(i - from + 1);
                assert(digits_val(t) == digits_val(body.take(i - from)) * 10 + digit_val(t.last()));
                assert(digits_val(body.take(i - from)) * 10 >= digits_val(body.take(i - from)))
                    by (nonlinear_arith)
                    requires digits_val(body.take(i - from)) >= 0;
            }
        } else {
            acc = acc * 10 + d;
        }
        i += 1;
    }
    proof {
        assert(body.take(n - from) =~= body);
    }
    Some(acc)
}

/// Parse an unsigned 32-bit decimal, as `str::parse::<u32>` does.
pub fn parse_u32(s: &str) -> (r: Option<u32>)
    ensures
        r == parse_u32_spec(s@),
{
    let n = s.unicode_len();
    let from: usize = if n >= 1 && s.get_char(0) == '+' { 1 } else { 0 };
    proof {
        if from == 0 {
            assert(s@.skip(0) =~= s@);
        }
    }
    match scan_digits(s, from) {
        Some(v) => {
            if v > u32::MAX as u64 {
                None
            } else {
                Some(v as u32)
            }
        },
        None => None,
    }
}

/// Parse a signed 32-bit decimal, as `str::parse::<i32>` does.
pub fn parse_i32(s: &str) -> (r: Option<i32>)
    ensures
        r == parse_i32_spec(s@),
{
    let n = s.unicode_len();
    let neg = n >= 1 && s.get_char(0) == '-';
    let from: usize = if n >= 1 && (s.get_char(0) == '-' || s.get_char(0) == '+') {
        1
    } else {
        0
    };
    proof {
        if from == 0 {
            assert(s@.skip(0) =~= s@);
        }
    }
    match scan_digits(s, from) {
        Some(v) => {
            if neg {
                if v > 0x8000_0000u64 {
                    None
                } else if v == 0x8000_0000u64 {
                    Some(i32::MIN)
                } else {
                    Some(-(v as i32))
                }
            } else {
                if v > i32::MAX as u64 {
                    None
                } else {
                    Some(v as i32)
                }
            }
        },
        None => None,
    }
}

/// What `str::parse::<bool>` returns.
pub open spec fn parse_bool_spec(s: Seq<char>) -> Option<bool> {
    if s == "true"@ {
        Some(true)
    } else if s == "false"@ {
        Some(false)
    } else {
        None
    }
}

/// Parse a boolean, as `str::parse::<bool>` does.
pub fn parse_bool(s: &str) -> (r: Option<bool>)
    ensures
        r == parse_bool_spec(s@),
{
    proof {
        reveal_strlit("true");
        reveal_strlit("false");
    }
    let n = s.unicode_len();
    if n == 4 && match_here(s, "true", 0) {
        proof {
            assert(s@.subrange(0, 4) =~= s@);
        }
        Some(true)
    } else if n == 5 && match_here(s, "false", 0) {
        proof {
            assert(s@.subrange(0, 5) =~= s@);
        }
        Some(false)
    } else {
        proof {
            if s@ == "true"@ {
                assert(s@.subrange(0, 4) =~= s@);
                assert(match_at(s@, "true"@, 0));
            }
            if s@ == "false"@ {
                assert(s@.subrange(0, 5) =~= s@);
                assert(match_at(s@, "false"@, 0));
            }
        }
        None
    }
}

} // verus!
