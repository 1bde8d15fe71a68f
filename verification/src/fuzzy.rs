//! Fuzzy search engine for the command bar and global search: exact, prefix,
//! substring and Levenshtein (edit distance at most 2) matching, with ranked
//! results.

use vstd::prelude::*;
use vstd::utf8::{encode_scalar, encode_utf8};

verus! {

/// The smaller of two naturals.
pub open spec fn min_nat(x: nat, y: nat) -> nat {
    if x <= y {
        x
    } else {
        y
    }
}

/// The larger of two naturals.
pub open spec fn max_nat(x: nat, y: nat) -> nat {
    if x >= y {
        x
    } else {
        y
    }
}

/// Levenshtein distance: the least number of single-character insertions,
/// deletions and substitutions that turn `a` into `b`.
pub open spec fn edit_distance(a: Seq<char>, b: Seq<char>) -> nat
    decreases a.len() + b.len(),
{
    if a.len() == 0 {
        b.len()
    } else if b.len() == 0 {
        a.len()
    } else {
        let cost: nat = if a.last() == b.last() {
            0
        } else {
            1
        };
        min_nat(
            min_nat(
                edit_distance(a.drop_last(), b) + 1,
                edit_distance(a, b.drop_last()) + 1,
            ),
            edit_distance(a.drop_last(), b.drop_last()) + cost,
        )
    }
}

/// The edit distance is bounded by the longer length, and at least the
/// difference of the lengths.
pub proof fn lemma_edit_distance_bounds(a: Seq<char>, b: Seq<char>)
    ensures
        edit_distance(a, b) <= max_nat(a.len(), b.len()),
        a.len() <= edit_distance(a, b) + b.len(),
        b.len() <= edit_distance(a, b) + a.len(),
    decreases a.len() + b.len(),
{
    if a.len() > 0 && b.len() > 0 {
        lemma_edit_distance_bounds(a.drop_last(), b);
        lemma_edit_distance_bounds(a, b.drop_last());
        lemma_edit_distance_bounds(a.drop_last(), b.drop_last());
    }
}

/// The edit distance is symmetric.
pub proof fn lemma_edit_distance_symmetric(a: Seq<char>, b: Seq<char>)
    ensures
        edit_distance(a, b) == edit_distance(b, a),
    decreases a.len() + b.len(),
{
    if a.len() > 0 && b.len() > 0 {
        lemma_edit_distance_symmetric(a.drop_last(), b);
        lemma_edit_distance_symmetric(a, b.drop_last());
        lemma_edit_distance_symmetric(a.drop_last(), b.drop_last());
    }
}

/// The edit distance is zero exactly when the two strings are equal.
pub proof fn lemma_edit_distance_zero_iff_equal(a: Seq<char>, b: Seq<char>)
    ensures
        edit_distance(a, b) == 0 <==> a == b,
    decreases a.len() + b.len(),
{
    if a.len() == 0 {
        if b.len() == 0 {
            assert(a =~= b);
        }
    } else if b.len() == 0 {
    } else {
        lemma_edit_distance_zero_iff_equal(a.drop_last(), b.drop_last());
        if edit_distance(a, b) == 0 {
            assert(a.drop_last() == b.drop_last());
            assert(a =~= b.drop_last().push(b.last()));
            assert(b =~= b.drop_last().push(b.last()));
        }
        if a == b {
            assert(a.drop_last() == b.drop_last());
        }
    }
}

/// The characters of `s`, in order.
pub(crate) fn chars_of(s: &str) -> (r: Vec<char>)
    ensures
        r@ == s@,
{
    let mut r: Vec<char> = Vec::new();
    for c in it: s.chars()
        invariant
            r@ == it.seq().take(it.index() as int),
    {
        r.push(c);
    }
    assert(r@ =~= s@);
    r
}

/// The edit distance between two character sequences, by the row-by-row
/// dynamic programme over prefixes.
pub fn edit_distance_chars(a: &[char], b: &[char]) -> (d: usize)
    ensures
        d == edit_distance(a@, b@),
{
    let a_len = a.len();
    let b_len = b.len();
    if a_len == 0 {
        return b_len;
    }
    if b_len == 0 {
        return a_len;
    }
    // Row i holds, at position k, the distance between the first i
    // characters of `a` and the first k + 1 characters of `b`; the distance
    // to the empty prefix of `b` is i itself.
    let mut prev: Vec<usize> = Vec::new();
    let mut j: usize = 0;
    while j < b_len
        invariant
            j <= b_len,
            b_len == b@.len(),
            prev@.len() == j,
            forall|k: int| 0 <= k < j ==> prev@[k] == k + 1,
        decreases b_len - j,
    {
        prev.push(j + 1);
        j = j + 1;
    }
    assert forall|k: int| 0 <= k < b_len implies prev@[k] == edit_distance(
        a@.take(0),
        b@.take(k + 1),
    ) by {
        assert(a@.take(0).len() == 0);
    }
    let mut curr: Vec<usize> = prev.clone();
    let mut i: usize = 0;
    while i < a_len
        invariant
            a_len == a@.len(),
            b_len == b@.len(),
            0 < b_len,
            i <= a_len,
            prev@.len() == b_len,
            curr@.len() == b_len,
            forall|k: int|
                0 <= k < b_len ==> #[trigger] prev@[k] == edit_distance(
                    a@.take(i as int),
                    b@.take(k + 1),
                ),
        decreases a_len - i,
    {
        let ghost ai = a@.take(i as int);
        let ghost ai1 = a@.take(i + 1);
        assert(ai1.drop_last() =~= ai);
        assert(ai1.last() == a@[i as int]);
        assert(b@.take(0).len() == 0);
        let a_ch = a[i];
        let mut left: usize = i + 1;
        let mut diag: usize = i;
        let mut j: usize = 0;
        while j < b_len
            invariant
                a_len == a@.len(),
                b_len == b@.len(),
                0 < b_len,
                i < a_len,
                j <= b_len,
                a_ch == a@[i as int],
                ai == a@.take(i as int),
                ai1 == a@.take(i + 1),
                ai1.drop_last() == ai,
                ai1.last() == a_ch,
                prev@.len() == b_len,
                curr@.len() == b_len,
                left == edit_distance(ai1, b@.take(j as int)),
                diag == edit_distance(ai, b@.take(j as int)),
                forall|k: int|
                    0 <= k < b_len ==> #[trigger] prev@[k] == edit_distance(ai, b@.take(k + 1)),
                forall|k: int|
                    0 <= k < j ==> #[trigger] curr@[k] == edit_distance(ai1, b@.take(k + 1)),
            decreases b_len - j,
        {
            let ghost bj1 = b@.take(j + 1);
            assert(bj1.drop_last() =~= b@.take(j as int));
            assert(bj1.last() == b@[j as int]);
            proof {
                lemma_edit_distance_bounds(ai1, bj1);
            }
            let up = prev[j];
            let cost: u128 = if a_ch == b[j] {
                0
            } else {
                1
            };
            let ins = left as u128 + 1;
            let del = up as u128 + 1;
            let sub = diag as u128 + cost;
            let best_of_two = if ins <= del {
                ins
            } else {
                del
            };
            let best128 = if best_of_two <= sub {
                best_of_two
            } else {
                sub
            };
            assert(best128 == edit_distance(ai1, bj1));
            assert(best128 <= usize::MAX) by {
                assert(i + 1 <= a_len && j + 1 <= b_len);
            }
            let best = best128 as usize;
            curr.set(j, best);
            diag = up;
            left = best;
            j = j + 1;
        }
        let tmp = prev;
        prev = curr;
        curr = tmp;
        i = i + 1;
    }
    assert(a@.take(a_len as int) =~= a@);
    assert(b@.take(b_len as int) =~= b@);
    prev[b_len - 1]
}

/// Compute the Levenshtein distance between two strings, counted in
/// characters.
pub fn levenshtein(a: &str, b: &str) -> (d: usize)
    ensures
        d == edit_distance(a@, b@),
{
    let a_chars = chars_of(a);
    let b_chars = chars_of(b);
    edit_distance_chars(a_chars.as_slice(), b_chars.as_slice())
}

/// Type of match.
#[derive(Debug, Clone, Copy, PartialEq, Eq, Structural)]
pub enum MatchKind {
    /// Exact equality.
    Exact,
    /// Prefix match.
    Prefix,
    /// Substring match.
    Substring,
    /// Fuzzy (Levenshtein) match.
    Fuzzy,
}

/// `p` is a prefix of `s`.
pub open spec fn is_prefix_of(p: Seq<char>, s: Seq<char>) -> bool {
    p.len() <= s.len() && s.take(p.len() as int) == p
}

/// `p` occurs in `s` as a contiguous run.
pub open spec fn occurs_in(p: Seq<char>, s: Seq<char>) -> bool {
    exists|i: int| 0 <= i && i + p.len() <= s.len() && #[trigger] s.subrange(i, i + p.len()) == p
}

/// The length of `s` in bytes once encoded as UTF-8.
pub open spec fn utf8_len(s: Seq<char>) -> nat {
    encode_utf8(s).len()
}

/// How a lower-cased query `q` matches a lower-cased candidate `c`, given
/// their lengths in bytes: exact, prefix, substring, or fuzzy when the edit
/// distance is at most 2 and at most 40% of the longer byte length.
pub open spec fn match_kind(q: Seq<char>, c: Seq<char>, q_bytes: nat, c_bytes: nat) -> Option<
    MatchKind,
> {
    let d = edit_distance(q, c);
    let m = max_nat(q_bytes, c_bytes);
    if c == q {
        Some(MatchKind::Exact)
    } else if is_prefix_of(q, c) {
        Some(MatchKind::Prefix)
    } else if occurs_in(q, c) {
        Some(MatchKind::Substring)
    } else if m > 0 && d <= 2 && 5 * d <= 2 * m {
        Some(MatchKind::Fuzzy)
    } else {
        None
    }
}

/// Whether `p` is a prefix of `s[start..]`.
fn matches_at(s: &[char], p: &[char], start: usize) -> (r: bool)
    requires
        start + p@.len() <= s@.len(),
    ensures
        r == (s@.subrange(start as int, start + p@.len()) == p@),
{
    let n = s.len();
    let mut k: usize = 0;
    while k < p.len()
        invariant
            n == s@.len(),
            start + p@.len() <= s@.len(),
            k <= p@.len(),
            forall|j: int| 0 <= j < k ==> s@[start + j] == p@[j],
        decreases p@.len() - k,
    {
        if s[start + k] != p[k] {
            assert(s@.subrange(start as int, start + p@.len())[k as int] != p@[k as int]);
            return false;
        }
        k = k + 1;
    }
    assert(s@.subrange(start as int, start + p@.len()) =~= p@);
    true
}

/// Whether `p` occurs anywhere in `s`.
fn occurs(s: &[char], p: &[char]) -> (r: bool)
    ensures
        r == occurs_in(p@, s@),
{
    if p.len() > s.len() {
        return false;
    }
    let last = s.len() - p.len();
    let mut i: usize = 0;
    loop
        invariant
            last == s@.len() - p@.len(),
            p@.len() <= s@.len(),
            i <= last,
            forall|j: int| 0 <= j < i ==> #[trigger] s@.subrange(j, j + p@.len()) != p@,
        decreases last - i,
    {
        if matches_at(s, p, i) {
            return true;
        }
        if i == last {
            return false;
        }
        i = i + 1;
    }
}

/// Classify how the lower-cased query `q` matches the lower-cased candidate
/// `c`, whose UTF-8 lengths are `q_bytes` and `c_bytes`.
pub fn classify(q: &[char], c: &[char], q_bytes: usize, c_bytes: usize) -> (r: Option<
    (MatchKind, usize),
>)
    ensures
        r.is_some() <==> match_kind(q@, c@, q_bytes as nat, c_bytes as nat).is_some(),
        r matches Some((kind, d)) ==> {
            &&& Some(kind) == match_kind(q@, c@, q_bytes as nat, c_bytes as nat)
            &&& kind == MatchKind::Fuzzy ==> d == edit_distance(q@, c@)
            &&& kind != MatchKind::Fuzzy ==> d == 0
        },
{
    if q.len() <= c.len() {
        let head = matches_at(c, q, 0);
        assert(c@.take(q@.len() as int) =~= c@.subrange(0, q@.len() as int));
        if head {
            if q.len() == c.len() {
                assert(c@.subrange(0, q@.len() as int) =~= c@);
                return Some((MatchKind::Exact, 0));
            }
            return Some((MatchKind::Prefix, 0));
        }
        assert(c@.len() == q@.len() ==> c@.subrange(0, q@.len() as int) =~= c@);
    }
    if occurs(c, q) {
        return Some((MatchKind::Substring, 0));
    }
    let d = edit_distance_chars(q, c);
    let m = if q_bytes >= c_bytes {
        q_bytes
    } else {
        c_bytes
    };
    if m > 0 && d <= 2 && 5 * (d as u128) <= 2 * (m as u128) {
        Some((MatchKind::Fuzzy, d))
    } else {
        None
    }
}

/// The Unicode lower-case mapping of a string, as `str::to_lowercase`
/// computes it.
pub uninterp spec fn lowercase(s: Seq<char>) -> Seq<char>;

/// The lower-case form of `c` in the blocks whose case mapping is stated
/// here, all of whose letters lower-case to a single character with no
/// context rule: Basic Latin and Latin-1 (`A`..`Z`, `À`..`Þ` but `×`, shift
/// by 0x20), basic Greek capitals but `Σ` (shift by 0x20), and basic Cyrillic
/// (`Ѐ`..`Џ` shift by 0x50, `А`..`Я` by 0x20); every other character of those
/// blocks is its own lower-case form. `None` outside them.
pub open spec fn simple_lower(c: char) -> Option<char> {
    if ('A' <= c <= 'Z') || ('\u{C0}' <= c <= '\u{DE}' && c != '\u{D7}') || ('\u{391}' <= c
        <= '\u{3A9}' && c != '\u{3A2}' && c != '\u{3A3}') || ('\u{410}' <= c <= '\u{42F}') {
        Some(((c as u32) + 0x20) as char)
    } else if '\u{400}' <= c <= '\u{40F}' {
        Some(((c as u32) + 0x50) as char)
    } else if (c <= '\u{FF}') || ('\u{3B1}' <= c <= '\u{3C9}') || ('\u{430}' <= c
        <= '\u{45F}') {
        Some(c)
    } else {
        None
    }
}

/// Every character of `s` lies in the blocks of `simple_lower`.
pub open spec fn lowers_simply(s: Seq<char>) -> bool {
    forall|i: int| 0 <= i < s.len() ==> #[trigger] simple_lower(s[i]) is Some
}

/// `s` lower-cased character by character with `simple_lower`.
pub open spec fn simple_lowercase(s: Seq<char>) -> Seq<char> {
    Seq::new(s.len(), |i: int| simple_lower(s[i]).unwrap())
}

/// The lower-case form of `s`: character by character where every character
/// lies in the blocks of `simple_lower`, else the full Unicode mapping.
pub open spec fn lowercased(s: Seq<char>) -> Seq<char> {
    if lowers_simply(s) {
        simple_lowercase(s)
    } else {
        lowercase(s)
    }
}

/// Calls `str::to_lowercase`, which maps every character to its Unicode
/// lower-case form. Its result is named `lowercase` of the argument. Of the
/// mapping, only the blocks of `simple_lower` are stated: there each
/// character lower-cases to one character with no context rule (the one
/// context rule, for final `Σ`, is outside them), so the result is the
/// character-by-character mapping. Other characters (such as `İ`, which
/// lower-cases to two characters) are left to the name.
#[verifier::external_body]
pub(crate) fn to_lowercase(s: &str) -> (r: String)
    ensures
        r@ == lowercase(s@),
        lowers_simply(s@) ==> r@ == simple_lowercase(s@),
{
    s.to_lowercase()
}

/// A candidate that matched a query, with what its relevance score is made of.
#[derive(Debug, Clone)]
pub struct FuzzyMatch {
    /// Candidate string, as given.
    pub text: String,
    /// Match kind.
    pub kind: MatchKind,
    /// Length in bytes of the lower-cased query.
    pub query_len: usize,
    /// Length in bytes of the lower-cased candidate.
    pub candidate_len: usize,
    /// Edit distance between the lower-cased strings (fuzzy matches only; 0 otherwise).
    pub distance: usize,
}

/// How `query` matches `candidate`, both lower-cased first: the kind, the two
/// lengths in bytes, and the edit distance for a fuzzy match. `None` when they
/// do not match.
pub open spec fn scored(query: Seq<char>, candidate: Seq<char>) -> Option<
    (MatchKind, nat, nat, nat),
> {
    let q = lowercased(query);
    let c = lowercased(candidate);
    match match_kind(q, c, utf8_len(q), utf8_len(c)) {
        Some(kind) => Some(
            (
                kind,
                utf8_len(q),
                utf8_len(c),
                if kind == MatchKind::Fuzzy {
                    edit_distance(q, c)
                } else {
                    0
                },
            ),
        ),
        None => None,
    }
}

/// `m` is the match of `query` against `candidate` that `scored` describes.
pub open spec fn is_match_of(m: FuzzyMatch, query: Seq<char>, candidate: Seq<char>) -> bool {
    &&& scored(query, candidate) is Some
    &&& m.text@ == candidate
    &&& (m.kind, m.query_len as nat, m.candidate_len as nat, m.distance as nat) == scored(
        query,
        candidate,
    ).unwrap()
}

/// Numerator of the relevance score of `m`, a fraction in `[0, 1]`: 1 for an
/// exact match; `0.8 + 0.2 * q / c` capped at 0.99 for a prefix; `0.5 + 0.2 *
/// q / c` capped at 0.79 for a substring; `0.45 * (1 - d / max(q, c))` for a
/// fuzzy match, where `q` and `c` are the byte lengths and `d` the distance.
pub open spec fn score_num(m: FuzzyMatch) -> int {
    let q = m.query_len as int;
    let c = m.candidate_len as int;
    let mx = if q >= c {
        q
    } else {
        c
    };
    match m.kind {
        MatchKind::Exact => 1,
        MatchKind::Prefix => if 20 * q >= 19 * c {
            99
        } else {
            4 * c + q
        },
        MatchKind::Substring => if 20 * q >= 29 * c {
            79
        } else {
            5 * c + 2 * q
        },
        MatchKind::Fuzzy => 9 * (mx - m.distance),
    }
}

/// Denominator of the relevance score of `m`; see `score_num`.
pub open spec fn score_den(m: FuzzyMatch) -> int {
    let q = m.query_len as int;
    let c = m.candidate_len as int;
    let mx = if q >= c {
        q
    } else {
        c
    };
    match m.kind {
        MatchKind::Exact => 1,
        MatchKind::Prefix => if 20 * q >= 19 * c {
            100
        } else {
            5 * c
        },
        MatchKind::Substring => if 20 * q >= 29 * c {
            100
        } else {
            10 * c
        },
        MatchKind::Fuzzy => 20 * mx,
    }
}

/// The score of `m` is well defined: its denominator is positive and a fuzzy
/// distance does not exceed the longer length.
pub open spec fn score_defined(m: FuzzyMatch) -> bool {
    let mx = if m.query_len >= m.candidate_len {
        m.query_len
    } else {
        m.candidate_len
    };
    &&& (m.kind == MatchKind::Prefix || m.kind == MatchKind::Substring) ==> m.candidate_len > 0
    &&& m.kind == MatchKind::Fuzzy ==> mx > 0 && m.distance <= mx
}

/// `a` has a strictly higher relevance score than `b`.
pub open spec fn scores_higher(a: FuzzyMatch, b: FuzzyMatch) -> bool {
    score_num(a) * score_den(b) > score_num(b) * score_den(a)
}

/// `a` and `b` have the same relevance score.
pub open spec fn scores_equal(a: FuzzyMatch, b: FuzzyMatch) -> bool {
    score_num(a) * score_den(b) == score_num(b) * score_den(a)
}

/// A non-empty character string has a non-empty UTF-8 encoding.
proof fn lemma_utf8_len_positive(s: Seq<char>)
    requires
        s.len() > 0,
    ensures
        utf8_len(s) > 0,
{
    assert(encode_utf8(s) == encode_scalar(s[0] as u32) + encode_utf8(s.drop_first()));
}

/// Score a candidate against a query, ignoring case.
///
/// Returns `None` if the candidate does not match.
pub fn score(query: &str, candidate: &str) -> (r: Option<FuzzyMatch>)
    ensures
        r is Some <==> scored(query@, candidate@) is Some,
        r matches Some(m) ==> is_match_of(m, query@, candidate@) && score_defined(m),
{
    let q_low = to_lowercase(query);
    let c_low = to_lowercase(candidate);
    let q = chars_of(q_low.as_str());
    let c = chars_of(c_low.as_str());
    let q_bytes = q_low.as_str().as_bytes().len();
    let c_bytes = c_low.as_str().as_bytes().len();
    match classify(q.as_slice(), c.as_slice(), q_bytes, c_bytes) {
        Some((kind, distance)) => {
            proof {
                if kind == MatchKind::Prefix || kind == MatchKind::Substring {
                    assert(c@.len() > 0) by {
                        if c@.len() == 0 {
                            assert(q@.len() == 0 ==> q@ =~= c@);
                            if kind == MatchKind::Substring {
                                let i = choose|i: int|
                                    0 <= i && i + q@.len() <= c@.len() && #[trigger] c@.subrange(
                                        i,
                                        i + q@.len(),
                                    ) == q@;
                                assert(q@ =~= c@);
                            }
                        }
                    }
                    lemma_utf8_len_positive(c@);
                }
            }
            Some(
                FuzzyMatch {
                    text: candidate.to_owned(),
                    kind,
                    query_len: q_bytes,
                    candidate_len: c_bytes,
                    distance,
                },
            )
        },
        None => None,
    }
}

/// Relevance scores lie in `[0, 1]`, in the band of their kind: exact 1;
/// prefix in `[0.8, 0.99]`; substring in `[0.5, 0.79]`; fuzzy in `[0, 0.45]`.
pub proof fn lemma_score_band(m: FuzzyMatch)
    requires
        score_defined(m),
    ensures
        score_den(m) > 0,
        0 <= score_num(m) <= score_den(m),
        m.kind == MatchKind::Exact ==> score_num(m) == score_den(m),
        m.kind == MatchKind::Prefix ==> 5 * score_num(m) >= 4 * score_den(m) && 100 * score_num(m)
            <= 99 * score_den(m),
        m.kind == MatchKind::Substring ==> 2 * score_num(m) >= score_den(m) && 100 * score_num(m)
            <= 79 * score_den(m),
        m.kind == MatchKind::Fuzzy ==> 20 * score_num(m) <= 9 * score_den(m),
{
}

/// From bounds `a >= p1/q1` and `b <= p2/q2` with `p1/q1 > p2/q2`, the
/// fraction `na/da` exceeds `nb/db`.
proof fn lemma_fraction_separated(na: int, da: int, nb: int, db: int, p1: int, q1: int, p2: int, q2: int)
    requires
        da > 0,
        db > 0,
        q1 > 0,
        q2 > 0,
        q1 * na >= p1 * da,
        q2 * nb <= p2 * db,
        p1 * q2 > p2 * q1,
    ensures
        na * db > nb * da,
{
    assert(q1 * q2 * na * db >= p1 * q2 * da * db) by (nonlinear_arith)
        requires
            q1 * na >= p1 * da,
            q2 > 0,
            db > 0,
    ;
    assert(q1 * q2 * nb * da <= p2 * q1 * db * da) by (nonlinear_arith)
        requires
            q2 * nb <= p2 * db,
            q1 > 0,
            da > 0,
    ;
    assert(p1 * q2 * da * db > p2 * q1 * db * da) by (nonlinear_arith)
        requires
            p1 * q2 > p2 * q1,
            da > 0,
            db > 0,
    ;
    assert(na * db > nb * da) by (nonlinear_arith)
        requires
            q1 * q2 * na * db > q1 * q2 * nb * da,
            q1 > 0,
            q2 > 0,
    ;
}

/// A strictly higher score followed by a higher or equal one is strictly higher.
proof fn lemma_higher_transitive(a: FuzzyMatch, b: FuzzyMatch, c: FuzzyMatch)
    requires
        score_defined(a),
        score_defined(b),
        score_defined(c),
        (scores_higher(a, b) && (scores_higher(b, c) || scores_equal(b, c))) || ((scores_higher(
            a,
            b,
        ) || scores_equal(a, b)) && scores_higher(b, c)),
    ensures
        scores_higher(a, c),
{
    lemma_score_band(a);
    lemma_score_band(b);
    lemma_score_band(c);
    let (na, da, nb, db, nc, dc) = (
        score_num(a),
        score_den(a),
        score_num(b),
        score_den(b),
        score_num(c),
        score_den(c),
    );
    assert(na * dc > nc * da) by (nonlinear_arith)
        requires
            da > 0,
            db > 0,
            dc > 0,
            na * db >= nb * da,
            nb * dc >= nc * db,
            na * db > nb * da || nb * dc > nc * db,
    ;
}

/// The order of match kinds: exact above prefix above substring above fuzzy.
pub open spec fn kind_order(k: MatchKind) -> nat {
    match k {
        MatchKind::Exact => 3,
        MatchKind::Prefix => 2,
        MatchKind::Substring => 1,
        MatchKind::Fuzzy => 0,
    }
}

/// The order of a match kind, see `kind_order`.
fn kind_rank(k: MatchKind) -> (r: u8)
    ensures
        r == kind_order(k),
{
    match k {
        MatchKind::Exact => 3,
        MatchKind::Prefix => 2,
        MatchKind::Substring => 1,
        MatchKind::Fuzzy => 0,
    }
}

/// Kinds rank strictly: every exact match outscores every prefix match,
/// which outscores every substring match, which outscores every fuzzy match.
pub proof fn lemma_kind_order(a: FuzzyMatch, b: FuzzyMatch)
    requires
        score_defined(a),
        score_defined(b),
        kind_order(a.kind) > kind_order(b.kind),
    ensures
        scores_higher(a, b),
{
    lemma_score_band(a);
    lemma_score_band(b);
    let (na, da, nb, db) = (score_num(a), score_den(a), score_num(b), score_den(b));
    if a.kind == MatchKind::Exact {
        if b.kind == MatchKind::Prefix {
            lemma_fraction_separated(na, da, nb, db, 1, 1, 99, 100);
        } else if b.kind == MatchKind::Substring {
            lemma_fraction_separated(na, da, nb, db, 1, 1, 79, 100);
        } else {
            lemma_fraction_separated(na, da, nb, db, 1, 1, 9, 20);
        }
    } else if a.kind == MatchKind::Prefix {
        if b.kind == MatchKind::Substring {
            lemma_fraction_separated(na, da, nb, db, 4, 5, 79, 100);
        } else {
            lemma_fraction_separated(na, da, nb, db, 4, 5, 9, 20);
        }
    } else {
        lemma_fraction_separated(na, da, nb, db, 1, 2, 9, 20);
    }
}

/// `q` and `c` differ at most in letter case: they have the same length and,
/// position by position, characters of the blocks of `simple_lower` with the
/// same lower-case form.
pub open spec fn same_up_to_case(q: Seq<char>, c: Seq<char>) -> bool {
    &&& q.len() == c.len()
    &&& forall|i: int|
        0 <= i < q.len() ==> #[trigger] simple_lower(q[i]) is Some && simple_lower(q[i])
            == simple_lower(c[i])
}

/// Lower-casing is idempotent on the stated blocks: a lower-case form is its
/// own lower-case form.
pub proof fn lemma_simple_lower_idempotent(c: char)
    requires
        simple_lower(c) is Some,
    ensures
        simple_lower(simple_lower(c).unwrap()) == simple_lower(c),
{
}

/// Matching ignores case: a query matches every candidate that differs from
/// it only in letter case exactly, in either order (`КАЛЕНДАРЬ` matches
/// `календарь` exactly).
pub proof fn lemma_case_variants_match_exactly(q: Seq<char>, c: Seq<char>)
    requires
        same_up_to_case(q, c),
    ensures
        scored(q, c) matches Some((kind, _, _, _)) && kind == MatchKind::Exact,
        scored(c, q) matches Some((kind, _, _, _)) && kind == MatchKind::Exact,
{
    assert(lowers_simply(q));
    assert(lowers_simply(c)) by {
        assert forall|i: int| 0 <= i < c.len() implies #[trigger] simple_lower(c[i]) is Some by {
            assert(simple_lower(q[i]) is Some);
        }
    }
    assert(simple_lowercase(q) =~= simple_lowercase(c));
}

/// A query always matches itself exactly, whatever its case.
pub proof fn lemma_self_match_is_exact(query: Seq<char>)
    ensures
        scored(query, query) matches Some((kind, _, _, _)) && kind == MatchKind::Exact,
{
}

/// Whether `a` has a strictly higher relevance score than `b`.
pub fn ranks_above(a: &FuzzyMatch, b: &FuzzyMatch) -> (r: bool)
    requires
        score_defined(*a),
        score_defined(*b),
    ensures
        r == scores_higher(*a, *b),
{
    proof {
        lemma_score_band(*a);
        lemma_score_band(*b);
    }
    let ghost (na, da, nb, db) = (score_num(*a), score_den(*a), score_num(*b), score_den(*b));
    let ra = kind_rank(a.kind);
    let rb = kind_rank(b.kind);
    if ra != rb {
        proof {
            if ra > rb {
                lemma_kind_order(*a, *b);
            } else {
                lemma_kind_order(*b, *a);
            }
        }
        return ra > rb;
    }
    let qa = a.query_len as u128;
    let ca = a.candidate_len as u128;
    let qb = b.query_len as u128;
    let cb = b.candidate_len as u128;
    assert(qa * cb <= 0xffff_ffff_ffff_ffffu128 * 0xffff_ffff_ffff_ffffu128) by (nonlinear_arith)
        requires
            qa <= 0xffff_ffff_ffff_ffffu128,
            cb <= 0xffff_ffff_ffff_ffffu128,
    ;
    assert(qb * ca <= 0xffff_ffff_ffff_ffffu128 * 0xffff_ffff_ffff_ffffu128) by (nonlinear_arith)
        requires
            qb <= 0xffff_ffff_ffff_ffffu128,
            ca <= 0xffff_ffff_ffff_ffffu128,
    ;
    match a.kind {
        MatchKind::Exact => {
            assert(b.kind == MatchKind::Exact);
            assert(score_num(*a) * score_den(*b) == 1);
            assert(score_num(*b) * score_den(*a) == 1);
            false
        },
        MatchKind::Prefix => {
            let cap_a = 20 * qa >= 19 * ca;
            let cap_b = 20 * qb >= 19 * cb;
            if cap_a || cap_b {
                cap_a && !cap_b
            } else {
                assert((4 * ca + qa) * (5 * cb) > (4 * cb + qb) * (5 * ca) <==> qa * cb > qb * ca)
                    by (nonlinear_arith);
                qa * cb > qb * ca
            }
        },
        MatchKind::Substring => {
            let cap_a = 20 * qa >= 29 * ca;
            let cap_b = 20 * qb >= 29 * cb;
            if cap_a || cap_b {
                cap_a && !cap_b
            } else {
                assert((5 * ca + 2 * qa) * (10 * cb) > (5 * cb + 2 * qb) * (10 * ca) <==> qa * cb
                    > qb * ca) by (nonlinear_arith);
                qa * cb > qb * ca
            }
        },
        MatchKind::Fuzzy => {
            let ma = if qa >= ca {
                qa
            } else {
                ca
            };
            let mb = if qb >= cb {
                qb
            } else {
                cb
            };
            let dsa = a.distance as u128;
            let dsb = b.distance as u128;
            assert(dsb * ma <= 0xffff_ffff_ffff_ffffu128 * 0xffff_ffff_ffff_ffffu128)
                by (nonlinear_arith)
                requires
                    dsb <= 0xffff_ffff_ffff_ffffu128,
                    ma <= 0xffff_ffff_ffff_ffffu128,
            ;
            assert(dsa * mb <= 0xffff_ffff_ffff_ffffu128 * 0xffff_ffff_ffff_ffffu128)
                by (nonlinear_arith)
                requires
                    dsa <= 0xffff_ffff_ffff_ffffu128,
                    mb <= 0xffff_ffff_ffff_ffffu128,
            ;
            assert(9 * (ma - dsa) * (20 * mb) > 9 * (mb - dsb) * (20 * ma) <==> dsb * ma > dsa
                * mb) by (nonlinear_arith);
            dsb * ma > dsa * mb
        },
    }
}

/// The character strings of a haystack.
pub open spec fn texts(haystack: Seq<&str>) -> Seq<Seq<char>> {
    haystack.map_values(|s: &str| s@)
}

/// `r` lists the matches of `query` among `hay`, best score first; `idx[k]`
/// is the position in `hay` of the candidate behind `r[k]`. Every matching
/// candidate appears, and candidates with equal scores keep their order.
pub open spec fn is_ranking(
    query: Seq<char>,
    hay: Seq<Seq<char>>,
    r: Seq<FuzzyMatch>,
    idx: Seq<int>,
) -> bool {
    &&& idx.len() == r.len()
    &&& forall|k: int|
        #![trigger r[k]]
        #![trigger idx[k]]
        0 <= k < r.len() ==> 0 <= idx[k] < hay.len() && is_match_of(
            r[k],
            query,
            hay[idx[k]],
        ) && score_defined(r[k])
    &&& forall|i: int|
        0 <= i < hay.len() && #[trigger] scored(query, hay[i]) is Some ==> exists|k: int|
            0 <= k < r.len() && idx[k] == i
    &&& forall|k: int, l: int|
        0 <= k < l < r.len() ==> scores_higher(r[k], r[l]) || (scores_equal(r[k], r[l])
            && idx[k] < idx[l])
}

/// Adding a candidate that does not match keeps a ranking a ranking.
proof fn lemma_skip_keeps_ranking(
    query: Seq<char>,
    h_i: Seq<Seq<char>>,
    h_i1: Seq<Seq<char>>,
    out: Seq<FuzzyMatch>,
    idx: Seq<int>,
)
    requires
        is_ranking(query, h_i, out, idx),
        h_i1.len() == h_i.len() + 1,
        forall|j: int| 0 <= j < h_i.len() ==> h_i1[j] == h_i[j],
        scored(query, h_i1[h_i.len() as int]) is None,
    ensures
        is_ranking(query, h_i1, out, idx),
{
    assert forall|j: int|
        0 <= j < h_i1.len() && #[trigger] scored(query, h_i1[j]) is Some implies exists|k: int|
        0 <= k < out.len() && idx[k] == j by {
        assert(h_i1[j] == h_i[j]);
        assert(scored(query, h_i[j]) is Some);
    }
    assert forall|k: int| 0 <= k < out.len() implies 0 <= #[trigger] idx[k] < h_i1.len()
        && is_match_of(out[k], query, h_i1[idx[k]]) && score_defined(out[k]) by {
        assert(h_i1[idx[k]] == h_i[idx[k]]);
    }
}

/// Inserting the match of the next candidate before the first entry it
/// strictly outscores keeps a ranking a ranking.
#[verifier::spinoff_prover]
#[verifier::rlimit(40)]
proof fn lemma_insert_keeps_ranking(
    query: Seq<char>,
    h_i: Seq<Seq<char>>,
    h_i1: Seq<Seq<char>>,
    old_out: Seq<FuzzyMatch>,
    old_idx: Seq<int>,
    m: FuzzyMatch,
    pos: int,
)
    requires
        is_ranking(query, h_i, old_out, old_idx),
        h_i1.len() == h_i.len() + 1,
        forall|j: int| 0 <= j < h_i.len() ==> h_i1[j] == h_i[j],
        is_match_of(m, query, h_i1[h_i.len() as int]),
        score_defined(m),
        0 <= pos <= old_out.len(),
        forall|j: int| 0 <= j < pos ==> !scores_higher(m, #[trigger] old_out[j]),
        pos < old_out.len() ==> scores_higher(m, old_out[pos]),
    ensures
        is_ranking(query, h_i1, old_out.insert(pos, m), old_idx.insert(pos, h_i.len() as int)),
{
    let i = h_i.len() as int;
    let out = old_out.insert(pos, m);
    let idx = old_idx.insert(pos, i);
    assert forall|k: int| 0 <= k < out.len() implies 0 <= #[trigger] idx[k] < h_i1.len()
        && is_match_of(out[k], query, h_i1[idx[k]]) && score_defined(out[k]) by {
        if k < pos {
            assert(out[k] == old_out[k]);
            assert(idx[k] == old_idx[k]);
        } else if k > pos {
            assert(out[k] == old_out[k - 1]);
            assert(idx[k] == old_idx[k - 1]);
        }
    }
    assert forall|j: int|
        0 <= j < h_i1.len() && #[trigger] scored(query, h_i1[j]) is Some implies exists|k: int|
        0 <= k < out.len() && idx[k] == j by {
        if j == i {
            assert(idx[pos] == j);
        } else {
            assert(h_i1[j] == h_i[j]);
            assert(scored(query, h_i[j]) is Some);
            let k0 = choose|k: int| 0 <= k < old_out.len() && old_idx[k] == j;
            if k0 < pos {
                assert(idx[k0] == j);
            } else {
                assert(idx[k0 + 1] == j);
            }
        }
    }
    assert forall|k: int, l: int| 0 <= k < l < out.len() implies scores_higher(out[k], out[l]) || (
    scores_equal(out[k], out[l]) && idx[k] < idx[l]) by {
        if l < pos {
            assert(out[k] == old_out[k] && out[l] == old_out[l]);
            assert(idx[k] == old_idx[k] && idx[l] == old_idx[l]);
        } else if l == pos {
            assert(out[k] == old_out[k] && idx[k] == old_idx[k]);
            assert(!scores_higher(m, old_out[k]));
            assert(old_idx[k] < i);
        } else if k > pos {
            assert(out[k] == old_out[k - 1] && out[l] == old_out[l - 1]);
            assert(idx[k] == old_idx[k - 1] && idx[l] == old_idx[l - 1]);
        } else if k == pos {
            assert(out[l] == old_out[l - 1]);
            if l - 1 > pos {
                lemma_higher_transitive(m, old_out[pos], old_out[l - 1]);
            }
        } else {
            assert(out[k] == old_out[k] && out[l] == old_out[l - 1]);
            assert(idx[k] == old_idx[k] && idx[l] == old_idx[l - 1]);
            assert(!scores_higher(m, old_out[k]));
            if l - 1 > pos {
                lemma_higher_transitive(m, old_out[pos], old_out[l - 1]);
            }
            lemma_higher_transitive(old_out[k], m, old_out[l - 1]);
        }
    }
}

/// Search a haystack and return the matches, ranked by score, best first;
/// matches with equal scores stay in haystack order.
pub fn search(query: &str, haystack: &[&str]) -> (r: Vec<FuzzyMatch>)
    ensures
        exists|idx: Seq<int>| is_ranking(query@, texts(haystack@), r@, idx),
{
    let ghost hay = texts(haystack@);
    let mut out: Vec<FuzzyMatch> = Vec::new();
    let ghost mut idx: Seq<int> = Seq::empty();
    let mut i: usize = 0;
    while i < haystack.len()
        invariant
            i <= haystack@.len(),
            hay == texts(haystack@),
            hay.len() == haystack@.len(),
            is_ranking(query@, hay.take(i as int), out@, idx),
        decreases haystack@.len() - i,
    {
        let ghost h_i = hay.take(i as int);
        let ghost h_i1 = hay.take(i + 1);
        assert(hay[i as int] == haystack@[i as int]@);
        assert(forall|j: int| 0 <= j < i ==> h_i1[j] == h_i[j]);
        match score(query, haystack[i]) {
            Some(m) => {
                let mut pos: usize = 0;
                while pos < out.len()
                    invariant
                        pos <= out@.len(),
                        score_defined(m),
                        is_ranking(query@, h_i, out@, idx),
                        forall|j: int| 0 <= j < pos ==> !scores_higher(m, #[trigger] out@[j]),
                    ensures
                        pos <= out@.len(),
                        forall|j: int| 0 <= j < pos ==> !scores_higher(m, #[trigger] out@[j]),
                        pos < out@.len() ==> scores_higher(m, out@[pos as int]),
                    decreases out@.len() - pos,
                {
                    if ranks_above(&m, &out[pos]) {
                        break;
                    }
                    pos = pos + 1;
                }
                let ghost old_out = out@;
                let ghost old_idx = idx;
                out.insert(pos, m);
                proof {
                    lemma_insert_keeps_ranking(
                        query@,
                        h_i,
                        h_i1,
                        old_out,
                        old_idx,
                        m,
                        pos as int,
                    );
                    idx = old_idx.insert(pos as int, i as int);
                }
            },
            None => {
                proof {
                    lemma_skip_keeps_ranking(query@, h_i, h_i1, out@, idx);
                }
            },
        }
        i = i + 1;
    }
    assert(hay.take(haystack@.len() as int) =~= hay);
    out
}

} // verus!
