//! Fuzzy subsequence matching with a score that favours prefixes, word
//! boundaries and consecutive runs.

use vstd::prelude::*;

use crate::rank::{keys_view, lemma_rank_lt_asym, rank_lt, rank_positions, rank_sorted, RankKey, RankView};
use crate::text::{
    chars_contain, chars_eq, chars_start_with, is_prefix, lowercase_of, occurs_in, str_chars,
    lemma_trimmed_idempotent, to_lowercase, trim, trimmed,
};

verus! {

/// Candidates with at least this many (lowercase) characters are not scored.
pub const MAX_SCORED_CHARS: u64 = 0x0100_0000_0000_0000;

/// ASCII letters and digits.
pub open spec fn is_ascii_alnum(c: char) -> bool {
    ('0' <= c && c <= '9') || ('a' <= c && c <= 'z') || ('A' <= c && c <= 'Z')
}

/// A character that separates words: anything but an ASCII letter or digit.
pub open spec fn spec_is_boundary(c: char) -> bool {
    !is_ascii_alnum(c)
}

fn is_boundary(ch: char) -> (r: bool)
    ensures
        r == spec_is_boundary(ch),
{
    !(('0' <= ch && ch <= '9') || ('a' <= ch && ch <= 'z') || ('A' <= ch && ch <= 'Z'))
}

pub open spec fn min_int(a: int, b: int) -> int {
    if a < b {
        a
    } else {
        b
    }
}

/// What matching the query character at candidate position `i` adds to the
/// score, given the position of the previous match.
pub open spec fn match_bonus(c: Seq<char>, i: int, prev: Option<int>) -> int {
    let position: int = if i == 0 {
        20
    } else if spec_is_boundary(c[i - 1]) {
        12
    } else {
        0
    };
    let run: int = match prev {
        Some(p) => if i == p + 1 {
            18
        } else {
            -min_int(i - p - 1, 6)
        },
        None => -min_int(i, 8),
    };
    10 + position + run
}

/// The greedy left-to-right scan: from candidate position `i`, with `qi` query
/// characters matched so far, the previous match at `prev` and the score so far,
/// returns the number of query characters matched and the score.
pub open spec fn scan(c: Seq<char>, q: Seq<char>, i: int, qi: int, prev: Option<int>, score: int) -> (
    int,
    int,
)
    decreases c.len() - i,
{
    if i < 0 || i >= c.len() || qi < 0 || qi >= q.len() {
        (qi, score)
    } else if c[i] != q[qi] {
        scan(c, q, i + 1, qi, prev, score)
    } else {
        scan(c, q, i + 1, qi + 1, Some(i), score + match_bonus(c, i, prev))
    }
}

/// The bonus for the query as a whole: equal, a prefix, or contained.
pub open spec fn whole_bonus(q: Seq<char>, c: Seq<char>) -> int {
    if c == q {
        100
    } else if is_prefix(q, c) {
        60
    } else if occurs_in(q, c) {
        35
    } else {
        0
    }
}

/// The score of an already normalised query against an already normalised
/// candidate: `None` when the query is not a subsequence of the candidate.
pub open spec fn chars_score(q: Seq<char>, c: Seq<char>) -> Option<int> {
    if q.len() == 0 {
        Some(0)
    } else {
        let (qi, s) = scan(c, q, 0, 0, None, 0);
        if qi != q.len() {
            None
        } else {
            Some(s + whole_bonus(q, c) - min_int(c.len() as int, 24))
        }
    }
}

/// The score of `query` against `candidate`: the query is trimmed, both are
/// lowercased, and the lowercase candidate must be shorter than the cap.
pub open spec fn fuzzy_score_spec(query: Seq<char>, candidate: Seq<char>) -> Option<int> {
    let q = lowercase_of(trimmed(query));
    let c = lowercase_of(candidate);
    if q.len() > 0 && c.len() >= MAX_SCORED_CHARS {
        None
    } else {
        chars_score(q, c)
    }
}

/// `q` from position `qi` on occurs, in order and not necessarily contiguous,
/// in `c` from position `i` on: `idx` lists the positions where its characters
/// are found.
pub open spec fn embeds_at(q: Seq<char>, qi: int, c: Seq<char>, i: int, idx: Seq<int>) -> bool {
    &&& idx.len() == q.len() - qi
    &&& forall|k: int| 0 <= k < idx.len() ==> i <= #[trigger] idx[k] < c.len()
    &&& forall|k: int, l: int| 0 <= k < l < idx.len() ==> idx[k] < idx[l]
    &&& forall|k: int| 0 <= k < idx.len() ==> c[#[trigger] idx[k]] == q[qi + k]
}

/// `q` is a subsequence of `c`: its characters occur in `c` in the same order.
pub open spec fn is_subsequence(q: Seq<char>, c: Seq<char>) -> bool {
    exists|idx: Seq<int>| #[trigger] embeds_at(q, 0, c, 0, idx)
}

/// The greedy scan matches every query character from `qi` on exactly when
/// they occur, in order, in the candidate from `i` on.
proof fn lemma_scan_finds_subsequence(
    c: Seq<char>,
    q: Seq<char>,
    i: int,
    qi: int,
    prev: Option<int>,
    score: int,
)
    requires
        0 <= i <= c.len(),
        0 <= qi <= q.len(),
    ensures
        (scan(c, q, i, qi, prev, score).0 == q.len()) <==> exists|idx: Seq<int>|
            #[trigger] embeds_at(q, qi, c, i, idx),
    decreases c.len() - i,
{
    if qi == q.len() {
        assert(embeds_at(q, qi, c, i, Seq::<int>::empty()));
    } else if i == c.len() {
        assert forall|idx: Seq<int>| !embeds_at(q, qi, c, i, idx) by {
            if embeds_at(q, qi, c, i, idx) {
                assert(i <= idx[0] < c.len());
            }
        }
    } else if c[i] != q[qi] {
        lemma_scan_finds_subsequence(c, q, i + 1, qi, prev, score);
        if exists|idx: Seq<int>| #[trigger] embeds_at(q, qi, c, i, idx) {
            let idx = choose|idx: Seq<int>| #[trigger] embeds_at(q, qi, c, i, idx);
            assert(idx[0] != i);
            assert forall|k: int| 0 <= k < idx.len() implies i + 1 <= #[trigger] idx[k] by {
                if k > 0 {
                    assert(idx[0] < idx[k]);
                }
            }
            assert(embeds_at(q, qi, c, i + 1, idx));
        }
        if exists|idx: Seq<int>| #[trigger] embeds_at(q, qi, c, i + 1, idx) {
            let idx = choose|idx: Seq<int>| #[trigger] embeds_at(q, qi, c, i + 1, idx);
            assert(embeds_at(q, qi, c, i, idx));
        }
    } else {
        let s2: int = score + match_bonus(c, i, prev);
        lemma_scan_finds_subsequence(c, q, i + 1, qi + 1, Some(i), s2);
        if exists|idx: Seq<int>| #[trigger] embeds_at(q, qi, c, i, idx) {
            let idx = choose|idx: Seq<int>| #[trigger] embeds_at(q, qi, c, i, idx);
            let rest = idx.drop_first();
            assert forall|k: int| 0 <= k < rest.len() implies i + 1 <= #[trigger] rest[k] < c.len() by {
                assert(idx[0] < idx[k + 1]);
                assert(i <= idx[0]);
            }
            assert forall|k: int| 0 <= k < rest.len() implies c[#[trigger] rest[k]] == q[qi + 1 + k] by {
                assert(c[idx[k + 1]] == q[qi + (k + 1)]);
            }
            assert forall|k: int, l: int| 0 <= k < l < rest.len() implies rest[k] < rest[l] by {
                assert(idx[k + 1] < idx[l + 1]);
            }
            assert(embeds_at(q, qi + 1, c, i + 1, rest));
        }
        if exists|idx: Seq<int>| #[trigger] embeds_at(q, qi + 1, c, i + 1, idx) {
            let rest = choose|idx: Seq<int>| #[trigger] embeds_at(q, qi + 1, c, i + 1, idx);
            let idx = seq![i].add(rest);
            assert forall|k: int| 0 <= k < idx.len() implies i <= #[trigger] idx[k] < c.len() by {
                if k > 0 {
                    assert(idx[k] == rest[k - 1]);
                }
            }
            assert forall|k: int| 0 <= k < idx.len() implies c[#[trigger] idx[k]] == q[qi + k] by {
                if k > 0 {
                    assert(idx[k] == rest[k - 1]);
                    assert(c[rest[k - 1]] == q[qi + 1 + (k - 1)]);
                }
            }
            assert forall|k: int, l: int| 0 <= k < l < idx.len() implies idx[k] < idx[l] by {
                assert(idx[l] == rest[l - 1]);
                assert(i + 1 <= rest[l - 1]);
                if k > 0 {
                    assert(idx[k] == rest[k - 1]);
                }
            }
            assert(embeds_at(q, qi, c, i, idx));
        }
    }
}

/// A query matches a candidate, case aside and with the query trimmed,
/// exactly when its characters occur in the candidate in order (for a
/// candidate below the length cap).
pub proof fn lemma_score_some_iff_subsequence(query: Seq<char>, candidate: Seq<char>)
    requires
        lowercase_of(candidate).len() < MAX_SCORED_CHARS,
    ensures
        fuzzy_score_spec(query, candidate) is Some <==> is_subsequence(
            lowercase_of(trimmed(query)),
            lowercase_of(candidate),
        ),
{
    let q = lowercase_of(trimmed(query));
    let c = lowercase_of(candidate);
    lemma_scan_finds_subsequence(c, q, 0, 0, None, 0);
    if q.len() == 0 {
        assert(embeds_at(q, 0, c, 0, Seq::<int>::empty()));
    }
}

/// Leading and trailing whitespace in a query does not change its score.
pub proof fn lemma_score_ignores_query_padding(query: Seq<char>, candidate: Seq<char>)
    ensures
        fuzzy_score_spec(trimmed(query), candidate) == fuzzy_score_spec(query, candidate),
{
    lemma_trimmed_idempotent(query);
}

/// What a match at candidate position `k` earns for where it starts: 20 at
/// the start, 12 right after a character that is not an ASCII letter or
/// digit (a word boundary such as `-`, `/`, `_` or a space), else nothing.
pub open spec fn start_of_word_bonus(c: Seq<char>, k: int) -> int {
    if k == 0 {
        20
    } else if ('0' <= c[k - 1] && c[k - 1] <= '9') || ('a' <= c[k - 1] && c[k - 1] <= 'z') || ('A' <= c[k - 1]
        && c[k - 1] <= 'Z') {
        0
    } else {
        12
    }
}

/// The greedy scan passes over characters that are not the next query
/// character.
proof fn lemma_scan_skips(c: Seq<char>, q: Seq<char>, i: int, j: int, qi: int, prev: Option<int>, score: int)
    requires
        0 <= i <= j <= c.len(),
        0 <= qi < q.len(),
        forall|t: int| i <= t < j ==> c[t] != q[qi],
    ensures
        scan(c, q, i, qi, prev, score) == scan(c, q, j, qi, prev, score),
    decreases j - i,
{
    if i < j {
        lemma_scan_skips(c, q, i + 1, j, qi, prev, score);
    }
}

/// The score of a one-character query: its first occurrence at `i` earns
/// 10, the start-of-word bonus and minus `min(i, 8)`; the query as a whole
/// earns 100 when it is the whole candidate, 60 when it starts it, else 35;
/// and `min(length, 24)` is taken off.
pub proof fn lemma_one_char_score(x: char, c: Seq<char>, i: int)
    requires
        0 <= i < c.len(),
        c[i] == x,
        forall|t: int| 0 <= t < i ==> c[t] != x,
    ensures
        chars_score(seq![x], c) == Some(
            10 + start_of_word_bonus(c, i) - (if i < 8 { i } else { 8 }) + (if i == 0 {
                if c.len() == 1 { 100int } else { 60int }
            } else {
                35int
            }) - (if c.len() < 24 { c.len() as int } else { 24int }),
        ),
{
    let q = seq![x];
    lemma_scan_skips(c, q, 0, i, 0, None, 0);
    let mb = match_bonus(c, i, None);
    assert(scan(c, q, i, 0, None, 0) == scan(c, q, i + 1, 1, Some(i), mb));
    assert(scan(c, q, i + 1, 1, Some(i), mb) == (1int, mb));
    if i == 0 {
        assert(c.subrange(0, 1) =~= q);
        if c.len() == 1 {
            assert(c =~= q);
        } else {
            assert(c != q);
        }
    } else {
        assert(c.subrange(0, 1)[0] != q[0]);
        assert(c != q) by {
            if c == q {
                assert(c[0] == x);
            }
        }
        assert(!is_prefix(q, c));
        assert(c.subrange(i, i + q.len()) =~= q);
        assert(occurs_in(q, c));
    }
}

/// The score of a two-character query `x y`, with `x` first found at `i`
/// and `y` first found after it at `j`: each match earns 10 and its
/// start-of-word bonus; the first loses `min(i, 8)`, the second earns 18 when
/// it directly follows the first and otherwise loses `min(gap, 6)`; the
/// query as a whole earns 100 when it is the candidate, 60 when it starts
/// it, 35 when it occurs in it elsewhere; `min(length, 24)` is taken off.
pub proof fn lemma_two_char_score(x: char, y: char, c: Seq<char>, i: int, j: int)
    requires
        0 <= i < j < c.len(),
        c[i] == x,
        c[j] == y,
        forall|t: int| 0 <= t < i ==> c[t] != x,
        forall|t: int| i < t < j ==> c[t] != y,
    ensures
        chars_score(seq![x, y], c) == Some(
            10 + start_of_word_bonus(c, i) - (if i < 8 { i } else { 8 }) + 10 + start_of_word_bonus(c, j) + (if j
                == i + 1 {
                18int
            } else if j - i - 1 < 6 {
                -(j - i - 1)
            } else {
                -6int
            }) + (if c == seq![x, y] {
                100int
            } else if i == 0 && j == 1 {
                60int
            } else if exists|k: int| 0 <= k && k + 1 < c.len() && c[k] == x && #[trigger] c[k + 1] == y {
                35int
            } else {
                0int
            }) - (if c.len() < 24 { c.len() as int } else { 24int }),
        ),
{
    let q = seq![x, y];
    lemma_scan_skips(c, q, 0, i, 0, None, 0);
    let b1 = match_bonus(c, i, None);
    assert(scan(c, q, i, 0, None, 0) == scan(c, q, i + 1, 1, Some(i), b1));
    lemma_scan_skips(c, q, i + 1, j, 1, Some(i), b1);
    let b2 = match_bonus(c, j, Some(i));
    assert(scan(c, q, j, 1, Some(i), b1) == scan(c, q, j + 1, 2, Some(j), b1 + b2));
    assert(scan(c, q, j + 1, 2, Some(j), b1 + b2) == (2int, b1 + b2));
    // The bonus for the query as a whole.
    assert(is_prefix(q, c) == (i == 0 && j == 1)) by {
        if is_prefix(q, c) {
            assert(c.subrange(0, 2)[0] == c[0]);
            assert(c.subrange(0, 2)[1] == c[1]);
            if i > 0 {
                assert(c[0] != x);
            }
            if i == 0 && j > 1 {
                assert(c[1] != y);
            }
        }
        if i == 0 && j == 1 {
            assert(c.subrange(0, 2) =~= q);
        }
    }
    assert(occurs_in(q, c) == exists|k: int| 0 <= k && k + 1 < c.len() && c[k] == x && #[trigger] c[k + 1] == y) by {
        if occurs_in(q, c) {
            let k = choose|k: int| 0 <= k && k + q.len() <= c.len() && #[trigger] c.subrange(k, k + q.len()) == q;
            assert(c.subrange(k, k + 2)[0] == c[k]);
            assert(c.subrange(k, k + 2)[1] == c[k + 1]);
        }
        if exists|k: int| 0 <= k && k + 1 < c.len() && c[k] == x && #[trigger] c[k + 1] == y {
            let k = choose|k: int| 0 <= k && k + 1 < c.len() && c[k] == x && #[trigger] c[k + 1] == y;
            assert(c.subrange(k, k + 2) =~= q);
        }
    }
    if c == q {
        assert(i == 0 && j == 1);
    }
}

/// An optional mathematical integer as an optional `i64`.
pub open spec fn opt_i64(o: Option<int>) -> Option<i64> {
    match o {
        Some(v) => Some(v as i64),
        None => None,
    }
}

pub open spec fn opt_usize_int(o: Option<usize>) -> Option<int> {
    match o {
        Some(v) => Some(v as int),
        None => None,
    }
}

proof fn lemma_scan_done(c: Seq<char>, q: Seq<char>, i: int, qi: int, prev: Option<int>, score: int)
    requires
        i >= c.len() || qi >= q.len(),
    ensures
        scan(c, q, i, qi, prev, score) == (qi, score),
{
}

/// Scores a normalised query against a normalised candidate.
pub fn score_chars(q: &Vec<char>, c: &Vec<char>) -> (r: Option<i64>)
    requires
        c.len() < MAX_SCORED_CHARS,
    ensures
        r == opt_i64(chars_score(q@, c@)),
        r matches Some(v) ==> -24 <= v <= 48 * c.len() + 100,
{
    if q.len() == 0 {
        return Some(0);
    }
    let mut score: i64 = 0;
    let mut qi: usize = 0;
    let mut prev: Option<usize> = None;
    let mut i: usize = 0;
    while i < c.len() && qi < q.len()
        invariant
            0 < q.len(),
            c.len() < MAX_SCORED_CHARS,
            i <= c.len(),
            qi <= q.len(),
            qi <= i,
            prev is None <==> qi == 0,
            prev matches Some(p) ==> p < i,
            0 <= score <= 48 * qi,
            scan(c@, q@, 0, 0, None, 0) == scan(
                c@,
                q@,
                i as int,
                qi as int,
                opt_usize_int(prev),
                score as int,
            ),
        decreases c.len() - i,
    {
        if c[i] == q[qi] {
            let mut add: i64 = 10;
            if i == 0 {
                add = add + 20;
            } else if is_boundary(c[i - 1]) {
                add = add + 12;
            }
            match prev {
                Some(p) => {
                    if i == p + 1 {
                        add = add + 18;
                    } else {
                        let gap = i - p - 1;
                        let pen: i64 = if gap < 6 {
                            gap as i64
                        } else {
                            6
                        };
                        add = add - pen;
                    }
                },
                None => {
                    let pen: i64 = if i < 8 {
                        i as i64
                    } else {
                        8
                    };
                    add = add - pen;
                },
            }
            assert(add as int == match_bonus(c@, i as int, opt_usize_int(prev)));
            score = score + add;
            prev = Some(i);
            qi = qi + 1;
        }
        i = i + 1;
    }
    proof {
        lemma_scan_done(c@, q@, i as int, qi as int, opt_usize_int(prev), score as int);
    }
    if qi != q.len() {
        return None;
    }
    let bonus: i64 = if chars_eq(c, q) {
        100
    } else if chars_start_with(c, q) {
        60
    } else if chars_contain(c, q) {
        35
    } else {
        0
    };
    let len_pen: i64 = if c.len() < 24 {
        c.len() as i64
    } else {
        24
    };
    Some(score + bonus - len_pen)
}

/// Scores how well `query` fuzzily matches `candidate`; `None` when the trimmed,
/// lowercased query is not a subsequence of the lowercased candidate.
pub fn fuzzy_match_score(query: &str, candidate: &str) -> (r: Option<i64>)
    ensures
        r == opt_i64(fuzzy_score_spec(query@, candidate@)),
        r matches Some(v) ==> -24 <= v < 0x4000_0000_0000_0000,
{
    let q_text = to_lowercase(trim(query));
    let c_text = to_lowercase(candidate);
    let q = str_chars(q_text.as_str());
    let c = str_chars(c_text.as_str());
    if q.len() > 0 && c.len() as u64 >= MAX_SCORED_CHARS {
        return None;
    }
    if q.len() == 0 {
        return Some(0);
    }
    score_chars(&q, &c)
}

/// Byte length of a text in UTF-8.
pub open spec fn utf8_len(s: Seq<char>) -> int {
    (vstd::utf8::encode_utf8(s).len() as usize) as int
}

/// The optional score with a missing score read as zero.
pub open spec fn score_or_zero(o: Option<int>) -> int {
    match o {
        Some(v) => v,
        None => 0,
    }
}

/// The sort keys of `fuzzy_filter_strings` for the given items and query.
pub open spec fn string_keys(items: Seq<String>, query: Seq<char>) -> Seq<RankView> {
    Seq::new(
        items.len(),
        |i: int|
            RankView {
                score: score_or_zero(opt_int_of(opt_i64(fuzzy_score_spec(query, items[i]@)))),
                len: utf8_len(items[i]@),
                primary: lowercase_of(items[i]@),
                secondary: Seq::empty(),
            },
    )
}

pub open spec fn opt_int_of(o: Option<i64>) -> Option<int> {
    match o {
        Some(v) => Some(v as int),
        None => None,
    }
}

/// `order` lists, best first, exactly the positions `i < n` with `is_match(i)`,
/// ordered by `rank_lt` on `keys`.
pub open spec fn ranked_matches(
    keys: Seq<RankView>,
    n: int,
    is_match: spec_fn(int) -> bool,
    order: Seq<usize>,
) -> bool {
    &&& rank_sorted(keys, order)
    &&& forall|x: usize| order.contains(x) <==> (x < n && is_match(x as int))
}

/// There is one ranking of a set of candidates: two orders that list the
/// same positions, each in rank order, are the same.
pub proof fn lemma_rank_sorted_unique(keys: Seq<RankView>, o1: Seq<usize>, o2: Seq<usize>)
    requires
        rank_sorted(keys, o1),
        rank_sorted(keys, o2),
        forall|x: usize| o1.contains(x) <==> o2.contains(x),
    ensures
        o1 == o2,
    decreases o1.len(),
{
    if o1.len() == 0 {
        if o2.len() > 0 {
            assert(o2.contains(o2[0]));
        }
        assert(o1 =~= o2);
    } else {
        let a = o1[0];
        assert(o1.contains(a));
        assert(o2.contains(a));
        let b = o2[0];
        if a != b {
            assert(o2.contains(b));
            assert(o1.contains(b));
            let p = choose|p: int| 0 <= p < o1.len() && o1[p] == b;
            let q = choose|q: int| 0 <= q < o2.len() && o2[q] == a;
            assert(p > 0 && q > 0);
            assert(rank_lt(keys, a as int, b as int));
            assert(rank_lt(keys, b as int, a as int));
            lemma_rank_lt_asym(keys, a as int, b as int);
        }
        let r1 = o1.drop_first();
        let r2 = o2.drop_first();
        assert forall|x: usize| r1.contains(x) <==> (o1.contains(x) && x != a) by {
            if r1.contains(x) {
                let j = choose|j: int| 0 <= j < r1.len() && r1[j] == x;
                assert(o1[j + 1] == x);
                assert(rank_lt(keys, a as int, x as int));
                lemma_rank_lt_asym(keys, a as int, x as int);
            }
            if o1.contains(x) && x != a {
                let j = choose|j: int| 0 <= j < o1.len() && o1[j] == x;
                assert(r1[j - 1] == x);
            }
        }
        assert forall|x: usize| r2.contains(x) <==> (o2.contains(x) && x != a) by {
            if r2.contains(x) {
                let j = choose|j: int| 0 <= j < r2.len() && r2[j] == x;
                assert(o2[j + 1] == x);
                assert(rank_lt(keys, a as int, x as int));
                lemma_rank_lt_asym(keys, a as int, x as int);
            }
            if o2.contains(x) && x != a {
                let j = choose|j: int| 0 <= j < o2.len() && o2[j] == x;
                assert(r2[j - 1] == x);
            }
        }
        assert(rank_sorted(keys, r1)) by {
            assert forall|p: int, q: int| 0 <= p < q < r1.len() implies rank_lt(keys, r1[p] as int, r1[q] as int) by {
                assert(r1[p] == o1[p + 1] && r1[q] == o1[q + 1]);
            }
        }
        assert(rank_sorted(keys, r2)) by {
            assert forall|p: int, q: int| 0 <= p < q < r2.len() implies rank_lt(keys, r2[p] as int, r2[q] as int) by {
                assert(r2[p] == o2[p + 1] && r2[q] == o2[q + 1]);
            }
        }
        assert forall|x: usize| r1.contains(x) <==> r2.contains(x) by {
            assert(o1.contains(x) <==> o2.contains(x));
        }
        lemma_rank_sorted_unique(keys, r1, r2);
        assert(o1 =~= seq![a] + r1);
        assert(o2 =~= seq![b] + r2);
    }
}

/// `order` is the ranking that `fuzzy_filter_strings` computes for `items` and
/// the trimmed query `query`.
pub open spec fn fuzzy_filter_order(items: Seq<String>, query: Seq<char>, order: Seq<usize>) -> bool {
    ranked_matches(
        string_keys(items, query),
        items.len() as int,
        |i: int| fuzzy_score_spec(query, items[i]@) is Some,
        order,
    )
}

/// Ranking by the trimmed query is ranking by the query as given: the keys
/// and the matches are the same.
pub proof fn lemma_filter_order_ignores_query_padding(
    items: Seq<String>,
    query: Seq<char>,
    order: Seq<usize>,
)
    ensures
        fuzzy_filter_order(items, trimmed(query), order) == fuzzy_filter_order(items, query, order),
{
    lemma_trimmed_idempotent(query);
    assert(string_keys(items, trimmed(query)) =~= string_keys(items, query));
    let m1 = |i: int| fuzzy_score_spec(trimmed(query), items[i]@) is Some;
    let m2 = |i: int| fuzzy_score_spec(query, items[i]@) is Some;
    assert(m1 =~= m2);
}

/// Filters `items` by a fuzzy `query` and orders them best match first (ties:
/// shorter first, then by lowercase text, then by original position). An empty
/// trimmed query keeps every item in its original order.
pub fn fuzzy_filter_strings<'a>(items: &'a [String], query: &str) -> (r: Vec<&'a String>)
    ensures
        trimmed(query@).len() == 0 ==> r@.len() == items@.len() && forall|k: int|
            0 <= k < items@.len() ==> *r@[k] == items@[k],
        trimmed(query@).len() > 0 ==> exists|order: Seq<usize>|
            {
                &&& #[trigger] fuzzy_filter_order(items@, trimmed(query@), order)
                &&& r@.len() == order.len()
                &&& forall|k: int| 0 <= k < order.len() ==> *r@[k] == items@[order[k] as int]
            },
{
    let query = trim(query);
    let mut r: Vec<&'a String> = Vec::new();
    if query.is_empty() {
        let mut i: usize = 0;
        while i < items.len()
            invariant
                i <= items.len(),
                r@.len() == i,
                forall|k: int| 0 <= k < i ==> *r@[k] == items@[k],
            decreases items.len() - i,
        {
            r.push(&items[i]);
            i = i + 1;
        }
        return r;
    }
    let ghost tq = query@;
    let mut keys: Vec<RankKey> = Vec::new();
    let mut positions: Vec<usize> = Vec::new();
    let mut i: usize = 0;
    while i < items.len()
        invariant
            i <= items.len(),
            tq == query@,
            keys.len() == i,
            forall|k: int|
                0 <= k < i ==> #[trigger] keys_view(keys@)[k] == string_keys(items@, tq)[k],
            forall|p: int| 0 <= p < positions.len() ==> positions[p] < i,
            forall|p: int, q: int| 0 <= p < q < positions.len() ==> positions[p] < positions[q],
            forall|x: usize|
                positions@.contains(x) <==> (x < i && fuzzy_score_spec(tq, items@[x as int]@) is Some),
        decreases items.len() - i,
    {
        let item = &items[i];
        let s = fuzzy_match_score(query, item.as_str());
        let low = str_chars(to_lowercase(item.as_str()).as_str());
        let score: i64 = match s {
            Some(v) => v,
            None => 0,
        };
        let key = RankKey { score, len: item.as_str().len(), primary: low, secondary: Vec::new() };
        proof {
            let want = string_keys(items@, tq)[i as int];
            assert(key@.score == want.score);
            assert(key@.len == want.len);
            assert(key@.primary == want.primary);
            assert(key@.secondary =~= want.secondary);
        }
        let ghost old_keys = keys@;
        keys.push(key);
        proof {
            assert(keys_view(keys@)[i as int] == string_keys(items@, tq)[i as int]);
            assert forall|k: int| 0 <= k < i implies #[trigger] keys_view(keys@)[k] == string_keys(
                items@,
                tq,
            )[k] by {
                assert(keys_view(keys@)[k] == keys_view(old_keys)[k]);
            }
        }
        let ghost old_pos = positions@;
        if s.is_some() {
            positions.push(i);
        }
        proof {
            assert forall|x: usize|
                positions@.contains(x) <==> (x < i + 1 && fuzzy_score_spec(
                    tq,
                    items@[x as int]@,
                ) is Some) by {
                if positions@.contains(x) && x != i {
                    let w = choose|w: int| 0 <= w < positions@.len() && positions@[w] == x;
                    assert(old_pos[w] == x);
                }
                if x < i && old_pos.contains(x) {
                    let w = choose|w: int| 0 <= w < old_pos.len() && old_pos[w] == x;
                    assert(positions@[w] == x);
                }
                if x == i && s.is_some() {
                    assert(positions@[old_pos.len() as int] == x);
                }
            }
        }
        i = i + 1;
    }
    let order = rank_positions(&keys, &positions);
    let mut k: usize = 0;
    while k < order.len()
        invariant
            k <= order.len(),
            r@.len() == k,
            forall|p: int| 0 <= p < order.len() ==> order@.contains(order@[p]),
            forall|x: usize| order@.contains(x) <==> positions@.contains(x),
            forall|x: usize| positions@.contains(x) ==> x < items.len(),
            forall|j: int| 0 <= j < k ==> *r@[j] == items@[order@[j] as int],
        decreases order.len() - k,
    {
        assert(order@.contains(order@[k as int]));
        r.push(&items[order[k]]);
        k = k + 1;
    }
    proof {
        assert(keys_view(keys@) =~= string_keys(items@, tq));
        assert(fuzzy_filter_order(items@, tq, order@));
    }
    r
}

} // verus!
