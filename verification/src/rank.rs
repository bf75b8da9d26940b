//! Ranking of scored candidates: a stable sort by score (best first), then by
//! length, then by two lowercase texts, then by original position.

use vstd::prelude::*;

verus! {

/// Lexicographic order on character sequences, by code point.
pub open spec fn seq_lt(a: Seq<char>, b: Seq<char>) -> bool
    decreases a.len(),
{
    if b.len() == 0 {
        false
    } else if a.len() == 0 {
        true
    } else if a[0] != b[0] {
        a[0] < b[0]
    } else {
        seq_lt(a.drop_first(), b.drop_first())
    }
}

/// `seq_lt` is irreflexive and asymmetric.
pub proof fn lemma_seq_lt_asym(a: Seq<char>, b: Seq<char>)
    ensures
        seq_lt(a, b) ==> !seq_lt(b, a),
    decreases a.len(),
{
    if a.len() > 0 && b.len() > 0 && a[0] == b[0] {
        lemma_seq_lt_asym(a.drop_first(), b.drop_first());
    }
}

/// `seq_lt` is transitive.
pub proof fn lemma_seq_lt_trans(a: Seq<char>, b: Seq<char>, c: Seq<char>)
    requires
        seq_lt(a, b),
        seq_lt(b, c),
    ensures
        seq_lt(a, c),
    decreases a.len(),
{
    if a.len() > 0 && b.len() > 0 && c.len() > 0 && a[0] == b[0] && b[0] == c[0] {
        lemma_seq_lt_trans(a.drop_first(), b.drop_first(), c.drop_first());
    }
}

/// Two sequences that are not ordered either way are equal.
pub proof fn lemma_seq_lt_total(a: Seq<char>, b: Seq<char>)
    ensures
        !seq_lt(a, b) && !seq_lt(b, a) ==> a == b,
    decreases a.len(),
{
    if a.len() > 0 && b.len() > 0 && a[0] == b[0] {
        lemma_seq_lt_total(a.drop_first(), b.drop_first());
        if !seq_lt(a, b) && !seq_lt(b, a) {
            assert(a.drop_first() == b.drop_first());
            assert(a =~= seq![a[0]] + a.drop_first());
            assert(b =~= seq![b[0]] + b.drop_first());
        }
    } else if a.len() == 0 && b.len() == 0 {
        assert(a =~= b);
    }
}

/// Whether `a` orders before `b`, computed on their characters.
pub fn chars_lt(a: &Vec<char>, b: &Vec<char>) -> (r: bool)
    ensures
        r == seq_lt(a@, b@),
{
    let mut i: usize = 0;
    assert(a@.skip(0) =~= a@);
    assert(b@.skip(0) =~= b@);
    while i < a.len() && i < b.len()
        invariant
            i <= a.len(),
            i <= b.len(),
            seq_lt(a@, b@) == seq_lt(a@.skip(i as int), b@.skip(i as int)),
        decreases a.len() - i,
    {
        assert(a@.skip(i as int)[0] == a@[i as int]);
        assert(b@.skip(i as int)[0] == b@[i as int]);
        if a[i] != b[i] {
            return a[i] < b[i];
        }
        assert(a@.skip(i as int).drop_first() =~= a@.skip(i + 1));
        assert(b@.skip(i as int).drop_first() =~= b@.skip(i + 1));
        i = i + 1;
    }
    i < b.len()
}

/// The sort key of one candidate; its position in the key list breaks the last tie.
pub struct RankKey {
    pub score: i64,
    pub len: usize,
    pub primary: Vec<char>,
    pub secondary: Vec<char>,
}

/// The mathematical content of a sort key.
pub struct RankView {
    pub score: int,
    pub len: int,
    pub primary: Seq<char>,
    pub secondary: Seq<char>,
}

impl View for RankKey {
    type V = RankView;

    open spec fn view(&self) -> RankView {
        RankView {
            score: self.score as int,
            len: self.len as int,
            primary: self.primary@,
            secondary: self.secondary@,
        }
    }
}

/// The views of a list of keys.
pub open spec fn keys_view(keys: Seq<RankKey>) -> Seq<RankView> {
    keys.map_values(|k: RankKey| k@)
}

/// Whether the candidate at position `i` ranks before the one at position `j`:
/// higher score first, then shorter, then by the primary text, then by the
/// secondary text, then by position.
pub open spec fn rank_lt(k: Seq<RankView>, i: int, j: int) -> bool {
    let a = k[i];
    let b = k[j];
    ||| a.score > b.score
    ||| a.score == b.score && a.len < b.len
    ||| a.score == b.score && a.len == b.len && seq_lt(a.primary, b.primary)
    ||| a.score == b.score && a.len == b.len && a.primary == b.primary && seq_lt(
        a.secondary,
        b.secondary,
    )
    ||| a.score == b.score && a.len == b.len && a.primary == b.primary && a.secondary
        == b.secondary && i < j
}

/// Positions listed in strictly increasing rank order.
pub open spec fn rank_sorted(k: Seq<RankView>, s: Seq<usize>) -> bool {
    forall|p: int, q: int| 0 <= p < q < s.len() ==> rank_lt(k, s[p] as int, s[q] as int)
}

/// In a ranked list a higher score comes first; among equal scores the
/// shorter comes first; among equal scores, lengths and texts, the earlier
/// position comes first.
pub proof fn lemma_rank_sorted_best_first(k: Seq<RankView>, s: Seq<usize>)
    requires
        rank_sorted(k, s),
    ensures
        forall|p: int, q: int|
            0 <= p < q < s.len() ==> {
                let a = #[trigger] k[s[p] as int];
                let b = #[trigger] k[s[q] as int];
                &&& a.score >= b.score
                &&& a.score == b.score ==> a.len <= b.len
                &&& (a.score == b.score && a.len == b.len && a.primary == b.primary && a.secondary == b.secondary)
                    ==> s[p] < s[q]
            },
{
    assert forall|p: int, q: int| 0 <= p < q < s.len() implies {
        let a = #[trigger] k[s[p] as int];
        let b = #[trigger] k[s[q] as int];
        &&& a.score >= b.score
        &&& a.score == b.score ==> a.len <= b.len
        &&& (a.score == b.score && a.len == b.len && a.primary == b.primary && a.secondary == b.secondary) ==> s[p]
            < s[q]
    } by {
        assert(rank_lt(k, s[p] as int, s[q] as int));
        lemma_seq_lt_asym(k[s[p] as int].primary, k[s[p] as int].primary);
        lemma_seq_lt_asym(k[s[p] as int].secondary, k[s[p] as int].secondary);
    }
}

/// Ranking is a strict order: no candidate ranks before itself, and of two
/// candidates at most one ranks before the other.
pub proof fn lemma_rank_lt_asym(k: Seq<RankView>, i: int, j: int)
    ensures
        rank_lt(k, i, j) ==> !rank_lt(k, j, i),
{
    lemma_seq_lt_asym(k[i].primary, k[j].primary);
    lemma_seq_lt_asym(k[i].secondary, k[j].secondary);
    lemma_seq_lt_asym(k[j].primary, k[i].primary);
    lemma_seq_lt_asym(k[j].secondary, k[i].secondary);
}

proof fn lemma_rank_lt_total(k: Seq<RankView>, i: int, j: int)
    requires
        i != j,
    ensures
        rank_lt(k, i, j) || rank_lt(k, j, i),
{
    lemma_seq_lt_total(k[i].primary, k[j].primary);
    lemma_seq_lt_total(k[i].secondary, k[j].secondary);
}

proof fn lemma_rank_lt_trans(k: Seq<RankView>, i: int, j: int, l: int)
    requires
        rank_lt(k, i, j),
        rank_lt(k, j, l),
    ensures
        rank_lt(k, i, l),
{
    let a = k[i];
    let b = k[j];
    let c = k[l];
    if a.score == b.score && b.score == c.score && a.len == b.len && b.len == c.len {
        if seq_lt(a.primary, b.primary) && seq_lt(b.primary, c.primary) {
            lemma_seq_lt_trans(a.primary, b.primary, c.primary);
        }
        if a.primary == b.primary && b.primary == c.primary {
            if seq_lt(a.secondary, b.secondary) && seq_lt(b.secondary, c.secondary) {
                lemma_seq_lt_trans(a.secondary, b.secondary, c.secondary);
            }
        }
    }
}

/// Whether the candidate at `i` ranks before the one at `j`.
pub fn rank_less(keys: &Vec<RankKey>, i: usize, j: usize) -> (r: bool)
    requires
        i < keys.len(),
        j < keys.len(),
    ensures
        r == rank_lt(keys_view(keys@), i as int, j as int),
{
    let a = &keys[i];
    let b = &keys[j];
    if a.score != b.score {
        return a.score > b.score;
    }
    if a.len != b.len {
        return a.len < b.len;
    }
    if chars_lt(&a.primary, &b.primary) {
        return true;
    }
    if chars_lt(&b.primary, &a.primary) {
        proof {
            lemma_seq_lt_asym(b.primary@, a.primary@);
        }
        return false;
    }
    proof {
        lemma_seq_lt_total(a.primary@, b.primary@);
    }
    if chars_lt(&a.secondary, &b.secondary) {
        return true;
    }
    if chars_lt(&b.secondary, &a.secondary) {
        proof {
            lemma_seq_lt_asym(b.secondary@, a.secondary@);
        }
        return false;
    }
    proof {
        lemma_seq_lt_total(a.secondary@, b.secondary@);
    }
    i < j
}

/// Sorts the given positions into rank order. The result holds exactly the
/// given positions, each once, ordered by `rank_lt`; since `rank_lt` is a
/// strict total order this is the stable sort of `positions` by rank.
pub fn rank_positions(keys: &Vec<RankKey>, positions: &Vec<usize>) -> (out: Vec<usize>)
    requires
        forall|p: int| 0 <= p < positions.len() ==> positions[p] < keys.len(),
        forall|p: int, q: int| 0 <= p < q < positions.len() ==> positions[p] != positions[q],
    ensures
        rank_sorted(keys_view(keys@), out@),
        out.len() == positions.len(),
        forall|x: usize| out@.contains(x) <==> positions@.contains(x),
{
    let mut out: Vec<usize> = Vec::new();
    let mut n: usize = 0;
    while n < positions.len()
        invariant
            n <= positions.len(),
            forall|p: int| 0 <= p < positions.len() ==> positions[p] < keys.len(),
            forall|p: int, q: int| 0 <= p < q < positions.len() ==> positions[p] != positions[q],
            rank_sorted(keys_view(keys@), out@),
            out.len() == n,
            forall|q: int| 0 <= q < out.len() ==> out[q] < keys.len(),
            forall|x: usize| out@.contains(x) <==> positions@.take(n as int).contains(x),
        decreases positions.len() - n,
    {
        let x = positions[n];
        let mut p: usize = 0;
        while p < out.len() && !rank_less(keys, x, out[p])
            invariant
                p <= out.len(),
                x < keys.len(),
                forall|q: int| 0 <= q < out.len() ==> out[q] < keys.len(),
                forall|q: int| 0 <= q < p ==> !rank_lt(keys_view(keys@), x as int, out[q] as int),
            decreases out.len() - p,
        {
            p = p + 1;
        }
        proof {
            assert(!out@.contains(x)) by {
                if out@.contains(x) {
                    let w = choose|w: int| 0 <= w < out.len() && out@[w] == x;
                    let pn = positions@.take(n as int);
                    assert(pn.contains(x));
                    let t = choose|t: int| 0 <= t < pn.len() && pn[t] == x;
                    assert(positions[t] == positions[n as int]);
                }
            }
            assert forall|q: int| 0 <= q < p implies rank_lt(keys_view(keys@), out[q] as int, x as int) by {
                assert(out@.contains(out@[q]));
                lemma_rank_lt_total(keys_view(keys@), x as int, out[q] as int);
            }
            assert forall|q: int| p <= q < out.len() implies rank_lt(
                keys_view(keys@),
                x as int,
                out[q] as int,
            ) by {
                if q > p {
                    lemma_rank_lt_trans(keys_view(keys@), x as int, out[p as int] as int, out[q] as int);
                }
            }
        }
        let ghost old_out = out@;
        out.insert(p, x);
        proof {
            assert(out@ =~= old_out.take(p as int).push(x) + old_out.skip(p as int));
            assert forall|a: int, b: int| 0 <= a < b < out.len() implies rank_lt(
                keys_view(keys@),
                out[a] as int,
                out[b] as int,
            ) by {
                if a < p && b > p {
                    lemma_rank_lt_trans(keys_view(keys@), out[a] as int, x as int, out[b] as int);
                }
            }
            let pn1 = positions@.take(n + 1);
            let pn = positions@.take(n as int);
            assert(pn1 =~= pn.push(x));
            assert(pn1[n as int] == x);
            assert forall|y: usize| out@.contains(y) <==> pn1.contains(y) by {
                if out@.contains(y) {
                    let w = choose|w: int| 0 <= w < out.len() && out@[w] == y;
                    if w < p {
                        assert(old_out.contains(y));
                    } else if w > p {
                        assert(old_out[w - 1] == y);
                        assert(old_out.contains(y));
                    }
                }
                if pn1.contains(y) && y != x {
                    let t = choose|t: int| 0 <= t < pn1.len() && pn1[t] == y;
                    assert(pn[t] == y);
                    assert(old_out.contains(y));
                    let w = choose|w: int| 0 <= w < old_out.len() && old_out[w] == y;
                    if w < p {
                        assert(out@[w] == y);
                    } else {
                        assert(out@[w + 1] == y);
                    }
                }
                if y == x {
                    assert(out@[p as int] == x);
                }
            }
        }
        n = n + 1;
    }
    proof {
        assert(positions@.take(n as int) =~= positions@);
    }
    out
}

} // verus!
