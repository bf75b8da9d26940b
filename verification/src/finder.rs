//! The comb finder: every comb of every hive, filtered and ranked by a fuzzy
//! query over the comb's name, its branch and its hive's repository name.

use vstd::prelude::*;

use crate::fuzzy::{
    fuzzy_match_score, fuzzy_score_spec, opt_i64, opt_int_of, ranked_matches, score_or_zero,
    utf8_len,
};
use crate::rank::{keys_view, rank_positions, RankKey, RankView};
use crate::model::{Comb, HiveInfo};
use crate::state::AppMode;
use crate::text::{lowercase_of, str_chars, to_lowercase, trim, trimmed};
use crate::tui::{opened, told, App};

verus! {

/// One comb as the finder lists it.
#[derive(Clone, Debug)]
pub struct CombFinderTarget {
    pub hive_dir_name: String,
    pub hive_repo_name: String,
    pub comb_id: String,
    pub comb_name: String,
    pub branch: String,
}

/// A score raised by `bonus`, if there is one.
pub open spec fn shifted(o: Option<int>, bonus: int) -> Option<int> {
    match o {
        Some(v) => Some(v + bonus),
        None => None,
    }
}

/// The larger of two optional scores; a missing score loses.
pub open spec fn opt_max(a: Option<int>, b: Option<int>) -> Option<int> {
    match (a, b) {
        (Some(x), Some(y)) => Some(if x >= y { x } else { y }),
        (Some(x), None) => Some(x),
        (None, Some(y)) => Some(y),
        (None, None) => None,
    }
}

/// The score of `text` against the normalised filter, as an `i64` reads it.
pub open spec fn text_score(filter: Seq<char>, text: Seq<char>) -> Option<int> {
    opt_int_of(opt_i64(fuzzy_score_spec(filter, text)))
}

/// The best of the comb-name match (+300), the branch match (+200) and the
/// repository-name match (+100); `None` when none of them matches.
pub open spec fn finder_score(filter: Seq<char>, t: CombFinderTarget) -> Option<int> {
    opt_max(
        opt_max(
            shifted(text_score(filter, t.comb_name@), 300),
            shifted(text_score(filter, t.branch@), 200),
        ),
        shifted(text_score(filter, t.hive_repo_name@), 100),
    )
}

/// The sort keys of the finder: score, comb-name length, lowercase comb
/// name, lowercase branch.
pub open spec fn finder_keys(targets: Seq<CombFinderTarget>, filter: Seq<char>) -> Seq<RankView> {
    Seq::new(
        targets.len(),
        |i: int|
            RankView {
                score: score_or_zero(finder_score(filter, targets[i])),
                len: utf8_len(targets[i].comb_name@),
                primary: lowercase_of(targets[i].comb_name@),
                secondary: lowercase_of(targets[i].branch@),
            },
    )
}

/// `order` is the ranking of the targets that match the normalised filter.
pub open spec fn finder_order(targets: Seq<CombFinderTarget>, filter: Seq<char>, order: Seq<usize>) -> bool {
    ranked_matches(
        finder_keys(targets, filter),
        targets.len() as int,
        |i: int| finder_score(filter, targets[i]) is Some,
        order,
    )
}

/// The larger of two optional scores.
fn max_score(a: Option<i64>, b: Option<i64>) -> (r: Option<i64>)
    ensures
        opt_int_of(r) == opt_max(opt_int_of(a), opt_int_of(b)),
        r matches Some(v) ==> (a matches Some(x) && v == x) || (b matches Some(y) && v == y),
{
    match (a, b) {
        (Some(x), Some(y)) => Some(if x >= y { x } else { y }),
        (Some(x), None) => Some(x),
        (None, Some(y)) => Some(y),
        (None, None) => None,
    }
}

/// A score of `fuzzy_match_score` raised by a bonus.
fn add_bonus(o: Option<i64>, bonus: i64) -> (r: Option<i64>)
    requires
        0 <= bonus <= 300,
        o matches Some(v) ==> -24 <= v < 0x4000_0000_0000_0000,
    ensures
        opt_int_of(r) == shifted(opt_int_of(o), bonus as int),
        r matches Some(v) ==> -24 <= v < 0x4000_0000_0000_0000 + 300,
{
    match o {
        Some(v) => Some(v + bonus),
        None => None,
    }
}

/// The best score of one target against the normalised filter.
fn target_score(filter: &str, t: &CombFinderTarget) -> (r: Option<i64>)
    ensures
        opt_int_of(r) == finder_score(filter@, *t),
{
    let a = add_bonus(fuzzy_match_score(filter, t.comb_name.as_str()), 300);
    let b = add_bonus(fuzzy_match_score(filter, t.branch.as_str()), 200);
    let c = add_bonus(fuzzy_match_score(filter, t.hive_repo_name.as_str()), 100);
    let ab = max_score(a, b);
    max_score(ab, c)
}

/// Filters the finder's targets by `filter` (trimmed and lowercased) and ranks
/// the matches: best score first, then shorter comb name, then by lowercase
/// comb name, then by lowercase branch, then by original position. An empty
/// filter keeps every target in its original order.
pub fn filter_comb_finder_targets<'a>(targets: &'a [CombFinderTarget], filter: &str) -> (r: Vec<
    &'a CombFinderTarget,
>)
    ensures
        lowercase_of(trimmed(filter@)).len() == 0 ==> r@.len() == targets@.len() && forall|k: int|
            0 <= k < targets@.len() ==> *r@[k] == targets@[k],
        lowercase_of(trimmed(filter@)).len() > 0 ==> exists|order: Seq<usize>|
            {
                &&& #[trigger] finder_order(targets@, lowercase_of(trimmed(filter@)), order)
                &&& r@.len() == order.len()
                &&& forall|k: int| 0 <= k < order.len() ==> *r@[k] == targets@[order[k] as int]
            },
{
    let f = to_lowercase(trim(filter));
    let f = f.as_str();
    let mut r: Vec<&'a CombFinderTarget> = Vec::new();
    if f.is_empty() {
        let mut i: usize = 0;
        while i < targets.len()
            invariant
                i <= targets.len(),
                r@.len() == i,
                forall|k: int| 0 <= k < i ==> *r@[k] == targets@[k],
            decreases targets.len() - i,
        {
            r.push(&targets[i]);
            i = i + 1;
        }
        return r;
    }
    let ghost fq = f@;
    let mut keys: Vec<RankKey> = Vec::new();
    let mut positions: Vec<usize> = Vec::new();
    let mut i: usize = 0;
    while i < targets.len()
        invariant
            i <= targets.len(),
            fq == f@,
            keys.len() == i,
            forall|k: int|
                0 <= k < i ==> #[trigger] keys_view(keys@)[k] == finder_keys(targets@, fq)[k],
            forall|p: int| 0 <= p < positions.len() ==> positions[p] < i,
            forall|p: int, q: int| 0 <= p < q < positions.len() ==> positions[p] < positions[q],
            forall|x: usize|
                positions@.contains(x) <==> (x < i && finder_score(fq, targets@[x as int]) is Some),
        decreases targets.len() - i,
    {
        let t = &targets[i];
        let s = target_score(f, t);
        let score: i64 = match s {
            Some(v) => v,
            None => 0,
        };
        let primary = str_chars(to_lowercase(t.comb_name.as_str()).as_str());
        let secondary = str_chars(to_lowercase(t.branch.as_str()).as_str());
        let key = RankKey { score, len: t.comb_name.as_str().len(), primary, secondary };
        proof {
            let want = finder_keys(targets@, fq)[i as int];
            assert(key@.score == want.score);
            assert(key@.len == want.len);
            assert(key@.primary == want.primary);
            assert(key@.secondary == want.secondary);
        }
        let ghost old_keys = keys@;
        keys.push(key);
        proof {
            assert(keys_view(keys@)[i as int] == finder_keys(targets@, fq)[i as int]);
            assert forall|k: int| 0 <= k < i implies #[trigger] keys_view(keys@)[k] == finder_keys(
                targets@,
                fq,
            )[k] by {
                assert(keys_view(keys@)[k] == keys_view(old_keys)[k]);
            }
        }
        let ghost old_pos = positions@;
        if s.is_some() {
            positions.push(i);
        }
        proof {
            assert forall|x: usize|
                positions@.contains(x) <==> (x < i + 1 && finder_score(
                    fq,
                    targets@[x as int],
                ) is Some) by {
                if positions@.contains(x) && x != i {
                    let w = choose|w: int| 0 <= w < positions@.len() && positions@[w] == x;
                    assert(old_pos[w] == x);
                }
                if x < i && old_pos.contains(x) {
                    let w = choose|w: int| 0 <= w < old_pos.len() && old_pos[w] == x;
                    assert(positions@[w] == x);
                }
                if x == i && s.is_some() {
                    assert(positions@[old_pos.len() as int] == x);
                }
            }
        }
        i = i + 1;
    }
    let order = rank_positions(&keys, &positions);
    let mut k: usize = 0;
    while k < order.len()
        invariant
            k <= order.len(),
            r@.len() == k,
            forall|p: int| 0 <= p < order.len() ==> order@.contains(order@[p]),
            forall|x: usize| order@.contains(x) <==> positions@.contains(x),
            forall|x: usize| positions@.contains(x) ==> x < targets.len(),
            forall|j: int| 0 <= j < k ==> *r@[j] == targets@[order@[j] as int],
        decreases order.len() - k,
    {
        assert(order@.contains(order@[k as int]));
        r.push(&targets[order[k]]);
        k = k + 1;
    }
    proof {
        assert(keys_view(keys@) =~= finder_keys(targets@, fq));
        assert(finder_order(targets@, fq, order@));
    }
    r
}

/// Whether the target lists comb `c` of hive `info`.
pub open spec fn lists(t: CombFinderTarget, info: HiveInfo, c: Comb) -> bool {
    &&& t.hive_dir_name@ == info.dir_name@
    &&& t.hive_repo_name@ == info.repo_name@
    &&& t.comb_id@ == c.id@
    &&& t.comb_name@ == c.name@
    &&& t.branch@ == c.branch@
}

/// The ready combs (not still being created) among the first `n` of a
/// hive, each with its hive.
pub open spec fn ready_rows(info: HiveInfo, cs: Seq<Comb>, n: int) -> Seq<(HiveInfo, Comb)>
    decreases n,
{
    if n <= 0 || n > cs.len() {
        Seq::empty()
    } else if cs[n - 1].cloning {
        ready_rows(info, cs, n - 1)
    } else {
        ready_rows(info, cs, n - 1).push((info, cs[n - 1]))
    }
}

/// The combs the finder offers from the first `n` hives, each hive with its
/// combs as read (or why they could not be read): the first failed read
/// stops it.
pub open spec fn finder_rows(hives: Seq<(HiveInfo, Result<Vec<Comb>, String>)>, n: int) -> Result<
    Seq<(HiveInfo, Comb)>,
    String,
>
    decreases n,
{
    if n <= 0 || n > hives.len() {
        Ok(Seq::empty())
    } else {
        match finder_rows(hives, n - 1) {
            Err(e) => Err(e),
            Ok(rows) => match hives[n - 1].1 {
                Err(e) => Err(e),
                Ok(cs) => Ok(rows + ready_rows(hives[n - 1].0, cs@, cs@.len() as int)),
            },
        }
    }
}

impl App {
    /// Opens the comb finder over every ready comb of every hive. `hives` is
    /// the list of hives, each with its combs, as read from disk (or why the
    /// list or a hive's combs could not be read: that is reported and the
    /// finder does not open); with no comb to offer it does not open either.
    pub fn start_comb_finder(&mut self, hives: Result<Vec<(HiveInfo, Result<Vec<Comb>, String>)>, String>)
        ensures
            ({
                let listed: Result<Seq<(HiveInfo, Comb)>, String> = match hives {
                    Err(e) => Err(e),
                    Ok(hs) => finder_rows(hs@, hs@.len() as int),
                };
                match listed {
                    Err(e) => told(*old(self), *final(self), "Failed to load combs: "@ + e@),
                    Ok(rows) => if rows.len() == 0 {
                        told(*old(self), *final(self), "No combs to jump to"@)
                    } else {
                        opened(*old(self), *final(self)) && match final(self).mode {
                            AppMode::CombFinder { targets, filter, filter_cursor, selected } => {
                                &&& filter@.len() == 0
                                &&& filter_cursor == 0
                                &&& selected == 0
                                &&& targets@.len() == rows.len()
                                &&& forall|i: int|
                                    0 <= i < rows.len() ==> #[trigger] lists(targets@[i], rows[i].0, rows[i].1)
                            },
                            _ => false,
                        }
                    },
                }
            }),
    {
        let hs = match hives {
            Err(e) => {
                self.status_message = Some(load_failure(e.as_str()));
                return ;
            },
            Ok(hs) => hs,
        };
        let mut targets: Vec<CombFinderTarget> = Vec::new();
        let ghost mut rows: Seq<(HiveInfo, Comb)> = Seq::empty();
        let mut i: usize = 0;
        while i < hs.len()
            invariant
                i <= hs@.len(),
                hives == Ok::<Vec<(HiveInfo, Result<Vec<Comb>, String>)>, String>(hs),
                *self == *old(self),
                finder_rows(hs@, i as int) == Ok::<Seq<(HiveInfo, Comb)>, String>(rows),
                targets@.len() == rows.len(),
                forall|q: int| 0 <= q < rows.len() ==> #[trigger] lists(targets@[q], rows[q].0, rows[q].1),
            decreases hs.len() - i,
        {
            let (info, res) = &hs[i];
            match res {
                Err(e) => {
                    proof {
                        assert(finder_rows(hs@, i as int + 1) == Err::<Seq<(HiveInfo, Comb)>, String>(*e));
                        lemma_finder_rows_err(hs@, i as int + 1, hs@.len() as int);
                    }
                    self.status_message = Some(load_failure(e.as_str()));
                    return ;
                },
                Ok(cs) => {
                    let ghost base = rows;
                    let mut k: usize = 0;
                    while k < cs.len()
                        invariant
                            k <= cs@.len(),
                            rows == base + ready_rows(*info, cs@, k as int),
                            targets@.len() == rows.len(),
                            forall|q: int| 0 <= q < rows.len() ==> #[trigger] lists(targets@[q], rows[q].0, rows[q].1),
                        decreases cs.len() - k,
                    {
                        let c = &cs[k];
                        if !c.cloning {
                            targets.push(
                                CombFinderTarget {
                                    hive_dir_name: info.dir_name.clone(),
                                    hive_repo_name: info.repo_name.clone(),
                                    comb_id: c.id.clone(),
                                    comb_name: c.name.clone(),
                                    branch: c.branch.clone(),
                                },
                            );
                            proof {
                                let old_rows = rows;
                                rows = base + ready_rows(*info, cs@, k + 1);
                                assert(rows =~= old_rows.push((*info, cs@[k as int])));
                            }
                        } else {
                            assert(ready_rows(*info, cs@, k + 1) == ready_rows(*info, cs@, k as int));
                        }
                        k = k + 1;
                    }
                },
            }
            i = i + 1;
        }
        if targets.len() == 0 {
            self.status_message = Some(crate::text::to_owned_string("No combs to jump to"));
            return ;
        }
        self.enter_sidebar_mode(AppMode::CombFinder { targets, filter: String::new(), filter_cursor: 0, selected: 0 });
    }
}

/// The status line when the combs could not be read.
fn load_failure(e: &str) -> (r: String)
    ensures
        r@ == "Failed to load combs: "@ + e@,
{
    let mut m = crate::text::to_owned_string("Failed to load combs: ");
    m.append(e);
    m
}

proof fn lemma_finder_rows_err(hives: Seq<(HiveInfo, Result<Vec<Comb>, String>)>, n: int, m: int)
    requires
        0 < n <= m <= hives.len(),
        finder_rows(hives, n) is Err,
    ensures
        finder_rows(hives, m) == finder_rows(hives, n),
    decreases m - n,
{
    if m > n {
        lemma_finder_rows_err(hives, n, m - 1);
    }
}

} // verus!
