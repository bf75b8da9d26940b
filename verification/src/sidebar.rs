//! The sidebar's tree: the items shown under a hive (loose combs, then each
//! nest with its combs when expanded), rebuilding the items after a refresh,
//! and keeping the selection on the same hive, nest or comb.

use vstd::prelude::*;

use crate::desktop::has_nest;
use crate::model::{Comb, HiveInfo, Nest};
use crate::state::{NavItem, RefreshResult};
use crate::text::{str_eq, to_owned_string};
use crate::tui::App;
use crate::state::{AppMode, Focus};

verus! {

/// A row the sidebar shows under a hive, before it is built.
pub enum Child {
    Nest { nest: Nest, expanded: bool, comb_count: nat },
    Comb { comb: Comb },
}

/// Whether a comb is in no nest that exists.
pub open spec fn is_loose(c: Comb, nests: Seq<Nest>) -> bool {
    match c.nest_id {
        Some(n) => !has_nest(nests, n@),
        None => true,
    }
}

/// Whether a comb is in the nest with id `id`.
pub open spec fn in_nest(c: Comb, id: Seq<char>) -> bool {
    c.nest_id matches Some(n) && n@ == id
}

/// How many of the combs are ready (not still being created).
pub open spec fn ready_count(combs: Seq<Comb>) -> nat
    decreases combs.len(),
{
    if combs.len() == 0 {
        0
    } else {
        ready_count(combs.drop_last()) + if combs.last().cloning {
            0nat
        } else {
            1nat
        }
    }
}

/// The combs of the first `n` that are loose.
pub open spec fn loose_prefix(combs: Seq<Comb>, nests: Seq<Nest>, n: int) -> Seq<Comb>
    decreases n,
{
    if n <= 0 || n > combs.len() {
        Seq::empty()
    } else if is_loose(combs[n - 1], nests) {
        loose_prefix(combs, nests, n - 1).push(combs[n - 1])
    } else {
        loose_prefix(combs, nests, n - 1)
    }
}

/// The combs of the first `n` that are in nest `id`.
pub open spec fn nest_prefix(combs: Seq<Comb>, id: Seq<char>, n: int) -> Seq<Comb>
    decreases n,
{
    if n <= 0 || n > combs.len() {
        Seq::empty()
    } else if in_nest(combs[n - 1], id) {
        nest_prefix(combs, id, n - 1).push(combs[n - 1])
    } else {
        nest_prefix(combs, id, n - 1)
    }
}

/// Whether the first `n` items show nest `id` of hive `h`, and expanded or
/// not, going by the first such item.
pub open spec fn prev_expanded(items: Seq<NavItem>, h: Seq<char>, id: Seq<char>, n: int) -> Option<bool>
    decreases n,
{
    if n <= 0 || n > items.len() {
        None
    } else {
        match prev_expanded(items, h, id, n - 1) {
            Some(e) => Some(e),
            None => match items[n - 1] {
                NavItem::Nest { hive_dir_name, nest, expanded, .. } => if hive_dir_name@ == h && nest.id@ == id {
                    Some(expanded)
                } else {
                    None
                },
                _ => None,
            },
        }
    }
}

/// The rows of nests `k` onwards: each nest, expanded as it was shown
/// before (or `default`), then its combs when expanded.
pub open spec fn nest_rows(
    existing: Seq<NavItem>,
    h: Seq<char>,
    nests: Seq<Nest>,
    combs: Seq<Comb>,
    default: bool,
    k: int,
) -> Seq<Child>
    decreases nests.len() - k,
{
    if k < 0 || k >= nests.len() {
        Seq::empty()
    } else {
        let id = nests[k].id@;
        let e = match prev_expanded(existing, h, id, existing.len() as int) {
            Some(x) => x,
            None => default,
        };
        let inside = nest_prefix(combs, id, combs.len() as int);
        let head = seq![Child::Nest { nest: nests[k], expanded: e, comb_count: ready_count(inside) }];
        let body = if e {
            inside.map_values(|c: Comb| Child::Comb { comb: c })
        } else {
            Seq::empty()
        };
        head + body + nest_rows(existing, h, nests, combs, default, k + 1)
    }
}

/// The rows under hive `h`: its loose combs, then its nests.
pub open spec fn child_rows(existing: Seq<NavItem>, h: Seq<char>, nests: Seq<Nest>, combs: Seq<Comb>, default: bool) -> Seq<
    Child,
> {
    loose_prefix(combs, nests, combs.len() as int).map_values(|c: Comb| Child::Comb { comb: c }) + nest_rows(
        existing,
        h,
        nests,
        combs,
        default,
        0,
    )
}

/// Whether an item shows a row of hive `h`.
pub open spec fn shows(it: NavItem, h: Seq<char>, row: Child) -> bool {
    match (it, row) {
        (NavItem::Nest { hive_dir_name, nest, expanded, comb_count }, Child::Nest { nest: n, expanded: e, comb_count: c }) => {
            hive_dir_name@ == h && nest == n && expanded == e && comb_count == c
        },
        (NavItem::Comb { hive_dir_name, comb }, Child::Comb { comb: c }) => hive_dir_name@ == h && comb.same(c),
        _ => false,
    }
}

/// Whether the items show the rows, one each, in order.
pub open spec fn shows_all(items: Seq<NavItem>, h: Seq<char>, rows: Seq<Child>) -> bool {
    &&& items.len() == rows.len()
    &&& forall|i: int| 0 <= i < rows.len() ==> #[trigger] shows(items[i], h, rows[i])
}

proof fn lemma_shows_append(a: Seq<NavItem>, b: Seq<NavItem>, h: Seq<char>, ra: Seq<Child>, rb: Seq<Child>)
    requires
        shows_all(a, h, ra),
        shows_all(b, h, rb),
    ensures
        shows_all(a + b, h, ra + rb),
{
    assert forall|i: int| 0 <= i < (ra + rb).len() implies #[trigger] shows((a + b)[i], h, (ra + rb)[i]) by {
        if i < ra.len() {
            assert((a + b)[i] == a[i]);
            assert((ra + rb)[i] == ra[i]);
        } else {
            assert((a + b)[i] == b[i - ra.len()]);
            assert((ra + rb)[i] == rb[i - ra.len()]);
        }
    }
}

/// How many combs (of nest `id`, or all) are ready.
fn count_ready(combs: &Vec<Comb>, id: Option<&String>) -> (r: usize)
    ensures
        match id {
            Some(n) => r == ready_count(nest_prefix(combs@, n@, combs@.len() as int)),
            None => r == ready_count(combs@),
        },
{
    let mut r: usize = 0;
    let mut i: usize = 0;
    while i < combs.len()
        invariant
            i <= combs.len(),
            r <= i,
            match id {
                Some(n) => r == ready_count(nest_prefix(combs@, n@, i as int)),
                None => r == ready_count(combs@.take(i as int)),
            },
        decreases combs.len() - i,
    {
        let c = &combs[i];
        let counts = match id {
            Some(n) => match &c.nest_id {
                Some(x) => str_eq(x.as_str(), n.as_str()),
                None => false,
            },
            None => true,
        };
        proof {
            match id {
                Some(n) => {
                    let p = nest_prefix(combs@, n@, i + 1);
                    if in_nest(combs@[i as int], n@) {
                        assert(p.drop_last() == nest_prefix(combs@, n@, i as int));
                    }
                },
                None => {
                    assert(combs@.take(i + 1).drop_last() =~= combs@.take(i as int));
                },
            }
        }
        if counts && !c.cloning {
            r = r + 1;
        }
        i = i + 1;
    }
    proof {
        if id is None {
            assert(combs@.take(combs@.len() as int) =~= combs@);
        }
    }
    r
}

impl App {
    /// Whether the items show nest `nest_id` of hive `h`, and expanded or not,
    /// going by the first such item.
    fn previous_nest_expanded(items: &Vec<NavItem>, hive_dir_name: &str, nest_id: &str) -> (r: Option<bool>)
        ensures
            r == prev_expanded(items@, hive_dir_name@, nest_id@, items@.len() as int),
    {
        let mut i: usize = 0;
        while i < items.len()
            invariant
                i <= items.len(),
                prev_expanded(items@, hive_dir_name@, nest_id@, i as int) is None,
            decreases items.len() - i,
        {
            match &items[i] {
                NavItem::Nest { hive_dir_name: h, nest, expanded, .. } => {
                    if str_eq(h.as_str(), hive_dir_name) && str_eq(nest.id.as_str(), nest_id) {
                        proof {
                            lemma_prev_expanded_stable(items@, hive_dir_name@, nest_id@, i + 1, items@.len() as int);
                        }
                        return Some(*expanded);
                    }
                },
                _ => {},
            }
            i = i + 1;
        }
        None
    }

    /// The rows shown under hive `hive_dir_name`: its combs that are in no
    /// existing nest, then each nest (expanded as the existing items show it,
    /// else `default_nest_expanded`) followed, when expanded, by its combs.
    pub fn hive_child_items(
        existing_items: &Vec<NavItem>,
        hive_dir_name: &str,
        nests: Vec<Nest>,
        combs: Vec<Comb>,
        default_nest_expanded: bool,
    ) -> (r: Vec<NavItem>)
        ensures
            shows_all(
                r@,
                hive_dir_name@,
                child_rows(existing_items@, hive_dir_name@, nests@, combs@, default_nest_expanded),
            ),
    {
        let mut items: Vec<NavItem> = Vec::new();
        let mut i: usize = 0;
        while i < combs.len()
            invariant
                i <= combs.len(),
                shows_all(
                    items@,
                    hive_dir_name@,
                    loose_prefix(combs@, nests@, i as int).map_values(|c: Comb| Child::Comb { comb: c }),
                ),
            decreases combs.len() - i,
        {
            let c = &combs[i];
            let loose = match &c.nest_id {
                Some(n) => !crate::desktop::nest_known(&nests, n),
                None => true,
            };
            let ghost before = items@;
            if loose {
                items.push(NavItem::Comb { hive_dir_name: to_owned_string(hive_dir_name), comb: c.clone() });
            }
            proof {
                let rows = loose_prefix(combs@, nests@, i + 1).map_values(|c: Comb| Child::Comb { comb: c });
                let prev = loose_prefix(combs@, nests@, i as int).map_values(|c: Comb| Child::Comb { comb: c });
                if loose {
                    assert(loose_prefix(combs@, nests@, i + 1) == loose_prefix(combs@, nests@, i as int).push(
                        combs@[i as int],
                    ));
                    assert(rows =~= prev.push(Child::Comb { comb: combs@[i as int] }));
                    assert forall|k: int| 0 <= k < rows.len() implies #[trigger] shows(items@[k], hive_dir_name@, rows[k]) by {
                        if k < prev.len() {
                            assert(items@[k] == before[k]);
                        }
                    }
                } else {
                    assert(rows =~= prev);
                }
            }
            i = i + 1;
        }
        let ghost loose_rows = loose_prefix(combs@, nests@, combs@.len() as int).map_values(
            |c: Comb| Child::Comb { comb: c },
        );
        let mut k: usize = 0;
        let ghost mut acc: Seq<Child> = Seq::empty();
        let mut tail: Vec<NavItem> = Vec::new();
        while k < nests.len()
            invariant
                k <= nests.len(),
                shows_all(tail@, hive_dir_name@, acc),
                acc + nest_rows(existing_items@, hive_dir_name@, nests@, combs@, default_nest_expanded, k as int)
                    == nest_rows(existing_items@, hive_dir_name@, nests@, combs@, default_nest_expanded, 0),
            decreases nests.len() - k,
        {
            let nest = &nests[k];
            let expanded = match App::previous_nest_expanded(existing_items, hive_dir_name, nest.id.as_str()) {
                Some(e) => e,
                None => default_nest_expanded,
            };
            let count = count_ready(&combs, Some(&nest.id));
            let ghost id = nest.id@;
            let ghost inside = nest_prefix(combs@, id, combs@.len() as int);
            let ghost head = seq![Child::Nest { nest: nests@[k as int], expanded, comb_count: ready_count(inside) }];
            let ghost body = if expanded {
                inside.map_values(|c: Comb| Child::Comb { comb: c })
            } else {
                Seq::<Child>::empty()
            };
            let ghost before = tail@;
            tail.push(
                NavItem::Nest {
                    hive_dir_name: to_owned_string(hive_dir_name),
                    nest: nest.clone(),
                    expanded,
                    comb_count: count,
                },
            );
            proof {
                assert forall|t: int| 0 <= t < (acc + head).len() implies #[trigger] shows(
                    tail@[t],
                    hive_dir_name@,
                    (acc + head)[t],
                ) by {
                    if t < acc.len() {
                        assert(tail@[t] == before[t]);
                        assert((acc + head)[t] == acc[t]);
                    }
                }
            }
            if expanded {
                let mut j: usize = 0;
                let ghost start = tail@;
                while j < combs.len()
                    invariant
                        j <= combs.len(),
                        start.len() == acc.len() + 1,
                        shows_all(start, hive_dir_name@, acc + head),
                        tail@.len() >= start.len(),
                        tail@.subrange(0, start.len() as int) == start,
                        shows_all(
                            tail@.subrange(start.len() as int, tail@.len() as int),
                            hive_dir_name@,
                            nest_prefix(combs@, id, j as int).map_values(|c: Comb| Child::Comb { comb: c }),
                        ),
                        id == nest.id@,
                    decreases combs.len() - j,
                {
                    let c = &combs[j];
                    let hit = match &c.nest_id {
                        Some(x) => str_eq(x.as_str(), nest.id.as_str()),
                        None => false,
                    };
                    let ghost before2 = tail@;
                    if hit {
                        tail.push(NavItem::Comb { hive_dir_name: to_owned_string(hive_dir_name), comb: c.clone() });
                    }
                    proof {
                        let rows = nest_prefix(combs@, id, j + 1).map_values(|c: Comb| Child::Comb { comb: c });
                        let prev = nest_prefix(combs@, id, j as int).map_values(|c: Comb| Child::Comb { comb: c });
                        let seg = tail@.subrange(start.len() as int, tail@.len() as int);
                        let seg0 = before2.subrange(start.len() as int, before2.len() as int);
                        if hit {
                            assert(rows =~= prev.push(Child::Comb { comb: combs@[j as int] }));
                            assert forall|q: int| 0 <= q < rows.len() implies #[trigger] shows(seg[q], hive_dir_name@, rows[q]) by {
                                if q < prev.len() {
                                    assert(seg[q] == seg0[q]);
                                }
                            }
                            assert(tail@.subrange(0, start.len() as int) =~= start);
                        } else {
                            assert(rows =~= prev);
                        }
                    }
                    j = j + 1;
                }
                proof {
                    let seg = tail@.subrange(start.len() as int, tail@.len() as int);
                    assert(tail@ =~= start + seg);
                    lemma_shows_append(start, seg, hive_dir_name@, acc + head, body);
                }
            } else {
                proof {
                    assert(acc + head + body =~= acc + head);
                }
            }
            proof {
                let rest = nest_rows(existing_items@, hive_dir_name@, nests@, combs@, default_nest_expanded, k + 1);
                assert(nest_rows(existing_items@, hive_dir_name@, nests@, combs@, default_nest_expanded, k as int)
                    == head + body + rest);
                assert(acc + (head + body + rest) =~= (acc + head + body) + rest);
                acc = acc + head + body;
            }
            k = k + 1;
        }
        proof {
            assert(nest_rows(existing_items@, hive_dir_name@, nests@, combs@, default_nest_expanded, k as int)
                =~= Seq::<Child>::empty());
            assert(acc + Seq::<Child>::empty() =~= acc);
            lemma_shows_append(items@, tail@, hive_dir_name@, loose_rows, acc);
        }
        items.append(&mut tail);
        items
    }
}

/// What identifies a row across refreshes.
pub enum ItemKey {
    Hive { dir_name: Seq<char> },
    Nest { hive_dir_name: Seq<char>, id: Seq<char> },
    Comb { id: Seq<char> },
}

/// The identity of an item: a hive by directory, a nest by hive and id, a
/// comb by id.
pub open spec fn key_of(it: NavItem) -> ItemKey {
    match it {
        NavItem::Hive { info, .. } => ItemKey::Hive { dir_name: info.dir_name@ },
        NavItem::Nest { hive_dir_name, nest, .. } => ItemKey::Nest { hive_dir_name: hive_dir_name@, id: nest.id@ },
        NavItem::Comb { comb, .. } => ItemKey::Comb { id: comb.id@ },
    }
}

/// The position of the first item with the same identity, among the first `n`.
pub open spec fn find_key(items: Seq<NavItem>, k: ItemKey, n: int) -> Option<int>
    decreases n,
{
    if n <= 0 || n > items.len() {
        None
    } else {
        match find_key(items, k, n - 1) {
            Some(i) => Some(i),
            None => if key_of(items[n - 1]) == k {
                Some(n - 1)
            } else {
                None
            },
        }
    }
}

/// The selection after the items are replaced by `new_items`: on the row
/// with the identity of the selected one, else kept within the new items.
pub open spec fn synced_selection(old_items: Seq<NavItem>, selected: int, new_items: Seq<NavItem>) -> int {
    if new_items.len() == 0 {
        0
    } else {
        let found = if 0 <= selected < old_items.len() {
            find_key(new_items, key_of(old_items[selected]), new_items.len() as int)
        } else {
            None
        };
        match found {
            Some(i) => i,
            None => if selected >= new_items.len() {
                new_items.len() - 1
            } else {
                selected
            },
        }
    }
}

/// A row of the sidebar before it is built.
pub enum Row {
    Hive { info: HiveInfo, expanded: bool, comb_count: nat },
    Under { hive: Seq<char>, row: Child },
}

/// Whether an item shows a row.
pub open spec fn shows_row(it: NavItem, row: Row) -> bool {
    match row {
        Row::Hive { info, expanded, comb_count } => it matches NavItem::Hive { info: i, expanded: e, comb_count: c }
            && i == info && e == expanded && c == comb_count,
        Row::Under { hive, row } => shows(it, hive, row),
    }
}

/// Whether the items show the rows, one each, in order.
pub open spec fn shows_rows(items: Seq<NavItem>, rows: Seq<Row>) -> bool {
    &&& items.len() == rows.len()
    &&& forall|i: int| 0 <= i < rows.len() ==> #[trigger] shows_row(items[i], rows[i])
}

/// Whether the item shows hive `dir` expanded.
pub open spec fn is_expanded_hive(it: NavItem, dir: Seq<char>) -> bool {
    it matches NavItem::Hive { info, expanded, .. } && info.dir_name@ == dir && expanded
}

/// Whether the items show hive `dir` expanded.
pub open spec fn was_expanded(items: Seq<NavItem>, dir: Seq<char>) -> bool {
    exists|i: int| 0 <= i < items.len() && #[trigger] is_expanded_hive(items[i], dir)
}

/// The rows after a refresh, from hive `p` on: each hive, expanded when
/// `all` or when it was shown expanded before, then its rows when expanded.
pub open spec fn refresh_rows(
    old_items: Seq<NavItem>,
    data: Seq<(HiveInfo, Vec<Nest>, Vec<Comb>)>,
    all: bool,
    p: int,
) -> Seq<Row>
    decreases data.len() - p,
{
    if p < 0 || p >= data.len() {
        Seq::empty()
    } else {
        let (info, nests, combs) = data[p];
        let e = all || was_expanded(old_items, info.dir_name@);
        let head = seq![Row::Hive { info, expanded: e, comb_count: ready_count(combs@) }];
        let body = if e {
            child_rows(old_items, info.dir_name@, nests@, combs@, true).map_values(
                |c: Child| Row::Under { hive: info.dir_name@, row: c },
            )
        } else {
            Seq::empty()
        };
        head + body + refresh_rows(old_items, data, all, p + 1)
    }
}

proof fn lemma_rows_append(a: Seq<NavItem>, b: Seq<NavItem>, ra: Seq<Row>, rb: Seq<Row>)
    requires
        shows_rows(a, ra),
        shows_rows(b, rb),
    ensures
        shows_rows(a + b, ra + rb),
{
    assert forall|i: int| 0 <= i < (ra + rb).len() implies #[trigger] shows_row((a + b)[i], (ra + rb)[i]) by {
        if i < ra.len() {
            assert((a + b)[i] == a[i]);
            assert((ra + rb)[i] == ra[i]);
        } else {
            assert((a + b)[i] == b[i - ra.len()]);
            assert((ra + rb)[i] == rb[i - ra.len()]);
        }
    }
}

/// Whether an item has the given identity.
fn has_key(it: &NavItem, key: &NavItem) -> (r: bool)
    ensures
        r == (key_of(*it) == key_of(*key)),
{
    match (it, key) {
        (NavItem::Hive { info, .. }, NavItem::Hive { info: k, .. }) => str_eq(
            info.dir_name.as_str(),
            k.dir_name.as_str(),
        ),
        (NavItem::Nest { hive_dir_name, nest, .. }, NavItem::Nest { hive_dir_name: kh, nest: kn, .. }) => str_eq(
            hive_dir_name.as_str(),
            kh.as_str(),
        ) && str_eq(nest.id.as_str(), kn.id.as_str()),
        (NavItem::Comb { comb, .. }, NavItem::Comb { comb: kc, .. }) => str_eq(comb.id.as_str(), kc.id.as_str()),
        _ => false,
    }
}

impl App {
    /// The position of the first item with the identity of `key`.
    fn find_item_index(items: &Vec<NavItem>, key: &NavItem) -> (r: Option<usize>)
        ensures
            match r {
                Some(i) => find_key(items@, key_of(*key), items@.len() as int) == Some(i as int),
                None => find_key(items@, key_of(*key), items@.len() as int) is None,
            },
    {
        let mut i: usize = 0;
        while i < items.len()
            invariant
                i <= items.len(),
                find_key(items@, key_of(*key), i as int) is None,
            decreases items.len() - i,
        {
            if has_key(&items[i], key) {
                proof {
                    lemma_find_key_stable(items@, key_of(*key), i + 1, items@.len() as int);
                }
                return Some(i);
            }
            i = i + 1;
        }
        None
    }

    /// Moves the selection onto `items`, which are about to replace the
    /// current ones: onto the row with the identity of the selected one, else
    /// kept within the new items.
    pub fn sync_selection_to_items(&mut self, items: &Vec<NavItem>)
        ensures
            final(self).selected == synced_selection(old(self).items@, old(self).selected as int, items@),
            *final(self) == (App { selected: final(self).selected, ..*old(self) }),
    {
        if items.len() == 0 {
            self.selected = 0;
            return ;
        }
        if self.selected < self.items.len() {
            match App::find_item_index(items, &self.items[self.selected]) {
                Some(i) => {
                    self.selected = i;
                    return ;
                },
                None => {},
            }
        }
        if self.selected >= items.len() {
            self.selected = items.len() - 1;
        }
    }

    /// Rebuilds the items from a background refresh: each hive, expanded as
    /// it was shown before, followed when expanded by its rows; the selection
    /// follows the row it was on.
    pub fn apply_refresh(&mut self, result: RefreshResult)
        ensures
            shows_rows(final(self).items@, refresh_rows(old(self).items@, result.hive_data@, false, 0)),
            final(self).selected == synced_selection(
                old(self).items@,
                old(self).selected as int,
                final(self).items@,
            ),
            *final(self) == (App { items: final(self).items, selected: final(self).selected, ..*old(self) }),
    {
        self.rebuild(result.hive_data, false);
    }

    /// Rebuilds the items from every hive's state as read at start-up or on a
    /// manual refresh: each hive expanded when `expand_all` or when it was
    /// shown expanded, followed when expanded by its rows; the selection
    /// follows the row it was on.
    pub fn load_all(&mut self, expand_all: bool, hive_data: Vec<(HiveInfo, Vec<Nest>, Vec<Comb>)>)
        ensures
            shows_rows(final(self).items@, refresh_rows(old(self).items@, hive_data@, expand_all, 0)),
            final(self).selected == synced_selection(
                old(self).items@,
                old(self).selected as int,
                final(self).items@,
            ),
            *final(self) == (App { items: final(self).items, selected: final(self).selected, ..*old(self) }),
    {
        self.rebuild(hive_data, expand_all);
    }

    fn rebuild(&mut self, hive_data: Vec<(HiveInfo, Vec<Nest>, Vec<Comb>)>, all: bool)
        ensures
            shows_rows(final(self).items@, refresh_rows(old(self).items@, hive_data@, all, 0)),
            final(self).selected == synced_selection(
                old(self).items@,
                old(self).selected as int,
                final(self).items@,
            ),
            *final(self) == (App { items: final(self).items, selected: final(self).selected, ..*old(self) }),
    {
        let ghost data = hive_data@;
        let ghost old_items = self.items@;
        let mut rest = hive_data;
        let mut items: Vec<NavItem> = Vec::new();
        let ghost mut p: int = 0;
        let ghost mut acc: Seq<Row> = Seq::empty();
        assert(data.subrange(0, data.len() as int) =~= data);
        assert(acc + refresh_rows(old_items, data, all, 0) =~= refresh_rows(old_items, data, all, 0));
        while rest.len() > 0
            invariant
                0 <= p <= data.len(),
                p + rest@.len() == data.len(),
                rest@ == data.subrange(p, data.len() as int),
                old_items == self.items@,
                shows_rows(items@, acc),
                acc + refresh_rows(old_items, data, all, p) == refresh_rows(old_items, data, all, 0),
            decreases rest.len(),
        {
            let (info, nests, combs) = rest.remove(0);
            assert((info, nests, combs) == data[p]);
            assert(rest@ =~= data.subrange(p + 1, data.len() as int));
            let mut expanded = all;
            let mut j: usize = 0;
            while j < self.items.len()
                invariant
                    j <= self.items@.len(),
                    old_items == self.items@,
                    expanded == (all || exists|t: int| 0 <= t < j && #[trigger] is_expanded_hive(self.items@[t], info.dir_name@)),
                decreases self.items.len() - j,
            {
                match &self.items[j] {
                    NavItem::Hive { info: hi, expanded: he, .. } => {
                        if *he && str_eq(hi.dir_name.as_str(), info.dir_name.as_str()) {
                            expanded = true;
                        }
                    },
                    _ => {},
                }
                assert(is_expanded_hive(self.items@[j as int], info.dir_name@) ==> expanded);
                j = j + 1;
            }
            let count = count_ready(&combs, None);
            let ghost h = info.dir_name@;
            let ghost head = seq![Row::Hive { info, expanded, comb_count: ready_count(combs@) }];
            let ghost child = child_rows(old_items, h, nests@, combs@, true);
            let ghost body = if expanded {
                child.map_values(|c: Child| Row::Under { hive: h, row: c })
            } else {
                Seq::<Row>::empty()
            };
            let dir = to_owned_string(info.dir_name.as_str());
            let ghost before = items@;
            items.push(NavItem::Hive { info, expanded, comb_count: count });
            proof {
                assert forall|t: int| 0 <= t < (acc + head).len() implies #[trigger] shows_row(
                    items@[t],
                    (acc + head)[t],
                ) by {
                    if t < acc.len() {
                        assert(items@[t] == before[t]);
                        assert((acc + head)[t] == acc[t]);
                    }
                }
            }
            if expanded {
                let mut kids = App::hive_child_items(&self.items, dir.as_str(), nests, combs, true);
                let ghost mid = items@;
                let ghost kv = kids@;
                items.append(&mut kids);
                proof {
                    assert(shows_rows(kv, body)) by {
                        assert forall|t: int| 0 <= t < body.len() implies #[trigger] shows_row(kv[t], body[t]) by {
                            assert(shows(kv[t], h, child[t]));
                        }
                    }
                    lemma_rows_append(mid, kv, acc + head, body);
                }
            } else {
                proof {
                    assert(acc + head + body =~= acc + head);
                }
            }
            proof {
                let rest_rows = refresh_rows(old_items, data, all, p + 1);
                assert(refresh_rows(old_items, data, all, p) == head + body + rest_rows);
                assert(acc + (head + body + rest_rows) =~= (acc + head + body) + rest_rows);
                acc = acc + head + body;
                p = p + 1;
            }
        }
        proof {
            assert(refresh_rows(old_items, data, all, p) =~= Seq::<Row>::empty());
            assert(acc + Seq::<Row>::empty() =~= acc);
        }
        self.sync_selection_to_items(&items);
        self.items = items;
    }
}

/// The first position from `k` on that holds a hive item (the end if none).
pub open spec fn next_hive_from(items: Seq<NavItem>, k: int) -> int
    decreases items.len() - k,
{
    if k < 0 || k >= items.len() {
        items.len() as int
    } else if items[k] is Hive {
        k
    } else {
        next_hive_from(items, k + 1)
    }
}

/// The first position from `k` on that does not hold a comb of nest `id`
/// in hive `h` (the end if none).
pub open spec fn nest_end_from(items: Seq<NavItem>, h: Seq<char>, id: Seq<char>, k: int) -> int
    decreases items.len() - k,
{
    if k < 0 || k >= items.len() {
        items.len() as int
    } else if comb_of_nest(items[k], h, id) {
        nest_end_from(items, h, id, k + 1)
    } else {
        k
    }
}

/// Whether the item is a comb of nest `id` in hive `h`.
pub open spec fn comb_of_nest(it: NavItem, h: Seq<char>, id: Seq<char>) -> bool {
    it matches NavItem::Comb { hive_dir_name, comb } && hive_dir_name@ == h && in_nest(comb, id)
}

/// The item with its expanded flag flipped (hives and nests).
pub open spec fn flipped(it: NavItem) -> NavItem {
    match it {
        NavItem::Hive { info, expanded, comb_count } => NavItem::Hive { info, expanded: !expanded, comb_count },
        NavItem::Nest { hive_dir_name, nest, expanded, comb_count } => NavItem::Nest {
            hive_dir_name,
            nest,
            expanded: !expanded,
            comb_count,
        },
        _ => it,
    }
}

/// The item shown expanded (hives and nests).
pub open spec fn opened_item(it: NavItem) -> NavItem {
    match it {
        NavItem::Hive { info, comb_count, .. } => NavItem::Hive { info, expanded: true, comb_count },
        NavItem::Nest { hive_dir_name, nest, comb_count, .. } => NavItem::Nest {
            hive_dir_name,
            nest,
            expanded: true,
            comb_count,
        },
        _ => it,
    }
}

fn flip_item(it: &mut NavItem)
    ensures
        *final(it) == flipped(*old(it)),
{
    match it {
        NavItem::Hive { expanded, .. } => {
            *expanded = !*expanded;
        },
        NavItem::Nest { expanded, .. } => {
            *expanded = !*expanded;
        },
        _ => {},
    }
}

/// Inserts `new` after position `at`.
fn insert_after(items: &mut Vec<NavItem>, at: usize, new: Vec<NavItem>)
    requires
        at < old(items)@.len(),
    ensures
        final(items)@ == old(items)@.subrange(0, at + 1) + new@ + old(items)@.subrange(at + 1, old(items)@.len() as int),
{
    let n = items.len();
    assert(at < n);
    let mut tail = items.split_off(at + 1);
    let mut new = new;
    items.append(&mut new);
    items.append(&mut tail);
}

/// Removes the items from `from` up to (not including) `to`.
fn remove_range(items: &mut Vec<NavItem>, from: usize, to: usize)
    requires
        from <= to <= old(items)@.len(),
    ensures
        final(items)@ == old(items)@.subrange(0, from as int) + old(items)@.subrange(to as int, old(items)@.len() as int),
{
    let mut tail = items.split_off(to);
    let _gone = items.split_off(from);
    items.append(&mut tail);
}

/// The combs of nest `id` of hive `h`, in order, as items.
fn nest_comb_items(h: &str, id: &String, combs: Vec<Comb>) -> (r: Vec<NavItem>)
    ensures
        shows_all(
            r@,
            h@,
            nest_prefix(combs@, id@, combs@.len() as int).map_values(|c: Comb| Child::Comb { comb: c }),
        ),
{
    let ghost orig = combs@;
    let mut rest = combs;
    let mut r: Vec<NavItem> = Vec::new();
    let ghost mut n: int = 0;
    assert(orig.subrange(0, orig.len() as int) =~= orig);
    while rest.len() > 0
        invariant
            0 <= n <= orig.len(),
            n + rest@.len() == orig.len(),
            rest@ == orig.subrange(n, orig.len() as int),
            shows_all(r@, h@, nest_prefix(orig, id@, n).map_values(|c: Comb| Child::Comb { comb: c })),
        decreases rest.len(),
    {
        let c = rest.remove(0);
        assert(c == orig[n]);
        assert(rest@ =~= orig.subrange(n + 1, orig.len() as int));
        let hit = match &c.nest_id {
            Some(x) => str_eq(x.as_str(), id.as_str()),
            None => false,
        };
        let ghost before = r@;
        let ghost prev = nest_prefix(orig, id@, n).map_values(|c: Comb| Child::Comb { comb: c });
        let ghost rows = nest_prefix(orig, id@, n + 1).map_values(|c: Comb| Child::Comb { comb: c });
        if hit {
            r.push(NavItem::Comb { hive_dir_name: to_owned_string(h), comb: c });
            proof {
                assert(rows =~= prev.push(Child::Comb { comb: orig[n] }));
                assert forall|q: int| 0 <= q < rows.len() implies #[trigger] shows(r@[q], h@, rows[q]) by {
                    if q < prev.len() {
                        assert(r@[q] == before[q]);
                    }
                }
            }
        } else {
            assert(rows =~= prev);
        }
        proof {
            n = n + 1;
        }
    }
    r
}

impl App {
    /// The position of the item of hive `hive_dir_name`.
    pub fn find_hive_index(&self, hive_dir_name: &str) -> (r: Option<usize>)
        ensures
            match r {
                Some(i) => i < self.items@.len() && is_hive_item(self.items@[i as int], hive_dir_name@)
                    && forall|j: int| 0 <= j < i ==> !is_hive_item(#[trigger] self.items@[j], hive_dir_name@),
                None => forall|j: int|
                    0 <= j < self.items@.len() ==> !is_hive_item(#[trigger] self.items@[j], hive_dir_name@),
            },
    {
        let mut i: usize = 0;
        while i < self.items.len()
            invariant
                i <= self.items@.len(),
                forall|j: int| 0 <= j < i ==> !is_hive_item(#[trigger] self.items@[j], hive_dir_name@),
            decreases self.items.len() - i,
        {
            match &self.items[i] {
                NavItem::Hive { info, .. } => {
                    if str_eq(info.dir_name.as_str(), hive_dir_name) {
                        return Some(i);
                    }
                },
                _ => {},
            }
            i = i + 1;
        }
        None
    }

    /// Expands the hive at `hive_index`, if it is a collapsed hive: it is
    /// marked expanded, then its rows are inserted below it, built from
    /// `state`, the hive's nests and combs as read from disk (or why they
    /// could not be read: the error is returned and no rows are inserted).
    pub fn expand_hive_at(&mut self, hive_index: usize, state: Result<(Vec<Nest>, Vec<Comb>), String>) -> (r: Result<(), String>)
        requires
            hive_index < old(self).items@.len(),
        ensures
            *final(self) == (App { items: final(self).items, ..*old(self) }),
            expand_rel(old(self).items@, hive_index as int, state, final(self).items@, r),
    {
        let dir = match &self.items[hive_index] {
            NavItem::Hive { info, expanded, .. } => {
                if *expanded {
                    return Ok(());
                }
                to_owned_string(info.dir_name.as_str())
            },
            _ => return Ok(()),
        };
        let ghost it = self.items@;
        match &mut self.items[hive_index] {
            NavItem::Hive { expanded, .. } => {
                *expanded = true;
            },
            _ => {},
        }
        assert(self.items@ =~= it.update(hive_index as int, opened_item(it[hive_index as int])));
        match state {
            Err(e) => Err(e),
            Ok((nests, combs)) => {
                let ghost upd = self.items@;
                let children = App::hive_child_items(&self.items, dir.as_str(), nests, combs, true);
                let ghost cv = children@;
                insert_after(&mut self.items, hive_index, children);
                proof {
                    let fin = self.items@;
                    assert(fin.subrange(0, hive_index + 1) =~= upd.subrange(0, hive_index + 1));
                    assert(fin.subrange(hive_index + 1, fin.len() - (it.len() - hive_index - 1)) =~= cv);
                    assert(fin.subrange(fin.len() - (it.len() - hive_index - 1), fin.len() as int) =~= upd.subrange(
                        hive_index + 1,
                        upd.len() as int,
                    ));
                    assert(upd.subrange(hive_index + 1, upd.len() as int) =~= it.subrange(hive_index + 1, it.len() as int));
                }
                Ok(())
            },
        }
    }

    /// Opens the selected item: a hive or nest is expanded or collapsed (its
    /// rows built from `state`, the hive's nests and combs as read from disk,
    /// `None` when they could not be read: then none are shown); a comb that
    /// is ready becomes the active one and its id and path are returned.
    pub fn enter_selected(&mut self, state: Option<(Vec<Nest>, Vec<Comb>)>) -> (r: Option<(String, String)>)
        requires
            old(self).wf(),
        ensures
            ({
                let it = old(self).items@;
                let s = old(self).selected as int;
                if it.len() == 0 {
                    r is None && *final(self) == *old(self)
                } else {
                    match it[s] {
                        NavItem::Comb { comb, .. } => if comb.cloning {
                            r is None && *final(self) == (App { status_message: final(self).status_message, ..*old(self) })
                                && crate::tui::status_is(final(self).status_message, "Still in progress..."@)
                        } else {
                            (r matches Some((id, path)) && id@ == comb.id@ && path@ == comb.path@) && *final(self)
                                == (App { active_comb_id: final(self).active_comb_id, ..*old(self) }) && (final(self).active_comb_id matches Some(a) && a@ == comb.id@)
                        },
                        _ => r is None && *final(self) == (App { items: final(self).items, ..*old(self) })
                            && entered(it, s, state, final(self).items@),
                    }
                }
            }),
    {
        if self.items.len() == 0 {
            return None;
        }
        let s = self.selected;
        let ghost it = self.items@;
        match &self.items[s] {
            NavItem::Comb { comb, .. } => {
                if comb.cloning {
                    self.status_message = Some(to_owned_string("Still in progress..."));
                    return None;
                }
                let id = comb.id.clone();
                let path = comb.path.clone();
                self.active_comb_id = Some(comb.id.clone());
                return Some((id, path));
            },
            _ => {},
        }
        flip_item(&mut self.items[s]);
        assert(self.items@ =~= it.update(s as int, flipped(it[s as int])));
        let ghost upd = self.items@;
        let (now_expanded, dir, nest_id) = match &self.items[s] {
            NavItem::Hive { info, expanded, .. } => (*expanded, to_owned_string(info.dir_name.as_str()), None),
            NavItem::Nest { hive_dir_name, nest, expanded, .. } => (
                *expanded,
                to_owned_string(hive_dir_name.as_str()),
                Some(nest.id.clone()),
            ),
            NavItem::Comb { .. } => (false, String::new(), None),
        };
        if now_expanded {
            match state {
                Some((nests, combs)) => {
                    let children = match &nest_id {
                        None => App::hive_child_items(&self.items, dir.as_str(), nests, combs, true),
                        Some(id) => nest_comb_items(dir.as_str(), id, combs),
                    };
                    insert_after(&mut self.items, s, children);
                    proof {
                        let fin = self.items@;
                        let k = fin.len() - (it.len() - s - 1);
                        assert(fin.subrange(0, s + 1) =~= upd.subrange(0, s + 1));
                        assert(fin.subrange(k, fin.len() as int) =~= upd.subrange(s + 1, upd.len() as int));
                        assert(upd.subrange(s + 1, upd.len() as int) =~= it.subrange(s + 1, it.len() as int));
                    }
                },
                None => {},
            }
        } else {
            let mut end = s + 1;
            match &nest_id {
                None => {
                    while end < self.items.len() && !self.is_hive_at(end)
                        invariant
                            s + 1 <= end <= self.items@.len(),
                            self.items@ == upd,
                            next_hive_from(upd, s + 1) == next_hive_from(upd, end as int),
                        decreases self.items.len() - end,
                    {
                        end = end + 1;
                    }
                },
                Some(id) => {
                    while end < self.items.len() && self.is_nest_comb_at(end, dir.as_str(), id)
                        invariant
                            s + 1 <= end <= self.items@.len(),
                            self.items@ == upd,
                            nest_end_from(upd, dir@, id@, s + 1) == nest_end_from(upd, dir@, id@, end as int),
                        decreases self.items.len() - end,
                    {
                        end = end + 1;
                    }
                },
            }
            remove_range(&mut self.items, s + 1, end);
        }
        None
    }

    fn is_hive_at(&self, k: usize) -> (r: bool)
        requires
            k < self.items@.len(),
        ensures
            r == self.items@[k as int] is Hive,
    {
        match &self.items[k] {
            NavItem::Hive { .. } => true,
            _ => false,
        }
    }

    fn is_nest_comb_at(&self, k: usize, h: &str, id: &String) -> (r: bool)
        requires
            k < self.items@.len(),
        ensures
            r == comb_of_nest(self.items@[k as int], h@, id@),
    {
        match &self.items[k] {
            NavItem::Comb { hive_dir_name, comb } => str_eq(hive_dir_name.as_str(), h) && match &comb.nest_id {
                Some(x) => str_eq(x.as_str(), id.as_str()),
                None => false,
            },
            _ => false,
        }
    }
}

/// `out` and `r` are what expanding the hive at `i` of `it` gives, with the
/// hive's nests and combs (or why they could not be read) in `state`.
pub open spec fn expand_rel(
    it: Seq<NavItem>,
    i: int,
    state: Result<(Vec<Nest>, Vec<Comb>), String>,
    out: Seq<NavItem>,
    r: Result<(), String>,
) -> bool {
    match it[i] {
        NavItem::Hive { info, expanded, .. } => if expanded {
            r is Ok && out == it
        } else {
            let upd = it.update(i, opened_item(it[i]));
            match state {
                Err(e) => r == Err::<(), String>(e) && out == upd,
                Ok((nests, combs)) => r is Ok && spliced(upd, i, out, info.dir_name@, child_rows(upd, info.dir_name@, nests@, combs@, true)),
            }
        },
        _ => r is Ok && out == it,
    }
}

/// Whether the item is the item of hive `h`.
pub open spec fn is_hive_item(it: NavItem, h: Seq<char>) -> bool {
    it matches NavItem::Hive { info, .. } && info.dir_name@ == h
}

/// The items after entering the hive or nest at `s` of `it`: flipped; when
/// now expanded, followed by its rows built from `state` (none when it is
/// `None`); when now collapsed, without the rows that followed it (up to the
/// next hive, or the combs of the nest).
pub open spec fn entered(it: Seq<NavItem>, s: int, state: Option<(Vec<Nest>, Vec<Comb>)>, out: Seq<NavItem>) -> bool {
    let upd = it.update(s, flipped(it[s]));
    match upd[s] {
        NavItem::Hive { info, expanded, .. } => if expanded {
            match state {
                Some((nests, combs)) => spliced(upd, s, out, info.dir_name@, child_rows(upd, info.dir_name@, nests@, combs@, true)),
                None => out == upd,
            }
        } else {
            out == upd.subrange(0, s + 1) + upd.subrange(next_hive_from(upd, s + 1), upd.len() as int)
        },
        NavItem::Nest { hive_dir_name, nest, expanded, .. } => if expanded {
            match state {
                Some((_, combs)) => spliced(
                    upd,
                    s,
                    out,
                    hive_dir_name@,
                    nest_prefix(combs@, nest.id@, combs@.len() as int).map_values(|c: Comb| Child::Comb { comb: c }),
                ),
                None => out == upd,
            }
        } else {
            out == upd.subrange(0, s + 1) + upd.subrange(
                nest_end_from(upd, hive_dir_name@, nest.id@, s + 1),
                upd.len() as int,
            )
        },
        _ => false,
    }
}

/// `out` is `base` with items showing `rows` of hive `h` inserted after `s`.
pub open spec fn spliced(base: Seq<NavItem>, s: int, out: Seq<NavItem>, h: Seq<char>, rows: Seq<Child>) -> bool {
    let k = out.len() - (base.len() - s - 1);
    &&& out.len() >= base.len()
    &&& out.subrange(0, s + 1) == base.subrange(0, s + 1)
    &&& shows_all(out.subrange(s + 1, k), h, rows)
    &&& out.subrange(k, out.len() as int) == base.subrange(s + 1, base.len() as int)
}

/// What expanding the hive at `i` returns.
pub open spec fn expand_result(it: Seq<NavItem>, i: int, state: Result<(Vec<Nest>, Vec<Comb>), String>) -> Result<(), String> {
    match it[i] {
        NavItem::Hive { expanded, .. } => if !expanded && state is Err {
            Err(state->Err_0)
        } else {
            Ok(())
        },
        _ => Ok(()),
    }
}

/// The hive to mark items in, and the item to start on, when delete mode
/// starts from the selection; or why it cannot start.
pub open spec fn delete_start(app: App) -> Result<(Seq<char>, Option<ItemKey>), Seq<char>> {
    let s = app.selected as int;
    match app.items@[s] {
        NavItem::Hive { info, .. } => Ok((info.dir_name@, None)),
        NavItem::Nest { hive_dir_name, nest, .. } => if crate::tui::ids_contain(app.deleting_nest_ids@, nest.id@) {
            Err("That nest is already being deleted"@)
        } else {
            Ok((hive_dir_name@, Some(key_of(app.items@[s]))))
        },
        NavItem::Comb { hive_dir_name, comb } => if comb.cloning {
            Err("Cannot delete a comb that is still in progress"@)
        } else if crate::tui::ids_contain(app.deleting_comb_ids@, comb.id@) {
            Err("That comb is already being deleted"@)
        } else {
            Ok((hive_dir_name@, Some(key_of(app.items@[s]))))
        },
    }
}

/// The position of the first item of hive `h` among the first `n`.
pub open spec fn first_hive(items: Seq<NavItem>, h: Seq<char>, n: int) -> Option<int>
    decreases n,
{
    if n <= 0 || n > items.len() {
        None
    } else {
        match first_hive(items, h, n - 1) {
            Some(i) => Some(i),
            None => if is_hive_item(items[n - 1], h) {
                Some(n - 1)
            } else {
                None
            },
        }
    }
}

proof fn lemma_first_hive(items: Seq<NavItem>, h: Seq<char>, n: int)
    requires
        0 <= n <= items.len(),
    ensures
        match first_hive(items, h, n) {
            Some(i) => 0 <= i < n && is_hive_item(items[i], h) && forall|j: int| 0 <= j < i ==> !is_hive_item(#[trigger] items[j], h),
            None => forall|j: int| 0 <= j < n ==> !is_hive_item(#[trigger] items[j], h),
        },
    decreases n,
{
    if n > 0 {
        lemma_first_hive(items, h, n - 1);
    }
}

proof fn lemma_find_key(items: Seq<NavItem>, k: ItemKey, n: int)
    requires
        0 <= n <= items.len(),
    ensures
        match find_key(items, k, n) {
            Some(i) => 0 <= i < n && key_of(items[i]) == k,
            None => true,
        },
    decreases n,
{
    if n > 0 {
        lemma_find_key(items, k, n - 1);
    }
}

/// How delete mode starts from the selection, given the items after the
/// selected item's hive was expanded.
pub open spec fn delete_mode_outcome(before: App, after: App, h: Seq<char>, key: Option<ItemKey>) -> bool {
    let items = after.items@;
    let via_key: Option<int> = match key {
        Some(k) => match find_key(items, k, items.len() as int) {
            Some(i) => if before.deletable(items[i], h) {
                Some(i)
            } else {
                None
            },
            None => None,
        },
        None => None,
    };
    let done = |i: int|
        after == (App {
            items: after.items,
            selected: i as usize,
            focus: Focus::Sidebar,
            mode: after.mode,
            ..before
        }) && (after.mode matches AppMode::DeleteCombSelection { hive_dir_name, selected_comb_ids, selected_nest_ids }
            && hive_dir_name@ == h && selected_comb_ids@.len() == 0 && selected_nest_ids@.len() == 0);
    match via_key {
        Some(i) => done(i),
        None => if exists|j: int| 0 <= j < items.len() && before.deletable(#[trigger] items[j], h) {
            &&& 0 <= after.selected < items.len()
            &&& before.deletable(items[after.selected as int], h)
            &&& forall|j: int| 0 <= j < after.selected ==> !before.deletable(#[trigger] items[j], h)
            &&& done(after.selected as int)
        } else {
            after == (App { items: after.items, status_message: after.status_message, ..before })
                && crate::tui::status_is(after.status_message, "No combs or nests available to delete in this hive"@)
        },
    }
}

impl App {
    /// Starts marking items for deletion in the selected item's hive, on the
    /// selected comb or nest (or the hive's first one that can be marked).
    /// The hive is expanded first, with its nests and combs from `hive_state`
    /// (ignored when it is already expanded). Refused, with a status message,
    /// for a comb still being created or an item already being deleted, when
    /// the hive cannot be opened, and when nothing in it can be marked.
    pub fn start_delete_mode(&mut self, hive_state: Result<(Vec<Nest>, Vec<Comb>), String>)
        requires
            old(self).wf(),
        ensures
            old(self).items@.len() == 0 ==> *final(self) == *old(self),
            old(self).items@.len() > 0 ==> match delete_start(*old(self)) {
                Err(m) => crate::tui::told(*old(self), *final(self), m),
                Ok((h, key)) => match first_hive(old(self).items@, h, old(self).items@.len() as int) {
                    None => crate::tui::told(*old(self), *final(self), "Hive not found"@),
                    Some(hi) => expand_rel(
                        old(self).items@,
                        hi,
                        hive_state,
                        final(self).items@,
                        expand_result(old(self).items@, hi, hive_state),
                    ) && match expand_result(old(self).items@, hi, hive_state) {
                        Err(e) => *final(self) == (App {
                            items: final(self).items,
                            status_message: final(self).status_message,
                            ..*old(self)
                        }) && crate::tui::status_is(final(self).status_message, "Failed to open hive: "@ + e@),
                        Ok(()) => delete_mode_outcome(*old(self), *final(self), h, key),
                    },
                },
            },
    {
        if self.items.len() == 0 {
            return ;
        }
        let ghost before = *self;
        let s = self.selected;
        let (h, key_index): (String, bool) = match &self.items[s] {
            NavItem::Hive { info, .. } => (to_owned_string(info.dir_name.as_str()), false),
            NavItem::Nest { hive_dir_name, nest, .. } => {
                if crate::tui::id_listed(&self.deleting_nest_ids, nest.id.as_str()) {
                    self.status_message = Some(to_owned_string("That nest is already being deleted"));
                    return ;
                }
                (to_owned_string(hive_dir_name.as_str()), true)
            },
            NavItem::Comb { hive_dir_name, comb } => {
                if comb.cloning {
                    self.status_message = Some(to_owned_string("Cannot delete a comb that is still in progress"));
                    return ;
                }
                if crate::tui::id_listed(&self.deleting_comb_ids, comb.id.as_str()) {
                    self.status_message = Some(to_owned_string("That comb is already being deleted"));
                    return ;
                }
                (to_owned_string(hive_dir_name.as_str()), true)
            },
        };
        let key_item: Option<NavItem> = if key_index {
            Some(clone_item(&self.items[s]))
        } else {
            None
        };
        let hi = match self.find_hive_index(h.as_str()) {
            Some(i) => i,
            None => {
                proof {
                    lemma_first_hive(before.items@, h@, before.items@.len() as int);
                }
                self.status_message = Some(to_owned_string("Hive not found"));
                return ;
            },
        };
        proof {
            lemma_first_hive(before.items@, h@, before.items@.len() as int);
            match first_hive(before.items@, h@, before.items@.len() as int) {
                Some(j) => {
                    if j < hi {
                    } else if j > hi {
                    }
                },
                None => {},
            }
        }
        match self.expand_hive_at(hi, hive_state) {
            Err(e) => {
                let mut m = String::new();
                m.append("Failed to open hive: ");
                m.append(e.as_str());
                self.status_message = Some(m);
                return ;
            },
            Ok(()) => {},
        }
        let mut initial: Option<usize> = None;
        match &key_item {
            Some(k) => match App::find_item_index(&self.items, k) {
                Some(i) => {
                    proof {
                        lemma_find_key(self.items@, key_of(*k), self.items@.len() as int);
                    }
                    if self.is_deletable_at(i, h.as_str()) {
                        initial = Some(i);
                    }
                },
                None => {},
            },
            None => {},
        }
        if initial.is_none() {
            initial = self.first_deletable_item_index_in_hive(h.as_str());
        }
        match initial {
            None => {
                self.status_message = Some(to_owned_string("No combs or nests available to delete in this hive"));
            },
            Some(i) => {
                self.selected = i;
                self.enter_sidebar_mode(
                    AppMode::DeleteCombSelection {
                        hive_dir_name: h,
                        selected_comb_ids: Vec::new(),
                        selected_nest_ids: Vec::new(),
                    },
                );
            },
        }
    }

    fn is_deletable_at(&self, i: usize, h: &str) -> (r: bool)
        requires
            i < self.items@.len(),
        ensures
            r == self.deletable(self.items@[i as int], h@),
    {
        self.is_deletable_item_in_hive(&self.items[i], h)
    }
}

/// Two items show the same thing (lists compared by content).
pub open spec fn item_same(a: NavItem, b: NavItem) -> bool {
    match (a, b) {
        (NavItem::Hive { info: i1, expanded: e1, comb_count: c1 }, NavItem::Hive { info: i2, expanded: e2, comb_count: c2 }) => i1.same(
            i2,
        ) && e1 == e2 && c1 == c2,
        (
            NavItem::Nest { hive_dir_name: h1, nest: n1, expanded: e1, comb_count: c1 },
            NavItem::Nest { hive_dir_name: h2, nest: n2, expanded: e2, comb_count: c2 },
        ) => h1 == h2 && n1 == n2 && e1 == e2 && c1 == c2,
        (NavItem::Comb { hive_dir_name: h1, comb: c1 }, NavItem::Comb { hive_dir_name: h2, comb: c2 }) => h1 == h2
            && c1.same(c2),
        _ => false,
    }
}

/// A copy of an item.
fn clone_item(it: &NavItem) -> (r: NavItem)
    ensures
        item_same(r, *it),
        key_of(r) == key_of(*it),
{
    match it {
        NavItem::Hive { info, expanded, comb_count } => NavItem::Hive {
            info: info.clone(),
            expanded: *expanded,
            comb_count: *comb_count,
        },
        NavItem::Nest { hive_dir_name, nest, expanded, comb_count } => NavItem::Nest {
            hive_dir_name: hive_dir_name.clone(),
            nest: nest.clone(),
            expanded: *expanded,
            comb_count: *comb_count,
        },
        NavItem::Comb { hive_dir_name, comb } => NavItem::Comb { hive_dir_name: hive_dir_name.clone(), comb: comb.clone() },
    }
}

/// A copy of the items.
fn clone_items(items: &Vec<NavItem>) -> (r: Vec<NavItem>)
    ensures
        r@.len() == items@.len(),
        forall|i: int| 0 <= i < items@.len() ==> #[trigger] item_same(r@[i], items@[i]),
{
    let mut r: Vec<NavItem> = Vec::new();
    let mut i: usize = 0;
    while i < items.len()
        invariant
            i <= items.len(),
            r@.len() == i,
            forall|j: int| 0 <= j < i ==> #[trigger] item_same(r@[j], items@[j]),
        decreases items.len() - i,
    {
        r.push(clone_item(&items[i]));
        i = i + 1;
    }
    r
}

/// The ids of the comb items of hive `h` among the first `n` items, in order.
pub open spec fn visible_ids(items: Seq<NavItem>, h: Seq<char>, n: int) -> Seq<Seq<char>>
    decreases n,
{
    if n <= 0 || n > items.len() {
        Seq::empty()
    } else {
        let rest = visible_ids(items, h, n - 1);
        match items[n - 1] {
            NavItem::Comb { hive_dir_name, comb } => if hive_dir_name@ == h {
                rest.push(comb.id@)
            } else {
                rest
            },
            _ => rest,
        }
    }
}

/// The saved order of the first `n` combs of a hive's state after a move:
/// a comb shown in the sidebar takes the next shown id (from position `k`
/// of `shown`), a comb not shown keeps its place; once the shown ids run
/// out, shown combs are dropped.
pub open spec fn merged_order(state: Seq<Comb>, shown: Seq<Seq<char>>, n: int) -> (Seq<Seq<char>>, int)
    decreases n,
{
    if n <= 0 || n > state.len() {
        (Seq::empty(), 0)
    } else {
        let (out, k) = merged_order(state, shown, n - 1);
        let c = state[n - 1];
        if shown.contains(c.id@) {
            if k < shown.len() {
                (out.push(shown[k]), k + 1)
            } else {
                (out, k)
            }
        } else {
            (out.push(c.id@), k)
        }
    }
}

/// `after` is `before` after starting to move the selected comb (or saying why not).
pub open spec fn move_started(before: App, after: App) -> bool {
    &&& before.items@.len() == 0 ==> after == before
    &&& before.items@.len() > 0 ==> match before.items@[before.selected as int] {
                    NavItem::Comb { hive_dir_name, comb } => if comb.cloning {
                        crate::tui::told(before, after, "Cannot move a comb in progress"@)
                    } else {
                        crate::tui::opened(before, after) && match after.mode {
                            AppMode::MovingComb { hive_dir_name: h, moving_comb_id, original_items, original_selected } => {
                                &&& h@ == hive_dir_name@
                                &&& moving_comb_id@ == comb.id@
                                &&& original_selected == before.selected
                                &&& original_items@.len() == before.items@.len()
                                &&& forall|i: int|
                                    0 <= i < before.items@.len() ==> #[trigger] item_same(
                                        original_items@[i],
                                        before.items@[i],
                                    )
                            },
                            _ => false,
                        }
                    },
                    _ => crate::tui::told(before, after, "Select a comb to move"@),
                }
}

impl App {
    /// Starts moving the selected comb, keeping a copy of the items and the
    /// selection to restore on cancel; refused for a comb still being created
    /// or for another item.
    pub fn start_move_comb(&mut self)
        requires
            old(self).wf(),
        ensures
            move_started(*old(self), *final(self)),
    {
        if self.items.len() == 0 {
            return ;
        }
        let (h, id) = match &self.items[self.selected] {
            NavItem::Comb { hive_dir_name, comb } => {
                if comb.cloning {
                    self.status_message = Some(to_owned_string("Cannot move a comb in progress"));
                    return ;
                }
                (hive_dir_name.clone(), comb.id.clone())
            },
            _ => {
                self.status_message = Some(to_owned_string("Select a comb to move"));
                return ;
            },
        };
        let original_items = clone_items(&self.items);
        let original_selected = self.selected;
        self.enter_sidebar_mode(
            AppMode::MovingComb { hive_dir_name: h, moving_comb_id: id, original_items, original_selected },
        );
    }

    /// The ids of the combs of hive `hive_dir_name` in the order to save:
    /// the sidebar's order for the combs it shows, merged into the order of
    /// the hive's state (`state_combs`; when it could not be read, the
    /// sidebar's order alone).
    pub fn comb_order_for_hive(&self, hive_dir_name: &str, state_combs: Option<Vec<Comb>>) -> (r: Vec<String>)
        ensures
            ({
                let shown = visible_ids(self.items@, hive_dir_name@, self.items@.len() as int);
                r@.map_values(|s: String| s@) == match state_combs {
                    None => shown,
                    Some(cs) => merged_order(cs@, shown, cs@.len() as int).0,
                }
            }),
    {
        let mut shown: Vec<String> = Vec::new();
        let mut i: usize = 0;
        while i < self.items.len()
            invariant
                i <= self.items@.len(),
                shown@.map_values(|s: String| s@) == visible_ids(self.items@, hive_dir_name@, i as int),
            decreases self.items.len() - i,
        {
            match &self.items[i] {
                NavItem::Comb { hive_dir_name: h, comb } => {
                    if str_eq(h.as_str(), hive_dir_name) {
                        shown.push(comb.id.clone());
                    }
                },
                _ => {},
            }
            assert(shown@.map_values(|s: String| s@) =~= visible_ids(self.items@, hive_dir_name@, i + 1));
            i = i + 1;
        }
        let ghost sv = shown@.map_values(|s: String| s@);
        let cs = match state_combs {
            None => return shown,
            Some(cs) => cs,
        };
        let mut out: Vec<String> = Vec::new();
        let mut k: usize = 0;
        let mut j: usize = 0;
        while j < cs.len()
            invariant
                j <= cs@.len(),
                sv == shown@.map_values(|s: String| s@),
                (out@.map_values(|s: String| s@), k as int) == merged_order(cs@, sv, j as int),
                k <= shown@.len(),
            decreases cs.len() - j,
        {
            let c = &cs[j];
            let seen = crate::tui::id_listed(&shown, c.id.as_str());
            proof {
                if seen {
                    let w = choose|w: int| 0 <= w < shown@.len() && #[trigger] shown@[w]@ == c.id@;
                    assert(sv[w] == c.id@);
                    assert(sv.contains(c.id@));
                } else {
                    assert(!sv.contains(c.id@)) by {
                        if sv.contains(c.id@) {
                            let w = choose|w: int| 0 <= w < sv.len() && sv[w] == c.id@;
                            assert(shown@[w]@ == c.id@);
                        }
                    }
                }
            }
            if seen {
                if k < shown.len() {
                    out.push(shown[k].clone());
                    k = k + 1;
                }
            } else {
                out.push(c.id.clone());
            }
            assert((out@.map_values(|s: String| s@), k as int) =~~= merged_order(cs@, sv, j + 1));
            j = j + 1;
        }
        out
    }

    /// The ids of the combs of hive `hive_dir_name` whose terminals are to be
    /// closed; when the shown terminal is one of them, none is shown and the
    /// sidebar gets the focus.
    pub fn remove_hive_terminals(&mut self, hive_dir_name: &str) -> (r: Vec<String>)
        ensures
            r@.map_values(|s: String| s@) == visible_ids(old(self).items@, hive_dir_name@, old(self).items@.len() as int),
            hive_terminal_shown(old(self).active_comb_id, r@) ==> *final(self) == (App { active_comb_id: None, focus: Focus::Sidebar, ..*old(self) }),
            !hive_terminal_shown(old(self).active_comb_id, r@) ==> *final(self) == *old(self),
    {
        let ids = self.comb_order_for_hive(hive_dir_name, None);
        let hit = match &self.active_comb_id {
            Some(a) => crate::tui::id_listed(&ids, a.as_str()),
            None => false,
        };
        let ghost act = self.active_comb_id;
        proof {
            let v = ids@.map_values(|s: String| s@);
            match act {
                Some(a) => {
                    if hit {
                        let w = choose|w: int| 0 <= w < ids@.len() && #[trigger] ids@[w]@ == a@;
                        assert(v[w] == a@);
                    } else {
                        assert(!v.contains(a@)) by {
                            if v.contains(a@) {
                                let w = choose|w: int| 0 <= w < v.len() && v[w] == a@;
                                assert(ids@[w]@ == a@);
                            }
                        }
                    }
                },
                None => {},
            }
        }
        if hit {
            self.active_comb_id = None;
            self.focus = Focus::Sidebar;
        }
        ids
    }
}

/// The activity line for the background work running: nothing when none
/// runs, its description when one runs, else how many run. `activities`
/// lists the clones and copies first, then the deletes.
pub fn activity_summary(activities: &Vec<String>) -> (r: Option<String>)
    ensures
        activities@.len() == 0 ==> r is None,
        activities@.len() == 1 ==> r == Some(activities@[0]),
        activities@.len() > 1 ==> (r matches Some(m) && m@ == crate::text::dec_chars(activities@.len()) + " operations running"@),
{
    if activities.len() == 0 {
        return None;
    }
    if activities.len() == 1 {
        return Some(activities[0].clone());
    }
    let mut m = crate::text::usize_text(activities.len());
    m.append(" operations running");
    Some(m)
}

/// Whether the item is the item of nest `id` in hive `h`.
pub open spec fn is_nest_item(it: NavItem, h: Seq<char>, id: Seq<char>) -> bool {
    it matches NavItem::Nest { hive_dir_name, nest, .. } && hive_dir_name@ == h && nest.id@ == id
}

/// The position of the first item of nest `id` in hive `h` among the first `n`.
pub open spec fn first_nest(items: Seq<NavItem>, h: Seq<char>, id: Seq<char>, n: int) -> Option<int>
    decreases n,
{
    if n <= 0 || n > items.len() {
        None
    } else {
        match first_nest(items, h, id, n - 1) {
            Some(i) => Some(i),
            None => if is_nest_item(items[n - 1], h, id) {
                Some(n - 1)
            } else {
                None
            },
        }
    }
}

proof fn lemma_first_nest(items: Seq<NavItem>, h: Seq<char>, id: Seq<char>, n: int)
    requires
        0 <= n <= items.len(),
    ensures
        match first_nest(items, h, id, n) {
            Some(i) => 0 <= i < n && is_nest_item(items[i], h, id) && forall|j: int|
                0 <= j < i ==> !is_nest_item(#[trigger] items[j], h, id),
            None => forall|j: int| 0 <= j < n ==> !is_nest_item(#[trigger] items[j], h, id),
        },
    decreases n,
{
    if n > 0 {
        lemma_first_nest(items, h, id, n - 1);
    }
}

/// The position of the first comb with id `id` among the first `n`.
pub open spec fn first_comb_at(combs: Seq<Comb>, id: Seq<char>, n: int) -> Option<int>
    decreases n,
{
    if n <= 0 || n > combs.len() {
        None
    } else {
        match first_comb_at(combs, id, n - 1) {
            Some(i) => Some(i),
            None => if combs[n - 1].id@ == id {
                Some(n - 1)
            } else {
                None
            },
        }
    }
}

/// The nest of the comb with id `id` in a hive's state, if it was read, the
/// comb is in it and it is in a nest.
pub open spec fn state_nest(state: Result<(Vec<Nest>, Vec<Comb>), String>, id: Seq<char>) -> Option<String> {
    match state {
        Ok((_, combs)) => match first_comb_at(combs@, id, combs@.len() as int) {
            Some(i) => combs@[i].nest_id,
            None => None,
        },
        Err(_) => None,
    }
}

/// Whether some item is the comb with id `id`.
pub open spec fn shows_comb(items: Seq<NavItem>, id: Seq<char>) -> bool {
    exists|i: int| 0 <= i < items.len() && #[trigger] crate::tui::is_comb_id(items[i], id)
}

/// `out` and `r` are what expanding the nest at `j` of `it` gives, with the
/// hive's combs (or why they could not be read) in `state`.
pub open spec fn nest_expand_rel(
    it: Seq<NavItem>,
    j: int,
    state: Result<Vec<Comb>, String>,
    out: Seq<NavItem>,
    r: Result<(), String>,
) -> bool {
    match it[j] {
        NavItem::Nest { hive_dir_name, nest, expanded, .. } => if expanded {
            r is Ok && out == it
        } else {
            let upd = it.update(j, opened_item(it[j]));
            match state {
                Err(e) => r == Err::<(), String>(e) && out == upd,
                Ok(combs) => r is Ok && spliced(
                    upd,
                    j,
                    out,
                    hive_dir_name@,
                    nest_prefix(combs@, nest.id@, combs@.len() as int).map_values(|c: Comb| Child::Comb { comb: c }),
                ),
            }
        },
        _ => r is Ok && out == it,
    }
}

/// The items `out` and result `r` of revealing comb `id` of hive `h` in the
/// items `it0`: already shown, it is kept; else the hive is expanded (with
/// `state`) and, when the comb is still not shown, its nest (with
/// `nest_state`); the result says whether the comb is shown at the end.
pub open spec fn revealed(
    it0: Seq<NavItem>,
    h: Seq<char>,
    id: Seq<char>,
    state: Result<(Vec<Nest>, Vec<Comb>), String>,
    nest_state: Result<Vec<Comb>, String>,
    out: Seq<NavItem>,
    r: Result<bool, String>,
) -> bool {
    if shows_comb(it0, id) {
        out == it0 && r == Ok::<bool, String>(true)
    } else {
        match first_hive(it0, h, it0.len() as int) {
            None => out == it0 && r == Ok::<bool, String>(false),
            Some(i) => exists|it1: Seq<NavItem>, rh: Result<(), String>|
                #[trigger] expand_rel(it0, i, state, it1, rh) && match rh {
                    Err(e) => out == it1 && r == Err::<bool, String>(e),
                    Ok(_) => if shows_comb(it1, id) {
                        out == it1 && r == Ok::<bool, String>(true)
                    } else {
                        match state_nest(state, id) {
                            Some(nid) => match first_nest(it1, h, nid@, it1.len() as int) {
                                Some(j) => exists|it2: Seq<NavItem>, rn: Result<(), String>|
                                    #[trigger] nest_expand_rel(it1, j, nest_state, it2, rn) && out == it2 && r == match rn {
                                        Err(e) => Err::<bool, String>(e),
                                        Ok(_) => Ok::<bool, String>(shows_comb(it2, id)),
                                    },
                                None => out == it1 && r == Ok::<bool, String>(false),
                            },
                            None => out == it1 && r == Ok::<bool, String>(false),
                        }
                    },
                },
        }
    }
}

/// `after` and `r` are what bringing comb `id` of hive `h` into view does
/// from `before` (see `App::reveal_comb`): only the items and the selection
/// change; when the comb is shown, the selection is on its first item.
pub open spec fn reveal_done(
    before: App,
    after: App,
    h: Seq<char>,
    id: Seq<char>,
    state: Result<(Vec<Nest>, Vec<Comb>), String>,
    nest_state: Result<Vec<Comb>, String>,
    r: Result<bool, String>,
) -> bool {
    &&& after == (App { items: after.items, selected: after.selected, ..before })
    &&& revealed(before.items@, h, id, state, nest_state, after.items@, r)
    &&& r == Ok::<bool, String>(true) ==> crate::tui::is_comb_id(after.items@[after.selected as int], id)
        && after.selected < after.items@.len() && forall|j: int|
        0 <= j < after.selected ==> !crate::tui::is_comb_id(#[trigger] after.items@[j], id)
    &&& r != Ok::<bool, String>(true) ==> after.selected == before.selected
}

impl App {
    /// The position of the item of nest `nest_id` in hive `hive_dir_name`.
    fn find_nest_index(&self, hive_dir_name: &str, nest_id: &str) -> (r: Option<usize>)
        ensures
            match r {
                Some(j) => first_nest(self.items@, hive_dir_name@, nest_id@, self.items@.len() as int) == Some(j as int),
                None => first_nest(self.items@, hive_dir_name@, nest_id@, self.items@.len() as int) is None,
            },
    {
        proof {
            lemma_first_nest(self.items@, hive_dir_name@, nest_id@, self.items@.len() as int);
        }
        let mut i: usize = 0;
        while i < self.items.len()
            invariant
                i <= self.items@.len(),
                forall|j: int| 0 <= j < i ==> !is_nest_item(#[trigger] self.items@[j], hive_dir_name@, nest_id@),
                match first_nest(self.items@, hive_dir_name@, nest_id@, self.items@.len() as int) {
                    Some(j) => 0 <= j < self.items@.len() && is_nest_item(self.items@[j], hive_dir_name@, nest_id@)
                        && forall|q: int| 0 <= q < j ==> !is_nest_item(#[trigger] self.items@[q], hive_dir_name@, nest_id@),
                    None => forall|q: int|
                        0 <= q < self.items@.len() ==> !is_nest_item(#[trigger] self.items@[q], hive_dir_name@, nest_id@),
                },
            decreases self.items.len() - i,
        {
            let hit = match &self.items[i] {
                NavItem::Nest { hive_dir_name: h, nest, .. } => str_eq(h.as_str(), hive_dir_name) && str_eq(
                    nest.id.as_str(),
                    nest_id,
                ),
                _ => false,
            };
            if hit {
                assert(is_nest_item(self.items@[i as int], hive_dir_name@, nest_id@));
                return Some(i);
            }
            i = i + 1;
        }
        None
    }

    /// Expands the nest at `nest_index`, if it is a collapsed nest: it is
    /// marked expanded, then its combs are inserted below it, taken from
    /// `state`, the hive's combs as read from disk (or why they could not be
    /// read: the error is returned and no rows are inserted).
    fn expand_nest_at(&mut self, nest_index: usize, state: Result<Vec<Comb>, String>) -> (r: Result<(), String>)
        requires
            nest_index < old(self).items@.len(),
        ensures
            *final(self) == (App { items: final(self).items, ..*old(self) }),
            nest_expand_rel(old(self).items@, nest_index as int, state, final(self).items@, r),
    {
        let (dir, id) = match &self.items[nest_index] {
            NavItem::Nest { hive_dir_name, nest, expanded, .. } => {
                if *expanded {
                    return Ok(());
                }
                (to_owned_string(hive_dir_name.as_str()), nest.id.clone())
            },
            _ => return Ok(()),
        };
        let ghost it = self.items@;
        match &mut self.items[nest_index] {
            NavItem::Nest { expanded, .. } => {
                *expanded = true;
            },
            _ => {},
        }
        assert(self.items@ =~= it.update(nest_index as int, opened_item(it[nest_index as int])));
        match state {
            Err(e) => Err(e),
            Ok(combs) => {
                let ghost upd = self.items@;
                let children = nest_comb_items(dir.as_str(), &id, combs);
                let ghost cv = children@;
                insert_after(&mut self.items, nest_index, children);
                proof {
                    let fin = self.items@;
                    let k = fin.len() - (it.len() - nest_index - 1);
                    assert(fin.subrange(0, nest_index + 1) =~= upd.subrange(0, nest_index + 1));
                    assert(fin.subrange(nest_index + 1, k) =~= cv);
                    assert(fin.subrange(k, fin.len() as int) =~= upd.subrange(nest_index + 1, upd.len() as int));
                }
                Ok(())
            },
        }
    }

    /// Brings comb `comb_id` of hive `hive_dir_name` into view and selects
    /// it: when it is not shown, its hive is expanded with `state` (the
    /// hive's nests and combs as read from disk) and then, when it is in a
    /// nest, that nest with `nest_state` (the hive's combs read again).
    /// Returns whether the comb is selected; an error when a read that was
    /// needed failed.
    pub fn reveal_comb(
        &mut self,
        hive_dir_name: &str,
        comb_id: &str,
        state: Result<(Vec<Nest>, Vec<Comb>), String>,
        nest_state: Result<Vec<Comb>, String>,
    ) -> (r: Result<bool, String>)
        ensures
            reveal_done(*old(self), *final(self), hive_dir_name@, comb_id@, state, nest_state, r),
    {
        let ghost it0 = self.items@;
        let ghost st = state;
        if self.select_comb_by_id(comb_id) {
            return Ok(true);
        }
        let nest_id: Option<String> = match &state {
            Ok((_, combs)) => nest_of_comb(combs, comb_id),
            Err(_) => None,
        };
        assert(nest_id == state_nest(st, comb_id@));
        proof {
            lemma_first_hive(it0, hive_dir_name@, it0.len() as int);
        }
        let hive_index = match self.find_hive_index(hive_dir_name) {
            Some(i) => i,
            None => {
                return Ok(false);
            },
        };
        assert(first_hive(it0, hive_dir_name@, it0.len() as int) == Some(hive_index as int));
        let rh = self.expand_hive_at(hive_index, state);
        let ghost it1 = self.items@;
        let ghost rhv = rh;
        assert(expand_rel(it0, hive_index as int, st, it1, rhv));
        match rh {
            Err(e) => {
                return Err(e);
            },
            Ok(()) => {},
        }
        if self.select_comb_by_id(comb_id) {
            return Ok(true);
        }
        match nest_id {
            Some(nid) => {
                match self.find_nest_index(hive_dir_name, nid.as_str()) {
                    Some(j) => {
                        proof {
                            lemma_first_nest(it1, hive_dir_name@, nid@, it1.len() as int);
                        }
                        let rn = self.expand_nest_at(j, nest_state);
                        let ghost it2 = self.items@;
                        assert(nest_expand_rel(it1, j as int, nest_state, it2, rn));
                        let ghost nsv = nest_state;
                        match rn {
                            Err(e) => {
                                proof {
                                    let out = self.items@;
                                    let rr = Err::<bool, String>(e);
                                    assert(nest_expand_rel(it1, j as int, nsv, it2, rn) && out == it2 && rr == match rn {
                                        Err(e) => Err::<bool, String>(e),
                                        Ok(_) => Ok::<bool, String>(shows_comb(it2, comb_id@)),
                                    });
                                    assert(revealed(it0, hive_dir_name@, comb_id@, st, nsv, out, rr));
                                }
                                return Err(e);
                            },
                            Ok(()) => {},
                        }
                        let b = self.select_comb_by_id(comb_id);
                        proof {
                            let out = self.items@;
                            let rr = Ok::<bool, String>(b);
                            assert(out == it2);
                            assert(nest_expand_rel(it1, j as int, nsv, it2, rn) && out == it2 && rr == match rn {
                                Err(e) => Err::<bool, String>(e),
                                Ok(_) => Ok::<bool, String>(shows_comb(it2, comb_id@)),
                            });
                            assert(revealed(it0, hive_dir_name@, comb_id@, st, nsv, out, rr));
                        }
                        Ok(b)
                    },
                    None => Ok(false),
                }
            },
            None => Ok(false),
        }
    }
}

/// The nest of the first comb with id `comb_id`, if any.
fn nest_of_comb(combs: &Vec<Comb>, comb_id: &str) -> (r: Option<String>)
    ensures
        r == match first_comb_at(combs@, comb_id@, combs@.len() as int) {
            Some(i) => combs@[i].nest_id,
            None => None,
        },
{
    let mut k: usize = 0;
    while k < combs.len()
        invariant
            k <= combs@.len(),
            first_comb_at(combs@, comb_id@, k as int) is None,
        decreases combs.len() - k,
    {
        if str_eq(combs[k].id.as_str(), comb_id) {
            assert(first_comb_at(combs@, comb_id@, k + 1) == Some(k as int));
            proof {
                lemma_first_comb_stable(combs@, comb_id@, k + 1, combs@.len() as int);
            }
            return crate::model::clone_opt_string(&combs[k].nest_id);
        }
        k = k + 1;
    }
    None
}

proof fn lemma_first_comb_stable(combs: Seq<Comb>, id: Seq<char>, n: int, m: int)
    requires
        0 <= n <= m <= combs.len(),
        first_comb_at(combs, id, n) is Some,
    ensures
        first_comb_at(combs, id, m) == first_comb_at(combs, id, n),
    decreases m - n,
{
    if m > n {
        lemma_first_comb_stable(combs, id, n, m - 1);
    }
}

/// Whether the shown terminal belongs to one of the comb ids `ids`.
pub open spec fn hive_terminal_shown(active: Option<String>, ids: Seq<String>) -> bool {
    match active {
        Some(a) => ids.map_values(|s: String| s@).contains(a@),
        None => false,
    }
}

proof fn lemma_find_key_stable(items: Seq<NavItem>, k: ItemKey, n: int, m: int)
    requires
        0 <= n <= m <= items.len(),
        find_key(items, k, n) is Some,
    ensures
        find_key(items, k, m) == find_key(items, k, n),
    decreases m - n,
{
    if m > n {
        lemma_find_key_stable(items, k, n, m - 1);
    }
}

proof fn lemma_prev_expanded_stable(items: Seq<NavItem>, h: Seq<char>, id: Seq<char>, n: int, m: int)
    requires
        0 <= n <= m <= items.len(),
        prev_expanded(items, h, id, n) is Some,
    ensures
        prev_expanded(items, h, id, m) == prev_expanded(items, h, id, n),
    decreases m - n,
{
    if m > n {
        lemma_prev_expanded_stable(items, h, id, n, m - 1);
    }
}

} // verus!
