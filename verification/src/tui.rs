//! The terminal UI's sidebar state: the items, the selection, the mode and
//! the focus, and the operations that move through them, reorder combs and
//! mark items for deletion.

use vstd::prelude::*;

use crate::model::{clone_opt_string, Comb};
use crate::state::{AppMode, DeleteTarget, Focus, NavItem};
use crate::text::{str_eq, to_owned_string};

verus! {

/// The UI state that the sidebar's operations read and change (the embedded
/// terminals and the background work are kept by the caller).
pub struct App {
    pub beehive_dir: String,
    pub items: Vec<NavItem>,
    pub selected: usize,
    pub mode: AppMode,
    pub should_quit: bool,
    pub status_message: Option<String>,
    pub active_comb_id: Option<String>,
    pub focus: Focus,
    pub last_term_size: (u16, u16),
    pub update_available: Option<String>,
    pub sidebar_width: u16,
    pub comb_startup_command: Option<String>,
    /// Combs being deleted in the background.
    pub deleting_comb_ids: Vec<String>,
    /// Nests being deleted in the background.
    pub deleting_nest_ids: Vec<String>,
    /// Hives being deleted in the background.
    pub deleting_hive_dir_names: Vec<String>,
    /// Combs whose startup command already ran.
    pub startup_applied_comb_ids: Vec<String>,
    pub keyboard_enhanced: bool,
    /// A refresh was deferred (for instance while a comb was being moved).
    pub needs_refresh: bool,
}

/// The hive directory an item belongs to.
pub open spec fn item_hive(it: NavItem) -> Seq<char> {
    match it {
        NavItem::Hive { info, .. } => info.dir_name@,
        NavItem::Nest { hive_dir_name, .. } => hive_dir_name@,
        NavItem::Comb { hive_dir_name, .. } => hive_dir_name@,
    }
}

/// Whether the item is a comb of hive `h`.
pub open spec fn comb_in(it: NavItem, h: Seq<char>) -> bool {
    it matches NavItem::Comb { hive_dir_name, .. } && hive_dir_name@ == h
}

/// Whether the item is a nest of hive `h`.
pub open spec fn nest_in(it: NavItem, h: Seq<char>) -> bool {
    it matches NavItem::Nest { hive_dir_name, .. } && hive_dir_name@ == h
}

/// The item with its comb moved to nest `n` (other items unchanged).
pub open spec fn with_nest(it: NavItem, n: Option<String>) -> NavItem {
    match it {
        NavItem::Comb { hive_dir_name, comb } => NavItem::Comb {
            hive_dir_name,
            comb: Comb { nest_id: n, ..comb },
        },
        _ => it,
    }
}

/// The nest of a comb item (`None` for other items).
pub open spec fn nest_of(it: NavItem) -> Option<String> {
    match it {
        NavItem::Comb { comb, .. } => comb.nest_id,
        _ => None,
    }
}

/// The nest a comb moved up from position `s` lands in: the nest of the comb
/// it passes, or, when it passes a nest header, the nest of the comb above
/// that header (none at the top).
pub open spec fn nest_above(it: Seq<NavItem>, s: int) -> Option<String> {
    let h = item_hive(it[s]);
    if comb_in(it[s - 1], h) {
        nest_of(it[s - 1])
    } else if s - 1 > 0 && comb_in(it[s - 2], h) {
        nest_of(it[s - 2])
    } else {
        None
    }
}

/// The nest a comb moved down from position `s` lands in: the nest of the
/// comb it passes, or the nest whose header it passes.
pub open spec fn nest_below(it: Seq<NavItem>, s: int) -> Option<String> {
    match it[s + 1] {
        NavItem::Nest { nest, .. } => Some(nest.id),
        _ => nest_of(it[s + 1]),
    }
}

/// Whether the comb at `s` can move up: the item above is a comb or a nest
/// of its hive.
pub open spec fn can_move_up(it: Seq<NavItem>, s: int) -> bool {
    0 < s < it.len() && it[s] is Comb && (comb_in(it[s - 1], item_hive(it[s])) || nest_in(it[s - 1], item_hive(it[s])))
}

/// Whether the comb at `s` can move down: the item below is a comb or a nest
/// of its hive.
pub open spec fn can_move_down(it: Seq<NavItem>, s: int) -> bool {
    0 <= s && s + 1 < it.len() && it[s] is Comb && (comb_in(it[s + 1], item_hive(it[s])) || nest_in(
        it[s + 1],
        item_hive(it[s]),
    ))
}

/// `after` is `before` with the selected comb moved up one place (taking the
/// nest it lands in), or unchanged when it cannot move.
pub open spec fn moved_up(before: App, after: App) -> bool {
    let it = before.items@;
    let s = before.selected as int;
    &&& after == (App { items: after.items, selected: after.selected, ..before })
    &&& if can_move_up(it, s) {
        &&& after.selected == s - 1
        &&& after.items@ == it.update(s - 1, with_nest(it[s], nest_above(it, s))).update(s, it[s - 1])
    } else {
        after.items@ == it && after.selected == s
    }
}

/// `after` is `before` with the selected comb moved down one place (taking
/// the nest it lands in), or unchanged when it cannot move.
pub open spec fn moved_down(before: App, after: App) -> bool {
    let it = before.items@;
    let s = before.selected as int;
    &&& after == (App { items: after.items, selected: after.selected, ..before })
    &&& if can_move_down(it, s) {
        &&& after.selected == s + 1
        &&& after.items@ == it.update(s + 1, with_nest(it[s], nest_below(it, s))).update(s, it[s + 1])
    } else {
        after.items@ == it && after.selected == s
    }
}

/// `after` is `before` with the selection moved, in delete mode, onto an
/// item that can be marked when one can be reached stepping in the given
/// direction (wrapping); outside delete mode nothing moves.
pub open spec fn delete_moved(before: App, after: App, forward: bool) -> bool {
    &&& after == (App { selected: after.selected, ..before })
    &&& match before.delete_hive() {
        Some(h) => before.items@.len() > 0 && (exists|step: int|
            1 <= step <= before.items@.len() && before.deletable(
                before.items@[step_index(before.items@.len() as int, before.selected as int, step, forward)],
                h,
            )) ==> before.deletable(before.items@[after.selected as int], h),
        None => after.selected == before.selected,
    }
}

/// Whether `v` holds the id `id`.
pub open spec fn ids_contain(v: Seq<String>, id: Seq<char>) -> bool {
    exists|i: int| 0 <= i < v.len() && #[trigger] v[i]@ == id
}

/// Whether an id is in a list.
pub fn id_listed(v: &Vec<String>, id: &str) -> (r: bool)
    ensures
        r == ids_contain(v@, id@),
{
    let mut i: usize = 0;
    while i < v.len()
        invariant
            i <= v.len(),
            forall|j: int| 0 <= j < i ==> #[trigger] v@[j]@ != id@,
        decreases v.len() - i,
    {
        if str_eq(v[i].as_str(), id) {
            return true;
        }
        i = i + 1;
    }
    false
}

fn set_item_nest(it: &mut NavItem, n: Option<String>)
    ensures
        *final(it) == with_nest(*old(it), n),
{
    match it {
        NavItem::Comb { comb, .. } => {
            comb.nest_id = n;
        },
        _ => {},
    }
}

/// `after` is `before` with the selection moved up one item (it stays at the top).
pub open spec fn up_moved(before: App, after: App) -> bool {
    &&& after == (App {
                    selected: if before.selected > 0 {
                        (before.selected - 1) as usize
                    } else {
                        before.selected
                    },
                    ..before
                })
}

/// `after` is `before` with the selection moved down one item (it stays at the bottom).
pub open spec fn down_moved(before: App, after: App) -> bool {
    &&& after == (App {
                    selected: if before.selected + 1 < before.items@.len() {
                        (before.selected + 1) as usize
                    } else {
                        before.selected
                    },
                    ..before
                })
}

impl App {
    /// The selection is on an item, or at 0 when there are none (and the
    /// item list is far below the address space).
    pub open spec fn wf(&self) -> bool {
        &&& self.items@.len() < usize::MAX / 2
        &&& if self.items@.len() == 0 {
            self.selected == 0
        } else {
            self.selected < self.items@.len()
        }
    }

    /// Opens a mode over the sidebar, giving the sidebar the focus.
    pub fn enter_sidebar_mode(&mut self, mode: AppMode)
        ensures
            *final(self) == (App { focus: Focus::Sidebar, mode, ..*old(self) }),
    {
        self.focus = Focus::Sidebar;
        self.mode = mode;
    }

    /// Moves the selection up one item.
    pub fn move_up(&mut self)
        ensures
            up_moved(*old(self), *final(self)),
    {
        if self.selected > 0 {
            self.selected = self.selected - 1;
        }
    }

    /// Moves the selection down one item, stopping at the last.
    pub fn move_down(&mut self)
        ensures
            down_moved(*old(self), *final(self)),
    {
        if self.selected < self.items.len() && self.selected + 1 < self.items.len() {
            self.selected = self.selected + 1;
        }
    }

    /// Selects the first comb with id `comb_id`; returns whether there is one.
    pub fn select_comb_by_id(&mut self, comb_id: &str) -> (r: bool)
        ensures
            r == exists|i: int|
                0 <= i < old(self).items@.len() && #[trigger] is_comb_id(old(self).items@[i], comb_id@),
            r ==> is_comb_id(old(self).items@[final(self).selected as int], comb_id@) && forall|j: int|
                0 <= j < final(self).selected ==> !is_comb_id(#[trigger] old(self).items@[j], comb_id@),
            r ==> *final(self) == (App { selected: final(self).selected, ..*old(self) }),
            !r ==> *final(self) == *old(self),
            final(self).selected < old(self).items@.len() || final(self).selected == old(self).selected,
    {
        let mut i: usize = 0;
        while i < self.items.len()
            invariant
                *self == *old(self),
                i <= self.items@.len(),
                forall|j: int| 0 <= j < i ==> !is_comb_id(#[trigger] self.items@[j], comb_id@),
            decreases self.items.len() - i,
        {
            let hit = match &self.items[i] {
                NavItem::Comb { comb, .. } => str_eq(comb.id.as_str(), comb_id),
                _ => false,
            };
            if hit {
                assert(is_comb_id(self.items@[i as int], comb_id@));
                self.selected = i;
                return true;
            }
            i = i + 1;
        }
        false
    }

    /// Moves the selected comb up within its hive: past a comb of the hive it
    /// takes that comb's nest; past a nest header it takes the nest of the
    /// comb above the header, or none. Returns whether it moved.
    pub fn move_comb_up(&mut self) -> (r: bool)
        ensures
            r == can_move_up(old(self).items@, old(self).selected as int),
            moved_up(*old(self), *final(self)),
    {
        let s = self.selected;
        if s == 0 || s >= self.items.len() {
            return false;
        }
        let prev = s - 1;
        let h: String = match &self.items[s] {
            NavItem::Comb { hive_dir_name, .. } => hive_dir_name.clone(),
            _ => return false,
        };
        let ghost it = self.items@;
        let dest: Option<String> = match &self.items[prev] {
            NavItem::Comb { hive_dir_name, comb } => {
                if !str_eq(hive_dir_name.as_str(), h.as_str()) {
                    return false;
                }
                clone_opt_string(&comb.nest_id)
            },
            NavItem::Nest { hive_dir_name, .. } => {
                if !str_eq(hive_dir_name.as_str(), h.as_str()) {
                    return false;
                }
                if prev > 0 {
                    match &self.items[prev - 1] {
                        NavItem::Comb { hive_dir_name, comb } => {
                            if str_eq(hive_dir_name.as_str(), h.as_str()) {
                                clone_opt_string(&comb.nest_id)
                            } else {
                                None
                            }
                        },
                        _ => None,
                    }
                } else {
                    None
                }
            },
            NavItem::Hive { .. } => return false,
        };
        assert(dest == nest_above(it, s as int));
        let mut moved = self.items.remove(s);
        set_item_nest(&mut moved, dest);
        self.items.insert(prev, moved);
        self.selected = prev;
        assert(self.items@ =~= it.update(s - 1, with_nest(it[s as int], nest_above(it, s as int))).update(
            s as int,
            it[s - 1],
        ));
        true
    }

    /// Moves the selected comb down within its hive: past a comb of the hive
    /// it takes that comb's nest; past a nest header it joins that nest.
    /// Returns whether it moved.
    pub fn move_comb_down(&mut self) -> (r: bool)
        ensures
            r == can_move_down(old(self).items@, old(self).selected as int),
            moved_down(*old(self), *final(self)),
    {
        let s = self.selected;
        if s >= self.items.len() || s + 1 >= self.items.len() {
            return false;
        }
        let next = s + 1;
        let h: String = match &self.items[s] {
            NavItem::Comb { hive_dir_name, .. } => hive_dir_name.clone(),
            _ => return false,
        };
        let ghost it = self.items@;
        let dest: Option<String> = match &self.items[next] {
            NavItem::Comb { hive_dir_name, comb } => {
                if !str_eq(hive_dir_name.as_str(), h.as_str()) {
                    return false;
                }
                clone_opt_string(&comb.nest_id)
            },
            NavItem::Nest { hive_dir_name, nest, .. } => {
                if !str_eq(hive_dir_name.as_str(), h.as_str()) {
                    return false;
                }
                Some(nest.id.clone())
            },
            NavItem::Hive { .. } => return false,
        };
        let mut moved = self.items.remove(s);
        set_item_nest(&mut moved, dest);
        self.items.insert(next, moved);
        self.selected = next;
        assert(self.items@ =~= it.update(s + 1, with_nest(it[s as int], nest_below(it, s as int))).update(
            s as int,
            it[s + 1],
        ));
        true
    }
}

/// Whether a comb can move past the item `other` next to it: `item` is a
/// comb, and `other` is a comb or a nest header of the same hive.
pub open spec fn passes(item: NavItem, other: NavItem) -> bool {
    match item {
        NavItem::Comb { hive_dir_name: h, .. } => match other {
            NavItem::Comb { hive_dir_name: h2, .. } => h2@ == h@,
            NavItem::Nest { hive_dir_name: h2, .. } => h2@ == h@,
            NavItem::Hive { .. } => false,
        },
        _ => false,
    }
}

/// Moving a comb up swaps it with the item above and leaves every other item
/// alone. Past a comb of its hive it joins that comb's nest; past a nest
/// header of its hive it leaves that nest for the nest of the comb of its
/// hive directly above the header, or no nest when there is none (a hive
/// header or another hive's item is above).
pub proof fn lemma_move_up_nest(before: App, after: App)
    requires
        moved_up(before, after),
        0 < before.selected < before.items@.len(),
        passes(before.items@[before.selected as int], before.items@[before.selected - 1]),
    ensures
        ({
            let it = before.items@;
            let s = before.selected as int;
            &&& after.selected == s - 1
            &&& after.items@.len() == it.len()
            &&& after.items@[s] == it[s - 1]
            &&& forall|k: int| 0 <= k < it.len() && k != s && k != s - 1 ==> #[trigger] after.items@[k] == it[k]
            &&& it[s] matches NavItem::Comb { hive_dir_name: h, comb: c } && {
                let dest: Option<String> = match it[s - 1] {
                    NavItem::Comb { comb: above, .. } => above.nest_id,
                    _ => if s >= 2 {
                        match it[s - 2] {
                            NavItem::Comb { hive_dir_name: h2, comb: c2 } => if h2@ == h@ {
                                c2.nest_id
                            } else {
                                None
                            },
                            _ => None,
                        }
                    } else {
                        None
                    },
                };
                after.items@[s - 1] == NavItem::Comb { hive_dir_name: h, comb: Comb { nest_id: dest, ..c } }
            }
        }),
{
}

/// Moving a comb down swaps it with the item below and leaves every other
/// item alone. Past a comb of its hive it joins that comb's nest; past a
/// nest header it joins that nest.
pub proof fn lemma_move_down_nest(before: App, after: App)
    requires
        moved_down(before, after),
        before.selected + 1 < before.items@.len(),
        passes(before.items@[before.selected as int], before.items@[before.selected + 1]),
    ensures
        ({
            let it = before.items@;
            let s = before.selected as int;
            &&& after.selected == s + 1
            &&& after.items@.len() == it.len()
            &&& after.items@[s] == it[s + 1]
            &&& forall|k: int| 0 <= k < it.len() && k != s && k != s + 1 ==> #[trigger] after.items@[k] == it[k]
            &&& it[s] matches NavItem::Comb { hive_dir_name: h, comb: c } && {
                let dest: Option<String> = match it[s + 1] {
                    NavItem::Comb { comb: below, .. } => below.nest_id,
                    NavItem::Nest { nest, .. } => Some(nest.id),
                    _ => None,
                };
                after.items@[s + 1] == NavItem::Comb { hive_dir_name: h, comb: Comb { nest_id: dest, ..c } }
            }
        }),
{
}

/// A comb does not move up past a hive header or another hive's item, and
/// only a comb moves: otherwise the items and the selection stay.
pub proof fn lemma_move_up_blocked(before: App, after: App)
    requires
        moved_up(before, after),
        !(0 < before.selected < before.items@.len() && passes(
            before.items@[before.selected as int],
            before.items@[before.selected - 1],
        )),
    ensures
        after.items@ == before.items@,
        after.selected == before.selected,
{
}

/// A comb does not move down past a hive header or another hive's item, and
/// only a comb moves: otherwise the items and the selection stay.
pub proof fn lemma_move_down_blocked(before: App, after: App)
    requires
        moved_down(before, after),
        !(before.selected + 1 < before.items@.len() && passes(
            before.items@[before.selected as int],
            before.items@[before.selected + 1],
        )),
    ensures
        after.items@ == before.items@,
        after.selected == before.selected,
{
}

/// The contents of a delete target: its kind (0 comb, 1 nest, 2 hive), its
/// hive, its id and its name.
pub open spec fn target_view(t: DeleteTarget) -> (int, Seq<char>, Seq<char>, Seq<char>) {
    match t {
        DeleteTarget::Comb { hive_dir_name, comb_id, comb_name } => (0, hive_dir_name@, comb_id@, comb_name@),
        DeleteTarget::Nest { hive_dir_name, nest_id, nest_name } => (1, hive_dir_name@, nest_id@, nest_name@),
        DeleteTarget::Hive { dir_name, repo_name } => (2, dir_name@, dir_name@, repo_name@),
    }
}

/// The targets the marked ids select among the first `n` items, in item
/// order: marked combs and nests of hive `h`.
pub open spec fn marked_targets(
    items: Seq<NavItem>,
    n: int,
    h: Seq<char>,
    cids: Seq<String>,
    nids: Seq<String>,
) -> Seq<(int, Seq<char>, Seq<char>, Seq<char>)>
    decreases n,
{
    if n <= 0 || n > items.len() {
        Seq::empty()
    } else {
        let rest = marked_targets(items, n - 1, h, cids, nids);
        match items[n - 1] {
            NavItem::Comb { hive_dir_name, comb } => if hive_dir_name@ == h && ids_contain(cids, comb.id@) {
                rest.push((0, hive_dir_name@, comb.id@, comb.name@))
            } else {
                rest
            },
            NavItem::Nest { hive_dir_name, nest, .. } => if hive_dir_name@ == h && ids_contain(
                nids,
                nest.id@,
            ) {
                rest.push((1, hive_dir_name@, nest.id@, nest.name@))
            } else {
                rest
            },
            NavItem::Hive { .. } => rest,
        }
    }
}

/// Whether the delete selection of hive `h` (comb ids `cids`, nest ids
/// `nids`) marks the item.
pub open spec fn marks_item(it: NavItem, h: Seq<char>, cids: Seq<String>, nids: Seq<String>) -> bool {
    match it {
        NavItem::Comb { hive_dir_name, comb } => hive_dir_name@ == h && ids_contain(cids, comb.id@),
        NavItem::Nest { hive_dir_name, nest, .. } => hive_dir_name@ == h && ids_contain(nids, nest.id@),
        NavItem::Hive { .. } => false,
    }
}

/// The delete target an item stands for: a comb or a nest, with its hive,
/// id and name.
pub open spec fn item_target(it: NavItem) -> (int, Seq<char>, Seq<char>, Seq<char>) {
    match it {
        NavItem::Comb { hive_dir_name, comb } => (0, hive_dir_name@, comb.id@, comb.name@),
        NavItem::Nest { hive_dir_name, nest, .. } => (1, hive_dir_name@, nest.id@, nest.name@),
        NavItem::Hive { info, .. } => (2, info.dir_name@, info.dir_name@, info.repo_name@),
    }
}

/// The marked targets are the marked items, kept in item order, each as the
/// target it stands for; everything else is dropped.
pub proof fn lemma_marked_targets_are_marked_items(
    items: Seq<NavItem>,
    h: Seq<char>,
    cids: Seq<String>,
    nids: Seq<String>,
)
    ensures
        marked_targets(items, items.len() as int, h, cids, nids) == items.filter(
            |it: NavItem| marks_item(it, h, cids, nids),
        ).map_values(|it: NavItem| item_target(it)),
{
    lemma_marked_targets_prefix(items, items.len() as int, h, cids, nids);
    assert(items.take(items.len() as int) =~= items);
}

proof fn lemma_marked_targets_prefix(
    items: Seq<NavItem>,
    n: int,
    h: Seq<char>,
    cids: Seq<String>,
    nids: Seq<String>,
)
    requires
        0 <= n <= items.len(),
    ensures
        marked_targets(items, n, h, cids, nids) == items.take(n).filter(
            |it: NavItem| marks_item(it, h, cids, nids),
        ).map_values(|it: NavItem| item_target(it)),
    decreases n,
{
    let p = |it: NavItem| marks_item(it, h, cids, nids);
    let f = |it: NavItem| item_target(it);
    reveal(Seq::filter);
    if n == 0 {
        assert(items.take(0).filter(p) =~= Seq::<NavItem>::empty());
        assert(items.take(0).filter(p).map_values(f) =~= Seq::empty());
    } else {
        lemma_marked_targets_prefix(items, n - 1, h, cids, nids);
        assert(items.take(n).drop_last() =~= items.take(n - 1));
        assert(items.take(n).last() == items[n - 1]);
        let before = items.take(n - 1).filter(p);
        if p(items[n - 1]) {
            assert(items.take(n).filter(p) == before.push(items[n - 1]));
            assert(before.push(items[n - 1]).map_values(f) =~= before.map_values(f).push(f(items[n - 1])));
        } else {
            assert(items.take(n).filter(p) == before);
        }
    }
}

/// `v` with `id` taken out if present, else added.
pub open spec fn toggled(v: Seq<String>, id: String) -> Seq<String> {
    if ids_contain(v, id@) {
        v.filter(|x: String| x@ != id@)
    } else {
        v.push(id)
    }
}

/// Toggles `id` in a list of marked ids.
fn toggle_id(v: &mut Vec<String>, id: String)
    ensures
        final(v)@ == toggled(old(v)@, id),
{
    if !id_listed(v, id.as_str()) {
        v.push(id);
        return ;
    }
    let ghost orig = v@;
    let ghost keep = |x: String| x@ != id@;
    let mut rest: Vec<String> = Vec::new();
    std::mem::swap(v, &mut rest);
    let mut kept: Vec<String> = Vec::new();
    let ghost mut n: int = 0;
    assert(orig.subrange(0, orig.len() as int) =~= orig);
    while rest.len() > 0
        invariant
            0 <= n <= orig.len(),
            n + rest@.len() == orig.len(),
            rest@ == orig.subrange(n, orig.len() as int),
            kept@ == orig.take(n).filter(|x: String| x@ != id@),
        decreases rest.len(),
    {
        let x = rest.remove(0);
        assert(x == orig[n]);
        let same = str_eq(x.as_str(), id.as_str());
        proof {
            reveal(Seq::filter);
            assert(orig.take(n + 1).drop_last() =~= orig.take(n));
            assert(orig.take(n + 1).last() == orig[n]);
        }
        if !same {
            kept.push(x);
        }
        assert(rest@ =~= orig.subrange(n + 1, orig.len() as int));
        proof {
            n = n + 1;
        }
    }
    assert(orig.take(orig.len() as int) =~= orig);
    std::mem::swap(v, &mut kept);
}

/// Whether the status line shows `msg`.
pub open spec fn status_is(o: Option<String>, msg: Seq<char>) -> bool {
    match o {
        Some(m) => m@ == msg,
        None => false,
    }
}

/// The mode is unchanged and the status line shows `msg`.
pub open spec fn refused(before: App, after: App, msg: Seq<char>) -> bool {
    after.mode == before.mode && status_is(after.status_message, msg)
}

/// The delete selection after toggling comb `id` (when `comb`) or nest `id`.
pub open spec fn toggled_mode(before: AppMode, after: AppMode, id: String, comb: bool) -> bool {
    match (before, after) {
        (
            AppMode::DeleteCombSelection { hive_dir_name: h, selected_comb_ids: c, selected_nest_ids: n },
            AppMode::DeleteCombSelection { hive_dir_name: h2, selected_comb_ids: c2, selected_nest_ids: n2 },
        ) => h2 == h && if comb {
            n2 == n && c2@ == toggled(c@, id)
        } else {
            c2 == c && n2@ == toggled(n@, id)
        },
        _ => false,
    }
}

/// The views of the ids in a list, as a set.
pub open spec fn id_set(v: Seq<String>) -> Set<Seq<char>> {
    Set::new(|x: Seq<char>| ids_contain(v, x))
}

/// Toggling an id twice leaves the same ids listed.
proof fn lemma_toggled_twice(v: Seq<String>, id: String)
    ensures
        id_set(toggled(toggled(v, id), id)) == id_set(v),
{
    broadcast use vstd::seq_lib::group_filter_ensures;

    let pred = |x: String| x@ != id@;
    if ids_contain(v, id@) {
        let t1 = v.filter(pred);
        assert(!ids_contain(t1, id@)) by {
            if ids_contain(t1, id@) {
                let i = choose|i: int| 0 <= i < t1.len() && #[trigger] t1[i]@ == id@;
                assert(pred(t1[i]));
            }
        }
        let t2 = t1.push(id);
        assert(toggled(toggled(v, id), id) == t2);
        assert forall|x: Seq<char>| #[trigger] ids_contain(t2, x) == ids_contain(v, x) by {
            if x == id@ {
                assert(t2[t1.len() as int]@ == id@);
            } else {
                if ids_contain(v, x) {
                    let i = choose|i: int| 0 <= i < v.len() && #[trigger] v[i]@ == x;
                    assert(pred(v[i]));
                    assert(t1.contains(v[i]));
                    let j = choose|j: int| 0 <= j < t1.len() && t1[j] == v[i];
                    assert(t2[j]@ == x);
                }
                if ids_contain(t2, x) {
                    let j = choose|j: int| 0 <= j < t2.len() && #[trigger] t2[j]@ == x;
                    assert(j < t1.len());
                    assert(t1.contains(t1[j]));
                    v.lemma_filter_contains_rev(pred, t1[j]);
                    let i = choose|i: int| 0 <= i < v.len() && v[i] == t1[j];
                    assert(v[i]@ == x);
                }
            }
        }
        assert(id_set(t2) =~= id_set(v));
    } else {
        let t1 = v.push(id);
        assert(t1[v.len() as int]@ == id@);
        assert(ids_contain(t1, id@));
        let t2 = t1.filter(pred);
        assert(toggled(toggled(v, id), id) == t2);
        assert forall|x: Seq<char>| #[trigger] ids_contain(t2, x) == ids_contain(v, x) by {
            if ids_contain(v, x) {
                let i = choose|i: int| 0 <= i < v.len() && #[trigger] v[i]@ == x;
                assert(x != id@);
                assert(t1[i] == v[i]);
                assert(pred(t1[i]));
                assert(t2.contains(t1[i]));
                let j = choose|j: int| 0 <= j < t2.len() && t2[j] == t1[i];
                assert(t2[j]@ == x);
            }
            if ids_contain(t2, x) {
                let j = choose|j: int| 0 <= j < t2.len() && #[trigger] t2[j]@ == x;
                assert(pred(t2[j]));
                assert(t2.contains(t2[j]));
                t1.lemma_filter_contains_rev(pred, t2[j]);
                let i = choose|i: int| 0 <= i < t1.len() && t1[i] == t2[j];
                assert(i < v.len());
                assert(v[i]@ == x);
            }
        }
        assert(id_set(t2) =~= id_set(v));
    }
}

/// Marking is a toggle: marking the same item twice in delete mode (the
/// first mark changing nothing but the marks and the status line) leaves the
/// same combs and nests marked as before.
pub proof fn lemma_mark_twice_restores(a: App, b: App, c: App)
    requires
        toggle_outcome(a, b),
        b == (App { mode: b.mode, status_message: b.status_message, ..a }),
        toggle_outcome(b, c),
    ensures
        match (a.mode, c.mode) {
            (
                AppMode::DeleteCombSelection { hive_dir_name: h, selected_comb_ids: c1, selected_nest_ids: n1 },
                AppMode::DeleteCombSelection { hive_dir_name: h2, selected_comb_ids: c2, selected_nest_ids: n2 },
            ) => h2 == h && id_set(c2@) == id_set(c1@) && id_set(n2@) == id_set(n1@),
            _ => c.mode == a.mode,
        },
{
    let s = a.selected as int;
    match a.mode {
        AppMode::DeleteCombSelection { hive_dir_name, selected_comb_ids, selected_nest_ids } => {
            if 0 <= s < a.items@.len() {
                match a.items@[s] {
                    NavItem::Comb { hive_dir_name: ih, comb } => {
                        if ih@ != hive_dir_name@ || comb.cloning {
                        } else {
                            lemma_toggled_twice(selected_comb_ids@, comb.id);
                        }
                    },
                    NavItem::Nest { hive_dir_name: ih, nest, .. } => {
                        if ih@ != hive_dir_name@ || ids_contain(a.deleting_nest_ids@, nest.id@) {
                        } else {
                            lemma_toggled_twice(selected_nest_ids@, nest.id);
                        }
                    },
                    NavItem::Hive { .. } => {},
                }
            }
        },
        _ => {},
    }
}

/// What toggling the selected item's mark does.
pub open spec fn toggle_outcome(before: App, after: App) -> bool {
    let s = before.selected as int;
    match before.mode {
        AppMode::DeleteCombSelection { hive_dir_name, .. } => if 0 <= s < before.items@.len() {
            match before.items@[s] {
                NavItem::Comb { hive_dir_name: ih, comb } => if ih@ != hive_dir_name@ {
                    refused(before, after, "Delete mode only works within one hive at a time"@)
                } else if comb.cloning {
                    refused(before, after, "Cannot delete a comb that is still in progress"@)
                } else {
                    after.status_message == before.status_message && toggled_mode(
                        before.mode,
                        after.mode,
                        comb.id,
                        true,
                    )
                },
                NavItem::Nest { hive_dir_name: ih, nest, .. } => if ih@ != hive_dir_name@ {
                    refused(before, after, "Delete mode only works within one hive at a time"@)
                } else if ids_contain(before.deleting_nest_ids@, nest.id@) {
                    refused(before, after, "That nest is already being deleted"@)
                } else {
                    after.status_message == before.status_message && toggled_mode(
                        before.mode,
                        after.mode,
                        nest.id,
                        false,
                    )
                },
                NavItem::Hive { .. } => refused(before, after, "Select a comb or nest to mark it for delete"@),
            }
        } else {
            refused(before, after, "Select a comb or nest to mark it for delete"@)
        },
        _ => after.mode == before.mode && after.status_message == before.status_message,
    }
}

/// The position reached `step` items away from `from` in a list of `len`
/// items, wrapping around, forward or backward.
pub open spec fn step_index(len: int, from: int, step: int, forward: bool) -> int {
    if forward {
        (from + step) % len
    } else {
        (from + len - (step % len)) % len
    }
}

impl App {
    /// Whether an item can be marked for deletion in hive `h`: a comb that is
    /// ready and not being deleted, or a nest not being deleted.
    pub open spec fn deletable(&self, it: NavItem, h: Seq<char>) -> bool {
        match it {
            NavItem::Comb { hive_dir_name, comb } => hive_dir_name@ == h && !comb.cloning && !ids_contain(
                self.deleting_comb_ids@,
                comb.id@,
            ),
            NavItem::Nest { hive_dir_name, nest, .. } => hive_dir_name@ == h && !ids_contain(
                self.deleting_nest_ids@,
                nest.id@,
            ),
            NavItem::Hive { .. } => false,
        }
    }

    pub(crate) fn is_deletable_item_in_hive(&self, item: &NavItem, hive_dir_name: &str) -> (r: bool)
        ensures
            r == self.deletable(*item, hive_dir_name@),
    {
        match item {
            NavItem::Comb { hive_dir_name: h, comb } => str_eq(h.as_str(), hive_dir_name) && !comb.cloning
                && !id_listed(&self.deleting_comb_ids, comb.id.as_str()),
            NavItem::Nest { hive_dir_name: h, nest, .. } => str_eq(h.as_str(), hive_dir_name) && !id_listed(
                &self.deleting_nest_ids,
                nest.id.as_str(),
            ),
            NavItem::Hive { .. } => false,
        }
    }

    /// The first item that can be marked for deletion in hive `h`.
    pub fn first_deletable_item_index_in_hive(&self, hive_dir_name: &str) -> (r: Option<usize>)
        ensures
            match r {
                Some(i) => i < self.items@.len() && self.deletable(self.items@[i as int], hive_dir_name@)
                    && forall|j: int| 0 <= j < i ==> !self.deletable(#[trigger] self.items@[j], hive_dir_name@),
                None => forall|j: int|
                    0 <= j < self.items@.len() ==> !self.deletable(#[trigger] self.items@[j], hive_dir_name@),
            },
    {
        let mut i: usize = 0;
        while i < self.items.len()
            invariant
                i <= self.items@.len(),
                forall|j: int| 0 <= j < i ==> !self.deletable(#[trigger] self.items@[j], hive_dir_name@),
            decreases self.items.len() - i,
        {
            if self.is_deletable_item_in_hive(&self.items[i], hive_dir_name) {
                return Some(i);
            }
            i = i + 1;
        }
        None
    }

    /// The nearest item, `step` = 1, 2, ... items away from `from` (wrapping
    /// around), that can be marked for deletion in hive `h`.
    pub fn adjacent_deletable_item_index_in_hive(&self, hive_dir_name: &str, from: usize, forward: bool) -> (r:
        Option<usize>)
        requires
            from < self.items@.len() < usize::MAX / 2,
        ensures
            match r {
                Some(i) => exists|step: int|
                    1 <= step <= self.items@.len() && i == step_index(self.items@.len() as int, from as int, step, forward)
                        && self.deletable(self.items@[i as int], hive_dir_name@) && forall|t: int|
                        1 <= t < step ==> !self.deletable(
                            #[trigger] self.items@[step_index(self.items@.len() as int, from as int, t, forward)],
                            hive_dir_name@,
                        ),
                None => forall|t: int|
                    1 <= t <= self.items@.len() ==> !self.deletable(
                        #[trigger] self.items@[step_index(self.items@.len() as int, from as int, t, forward)],
                        hive_dir_name@,
                    ),
            },
    {
        let len = self.items.len();
        let mut step: usize = 1;
        while step <= len
            invariant
                len == self.items@.len(),
                from < len < usize::MAX / 2,
                1 <= step <= len + 1,
                forall|t: int|
                    1 <= t < step ==> !self.deletable(
                        #[trigger] self.items@[step_index(len as int, from as int, t, forward)],
                        hive_dir_name@,
                    ),
            decreases len + 1 - step,
        {
            let index = if forward {
                (from + step) % len
            } else {
                (from + len - (step % len)) % len
            };
            assert(index as int == step_index(len as int, from as int, step as int, forward));
            if self.is_deletable_item_in_hive(&self.items[index], hive_dir_name) {
                return Some(index);
            }
            step = step + 1;
        }
        None
    }

    /// The hive whose items are being marked for deletion, if any.
    pub open spec fn delete_hive(&self) -> Option<Seq<char>> {
        match self.mode {
            AppMode::DeleteCombSelection { hive_dir_name, .. } => Some(hive_dir_name@),
            _ => None,
        }
    }

    /// The hive whose items are being marked for deletion, if any.
    pub fn delete_mode_hive_dir_name(&self) -> (r: Option<&str>)
        ensures
            match r {
                Some(h) => self.delete_hive() == Some(h@),
                None => self.delete_hive() is None,
            },
    {
        match &self.mode {
            AppMode::DeleteCombSelection { hive_dir_name, .. } => Some(hive_dir_name.as_str()),
            _ => None,
        }
    }

    /// How many combs and nests are marked for deletion.
    pub fn delete_selection_count(&self) -> (r: usize)
        requires
            self.mode matches AppMode::DeleteCombSelection { selected_comb_ids, selected_nest_ids, .. }
                ==> selected_comb_ids@.len() + selected_nest_ids@.len() <= usize::MAX,
        ensures
            r == match self.mode {
                AppMode::DeleteCombSelection { selected_comb_ids, selected_nest_ids, .. } => selected_comb_ids@.len()
                    + selected_nest_ids@.len(),
                _ => 0,
            },
    {
        match &self.mode {
            AppMode::DeleteCombSelection { selected_comb_ids, selected_nest_ids, .. } => selected_comb_ids.len()
                + selected_nest_ids.len(),
            _ => 0,
        }
    }

    /// Whether comb `comb_id` is marked for deletion.
    pub fn is_marked_for_delete(&self, comb_id: &str) -> (r: bool)
        ensures
            r == (self.mode matches AppMode::DeleteCombSelection { selected_comb_ids, .. } && ids_contain(
                selected_comb_ids@,
                comb_id@,
            )),
    {
        match &self.mode {
            AppMode::DeleteCombSelection { selected_comb_ids, .. } => id_listed(selected_comb_ids, comb_id),
            _ => false,
        }
    }

    /// Whether nest `nest_id` is marked for deletion.
    pub fn is_nest_marked_for_delete(&self, nest_id: &str) -> (r: bool)
        ensures
            r == (self.mode matches AppMode::DeleteCombSelection { selected_nest_ids, .. } && ids_contain(
                selected_nest_ids@,
                nest_id@,
            )),
    {
        match &self.mode {
            AppMode::DeleteCombSelection { selected_nest_ids, .. } => id_listed(selected_nest_ids, nest_id),
            _ => false,
        }
    }

    /// Moves the selection to the previous item that can be marked, wrapping.
    pub fn move_delete_selection_up(&mut self)
        requires
            old(self).wf(),
        ensures
            final(self).wf(),
            delete_moved(*old(self), *final(self), false),
    {
        self.move_delete_selection(false);
    }

    /// Moves the selection to the next item that can be marked, wrapping.
    pub fn move_delete_selection_down(&mut self)
        requires
            old(self).wf(),
        ensures
            final(self).wf(),
            delete_moved(*old(self), *final(self), true),
    {
        self.move_delete_selection(true);
    }

    fn move_delete_selection(&mut self, forward: bool)
        requires
            old(self).wf(),
        ensures
            final(self).wf(),
            delete_moved(*old(self), *final(self), forward),
    {
        let h = match self.delete_mode_hive_dir_name() {
            Some(h) => to_owned_string(h),
            None => return ,
        };
        if self.items.len() == 0 {
            return ;
        }
        match self.adjacent_deletable_item_index_in_hive(h.as_str(), self.selected, forward) {
            Some(i) => {
                self.selected = i;
            },
            None => {},
        }
    }

    /// The marked combs and nests of the hive in delete mode, in item order.
    pub fn selected_delete_targets(&self) -> (r: Vec<DeleteTarget>)
        ensures
            match self.mode {
                AppMode::DeleteCombSelection { hive_dir_name, selected_comb_ids, selected_nest_ids } => r@.map_values(
                    |t: DeleteTarget| target_view(t),
                ) == marked_targets(
                    self.items@,
                    self.items@.len() as int,
                    hive_dir_name@,
                    selected_comb_ids@,
                    selected_nest_ids@,
                ),
                _ => r@.len() == 0,
            },
    {
        let mut r: Vec<DeleteTarget> = Vec::new();
        match &self.mode {
            AppMode::DeleteCombSelection { hive_dir_name, selected_comb_ids, selected_nest_ids } => {
                let mut i: usize = 0;
                while i < self.items.len()
                    invariant
                        i <= self.items@.len(),
                        r@.map_values(|t: DeleteTarget| target_view(t)) == marked_targets(
                            self.items@,
                            i as int,
                            hive_dir_name@,
                            selected_comb_ids@,
                            selected_nest_ids@,
                        ),
                    decreases self.items.len() - i,
                {
                    let ghost before = r@;
                    match &self.items[i] {
                        NavItem::Comb { hive_dir_name: h, comb } => {
                            if str_eq(h.as_str(), hive_dir_name.as_str()) && id_listed(
                                selected_comb_ids,
                                comb.id.as_str(),
                            ) {
                                r.push(
                                    DeleteTarget::Comb {
                                        hive_dir_name: h.clone(),
                                        comb_id: comb.id.clone(),
                                        comb_name: comb.name.clone(),
                                    },
                                );
                            }
                        },
                        NavItem::Nest { hive_dir_name: h, nest, .. } => {
                            if str_eq(h.as_str(), hive_dir_name.as_str()) && id_listed(
                                selected_nest_ids,
                                nest.id.as_str(),
                            ) {
                                r.push(
                                    DeleteTarget::Nest {
                                        hive_dir_name: h.clone(),
                                        nest_id: nest.id.clone(),
                                        nest_name: nest.name.clone(),
                                    },
                                );
                            }
                        },
                        NavItem::Hive { .. } => {},
                    }
                    assert(r@.map_values(|t: DeleteTarget| target_view(t)) =~= marked_targets(
                        self.items@,
                        i + 1,
                        hive_dir_name@,
                        selected_comb_ids@,
                        selected_nest_ids@,
                    ));
                    i = i + 1;
                }
            },
            _ => {},
        }
        r
    }

    /// Marks the selected comb or nest for deletion, or unmarks it. Refused,
    /// with a status message, for an item of another hive, a comb still
    /// being created, a nest already being deleted, or a hive.
    pub fn toggle_delete_selection(&mut self)
        requires
            old(self).wf(),
        ensures
            final(self).wf(),
            final(self).items == old(self).items,
            final(self).selected == old(self).selected,
            final(self).focus == old(self).focus,
            *final(self) == (App { mode: final(self).mode, status_message: final(self).status_message, ..*old(self) }),
            toggle_outcome(*old(self), *final(self)),
    {
        let h = match self.delete_mode_hive_dir_name() {
            Some(h) => to_owned_string(h),
            None => return ,
        };
        if self.selected >= self.items.len() {
            self.status_message = Some(to_owned_string("Select a comb or nest to mark it for delete"));
            return ;
        }
        let mut comb_id: Option<String> = None;
        let mut nest_id: Option<String> = None;
        match &self.items[self.selected] {
            NavItem::Comb { hive_dir_name: ih, comb } => {
                if !str_eq(ih.as_str(), h.as_str()) {
                    self.status_message = Some(to_owned_string("Delete mode only works within one hive at a time"));
                    return ;
                }
                if comb.cloning {
                    self.status_message = Some(to_owned_string("Cannot delete a comb that is still in progress"));
                    return ;
                }
                comb_id = Some(comb.id.clone());
            },
            NavItem::Nest { hive_dir_name: ih, nest, .. } => {
                if !str_eq(ih.as_str(), h.as_str()) {
                    self.status_message = Some(to_owned_string("Delete mode only works within one hive at a time"));
                    return ;
                }
                if id_listed(&self.deleting_nest_ids, nest.id.as_str()) {
                    self.status_message = Some(to_owned_string("That nest is already being deleted"));
                    return ;
                }
                nest_id = Some(nest.id.clone());
            },
            NavItem::Hive { .. } => {
                self.status_message = Some(to_owned_string("Select a comb or nest to mark it for delete"));
                return ;
            },
        }
        match &mut self.mode {
            AppMode::DeleteCombSelection { selected_comb_ids, selected_nest_ids, .. } => {
                match comb_id {
                    Some(id) => toggle_id(selected_comb_ids, id),
                    None => {},
                }
                match nest_id {
                    Some(id) => toggle_id(selected_nest_ids, id),
                    None => {},
                }
            },
            _ => {},
        }
    }
}

/// The mode is the text prompt with this prompt, an empty value and the
/// cursor at its start.
pub open spec fn empty_prompt(mode: AppMode, prompt: Seq<char>) -> bool {
    mode matches AppMode::Input { prompt: p, value, cursor, .. } && p@ == prompt && value@.len() == 0 && cursor == 0
}

/// The mode is the yes/no prompt with this message.
pub open spec fn confirm_prompt(mode: AppMode, message: Seq<char>) -> bool {
    mode matches AppMode::Confirm { message: m, .. } && m@ == message
}

/// The state after opening a mode over the sidebar.
pub open spec fn opened(before: App, after: App) -> bool {
    after == (App { focus: Focus::Sidebar, mode: after.mode, ..before })
}

/// The state after only the status line changed, to `msg`.
pub open spec fn told(before: App, after: App, msg: Seq<char>) -> bool {
    after == (App { status_message: after.status_message, ..before }) && status_is(after.status_message, msg)
}

/// `after` is `before` asking whether to quit.
pub open spec fn quit_asked(before: App, after: App) -> bool {
    &&& opened(before, after)
    &&& confirm_prompt(after.mode, "Quit Beehive?"@)
    &&& after.mode->Confirm_action is Quit
}

/// `after` is `before` with the help overlay open.
pub open spec fn help_opened(before: App, after: App) -> bool {
    &&& after == (App { focus: Focus::Sidebar, mode: AppMode::Help, ..before })
}

/// `after` is `before` after asking for a new comb's name (or saying why not).
pub open spec fn new_comb_started(before: App, after: App) -> bool {
    &&& match before.selected_hive() {
                    Some(d) => opened(before, after) && empty_prompt(after.mode, "Comb name"@)
                        && (after.mode->Input_action matches crate::state::InputAction::NewCombName { hive_dir_name }
                        && hive_dir_name@ == d),
                    None => told(before, after, "Add a hive first with 'a'"@),
                }
}

/// `after` is `before` asking for a repository to add.
pub open spec fn add_hive_started(before: App, after: App) -> bool {
    &&& opened(before, after)
    &&& empty_prompt(after.mode, "Repository (owner/repo or URL)"@)
    &&& after.mode->Input_action is AddHiveUrl
}

/// `after` is `before` after asking for the name of a copy of the selected comb (or saying why not).
pub open spec fn copy_started(before: App, after: App) -> bool {
    &&& before.items@.len() == 0 ==> after == before
    &&& before.items@.len() > 0 ==> match before.items@[before.selected as int] {
                    NavItem::Comb { hive_dir_name, comb } => if comb.cloning {
                        told(before, after, "Cannot copy a comb that is still in progress"@)
                    } else {
                        opened(before, after) && empty_prompt(
                            after.mode,
                            "Copy '"@ + comb.name@ + "' as"@,
                        ) && (after.mode->Input_action matches crate::state::InputAction::CopyCombName {
                            hive_dir_name: h,
                            source_comb_name: n,
                            source_comb_path: p,
                        } && h@ == hive_dir_name@ && n@ == comb.name@ && p@ == comb.path@)
                    },
                    _ => told(before, after, "Select a comb to copy"@),
                }
}

/// `after` is `before` after asking for the new name of the selected comb or nest (or saying why not).
pub open spec fn rename_started(before: App, after: App, has_pending_work: bool) -> bool {
    &&& has_pending_work ==> told(before, after, "Wait for current operation to finish"@)
    &&& !has_pending_work && before.items@.len() == 0 ==> after == before
    &&& !has_pending_work && before.items@.len() > 0 ==> match before.items@[before.selected as int] {
                    NavItem::Comb { hive_dir_name, comb } => if comb.cloning {
                        told(before, after, "Cannot rename a comb that is still in progress"@)
                    } else {
                        opened(before, after) && rename_prompt(
                            after.mode,
                            crate::state::RenameTarget::Comb {
                                hive_dir_name,
                                comb_id: comb.id,
                                current_name: comb.name,
                            },
                        )
                    },
                    NavItem::Nest { hive_dir_name, nest, .. } => opened(before, after) && rename_prompt(
                        after.mode,
                        crate::state::RenameTarget::Nest { hive_dir_name, nest_id: nest.id, current_name: nest.name },
                    ),
                    NavItem::Hive { .. } => told(before, after, "Select a comb or nest to rename"@),
                }
}

/// `after` is `before` after asking to delete the selected item (or saying why not).
pub open spec fn delete_asked(before: App, after: App) -> bool {
    &&& before.items@.len() == 0 ==> after == before
    &&& before.items@.len() > 0 ==> match before.items@[before.selected as int] {
                    NavItem::Comb { hive_dir_name, comb } => if comb.cloning {
                        told(before, after, "Cannot delete while in progress"@)
                    } else {
                        opened(before, after) && confirm_prompt(
                            after.mode,
                            "Delete comb '"@ + comb.name@ + "'?"@,
                        ) && (after.mode->Confirm_action matches crate::state::ConfirmAction::DeleteComb {
                            hive_dir_name: h,
                            comb_id: i,
                            comb_name: n,
                        } && h@ == hive_dir_name@ && i@ == comb.id@ && n@ == comb.name@)
                    },
                    NavItem::Hive { info, .. } => opened(before, after) && confirm_prompt(
                        after.mode,
                        "Delete hive '"@ + info.repo_name@ + "'?"@,
                    ) && (after.mode->Confirm_action matches crate::state::ConfirmAction::DeleteHive {
                        dir_name: d,
                        repo_name: n,
                    } && d@ == info.dir_name@ && n@ == info.repo_name@),
                    NavItem::Nest { hive_dir_name, nest, .. } => opened(before, after) && confirm_prompt(
                        after.mode,
                        "Delete nest '"@ + nest.name@ + "'?"@,
                    ) && (after.mode->Confirm_action matches crate::state::ConfirmAction::DeleteNest {
                        hive_dir_name: h,
                        nest_id: i,
                        nest_name: n,
                    } && h@ == hive_dir_name@ && i@ == nest.id@ && n@ == nest.name@),
                }
}

impl App {
    /// The hive of the selected item.
    pub open spec fn selected_hive(&self) -> Option<Seq<char>> {
        if 0 <= self.selected < self.items@.len() {
            Some(item_hive(self.items@[self.selected as int]))
        } else {
            None
        }
    }

    /// The hive of the selected item, if there are items.
    pub fn selected_hive_dir(&self) -> (r: Option<String>)
        requires
            self.wf(),
        ensures
            match r {
                Some(d) => self.selected_hive() == Some(d@),
                None => self.selected_hive() is None,
            },
    {
        if self.items.len() == 0 {
            return None;
        }
        match &self.items[self.selected] {
            NavItem::Hive { info, .. } => Some(info.dir_name.clone()),
            NavItem::Nest { hive_dir_name, .. } => Some(hive_dir_name.clone()),
            NavItem::Comb { hive_dir_name, .. } => Some(hive_dir_name.clone()),
        }
    }

    /// The nest of the first comb item with id `comb_id`.
    pub fn comb_nest_id(&self, comb_id: &str) -> (r: Option<String>)
        ensures
            match first_comb(self.items@, comb_id@, self.items@.len() as int) {
                Some(i) => r == nest_of(self.items@[i]),
                None => r is None,
            },
    {
        let mut i: usize = 0;
        while i < self.items.len()
            invariant
                i <= self.items@.len(),
                first_comb(self.items@, comb_id@, i as int) is None,
            decreases self.items.len() - i,
        {
            match &self.items[i] {
                NavItem::Comb { comb, .. } => {
                    if str_eq(comb.id.as_str(), comb_id) {
                        proof {
                            lemma_first_comb_stable(self.items@, comb_id@, i + 1, self.items@.len() as int);
                        }
                        return clone_opt_string(&comb.nest_id);
                    }
                },
                _ => {},
            }
            i = i + 1;
        }
        None
    }

    /// The name of the comb whose terminal is shown.
    pub fn active_comb_name(&self) -> (r: Option<String>)
        ensures
            match self.active_comb_id {
                Some(id) => match first_comb(self.items@, id@, self.items@.len() as int) {
                    Some(i) => r matches Some(n) && self.items@[i] matches NavItem::Comb { comb, .. } && n@
                        == comb.name@,
                    None => r is None,
                },
                None => r is None,
            },
    {
        let id = match &self.active_comb_id {
            Some(id) => id,
            None => return None,
        };
        let mut i: usize = 0;
        while i < self.items.len()
            invariant
                i <= self.items@.len(),
                self.active_comb_id == Some(*id),
                first_comb(self.items@, id@, i as int) is None,
            decreases self.items.len() - i,
        {
            match &self.items[i] {
                NavItem::Comb { comb, .. } => {
                    if str_eq(comb.id.as_str(), id.as_str()) {
                        proof {
                            lemma_first_comb_stable(self.items@, id@, i + 1, self.items@.len() as int);
                        }
                        return Some(comb.name.clone());
                    }
                },
                _ => {},
            }
            i = i + 1;
        }
        None
    }

    /// Opens the prompt for a new comb in the selected hive.
    pub fn start_new_comb(&mut self)
        requires
            old(self).wf(),
        ensures
            new_comb_started(*old(self), *final(self)),
    {
        match self.selected_hive_dir() {
            Some(d) => {
                self.enter_sidebar_mode(
                    AppMode::Input {
                        prompt: to_owned_string("Comb name"),
                        value: String::new(),
                        cursor: 0,
                        action: crate::state::InputAction::NewCombName { hive_dir_name: d },
                    },
                );
            },
            None => {
                self.status_message = Some(to_owned_string("Add a hive first with 'a'"));
            },
        }
    }

    /// Opens the prompt for a new nest in the selected hive.
    pub fn start_new_nest(&mut self)
        requires
            old(self).wf(),
        ensures
            match old(self).selected_hive() {
                Some(d) => opened(*old(self), *final(self)) && empty_prompt(final(self).mode, "Nest name"@)
                    && (final(self).mode->Input_action matches crate::state::InputAction::NewNestName { hive_dir_name }
                    && hive_dir_name@ == d),
                None => told(*old(self), *final(self), "Add a hive first with 'a'"@),
            },
    {
        match self.selected_hive_dir() {
            Some(d) => {
                self.enter_sidebar_mode(
                    AppMode::Input {
                        prompt: to_owned_string("Nest name"),
                        value: String::new(),
                        cursor: 0,
                        action: crate::state::InputAction::NewNestName { hive_dir_name: d },
                    },
                );
            },
            None => {
                self.status_message = Some(to_owned_string("Add a hive first with 'a'"));
            },
        }
    }

    /// Opens the prompt for a repository to add as a hive.
    pub fn start_add_hive(&mut self)
        ensures
            add_hive_started(*old(self), *final(self)),
    {
        self.enter_sidebar_mode(
            AppMode::Input {
                prompt: to_owned_string("Repository (owner/repo or URL)"),
                value: String::new(),
                cursor: 0,
                action: crate::state::InputAction::AddHiveUrl,
            },
        );
    }

    /// Asks whether to quit.
    pub fn start_quit(&mut self)
        ensures
            quit_asked(*old(self), *final(self)),
    {
        self.enter_sidebar_mode(
            AppMode::Confirm { message: to_owned_string("Quit Beehive?"), action: crate::state::ConfirmAction::Quit },
        );
    }

    /// Opens the help overlay.
    pub fn open_help(&mut self)
        ensures
            help_opened(*old(self), *final(self)),
    {
        self.enter_sidebar_mode(AppMode::Help);
    }

    /// Opens the settings overlay with the given tool report.
    pub fn open_settings(&mut self, preflight: crate::settings::PreflightResult)
        ensures
            *final(self) == (App { focus: Focus::Sidebar, mode: AppMode::Settings { preflight }, ..*old(self) }),
    {
        self.enter_sidebar_mode(AppMode::Settings { preflight });
    }

    /// Opens the prompt for the name of a copy of the selected comb; refused
    /// for a comb still being created or for another item.
    pub fn start_copy_comb(&mut self)
        requires
            old(self).wf(),
        ensures
            copy_started(*old(self), *final(self)),
    {
        if self.items.len() == 0 {
            return ;
        }
        let mut mode: Option<AppMode> = None;
        match &self.items[self.selected] {
            NavItem::Comb { hive_dir_name, comb } => {
                if comb.cloning {
                    self.status_message = Some(to_owned_string("Cannot copy a comb that is still in progress"));
                    return ;
                }
                let mut prompt = String::new();
                prompt.append("Copy '");
                prompt.append(comb.name.as_str());
                prompt.append("' as");
                mode = Some(
                    AppMode::Input {
                        prompt,
                        value: String::new(),
                        cursor: 0,
                        action: crate::state::InputAction::CopyCombName {
                            hive_dir_name: hive_dir_name.clone(),
                            source_comb_name: comb.name.clone(),
                            source_comb_path: comb.path.clone(),
                        },
                    },
                );
            },
            _ => {
                self.status_message = Some(to_owned_string("Select a comb to copy"));
                return ;
            },
        }
        match mode {
            Some(m) => self.enter_sidebar_mode(m),
            None => {},
        }
    }

    /// Opens the rename prompt for the selected comb or nest, with its name
    /// as the value and the cursor after it (the cursor is the name's length
    /// in bytes). Refused while background work runs, for a comb still being
    /// created, and for a hive.
    pub fn start_rename_comb(&mut self, has_pending_work: bool)
        requires
            old(self).wf(),
        ensures
            rename_started(*old(self), *final(self), has_pending_work),
    {
        if has_pending_work {
            self.status_message = Some(to_owned_string("Wait for current operation to finish"));
            return ;
        }
        if self.items.len() == 0 {
            return ;
        }
        let target = match &self.items[self.selected] {
            NavItem::Comb { hive_dir_name, comb } => {
                if comb.cloning {
                    self.status_message = Some(to_owned_string("Cannot rename a comb that is still in progress"));
                    return ;
                }
                crate::state::RenameTarget::Comb {
                    hive_dir_name: hive_dir_name.clone(),
                    comb_id: comb.id.clone(),
                    current_name: comb.name.clone(),
                }
            },
            NavItem::Nest { hive_dir_name, nest, .. } => crate::state::RenameTarget::Nest {
                hive_dir_name: hive_dir_name.clone(),
                nest_id: nest.id.clone(),
                current_name: nest.name.clone(),
            },
            NavItem::Hive { .. } => {
                self.status_message = Some(to_owned_string("Select a comb or nest to rename"));
                return ;
            },
        };
        let value = to_owned_string(target.current_name());
        let prompt = target.prompt();
        let cursor = value.as_str().len();
        self.enter_sidebar_mode(
            AppMode::Input { prompt, cursor, value, action: crate::state::InputAction::RenameSelected { target } },
        );
    }

    /// Asks whether to delete the selected comb, hive or nest; refused for a
    /// comb still being created.
    pub fn start_delete(&mut self)
        requires
            old(self).wf(),
        ensures
            delete_asked(*old(self), *final(self)),
    {
        if self.items.len() == 0 {
            return ;
        }
        let mode = match &self.items[self.selected] {
            NavItem::Comb { hive_dir_name, comb } => {
                if comb.cloning {
                    self.status_message = Some(to_owned_string("Cannot delete while in progress"));
                    return ;
                }
                let mut message = String::new();
                message.append("Delete comb '");
                message.append(comb.name.as_str());
                message.append("'?");
                AppMode::Confirm {
                    message,
                    action: crate::state::ConfirmAction::DeleteComb {
                        hive_dir_name: hive_dir_name.clone(),
                        comb_id: comb.id.clone(),
                        comb_name: comb.name.clone(),
                    },
                }
            },
            NavItem::Hive { info, .. } => {
                let mut message = String::new();
                message.append("Delete hive '");
                message.append(info.repo_name.as_str());
                message.append("'?");
                AppMode::Confirm {
                    message,
                    action: crate::state::ConfirmAction::DeleteHive {
                        dir_name: info.dir_name.clone(),
                        repo_name: info.repo_name.clone(),
                    },
                }
            },
            NavItem::Nest { hive_dir_name, nest, .. } => {
                let mut message = String::new();
                message.append("Delete nest '");
                message.append(nest.name.as_str());
                message.append("'?");
                AppMode::Confirm {
                    message,
                    action: crate::state::ConfirmAction::DeleteNest {
                        hive_dir_name: hive_dir_name.clone(),
                        nest_id: nest.id.clone(),
                        nest_name: nest.name.clone(),
                    },
                }
            },
        };
        self.enter_sidebar_mode(mode);
    }

    /// Forgets the terminal of comb `comb_id`: when it was the one shown, no
    /// terminal is shown and the sidebar gets the focus.
    pub fn remove_terminal(&mut self, comb_id: &str)
        ensures
            (old(self).active_comb_id matches Some(a) && a@ == comb_id@) ==> *final(self) == (App {
                active_comb_id: None,
                focus: Focus::Sidebar,
                ..*old(self)
            }),
            !(old(self).active_comb_id matches Some(a) && a@ == comb_id@) ==> *final(self) == *old(self),
    {
        let hit = match &self.active_comb_id {
            Some(a) => str_eq(a.as_str(), comb_id),
            None => false,
        };
        if hit {
            self.active_comb_id = None;
            self.focus = Focus::Sidebar;
        }
    }

    /// Whether the background refresh should wait: while deletes run, a comb
    /// is being moved, or items are being marked for deletion.
    pub fn should_pause_refresh(&self, deletes_running: bool) -> (r: bool)
        ensures
            r == (deletes_running || self.mode is MovingComb || self.mode is DeleteCombSelection),
    {
        deletes_running || match &self.mode {
            AppMode::MovingComb { .. } | AppMode::DeleteCombSelection { .. } => true,
            _ => false,
        }
    }

    /// Records the terminal area just drawn (`size` is width, height): the
    /// size the active pane is to be resized to, when it changed and is not
    /// empty; else nothing, and the recorded size stays.
    pub fn take_new_term_size(&mut self, size: (u16, u16)) -> (r: Option<(u16, u16)>)
        ensures
            ({
                let changed = size != old(self).last_term_size && size.0 > 0 && size.1 > 0;
                &&& r == (if changed { Some(size) } else { None::<(u16, u16)> })
                &&& final(self).last_term_size == (if changed { size } else { old(self).last_term_size })
                &&& *final(self) == (App { last_term_size: final(self).last_term_size, ..*old(self) })
            }),
    {
        if (size.0 != self.last_term_size.0 || size.1 != self.last_term_size.1) && size.0 > 0 && size.1 > 0 {
            self.last_term_size = size;
            Some(size)
        } else {
            None
        }
    }
}

/// How many ticks of the event loop (of about 16 ms each) pass between two
/// background refreshes.
pub const REFRESH_EVERY_TICKS: u32 = 312;

/// Whether the event loop starts a background refresh at tick `tick`: every
/// `REFRESH_EVERY_TICKS` ticks, when none is running and refreshes are not
/// paused.
pub fn refresh_due(tick: u32, refresh_running: bool, paused: bool) -> (r: bool)
    ensures
        r == (tick % REFRESH_EVERY_TICKS == 0 && !refresh_running && !paused),
{
    tick % REFRESH_EVERY_TICKS == 0 && !refresh_running && !paused
}

/// What the rename prompt shows for a target: its prompt, its current name
/// as the value, the cursor at the name's length in bytes.
pub open spec fn rename_prompt(mode: AppMode, target: crate::state::RenameTarget) -> bool {
    match mode {
        AppMode::Input { prompt, value, cursor, action } => {
            &&& prompt@ == target.prompt_text()
            &&& value@ == target.spec_current_name()
            &&& cursor == crate::fuzzy::utf8_len(value@)
            &&& action matches crate::state::InputAction::RenameSelected { target: t }
            &&& same_target(t, target)
        },
        _ => false,
    }
}

/// Two rename targets name the same thing.
pub open spec fn same_target(a: crate::state::RenameTarget, b: crate::state::RenameTarget) -> bool {
    match (a, b) {
        (
            crate::state::RenameTarget::Comb { hive_dir_name: h1, comb_id: i1, current_name: n1 },
            crate::state::RenameTarget::Comb { hive_dir_name: h2, comb_id: i2, current_name: n2 },
        ) => h1@ == h2@ && i1@ == i2@ && n1@ == n2@,
        (
            crate::state::RenameTarget::Nest { hive_dir_name: h1, nest_id: i1, current_name: n1 },
            crate::state::RenameTarget::Nest { hive_dir_name: h2, nest_id: i2, current_name: n2 },
        ) => h1@ == h2@ && i1@ == i2@ && n1@ == n2@,
        _ => false,
    }
}

/// The position of the first comb item with id `id` among the first `n`.
pub open spec fn first_comb(items: Seq<NavItem>, id: Seq<char>, n: int) -> Option<int>
    decreases n,
{
    if n <= 0 || n > items.len() {
        None
    } else {
        match first_comb(items, id, n - 1) {
            Some(i) => Some(i),
            None => if is_comb_id(items[n - 1], id) {
                Some(n - 1)
            } else {
                None
            },
        }
    }
}

proof fn lemma_first_comb_stable(items: Seq<NavItem>, id: Seq<char>, n: int, m: int)
    requires
        0 <= n <= m <= items.len(),
        first_comb(items, id, n) is Some,
    ensures
        first_comb(items, id, m) == first_comb(items, id, n),
    decreases m - n,
{
    if m > n {
        lemma_first_comb_stable(items, id, n, m - 1);
    }
}

/// Whether the item is the comb with id `id`.
pub open spec fn is_comb_id(it: NavItem, id: Seq<char>) -> bool {
    it matches NavItem::Comb { comb, .. } && comb.id@ == id
}

impl App {
    /// The UI state at start: no items yet (they are loaded next), the
    /// sidebar focused, the sidebar width and comb startup command from the
    /// configuration (a blank command counts as none).
    pub fn new(
        beehive_dir: String,
        keyboard_enhanced: bool,
        sidebar_width: u16,
        comb_startup_command: Option<String>,
    ) -> (r: App)
        ensures
            r.wf(),
            r.beehive_dir == beehive_dir,
            r.items@.len() == 0,
            r.selected == 0,
            r.mode is Normal,
            !r.should_quit,
            r.status_message is None,
            r.active_comb_id is None,
            r.focus == Focus::Sidebar,
            r.last_term_size == (0u16, 0u16),
            r.update_available is None,
            r.sidebar_width == sidebar_width,
            r.comb_startup_command == match comb_startup_command {
                Some(c) => if crate::text::trimmed(c@).len() == 0 {
                    None
                } else {
                    Some(c)
                },
                None => None,
            },
            r.deleting_comb_ids@.len() == 0,
            r.deleting_nest_ids@.len() == 0,
            r.deleting_hive_dir_names@.len() == 0,
            r.startup_applied_comb_ids@.len() == 0,
            r.keyboard_enhanced == keyboard_enhanced,
            !r.needs_refresh,
    {
        let startup = match comb_startup_command {
            Some(c) => if crate::text::str_chars(crate::text::trim(c.as_str())).len() == 0 {
                None
            } else {
                Some(c)
            },
            None => None,
        };
        App {
            beehive_dir,
            items: Vec::new(),
            selected: 0,
            mode: AppMode::Normal,
            should_quit: false,
            status_message: None,
            active_comb_id: None,
            focus: Focus::Sidebar,
            last_term_size: (0, 0),
            update_available: None,
            sidebar_width,
            comb_startup_command: startup,
            deleting_comb_ids: Vec::new(),
            deleting_nest_ids: Vec::new(),
            deleting_hive_dir_names: Vec::new(),
            startup_applied_comb_ids: Vec::new(),
            keyboard_enhanced,
            needs_refresh: false,
        }
    }

    /// Whether the state is well formed (see `wf`).
    pub fn is_wf(&self) -> (r: bool)
        ensures
            r == self.wf(),
    {
        self.items.len() < usize::MAX / 2 && if self.items.len() == 0 {
            self.selected == 0
        } else {
            self.selected < self.items.len()
        }
    }

    /// The command a new terminal of comb `comb_id` starts with: the comb
    /// startup command, once per comb.
    pub fn startup_command_for(&self, comb_id: &str) -> (r: Option<String>)
        ensures
            ids_contain(self.startup_applied_comb_ids@, comb_id@) ==> r is None,
            !ids_contain(self.startup_applied_comb_ids@, comb_id@) ==> r == self.comb_startup_command,
    {
        if id_listed(&self.startup_applied_comb_ids, comb_id) {
            None
        } else {
            clone_opt_string(&self.comb_startup_command)
        }
    }

    /// Records the opening of a terminal for comb `comb_id`: when it opened
    /// (`Ok`, saying whether it ran the startup command) the terminal pane
    /// gets the focus and its size is measured again; otherwise the status
    /// line reports the error.
    pub fn terminal_opened(&mut self, comb_id: &str, opened: Result<bool, String>)
        ensures
            match opened {
                Ok(ran_startup) => terminal_open_done(*old(self), *final(self), comb_id@, ran_startup),
                Err(e) => *final(self) == (App { status_message: final(self).status_message, ..*old(self) })
                    && status_is(final(self).status_message, "Terminal: "@ + e@),
            },
    {
        match opened {
            Ok(ran_startup) => {
                if ran_startup && !id_listed(&self.startup_applied_comb_ids, comb_id) {
                    let ghost before = self.startup_applied_comb_ids@;
                    self.startup_applied_comb_ids.push(to_owned_string(comb_id));
                    proof {
                        let after = self.startup_applied_comb_ids@;
                        assert forall|x: Seq<char>| ids_contain(after, x) <==> (ids_contain(before, x) || x == comb_id@) by {
                            if ids_contain(after, x) {
                                let w = choose|w: int| 0 <= w < after.len() && #[trigger] after[w]@ == x;
                                if w < before.len() {
                                    assert(before[w]@ == x);
                                }
                            }
                            if ids_contain(before, x) {
                                let w = choose|w: int| 0 <= w < before.len() && #[trigger] before[w]@ == x;
                                assert(after[w]@ == x);
                            }
                            if x == comb_id@ {
                                assert(after[before.len() as int]@ == x);
                            }
                        }
                    }
                }
                self.focus = Focus::Terminal;
                self.last_term_size = (0, 0);
            },
            Err(e) => {
                let mut m = to_owned_string("Terminal: ");
                m.append(e.as_str());
                self.status_message = Some(m);
            },
        }
    }
}

/// `after` is `before` with a terminal of comb `id` open and shown (its
/// size to be measured again); when it ran the startup command (`ran`) the
/// comb is recorded as having run it.
pub open spec fn terminal_open_done(before: App, after: App, id: Seq<char>, ran: bool) -> bool {
    &&& after == (App {
        focus: Focus::Terminal,
        last_term_size: (0u16, 0u16),
        startup_applied_comb_ids: after.startup_applied_comb_ids,
        ..before
    })
    &&& forall|x: Seq<char>|
        ids_contain(after.startup_applied_comb_ids@, x) <==> (ids_contain(before.startup_applied_comb_ids@, x) || (ran
            && x == id))
}

/// Whether a terminal opened now for comb `id` is given the startup command
/// (what `startup_command_for` offers).
pub open spec fn startup_given(app: App, id: Seq<char>) -> bool {
    app.comb_startup_command is Some && !ids_contain(app.startup_applied_comb_ids@, id)
}

/// A step of a session: a terminal opened for the comb `opened` names,
/// running the startup command when it was offered, or, with `None`, any
/// other change that keeps the record of the combs that ran it.
pub open spec fn session_step(before: App, after: App, opened: Option<Seq<char>>) -> bool {
    match opened {
        Some(id) => terminal_open_done(before, after, id, startup_given(before, id)),
        None => forall|x: Seq<char>|
            ids_contain(after.startup_applied_comb_ids@, x) == ids_contain(before.startup_applied_comb_ids@, x),
    }
}

proof fn lemma_startup_recorded(states: Seq<App>, opened: Seq<Option<Seq<char>>>, x: Seq<char>, i: int, k: int)
    requires
        states.len() == opened.len() + 1,
        forall|t: int| 0 <= t < opened.len() ==> #[trigger] session_step(states[t], states[t + 1], opened[t]),
        0 <= i < k < states.len(),
        opened[i] == Some(x),
        startup_given(states[i], x),
    ensures
        ids_contain(states[k].startup_applied_comb_ids@, x),
    decreases k - i,
{
    let t = k - 1;
    assert(session_step(states[t], states[t + 1], opened[t]));
    if t > i {
        lemma_startup_recorded(states, opened, x, i, t);
    }
}

/// The comb startup command runs once per comb: along a session, when a
/// terminal opened for comb `x` (step `i`) ran it, a terminal opened later
/// for that comb (step `j`) is not given it again.
pub proof fn lemma_startup_runs_once(states: Seq<App>, opened: Seq<Option<Seq<char>>>, x: Seq<char>, i: int, j: int)
    requires
        states.len() == opened.len() + 1,
        forall|t: int| 0 <= t < opened.len() ==> #[trigger] session_step(states[t], states[t + 1], opened[t]),
        0 <= i < j < opened.len(),
        opened[i] == Some(x),
        opened[j] == Some(x),
        startup_given(states[i], x),
    ensures
        !startup_given(states[j], x),
{
    lemma_startup_recorded(states, opened, x, i, j);
}

/// The size a new terminal starts with on a screen of `cols` by `rows`:
/// 70% of the columns (at least 20) and all rows but three (at least 5),
/// as (rows, columns).
pub fn initial_terminal_size(cols: u16, rows: u16) -> (r: (u16, u16))
    requires
        cols as int * 70 <= u16::MAX,
    ensures
        r.1 == (if cols * 70 / 100 > 20 {
            cols * 70 / 100
        } else {
            20
        }),
        r.0 == (if rows >= 3 && rows - 3 > 5 {
            rows - 3
        } else {
            5
        }),
{
    let c = cols * 70 / 100;
    let term_cols = if c > 20 {
        c
    } else {
        20
    };
    let r = if rows >= 3 {
        rows - 3
    } else {
        0
    };
    let term_rows = if r > 5 {
        r
    } else {
        5
    };
    (term_rows, term_cols)
}

} // verus!
