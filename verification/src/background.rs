//! What the UI does when background work ends: a clone or copy that
//! finished or failed, and a delete that finished; the refresh and the
//! terminal they call for are handed back to the caller.

use vstd::prelude::*;

use crate::model::Comb;
use crate::state::{
    comb_updated, keeps_item, remove_comb_from_items, update_comb_in_items, CloneResult, DeleteResult, NavItem,
};
use crate::text::{dec_chars, to_owned_string, usize_text};
use crate::tui::{id_listed, ids_contain, status_is, App};
use crate::state::{AppMode, DeleteTarget, Focus};
use crate::sidebar::visible_ids;

verus! {

/// What is left to do after a clone or copy ended.
pub enum CloneFollowUp {
    /// The refresh is deferred (the sidebar was updated in place).
    Deferred,
    /// Refresh the sidebar.
    Refresh,
    /// Refresh the sidebar and open a terminal in the new comb.
    RefreshAndOpen { comb_id: String, path: String },
}

impl App {
    /// Reports a clone or copy that ended. While refreshes are paused
    /// (`deletes_running`, or a comb being moved or marked for deletion) the
    /// sidebar is updated in place and a refresh is deferred; otherwise a
    /// refresh is asked for, and a finished copy becomes the active comb and
    /// gets a terminal.
    pub fn finish_clone(&mut self, result: CloneResult, deletes_running: bool) -> (r: CloneFollowUp)
        ensures
            ({
                let paused = deletes_running || old(self).mode is MovingComb || old(self).mode is DeleteCombSelection;
                match result.comb {
                    Ok(c) => {
                        &&& status_is(
                            final(self).status_message,
                            (if result.is_copy {
                                "Copied '"@
                            } else {
                                "Created '"@
                            }) + result.comb_name@ + "'"@,
                        )
                        &&& if paused {
                            &&& r is Deferred
                            &&& comb_updated(old(self).items@, final(self).items@, c.id@, c)
                            &&& *final(self) == (App {
                                items: final(self).items,
                                status_message: final(self).status_message,
                                needs_refresh: true,
                                ..*old(self)
                            })
                        } else if result.is_copy {
                            &&& r matches CloneFollowUp::RefreshAndOpen { comb_id, path } && comb_id@ == c.id@ && path@
                                == c.path@
                            &&& final(self).active_comb_id matches Some(a) && a@ == c.id@
                            &&& *final(self) == (App {
                                active_comb_id: final(self).active_comb_id,
                                status_message: final(self).status_message,
                                ..*old(self)
                            })
                        } else {
                            r is Refresh && *final(self) == (App { status_message: final(self).status_message, ..*old(self) })
                        }
                    },
                    Err(e) => {
                        &&& status_is(
                            final(self).status_message,
                            (if result.is_copy {
                                "Copy"@
                            } else {
                                "Clone"@
                            }) + " failed: "@ + e@,
                        )
                        &&& if paused {
                            &&& r is Deferred
                            &&& final(self).items@ == old(self).items@.filter(keeps_item(result.comb_name@))
                            &&& *final(self) == (App {
                                items: final(self).items,
                                status_message: final(self).status_message,
                                needs_refresh: true,
                                ..*old(self)
                            })
                        } else {
                            r is Refresh && *final(self) == (App { status_message: final(self).status_message, ..*old(self) })
                        }
                    },
                }
            }),
    {
        let paused = self.should_pause_refresh(deletes_running);
        let is_copy = result.is_copy;
        let name = result.comb_name;
        match result.comb {
            Ok(c) => {
                let mut m = if is_copy {
                    to_owned_string("Copied '")
                } else {
                    to_owned_string("Created '")
                };
                m.append(name.as_str());
                m.append("'");
                self.status_message = Some(m);
                if paused {
                    update_comb_in_items(&mut self.items, c.id.as_str(), &c);
                    self.needs_refresh = true;
                    CloneFollowUp::Deferred
                } else if is_copy {
                    self.active_comb_id = Some(c.id.clone());
                    CloneFollowUp::RefreshAndOpen { comb_id: c.id.clone(), path: c.path.clone() }
                } else {
                    CloneFollowUp::Refresh
                }
            },
            Err(e) => {
                let mut m = if is_copy {
                    to_owned_string("Copy")
                } else {
                    to_owned_string("Clone")
                };
                m.append(" failed: ");
                m.append(e.as_str());
                self.status_message = Some(m);
                if paused {
                    remove_comb_from_items(&mut self.items, name.as_str());
                    self.needs_refresh = true;
                    CloneFollowUp::Deferred
                } else {
                    CloneFollowUp::Refresh
                }
            },
        }
    }
}

/// The parts joined, with `sep` between two parts.
pub open spec fn joined(parts: Seq<Seq<char>>, sep: Seq<char>) -> Seq<char>
    decreases parts.len(),
{
    if parts.len() == 0 {
        Seq::empty()
    } else if parts.len() == 1 {
        parts[0]
    } else {
        joined(parts.drop_last(), sep) + sep + parts.last()
    }
}

/// The strings joined, with `sep` between two of them.
pub fn join_strings(parts: &Vec<String>, sep: &str) -> (r: String)
    ensures
        r@ == joined(parts@.map_values(|s: String| s@), sep@),
{
    let ghost v = parts@.map_values(|s: String| s@);
    let mut r = String::new();
    let mut i: usize = 0;
    while i < parts.len()
        invariant
            i <= parts@.len(),
            v == parts@.map_values(|s: String| s@),
            r@ == joined(v.take(i as int), sep@),
        decreases parts.len() - i,
    {
        proof {
            assert(v.take(i + 1).drop_last() =~= v.take(i as int));
            assert(v.take(i + 1).last() == parts@[i as int]@);
            if i == 0 {
                assert(v.take(1) =~= seq![parts@[0]@]);
            }
        }
        if i > 0 {
            r.append(sep);
        }
        r.append(parts[i].as_str());
        i = i + 1;
    }
    assert(v.take(parts@.len() as int) =~= v);
    r
}

/// The report of what a delete removed: the comb (or how many), then the
/// hive (or how many).
pub open spec fn deleted_parts(combs: Seq<String>, hives: Seq<String>) -> Seq<Seq<char>> {
    (if combs.len() == 1 {
        seq!["Deleted '"@ + combs[0]@ + "'"@]
    } else if combs.len() > 1 {
        seq!["Deleted "@ + dec_chars(combs.len()) + " combs"@]
    } else {
        Seq::empty()
    }) + (if hives.len() == 1 {
        seq!["Deleted hive '"@ + hives[0]@ + "'"@]
    } else if hives.len() > 1 {
        seq!["Deleted "@ + dec_chars(hives.len()) + " hives"@]
    } else {
        Seq::empty()
    })
}

/// The status line after a delete: what it removed, then its errors, each
/// list joined with "; " ("Delete failed: " and the errors when it removed
/// nothing).
pub open spec fn delete_summary(r: DeleteResult) -> Seq<char> {
    let parts = deleted_parts(r.deleted_comb_names@, r.deleted_hive_names@);
    let errs = r.errors@.map_values(|s: String| s@);
    if errs.len() == 0 {
        joined(parts, "; "@)
    } else if parts.len() == 0 {
        "Delete failed: "@ + joined(errs, "; "@)
    } else {
        joined(parts, "; "@) + "; "@ + joined(errs, "; "@)
    }
}

/// The id of the first comb item named `name` among the first `n`.
pub open spec fn comb_named(items: Seq<NavItem>, name: Seq<char>, n: int) -> Option<Seq<char>>
    decreases n,
{
    if n <= 0 || n > items.len() {
        None
    } else {
        match comb_named(items, name, n - 1) {
            Some(x) => Some(x),
            None => match items[n - 1] {
                NavItem::Comb { comb, .. } => if comb.name@ == name {
                    Some(comb.id@)
                } else {
                    None
                },
                _ => None,
            },
        }
    }
}

/// The directory of the first hive item whose repository is `name`, among
/// the first `n`.
pub open spec fn hive_named(items: Seq<NavItem>, name: Seq<char>, n: int) -> Option<Seq<char>>
    decreases n,
{
    if n <= 0 || n > items.len() {
        None
    } else {
        match hive_named(items, name, n - 1) {
            Some(x) => Some(x),
            None => match items[n - 1] {
                NavItem::Hive { info, .. } => if info.repo_name@ == name {
                    Some(info.dir_name@)
                } else {
                    None
                },
                _ => None,
            },
        }
    }
}

/// Whether `id` is the comb id (`combs`) or hive directory (otherwise) that
/// one of the deleted `names` is shown under in the items.
pub open spec fn deleted_key(items: Seq<NavItem>, names: Seq<String>, id: Seq<char>, combs: bool) -> bool {
    exists|k: int|
        #![trigger names[k]]
        0 <= k < names.len() && (if combs {
            comb_named(items, names[k]@, items.len() as int)
        } else {
            hive_named(items, names[k]@, items.len() as int)
        }) == Some(id)
}

/// Keeps the ids that no deleted name accounts for.
pub open spec fn keeps_id(items: Seq<NavItem>, names: Seq<String>, combs: bool) -> spec_fn(String) -> bool {
    |s: String| !deleted_key(items, names, s@, combs)
}

impl App {
    /// The id of the first comb item named `name` (`combs`), or the directory
    /// of the first hive item whose repository is `name`.
    fn key_named(&self, name: &str, combs: bool) -> (r: Option<String>)
        ensures
            match r {
                Some(x) => (if combs {
                    comb_named(self.items@, name@, self.items@.len() as int)
                } else {
                    hive_named(self.items@, name@, self.items@.len() as int)
                }) == Some(x@),
                None => (if combs {
                    comb_named(self.items@, name@, self.items@.len() as int)
                } else {
                    hive_named(self.items@, name@, self.items@.len() as int)
                }) is None,
            },
    {
        let mut i: usize = 0;
        while i < self.items.len()
            invariant
                i <= self.items@.len(),
                (if combs {
                    comb_named(self.items@, name@, i as int)
                } else {
                    hive_named(self.items@, name@, i as int)
                }) is None,
            decreases self.items.len() - i,
        {
            let hit: Option<String> = match &self.items[i] {
                NavItem::Comb { comb, .. } => if combs && crate::text::str_eq(comb.name.as_str(), name) {
                    Some(comb.id.clone())
                } else {
                    None
                },
                NavItem::Hive { info, .. } => if !combs && crate::text::str_eq(info.repo_name.as_str(), name) {
                    Some(info.dir_name.clone())
                } else {
                    None
                },
                _ => None,
            };
            match hit {
                Some(x) => {
                    proof {
                        if combs {
                            lemma_comb_named_stable(self.items@, name@, i + 1, self.items@.len() as int);
                        } else {
                            lemma_hive_named_stable(self.items@, name@, i + 1, self.items@.len() as int);
                        }
                    }
                    return Some(x);
                },
                None => {},
            }
            i = i + 1;
        }
        None
    }

    /// The ids that the deleted `names` account for, in the order of the
    /// names.
    fn deleted_keys(&self, names: &Vec<String>, combs: bool) -> (r: Vec<String>)
        ensures
            forall|id: Seq<char>| ids_contain(r@, id) <==> deleted_key(self.items@, names@, id, combs),
    {
        let mut r: Vec<String> = Vec::new();
        let mut k: usize = 0;
        while k < names.len()
            invariant
                k <= names@.len(),
                forall|id: Seq<char>|
                    ids_contain(r@, id) <==> exists|j: int| #![trigger names@[j]]
                        0 <= j < k && (if combs {
                            comb_named(self.items@, names@[j]@, self.items@.len() as int)
                        } else {
                            hive_named(self.items@, names@[j]@, self.items@.len() as int)
                        }) == Some(id),
            decreases names.len() - k,
        {
            let ghost before = r@;
            match self.key_named(names[k].as_str(), combs) {
                Some(x) => {
                    r.push(x);
                    proof {
                        assert forall|id: Seq<char>| ids_contain(r@, id) <==> exists|j: int| #![trigger names@[j]]
                            0 <= j < k + 1 && (if combs {
                                comb_named(self.items@, names@[j]@, self.items@.len() as int)
                            } else {
                                hive_named(self.items@, names@[j]@, self.items@.len() as int)
                            }) == Some(id) by {
                            if ids_contain(r@, id) {
                                let w = choose|w: int| 0 <= w < r@.len() && #[trigger] r@[w]@ == id;
                                if w < before.len() {
                                    assert(before[w]@ == id);
                                    assert(ids_contain(before, id));
                                } else {
                                    assert(names@[k as int]@ == names@[k as int]@);
                                }
                            }
                            if exists|j: int| #![trigger names@[j]]
                                0 <= j < k + 1 && (if combs {
                                    comb_named(self.items@, names@[j]@, self.items@.len() as int)
                                } else {
                                    hive_named(self.items@, names@[j]@, self.items@.len() as int)
                                }) == Some(id) {
                                let j = choose|j: int| #![trigger names@[j]]
                                    0 <= j < k + 1 && (if combs {
                                        comb_named(self.items@, names@[j]@, self.items@.len() as int)
                                    } else {
                                        hive_named(self.items@, names@[j]@, self.items@.len() as int)
                                    }) == Some(id);
                                if j < k {
                                    assert(ids_contain(before, id));
                                    let w = choose|w: int| 0 <= w < before.len() && #[trigger] before[w]@ == id;
                                    assert(r@[w]@ == id);
                                } else {
                                    assert(r@[before.len() as int]@ == id);
                                }
                            }
                        }
                    }
                },
                None => {
                    proof {
                        assert forall|id: Seq<char>| ids_contain(r@, id) <==> exists|j: int| #![trigger names@[j]]
                            0 <= j < k + 1 && (if combs {
                                comb_named(self.items@, names@[j]@, self.items@.len() as int)
                            } else {
                                hive_named(self.items@, names@[j]@, self.items@.len() as int)
                            }) == Some(id) by {
                            if exists|j: int| #![trigger names@[j]]
                                0 <= j < k + 1 && (if combs {
                                    comb_named(self.items@, names@[j]@, self.items@.len() as int)
                                } else {
                                    hive_named(self.items@, names@[j]@, self.items@.len() as int)
                                }) == Some(id) {
                                let j = choose|j: int| #![trigger names@[j]]
                                    0 <= j < k + 1 && (if combs {
                                        comb_named(self.items@, names@[j]@, self.items@.len() as int)
                                    } else {
                                        hive_named(self.items@, names@[j]@, self.items@.len() as int)
                                    }) == Some(id);
                                assert(j < k);
                            }
                        }
                    }
                },
            }
            k = k + 1;
        }
        r
    }
}

/// The ids of `ids` that are not in `gone`, in order.
fn without_ids(ids: &Vec<String>, gone: &Vec<String>) -> (r: Vec<String>)
    ensures
        r@ == ids@.filter(|s: String| !ids_contain(gone@, s@)),
{
    let ghost p = |s: String| !ids_contain(gone@, s@);
    let mut r: Vec<String> = Vec::new();
    let mut i: usize = 0;
    while i < ids.len()
        invariant
            i <= ids@.len(),
            p == (|s: String| !ids_contain(gone@, s@)),
            r@ == ids@.take(i as int).filter(p),
        decreases ids.len() - i,
    {
        proof {
            reveal(Seq::filter);
            assert(ids@.take(i + 1).drop_last() =~= ids@.take(i as int));
            assert(ids@.take(i + 1).last() == ids@[i as int]);
        }
        if !id_listed(gone, ids[i].as_str()) {
            r.push(ids[i].clone());
        }
        i = i + 1;
    }
    assert(ids@.take(ids@.len() as int) =~= ids@);
    r
}

impl App {
    /// Reports a delete that ended: the combs and hives it removed are no
    /// longer marked as being deleted (found by name among the items), and
    /// the status line sums it up. The caller refreshes the sidebar.
    pub fn finish_delete(&mut self, result: &DeleteResult)
        ensures
            *final(self) == (App {
                deleting_comb_ids: final(self).deleting_comb_ids,
                deleting_hive_dir_names: final(self).deleting_hive_dir_names,
                status_message: final(self).status_message,
                ..*old(self)
            }),
            final(self).deleting_comb_ids@ == old(self).deleting_comb_ids@.filter(
                keeps_id(old(self).items@, result.deleted_comb_names@, true),
            ),
            final(self).deleting_hive_dir_names@ == old(self).deleting_hive_dir_names@.filter(
                keeps_id(old(self).items@, result.deleted_hive_names@, false),
            ),
            status_is(final(self).status_message, delete_summary(*result)),
    {
        let gone_combs = self.deleted_keys(&result.deleted_comb_names, true);
        let gone_hives = self.deleted_keys(&result.deleted_hive_names, false);
        let kept_combs = without_ids(&self.deleting_comb_ids, &gone_combs);
        let kept_hives = without_ids(&self.deleting_hive_dir_names, &gone_hives);
        proof {
            assert(kept_combs@ =~= old(self).deleting_comb_ids@.filter(
                keeps_id(old(self).items@, result.deleted_comb_names@, true),
            )) by {
                assert((|s: String| !ids_contain(gone_combs@, s@)) =~= keeps_id(
                    old(self).items@,
                    result.deleted_comb_names@,
                    true,
                ));
            }
            assert(kept_hives@ =~= old(self).deleting_hive_dir_names@.filter(
                keeps_id(old(self).items@, result.deleted_hive_names@, false),
            )) by {
                assert((|s: String| !ids_contain(gone_hives@, s@)) =~= keeps_id(
                    old(self).items@,
                    result.deleted_hive_names@,
                    false,
                ));
            }
        }
        self.deleting_comb_ids = kept_combs;
        self.deleting_hive_dir_names = kept_hives;
        self.status_message = Some(delete_summary_text(result));
    }
}

/// The status line after a delete.
pub fn delete_summary_text(result: &DeleteResult) -> (r: String)
    ensures
        r@ == delete_summary(*result),
{
    let mut parts: Vec<String> = Vec::new();
    let nc = result.deleted_comb_names.len();
    if nc == 1 {
        let mut m = to_owned_string("Deleted '");
        m.append(result.deleted_comb_names[0].as_str());
        m.append("'");
        parts.push(m);
    } else if nc > 1 {
        let mut m = to_owned_string("Deleted ");
        m.append(usize_text(nc).as_str());
        m.append(" combs");
        parts.push(m);
    }
    let nh = result.deleted_hive_names.len();
    if nh == 1 {
        let mut m = to_owned_string("Deleted hive '");
        m.append(result.deleted_hive_names[0].as_str());
        m.append("'");
        parts.push(m);
    } else if nh > 1 {
        let mut m = to_owned_string("Deleted ");
        m.append(usize_text(nh).as_str());
        m.append(" hives");
        parts.push(m);
    }
    assert(parts@.map_values(|s: String| s@) =~= deleted_parts(
        result.deleted_comb_names@,
        result.deleted_hive_names@,
    ));
    let joined_parts = join_strings(&parts, "; ");
    if result.errors.len() == 0 {
        joined_parts
    } else if parts.len() == 0 {
        let mut m = to_owned_string("Delete failed: ");
        m.append(join_strings(&result.errors, "; ").as_str());
        m
    } else {
        let mut m = joined_parts;
        m.append("; ");
        m.append(join_strings(&result.errors, "; ").as_str());
        m
    }
}

proof fn lemma_comb_named_stable(items: Seq<NavItem>, name: Seq<char>, n: int, m: int)
    requires
        0 <= n <= m <= items.len(),
        comb_named(items, name, n) is Some,
    ensures
        comb_named(items, name, m) == comb_named(items, name, n),
    decreases m - n,
{
    if m > n {
        lemma_comb_named_stable(items, name, n, m - 1);
    }
}

proof fn lemma_hive_named_stable(items: Seq<NavItem>, name: Seq<char>, n: int, m: int)
    requires
        0 <= n <= m <= items.len(),
        hive_named(items, name, n) is Some,
    ensures
        hive_named(items, name, m) == hive_named(items, name, n),
    decreases m - n,
{
    if m > n {
        lemma_hive_named_stable(items, name, n, m - 1);
    }
}

/// The comb ids whose terminals close when the first `n` targets are
/// deleted: each comb, and the combs shown for each hive, in order.
pub open spec fn closing_ids(items: Seq<NavItem>, targets: Seq<DeleteTarget>, n: int) -> Seq<Seq<char>>
    decreases n,
{
    if n <= 0 || n > targets.len() {
        Seq::empty()
    } else {
        closing_ids(items, targets, n - 1) + match targets[n - 1] {
            DeleteTarget::Comb { comb_id, .. } => seq![comb_id@],
            DeleteTarget::Hive { dir_name, .. } => visible_ids(items, dir_name@, items.len() as int),
            DeleteTarget::Nest { .. } => Seq::empty(),
        }
    }
}

/// Whether a target of kind `kind` (0 comb, 1 nest, 2 hive) has the id `id`.
pub open spec fn targets_id(targets: Seq<DeleteTarget>, kind: int, id: Seq<char>) -> bool {
    exists|k: int|
        0 <= k < targets.len() && #[trigger] crate::tui::target_view(targets[k]).0 == kind
            && crate::tui::target_view(targets[k]).2 == id
}

/// Adds `id` to the list unless it is listed.
fn note_id(ids: &mut Vec<String>, id: &String)
    ensures
        forall|x: Seq<char>| ids_contain(final(ids)@, x) <==> (ids_contain(old(ids)@, x) || x == id@),
{
    if !id_listed(ids, id.as_str()) {
        let ghost before = ids@;
        ids.push(id.clone());
        proof {
            assert forall|x: Seq<char>| ids_contain(ids@, x) <==> (ids_contain(before, x) || x == id@) by {
                if ids_contain(ids@, x) {
                    let w = choose|w: int| 0 <= w < ids@.len() && #[trigger] ids@[w]@ == x;
                    if w < before.len() {
                        assert(before[w]@ == x);
                    }
                }
                if ids_contain(before, x) {
                    let w = choose|w: int| 0 <= w < before.len() && #[trigger] before[w]@ == x;
                    assert(ids@[w]@ == x);
                }
                if x == id@ {
                    assert(ids@[before.len() as int]@ == x);
                }
            }
        }
    }
}

impl App {
    /// Starts deleting `targets` in the background: each is marked as being
    /// deleted and the status line is cleared; returns the comb ids whose
    /// terminals are to close (the shown terminal among them is no longer
    /// shown, and the sidebar gets the focus). With no target, the status
    /// line says so and `None` is returned.
    pub fn begin_delete(&mut self, targets: &Vec<DeleteTarget>) -> (r: Option<Vec<String>>)
        ensures
            targets@.len() == 0 ==> r is None && *final(self) == (App {
                status_message: final(self).status_message,
                ..*old(self)
            }) && status_is(final(self).status_message, "Nothing selected for delete"@),
            targets@.len() > 0 ==> {
                &&& r matches Some(close) && close@.map_values(|s: String| s@) == closing_ids(
                    old(self).items@,
                    targets@,
                    targets@.len() as int,
                )
                &&& *final(self) == (App {
                    deleting_comb_ids: final(self).deleting_comb_ids,
                    deleting_nest_ids: final(self).deleting_nest_ids,
                    deleting_hive_dir_names: final(self).deleting_hive_dir_names,
                    active_comb_id: final(self).active_comb_id,
                    focus: final(self).focus,
                    status_message: None,
                    ..*old(self)
                })
                &&& forall|x: Seq<char>|
                    ids_contain(final(self).deleting_comb_ids@, x) <==> (ids_contain(old(self).deleting_comb_ids@, x)
                        || targets_id(targets@, 0, x))
                &&& forall|x: Seq<char>|
                    ids_contain(final(self).deleting_nest_ids@, x) <==> (ids_contain(old(self).deleting_nest_ids@, x)
                        || targets_id(targets@, 1, x))
                &&& forall|x: Seq<char>|
                    ids_contain(final(self).deleting_hive_dir_names@, x) <==> (ids_contain(
                        old(self).deleting_hive_dir_names@,
                        x,
                    ) || targets_id(targets@, 2, x))
                &&& if (old(self).active_comb_id matches Some(a) && closing_ids(
                    old(self).items@,
                    targets@,
                    targets@.len() as int,
                ).contains(a@)) {
                    final(self).active_comb_id is None && final(self).focus == Focus::Sidebar
                } else {
                    final(self).active_comb_id == old(self).active_comb_id && final(self).focus == old(self).focus
                }
            },
    {
        if targets.len() == 0 {
            self.status_message = Some(to_owned_string("Nothing selected for delete"));
            return None;
        }
        let mut close: Vec<String> = Vec::new();
        let mut i: usize = 0;
        while i < targets.len()
            invariant
                i <= targets@.len(),
                self.items == old(self).items,
                *self == (App {
                    deleting_comb_ids: self.deleting_comb_ids,
                    deleting_nest_ids: self.deleting_nest_ids,
                    deleting_hive_dir_names: self.deleting_hive_dir_names,
                    active_comb_id: self.active_comb_id,
                    focus: self.focus,
                    ..*old(self)
                }),
                close@.map_values(|s: String| s@) == closing_ids(old(self).items@, targets@, i as int),
                forall|x: Seq<char>|
                    ids_contain(self.deleting_comb_ids@, x) <==> (ids_contain(old(self).deleting_comb_ids@, x)
                        || targets_id(targets@.take(i as int), 0, x)),
                forall|x: Seq<char>|
                    ids_contain(self.deleting_nest_ids@, x) <==> (ids_contain(old(self).deleting_nest_ids@, x)
                        || targets_id(targets@.take(i as int), 1, x)),
                forall|x: Seq<char>|
                    ids_contain(self.deleting_hive_dir_names@, x) <==> (ids_contain(
                        old(self).deleting_hive_dir_names@,
                        x,
                    ) || targets_id(targets@.take(i as int), 2, x)),
                if (old(self).active_comb_id matches Some(a) && closing_ids(old(self).items@, targets@, i as int).contains(
                    a@,
                )) {
                    self.active_comb_id is None && self.focus == Focus::Sidebar
                } else {
                    self.active_comb_id == old(self).active_comb_id && self.focus == old(self).focus
                },
            decreases targets.len() - i,
        {
            let ghost before_close = close@.map_values(|s: String| s@);
            let ghost prev = targets@.take(i as int);
            let ghost next = targets@.take(i + 1);
            assert(next =~= prev.push(targets@[i as int]));
            let ghost active_before = self.active_comb_id;
            let ghost focus_before = self.focus;
            let ghost added: Seq<Seq<char>>;
            match &targets[i] {
                DeleteTarget::Comb { comb_id, .. } => {
                    note_id(&mut self.deleting_comb_ids, comb_id);
                    self.remove_terminal(comb_id.as_str());
                    close.push(comb_id.clone());
                    proof {
                        added = seq![comb_id@];
                        match active_before {
                            Some(a) => {
                                if a@ == comb_id@ {
                                    assert(added[0] == a@);
                                    assert(self.active_comb_id is None && self.focus == Focus::Sidebar);
                                } else {
                                    assert(!added.contains(a@)) by {
                                        if added.contains(a@) {
                                            let w = choose|w: int| 0 <= w < added.len() && added[w] == a@;
                                            assert(w == 0);
                                        }
                                    }
                                    assert(self.active_comb_id == active_before && self.focus == focus_before);
                                }
                            },
                            None => {
                                assert(self.active_comb_id == active_before && self.focus == focus_before);
                            },
                        }
                    }
                },
                DeleteTarget::Hive { dir_name, .. } => {
                    note_id(&mut self.deleting_hive_dir_names, dir_name);
                    let mut ids = self.remove_hive_terminals(dir_name.as_str());
                    proof {
                        added = ids@.map_values(|s: String| s@);
                        if crate::sidebar::hive_terminal_shown(active_before, ids@) {
                            assert(self.active_comb_id is None && self.focus == Focus::Sidebar);
                        } else {
                            assert(self.active_comb_id == active_before && self.focus == focus_before);
                        }
                    }
                    close.append(&mut ids);
                },
                DeleteTarget::Nest { nest_id, .. } => {
                    note_id(&mut self.deleting_nest_ids, nest_id);
                    proof {
                        added = Seq::empty();
                        assert(self.active_comb_id == active_before && self.focus == focus_before);
                    }
                },
            }
            proof {
                assert(close@.map_values(|s: String| s@) =~= before_close + added);
                assert(closing_ids(old(self).items@, targets@, i + 1) =~= closing_ids(
                    old(self).items@,
                    targets@,
                    i as int,
                ) + added);
                assert forall|kind: int, x: Seq<char>| #[trigger] targets_id(next, kind, x) <==> (targets_id(prev, kind, x) || (
                    crate::tui::target_view(targets@[i as int]).0 == kind && crate::tui::target_view(targets@[i as int]).2 == x)) by {
                    if targets_id(next, kind, x) {
                        let k = choose|k: int|
                            0 <= k < next.len() && #[trigger] crate::tui::target_view(next[k]).0 == kind
                                && crate::tui::target_view(next[k]).2 == x;
                        if k < i {
                            assert(next[k] == prev[k]);
                        }
                    }
                    if targets_id(prev, kind, x) {
                        let k = choose|k: int|
                            0 <= k < prev.len() && #[trigger] crate::tui::target_view(prev[k]).0 == kind
                                && crate::tui::target_view(prev[k]).2 == x;
                        assert(next[k] == prev[k]);
                    }
                    if crate::tui::target_view(targets@[i as int]).0 == kind && crate::tui::target_view(targets@[i as int]).2 == x {
                        assert(next[i as int] == targets@[i as int]);
                    }
                }
                let c_before = closing_ids(old(self).items@, targets@, i as int);
                let c_after = closing_ids(old(self).items@, targets@, i + 1);
                match old(self).active_comb_id {
                    Some(a) => {
                        if c_after.contains(a@) && !c_before.contains(a@) {
                            let w = choose|w: int| 0 <= w < c_after.len() && c_after[w] == a@;
                            assert(added[w - c_before.len()] == a@);
                            assert(added.contains(a@));
                        }
                        if c_before.contains(a@) {
                            let w = choose|w: int| 0 <= w < c_before.len() && c_before[w] == a@;
                            assert(c_after[w] == a@);
                        }
                        if added.contains(a@) && !c_before.contains(a@) {
                            let w = choose|w: int| 0 <= w < added.len() && added[w] == a@;
                            assert(c_after[c_before.len() + w] == a@);
                        }
                    },
                    None => {},
                }
            }
            i = i + 1;
        }
        assert(targets@.take(targets@.len() as int) =~= targets@);
        self.status_message = None;
        Some(close)
    }
}

} // verus!
