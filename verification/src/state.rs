//! The terminal UI's state: the sidebar's items, the modes the UI can be in,
//! and the results that background work hands back.

use vstd::prelude::*;

use crate::finder::CombFinderTarget;
use crate::model::{Comb, HiveInfo, Nest};
use crate::settings::PreflightResult;
use crate::text::str_eq;

verus! {

/// Which pane receives the keys.
#[derive(Clone, Copy, Debug, PartialEq, Eq, Structural)]
pub enum Focus {
    Sidebar,
    Terminal,
}

/// Something the user marked for deletion.
pub enum DeleteTarget {
    Comb { hive_dir_name: String, comb_id: String, comb_name: String },
    Nest { hive_dir_name: String, nest_id: String, nest_name: String },
    Hive { dir_name: String, repo_name: String },
}

/// One row of the sidebar.
#[derive(Clone)]
pub enum NavItem {
    Hive { info: HiveInfo, expanded: bool, comb_count: usize },
    Nest { hive_dir_name: String, nest: Nest, expanded: bool, comb_count: usize },
    Comb { hive_dir_name: String, comb: Comb },
}

/// What a rename prompt renames.
pub enum RenameTarget {
    Comb { hive_dir_name: String, comb_id: String, current_name: String },
    Nest { hive_dir_name: String, nest_id: String, current_name: String },
}

/// What the text prompt's value is for.
pub enum InputAction {
    NewCombName { hive_dir_name: String },
    NewNestName { hive_dir_name: String },
    AddHiveUrl,
    RenameSelected { target: RenameTarget },
    CopyCombName { hive_dir_name: String, source_comb_name: String, source_comb_path: String },
}

/// What a yes/no prompt confirms.
pub enum ConfirmAction {
    DeleteComb { hive_dir_name: String, comb_id: String, comb_name: String },
    DeleteHive { dir_name: String, repo_name: String },
    DeleteNest { hive_dir_name: String, nest_id: String, nest_name: String },
    ResetConfig,
    Quit,
}

/// The mode of the UI; every mode but `Normal` is an overlay or a prompt.
#[allow(inconsistent_fields)]
pub enum AppMode {
    Normal,
    Input { prompt: String, value: String, cursor: usize, action: InputAction },
    Confirm { message: String, action: ConfirmAction },
    BranchPicker {
        hive_dir_name: String,
        comb_name: String,
        branches: Vec<String>,
        default_branch: String,
        filter: String,
        filter_cursor: usize,
        selected: usize,
    },
    /// Reordering a comb within its hive.
    MovingComb {
        hive_dir_name: String,
        moving_comb_id: String,
        /// The items before moving started, restored on cancel.
        original_items: Vec<NavItem>,
        original_selected: usize,
    },
    CombFinder { targets: Vec<CombFinderTarget>, filter: String, filter_cursor: usize, selected: usize },
    /// Marking combs and nests of one hive for deletion; each id is listed once.
    DeleteCombSelection {
        hive_dir_name: String,
        selected_comb_ids: Vec<String>,
        selected_nest_ids: Vec<String>,
    },
    Help,
    Settings { preflight: PreflightResult },
}

/// What a background clone or copy hands back.
pub struct CloneResult {
    pub comb: Result<Comb, String>,
    pub comb_name: String,
    pub hive_dir_name: String,
    /// A copy switches to the new comb; a clone leaves the focus alone.
    pub is_copy: bool,
}

/// What a background delete hands back.
pub struct DeleteResult {
    pub deleted_comb_names: Vec<String>,
    pub deleted_nest_names: Vec<String>,
    pub deleted_hive_names: Vec<String>,
    pub errors: Vec<String>,
}

/// What a background refresh read: every hive with its nests and combs.
pub struct RefreshResult {
    pub hive_data: Vec<(HiveInfo, Vec<Nest>, Vec<Comb>)>,
}

impl RenameTarget {
    /// The name before renaming.
    pub open spec fn spec_current_name(&self) -> Seq<char> {
        match self {
            RenameTarget::Comb { current_name, .. } => current_name@,
            RenameTarget::Nest { current_name, .. } => current_name@,
        }
    }

    /// The name before renaming.
    pub fn current_name(&self) -> (r: &str)
        ensures
            r@ == self.spec_current_name(),
    {
        match self {
            RenameTarget::Comb { current_name, .. } => current_name.as_str(),
            RenameTarget::Nest { current_name, .. } => current_name.as_str(),
        }
    }

    /// The prompt of the rename dialog.
    pub open spec fn prompt_text(&self) -> Seq<char> {
        match self {
            RenameTarget::Comb { current_name, .. } => "Rename '"@ + current_name@ + "' to"@,
            RenameTarget::Nest { current_name, .. } => "Rename nest '"@ + current_name@ + "' to"@,
        }
    }

    /// The prompt of the rename dialog.
    pub fn prompt(&self) -> (r: String)
        ensures
            r@ == self.prompt_text(),
    {
        let mut r = String::new();
        match self {
            RenameTarget::Comb { current_name, .. } => {
                r.append("Rename '");
                r.append(current_name.as_str());
            },
            RenameTarget::Nest { current_name, .. } => {
                r.append("Rename nest '");
                r.append(current_name.as_str());
            },
        }
        r.append("' to");
        r
    }

    /// The status line after a successful rename to `new_name`.
    pub open spec fn renamed_text(&self, new_name: Seq<char>) -> Seq<char> {
        match self {
            RenameTarget::Comb { current_name, .. } => "Renamed '"@ + current_name@ + "' to '"@
                + new_name + "'"@,
            RenameTarget::Nest { current_name, .. } => "Renamed nest '"@ + current_name@
                + "' to '"@ + new_name + "'"@,
        }
    }

    /// Reports the outcome of renaming this target: `renamed` is the name the
    /// comb or nest has after the rename, or why the rename failed (that error
    /// is passed on unchanged).
    pub fn apply(&self, renamed: Result<String, String>) -> (r: Result<String, String>)
        ensures
            match renamed {
                Ok(n) => r matches Ok(m) && m@ == self.renamed_text(n@),
                Err(e) => r matches Err(m) && m@ == e@,
            },
    {
        match renamed {
            Err(e) => Err(e),
            Ok(n) => {
                let mut r = String::new();
                match self {
                    RenameTarget::Comb { current_name, .. } => {
                        r.append("Renamed '");
                        r.append(current_name.as_str());
                    },
                    RenameTarget::Nest { current_name, .. } => {
                        r.append("Renamed nest '");
                        r.append(current_name.as_str());
                    },
                }
                r.append("' to '");
                r.append(n.as_str());
                r.append("'");
                Ok(r)
            },
        }
    }
}

/// Whether the item is the comb with the given id.
pub open spec fn is_comb_with_id(item: NavItem, id: Seq<char>) -> bool {
    item matches NavItem::Comb { comb, .. } && comb.id@ == id
}

/// `after` is `before` with the clone state and branch of `fresh` copied into
/// the first comb item with id `id`.
pub open spec fn comb_updated(before: Seq<NavItem>, after: Seq<NavItem>, id: Seq<char>, fresh: Comb) -> bool {
    &&& after.len() == before.len()
    &&& forall|i: int|
        0 <= i < before.len() ==> {
            let b = #[trigger] before[i];
            let a = after[i];
            if is_comb_with_id(b, id) && forall|j: int| 0 <= j < i ==> !is_comb_with_id(before[j], id) {
                match (b, a) {
                    (NavItem::Comb { hive_dir_name: h0, comb: c0 }, NavItem::Comb { hive_dir_name: h1, comb: c1 }) => h1
                        == h0 && c1 == (Comb { cloning: fresh.cloning, branch: c1.branch, ..c0 }) && c1.branch@
                        == fresh.branch@,
                    _ => false,
                }
            } else {
                a == b
            }
        }
}

/// Copies the clone state and branch of `fresh` into the first comb item with
/// id `comb_id`; every other item, and every other field, is left alone.
pub fn update_comb_in_items(items: &mut Vec<NavItem>, comb_id: &str, fresh: &Comb)
    ensures
        comb_updated(old(items)@, final(items)@, comb_id@, *fresh),
{
    let mut i: usize = 0;
    while i < items.len()
        invariant
            i <= items.len(),
            items@ == old(items)@,
            forall|j: int| 0 <= j < i ==> !is_comb_with_id(old(items)@[j], comb_id@),
        decreases items.len() - i,
    {
        let hit = match &items[i] {
            NavItem::Comb { comb, .. } => str_eq(comb.id.as_str(), comb_id),
            _ => false,
        };
        if hit {
            let ghost before = items@;
            match &mut items[i] {
                NavItem::Comb { comb, .. } => {
                    comb.cloning = fresh.cloning;
                    comb.branch = fresh.branch.clone();
                },
                _ => {},
            }
            assert forall|k: int| 0 <= k < before.len() && k != i implies items@[k] == before[k] by {}
            return ;
        }
        i = i + 1;
    }
}

/// Whether the item is a comb still being created with the given name.
pub open spec fn is_unfinished_comb_named(item: NavItem, name: Seq<char>) -> bool {
    item matches NavItem::Comb { comb, .. } && comb.name@ == name && comb.cloning
}

/// Keeps every item but an unfinished comb with the given name.
pub open spec fn keeps_item(name: Seq<char>) -> spec_fn(NavItem) -> bool {
    |it: NavItem| !is_unfinished_comb_named(it, name)
}

/// Removes the items of combs named `comb_name` that are still being created
/// (a clone or copy that failed); the other items keep their order.
pub fn remove_comb_from_items(items: &mut Vec<NavItem>, comb_name: &str)
    ensures
        final(items)@ == old(items)@.filter(keeps_item(comb_name@)),
{
    let mut kept: Vec<NavItem> = Vec::new();
    let ghost orig = items@;
    let mut rest: Vec<NavItem> = Vec::new();
    std::mem::swap(items, &mut rest);
    assert(orig.subrange(0, orig.len() as int) =~= orig);
    let ghost mut n: int = 0;
    while rest.len() > 0
        invariant
            0 <= n <= orig.len(),
            n + rest@.len() == orig.len(),
            rest@ == orig.subrange(n, orig.len() as int),
            kept@ == orig.take(n).filter(keeps_item(comb_name@)),
        decreases rest.len(),
    {
        let it = rest.remove(0);
        assert(it == orig[n]);
        let drop = match &it {
            NavItem::Comb { comb, .. } => comb.cloning && str_eq(comb.name.as_str(), comb_name),
            _ => false,
        };
        proof {
            reveal(Seq::filter);
            assert(orig.take(n + 1).drop_last() =~= orig.take(n));
            assert(orig.take(n + 1).last() == orig[n]);
            assert(drop == is_unfinished_comb_named(orig[n], comb_name@));
            assert(drop == !keeps_item(comb_name@)(orig[n]));
        }
        if !drop {
            kept.push(it);
        }
        assert(rest@ =~= orig.subrange(n + 1, orig.len() as int));
        proof {
            n = n + 1;
        }
    }
    assert(orig.take(orig.len() as int) =~= orig);
    std::mem::swap(items, &mut kept);
}

/// The activity line shown while targets are being deleted.
pub open spec fn delete_activity_text(targets: Seq<DeleteTarget>) -> Seq<char> {
    if targets.len() == 1 {
        match targets[0] {
            DeleteTarget::Comb { comb_name, .. } => "Deleting '"@ + comb_name@ + "'"@,
            DeleteTarget::Nest { nest_name, .. } => "Deleting nest '"@ + nest_name@ + "'"@,
            DeleteTarget::Hive { repo_name, .. } => "Deleting hive '"@ + repo_name@ + "'"@,
        }
    } else {
        "Deleting "@ + crate::text::dec_chars(targets.len()) + " combs"@
    }
}

/// The activity line shown while targets are being deleted.
pub fn delete_activity(targets: &[DeleteTarget]) -> (r: String)
    ensures
        r@ == delete_activity_text(targets@),
{
    let mut r = String::new();
    if targets.len() == 1 {
        match &targets[0] {
            DeleteTarget::Comb { comb_name, .. } => {
                r.append("Deleting '");
                r.append(comb_name.as_str());
            },
            DeleteTarget::Nest { nest_name, .. } => {
                r.append("Deleting nest '");
                r.append(nest_name.as_str());
            },
            DeleteTarget::Hive { repo_name, .. } => {
                r.append("Deleting hive '");
                r.append(repo_name.as_str());
            },
        }
        r.append("'");
    } else {
        r.append("Deleting ");
        let digits = crate::text::usize_text(targets.len());
        r.append(digits.as_str());
        r.append(" combs");
    }
    r
}

} // verus!
