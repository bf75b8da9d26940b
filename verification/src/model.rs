//! The data kept on disk for a beehive: hives (linked repositories), nests
//! (groups of combs) and combs (workspace clones), and the app configuration.

use vstd::prelude::*;

verus! {

/// A command button shown for a hive.
pub struct CustomButton {
    pub label: String,
    pub cmd: String,
}

/// A named group of combs inside a hive.
pub struct Nest {
    pub id: String,
    pub name: String,
}

/// The metadata of a linked repository.
pub struct HiveInfo {
    pub dir_name: String,
    pub repo_url: String,
    pub repo_name: String,
    pub owner: String,
    pub description: Option<String>,
    pub default_branch: Option<String>,
    pub custom_buttons: Vec<CustomButton>,
}

/// A saved pane of a comb's layout.
pub struct PaneConfig {
    pub id: String,
    pub pane_type: String,
    pub cmd: Option<String>,
    pub args: Option<Vec<String>>,
}

/// A workspace: a clone of the hive's repository on one branch.
pub struct Comb {
    pub id: String,
    pub name: String,
    pub branch: String,
    pub path: String,
    pub created_at: String,
    pub nest_id: Option<String>,
    pub panes: Vec<PaneConfig>,
    /// Set while the comb is still being created.
    pub cloning: bool,
    /// The operation in progress on the comb ("cloning", "copying", "deleting").
    pub operation: Option<String>,
}

/// The state file of a hive.
pub struct HiveState {
    pub info: HiveInfo,
    pub nests: Vec<Nest>,
    pub combs: Vec<Comb>,
}

/// The app-level configuration.
pub struct AppConfig {
    pub beehive_dir: Option<String>,
    pub mux_preference: Option<String>,
    pub cli_command: Option<String>,
    pub comb_startup_command: Option<String>,
    pub sidebar_width: u16,
}

/// The marker file of a beehive directory.
pub struct BeehiveConfig {
    pub version: u32,
    pub beehive_dir: String,
}

impl HiveInfo {
    /// Equal in every field (lists compared by content).
    pub open spec fn same(self, other: HiveInfo) -> bool {
        &&& self.dir_name == other.dir_name
        &&& self.repo_url == other.repo_url
        &&& self.repo_name == other.repo_name
        &&& self.owner == other.owner
        &&& self.description == other.description
        &&& self.default_branch == other.default_branch
        &&& self.custom_buttons@ == other.custom_buttons@
    }
}

impl PaneConfig {
    /// Equal in every field (the argument list compared by content).
    pub open spec fn same(self, other: PaneConfig) -> bool {
        &&& self.id == other.id
        &&& self.pane_type == other.pane_type
        &&& self.cmd == other.cmd
        &&& self.args is Some == other.args is Some
        &&& self.args matches Some(a) ==> a@ == other.args->0@
    }
}

impl Comb {
    /// Equal in every field (lists compared by content).
    pub open spec fn same(self, other: Comb) -> bool {
        &&& self.id == other.id
        &&& self.name == other.name
        &&& self.branch == other.branch
        &&& self.path == other.path
        &&& self.created_at == other.created_at
        &&& self.nest_id == other.nest_id
        &&& self.panes@.len() == other.panes@.len()
        &&& forall|i: int| 0 <= i < self.panes@.len() ==> #[trigger] self.panes@[i].same(other.panes@[i])
        &&& self.cloning == other.cloning
        &&& self.operation == other.operation
    }
}

pub fn clone_opt_string(o: &Option<String>) -> (r: Option<String>)
    ensures
        r == *o,
{
    match o {
        Some(s) => Some(s.clone()),
        None => None,
    }
}

pub fn clone_strings(v: &Vec<String>) -> (r: Vec<String>)
    ensures
        r@ == v@,
{
    let mut r: Vec<String> = Vec::new();
    let mut i: usize = 0;
    while i < v.len()
        invariant
            i <= v.len(),
            r@ == v@.take(i as int),
        decreases v.len() - i,
    {
        r.push(v[i].clone());
        assert(v@.take(i + 1) =~= v@.take(i as int).push(v@[i as int]));
        i = i + 1;
    }
    assert(v@.take(v.len() as int) =~= v@);
    r
}

impl Clone for CustomButton {
    fn clone(&self) -> (r: Self)
        ensures
            r == *self,
    {
        CustomButton { label: self.label.clone(), cmd: self.cmd.clone() }
    }
}

impl Clone for Nest {
    fn clone(&self) -> (r: Self)
        ensures
            r == *self,
    {
        Nest { id: self.id.clone(), name: self.name.clone() }
    }
}

impl Clone for PaneConfig {
    fn clone(&self) -> (r: Self)
        ensures
            r.same(*self),
    {
        let args = match &self.args {
            Some(a) => Some(clone_strings(a)),
            None => None,
        };
        PaneConfig {
            id: self.id.clone(),
            pane_type: self.pane_type.clone(),
            cmd: clone_opt_string(&self.cmd),
            args,
        }
    }
}

pub fn clone_buttons(v: &Vec<CustomButton>) -> (r: Vec<CustomButton>)
    ensures
        r@ == v@,
{
    let r = v.clone();
    assert(r@ =~= v@);
    r
}

pub fn clone_panes(v: &Vec<PaneConfig>) -> (r: Vec<PaneConfig>)
    ensures
        r@.len() == v@.len(),
        forall|i: int| 0 <= i < v@.len() ==> #[trigger] r@[i].same(v@[i]),
{
    let mut r: Vec<PaneConfig> = Vec::new();
    let mut i: usize = 0;
    while i < v.len()
        invariant
            i <= v.len(),
            r@.len() == i,
            forall|j: int| 0 <= j < i ==> #[trigger] r@[j].same(v@[j]),
        decreases v.len() - i,
    {
        r.push(v[i].clone());
        i = i + 1;
    }
    r
}

impl Clone for HiveInfo {
    fn clone(&self) -> (r: Self)
        ensures
            r.same(*self),
    {
        HiveInfo {
            dir_name: self.dir_name.clone(),
            repo_url: self.repo_url.clone(),
            repo_name: self.repo_name.clone(),
            owner: self.owner.clone(),
            description: clone_opt_string(&self.description),
            default_branch: clone_opt_string(&self.default_branch),
            custom_buttons: clone_buttons(&self.custom_buttons),
        }
    }
}

impl Clone for Comb {
    fn clone(&self) -> (r: Self)
        ensures
            r.same(*self),
    {
        Comb {
            id: self.id.clone(),
            name: self.name.clone(),
            branch: self.branch.clone(),
            path: self.path.clone(),
            created_at: self.created_at.clone(),
            nest_id: clone_opt_string(&self.nest_id),
            panes: clone_panes(&self.panes),
            cloning: self.cloning,
            operation: clone_opt_string(&self.operation),
        }
    }
}

pub fn clone_nests(v: &Vec<Nest>) -> (r: Vec<Nest>)
    ensures
        r@ == v@,
{
    let r = v.clone();
    assert(r@ =~= v@);
    r
}

pub fn clone_combs(v: &Vec<Comb>) -> (r: Vec<Comb>)
    ensures
        r@.len() == v@.len(),
        forall|i: int| 0 <= i < v@.len() ==> r@[i].same(v@[i]),
{
    let mut r: Vec<Comb> = Vec::new();
    let mut i: usize = 0;
    while i < v.len()
        invariant
            i <= v.len(),
            r@.len() == i,
            forall|j: int| 0 <= j < i ==> r@[j].same(v@[j]),
        decreases v.len() - i,
    {
        r.push(v[i].clone());
        i = i + 1;
    }
    r
}

} // verus!
