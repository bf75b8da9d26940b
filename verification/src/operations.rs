//! Long-running operations on combs (cloning, deleting): the flags kept in
//! the hive's state while they run, and the steps of a clone.

use vstd::prelude::*;

use crate::model::{Comb, Nest};
use crate::settings::{comb_index, comb_position};
use crate::text::{from_utf8_lossy, to_owned_string, utf8_lossy};

verus! {

/// Why `mark_deleting` refused.
pub open spec fn busy_message() -> Seq<char> {
    "Comb already has an operation in progress"@
}

/// Marks the first comb with id `comb_id` as being deleted. Refused when the
/// comb already has an operation in progress; returns whether a comb was
/// marked (none has the id: nothing changes).
pub fn mark_deleting(combs: &mut Vec<Comb>, comb_id: &String) -> (r: Result<bool, String>)
    ensures
        match comb_index(old(combs)@, comb_id@) {
            None => r == Ok::<bool, String>(false) && final(combs)@ == old(combs)@,
            Some(i) => if old(combs)@[i].operation is Some {
                r matches Err(m) && m@ == busy_message() && final(combs)@ == old(combs)@
            } else {
                &&& r == Ok::<bool, String>(true)
                &&& final(combs)@.len() == old(combs)@.len()
                &&& forall|j: int| 0 <= j < old(combs)@.len() && j != i ==> #[trigger] final(combs)@[j] == old(combs)@[j]
                &&& final(combs)@[i] == Comb { operation: final(combs)@[i].operation, ..old(combs)@[i] }
                &&& final(combs)@[i].operation matches Some(op) && op@ == "deleting"@
            },
        },
{
    proof {
        crate::settings::lemma_comb_index(combs@, comb_id@);
    }
    match comb_position(combs, comb_id) {
        None => Ok(false),
        Some(i) => {
            if combs[i].operation.is_some() {
                return Err(to_owned_string("Comb already has an operation in progress"));
            }
            let op = to_owned_string("deleting");
            let c = &mut combs[i];
            c.operation = Some(op);
            Ok(true)
        },
    }
}

/// Ends the operation on the first comb with id `comb_id` (a delete that
/// failed); nothing changes when no comb has the id.
pub fn clear_operation(combs: &mut Vec<Comb>, comb_id: &String)
    ensures
        match comb_index(old(combs)@, comb_id@) {
            None => final(combs)@ == old(combs)@,
            Some(i) => final(combs)@ == old(combs)@.update(i, Comb { operation: None, ..old(combs)@[i] }),
        },
{
    proof {
        crate::settings::lemma_comb_index(combs@, comb_id@);
    }
    match comb_position(combs, comb_id) {
        None => {},
        Some(i) => {
            let c = &mut combs[i];
            c.operation = None;
        },
    }
}

/// Marks the first comb with id `comb_id` as ready (a clone or copy that
/// finished); nothing changes when no comb has the id.
pub fn finish_operation(combs: &mut Vec<Comb>, comb_id: &String)
    ensures
        match comb_index(old(combs)@, comb_id@) {
            None => final(combs)@ == old(combs)@,
            Some(i) => final(combs)@ == old(combs)@.update(
                i,
                Comb { cloning: false, operation: None, ..old(combs)@[i] },
            ),
        },
{
    proof {
        crate::settings::lemma_comb_index(combs@, comb_id@);
    }
    match comb_position(combs, comb_id) {
        None => {},
        Some(i) => {
            let c = &mut combs[i];
            c.cloning = false;
            c.operation = None;
        },
    }
}

/// Keeps every comb but those with the given id.
pub open spec fn keeps_comb(id: Seq<char>) -> spec_fn(Comb) -> bool {
    |c: Comb| c.id@ != id
}

/// Removes the combs with id `comb_id` (a finished delete, or a clone that
/// failed); the others keep their order.
pub fn remove_comb(combs: &mut Vec<Comb>, comb_id: &String)
    ensures
        final(combs)@ == old(combs)@.filter(keeps_comb(comb_id@)),
{
    let ghost orig = combs@;
    let mut rest: Vec<Comb> = Vec::new();
    std::mem::swap(combs, &mut rest);
    let mut kept: Vec<Comb> = Vec::new();
    let ghost mut n: int = 0;
    assert(orig.subrange(0, orig.len() as int) =~= orig);
    while rest.len() > 0
        invariant
            0 <= n <= orig.len(),
            n + rest@.len() == orig.len(),
            rest@ == orig.subrange(n, orig.len() as int),
            kept@ == orig.take(n).filter(keeps_comb(comb_id@)),
        decreases rest.len(),
    {
        let c = rest.remove(0);
        assert(c == orig[n]);
        let drop = crate::text::str_eq(c.id.as_str(), comb_id.as_str());
        proof {
            reveal(Seq::filter);
            assert(orig.take(n + 1).drop_last() =~= orig.take(n));
            assert(orig.take(n + 1).last() == orig[n]);
            assert(drop == !keeps_comb(comb_id@)(orig[n]));
        }
        if !drop {
            kept.push(c);
        }
        assert(rest@ =~= orig.subrange(n + 1, orig.len() as int));
        proof {
            n = n + 1;
        }
    }
    assert(orig.take(orig.len() as int) =~= orig);
    std::mem::swap(combs, &mut kept);
}

/// Keeps every nest but those with the given id.
pub open spec fn keeps_nest(id: Seq<char>) -> spec_fn(Nest) -> bool {
    |n: Nest| n.id@ != id
}

/// A comb once nest `id` is gone: out of any nest when it was in that one.
pub open spec fn unnested(c: Comb, id: Seq<char>) -> Comb {
    if c.nest_id matches Some(n) && n@ == id {
        Comb { nest_id: None, ..c }
    } else {
        c
    }
}

/// Deletes nest `nest_id` of a hive: the nest goes, and its combs stay in
/// the hive outside any nest; the rest keeps its order.
pub fn drop_nest(nests: &mut Vec<Nest>, combs: &mut Vec<Comb>, nest_id: &String)
    ensures
        final(nests)@ == old(nests)@.filter(keeps_nest(nest_id@)),
        final(combs)@ == old(combs)@.map_values(|c: Comb| unnested(c, nest_id@)),
{
    let ghost orig = nests@;
    let mut rest: Vec<Nest> = Vec::new();
    std::mem::swap(nests, &mut rest);
    let mut kept: Vec<Nest> = Vec::new();
    let ghost mut n: int = 0;
    assert(orig.subrange(0, orig.len() as int) =~= orig);
    while rest.len() > 0
        invariant
            0 <= n <= orig.len(),
            n + rest@.len() == orig.len(),
            rest@ == orig.subrange(n, orig.len() as int),
            kept@ == orig.take(n).filter(keeps_nest(nest_id@)),
        decreases rest.len(),
    {
        let x = rest.remove(0);
        assert(x == orig[n]);
        let drop = crate::text::str_eq(x.id.as_str(), nest_id.as_str());
        proof {
            reveal(Seq::filter);
            assert(orig.take(n + 1).drop_last() =~= orig.take(n));
            assert(orig.take(n + 1).last() == orig[n]);
            assert(drop == !keeps_nest(nest_id@)(orig[n]));
        }
        if !drop {
            kept.push(x);
        }
        assert(rest@ =~= orig.subrange(n + 1, orig.len() as int));
        proof {
            n = n + 1;
        }
    }
    assert(orig.take(orig.len() as int) =~= orig);
    std::mem::swap(nests, &mut kept);

    let ghost before = combs@;
    let mut i: usize = 0;
    while i < combs.len()
        invariant
            i <= combs@.len(),
            combs@.len() == before.len(),
            forall|k: int| 0 <= k < i ==> combs@[k] == unnested(before[k], nest_id@),
            forall|k: int| i <= k < combs@.len() ==> combs@[k] == before[k],
        decreases combs.len() - i,
    {
        let hit = match &combs[i].nest_id {
            Some(x) => crate::text::str_eq(x.as_str(), nest_id.as_str()),
            None => false,
        };
        if hit {
            let c = &mut combs[i];
            c.nest_id = None;
        }
        i = i + 1;
    }
    assert(combs@ =~= before.map_values(|c: Comb| unnested(c, nest_id@)));
}

/// How a command ended.
pub enum CommandOutcome {
    /// It ran; whether it succeeded, and what it wrote to standard error.
    Ran { success: bool, stderr: Vec<u8> },
    /// It could not be started; why.
    NotStarted(String),
}

/// The step of a clone that a command outcome answers.
#[derive(Clone, Copy, Debug, PartialEq, Eq, Structural)]
pub enum CloneStage {
    /// `git clone <url> <dir>`.
    Cloning,
    /// `git checkout <branch>`.
    CheckingOut,
    /// `git checkout -b <branch>`, when the branch does not exist yet.
    CreatingBranch,
}

/// What to do after a step of a clone.
pub enum CloneAction {
    /// Run `git checkout <branch>` in the new comb.
    Checkout,
    /// Run `git checkout -b <branch>` in the new comb.
    CreateBranch,
    /// The comb is ready.
    Succeeded,
    /// The clone failed: drop the comb and its directory, and report this.
    Failed(String),
}

/// The view of a clone action.
pub enum CloneActionView {
    Checkout,
    CreateBranch,
    Succeeded,
    Failed(Seq<char>),
}

pub open spec fn clone_action_view(a: CloneAction) -> CloneActionView {
    match a {
        CloneAction::Checkout => CloneActionView::Checkout,
        CloneAction::CreateBranch => CloneActionView::CreateBranch,
        CloneAction::Succeeded => CloneActionView::Succeeded,
        CloneAction::Failed(m) => CloneActionView::Failed(m@),
    }
}

/// The next step of a clone: after a clone, check the branch out; if that
/// fails, create the branch; any other failure ends the clone with a message.
pub open spec fn clone_step_spec(stage: CloneStage, outcome: CommandOutcome, branch: Seq<char>) -> CloneActionView {
    match stage {
        CloneStage::Cloning => match outcome {
            CommandOutcome::Ran { success, stderr } => if success {
                CloneActionView::Checkout
            } else {
                CloneActionView::Failed("Git clone failed: "@ + utf8_lossy(stderr@))
            },
            CommandOutcome::NotStarted(e) => CloneActionView::Failed("Clone failed: "@ + e@),
        },
        CloneStage::CheckingOut => match outcome {
            CommandOutcome::Ran { success, .. } => if success {
                CloneActionView::Succeeded
            } else {
                CloneActionView::CreateBranch
            },
            CommandOutcome::NotStarted(_) => CloneActionView::CreateBranch,
        },
        CloneStage::CreatingBranch => match outcome {
            CommandOutcome::Ran { success, stderr } => if success {
                CloneActionView::Succeeded
            } else {
                CloneActionView::Failed(
                    "Failed to checkout branch '"@ + branch + "': "@ + utf8_lossy(stderr@),
                )
            },
            CommandOutcome::NotStarted(e) => CloneActionView::Failed("Checkout -b failed: "@ + e@),
        },
    }
}

/// Decides the next step of a clone from how the last command ended.
pub fn clone_step(stage: CloneStage, outcome: &CommandOutcome, branch: &str) -> (r: CloneAction)
    ensures
        clone_action_view(r) == clone_step_spec(stage, *outcome, branch@),
{
    match stage {
        CloneStage::Cloning => match outcome {
            CommandOutcome::Ran { success, stderr } => {
                if *success {
                    CloneAction::Checkout
                } else {
                    let mut m = String::new();
                    m.append("Git clone failed: ");
                    let err = from_utf8_lossy(stderr.as_slice());
                    m.append(err.as_str());
                    CloneAction::Failed(m)
                }
            },
            CommandOutcome::NotStarted(e) => {
                let mut m = String::new();
                m.append("Clone failed: ");
                m.append(e.as_str());
                CloneAction::Failed(m)
            },
        },
        CloneStage::CheckingOut => match outcome {
            CommandOutcome::Ran { success, .. } => {
                if *success {
                    CloneAction::Succeeded
                } else {
                    CloneAction::CreateBranch
                }
            },
            CommandOutcome::NotStarted(_) => CloneAction::CreateBranch,
        },
        CloneStage::CreatingBranch => match outcome {
            CommandOutcome::Ran { success, stderr } => {
                if *success {
                    CloneAction::Succeeded
                } else {
                    let mut m = String::new();
                    m.append("Failed to checkout branch '");
                    m.append(branch);
                    m.append("': ");
                    let err = from_utf8_lossy(stderr.as_slice());
                    m.append(err.as_str());
                    CloneAction::Failed(m)
                }
            },
            CommandOutcome::NotStarted(e) => {
                let mut m = String::new();
                m.append("Checkout -b failed: ");
                m.append(e.as_str());
                CloneAction::Failed(m)
            },
        },
    }
}

/// The first line of a command's error output, or `unknown` when it wrote
/// nothing.
pub open spec fn first_error_line(stderr: Seq<u8>) -> Seq<char> {
    let e = utf8_lossy(stderr);
    if e.len() == 0 {
        "unknown"@
    } else {
        crate::settings::first_line(e)
    }
}

/// The next step of a clone made from the terminal UI: after a clone, check
/// the branch out; if that fails, create the branch; any other failure ends
/// the clone with a message.
pub open spec fn cli_clone_step_spec(stage: CloneStage, outcome: CommandOutcome, branch: Seq<char>) -> CloneActionView {
    match stage {
        CloneStage::Cloning => match outcome {
            CommandOutcome::Ran { success, stderr } => if success {
                CloneActionView::Checkout
            } else {
                CloneActionView::Failed("Clone failed: "@ + first_error_line(stderr@))
            },
            CommandOutcome::NotStarted(e) => CloneActionView::Failed("Clone failed: "@ + e@),
        },
        CloneStage::CheckingOut => match outcome {
            CommandOutcome::Ran { success, .. } => if success {
                CloneActionView::Succeeded
            } else {
                CloneActionView::CreateBranch
            },
            CommandOutcome::NotStarted(e) => CloneActionView::Failed("Checkout failed: "@ + e@),
        },
        CloneStage::CreatingBranch => match outcome {
            CommandOutcome::Ran { success, .. } => if success {
                CloneActionView::Succeeded
            } else {
                CloneActionView::Failed("Branch '"@ + branch + "' failed"@)
            },
            CommandOutcome::NotStarted(e) => CloneActionView::Failed("Checkout -b failed: "@ + e@),
        },
    }
}

/// Decides the next step of a clone made from the terminal UI, from how the
/// last command ended.
pub fn cli_clone_step(stage: CloneStage, outcome: &CommandOutcome, branch: &str) -> (r: CloneAction)
    ensures
        clone_action_view(r) == cli_clone_step_spec(stage, *outcome, branch@),
{
    let mut m = String::new();
    match stage {
        CloneStage::Cloning => match outcome {
            CommandOutcome::Ran { success, stderr } => {
                if *success {
                    return CloneAction::Checkout;
                }
                m.append("Clone failed: ");
                let err = from_utf8_lossy(stderr.as_slice());
                if crate::text::str_chars(err.as_str()).len() == 0 {
                    m.append("unknown");
                } else {
                    m.append(crate::settings::text_first_line(err.as_str()).as_str());
                }
            },
            CommandOutcome::NotStarted(e) => {
                m.append("Clone failed: ");
                m.append(e.as_str());
            },
        },
        CloneStage::CheckingOut => match outcome {
            CommandOutcome::Ran { success, .. } => {
                return if *success {
                    CloneAction::Succeeded
                } else {
                    CloneAction::CreateBranch
                };
            },
            CommandOutcome::NotStarted(e) => {
                m.append("Checkout failed: ");
                m.append(e.as_str());
            },
        },
        CloneStage::CreatingBranch => match outcome {
            CommandOutcome::Ran { success, .. } => {
                if *success {
                    return CloneAction::Succeeded;
                }
                m.append("Branch '");
                m.append(branch);
                m.append("' failed");
            },
            CommandOutcome::NotStarted(e) => {
                m.append("Checkout -b failed: ");
                m.append(e.as_str());
            },
        },
    }
    CloneAction::Failed(m)
}

/// Whether `a` is a step that a clone at `stage` may take: a checkout only
/// right after the clone, creating the branch only after a failed checkout,
/// and nothing but the end after creating the branch.
pub open spec fn forward_step(stage: CloneStage, a: CloneActionView) -> bool {
    match a {
        CloneActionView::Checkout => stage == CloneStage::Cloning,
        CloneActionView::CreateBranch => stage == CloneStage::CheckingOut,
        _ => true,
    }
}

/// A clone runs at most three commands: each decision moves it forward
/// (clone, checkout, create the branch) or ends it, for the desktop app's
/// clones and the terminal UI's alike.
pub proof fn lemma_clone_moves_forward(stage: CloneStage, outcome: CommandOutcome, branch: Seq<char>)
    ensures
        forward_step(stage, clone_step_spec(stage, outcome, branch)),
        forward_step(stage, cli_clone_step_spec(stage, outcome, branch)),
{
}

/// `marked` is `before` with a delete begun on the comb with id `id`, as
/// `mark_deleting` does it when it succeeds.
pub open spec fn delete_begun(before: Seq<Comb>, marked: Seq<Comb>, id: Seq<char>) -> bool {
    match comb_index(before, id) {
        Some(i) => {
            &&& before[i].operation is None
            &&& marked.len() == before.len()
            &&& forall|j: int| 0 <= j < before.len() && j != i ==> #[trigger] marked[j] == before[j]
            &&& marked[i] == (Comb { operation: marked[i].operation, ..before[i] })
        },
        None => false,
    }
}

/// `after` is `marked` with the operation on the comb with id `id` ended, as
/// `clear_operation` does it.
pub open spec fn operation_cleared(marked: Seq<Comb>, after: Seq<Comb>, id: Seq<char>) -> bool {
    match comb_index(marked, id) {
        Some(k) => after == marked.update(k, Comb { operation: None, ..marked[k] }),
        None => after == marked,
    }
}

/// A delete that fails leaves the combs as they were before it began:
/// marking a comb for deletion and then clearing the mark restores the list.
pub proof fn lemma_failed_delete_restores(before: Seq<Comb>, marked: Seq<Comb>, after: Seq<Comb>, id: Seq<char>)
    requires
        delete_begun(before, marked, id),
        operation_cleared(marked, after, id),
    ensures
        after == before,
{
    let i = comb_index(before, id)->0;
    crate::settings::lemma_comb_index(before, id);
    crate::settings::lemma_comb_index(marked, id);
    assert(marked[i].id == before[i].id);
    assert forall|t: int| 0 <= t < i implies marked[t].id@ != id by {
        assert(marked[t] == before[t]);
    }
    crate::settings::lemma_comb_index_is(marked, id, i);
    assert(after =~= before);
}

} // verus!
