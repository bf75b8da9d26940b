//! What a key does to the UI state while items are marked for deletion or a
//! comb is being moved; the work it starts (deleting, saving the order,
//! refreshing) is handed back to the caller.

use vstd::prelude::*;

use crate::keymap::{
    delete_command, delete_mode_key, move_command, moving_comb_key, restored_selection, DeleteModeCommand,
    MoveCommand,
};
use crate::finder::CombFinderTarget;
use crate::events::{insert_str_at, paste_text};
use crate::keys::KeyCode;
use crate::pickers::{
    finder_list, lemma_finder_shows_unique, branch_picker_key, branch_step, branches_shown, comb_finder_key, finder_shows, finder_step, BranchKeyOutcome,
    FinderKeyOutcome,
};
use crate::keymap::confirm_key;
use crate::pickers::{input_edit, input_key, InputKeyOutcome};
use crate::state::{AppMode, ConfirmAction, DeleteTarget, InputAction, RenameTarget};
use crate::text::to_owned_string;
use crate::model::{Comb, Nest};
use crate::sidebar::reveal_done;
use crate::tui::{
    delete_moved, is_comb_id, marked_targets, moved_down, moved_up, status_is, target_view, toggle_outcome, App,
};

verus! {

/// The targets marked in delete mode, in item order (none in another mode).
pub open spec fn marked_of(app: App) -> Seq<(int, Seq<char>, Seq<char>, Seq<char>)> {
    match app.mode {
        AppMode::DeleteCombSelection { hive_dir_name, selected_comb_ids, selected_nest_ids } => marked_targets(
            app.items@,
            app.items@.len() as int,
            hive_dir_name@,
            selected_comb_ids@,
            selected_nest_ids@,
        ),
        _ => Seq::empty(),
    }
}

/// `after` and `r` are what a key `code` of delete mode gives from `before`.
pub open spec fn delete_key_done(before: App, after: App, code: KeyCode, r: Option<Vec<DeleteTarget>>) -> bool {
    &&& after.wf()
    &&& match delete_command(code) {
                DeleteModeCommand::Cancel => r is None && after == (App {
                    mode: AppMode::Normal,
                    status_message: after.status_message,
                    ..before
                }) && status_is(after.status_message, "Delete cancelled"@),
                DeleteModeCommand::Up => r is None && delete_moved(
                    App { status_message: None, ..before },
                    after,
                    false,
                ),
                DeleteModeCommand::Down => r is None && delete_moved(
                    App { status_message: None, ..before },
                    after,
                    true,
                ),
                DeleteModeCommand::Toggle => r is None && after.items == before.items && after.selected
                    == before.selected && after.focus == before.focus && toggle_outcome(
                    App { status_message: None, ..before },
                    after,
                ),
                DeleteModeCommand::Confirm => if marked_of(before).len() == 0 {
                    r is None && after == (App { status_message: after.status_message, ..before })
                        && status_is(after.status_message, "No combs selected for delete"@)
                } else {
                    (r matches Some(v) && v@.map_values(|t: DeleteTarget| target_view(t)) == marked_of(before))
                        && after == (App { mode: AppMode::Normal, ..before })
                },
                DeleteModeCommand::Nothing => r is None && after == before,
            }
}

/// Applies a key of delete mode: Esc leaves it, the arrows (and `k`, `j`)
/// move to the previous or next item that can be marked, `d` marks or
/// unmarks the selected item, Enter leaves the mode and returns the marked
/// items to delete (or says that none is marked).
pub fn handle_delete_mode(app: &mut App, code: &KeyCode) -> (r: Option<Vec<DeleteTarget>>)
    requires
        old(app).wf(),
    ensures
        delete_key_done(*old(app), *final(app), *code, r),
{
    match delete_mode_key(code) {
        DeleteModeCommand::Cancel => {
            app.mode = AppMode::Normal;
            app.status_message = Some(to_owned_string("Delete cancelled"));
            None
        },
        DeleteModeCommand::Up => {
            app.status_message = None;
            app.move_delete_selection_up();
            None
        },
        DeleteModeCommand::Down => {
            app.status_message = None;
            app.move_delete_selection_down();
            None
        },
        DeleteModeCommand::Toggle => {
            app.status_message = None;
            app.toggle_delete_selection();
            None
        },
        DeleteModeCommand::Confirm => {
            let targets = app.selected_delete_targets();
            if targets.len() == 0 {
                app.status_message = Some(to_owned_string("No combs selected for delete"));
                None
            } else {
                app.mode = AppMode::Normal;
                Some(targets)
            }
        },
        DeleteModeCommand::Nothing => None,
    }
}

/// What is left to do after a key of move mode.
pub enum MoveStep {
    /// Nothing.
    Stay,
    /// Save the order of the combs of the hive: read its state, order its
    /// combs with `App::comb_order_for_hive`, write the order, then report
    /// with `App::finish_order_save`.
    SaveOrder { hive_dir_name: String },
    /// Run the refresh that was deferred during the move.
    Refresh,
}

/// Whether `s` is where the selection lands when it is put back on comb
/// `id`: its first item when shown, else where it was.
pub open spec fn synced_to(app: App, id: Seq<char>, s: usize) -> bool {
    if exists|i: int| 0 <= i < app.items@.len() && #[trigger] is_comb_id(app.items@[i], id) {
        &&& s < app.items@.len()
        &&& is_comb_id(app.items@[s as int], id)
        &&& forall|j: int| 0 <= j < s ==> !is_comb_id(#[trigger] app.items@[j], id)
    } else {
        s == app.selected
    }
}

/// `after` and `r` are what a key `code` of move mode gives from `before`.
pub open spec fn move_key_done(before: App, after: App, code: KeyCode, r: MoveStep) -> bool {
    &&& match before.mode {
                AppMode::MovingComb { hive_dir_name, moving_comb_id, original_items, original_selected } => exists|
                    s: usize,
                |
                    #[trigger] synced_to(before, moving_comb_id@, s) && {
                        let mid = App { selected: s, ..before };
                        match move_command(code) {
                            MoveCommand::Up => r is Stay && moved_up(mid, after),
                            MoveCommand::Down => r is Stay && moved_down(mid, after),
                            MoveCommand::Save => (r matches MoveStep::SaveOrder { hive_dir_name: h } && h@
                                == hive_dir_name@) && after == (App { mode: AppMode::Normal, ..mid }),
                            MoveCommand::Cancel => {
                                &&& after == (App {
                                    items: original_items,
                                    selected: after.selected,
                                    mode: AppMode::Normal,
                                    status_message: after.status_message,
                                    needs_refresh: false,
                                    ..mid
                                })
                                &&& after.selected == (if original_items@.len() == 0 {
                                    0
                                } else if original_selected < original_items@.len() - 1 {
                                    original_selected as int
                                } else {
                                    original_items@.len() - 1
                                })
                                &&& status_is(after.status_message, "Move cancelled"@)
                                &&& if before.needs_refresh {
                                    r is Refresh
                                } else {
                                    r is Stay
                                }
                            },
                            MoveCommand::Nothing => r is Stay && after == mid,
                        }
                    },
                _ => r is Stay && after == before,
            }
}

/// Applies a key of move mode: the selection is first put back on the comb
/// being moved; the arrows (and `k`, `j`) move it up or down, `m` or Enter
/// leaves the mode and asks to save the order, Esc leaves it restoring the
/// items and the selection from before the move (and asks for the refresh
/// deferred meanwhile, if any).
pub fn handle_moving_comb(app: &mut App, code: &KeyCode) -> (r: MoveStep)
    ensures
        move_key_done(*old(app), *final(app), *code, r),
{
    let id = match &app.mode {
        AppMode::MovingComb { moving_comb_id, .. } => moving_comb_id.clone(),
        _ => return MoveStep::Stay,
    };
    let ghost before = *app;
    let _ = app.select_comb_by_id(id.as_str());
    let ghost mid = *app;
    assert(synced_to(before, id@, mid.selected));
    match moving_comb_key(code) {
        MoveCommand::Up => {
            app.move_comb_up();
            MoveStep::Stay
        },
        MoveCommand::Down => {
            app.move_comb_down();
            MoveStep::Stay
        },
        MoveCommand::Save => {
            let mut mode = AppMode::Normal;
            std::mem::swap(&mut mode, &mut app.mode);
            match mode {
                AppMode::MovingComb { hive_dir_name, .. } => MoveStep::SaveOrder { hive_dir_name },
                _ => MoveStep::Stay,
            }
        },
        MoveCommand::Cancel => {
            let mut mode = AppMode::Normal;
            std::mem::swap(&mut mode, &mut app.mode);
            match mode {
                AppMode::MovingComb { original_items, original_selected, .. } => {
                    let n = original_items.len();
                    app.items = original_items;
                    app.selected = restored_selection(original_selected, n);
                    app.status_message = Some(to_owned_string("Move cancelled"));
                },
                _ => {},
            }
            if app.needs_refresh {
                app.needs_refresh = false;
                MoveStep::Refresh
            } else {
                MoveStep::Stay
            }
        },
        MoveCommand::Nothing => MoveStep::Stay,
    }
}

/// The keys of a move that neither save nor cancel keep the mode, and with
/// it what was saved when the move started.
proof fn lemma_move_mode_kept(states: Seq<App>, codes: Seq<KeyCode>, steps: Seq<MoveStep>, n: int)
    requires
        states.len() == codes.len() + 1,
        steps.len() == codes.len(),
        0 <= n < states.len(),
        states[0].mode is MovingComb,
        forall|k: int|
            0 <= k < codes.len() ==> #[trigger] move_key_done(states[k], states[k + 1], codes[k], steps[k]),
        forall|k: int|
            0 <= k < n ==> !(#[trigger] move_command(codes[k]) is Save || move_command(codes[k]) is Cancel),
    ensures
        states[n].mode == states[0].mode,
    decreases n,
{
    if n > 0 {
        let k = n - 1;
        lemma_move_mode_kept(states, codes, steps, k);
        assert(move_key_done(states[k], states[k + 1], codes[k], steps[k]));
        assert(!(move_command(codes[k]) is Save || move_command(codes[k]) is Cancel));
    }
}

/// Cancelling a move restores the sidebar: once a move has started from
/// `start` (`states[0]`), whatever arrow keys follow (`codes`, giving the
/// next states), Esc brings back the items (each with the same content) and
/// the selection of `start`, and leaves move mode.
pub proof fn lemma_cancel_move_restores(start: App, states: Seq<App>, codes: Seq<KeyCode>, steps: Seq<MoveStep>)
    requires
        start.wf(),
        start.mode is Normal,
        codes.len() >= 1,
        states.len() == codes.len() + 1,
        steps.len() == codes.len(),
        crate::sidebar::move_started(start, states[0]),
        states[0].mode is MovingComb,
        forall|k: int|
            0 <= k < codes.len() ==> #[trigger] move_key_done(states[k], states[k + 1], codes[k], steps[k]),
        forall|k: int|
            0 <= k < codes.len() - 1 ==> !(#[trigger] move_command(codes[k]) is Save || move_command(
                codes[k],
            ) is Cancel),
        move_command(codes.last()) is Cancel,
    ensures
        states.last().mode is Normal,
        states.last().items@.len() == start.items@.len(),
        forall|i: int|
            0 <= i < start.items@.len() ==> #[trigger] crate::sidebar::item_same(
                states.last().items@[i],
                start.items@[i],
            ),
        states.last().selected == start.selected,
{
    let n = codes.len() - 1;
    lemma_move_mode_kept(states, codes, steps, n);
    assert(move_key_done(states[n], states[n + 1], codes[n], steps[n]));
    assert(states.last() == states[n + 1]);
}

impl App {
    /// Reports how saving the order went (`saved`, from writing it to the
    /// hive's state) and returns whether the refresh deferred during the move
    /// is now due (it is then no longer pending).
    pub fn finish_order_save(&mut self, saved: Result<(), String>) -> (refresh: bool)
        ensures
            refresh == old(self).needs_refresh,
            *final(self) == (App { status_message: final(self).status_message, needs_refresh: false, ..*old(self) }),
            match saved {
                Ok(()) => status_is(final(self).status_message, "Order saved"@),
                Err(e) => status_is(final(self).status_message, "Failed to save order: "@ + e@),
            },
    {
        match saved {
            Ok(()) => {
                self.status_message = Some(to_owned_string("Order saved"));
            },
            Err(e) => {
                let mut m = to_owned_string("Failed to save order: ");
                m.append(e.as_str());
                self.status_message = Some(m);
            },
        }
        let refresh = self.needs_refresh;
        self.needs_refresh = false;
        refresh
    }
}

/// `after` and `r` are what a key `code` of the comb finder gives from `before`.
pub open spec fn finder_key_done(
    before: App,
    after: App,
    code: KeyCode,
    state: Result<(Vec<Nest>, Vec<Comb>), String>,
    nest_state: Result<Vec<Comb>, String>,
    r: FinderKeyOutcome,
) -> bool {
    &&& match before.mode {
                AppMode::CombFinder { targets, filter, filter_cursor, selected } => exists|list: Seq<CombFinderTarget>|
                    #![trigger finder_shows(targets@, filter@, list)]
                    finder_shows(targets@, filter@, list) && match r {
                        FinderKeyOutcome::Stay => after.mode matches AppMode::CombFinder {
                            targets: t2,
                            filter: f2,
                            filter_cursor: c2,
                            selected: s2,
                        } && t2 == targets && c2 <= f2@.len() && finder_step(
                            list,
                            filter@,
                            filter_cursor as int,
                            selected as int,
                            code,
                            r,
                            f2@,
                            c2 as int,
                            s2 as int,
                        ) && after == (App { mode: after.mode, ..before }),
                        FinderKeyOutcome::NoMatch => finder_step(
                            list,
                            filter@,
                            filter_cursor as int,
                            selected as int,
                            code,
                            r,
                            filter@,
                            filter_cursor as int,
                            selected as int,
                        ) && after == (App {
                            mode: AppMode::Normal,
                            status_message: after.status_message,
                            ..before
                        }) && status_is(after.status_message, "No matching combs"@),
                        FinderKeyOutcome::Jump { hive_dir_name, comb_id, comb_name } => finder_step(
                            list,
                            filter@,
                            filter_cursor as int,
                            selected as int,
                            code,
                            r,
                            filter@,
                            filter_cursor as int,
                            selected as int,
                        ) && exists|mid: App, rv: Result<bool, String>|
                            #[trigger] reveal_done(
                                App { mode: AppMode::Normal, ..before },
                                mid,
                                hive_dir_name@,
                                comb_id@,
                                state,
                                nest_state,
                                rv,
                            ) && jump_reported(mid, after, comb_name@, rv),
                        FinderKeyOutcome::Close => finder_step(
                            list,
                            filter@,
                            filter_cursor as int,
                            selected as int,
                            code,
                            r,
                            filter@,
                            filter_cursor as int,
                            selected as int,
                        ) && after == (App { mode: AppMode::Normal, ..before }),
                    },
                _ => r is Stay && after == before,
            }
}

/// Applies a key of the comb finder: it stays open with its filter, cursor
/// and selection updated, or closes (Esc; Enter, which returns the comb to
/// jump to, or says that none is listed at the selection).
pub fn handle_comb_finder(
    app: &mut App,
    code: &KeyCode,
    state: Result<(Vec<Nest>, Vec<Comb>), String>,
    nest_state: Result<Vec<Comb>, String>,
) -> (r: FinderKeyOutcome)
    requires
        old(app).mode matches AppMode::CombFinder { filter, filter_cursor, .. } ==> filter_cursor
            <= filter@.len() < usize::MAX,
    ensures
        finder_key_done(*old(app), *final(app), *code, state, nest_state, r),
{
    let r = match &mut app.mode {
        AppMode::CombFinder { targets, filter, filter_cursor, selected } => comb_finder_key(
            targets,
            filter,
            filter_cursor,
            selected,
            code,
        ),
        _ => return FinderKeyOutcome::Stay,
    };
    match r {
        FinderKeyOutcome::Stay => {},
        FinderKeyOutcome::NoMatch => {
            app.mode = AppMode::Normal;
            app.status_message = Some(to_owned_string("No matching combs"));
        },
        FinderKeyOutcome::Jump { hive_dir_name, comb_id, comb_name } => {
            app.mode = AppMode::Normal;
            let revealed = app.reveal_comb(hive_dir_name.as_str(), comb_id.as_str(), state, nest_state);
            app.finish_jump(comb_name.as_str(), revealed);
            return FinderKeyOutcome::Jump { hive_dir_name, comb_id, comb_name };
        },
        FinderKeyOutcome::Close => {
            app.mode = AppMode::Normal;
        },
    }
    r
}

impl App {
    /// The hive of the comb that `code` makes the comb finder jump to (Enter
    /// on a listed comb), whose state `handle_comb_finder` then needs; `None`
    /// for another key, nothing listed at the selection, or another mode.
    pub fn finder_jump_hive(&self, code: &KeyCode) -> (r: Option<String>)
        ensures
            match self.mode {
                AppMode::CombFinder { targets, filter, selected, .. } => if *code == KeyCode::Enter {
                    forall|list: Seq<CombFinderTarget>|
                        #[trigger] finder_shows(targets@, filter@, list) ==> if selected < list.len() {
                            r matches Some(h) && h@ == list[selected as int].hive_dir_name@
                        } else {
                            r is None
                        }
                } else {
                    r is None
                },
                _ => r is None,
            },
    {
        match &self.mode {
            AppMode::CombFinder { targets, filter, selected, .. } => {
                match code {
                    KeyCode::Enter => {},
                    _ => return None,
                }
                let shown = finder_list(targets.as_slice(), filter.as_str());
                let ghost l0 = shown@.map_values(|t: &CombFinderTarget| *t);
                proof {
                    assert forall|list: Seq<CombFinderTarget>| #[trigger] finder_shows(targets@, filter@, list) implies list == l0 by {
                        lemma_finder_shows_unique(targets@, filter@, list, l0);
                    }
                }
                if *selected < shown.len() {
                    Some(shown[*selected].hive_dir_name.clone())
                } else {
                    None
                }
            },
            _ => None,
        }
    }
}

/// `after` is `before` with the status line reporting the jump to comb
/// `name`, given what revealing it gave.
pub open spec fn jump_reported(before: App, after: App, name: Seq<char>, revealed: Result<bool, String>) -> bool {
    &&& after == (App { status_message: after.status_message, ..before })
    &&& match revealed {
        Ok(true) => status_is(after.status_message, "Jumped to '"@ + name + "'"@),
        Ok(false) => status_is(after.status_message, "Comb not found"@),
        Err(e) => status_is(after.status_message, "Jump failed: "@ + e@),
    }
}

impl App {
    /// Reports the jump to comb `comb_name`, given what revealing it gave
    /// (`revealed`, from `App::reveal_comb`).
    pub fn finish_jump(&mut self, comb_name: &str, revealed: Result<bool, String>)
        ensures
            jump_reported(*old(self), *final(self), comb_name@, revealed),
    {
        let m = match revealed {
            Ok(true) => {
                let mut m = to_owned_string("Jumped to '");
                m.append(comb_name);
                m.append("'");
                m
            },
            Ok(false) => to_owned_string("Comb not found"),
            Err(e) => {
                let mut m = to_owned_string("Jump failed: ");
                m.append(e.as_str());
                m
            },
        };
        self.status_message = Some(m);
    }
}

/// What is left to do once the text prompt's value is submitted.
pub enum SubmitStep {
    /// Check the new comb's name against the hive's combs, then offer the
    /// hive's branches (`App::offer_branches`).
    NewComb { hive_dir_name: String, comb_name: String },
    /// Create a nest in the hive.
    NewNest { hive_dir_name: String, nest_name: String },
    /// Add the hive of this repository (`App::finish_add_hive`).
    AddHive { url: String },
    /// Rename the comb or nest (`RenameTarget::apply` reports it).
    Rename { target: RenameTarget, new_name: String },
    /// Copy the comb at `source_comb_path` into a new comb.
    Copy { hive_dir_name: String, comb_name: String, source_comb_path: String },
    /// Nothing (no prompt was open).
    Nothing,
}

/// What submitting `value` for `action` asks for.
pub open spec fn submit_step(action: InputAction, value: String, r: SubmitStep) -> bool {
    match action {
        InputAction::NewCombName { hive_dir_name } => r matches SubmitStep::NewComb { hive_dir_name: h, comb_name: n }
            && h == hive_dir_name && n@ == value@,
        InputAction::NewNestName { hive_dir_name } => r matches SubmitStep::NewNest { hive_dir_name: h, nest_name: n }
            && h == hive_dir_name && n@ == value@,
        InputAction::AddHiveUrl => r matches SubmitStep::AddHive { url } && url@ == value@,
        InputAction::RenameSelected { target } => r matches SubmitStep::Rename { target: t, new_name: n } && t == target
            && n@ == value@,
        InputAction::CopyCombName { hive_dir_name, source_comb_path, .. } => r matches SubmitStep::Copy {
            hive_dir_name: h,
            comb_name: n,
            source_comb_path: p,
        } && h == hive_dir_name && n@ == value@ && p == source_comb_path,
    }
}

/// Submits the text prompt: it closes, and what its value is for is handed
/// back.
pub fn handle_input_submit(app: &mut App) -> (r: SubmitStep)
    ensures
        *final(app) == (App { mode: AppMode::Normal, ..*old(app) }),
        match old(app).mode {
            AppMode::Input { value, action, .. } => submit_step(action, value, r),
            _ => r is Nothing,
        },
{
    let mut mode = AppMode::Normal;
    std::mem::swap(&mut mode, &mut app.mode);
    match mode {
        AppMode::Input { value, action, .. } => match action {
            InputAction::NewCombName { hive_dir_name } => SubmitStep::NewComb { hive_dir_name, comb_name: value },
            InputAction::NewNestName { hive_dir_name } => SubmitStep::NewNest { hive_dir_name, nest_name: value },
            InputAction::AddHiveUrl => SubmitStep::AddHive { url: value },
            InputAction::RenameSelected { target } => SubmitStep::Rename { target, new_name: value },
            InputAction::CopyCombName { hive_dir_name, source_comb_path, .. } => SubmitStep::Copy {
                hive_dir_name,
                comb_name: value,
                source_comb_path,
            },
        },
        _ => SubmitStep::Nothing,
    }
}

/// `after` and `r` are what a key `code` of the text prompt gives from `before`.
pub open spec fn input_key_done(before: App, after: App, code: KeyCode, r: SubmitStep) -> bool {
    &&& match before.mode {
                AppMode::Input { prompt, value, cursor, action } => match code {
                    KeyCode::Esc => r is Nothing && after == (App { mode: AppMode::Normal, ..before }),
                    KeyCode::Enter => submit_step(action, value, r) && after == (App {
                        mode: AppMode::Normal,
                        ..before
                    }),
                    _ => r is Nothing && after == (App { mode: after.mode, ..before }) && (after.mode matches AppMode::Input { prompt: p2, value: v2, cursor: c2, action: a2 } && p2 == prompt
                        && a2 == action && (v2@, c2 as int) == input_edit(value@, cursor as int, code)),
                },
                _ => r is Nothing && after == before,
            }
}

/// Applies a key of the text prompt: Esc closes it, Enter submits it (see
/// `handle_input_submit`), the other keys edit the value (see
/// `pickers::input_key`).
pub fn handle_input_key(app: &mut App, code: &KeyCode) -> (r: SubmitStep)
    requires
        old(app).mode matches AppMode::Input { value, cursor, .. } ==> cursor < usize::MAX && value@.len()
            < usize::MAX && (*code == KeyCode::Backspace && cursor > 0 ==> cursor - 1 < value@.len()),
    ensures
        input_key_done(*old(app), *final(app), *code, r),
{
    let outcome = match &mut app.mode {
        AppMode::Input { value, cursor, .. } => input_key(value, cursor, code),
        _ => return SubmitStep::Nothing,
    };
    match outcome {
        InputKeyOutcome::Cancel => {
            app.mode = AppMode::Normal;
            SubmitStep::Nothing
        },
        InputKeyOutcome::Submit => handle_input_submit(app),
        InputKeyOutcome::Stay => SubmitStep::Nothing,
    }
}

/// The position of the first branch named `b` among the first `n`.
pub open spec fn branch_at(branches: Seq<String>, b: Seq<char>, n: int) -> Option<int>
    decreases n,
{
    if n <= 0 || n > branches.len() {
        None
    } else {
        match branch_at(branches, b, n - 1) {
            Some(i) => Some(i),
            None => if branches[n - 1]@ == b {
                Some(n - 1)
            } else {
                None
            },
        }
    }
}

/// The first position of branch `b`, or 0.
fn default_position(branches: &Vec<String>, b: &String) -> (r: usize)
    ensures
        r == match branch_at(branches@, b@, branches@.len() as int) {
            Some(i) => i as usize,
            None => 0,
        },
{
    let mut i: usize = 0;
    while i < branches.len()
        invariant
            i <= branches@.len(),
            branch_at(branches@, b@, i as int) is None,
        decreases branches.len() - i,
    {
        if crate::text::str_eq(branches[i].as_str(), b.as_str()) {
            assert(branch_at(branches@, b@, i + 1) == Some(i as int));
            proof {
                lemma_branch_at_stable(branches@, b@, i + 1, branches@.len() as int);
            }
            return i;
        }
        i = i + 1;
    }
    0
}

proof fn lemma_branch_at_stable(branches: Seq<String>, b: Seq<char>, n: int, m: int)
    requires
        0 <= n <= m <= branches.len(),
        branch_at(branches, b, n) is Some,
    ensures
        branch_at(branches, b, m) == branch_at(branches, b, n),
    decreases m - n,
{
    if m > n {
        lemma_branch_at_stable(branches, b, n, m - 1);
    }
}

impl App {
    /// Offers the branches of the hive for a new comb named `comb_name`:
    /// `branches` is the hive's branches and its default branch, as listed,
    /// or why they could not be listed; then a prompt asks for the branch by
    /// name, defaulting to the hive's default branch (`state_default_branch`)
    /// or `main`.
    pub fn offer_branches(
        &mut self,
        hive_dir_name: String,
        comb_name: String,
        branches: Result<(Vec<String>, String), String>,
        state_default_branch: Option<String>,
    )
        ensures
            *final(self) == (App {
                focus: crate::state::Focus::Sidebar,
                mode: final(self).mode,
                status_message: final(self).status_message,
                ..*old(self)
            }),
            match branches {
                Ok((bs, d)) => final(self).status_message is None && (final(self).mode matches AppMode::BranchPicker {
                    hive_dir_name: h,
                    comb_name: c,
                    branches: b2,
                    default_branch: d2,
                    filter,
                    filter_cursor,
                    selected,
                } && h == hive_dir_name && c == comb_name && b2 == bs && d2 == d && filter@.len() == 0 && filter_cursor
                    == 0 && selected == match branch_at(bs@, d@, bs@.len() as int) {
                    Some(i) => i as usize,
                    None => 0,
                }),
                Err(_) => status_is(final(self).status_message, "Could not fetch branches, type manually"@) && (final(self).mode matches AppMode::Input { prompt, value, cursor, action } && prompt@ == "Branch ["@ + (match state_default_branch {
                    Some(b) => b@,
                    None => "main"@,
                }) + "]"@ && value@.len() == 0 && cursor == 0 && action == (InputAction::NewCombName { hive_dir_name })),
            },
    {
        match branches {
            Ok((bs, d)) => {
                self.status_message = None;
                let selected = default_position(&bs, &d);
                self.enter_sidebar_mode(
                    AppMode::BranchPicker {
                        hive_dir_name,
                        comb_name,
                        branches: bs,
                        default_branch: d,
                        filter: String::new(),
                        filter_cursor: 0,
                        selected,
                    },
                );
            },
            Err(_) => {
                let mut prompt = to_owned_string("Branch [");
                match &state_default_branch {
                    Some(b) => prompt.append(b.as_str()),
                    None => prompt.append("main"),
                }
                prompt.append("]");
                self.status_message = Some(to_owned_string("Could not fetch branches, type manually"));
                self.enter_sidebar_mode(
                    AppMode::Input {
                        prompt,
                        value: String::new(),
                        cursor: 0,
                        action: InputAction::NewCombName { hive_dir_name },
                    },
                );
            },
        }
    }

    /// Reports adding a hive: the name of the repository added, or why it
    /// failed.
    pub fn finish_add_hive(&mut self, added: Result<String, String>)
        ensures
            *final(self) == (App { status_message: final(self).status_message, ..*old(self) }),
            match added {
                Ok(n) => status_is(final(self).status_message, "Added '"@ + n@ + "'"@),
                Err(e) => status_is(final(self).status_message, "Failed: "@ + e@),
            },
    {
        let m = match added {
            Ok(n) => {
                let mut m = to_owned_string("Added '");
                m.append(n.as_str());
                m.append("'");
                m
            },
            Err(e) => {
                let mut m = to_owned_string("Failed: ");
                m.append(e.as_str());
                m
            },
        };
        self.status_message = Some(m);
    }

    /// Reports resetting the configuration.
    pub fn finish_reset(&mut self, reset: Result<(), String>)
        ensures
            *final(self) == (App { status_message: final(self).status_message, ..*old(self) }),
            match reset {
                Ok(()) => status_is(final(self).status_message, "Config reset. Restart to reconfigure."@),
                Err(e) => status_is(final(self).status_message, "Reset failed: "@ + e@),
            },
    {
        let m = match reset {
            Ok(()) => to_owned_string("Config reset. Restart to reconfigure."),
            Err(e) => {
                let mut m = to_owned_string("Reset failed: ");
                m.append(e.as_str());
                m
            },
        };
        self.status_message = Some(m);
    }
}

/// What is left to do once a yes/no prompt is answered.
pub enum ConfirmStep {
    /// Delete these targets in the background.
    Delete(Vec<DeleteTarget>),
    /// Reset the configuration (`App::finish_reset` reports it).
    ResetConfig,
    /// Nothing.
    Nothing,
}

fn one_target(t: DeleteTarget) -> (r: Vec<DeleteTarget>)
    ensures
        r@ == seq![t],
{
    let mut v: Vec<DeleteTarget> = Vec::new();
    v.push(t);
    assert(v@ =~= seq![t]);
    v
}

/// What confirming `action` asks for (quitting is done on the spot).
pub open spec fn confirm_step(action: ConfirmAction, r: ConfirmStep) -> bool {
    match action {
        ConfirmAction::DeleteComb { hive_dir_name, comb_id, comb_name } => r matches ConfirmStep::Delete(v) && v@
            == seq![DeleteTarget::Comb { hive_dir_name, comb_id, comb_name }],
        ConfirmAction::DeleteHive { dir_name, repo_name } => r matches ConfirmStep::Delete(v) && v@
            == seq![DeleteTarget::Hive { dir_name, repo_name }],
        ConfirmAction::DeleteNest { hive_dir_name, nest_id, nest_name } => r matches ConfirmStep::Delete(v) && v@
            == seq![DeleteTarget::Nest { hive_dir_name, nest_id, nest_name }],
        ConfirmAction::ResetConfig => r is ResetConfig,
        ConfirmAction::Quit => r is Nothing,
    }
}

/// `after` and `r` are what a key `code` of the yes/no prompt gives from `before`.
pub open spec fn confirm_key_done(before: App, after: App, code: KeyCode, r: ConfirmStep) -> bool {
    &&& match before.mode {
                AppMode::Confirm { action, .. } => if code == KeyCode::Char('y') || code == KeyCode::Char('Y') {
                    confirm_step(action, r) && after == (App {
                        mode: AppMode::Normal,
                        should_quit: before.should_quit || action is Quit,
                        ..before
                    })
                } else {
                    r is Nothing && after == (App { mode: AppMode::Normal, ..before })
                },
                _ => r is Nothing && after == (App { mode: AppMode::Normal, ..before }),
            }
}

/// Answers the yes/no prompt: `y` or `Y` confirms its action (quitting sets
/// the quit flag; the rest is handed back), any other key just closes it.
pub fn handle_confirm_key(app: &mut App, code: &KeyCode) -> (r: ConfirmStep)
    ensures
        confirm_key_done(*old(app), *final(app), *code, r),
{
    let mut mode = AppMode::Normal;
    std::mem::swap(&mut mode, &mut app.mode);
    if !confirm_key(code) {
        return ConfirmStep::Nothing;
    }
    match mode {
        AppMode::Confirm { action, .. } => match action {
            ConfirmAction::DeleteComb { hive_dir_name, comb_id, comb_name } => ConfirmStep::Delete(one_target(DeleteTarget::Comb { hive_dir_name, comb_id, comb_name })),
            ConfirmAction::DeleteHive { dir_name, repo_name } => ConfirmStep::Delete(one_target(DeleteTarget::Hive { dir_name, repo_name })),
            ConfirmAction::DeleteNest { hive_dir_name, nest_id, nest_name } => ConfirmStep::Delete(one_target(DeleteTarget::Nest { hive_dir_name, nest_id, nest_name })),
            ConfirmAction::ResetConfig => ConfirmStep::ResetConfig,
            ConfirmAction::Quit => {
                app.should_quit = true;
                ConfirmStep::Nothing
            },
        },
        _ => ConfirmStep::Nothing,
    }
}

/// The comb to create once a branch is picked.
pub struct NewComb {
    pub hive_dir_name: String,
    pub comb_name: String,
    pub branch: String,
}

/// `after` and `r` are what a key `code` of the branch picker gives from `before`.
pub open spec fn branch_key_done(before: App, after: App, code: KeyCode, r: Option<NewComb>) -> bool {
    &&& match before.mode {
                AppMode::BranchPicker {
                    hive_dir_name,
                    comb_name,
                    branches,
                    default_branch,
                    filter,
                    filter_cursor,
                    selected,
                } => exists|list: Seq<String>|
                    #![trigger branches_shown(branches@, filter@, list)]
                    branches_shown(branches@, filter@, list) && match code {
                        KeyCode::Esc => r is None && after == (App { mode: AppMode::Normal, ..before }),
                        KeyCode::Enter => (r matches Some(c) && c.hive_dir_name == hive_dir_name && c.comb_name
                            == comb_name && c.branch@ == crate::pickers::picked_branch(
                            list,
                            filter@,
                            default_branch@,
                            selected as int,
                        )) && after == (App { mode: AppMode::Normal, ..before }),
                        _ => r is None && after == (App { mode: after.mode, ..before }) && (after.mode matches AppMode::BranchPicker {
                            hive_dir_name: h2,
                            comb_name: n2,
                            branches: b2,
                            default_branch: d2,
                            filter: f2,
                            filter_cursor: c2,
                            selected: s2,
                        } && h2 == hive_dir_name && n2 == comb_name && b2 == branches && d2 == default_branch && c2
                            <= f2@.len() && branch_step(
                            list,
                            default_branch@,
                            filter@,
                            filter_cursor as int,
                            selected as int,
                            code,
                            BranchKeyOutcome::Stay,
                            f2@,
                            c2 as int,
                            s2 as int,
                        )),
                    },
                _ => r is None && after == before,
            }
}

/// Applies a key of the branch picker: it stays open with its filter, cursor
/// and selection updated, or closes (Esc; Enter, which returns the comb to
/// create, on the branch picked).
pub fn handle_branch_picker(app: &mut App, code: &KeyCode) -> (r: Option<NewComb>)
    requires
        old(app).mode matches AppMode::BranchPicker { filter, filter_cursor, .. } ==> filter_cursor
            <= filter@.len() < usize::MAX,
    ensures
        branch_key_done(*old(app), *final(app), *code, r),
{
    let outcome = match &mut app.mode {
        AppMode::BranchPicker { branches, default_branch, filter, filter_cursor, selected, .. } => branch_picker_key(
            branches,
            default_branch,
            filter,
            filter_cursor,
            selected,
            code,
        ),
        _ => return None,
    };
    match outcome {
        BranchKeyOutcome::Stay => None,
        BranchKeyOutcome::Close => {
            app.mode = AppMode::Normal;
            None
        },
        BranchKeyOutcome::Create { branch } => {
            let mut mode = AppMode::Normal;
            std::mem::swap(&mut mode, &mut app.mode);
            match mode {
                AppMode::BranchPicker { hive_dir_name, comb_name, .. } => Some(
                    NewComb { hive_dir_name, comb_name, branch },
                ),
                _ => None,
            }
        },
    }
}

/// Pastes `text` into the open prompt's value, or into the open branch
/// picker's or comb finder's filter (resetting its selection); with nothing
/// open to paste into, nothing changes.
pub fn paste_into_mode(app: &mut App, text: &str)
    requires
        old(app).mode matches AppMode::Input { cursor, .. } ==> cursor + text@.len() <= usize::MAX,
        old(app).mode matches AppMode::BranchPicker { filter_cursor, .. } ==> filter_cursor + text@.len() <= usize::MAX,
        old(app).mode matches AppMode::CombFinder { filter_cursor, .. } ==> filter_cursor + text@.len() <= usize::MAX,
    ensures
        *final(app) == (App { mode: final(app).mode, ..*old(app) }),
        match old(app).mode {
            AppMode::Input { prompt, value, cursor, action } => final(app).mode matches AppMode::Input {
                prompt: p2,
                value: v2,
                cursor: c2,
                action: a2,
            } && p2 == prompt && a2 == action && v2@ == insert_str_at(value@, cursor as int, text@) && c2 == cursor
                + text@.len(),
            AppMode::BranchPicker {
                hive_dir_name,
                comb_name,
                branches,
                default_branch,
                filter,
                filter_cursor,
                ..
            } => final(app).mode matches AppMode::BranchPicker {
                hive_dir_name: h2,
                comb_name: n2,
                branches: b2,
                default_branch: d2,
                filter: f2,
                filter_cursor: c2,
                selected: s2,
            } && h2 == hive_dir_name && n2 == comb_name && b2 == branches && d2 == default_branch && f2@
                == insert_str_at(filter@, filter_cursor as int, text@) && c2 == filter_cursor + text@.len() && s2
                == 0,
            AppMode::CombFinder { targets, filter, filter_cursor, .. } => final(app).mode matches AppMode::CombFinder {
                targets: t2,
                filter: f2,
                filter_cursor: c2,
                selected: s2,
            } && t2 == targets && f2@ == insert_str_at(filter@, filter_cursor as int, text@) && c2 == filter_cursor
                + text@.len() && s2 == 0,
            _ => final(app).mode == old(app).mode,
        },
{
    match &mut app.mode {
        AppMode::Input { value, cursor, .. } => {
            paste_text(value, cursor, text);
        },
        AppMode::BranchPicker { filter, filter_cursor, selected, .. } => {
            paste_text(filter, filter_cursor, text);
            *selected = 0;
        },
        AppMode::CombFinder { filter, filter_cursor, selected, .. } => {
            paste_text(filter, filter_cursor, text);
            *selected = 0;
        },
        _ => {},
    }
}

} // verus!
