//! What a key does to the UI state, whatever is open: the decision of
//! `keymap::key_command` carried out on the state, with the work that needs
//! the disk, the network or a terminal handed back to the caller.

use vstd::prelude::*;

use crate::handlers::{
    branch_key_done, confirm_key_done, delete_key_done, finder_key_done, handle_branch_picker, handle_comb_finder,
    handle_confirm_key, handle_delete_mode, handle_input_key, handle_moving_comb, input_key_done, move_key_done,
    ConfirmStep, MoveStep, NewComb, SubmitStep,
};
use crate::keymap::{key_command, key_command_spec, kind_of, mode_kind, KeyCommand, ModeKind, SidebarCommand};
use crate::keys::{KeyCode, KeyEvent};
use crate::model::{Comb, Nest};
use crate::pickers::FinderKeyOutcome;
use crate::sidebar::move_started;
use crate::state::{AppMode, ConfirmAction, DeleteTarget, Focus};
use crate::text::to_owned_string;
use crate::tui::{
    add_hive_started, confirm_prompt, copy_started, delete_asked, down_moved, help_opened, new_comb_started, opened,
    quit_asked, rename_started, status_is, up_moved, App,
};

verus! {

/// What is left to do after a key.
pub enum KeyStep {
    /// Nothing.
    Done,
    /// Delete these targets in the background.
    Delete(Vec<DeleteTarget>),
    /// What a key of move mode left to do.
    Move(MoveStep),
    /// Create this comb in the background.
    CreateComb(NewComb),
    /// What the submitted text prompt is for.
    Submit(SubmitStep),
    /// What the confirmed yes/no prompt asks for.
    Confirm(ConfirmStep),
    /// Start delete mode from the selection, with the state of the selected
    /// item's hive (`App::start_delete_mode`).
    StartDeleteMode,
    /// Open the selected item, with the state of its hive
    /// (`App::enter_selected`; a comb's terminal is then opened, see
    /// `App::finish_enter`).
    EnterSelected,
    /// Open the comb finder over every hive's combs (`App::start_comb_finder`).
    FindComb,
    /// Refresh the sidebar.
    Refresh,
    /// Open the settings with a fresh tool report (`App::open_settings`).
    OpenSettings,
    /// Save the sidebar's width.
    SaveSidebarWidth,
    /// Update to this version (`App::finish_update` reports it).
    Update(String),
}

/// What a key of the sidebar does from `mid` (the state with the status line
/// cleared): `after` and `r`.
pub open spec fn sidebar_done(mid: App, after: App, c: SidebarCommand, has_pending_work: bool, r: KeyStep) -> bool {
    match c {
        SidebarCommand::StartDeleteMode => r is StartDeleteMode && after == mid,
        SidebarCommand::Quit => r is Done && quit_asked(mid, after),
        SidebarCommand::MoveUp => r is Done && up_moved(mid, after),
        SidebarCommand::MoveDown => r is Done && down_moved(mid, after),
        SidebarCommand::EnterSelected => r is EnterSelected && after == mid,
        SidebarCommand::NewComb => r is Done && new_comb_started(mid, after),
        SidebarCommand::RenameComb => r is Done && rename_started(mid, after, has_pending_work),
        SidebarCommand::FindComb => r is FindComb && after == mid,
        SidebarCommand::MoveComb => r is Done && move_started(mid, after),
        SidebarCommand::CopyComb => r is Done && copy_started(mid, after),
        SidebarCommand::AddHive => r is Done && add_hive_started(mid, after),
        SidebarCommand::Delete => r is Done && delete_asked(mid, after),
        SidebarCommand::Refresh => r is Refresh && after == (App { status_message: after.status_message, ..mid })
            && status_is(after.status_message, "Refreshed"@),
        SidebarCommand::OpenSettings => r is OpenSettings && after == mid,
        SidebarCommand::OpenHelp => r is Done && help_opened(mid, after),
        SidebarCommand::NarrowSidebar => r is SaveSidebarWidth && after == (App {
            sidebar_width: (mid.sidebar_width - 2) as u16,
            ..mid
        }),
        SidebarCommand::WidenSidebar => r is SaveSidebarWidth && after == (App {
            sidebar_width: (mid.sidebar_width + 2) as u16,
            ..mid
        }),
        SidebarCommand::Update => match mid.update_available {
            Some(v) => (r matches KeyStep::Update(u) && u@ == v@) && after == (App {
                status_message: after.status_message,
                ..mid
            }) && status_is(after.status_message, "Updating to v"@ + v@ + "..."@),
            None => r is Done && after == mid,
        },
        SidebarCommand::Nothing => r is Done && after == mid,
    }
}

/// What a key does from `before`: `after` and `r`.
pub open spec fn key_done(
    before: App,
    after: App,
    key: KeyEvent,
    has_terminal: bool,
    has_pending_work: bool,
    finder_state: Result<(Vec<Nest>, Vec<Comb>), String>,
    finder_nest_state: Result<Vec<Comb>, String>,
    r: KeyStep,
) -> bool {
    match key_command_spec(kind_of(before.mode), before.focus, key, has_terminal, before.sidebar_width) {
        KeyCommand::FocusSidebar => r is Done && after == (App { focus: Focus::Sidebar, ..before }),
        KeyCommand::CloseOverlay => r is Done && after == (App { mode: AppMode::Normal, ..before }),
        KeyCommand::AskResetConfig => r is Done && opened(before, after) && confirm_prompt(
            after.mode,
            "Reset config? (repos stay on disk)"@,
        ) && after.mode->Confirm_action is ResetConfig,
        KeyCommand::ToMode(k) => match k {
            ModeKind::BranchPicker => exists|c: Option<NewComb>|
                #[trigger] branch_key_done(before, after, key.code, c) && match c {
                    Some(n) => r == KeyStep::CreateComb(n),
                    None => r is Done,
                },
            ModeKind::CombFinder => r is Done && exists|o: FinderKeyOutcome|
                #[trigger] finder_key_done(before, after, key.code, finder_state, finder_nest_state, o),
            ModeKind::DeleteSelection => exists|t: Option<Vec<DeleteTarget>>|
                #[trigger] delete_key_done(before, after, key.code, t) && match t {
                    Some(v) => r == KeyStep::Delete(v),
                    None => r is Done,
                },
            ModeKind::MovingComb => exists|m: MoveStep|
                #[trigger] move_key_done(before, after, key.code, m) && r == KeyStep::Move(m),
            ModeKind::Input => exists|s: SubmitStep|
                #[trigger] input_key_done(before, after, key.code, s) && r == KeyStep::Submit(s),
            ModeKind::Confirm => exists|s: ConfirmStep|
                #[trigger] confirm_key_done(before, after, key.code, s) && r == KeyStep::Confirm(s),
            _ => r is Done && after == before,
        },
        KeyCommand::FocusTerminal => r is Done && after == (App { focus: Focus::Terminal, ..before }),
        KeyCommand::Sidebar(c) => sidebar_done(
            App { status_message: None, ..before },
            after,
            c,
            has_pending_work,
            r,
        ),
        KeyCommand::Nothing => r is Done && after == before,
    }
}

/// Handles a key: `has_terminal` says whether the selected comb's terminal
/// is open, `has_pending_work` whether a clone, copy or delete is running;
/// `finder_state` and `finder_nest_state` are the nests and combs of the hive
/// that Enter in the comb finder jumps to (`App::finder_jump_hive`), read
/// from disk twice, and are not used otherwise. The key is decided by `keymap::key_command`; what the open picker,
/// prompt, move or delete selection does with it is in `handlers`; in the
/// sidebar the status line is cleared first.
pub fn handle_key(
    app: &mut App,
    key: &KeyEvent,
    has_terminal: bool,
    has_pending_work: bool,
    finder_state: Result<(Vec<Nest>, Vec<Comb>), String>,
    finder_nest_state: Result<Vec<Comb>, String>,
) -> (r: KeyStep)
    requires
        old(app).wf(),
        old(app).mode matches AppMode::Input { value, cursor, .. } ==> cursor < usize::MAX && value@.len()
            < usize::MAX && (key.code == KeyCode::Backspace && cursor > 0 ==> cursor - 1 < value@.len()),
        old(app).mode matches AppMode::CombFinder { filter, filter_cursor, .. } ==> filter_cursor <= filter@.len()
            < usize::MAX,
        old(app).mode matches AppMode::BranchPicker { filter, filter_cursor, .. } ==> filter_cursor
            <= filter@.len() < usize::MAX,
        key_command_spec(kind_of(old(app).mode), old(app).focus, *key, has_terminal, old(app).sidebar_width)
            == KeyCommand::Sidebar(SidebarCommand::WidenSidebar) ==> old(app).sidebar_width <= 65533,
    ensures
        key_done(*old(app), *final(app), *key, has_terminal, has_pending_work, finder_state, finder_nest_state, r),
{
    let cmd = key_command(mode_kind(&app.mode), app.focus, key, has_terminal, app.sidebar_width);
    match cmd {
        KeyCommand::FocusSidebar => {
            app.focus = Focus::Sidebar;
            KeyStep::Done
        },
        KeyCommand::CloseOverlay => {
            app.mode = AppMode::Normal;
            KeyStep::Done
        },
        KeyCommand::AskResetConfig => {
            app.enter_sidebar_mode(
                AppMode::Confirm {
                    message: to_owned_string("Reset config? (repos stay on disk)"),
                    action: ConfirmAction::ResetConfig,
                },
            );
            KeyStep::Done
        },
        KeyCommand::ToMode(k) => match k {
            ModeKind::BranchPicker => match handle_branch_picker(app, &key.code) {
                Some(n) => KeyStep::CreateComb(n),
                None => KeyStep::Done,
            },
            ModeKind::CombFinder => {
                let _ = handle_comb_finder(app, &key.code, finder_state, finder_nest_state);
                KeyStep::Done
            },
            ModeKind::DeleteSelection => match handle_delete_mode(app, &key.code) {
                Some(v) => KeyStep::Delete(v),
                None => KeyStep::Done,
            },
            ModeKind::MovingComb => KeyStep::Move(handle_moving_comb(app, &key.code)),
            ModeKind::Input => KeyStep::Submit(handle_input_key(app, &key.code)),
            ModeKind::Confirm => KeyStep::Confirm(handle_confirm_key(app, &key.code)),
            _ => KeyStep::Done,
        },
        KeyCommand::FocusTerminal => {
            app.focus = Focus::Terminal;
            KeyStep::Done
        },
        KeyCommand::Sidebar(c) => {
            app.status_message = None;
            sidebar_key(app, c, has_pending_work)
        },
        KeyCommand::Nothing => KeyStep::Done,
    }
}

/// Carries out a key of the sidebar, the status line already cleared.
fn sidebar_key(app: &mut App, c: SidebarCommand, has_pending_work: bool) -> (r: KeyStep)
    requires
        old(app).wf(),
        c == SidebarCommand::NarrowSidebar ==> old(app).sidebar_width > 20,
        c == SidebarCommand::WidenSidebar ==> old(app).sidebar_width <= 65533,
    ensures
        sidebar_done(*old(app), *final(app), c, has_pending_work, r),
{
    match c {
        SidebarCommand::StartDeleteMode => KeyStep::StartDeleteMode,
        SidebarCommand::Quit => {
            app.start_quit();
            KeyStep::Done
        },
        SidebarCommand::MoveUp => {
            app.move_up();
            KeyStep::Done
        },
        SidebarCommand::MoveDown => {
            app.move_down();
            KeyStep::Done
        },
        SidebarCommand::EnterSelected => KeyStep::EnterSelected,
        SidebarCommand::NewComb => {
            app.start_new_comb();
            KeyStep::Done
        },
        SidebarCommand::RenameComb => {
            app.start_rename_comb(has_pending_work);
            KeyStep::Done
        },
        SidebarCommand::FindComb => KeyStep::FindComb,
        SidebarCommand::MoveComb => {
            app.start_move_comb();
            KeyStep::Done
        },
        SidebarCommand::CopyComb => {
            app.start_copy_comb();
            KeyStep::Done
        },
        SidebarCommand::AddHive => {
            app.start_add_hive();
            KeyStep::Done
        },
        SidebarCommand::Delete => {
            app.start_delete();
            KeyStep::Done
        },
        SidebarCommand::Refresh => {
            app.status_message = Some(to_owned_string("Refreshed"));
            KeyStep::Refresh
        },
        SidebarCommand::OpenSettings => KeyStep::OpenSettings,
        SidebarCommand::OpenHelp => {
            app.open_help();
            KeyStep::Done
        },
        SidebarCommand::NarrowSidebar => {
            app.sidebar_width = app.sidebar_width - 2;
            KeyStep::SaveSidebarWidth
        },
        SidebarCommand::WidenSidebar => {
            app.sidebar_width = app.sidebar_width + 2;
            KeyStep::SaveSidebarWidth
        },
        SidebarCommand::Update => match &app.update_available {
            Some(v) => {
                let v = v.clone();
                let mut m = to_owned_string("Updating to v");
                m.append(v.as_str());
                m.append("...");
                app.status_message = Some(m);
                KeyStep::Update(v)
            },
            None => KeyStep::Done,
        },
        SidebarCommand::Nothing => KeyStep::Done,
    }
}

impl App {
    /// Reports the self-update to `version`: done (the update is no longer
    /// offered) or why it failed.
    pub fn finish_update(&mut self, version: &str, updated: Result<(), String>)
        ensures
            match updated {
                Ok(()) => *final(self) == (App {
                    status_message: final(self).status_message,
                    update_available: None,
                    ..*old(self)
                }) && status_is(
                    final(self).status_message,
                    "Updated to v"@ + version@ + "! Restart to use new version."@,
                ),
                Err(e) => *final(self) == (App { status_message: final(self).status_message, ..*old(self) })
                    && status_is(final(self).status_message, e@),
            },
    {
        match updated {
            Ok(()) => {
                let mut m = to_owned_string("Updated to v");
                m.append(version);
                m.append("! Restart to use new version.");
                self.status_message = Some(m);
                self.update_available = None;
            },
            Err(e) => {
                self.status_message = Some(e);
            },
        }
    }

    /// After opening a comb: its terminal opens when its directory exists
    /// (`dir_exists`); otherwise the status line says so. Returns whether to
    /// open the terminal.
    pub fn finish_enter(&mut self, dir_exists: bool) -> (open: bool)
        ensures
            open == dir_exists,
            dir_exists ==> *final(self) == *old(self),
            !dir_exists ==> *final(self) == (App { status_message: final(self).status_message, ..*old(self) })
                && status_is(final(self).status_message, "Dir not found"@),
    {
        if !dir_exists {
            self.status_message = Some(to_owned_string("Dir not found"));
        }
        dir_exists
    }
}

} // verus!
