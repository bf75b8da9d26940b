//! What a key means to the terminal UI in each mode: the decision half of the
//! key handling; carrying the decision out is left to the caller.

use vstd::prelude::*;

use crate::keys::{KeyCode, KeyEvent};
use crate::state::{AppMode, Focus};

verus! {

/// Which mode the UI is in, without the mode's data.
#[derive(Clone, Copy, Debug, PartialEq, Eq, Structural)]
pub enum ModeKind {
    Normal,
    Input,
    Confirm,
    BranchPicker,
    MovingComb,
    CombFinder,
    DeleteSelection,
    Help,
    Settings,
}

/// The kind of a mode.
pub open spec fn kind_of(mode: AppMode) -> ModeKind {
    match mode {
        AppMode::Normal => ModeKind::Normal,
        AppMode::Input { .. } => ModeKind::Input,
        AppMode::Confirm { .. } => ModeKind::Confirm,
        AppMode::BranchPicker { .. } => ModeKind::BranchPicker,
        AppMode::MovingComb { .. } => ModeKind::MovingComb,
        AppMode::CombFinder { .. } => ModeKind::CombFinder,
        AppMode::DeleteCombSelection { .. } => ModeKind::DeleteSelection,
        AppMode::Help => ModeKind::Help,
        AppMode::Settings { .. } => ModeKind::Settings,
    }
}

/// The kind of a mode.
pub fn mode_kind(mode: &AppMode) -> (r: ModeKind)
    ensures
        r == kind_of(*mode),
{
    match mode {
        AppMode::Normal => ModeKind::Normal,
        AppMode::Input { .. } => ModeKind::Input,
        AppMode::Confirm { .. } => ModeKind::Confirm,
        AppMode::BranchPicker { .. } => ModeKind::BranchPicker,
        AppMode::MovingComb { .. } => ModeKind::MovingComb,
        AppMode::CombFinder { .. } => ModeKind::CombFinder,
        AppMode::DeleteCombSelection { .. } => ModeKind::DeleteSelection,
        AppMode::Help => ModeKind::Help,
        AppMode::Settings { .. } => ModeKind::Settings,
    }
}

/// Ctrl+Space: switch between the sidebar and the terminal.
pub open spec fn spec_is_focus_toggle(key: KeyEvent) -> bool {
    key.code == KeyCode::Char(' ') && key.modifiers.control
}

/// Ctrl+Space: switch between the sidebar and the terminal.
pub fn is_focus_toggle(key: &KeyEvent) -> (r: bool)
    ensures
        r == spec_is_focus_toggle(*key),
{
    match key.code {
        KeyCode::Char(c) => c == ' ' && key.modifiers.control,
        _ => false,
    }
}

/// `D` (or Shift+`d`): mark combs for deletion.
pub open spec fn spec_is_delete_mode_toggle(key: KeyEvent) -> bool {
    key.code == KeyCode::Char('D') || (key.code == KeyCode::Char('d') && key.modifiers.shift)
}

/// `D` (or Shift+`d`): mark combs for deletion.
pub fn is_delete_mode_toggle(key: &KeyEvent) -> (r: bool)
    ensures
        r == spec_is_delete_mode_toggle(*key),
{
    match key.code {
        KeyCode::Char(c) => c == 'D' || (c == 'd' && key.modifiers.shift),
        _ => false,
    }
}

/// What a key does in the sidebar when no overlay is open.
#[derive(Clone, Copy, Debug, PartialEq, Eq, Structural)]
pub enum SidebarCommand {
    StartDeleteMode,
    Quit,
    MoveUp,
    MoveDown,
    EnterSelected,
    NewComb,
    RenameComb,
    FindComb,
    MoveComb,
    CopyComb,
    AddHive,
    Delete,
    Refresh,
    OpenSettings,
    OpenHelp,
    NarrowSidebar,
    WidenSidebar,
    Update,
    Nothing,
}

/// What a key does.
#[derive(Clone, Copy, Debug, PartialEq, Eq, Structural)]
pub enum KeyCommand {
    /// Ctrl+Space over an overlay or prompt: give the sidebar the focus.
    FocusSidebar,
    /// Close the help or settings overlay.
    CloseOverlay,
    /// Settings' `R`: ask whether to reset the configuration.
    AskResetConfig,
    /// The key belongs to the open branch picker, comb finder, delete
    /// selection, move, text prompt or yes/no prompt.
    ToMode(ModeKind),
    /// Ctrl+Space in the sidebar with a terminal open: give it the focus.
    FocusTerminal,
    /// A key in the sidebar (the status line is cleared first).
    Sidebar(SidebarCommand),
    Nothing,
}

/// The sidebar's key bindings.
pub open spec fn sidebar_command(key: KeyEvent, sidebar_width: u16) -> SidebarCommand {
    if spec_is_delete_mode_toggle(key) {
        SidebarCommand::StartDeleteMode
    } else {
        match key.code {
            KeyCode::Char('q') => SidebarCommand::Quit,
            KeyCode::Up | KeyCode::Char('k') => SidebarCommand::MoveUp,
            KeyCode::Down | KeyCode::Char('j') => SidebarCommand::MoveDown,
            KeyCode::Enter | KeyCode::Char('l') => SidebarCommand::EnterSelected,
            KeyCode::Char('n') => SidebarCommand::NewComb,
            KeyCode::Char('r') => SidebarCommand::RenameComb,
            KeyCode::Char('f') => SidebarCommand::FindComb,
            KeyCode::Char('m') => SidebarCommand::MoveComb,
            KeyCode::Char('c') => SidebarCommand::CopyComb,
            KeyCode::Char('a') => SidebarCommand::AddHive,
            KeyCode::Char('d') => SidebarCommand::Delete,
            KeyCode::Char('R') => SidebarCommand::Refresh,
            KeyCode::Char('s') => SidebarCommand::OpenSettings,
            KeyCode::Char('?') => SidebarCommand::OpenHelp,
            KeyCode::Char('<') | KeyCode::Char('H') => if sidebar_width > 20 {
                SidebarCommand::NarrowSidebar
            } else {
                SidebarCommand::Nothing
            },
            KeyCode::Char('>') | KeyCode::Char('L') => SidebarCommand::WidenSidebar,
            KeyCode::Char('u') => SidebarCommand::Update,
            _ => SidebarCommand::Nothing,
        }
    }
}

/// What a key does, given the mode, the focus, whether a terminal is open and
/// the sidebar's width.
pub open spec fn key_command_spec(
    mode: ModeKind,
    focus: Focus,
    key: KeyEvent,
    has_terminal: bool,
    sidebar_width: u16,
) -> KeyCommand {
    if mode != ModeKind::Normal && spec_is_focus_toggle(key) {
        KeyCommand::FocusSidebar
    } else {
        match mode {
            ModeKind::Help => match key.code {
                KeyCode::Esc | KeyCode::Char('q') | KeyCode::Char('?') => KeyCommand::CloseOverlay,
                _ => KeyCommand::Nothing,
            },
            ModeKind::Settings => match key.code {
                KeyCode::Esc | KeyCode::Char('s') => KeyCommand::CloseOverlay,
                KeyCode::Char('R') => KeyCommand::AskResetConfig,
                _ => KeyCommand::Nothing,
            },
            ModeKind::Normal => if spec_is_focus_toggle(key) {
                if focus == Focus::Sidebar && has_terminal {
                    KeyCommand::FocusTerminal
                } else {
                    KeyCommand::Nothing
                }
            } else {
                match focus {
                    Focus::Terminal => KeyCommand::Nothing,
                    Focus::Sidebar => KeyCommand::Sidebar(sidebar_command(key, sidebar_width)),
                }
            },
            _ => KeyCommand::ToMode(mode),
        }
    }
}

fn sidebar_key(key: &KeyEvent, sidebar_width: u16) -> (r: SidebarCommand)
    ensures
        r == sidebar_command(*key, sidebar_width),
{
    if is_delete_mode_toggle(key) {
        return SidebarCommand::StartDeleteMode;
    }
    match key.code {
        KeyCode::Up => SidebarCommand::MoveUp,
        KeyCode::Down => SidebarCommand::MoveDown,
        KeyCode::Enter => SidebarCommand::EnterSelected,
        KeyCode::Char(c) => {
            if c == 'q' {
                SidebarCommand::Quit
            } else if c == 'k' {
                SidebarCommand::MoveUp
            } else if c == 'j' {
                SidebarCommand::MoveDown
            } else if c == 'l' {
                SidebarCommand::EnterSelected
            } else if c == 'n' {
                SidebarCommand::NewComb
            } else if c == 'r' {
                SidebarCommand::RenameComb
            } else if c == 'f' {
                SidebarCommand::FindComb
            } else if c == 'm' {
                SidebarCommand::MoveComb
            } else if c == 'c' {
                SidebarCommand::CopyComb
            } else if c == 'a' {
                SidebarCommand::AddHive
            } else if c == 'd' {
                SidebarCommand::Delete
            } else if c == 'R' {
                SidebarCommand::Refresh
            } else if c == 's' {
                SidebarCommand::OpenSettings
            } else if c == '?' {
                SidebarCommand::OpenHelp
            } else if c == '<' || c == 'H' {
                if sidebar_width > 20 {
                    SidebarCommand::NarrowSidebar
                } else {
                    SidebarCommand::Nothing
                }
            } else if c == '>' || c == 'L' {
                SidebarCommand::WidenSidebar
            } else if c == 'u' {
                SidebarCommand::Update
            } else {
                SidebarCommand::Nothing
            }
        },
        _ => SidebarCommand::Nothing,
    }
}

/// Decides what a key does: over an overlay or prompt Ctrl+Space gives the
/// sidebar the focus; help closes on Esc, `q` or `?`; settings close on Esc
/// or `s` and ask to reset on `R`; the pickers, prompts, move and delete
/// selection get their own keys; with no overlay, Ctrl+Space focuses an open
/// terminal, keys in the terminal pane are ignored here, and the sidebar's
/// bindings apply.
pub fn key_command(mode: ModeKind, focus: Focus, key: &KeyEvent, has_terminal: bool, sidebar_width: u16) -> (r:
    KeyCommand)
    ensures
        r == key_command_spec(mode, focus, *key, has_terminal, sidebar_width),
{
    let toggle = is_focus_toggle(key);
    if mode != ModeKind::Normal && toggle {
        return KeyCommand::FocusSidebar;
    }
    match mode {
        ModeKind::Help => match key.code {
            KeyCode::Esc => KeyCommand::CloseOverlay,
            KeyCode::Char(c) => if c == 'q' || c == '?' {
                KeyCommand::CloseOverlay
            } else {
                KeyCommand::Nothing
            },
            _ => KeyCommand::Nothing,
        },
        ModeKind::Settings => match key.code {
            KeyCode::Esc => KeyCommand::CloseOverlay,
            KeyCode::Char(c) => if c == 's' {
                KeyCommand::CloseOverlay
            } else if c == 'R' {
                KeyCommand::AskResetConfig
            } else {
                KeyCommand::Nothing
            },
            _ => KeyCommand::Nothing,
        },
        ModeKind::Normal => {
            if toggle {
                if focus == Focus::Sidebar && has_terminal {
                    KeyCommand::FocusTerminal
                } else {
                    KeyCommand::Nothing
                }
            } else {
                match focus {
                    Focus::Terminal => KeyCommand::Nothing,
                    Focus::Sidebar => KeyCommand::Sidebar(sidebar_key(key, sidebar_width)),
                }
            }
        },
        _ => KeyCommand::ToMode(mode),
    }
}

/// What a key does while combs are being marked for deletion.
#[derive(Clone, Copy, Debug, PartialEq, Eq, Structural)]
pub enum DeleteModeCommand {
    Cancel,
    Up,
    Down,
    Toggle,
    Confirm,
    Nothing,
}

/// What a key does while items are being marked for deletion.
pub open spec fn delete_command(code: KeyCode) -> DeleteModeCommand {
    match code {
        KeyCode::Esc => DeleteModeCommand::Cancel,
        KeyCode::Up | KeyCode::Char('k') => DeleteModeCommand::Up,
        KeyCode::Down | KeyCode::Char('j') => DeleteModeCommand::Down,
        KeyCode::Char('d') | KeyCode::Char('D') => DeleteModeCommand::Toggle,
        KeyCode::Enter => DeleteModeCommand::Confirm,
        _ => DeleteModeCommand::Nothing,
    }
}

/// The delete selection's keys: Esc cancels, Up/`k` and Down/`j` move, `d`
/// or `D` toggles the mark, Enter deletes the marked items.
pub fn delete_mode_key(code: &KeyCode) -> (r: DeleteModeCommand)
    ensures
        r == delete_command(*code),
{
    match code {
        KeyCode::Esc => DeleteModeCommand::Cancel,
        KeyCode::Up => DeleteModeCommand::Up,
        KeyCode::Down => DeleteModeCommand::Down,
        KeyCode::Enter => DeleteModeCommand::Confirm,
        KeyCode::Char(c) => if *c == 'k' {
            DeleteModeCommand::Up
        } else if *c == 'j' {
            DeleteModeCommand::Down
        } else if *c == 'd' || *c == 'D' {
            DeleteModeCommand::Toggle
        } else {
            DeleteModeCommand::Nothing
        },
        _ => DeleteModeCommand::Nothing,
    }
}

/// What a key does while a comb is being moved.
#[derive(Clone, Copy, Debug, PartialEq, Eq, Structural)]
pub enum MoveCommand {
    Up,
    Down,
    Save,
    Cancel,
    Nothing,
}

/// What a key does while a comb is being moved.
pub open spec fn move_command(code: KeyCode) -> MoveCommand {
    match code {
        KeyCode::Up | KeyCode::Char('k') => MoveCommand::Up,
        KeyCode::Down | KeyCode::Char('j') => MoveCommand::Down,
        KeyCode::Char('m') | KeyCode::Enter => MoveCommand::Save,
        KeyCode::Esc => MoveCommand::Cancel,
        _ => MoveCommand::Nothing,
    }
}

/// The move's keys: Up/`k` and Down/`j` move the comb, `m` or Enter saves
/// the order, Esc restores it.
pub fn moving_comb_key(code: &KeyCode) -> (r: MoveCommand)
    ensures
        r == move_command(*code),
{
    match code {
        KeyCode::Up => MoveCommand::Up,
        KeyCode::Down => MoveCommand::Down,
        KeyCode::Enter => MoveCommand::Save,
        KeyCode::Esc => MoveCommand::Cancel,
        KeyCode::Char(c) => if *c == 'k' {
            MoveCommand::Up
        } else if *c == 'j' {
            MoveCommand::Down
        } else if *c == 'm' {
            MoveCommand::Save
        } else {
            MoveCommand::Nothing
        },
        _ => MoveCommand::Nothing,
    }
}

/// Whether a key answers a yes/no prompt with yes (`y` or `Y`); any other key
/// answers no.
pub fn confirm_key(code: &KeyCode) -> (r: bool)
    ensures
        r == (*code == KeyCode::Char('y') || *code == KeyCode::Char('Y')),
{
    match code {
        KeyCode::Char(c) => *c == 'y' || *c == 'Y',
        _ => false,
    }
}

/// The item selected after cancelling a move: the one selected before it,
/// kept within the restored list.
pub fn restored_selection(original_selected: usize, item_count: usize) -> (r: usize)
    ensures
        item_count == 0 ==> r == 0,
        item_count > 0 ==> r == (if original_selected < item_count - 1 {
            original_selected
        } else {
            (item_count - 1) as usize
        }),
{
    if item_count == 0 {
        0
    } else if original_selected < item_count - 1 {
        original_selected
    } else {
        item_count - 1
    }
}

} // verus!
