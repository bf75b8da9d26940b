use beehive::keymap::{
    confirm_key, delete_mode_key, is_delete_mode_toggle, key_command, moving_comb_key,
    restored_selection, DeleteModeCommand, KeyCommand, ModeKind, MoveCommand, SidebarCommand,
};
use beehive::keys::{KeyCode, KeyEvent, KeyModifiers};
use beehive::state::Focus;

fn plain(code: KeyCode) -> KeyEvent {
    KeyEvent { code, modifiers: KeyModifiers::none() }
}

#[test]
fn sidebar_bindings() {
    let cmd = |c: char| key_command(ModeKind::Normal, Focus::Sidebar, &plain(KeyCode::Char(c)), false, 28);
    assert_eq!(cmd('q'), KeyCommand::Sidebar(SidebarCommand::Quit));
    assert_eq!(cmd('j'), KeyCommand::Sidebar(SidebarCommand::MoveDown));
    assert_eq!(cmd('f'), KeyCommand::Sidebar(SidebarCommand::FindComb));
    assert_eq!(cmd('D'), KeyCommand::Sidebar(SidebarCommand::StartDeleteMode));
    assert_eq!(cmd('d'), KeyCommand::Sidebar(SidebarCommand::Delete));
    assert_eq!(cmd('<'), KeyCommand::Sidebar(SidebarCommand::NarrowSidebar));
    assert_eq!(cmd('x'), KeyCommand::Sidebar(SidebarCommand::Nothing));
    // The sidebar does not narrow below 20 columns.
    let narrow = key_command(ModeKind::Normal, Focus::Sidebar, &plain(KeyCode::Char('H')), false, 20);
    assert_eq!(narrow, KeyCommand::Sidebar(SidebarCommand::Nothing));
}

#[test]
fn focus_toggle_needs_a_terminal() {
    let ctrl_space = KeyEvent { code: KeyCode::Char(' '), modifiers: KeyModifiers::control() };
    assert_eq!(
        key_command(ModeKind::Normal, Focus::Sidebar, &ctrl_space, true, 28),
        KeyCommand::FocusTerminal
    );
    assert_eq!(
        key_command(ModeKind::Normal, Focus::Sidebar, &ctrl_space, false, 28),
        KeyCommand::Nothing
    );
    assert_eq!(
        key_command(ModeKind::Help, Focus::Terminal, &ctrl_space, true, 28),
        KeyCommand::FocusSidebar
    );
}

#[test]
fn overlays_close_on_their_keys() {
    assert_eq!(
        key_command(ModeKind::Help, Focus::Sidebar, &plain(KeyCode::Char('?')), false, 28),
        KeyCommand::CloseOverlay
    );
    assert_eq!(
        key_command(ModeKind::Settings, Focus::Sidebar, &plain(KeyCode::Char('R')), false, 28),
        KeyCommand::AskResetConfig
    );
    assert_eq!(
        key_command(ModeKind::Normal, Focus::Terminal, &plain(KeyCode::Char('q')), true, 28),
        KeyCommand::Nothing
    );
}

#[test]
fn shift_d_starts_delete_mode() {
    let ev = KeyEvent { code: KeyCode::Char('d'), modifiers: KeyModifiers::shift() };
    assert!(is_delete_mode_toggle(&ev));
    assert!(!is_delete_mode_toggle(&plain(KeyCode::Char('d'))));
}

#[test]
fn mode_key_tables() {
    assert_eq!(delete_mode_key(&KeyCode::Char('D')), DeleteModeCommand::Toggle);
    assert_eq!(delete_mode_key(&KeyCode::Enter), DeleteModeCommand::Confirm);
    assert_eq!(moving_comb_key(&KeyCode::Char('m')), MoveCommand::Save);
    assert_eq!(moving_comb_key(&KeyCode::Esc), MoveCommand::Cancel);
    assert!(confirm_key(&KeyCode::Char('Y')));
    assert!(!confirm_key(&KeyCode::Char('n')));
}

#[test]
fn move_cancel_restores_selection_within_items() {
    assert_eq!(moving_comb_key(&KeyCode::Esc), MoveCommand::Cancel);
    assert_eq!(restored_selection(2, 3), 2);
    assert_eq!(restored_selection(7, 3), 2);
    assert_eq!(restored_selection(7, 0), 0);
}
