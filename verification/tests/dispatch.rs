use beehive::dispatch::{handle_key, KeyStep};
use beehive::handlers::{ConfirmStep, SubmitStep};
use beehive::keys::{KeyCode, KeyEvent, KeyModifiers};
use beehive::model::{Comb, HiveInfo};
use beehive::state::{AppMode, ConfirmAction, Focus, InputAction, NavItem};
use beehive::tui::{initial_terminal_size, App};

fn hive(dir_name: &str, repo_name: &str) -> HiveInfo {
    HiveInfo {
        dir_name: dir_name.to_string(),
        repo_url: format!("https://github.com/acme/{}.git", repo_name),
        repo_name: repo_name.to_string(),
        owner: "acme".to_string(),
        description: None,
        default_branch: Some("main".to_string()),
        custom_buttons: vec![],
    }
}

fn comb(id: &str, name: &str) -> Comb {
    Comb {
        id: id.to_string(),
        name: name.to_string(),
        branch: "main".to_string(),
        path: format!("/tmp/{}", name),
        created_at: "0".to_string(),
        nest_id: None,
        panes: vec![],
        cloning: false,
        operation: None,
    }
}

fn make_app(items: Vec<NavItem>, selected: usize) -> App {
    App {
        beehive_dir: "/tmp/beehive".to_string(),
        items,
        selected,
        mode: AppMode::Normal,
        should_quit: false,
        status_message: None,
        active_comb_id: None,
        focus: Focus::Sidebar,
        last_term_size: (0, 0),
        update_available: None,
        sidebar_width: 28,
        comb_startup_command: None,
        deleting_comb_ids: Vec::new(),
        deleting_nest_ids: Vec::new(),
        deleting_hive_dir_names: Vec::new(),
        startup_applied_comb_ids: Vec::new(),
        keyboard_enhanced: false,
        needs_refresh: false,
    }
}

fn key(code: KeyCode) -> KeyEvent {
    KeyEvent { code, modifiers: KeyModifiers::none() }
}

fn ctrl(code: KeyCode) -> KeyEvent {
    KeyEvent { code, modifiers: KeyModifiers::control() }
}

fn items() -> Vec<NavItem> {
    vec![
        NavItem::Hive { info: hive("repo_api", "api"), expanded: true, comb_count: 2 },
        NavItem::Comb { hive_dir_name: "repo_api".to_string(), comb: comb("a", "alpha") },
        NavItem::Comb { hive_dir_name: "repo_api".to_string(), comb: comb("b", "beta") },
    ]
}


fn unread() -> Result<(Vec<beehive::model::Nest>, Vec<beehive::model::Comb>), String> {
    Err("not read".to_string())
}

fn unread_combs() -> Result<Vec<beehive::model::Comb>, String> {
    Err("not read".to_string())
}

#[test]
fn ctrl_space_during_input_keeps_sidebar_focus_and_overlay() {
    let mut app = make_app(vec![], 0);
    app.focus = Focus::Sidebar;
    app.mode = AppMode::Input {
        prompt: "Comb name".to_string(),
        value: String::new(),
        cursor: 0,
        action: InputAction::AddHiveUrl,
    };

    handle_key(&mut app, &ctrl(KeyCode::Char(' ')), false, false, unread(), unread_combs());

    assert!(matches!(app.mode, AppMode::Input { .. }));
    assert!(matches!(app.focus, Focus::Sidebar));
}

#[test]
fn input_overlay_handles_escape_even_if_focus_was_terminal() {
    let mut app = make_app(vec![], 0);
    app.focus = Focus::Terminal;
    app.mode = AppMode::Input {
        prompt: "Comb name".to_string(),
        value: "draft".to_string(),
        cursor: 5,
        action: InputAction::AddHiveUrl,
    };

    handle_key(&mut app, &key(KeyCode::Esc), false, false, unread(), unread_combs());

    assert!(matches!(app.mode, AppMode::Normal));
}

#[test]
fn sidebar_keys_move_and_clear_the_status() {
    let mut app = make_app(items(), 0);
    app.status_message = Some("old news".to_string());
    assert!(matches!(handle_key(&mut app, &key(KeyCode::Char('j')), false, false, unread(), unread_combs()), KeyStep::Done));
    assert_eq!(app.selected, 1);
    assert_eq!(app.status_message, None);
    handle_key(&mut app, &key(KeyCode::Down), false, false, unread(), unread_combs());
    handle_key(&mut app, &key(KeyCode::Down), false, false, unread(), unread_combs());
    assert_eq!(app.selected, 2);
    handle_key(&mut app, &key(KeyCode::Up), false, false, unread(), unread_combs());
    assert_eq!(app.selected, 1);
}

#[test]
fn sidebar_keys_hand_back_outside_work() {
    let mut app = make_app(items(), 1);
    assert!(matches!(handle_key(&mut app, &key(KeyCode::Enter), false, false, unread(), unread_combs()), KeyStep::EnterSelected));
    assert!(matches!(handle_key(&mut app, &key(KeyCode::Char('f')), false, false, unread(), unread_combs()), KeyStep::FindComb));
    assert!(matches!(handle_key(&mut app, &key(KeyCode::Char('D')), false, false, unread(), unread_combs()), KeyStep::StartDeleteMode));
    assert!(matches!(handle_key(&mut app, &key(KeyCode::Char('s')), false, false, unread(), unread_combs()), KeyStep::OpenSettings));
    assert!(matches!(handle_key(&mut app, &key(KeyCode::Char('R')), false, false, unread(), unread_combs()), KeyStep::Refresh));
    assert_eq!(app.status_message.as_deref(), Some("Refreshed"));
}

#[test]
fn sidebar_width_keys_resize_within_limits() {
    let mut app = make_app(items(), 0);
    assert!(matches!(handle_key(&mut app, &key(KeyCode::Char('>')), false, false, unread(), unread_combs()), KeyStep::SaveSidebarWidth));
    assert_eq!(app.sidebar_width, 30);
    app.sidebar_width = 22;
    handle_key(&mut app, &key(KeyCode::Char('<')), false, false, unread(), unread_combs());
    assert_eq!(app.sidebar_width, 20);
    assert!(matches!(handle_key(&mut app, &key(KeyCode::Char('H')), false, false, unread(), unread_combs()), KeyStep::Done));
    assert_eq!(app.sidebar_width, 20);
}

#[test]
fn update_key_starts_the_offered_update() {
    let mut app = make_app(items(), 0);
    assert!(matches!(handle_key(&mut app, &key(KeyCode::Char('u')), false, false, unread(), unread_combs()), KeyStep::Done));
    app.update_available = Some("1.2.3".to_string());
    match handle_key(&mut app, &key(KeyCode::Char('u')), false, false, unread(), unread_combs()) {
        KeyStep::Update(v) => assert_eq!(v, "1.2.3"),
        _ => panic!("expected an update"),
    }
    assert_eq!(app.status_message.as_deref(), Some("Updating to v1.2.3..."));
    app.finish_update("1.2.3", Ok(()));
    assert_eq!(app.status_message.as_deref(), Some("Updated to v1.2.3! Restart to use new version."));
    assert_eq!(app.update_available, None);
    app.finish_update("1.2.4", Err("no network".to_string()));
    assert_eq!(app.status_message.as_deref(), Some("no network"));
}

#[test]
fn quitting_asks_then_confirms() {
    let mut app = make_app(items(), 0);
    handle_key(&mut app, &key(KeyCode::Char('q')), false, false, unread(), unread_combs());
    assert!(matches!(&app.mode, AppMode::Confirm { message, action: ConfirmAction::Quit } if message == "Quit Beehive?"));
    assert!(matches!(handle_key(&mut app, &key(KeyCode::Char('y')), false, false, unread(), unread_combs()), KeyStep::Confirm(ConfirmStep::Nothing)));
    assert!(app.should_quit);
    assert!(matches!(app.mode, AppMode::Normal));
}

#[test]
fn help_closes_and_the_add_hive_prompt_submits() {
    let mut app = make_app(items(), 0);
    app.mode = AppMode::Help;
    handle_key(&mut app, &key(KeyCode::Char('?')), false, false, unread(), unread_combs());
    assert!(matches!(app.mode, AppMode::Normal));

    handle_key(&mut app, &key(KeyCode::Char('a')), false, false, unread(), unread_combs());
    assert!(matches!(&app.mode, AppMode::Input { action: InputAction::AddHiveUrl, .. }));
    for c in "acme/api".chars() {
        handle_key(&mut app, &key(KeyCode::Char(c)), false, false, unread(), unread_combs());
    }
    match handle_key(&mut app, &key(KeyCode::Enter), false, false, unread(), unread_combs()) {
        KeyStep::Submit(SubmitStep::AddHive { url }) => assert_eq!(url, "acme/api"),
        _ => panic!("expected the hive to add"),
    }
    app.finish_add_hive(Ok("api".to_string()));
    assert_eq!(app.status_message.as_deref(), Some("Added 'api'"));
    app.finish_add_hive(Err("not found".to_string()));
    assert_eq!(app.status_message.as_deref(), Some("Failed: not found"));
}

#[test]
fn focus_moves_to_an_open_terminal_and_back() {
    let mut app = make_app(items(), 1);
    handle_key(&mut app, &ctrl(KeyCode::Char(' ')), true, false, unread(), unread_combs());
    assert!(matches!(app.focus, Focus::Terminal));
    // Keys typed in the terminal pane are not sidebar keys.
    assert!(matches!(handle_key(&mut app, &key(KeyCode::Char('q')), true, false, unread(), unread_combs()), KeyStep::Done));
    assert!(matches!(app.mode, AppMode::Normal));
    handle_key(&mut app, &ctrl(KeyCode::Char(' ')), false, false, unread(), unread_combs());
    assert!(matches!(app.focus, Focus::Terminal));
}

#[test]
fn entering_a_missing_comb_dir_is_reported() {
    let mut app = make_app(items(), 1);
    assert!(app.finish_enter(true));
    assert_eq!(app.status_message, None);
    assert!(!app.finish_enter(false));
    assert_eq!(app.status_message.as_deref(), Some("Dir not found"));
}

#[test]
fn settings_reset_asks_first() {
    let mut app = make_app(items(), 0);
    app.mode = AppMode::Settings {
        preflight: beehive::settings::PreflightResult { git: Some("git version 2".to_string()), gh: None, gh_auth: false },
    };
    handle_key(&mut app, &key(KeyCode::Char('R')), false, false, unread(), unread_combs());
    assert!(matches!(&app.mode, AppMode::Confirm { action: ConfirmAction::ResetConfig, .. }));
    assert!(matches!(handle_key(&mut app, &key(KeyCode::Char('Y')), false, false, unread(), unread_combs()), KeyStep::Confirm(ConfirmStep::ResetConfig)));
    app.finish_reset(Err("denied".to_string()));
    assert_eq!(app.status_message.as_deref(), Some("Reset failed: denied"));
    app.finish_reset(Ok(()));
    assert_eq!(app.status_message.as_deref(), Some("Config reset. Restart to reconfigure."));
}

#[test]
fn paste_goes_into_the_open_prompt_or_filter() {
    let mut app = make_app(items(), 0);
    app.mode = AppMode::Input {
        prompt: "Comb name".to_string(),
        value: "ab".to_string(),
        cursor: 1,
        action: InputAction::AddHiveUrl,
    };
    beehive::handlers::paste_into_mode(&mut app, "XY");
    assert!(matches!(&app.mode, AppMode::Input { value, cursor: 3, .. } if value == "aXYb"));

    app.mode = AppMode::CombFinder { targets: vec![], filter: "fo".to_string(), filter_cursor: 2, selected: 4 };
    beehive::handlers::paste_into_mode(&mut app, "o");
    assert!(matches!(&app.mode, AppMode::CombFinder { filter, filter_cursor: 3, selected: 0, .. } if filter == "foo"));

    app.mode = AppMode::Normal;
    beehive::handlers::paste_into_mode(&mut app, "ignored");
    assert!(matches!(app.mode, AppMode::Normal));
}

#[test]
fn new_app_and_terminal_bookkeeping() {

    let mut app = App::new("/tmp/beehive".to_string(), true, 30, Some("  ".to_string()));
    assert!(app.is_wf());
    assert_eq!(app.comb_startup_command, None);
    assert_eq!(app.sidebar_width, 30);
    let mut app2 = App::new("/tmp/beehive".to_string(), false, 28, Some("lazygit".to_string()));
    assert_eq!(app2.startup_command_for("a").as_deref(), Some("lazygit"));
    app2.terminal_opened("a", Ok(true));
    assert_eq!(app2.startup_command_for("a"), None);
    assert!(matches!(app2.focus, Focus::Terminal));
    app.terminal_opened("a", Err("no pty".to_string()));
    assert_eq!(app.status_message.as_deref(), Some("Terminal: no pty"));
    assert_eq!(initial_terminal_size(100, 40), (37, 70));
    assert_eq!(initial_terminal_size(10, 2), (5, 20));
}

#[test]
fn loop_refreshes_on_schedule_and_resizes_on_change() {
    assert!(beehive::tui::refresh_due(312, false, false));
    assert!(beehive::tui::refresh_due(624, false, false));
    assert!(!beehive::tui::refresh_due(311, false, false));
    assert!(!beehive::tui::refresh_due(312, true, false));
    assert!(!beehive::tui::refresh_due(312, false, true));
    let mut app = App::new("/tmp/beehive".to_string(), true, 30, None);
    assert_eq!(app.take_new_term_size((80, 24)), Some((80, 24)));
    assert_eq!(app.last_term_size, (80, 24));
    assert_eq!(app.take_new_term_size((80, 24)), None);
    assert_eq!(app.take_new_term_size((0, 24)), None);
    assert_eq!(app.last_term_size, (80, 24));
    assert_eq!(app.take_new_term_size((100, 30)), Some((100, 30)));
}
