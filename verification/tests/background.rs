use beehive::background::{delete_summary_text, join_strings, CloneFollowUp};
use beehive::model::{Comb, HiveInfo};
use beehive::state::{AppMode, CloneResult, DeleteResult, DeleteTarget, Focus, NavItem};
use beehive::tui::App;

fn hive(dir_name: &str, repo_name: &str) -> HiveInfo {
    HiveInfo {
        dir_name: dir_name.to_string(),
        repo_url: format!("https://github.com/acme/{}.git", repo_name),
        repo_name: repo_name.to_string(),
        owner: "acme".to_string(),
        description: None,
        default_branch: Some("main".to_string()),
        custom_buttons: vec![],
    }
}

fn comb(id: &str, name: &str, cloning: bool) -> Comb {
    Comb {
        id: id.to_string(),
        name: name.to_string(),
        branch: "main".to_string(),
        path: format!("/tmp/{}", name),
        created_at: "0".to_string(),
        nest_id: None,
        panes: vec![],
        cloning,
        operation: None,
    }
}

fn make_app(items: Vec<NavItem>) -> App {
    App {
        beehive_dir: "/tmp/beehive".to_string(),
        items,
        selected: 0,
        mode: AppMode::Normal,
        should_quit: false,
        status_message: None,
        active_comb_id: None,
        focus: Focus::Sidebar,
        last_term_size: (0, 0),
        update_available: None,
        sidebar_width: 28,
        comb_startup_command: None,
        deleting_comb_ids: Vec::new(),
        deleting_nest_ids: Vec::new(),
        deleting_hive_dir_names: Vec::new(),
        startup_applied_comb_ids: Vec::new(),
        keyboard_enhanced: false,
        needs_refresh: false,
    }
}

fn items() -> Vec<NavItem> {
    vec![
        NavItem::Hive { info: hive("repo_api", "api"), expanded: true, comb_count: 2 },
        NavItem::Comb { hive_dir_name: "repo_api".to_string(), comb: comb("a", "alpha", false) },
        NavItem::Comb { hive_dir_name: "repo_api".to_string(), comb: comb("b", "beta", true) },
    ]
}

fn clone_result(c: Result<Comb, String>, is_copy: bool) -> CloneResult {
    CloneResult { comb: c, comb_name: "beta".to_string(), hive_dir_name: "repo_api".to_string(), is_copy }
}

#[test]
fn finished_clone_asks_for_a_refresh() {
    let mut app = make_app(items());
    let r = app.finish_clone(clone_result(Ok(comb("b", "beta", false)), false), false);
    assert!(matches!(r, CloneFollowUp::Refresh));
    assert_eq!(app.status_message.as_deref(), Some("Created 'beta'"));
    assert!(!app.needs_refresh);
}

#[test]
fn finished_copy_becomes_active_and_opens() {
    let mut app = make_app(items());
    match app.finish_clone(clone_result(Ok(comb("b", "beta", false)), true), false) {
        CloneFollowUp::RefreshAndOpen { comb_id, path } => {
            assert_eq!(comb_id, "b");
            assert_eq!(path, "/tmp/beta");
        }
        _ => panic!("expected a terminal to open"),
    }
    assert_eq!(app.active_comb_id.as_deref(), Some("b"));
    assert_eq!(app.status_message.as_deref(), Some("Copied 'beta'"));
}

#[test]
fn clone_ending_while_paused_updates_in_place() {
    let mut app = make_app(items());
    let r = app.finish_clone(clone_result(Ok(comb("b", "beta", false)), false), true);
    assert!(matches!(r, CloneFollowUp::Deferred));
    assert!(app.needs_refresh);
    match &app.items[2] {
        NavItem::Comb { comb, .. } => assert!(!comb.cloning),
        _ => panic!("expected a comb"),
    }

    // A failed copy while a comb is moved drops the placeholder.
    let mut app = make_app(items());
    app.mode = AppMode::MovingComb {
        hive_dir_name: "repo_api".to_string(),
        moving_comb_id: "a".to_string(),
        original_items: items(),
        original_selected: 1,
    };
    let r = app.finish_clone(clone_result(Err("no space".to_string()), true), false);
    assert!(matches!(r, CloneFollowUp::Deferred));
    assert_eq!(app.items.len(), 2);
    assert_eq!(app.status_message.as_deref(), Some("Copy failed: no space"));
}

#[test]
fn failed_clone_reports_and_refreshes() {
    let mut app = make_app(items());
    let r = app.finish_clone(clone_result(Err("exit 128".to_string()), false), false);
    assert!(matches!(r, CloneFollowUp::Refresh));
    assert_eq!(app.items.len(), 3);
    assert_eq!(app.status_message.as_deref(), Some("Clone failed: exit 128"));
}

fn delete_result(combs: &[&str], hives: &[&str], errors: &[&str]) -> DeleteResult {
    let v = |xs: &[&str]| xs.iter().map(|s| s.to_string()).collect::<Vec<String>>();
    DeleteResult {
        deleted_comb_names: v(combs),
        deleted_nest_names: vec![],
        deleted_hive_names: v(hives),
        errors: v(errors),
    }
}

#[test]
fn finished_delete_clears_markers_and_sums_up() {
    let mut app = make_app(items());
    app.deleting_comb_ids = vec!["a".to_string(), "b".to_string()];
    app.deleting_hive_dir_names = vec!["repo_api".to_string(), "repo_web".to_string()];
    app.finish_delete(&delete_result(&["alpha"], &["api"], &[]));
    assert_eq!(app.deleting_comb_ids, vec!["b".to_string()]);
    assert_eq!(app.deleting_hive_dir_names, vec!["repo_web".to_string()]);
    assert_eq!(app.status_message.as_deref(), Some("Deleted 'alpha'; Deleted hive 'api'"));
}

#[test]
fn delete_summaries() {
    assert_eq!(delete_summary_text(&delete_result(&["a", "b", "c"], &[], &[])), "Deleted 3 combs");
    assert_eq!(delete_summary_text(&delete_result(&[], &["x", "y"], &[])), "Deleted 2 hives");
    assert_eq!(
        delete_summary_text(&delete_result(&[], &[], &["e1", "e2"])),
        "Delete failed: e1; e2"
    );
    assert_eq!(
        delete_summary_text(&delete_result(&["a"], &[], &["e1"])),
        "Deleted 'a'; e1"
    );
    assert_eq!(delete_summary_text(&delete_result(&[], &[], &[])), "");
    assert_eq!(join_strings(&vec!["x".to_string(), "y".to_string(), "z".to_string()], ", "), "x, y, z");
}

#[test]
fn beginning_a_delete_marks_targets_and_closes_terminals() {
    let mut app = make_app(items());
    assert!(app.begin_delete(&vec![]).is_none());
    assert_eq!(app.status_message.as_deref(), Some("Nothing selected for delete"));

    app.active_comb_id = Some("b".to_string());
    app.focus = Focus::Terminal;
    let close = app
        .begin_delete(&vec![
            DeleteTarget::Comb {
                hive_dir_name: "repo_api".to_string(),
                comb_id: "a".to_string(),
                comb_name: "alpha".to_string(),
            },
            DeleteTarget::Hive { dir_name: "repo_api".to_string(), repo_name: "api".to_string() },
        ])
        .expect("terminals to close");
    assert_eq!(close, vec!["a".to_string(), "a".to_string(), "b".to_string()]);
    assert_eq!(app.deleting_comb_ids, vec!["a".to_string()]);
    assert_eq!(app.deleting_hive_dir_names, vec!["repo_api".to_string()]);
    assert_eq!(app.active_comb_id, None);
    assert!(matches!(app.focus, Focus::Sidebar));
    assert_eq!(app.status_message, None);
}
