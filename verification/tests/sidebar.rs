use beehive::finder::CombFinderTarget;
use beehive::handlers::{handle_comb_finder, handle_delete_mode, handle_moving_comb, MoveStep};
use beehive::keys::KeyCode;
use beehive::model::{Comb, HiveInfo, Nest};
use beehive::pickers::FinderKeyOutcome;
use beehive::state::{AppMode, DeleteTarget, Focus, NavItem, RefreshResult};
use beehive::tui::App;

fn hive(dir_name: &str, repo_name: &str) -> HiveInfo {
    HiveInfo {
        dir_name: dir_name.to_string(),
        repo_url: format!("https://github.com/acme/{}.git", repo_name),
        repo_name: repo_name.to_string(),
        owner: "acme".to_string(),
        description: None,
        default_branch: Some("main".to_string()),
        custom_buttons: vec![],
    }
}

fn comb(id: &str, name: &str, branch: &str) -> Comb {
    Comb {
        id: id.to_string(),
        name: name.to_string(),
        branch: branch.to_string(),
        path: format!("/tmp/{}", name),
        created_at: "0".to_string(),
        nest_id: None,
        panes: vec![],
        cloning: false,
        operation: None,
    }
}

fn comb_with_nest(id: &str, name: &str, branch: &str, nest_id: &str) -> Comb {
    Comb { nest_id: Some(nest_id.to_string()), ..comb(id, name, branch) }
}

fn nest(id: &str, name: &str) -> Nest {
    Nest { id: id.to_string(), name: name.to_string() }
}

fn make_app(items: Vec<NavItem>, selected: usize) -> App {
    App {
        beehive_dir: "/tmp/beehive".to_string(),
        items,
        selected,
        mode: AppMode::Normal,
        should_quit: false,
        status_message: None,
        active_comb_id: None,
        focus: Focus::Sidebar,
        last_term_size: (0, 0),
        update_available: None,
        sidebar_width: 28,
        comb_startup_command: None,
        deleting_comb_ids: Vec::new(),
        deleting_nest_ids: Vec::new(),
        deleting_hive_dir_names: Vec::new(),
        startup_applied_comb_ids: Vec::new(),
        keyboard_enhanced: false,
        needs_refresh: false,
    }
}

fn hive_item(dir_name: &str, repo_name: &str, comb_count: usize) -> NavItem {
    NavItem::Hive { info: hive(dir_name, repo_name), expanded: true, comb_count }
}

fn comb_item(c: Comb) -> NavItem {
    NavItem::Comb { hive_dir_name: "repo_api".to_string(), comb: c }
}

fn comb_id_at(app: &App, i: usize) -> &str {
    match &app.items[i] {
        NavItem::Comb { comb, .. } => comb.id.as_str(),
        _ => panic!("expected a comb"),
    }
}

fn delete_mode(comb_ids: &[&str], nest_ids: &[&str]) -> AppMode {
    AppMode::DeleteCombSelection {
        hive_dir_name: "repo_api".to_string(),
        selected_comb_ids: comb_ids.iter().map(|s| s.to_string()).collect(),
        selected_nest_ids: nest_ids.iter().map(|s| s.to_string()).collect(),
    }
}

#[test]
fn apply_refresh_preserves_selected_comb_by_id() {
    let selected_comb = comb("b", "beta", "main");
    let mut app = make_app(
        vec![
            hive_item("repo_api", "api", 2),
            comb_item(comb("a", "alpha", "main")),
            comb_item(selected_comb.clone()),
        ],
        2,
    );

    app.apply_refresh(RefreshResult {
        hive_data: vec![(
            hive("repo_api", "api"),
            vec![],
            vec![comb("x", "aardvark", "main"), comb("a", "alpha", "main"), selected_comb],
        )],
    });

    assert_eq!(app.selected, 3);
    assert_eq!(comb_id_at(&app, app.selected), "b");
}

#[test]
fn move_comb_up_allows_reorder_inside_same_nest() {
    let mut app = make_app(
        vec![
            hive_item("repo_api", "api", 2),
            comb_item(comb_with_nest("a", "alpha", "main", "nest-1")),
            comb_item(comb_with_nest("b", "beta", "main", "nest-1")),
        ],
        2,
    );

    assert!(app.move_comb_up());

    assert_eq!(app.selected, 1);
    assert_eq!(comb_id_at(&app, 1), "b");
}

#[test]
fn move_comb_up_crosses_nest_boundary() {
    let mut app = make_app(
        vec![
            hive_item("repo_api", "api", 2),
            comb_item(comb_with_nest("a", "alpha", "main", "nest-1")),
            comb_item(comb_with_nest("b", "beta", "main", "nest-2")),
        ],
        2,
    );

    assert!(app.move_comb_up());

    assert_eq!(app.selected, 1);
    match &app.items[1] {
        NavItem::Comb { comb, .. } => {
            assert_eq!(comb.id, "b");
            assert_eq!(comb.nest_id.as_deref(), Some("nest-1"));
        }
        _ => panic!("expected moved comb"),
    }
}

#[test]
fn move_comb_down_crosses_into_next_nest() {
    let mut app = make_app(
        vec![
            hive_item("repo_api", "api", 1),
            comb_item(comb("a", "alpha", "main")),
            NavItem::Nest {
                hive_dir_name: "repo_api".to_string(),
                nest: nest("nest-1", "Nest 1"),
                expanded: true,
                comb_count: 0,
            },
        ],
        1,
    );

    assert!(app.move_comb_down());

    assert_eq!(app.selected, 2);
    match &app.items[2] {
        NavItem::Comb { comb, .. } => {
            assert_eq!(comb.id, "a");
            assert_eq!(comb.nest_id.as_deref(), Some("nest-1"));
        }
        _ => panic!("expected moved comb"),
    }
}

#[test]
fn start_delete_mode_from_hive_selects_first_comb_in_that_hive() {
    let mut app = make_app(
        vec![
            hive_item("repo_api", "api", 2),
            comb_item(comb("a", "alpha", "main")),
            comb_item(comb("b", "beta", "main")),
        ],
        0,
    );

    // The hive is already expanded: its state is not needed.
    app.start_delete_mode(Err("not read".to_string()));

    assert!(matches!(app.mode, AppMode::DeleteCombSelection { .. }));
    assert_eq!(app.selected, 1);
}

#[test]
fn selected_delete_targets_follow_marked_comb_ids() {
    let mut app = make_app(
        vec![
            hive_item("repo_api", "api", 3),
            comb_item(comb("a", "alpha", "main")),
            comb_item(comb("b", "beta", "main")),
            comb_item(comb("c", "gamma", "main")),
        ],
        1,
    );
    app.mode = delete_mode(&["a", "c"], &[]);

    let targets = app.selected_delete_targets();

    assert_eq!(targets.len(), 2);
    assert!(matches!(&targets[0], DeleteTarget::Comb { comb_id, .. } if comb_id == "a"));
    assert!(matches!(&targets[1], DeleteTarget::Comb { comb_id, .. } if comb_id == "c"));
}

#[test]
fn selected_delete_targets_include_marked_nests() {
    let mut app = make_app(
        vec![
            hive_item("repo_api", "api", 1),
            NavItem::Nest {
                hive_dir_name: "repo_api".to_string(),
                nest: nest("nest-1", "Work"),
                expanded: true,
                comb_count: 1,
            },
            comb_item(comb_with_nest("a", "alpha", "main", "nest-1")),
        ],
        1,
    );
    app.mode = delete_mode(&[], &["nest-1"]);

    let targets = app.selected_delete_targets();

    assert_eq!(targets.len(), 1);
    assert!(matches!(&targets[0], DeleteTarget::Nest { nest_id, .. } if nest_id == "nest-1"));
}

#[test]
fn toggle_delete_selection_marks_current_nest() {
    let mut app = make_app(
        vec![
            hive_item("repo_api", "api", 0),
            NavItem::Nest {
                hive_dir_name: "repo_api".to_string(),
                nest: nest("nest-1", "Work"),
                expanded: true,
                comb_count: 0,
            },
        ],
        1,
    );
    app.mode = delete_mode(&[], &[]);

    app.toggle_delete_selection();
    assert!(app.is_nest_marked_for_delete("nest-1"));

    app.toggle_delete_selection();
    assert!(!app.is_nest_marked_for_delete("nest-1"));
}

#[test]
fn start_add_hive_forces_sidebar_focus() {
    let mut app = make_app(vec![], 0);
    app.focus = Focus::Terminal;

    app.start_add_hive();

    assert!(matches!(app.mode, AppMode::Input { .. }));
    assert!(matches!(app.focus, Focus::Sidebar));
}

#[test]
fn start_delete_mode_forces_sidebar_focus() {
    let mut app = make_app(vec![hive_item("repo_api", "api", 1), comb_item(comb("a", "alpha", "main"))], 1);
    app.focus = Focus::Terminal;

    app.start_delete_mode(Err("not read".to_string()));

    assert!(matches!(app.mode, AppMode::DeleteCombSelection { .. }));
    assert!(matches!(app.focus, Focus::Sidebar));
}

#[test]
fn moving_comb_escape_restores_original_selection_and_items() {
    let original_items = vec![
        hive_item("repo_api", "api", 2),
        comb_item(comb("a", "alpha", "main")),
        comb_item(comb("b", "beta", "main")),
    ];
    let mut moved_items = original_items.clone();
    moved_items.swap(1, 2);

    let mut app = make_app(moved_items, 1);
    app.mode = AppMode::MovingComb {
        hive_dir_name: "repo_api".to_string(),
        moving_comb_id: "b".to_string(),
        original_items: original_items.clone(),
        original_selected: 2,
    };

    let step = handle_moving_comb(&mut app, &KeyCode::Esc);

    assert!(matches!(step, MoveStep::Stay));
    assert!(matches!(app.mode, AppMode::Normal));
    assert_eq!(app.selected, 2);
    assert_eq!(comb_id_at(&app, 2), "b");
    assert_eq!(app.status_message.as_deref(), Some("Move cancelled"));
}

#[test]
fn delete_mode_enter_requires_a_selection() {
    let mut app = make_app(
        vec![
            hive_item("repo_api", "api", 2),
            comb_item(comb("a", "alpha", "main")),
            comb_item(comb("b", "beta", "main")),
        ],
        1,
    );
    app.mode = delete_mode(&[], &[]);

    let targets = handle_delete_mode(&mut app, &KeyCode::Enter);

    assert!(targets.is_none());
    assert!(matches!(app.mode, AppMode::DeleteCombSelection { .. }));
    assert_eq!(app.status_message.as_deref(), Some("No combs selected for delete"));
}

#[test]
fn delete_mode_d_toggles_current_comb() {
    let mut app = make_app(vec![hive_item("repo_api", "api", 1), comb_item(comb("a", "alpha", "main"))], 1);
    app.mode = delete_mode(&[], &[]);

    handle_delete_mode(&mut app, &KeyCode::Char('d'));
    assert!(app.is_marked_for_delete("a"));

    handle_delete_mode(&mut app, &KeyCode::Char('d'));
    assert!(!app.is_marked_for_delete("a"));
}

#[test]
fn delete_mode_enter_hands_back_the_marked_combs() {
    let mut app = make_app(
        vec![
            hive_item("repo_api", "api", 2),
            comb_item(comb("a", "alpha", "main")),
            comb_item(comb("b", "beta", "main")),
        ],
        1,
    );
    app.mode = delete_mode(&["b"], &[]);

    let targets = handle_delete_mode(&mut app, &KeyCode::Enter).expect("targets");

    assert!(matches!(app.mode, AppMode::Normal));
    assert_eq!(targets.len(), 1);
    assert!(matches!(&targets[0], DeleteTarget::Comb { comb_id, comb_name, .. } if comb_id == "b" && comb_name == "beta"));
}

#[test]
fn delete_mode_escape_cancels() {
    let mut app = make_app(vec![hive_item("repo_api", "api", 1), comb_item(comb("a", "alpha", "main"))], 1);
    app.mode = delete_mode(&["a"], &[]);

    assert!(handle_delete_mode(&mut app, &KeyCode::Esc).is_none());

    assert!(matches!(app.mode, AppMode::Normal));
    assert_eq!(app.status_message.as_deref(), Some("Delete cancelled"));
}

#[test]
fn moving_comb_enter_asks_to_save_and_reports() {
    let items = vec![
        hive_item("repo_api", "api", 2),
        comb_item(comb("a", "alpha", "main")),
        comb_item(comb("b", "beta", "main")),
    ];
    let mut app = make_app(items.clone(), 0);
    app.needs_refresh = true;
    app.mode = AppMode::MovingComb {
        hive_dir_name: "repo_api".to_string(),
        moving_comb_id: "b".to_string(),
        original_items: items,
        original_selected: 2,
    };

    // The selection goes back to the comb being moved, which then moves up.
    assert!(matches!(handle_moving_comb(&mut app, &KeyCode::Up), MoveStep::Stay));
    assert_eq!(app.selected, 1);
    assert_eq!(comb_id_at(&app, 1), "b");

    match handle_moving_comb(&mut app, &KeyCode::Char('m')) {
        MoveStep::SaveOrder { hive_dir_name } => assert_eq!(hive_dir_name, "repo_api"),
        _ => panic!("expected a save"),
    }
    assert!(matches!(app.mode, AppMode::Normal));
    assert_eq!(app.comb_order_for_hive("repo_api", None), vec!["b".to_string(), "a".to_string()]);

    assert!(app.finish_order_save(Ok(())));
    assert_eq!(app.status_message.as_deref(), Some("Order saved"));
    assert!(!app.needs_refresh);

    assert!(!app.finish_order_save(Err("disk full".to_string())));
    assert_eq!(app.status_message.as_deref(), Some("Failed to save order: disk full"));
}

#[test]
fn comb_finder_enter_jumps_to_matching_visible_comb() {
    let mut app = make_app(
        vec![
            hive_item("repo_api", "api", 2),
            comb_item(comb("a", "alpha", "main")),
            comb_item(comb("b", "beta", "main")),
        ],
        0,
    );
    let target = |id: &str, name: &str| CombFinderTarget {
        hive_dir_name: "repo_api".to_string(),
        hive_repo_name: "api".to_string(),
        comb_id: id.to_string(),
        comb_name: name.to_string(),
        branch: "main".to_string(),
    };
    app.mode = AppMode::CombFinder {
        targets: vec![target("a", "alpha"), target("b", "beta")],
        filter: "bet".to_string(),
        filter_cursor: 3,
        selected: 0,
    };

    assert_eq!(app.finder_jump_hive(&KeyCode::Enter).as_deref(), Some("repo_api"));
    assert_eq!(app.finder_jump_hive(&KeyCode::Down), None);
    // The comb is shown already: the hive's state is not needed.
    let outcome = handle_comb_finder(&mut app, &KeyCode::Enter, Err("not read".to_string()), Err("not read".to_string()));
    assert!(matches!(app.mode, AppMode::Normal));
    assert!(matches!(outcome, FinderKeyOutcome::Jump { comb_id, .. } if comb_id == "b"));
    assert_eq!(app.selected, 2);
    assert_eq!(app.status_message.as_deref(), Some("Jumped to 'beta'"));
}

#[test]
fn comb_finder_enter_without_match_says_so() {
    let mut app = make_app(vec![hive_item("repo_api", "api", 0)], 0);
    app.mode = AppMode::CombFinder {
        targets: vec![],
        filter: "zzz".to_string(),
        filter_cursor: 3,
        selected: 0,
    };
    assert_eq!(app.finder_jump_hive(&KeyCode::Enter), None);
    assert!(matches!(
        handle_comb_finder(&mut app, &KeyCode::Enter, Err("unused".to_string()), Err("unused".to_string())),
        FinderKeyOutcome::NoMatch
    ));
    assert!(matches!(app.mode, AppMode::Normal));
    assert_eq!(app.status_message.as_deref(), Some("No matching combs"));
}

#[test]
fn reveal_comb_expands_the_hive_then_the_nest() {
    let mut app = make_app(
        vec![NavItem::Hive { info: hive("repo_api", "api"), expanded: false, comb_count: 2 }],
        0,
    );
    let combs = vec![comb("a", "alpha", "main"), comb_with_nest("b", "beta", "main", "n1")];
    let state = Ok((vec![nest("n1", "Work")], combs.clone()));

    let revealed = app.reveal_comb("repo_api", "b", state, Ok(combs));

    assert_eq!(revealed, Ok(true));
    // Hive, loose comb a, nest n1 (now expanded), comb b.
    assert_eq!(app.items.len(), 4);
    assert!(matches!(&app.items[2], NavItem::Nest { expanded: true, .. }));
    assert_eq!(app.selected, 3);
    assert_eq!(comb_id_at(&app, 3), "b");

    // With the hive open and the nest closed, the nest is opened.
    let mut app = make_app(
        vec![
            hive_item("repo_api", "api", 1),
            NavItem::Nest {
                hive_dir_name: "repo_api".to_string(),
                nest: nest("n1", "Work"),
                expanded: false,
                comb_count: 1,
            },
        ],
        0,
    );
    let combs = vec![comb_with_nest("b", "beta", "main", "n1")];
    let revealed = app.reveal_comb("repo_api", "b", Ok((vec![nest("n1", "Work")], combs.clone())), Ok(combs));
    assert_eq!(revealed, Ok(true));
    assert_eq!(app.items.len(), 3);
    assert!(matches!(&app.items[1], NavItem::Nest { expanded: true, .. }));
    assert_eq!(app.selected, 2);
    assert_eq!(comb_id_at(&app, 2), "b");
}

#[test]
fn reveal_comb_reports_a_failed_read_and_a_missing_hive() {
    let mut app = make_app(
        vec![NavItem::Hive { info: hive("repo_api", "api"), expanded: false, comb_count: 1 }],
        0,
    );
    assert_eq!(
        app.reveal_comb("repo_api", "b", Err("no state".to_string()), Err("no state".to_string())),
        Err("no state".to_string())
    );
    assert_eq!(app.selected, 0);
    assert_eq!(
        app.reveal_comb("repo_web", "b", Err("unused".to_string()), Err("unused".to_string())),
        Ok(false)
    );

    app.finish_jump("beta", Ok(false));
    assert_eq!(app.status_message.as_deref(), Some("Comb not found"));
    app.finish_jump("beta", Err("no state".to_string()));
    assert_eq!(app.status_message.as_deref(), Some("Jump failed: no state"));
}

#[test]
fn start_comb_finder_lists_ready_combs_and_reports_failures() {
    let mut app = make_app(vec![], 0);
    let mut cloning = comb("c", "gamma", "main");
    cloning.cloning = true;
    app.start_comb_finder(Ok(vec![
        (hive("repo_api", "api"), Ok(vec![comb("a", "alpha", "main"), cloning])),
        (hive("repo_web", "web"), Ok(vec![comb("b", "beta", "dev")])),
    ]));
    match &app.mode {
        AppMode::CombFinder { targets, filter, filter_cursor, selected } => {
            assert_eq!(targets.len(), 2);
            assert_eq!(targets[0].comb_id, "a");
            assert_eq!(targets[1].hive_repo_name, "web");
            assert_eq!(targets[1].branch, "dev");
            assert!(filter.is_empty());
            assert_eq!((*filter_cursor, *selected), (0, 0));
        }
        _ => panic!("expected the finder"),
    }

    let mut app = make_app(vec![], 0);
    app.start_comb_finder(Ok(vec![(hive("repo_api", "api"), Err("bad state".to_string()))]));
    assert!(matches!(app.mode, AppMode::Normal));
    assert_eq!(app.status_message.as_deref(), Some("Failed to load combs: bad state"));

    app.start_comb_finder(Ok(vec![]));
    assert_eq!(app.status_message.as_deref(), Some("No combs to jump to"));

    app.start_comb_finder(Err("no dir".to_string()));
    assert_eq!(app.status_message.as_deref(), Some("Failed to load combs: no dir"));
}

#[test]
fn remove_hive_terminals_lists_the_hive_combs_and_drops_the_shown_one() {
    let mut app = make_app(
        vec![
            hive_item("repo_api", "api", 2),
            comb_item(comb("a", "alpha", "main")),
            comb_item(comb("b", "beta", "main")),
            hive_item("repo_web", "web", 1),
            NavItem::Comb { hive_dir_name: "repo_web".to_string(), comb: comb("w", "web1", "main") },
        ],
        1,
    );
    app.active_comb_id = Some("b".to_string());
    app.focus = Focus::Terminal;

    let ids = app.remove_hive_terminals("repo_api");

    assert_eq!(ids, vec!["a".to_string(), "b".to_string()]);
    assert_eq!(app.active_comb_id, None);
    assert!(matches!(app.focus, Focus::Sidebar));
}

#[test]
fn comb_order_merges_shown_order_into_state_order() {
    let app = make_app(
        vec![
            hive_item("repo_api", "api", 2),
            comb_item(comb("b", "beta", "main")),
            comb_item(comb("a", "alpha", "main")),
        ],
        0,
    );
    // The state also holds a comb in a collapsed nest, which keeps its place.
    let state = vec![comb("a", "alpha", "main"), comb_with_nest("n", "nested", "main", "n1"), comb("b", "beta", "main")];
    assert_eq!(
        app.comb_order_for_hive("repo_api", Some(state)),
        vec!["b".to_string(), "n".to_string(), "a".to_string()]
    );
}

#[test]
fn marking_twice_keeps_the_marked_set() {
    let mut app = make_app(
        vec![
            hive_item("repo_api", "api", 2),
            comb_item(comb("a", "alpha", "main")),
            comb_item(comb("b", "beta", "main")),
        ],
        1,
    );
    app.mode = delete_mode(&["a", "b"], &[]);

    app.toggle_delete_selection();
    assert!(!app.is_marked_for_delete("a"));
    assert!(app.is_marked_for_delete("b"));

    app.toggle_delete_selection();
    assert!(app.is_marked_for_delete("a"));
    assert!(app.is_marked_for_delete("b"));
    assert_eq!(app.delete_selection_count(), 2);
}
