use beehive::finder::{filter_comb_finder_targets, CombFinderTarget};
use beehive::keymap::{key_command, KeyCommand, ModeKind};
use beehive::keys::{KeyCode, KeyEvent, KeyModifiers};
use beehive::pickers::{
    branch_picker_key, comb_finder_key, input_key, BranchKeyOutcome, FinderKeyOutcome,
    InputKeyOutcome,
};
use beehive::state::Focus;

fn target(hive_dir: &str, repo: &str, id: &str, name: &str, branch: &str) -> CombFinderTarget {
    CombFinderTarget {
        hive_dir_name: hive_dir.to_string(),
        hive_repo_name: repo.to_string(),
        comb_id: id.to_string(),
        comb_name: name.to_string(),
        branch: branch.to_string(),
    }
}

#[test]
fn filter_comb_finder_targets_matches_name_branch_and_hive_case_insensitively() {
    let targets = vec![
        target("repo_api", "ApiServer", "1", "feature-login", "fix/auth"),
        target("repo_web", "Frontend", "2", "homepage", "main"),
    ];

    assert_eq!(filter_comb_finder_targets(&targets, "LOGIN").len(), 1);
    assert_eq!(filter_comb_finder_targets(&targets, "auth").len(), 1);
    assert_eq!(filter_comb_finder_targets(&targets, "front").len(), 1);
    assert_eq!(filter_comb_finder_targets(&targets, "").len(), 2);
}

#[test]
fn filter_comb_finder_targets_ranks_name_matches_above_branch_matches() {
    let targets = vec![
        target("repo_api", "ApiServer", "1", "feature-branch", "main"),
        target("repo_web", "Frontend", "2", "alpha", "foo/bar"),
    ];

    let filtered = filter_comb_finder_targets(&targets, "fb");

    assert_eq!(filtered.len(), 2);
    assert_eq!(filtered[0].comb_id, "1");
    assert_eq!(filtered[1].comb_id, "2");
}

#[test]
fn filter_ranks_exact_name_first() {
    // The exact name scores higher than the longer prefix match.
    let targets = vec![
        target("h", "r", "1", "abx", "z"),
        target("h", "r", "2", "ab", "z"),
    ];
    let filtered = filter_comb_finder_targets(&targets, "ab");
    assert_eq!(filtered.len(), 2);
    assert_eq!(filtered[0].comb_id, "2");
    assert_eq!(filtered[1].comb_id, "1");
}

#[test]
fn comb_finder_key_enter_picks_the_listed_comb() {
    let targets = vec![
        target("repo_api", "api", "a", "alpha", "main"),
        target("repo_api", "api", "b", "beta", "main"),
    ];
    let mut filter = "bet".to_string();
    let mut cursor = 3;
    let mut selected = 0;
    let outcome = comb_finder_key(&targets, &mut filter, &mut cursor, &mut selected, &KeyCode::Enter);
    match outcome {
        FinderKeyOutcome::Jump { hive_dir_name, comb_id, comb_name } => {
            assert_eq!(hive_dir_name, "repo_api");
            assert_eq!(comb_id, "b");
            assert_eq!(comb_name, "beta");
        }
        _ => panic!("expected a jump"),
    }
}

#[test]
fn comb_finder_enter_without_match_reports_none() {
    let targets = vec![target("repo_api", "api", "a", "alpha", "main")];
    let mut filter = "zzz".to_string();
    let mut cursor = 3;
    let mut selected = 0;
    let outcome = comb_finder_key(&targets, &mut filter, &mut cursor, &mut selected, &KeyCode::Enter);
    assert!(matches!(outcome, FinderKeyOutcome::NoMatch));
}

#[test]
fn comb_finder_selection_wraps_up_and_stops_down() {
    let targets = vec![
        target("h", "r", "a", "alpha", "main"),
        target("h", "r", "b", "beta", "main"),
    ];
    let mut filter = String::new();
    let mut cursor = 0;
    let mut selected = 0;
    comb_finder_key(&targets, &mut filter, &mut cursor, &mut selected, &KeyCode::Up);
    assert_eq!(selected, 1);
    comb_finder_key(&targets, &mut filter, &mut cursor, &mut selected, &KeyCode::Char('j'));
    assert_eq!(selected, 1);
    comb_finder_key(&targets, &mut filter, &mut cursor, &mut selected, &KeyCode::Char('k'));
    assert_eq!(selected, 0);
    // Typing resets the selection and inserts at the cursor.
    selected = 1;
    comb_finder_key(&targets, &mut filter, &mut cursor, &mut selected, &KeyCode::Char('b'));
    assert_eq!((filter.as_str(), cursor, selected), ("b", 1, 0));
    comb_finder_key(&targets, &mut filter, &mut cursor, &mut selected, &KeyCode::Left);
    comb_finder_key(&targets, &mut filter, &mut cursor, &mut selected, &KeyCode::Char('a'));
    assert_eq!((filter.as_str(), cursor), ("ab", 1));
    comb_finder_key(&targets, &mut filter, &mut cursor, &mut selected, &KeyCode::Backspace);
    assert_eq!((filter.as_str(), cursor), ("b", 0));
    assert!(matches!(
        comb_finder_key(&targets, &mut filter, &mut cursor, &mut selected, &KeyCode::Esc),
        FinderKeyOutcome::Close
    ));
}

#[test]
fn branch_picker_enter_picks_selected_filter_or_default() {
    let branches = vec!["main".to_string(), "feature-x".to_string()];
    let default = "main".to_string();

    let mut filter = "feat".to_string();
    let mut cursor = 4;
    let mut selected = 0;
    match branch_picker_key(&branches, &default, &mut filter, &mut cursor, &mut selected, &KeyCode::Enter) {
        BranchKeyOutcome::Create { branch } => assert_eq!(branch, "feature-x"),
        _ => panic!("expected a branch"),
    }

    // Nothing matches: the typed text names a new branch.
    let mut filter = "new-work".to_string();
    let mut cursor = 8;
    match branch_picker_key(&branches, &default, &mut filter, &mut cursor, &mut selected, &KeyCode::Enter) {
        BranchKeyOutcome::Create { branch } => assert_eq!(branch, "new-work"),
        _ => panic!("expected a branch"),
    }

    // No branches and nothing typed: the default branch.
    let none: Vec<String> = vec![];
    let mut filter = String::new();
    let mut cursor = 0;
    match branch_picker_key(&none, &default, &mut filter, &mut cursor, &mut selected, &KeyCode::Enter) {
        BranchKeyOutcome::Create { branch } => assert_eq!(branch, "main"),
        _ => panic!("expected a branch"),
    }

    // Selection past the list: the default branch.
    let mut filter = String::new();
    let mut selected = 5;
    match branch_picker_key(&branches, &default, &mut filter, &mut cursor, &mut selected, &KeyCode::Enter) {
        BranchKeyOutcome::Create { branch } => assert_eq!(branch, "main"),
        _ => panic!("expected a branch"),
    }
}

#[test]
fn input_keys_edit_the_value() {
    let mut value = String::new();
    let mut cursor = 0;
    for c in "hllo".chars() {
        assert_eq!(input_key(&mut value, &mut cursor, &KeyCode::Char(c)), InputKeyOutcome::Stay);
    }
    input_key(&mut value, &mut cursor, &KeyCode::Home);
    input_key(&mut value, &mut cursor, &KeyCode::Right);
    input_key(&mut value, &mut cursor, &KeyCode::Char('e'));
    assert_eq!((value.as_str(), cursor), ("hello", 2));
    input_key(&mut value, &mut cursor, &KeyCode::Delete);
    assert_eq!((value.as_str(), cursor), ("helo", 2));
    input_key(&mut value, &mut cursor, &KeyCode::End);
    input_key(&mut value, &mut cursor, &KeyCode::Backspace);
    assert_eq!((value.as_str(), cursor), ("hel", 3));
    // Typing then deleting a character restores the value and cursor.
    input_key(&mut value, &mut cursor, &KeyCode::Left);
    input_key(&mut value, &mut cursor, &KeyCode::Char('é'));
    input_key(&mut value, &mut cursor, &KeyCode::Backspace);
    assert_eq!((value.as_str(), cursor), ("hel", 2));
    assert_eq!(input_key(&mut value, &mut cursor, &KeyCode::Enter), InputKeyOutcome::Submit);
    assert_eq!(input_key(&mut value, &mut cursor, &KeyCode::Esc), InputKeyOutcome::Cancel);
    assert_eq!(value, "hel");
}

fn ctrl_space() -> KeyEvent {
    KeyEvent { code: KeyCode::Char(' '), modifiers: KeyModifiers::control() }
}

#[test]
fn key_command_ctrl_space_over_input_focuses_sidebar() {
    let cmd = key_command(ModeKind::Input, Focus::Sidebar, &ctrl_space(), false, 28);
    assert_eq!(cmd, KeyCommand::FocusSidebar);
}

#[test]
fn key_command_input_escape_goes_to_the_prompt() {
    let esc = KeyEvent { code: KeyCode::Esc, modifiers: KeyModifiers::none() };
    let cmd = key_command(ModeKind::Input, Focus::Terminal, &esc, true, 28);
    assert_eq!(cmd, KeyCommand::ToMode(ModeKind::Input));
    let mut value = "draft".to_string();
    let mut cursor = 5;
    assert_eq!(input_key(&mut value, &mut cursor, &KeyCode::Esc), InputKeyOutcome::Cancel);
}
