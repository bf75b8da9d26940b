use beehive::desktop::{check_hive_deletable, hive_info_for, save_nests, CombNestAssignment};
use beehive::model::{Comb, HiveInfo, HiveState, Nest};
use beehive::operations::{
    clear_operation, cli_clone_step, clone_step, drop_nest, finish_operation, mark_deleting, remove_comb, CloneAction,
    CloneStage, CommandOutcome,
};

fn comb(id: &str, nest: Option<&str>) -> Comb {
    Comb {
        id: id.to_string(),
        name: format!("comb-{}", id),
        branch: "main".to_string(),
        path: format!("/tmp/{}", id),
        created_at: "0".to_string(),
        nest_id: nest.map(|n| n.to_string()),
        panes: vec![],
        cloning: false,
        operation: None,
    }
}

fn info() -> HiveInfo {
    HiveInfo {
        dir_name: "repo_api".to_string(),
        repo_url: "https://github.com/acme/api.git".to_string(),
        repo_name: "api".to_string(),
        owner: "acme".to_string(),
        description: None,
        default_branch: None,
        custom_buttons: vec![],
    }
}

#[test]
fn delete_marks_and_reverts() {
    let mut combs = vec![comb("a", None), comb("b", None)];
    assert_eq!(mark_deleting(&mut combs, &"b".to_string()), Ok(true));
    assert_eq!(combs[1].operation.as_deref(), Some("deleting"));
    assert_eq!(
        mark_deleting(&mut combs, &"b".to_string()),
        Err("Comb already has an operation in progress".to_string())
    );
    assert_eq!(mark_deleting(&mut combs, &"zzz".to_string()), Ok(false));
    clear_operation(&mut combs, &"b".to_string());
    assert!(combs[1].operation.is_none());
    remove_comb(&mut combs, &"a".to_string());
    assert_eq!(combs.len(), 1);
    assert_eq!(combs[0].id, "b");
}

#[test]
fn finished_clone_is_ready() {
    let mut c = comb("a", None);
    c.cloning = true;
    c.operation = Some("cloning".to_string());
    let mut combs = vec![c];
    finish_operation(&mut combs, &"a".to_string());
    assert!(!combs[0].cloning && combs[0].operation.is_none());
}

#[test]
fn clone_steps() {
    let ok = CommandOutcome::Ran { success: true, stderr: vec![] };
    let bad = CommandOutcome::Ran { success: false, stderr: b"boom".to_vec() };
    assert!(matches!(clone_step(CloneStage::Cloning, &ok, "dev"), CloneAction::Checkout));
    match clone_step(CloneStage::Cloning, &bad, "dev") {
        CloneAction::Failed(m) => assert_eq!(m, "Git clone failed: boom"),
        _ => panic!("expected failure"),
    }
    match clone_step(CloneStage::Cloning, &CommandOutcome::NotStarted("no git".to_string()), "dev") {
        CloneAction::Failed(m) => assert_eq!(m, "Clone failed: no git"),
        _ => panic!("expected failure"),
    }
    assert!(matches!(clone_step(CloneStage::CheckingOut, &ok, "dev"), CloneAction::Succeeded));
    assert!(matches!(clone_step(CloneStage::CheckingOut, &bad, "dev"), CloneAction::CreateBranch));
    match clone_step(CloneStage::CreatingBranch, &bad, "dev") {
        CloneAction::Failed(m) => assert_eq!(m, "Failed to checkout branch 'dev': boom"),
        _ => panic!("expected failure"),
    }
    match clone_step(CloneStage::CreatingBranch, &CommandOutcome::NotStarted("x".to_string()), "dev") {
        CloneAction::Failed(m) => assert_eq!(m, "Checkout -b failed: x"),
        _ => panic!("expected failure"),
    }
}

#[test]
fn save_nests_applies_assignments() {
    let state = HiveState {
        info: info(),
        nests: vec![],
        combs: vec![comb("a", None), comb("b", Some("gone")), comb("c", Some("n1"))],
    };
    let nests = vec![
        Nest { id: "n1".to_string(), name: "  Backend ".to_string() },
        Nest { id: "n2".to_string(), name: "Web".to_string() },
    ];
    let asg = vec![
        CombNestAssignment { comb_id: "a".to_string(), nest_id: Some("n1".to_string()) },
        CombNestAssignment { comb_id: "a".to_string(), nest_id: Some("n2".to_string()) },
        CombNestAssignment { comb_id: "c".to_string(), nest_id: None },
    ];
    let out = save_nests(state, nests, asg).unwrap();
    assert_eq!(out.combs[0].nest_id.as_deref(), Some("n2"));
    assert_eq!(out.combs[1].nest_id, None);
    assert_eq!(out.combs[2].nest_id, None);
    assert_eq!(out.nests[0].name, "Backend");
    assert_eq!(out.nests[1].name, "Web");
}

#[test]
fn save_nests_rejects_unknown_ids() {
    let state = || HiveState { info: info(), nests: vec![], combs: vec![comb("a", None)] };
    let nests = || vec![Nest { id: "n1".to_string(), name: "N".to_string() }];
    assert_eq!(
        save_nests(state(), nests(), vec![CombNestAssignment { comb_id: "x".to_string(), nest_id: None }])
            .err(),
        Some("Comb 'x' not found".to_string())
    );
    assert_eq!(
        save_nests(
            state(),
            nests(),
            vec![CombNestAssignment { comb_id: "a".to_string(), nest_id: Some("n9".to_string()) }]
        )
        .err(),
        Some("Nest 'n9' not found".to_string())
    );
    assert_eq!(
        save_nests(state(), vec![Nest { id: "".to_string(), name: "N".to_string() }], vec![]).err(),
        Some("Nest id cannot be empty".to_string())
    );
}

#[test]
fn new_hive_metadata() {
    let h = hive_info_for("git@github.com:acme/api.git", "acme".to_string(), "api".to_string(), None, None, None, None);
    assert_eq!(h.repo_url, "git@github.com:acme/api.git");
    assert_eq!(h.dir_name, "repo_api");
    let h = hive_info_for(
        "acme/api",
        "acme".to_string(),
        "api".to_string(),
        Some("desc".to_string()),
        Some("main".to_string()),
        Some("git@github.com:acme/api.git".to_string()),
        Some("https://github.com/acme/api".to_string()),
    );
    assert_eq!(h.repo_url, "https://github.com/acme/api.git");
    let h = hive_info_for("acme/api", "acme".to_string(), "api".to_string(), None, None, None, None);
    assert_eq!(h.repo_url, "https://github.com/acme/api.git");
}

#[test]
fn busy_hives_cannot_be_deleted() {
    let mut busy = comb("a", None);
    busy.operation = Some("cloning".to_string());
    assert_eq!(
        check_hive_deletable(&vec![comb("b", None), busy]),
        Err("Cannot delete hive while comb operations are in progress".to_string())
    );
    assert!(check_hive_deletable(&vec![comb("b", None)]).is_ok());
}

#[test]
fn cli_clone_steps_and_messages() {
    let ran = |success: bool, err: &str| CommandOutcome::Ran { success, stderr: err.as_bytes().to_vec() };
    assert!(matches!(cli_clone_step(CloneStage::Cloning, &ran(true, ""), "dev"), CloneAction::Checkout));
    match cli_clone_step(CloneStage::Cloning, &ran(false, "fatal: not found\nmore\n"), "dev") {
        CloneAction::Failed(m) => assert_eq!(m, "Clone failed: fatal: not found"),
        _ => panic!("expected a failure"),
    }
    match cli_clone_step(CloneStage::Cloning, &ran(false, ""), "dev") {
        CloneAction::Failed(m) => assert_eq!(m, "Clone failed: unknown"),
        _ => panic!("expected a failure"),
    }
    assert!(matches!(cli_clone_step(CloneStage::CheckingOut, &ran(false, "x"), "dev"), CloneAction::CreateBranch));
    match cli_clone_step(CloneStage::CheckingOut, &CommandOutcome::NotStarted("no git".to_string()), "dev") {
        CloneAction::Failed(m) => assert_eq!(m, "Checkout failed: no git"),
        _ => panic!("expected a failure"),
    }
    match cli_clone_step(CloneStage::CreatingBranch, &ran(false, "x"), "dev") {
        CloneAction::Failed(m) => assert_eq!(m, "Branch 'dev' failed"),
        _ => panic!("expected a failure"),
    }
    assert!(matches!(cli_clone_step(CloneStage::CreatingBranch, &ran(true, ""), "dev"), CloneAction::Succeeded));
}

#[test]
fn dropping_a_nest_keeps_its_combs_outside_any_nest() {
    let mut nests = vec![
        Nest { id: "n1".to_string(), name: "one".to_string() },
        Nest { id: "n2".to_string(), name: "two".to_string() },
    ];
    let mut combs = vec![comb("a", Some("n1")), comb("b", Some("n2")), comb("c", None), comb("d", Some("n1"))];
    drop_nest(&mut nests, &mut combs, &"n1".to_string());
    assert_eq!(nests.len(), 1);
    assert_eq!(nests[0].id, "n2");
    let ids: Vec<&str> = combs.iter().map(|c| c.id.as_str()).collect();
    assert_eq!(ids, vec!["a", "b", "c", "d"]);
    assert_eq!(combs[0].nest_id, None);
    assert_eq!(combs[1].nest_id.as_deref(), Some("n2"));
    assert_eq!(combs[3].nest_id, None);
}
