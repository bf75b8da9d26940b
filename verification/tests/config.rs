use beehive::model::{Comb, HiveInfo};
use beehive::repo::{parse_repo_parts, parse_repo_url, RepoUrlError};
use beehive::settings::{
    apply_rename, branches_api_path, check_rename, check_rename_target, choose_beehive_dir, clean_stale_combs, comb_name_problem, full_path, list_hives, default_sidebar_width, get_combs, get_git_branch,
    list_branches, preflight, reorder_combs, text_first_line, text_lines, validate_comb_name,
    CombNameError,
};

fn comb(id: &str, name: &str, branch: &str) -> Comb {
    Comb {
        id: id.to_string(),
        name: name.to_string(),
        branch: branch.to_string(),
        path: format!("/tmp/{}", name),
        created_at: "0".to_string(),
        nest_id: None,
        panes: vec![],
        cloning: false,
        operation: None,
    }
}

#[test]
fn parse_repo_url_accepts_all_forms() {
    let want = Ok(("acme".to_string(), "widget".to_string()));
    assert_eq!(parse_repo_url("acme/widget"), want);
    assert_eq!(parse_repo_url("https://github.com/acme/widget"), want);
    assert_eq!(parse_repo_url("https://github.com/acme/widget.git"), want);
    assert_eq!(parse_repo_url("  https://github.com/acme/widget/  "), want);
    assert_eq!(parse_repo_url("git@github.com:acme/widget.git"), want);
    assert_eq!(parse_repo_url("https://github.com/acme/widget/tree/main"), want);
}

#[test]
fn parse_repo_url_errors_name_the_input() {
    assert_eq!(parse_repo_url("widget"), Err("Use owner/repo or full URL: widget".to_string()));
    assert_eq!(parse_repo_url("a/b/c"), Err("Use owner/repo or full URL: a/b/c".to_string()));
    assert_eq!(
        parse_repo_url("https://github.com/acme"),
        Err("Cannot parse: https://github.com/acme".to_string())
    );
    assert_eq!(parse_repo_url("git@host:repo"), Err("Cannot parse: git@host:repo".to_string()));
    assert_eq!(parse_repo_url("/widget"), Err("Invalid: /widget".to_string()));
}

#[test]
fn parse_repo_parts_kinds_of_failure() {
    assert_eq!(parse_repo_parts("git@x:y"), Err(RepoUrlError::Ssh));
    assert_eq!(parse_repo_parts("github.com/only"), Err(RepoUrlError::GitHub));
    assert_eq!(parse_repo_parts(""), Err(RepoUrlError::Short));
    assert_eq!(parse_repo_parts("owner/"), Err(RepoUrlError::Short));
    assert_eq!(parse_repo_parts(" /x"), Err(RepoUrlError::Empty));
}

#[test]
fn validate_comb_name_rules_in_order() {
    let existing = vec![comb("1", "taken", "main")];
    assert_eq!(validate_comb_name("", &existing), Err("Name cannot be empty".to_string()));
    assert_eq!(
        validate_comb_name(&"a".repeat(41), &existing),
        Err("Max 40 characters".to_string())
    );
    assert!(validate_comb_name(&"a".repeat(40), &existing).is_ok());
    assert_eq!(
        validate_comb_name(".hive", &existing),
        Err("Cannot start with '.' or '-'".to_string())
    );
    assert_eq!(
        validate_comb_name("-x", &existing),
        Err("Cannot start with '.' or '-'".to_string())
    );
    assert_eq!(
        validate_comb_name("a b", &existing),
        Err("Letters, numbers, hyphens, underscores only".to_string())
    );
    assert_eq!(validate_comb_name("taken", &existing), Err("'taken' already exists".to_string()));
    assert!(validate_comb_name("feature_x-2", &existing).is_ok());
    // Twenty two-byte characters are 40 bytes: the length rule counts bytes.
    assert_eq!(comb_name_problem(&"é".repeat(21)), Some(CombNameError::TooLong));
    assert_eq!(comb_name_problem(&"é".repeat(20)), Some(CombNameError::BadChar));
}

#[test]
fn reorder_follows_ids_and_keeps_unlisted_combs() {
    let combs = vec![comb("a", "alpha", "m"), comb("b", "beta", "m"), comb("c", "gamma", "m")];
    let ids = vec!["c".to_string(), "zzz".to_string(), "a".to_string()];
    let out = reorder_combs(combs, &ids);
    let got: Vec<&str> = out.iter().map(|c| c.id.as_str()).collect();
    assert_eq!(got, vec!["c", "a", "b"]);
    // Reordering the result back by the old order restores it.
    let back = reorder_combs(out, &["a".to_string(), "b".to_string(), "c".to_string()]);
    let got: Vec<&str> = back.iter().map(|c| c.id.as_str()).collect();
    assert_eq!(got, vec!["a", "b", "c"]);
}

#[test]
fn branches_and_lines() {
    let (branches, default) = list_branches("main\r\nfeature\n\ndev\n", None);
    assert_eq!(branches, vec!["main", "feature", "", "dev"]);
    assert_eq!(default, "main");
    let (branches, default) = list_branches("", Some("trunk".to_string()));
    assert!(branches.is_empty());
    assert_eq!(default, "trunk");
    assert_eq!(text_lines("a\nb"), vec!["a", "b"]);
    assert_eq!(text_first_line("gh version 2.0\r\nhttps://x\n"), "gh version 2.0");
    assert_eq!(text_first_line(""), "");
    assert_eq!(branches_api_path("acme", "widget"), "repos/acme/widget/branches?per_page=100");
}

#[test]
fn preflight_reports_tools() {
    let r = preflight(
        Some(" git version 2.40 \n".to_string()),
        Some("gh version 2.1 (2024)\nhttps://github.com/cli/cli\n".to_string()),
        true,
    );
    assert_eq!(r.git.as_deref(), Some("git version 2.40"));
    assert_eq!(r.gh.as_deref(), Some("gh version 2.1 (2024)"));
    assert!(r.gh_auth);
    let r = preflight(None, None, true);
    assert!(r.git.is_none() && r.gh.is_none() && !r.gh_auth);
}

#[test]
fn git_branch_from_command_output() {
    assert_eq!(get_git_branch(true, b"feature/x\n"), Some("feature/x".to_string()));
    assert_eq!(get_git_branch(false, b"fatal: not a git repository\n"), None);
}

#[test]
fn get_combs_takes_branches_found_on_disk() {
    let combs = vec![comb("a", "alpha", "main"), comb("b", "beta", "main")];
    let out = get_combs(combs, vec![Some("dev".to_string()), None]);
    assert_eq!(out[0].branch, "dev");
    assert_eq!(out[1].branch, "main");
    assert_eq!(out[0].name, "alpha");
}

#[test]
fn sidebar_width_default() {
    assert_eq!(default_sidebar_width(), 28);
}

fn hive_info(dir_name: &str, repo_name: &str) -> HiveInfo {
    HiveInfo {
        dir_name: dir_name.to_string(),
        repo_url: String::new(),
        repo_name: repo_name.to_string(),
        owner: "acme".to_string(),
        description: None,
        default_branch: None,
        custom_buttons: vec![],
    }
}

#[test]
fn list_hives_keeps_repo_dirs_with_a_name_sorted_case_insensitively() {
    let entries = vec![
        ("repo_web".to_string(), Some(hive_info("repo_web", "web"))),
        ("notes".to_string(), Some(hive_info("notes", "notes"))),
        ("repo_api".to_string(), Some(hive_info("repo_api", "Api"))),
        ("repo_broken".to_string(), None),
        ("repo_blank".to_string(), Some(hive_info("repo_blank", ""))),
        ("repo_zeta".to_string(), Some(hive_info("repo_zeta", "ZETA"))),
    ];
    let hives = list_hives(entries);
    let names: Vec<&str> = hives.iter().map(|h| h.repo_name.as_str()).collect();
    assert_eq!(names, vec!["Api", "web", "ZETA"]);
}

#[test]
fn stale_combs_are_recovered_or_dropped() {
    let mut done = comb("a", "alpha", "main");
    done.cloning = true;
    let mut half = comb("b", "beta", "main");
    half.cloning = true;
    let ready = comb("c", "gamma", "main");
    let cleanup = clean_stale_combs(vec![done, half, ready], &vec![true, false, false]);
    assert!(cleanup.changed);
    assert_eq!(cleanup.combs.len(), 2);
    assert_eq!(cleanup.combs[0].id, "a");
    assert!(!cleanup.combs[0].cloning);
    assert_eq!(cleanup.combs[1].id, "c");
    assert_eq!(cleanup.removed_paths, vec!["/tmp/beta".to_string()]);

    let cleanup = clean_stale_combs(vec![comb("c", "gamma", "main")], &vec![false]);
    assert!(!cleanup.changed);
    assert!(cleanup.removed_paths.is_empty());
}

#[test]
fn beehive_dir_answer_defaults_and_expands_home() {
    assert_eq!(choose_beehive_dir("  \n", "/home/ann"), "/home/ann/beehive");
    assert_eq!(choose_beehive_dir("~/work/hive\n", "/home/ann"), "/home/ann/work/hive");
    assert_eq!(choose_beehive_dir(" /srv/bees ", "/home/ann"), "/srv/bees");
}

#[test]
fn rename_checks_the_comb_and_the_new_name() {
    let mut busy = comb("c", "gamma", "main");
    busy.cloning = true;
    let combs = vec![comb("a", "alpha", "main"), comb("b", "beta", "main"), busy];
    assert_eq!(check_rename(&combs, &"b".to_string(), "delta"), Ok(1));
    assert_eq!(check_rename(&combs, &"z".to_string(), "delta"), Err("Comb 'z' not found".to_string()));
    assert_eq!(
        check_rename(&combs, &"c".to_string(), "delta"),
        Err("Cannot rename a comb that is still in progress".to_string())
    );
    assert_eq!(check_rename(&combs, &"b".to_string(), "beta"), Err("Comb already has that name".to_string()));
    assert_eq!(check_rename(&combs, &"b".to_string(), "alpha"), Err("'alpha' already exists".to_string()));
    assert_eq!(check_rename(&combs, &"b".to_string(), ".x"), Err("Cannot start with '.' or '-'".to_string()));
}

#[test]
fn full_path_puts_extra_dirs_first_without_repeats() {
    assert_eq!(
        full_path("/usr/bin:/usr/local/bin:/bin:/usr/bin"),
        "/opt/homebrew/bin:/opt/homebrew/sbin:/usr/local/bin:/usr/local/sbin:/usr/bin:/bin"
    );
    assert_eq!(full_path(""), "/opt/homebrew/bin:/opt/homebrew/sbin:/usr/local/bin:/usr/local/sbin:");
}

#[test]
fn rename_target_on_disk_and_applied_rename() {
    assert_eq!(check_rename_target(Ok(false), "delta"), Ok(()));
    assert_eq!(check_rename_target(Ok(true), "delta"), Err("Directory 'delta' already exists".to_string()));
    assert_eq!(check_rename_target(Err("Failed to inspect rename target: x".to_string()), "delta"), Err("Failed to inspect rename target: x".to_string()));
    let mut combs = vec![comb("a", "alpha", "main"), comb("b", "beta", "dev")];
    apply_rename(&mut combs, 1, "delta", "/tmp/delta".to_string());
    assert_eq!(combs[0].name, "alpha");
    assert_eq!(combs[0].path, "/tmp/alpha");
    assert_eq!(combs[1].id, "b");
    assert_eq!(combs[1].name, "delta");
    assert_eq!(combs[1].path, "/tmp/delta");
    assert_eq!(combs[1].branch, "dev");
}

#[test]
fn command_result_trims_the_stream_that_answers() {
    assert_eq!(beehive::settings::command_result(true, b"  git version 2.44\n", b"warn"), Ok("git version 2.44".to_string()));
    assert_eq!(beehive::settings::command_result(false, b"out", b"\tfatal: no\xff\n"), Err("fatal: no\u{fffd}".to_string()));
}

#[test]
fn repo_references_round_trip_for_plain_names() {
    let want = Ok(("my-org_1".to_string(), "Repo-2".to_string()));
    assert_eq!(parse_repo_url("my-org_1/Repo-2"), want);
    assert_eq!(parse_repo_url(" https://github.com/my-org_1/Repo-2.git/ "), want);
    assert_eq!(parse_repo_url("git@github.com:my-org_1/Repo-2.git"), want);
    match parse_repo_url("https://github.com/a/b/c") {
        Ok((o, n)) => assert!(!o.is_empty() && !n.is_empty() && !o.contains('/') && !n.contains('/')),
        Err(_) => panic!("expected a reference"),
    }
}
