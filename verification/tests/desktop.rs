use beehive::desktop::{
    add_comb, cloning_comb, copy_of, check_cli_name, cli_install_path, cli_status, comb_panes, list_branches, list_dir_entries, parse_repo_url,
    preflight_check, set_comb_panes, validate_comb_name, validate_nest_name, validate_nests, DirEntry,
};
use beehive::model::{Comb, Nest, PaneConfig};

fn comb(id: &str, name: &str, path: &str) -> Comb {
    Comb {
        id: id.to_string(),
        name: name.to_string(),
        branch: "main".to_string(),
        path: path.to_string(),
        created_at: "0".to_string(),
        nest_id: None,
        panes: vec![],
        cloning: false,
        operation: None,
    }
}

fn nest(id: &str, name: &str) -> Nest {
    Nest { id: id.to_string(), name: name.to_string() }
}

#[test]
fn preflight_check_messages() {
    let r = preflight_check(
        Some("git version 2.40".to_string()),
        Some("gh version 2.1\nhttps://x".to_string()),
        false,
    );
    assert!(!r.ok && r.git_available && r.gh_available && !r.gh_authenticated);
    assert_eq!(
        r.messages,
        vec!["git: git version 2.40", "gh: gh version 2.1", "gh is not authenticated. Run: gh auth login"]
    );
    let r = preflight_check(None, None, true);
    assert!(!r.ok && !r.gh_authenticated);
    assert_eq!(
        r.messages,
        vec![
            "git is not installed. Install it from https://git-scm.com",
            "gh CLI is not installed. Install it from https://cli.github.com",
        ]
    );
    let r = preflight_check(Some("g".to_string()), Some("h".to_string()), true);
    assert!(r.ok);
    assert_eq!(r.messages.last().map(|s| s.as_str()), Some("gh: authenticated"));
}

#[test]
fn desktop_branches_mark_default() {
    let b = list_branches("main\ndev\n", Some("dev".to_string()));
    assert_eq!(b.len(), 2);
    assert_eq!((b[0].name.as_str(), b[0].is_default), ("main", false));
    assert_eq!((b[1].name.as_str(), b[1].is_default), ("dev", true));
    let b = list_branches("main", None);
    assert!(b[0].is_default);
}

#[test]
fn dir_entries_hide_dot_dirs_and_sort_case_insensitively() {
    let e = |name: &str, is_dir: bool| DirEntry {
        name: name.to_string(),
        path: format!("/home/{}", name),
        is_dir,
    };
    let out = list_dir_entries(vec![e("zeta", true), e(".git", true), e("Alpha", true), e("file", false), e("beta", true)]);
    let names: Vec<&str> = out.iter().map(|d| d.name.as_str()).collect();
    assert_eq!(names, vec!["Alpha", "beta", "zeta"]);
    assert_eq!(out[0].path, "/home/Alpha");
    assert!(out.iter().all(|d| d.is_dir));
}

#[test]
fn desktop_comb_names_also_check_directories() {
    let existing = vec![comb("1", "alpha", "/hives/repo_x/renamed-dir")];
    assert_eq!(
        validate_comb_name("renamed-dir", &existing),
        Err("A comb named 'renamed-dir' already exists".to_string())
    );
    assert_eq!(
        validate_comb_name("alpha", &existing),
        Err("A comb named 'alpha' already exists".to_string())
    );
    assert_eq!(validate_comb_name("", &existing), Err("Comb name cannot be empty".to_string()));
    assert_eq!(
        validate_comb_name("a/b", &existing),
        Err("Comb name can only contain letters, numbers, hyphens, and underscores".to_string())
    );
    assert!(validate_comb_name("beta", &existing).is_ok());
}

#[test]
fn nest_names() {
    assert_eq!(validate_nest_name("   "), Err("Nest name cannot be empty".to_string()));
    assert_eq!(
        validate_nest_name(&"n".repeat(41)),
        Err("Nest name must be 40 characters or fewer".to_string())
    );
    assert_eq!(
        validate_nest_name("a\u{7}b"),
        Err("Nest name cannot contain control characters".to_string())
    );
    assert!(validate_nest_name("  Backend work  ").is_ok());
}

#[test]
fn nests_must_be_distinct() {
    assert!(validate_nests(&[nest("1", "API"), nest("2", "Web")]).is_ok());
    assert_eq!(validate_nests(&[nest(" ", "API")]), Err("Nest id cannot be empty".to_string()));
    assert_eq!(
        validate_nests(&[nest("1", "API"), nest("1", "Web")]),
        Err("Duplicate nest id '1'".to_string())
    );
    assert_eq!(
        validate_nests(&[nest("1", "API"), nest("2", " api ")]),
        Err("Nest 'api' already exists".to_string())
    );
    assert_eq!(
        validate_nests(&[nest("1", ""), nest("1", "x")]),
        Err("Nest name cannot be empty".to_string())
    );
}

#[test]
fn desktop_repo_messages() {
    assert_eq!(
        parse_repo_url("git@github.com:acme"),
        Err("Cannot parse SSH URL: git@github.com:acme. Expected format: git@github.com:owner/repo".to_string())
    );
    assert_eq!(
        parse_repo_url("https://github.com/acme"),
        Err("Cannot parse GitHub URL: https://github.com/acme. Expected format: https://github.com/owner/repo".to_string())
    );
    assert_eq!(
        parse_repo_url("widget"),
        Err("Cannot parse 'widget'. Use owner/repo, a GitHub URL, or SSH URL.".to_string())
    );
    assert_eq!(
        parse_repo_url("acme/"),
        Err("Cannot parse 'acme/'. Use owner/repo, a GitHub URL, or SSH URL.".to_string())
    );
    assert_eq!(
        parse_repo_url("/widget"),
        Err("Invalid repo format: '/widget'. Both owner and repo name are required (e.g. owner/repo).".to_string())
    );
    assert_eq!(parse_repo_url("acme/widget"), Ok(("acme".to_string(), "widget".to_string())));
}

fn pane(id: &str, cmd: Option<&str>) -> PaneConfig {
    PaneConfig {
        id: id.to_string(),
        pane_type: "terminal".to_string(),
        cmd: cmd.map(|c| c.to_string()),
        args: Some(vec!["-l".to_string()]),
    }
}

#[test]
fn saved_pane_layout_reads_back() {
    let mut combs = vec![comb("a", "alpha", "/b/alpha"), comb("b", "beta", "/b/beta")];
    let saved = set_comb_panes(&mut combs, &"b".to_string(), vec![pane("p1", None), pane("p2", Some("htop"))]);
    assert_eq!(saved, Ok(()));
    assert!(combs[0].panes.is_empty());
    let read = comb_panes(&combs, &"b".to_string()).expect("panes");
    assert_eq!(read.len(), 2);
    assert_eq!(read[0].id, "p1");
    assert_eq!(read[1].cmd.as_deref(), Some("htop"));
    assert_eq!(read[1].args, Some(vec!["-l".to_string()]));
    assert!(comb_panes(&combs, &"a".to_string()).expect("panes").is_empty());
}

#[test]
fn pane_layout_of_a_missing_comb_is_an_error() {
    let mut combs = vec![comb("a", "alpha", "/b/alpha")];
    assert_eq!(set_comb_panes(&mut combs, &"zz".to_string(), vec![pane("p1", None)]), Err("Comb 'zz' not found".to_string()));
    assert!(combs[0].panes.is_empty());
    assert!(matches!(comb_panes(&combs, &"zz".to_string()), Err(e) if e == "Comb 'zz' not found"));
}

#[test]
fn cli_names_and_paths() {
    assert_eq!(check_cli_name("bh"), Ok(()));
    assert_eq!(check_cli_name("beehive"), Ok(()));
    assert_eq!(check_cli_name("hive"), Err("Command name must be 'bh' or 'beehive'".to_string()));
    assert_eq!(cli_install_path("bh"), "/usr/local/bin/bh");
}

#[test]
fn cli_status_prefers_the_chosen_name() {
    let r = cli_status(Some("beehive".to_string()), true, true, true);
    assert!(r.installed);
    assert_eq!(r.cmd_name.as_deref(), Some("beehive"));
    assert_eq!(r.path.as_deref(), Some("/usr/local/bin/beehive"));
    let r = cli_status(Some("beehive".to_string()), false, false, true);
    assert_eq!(r.cmd_name.as_deref(), Some("beehive"));
    let r = cli_status(None, false, true, true);
    assert_eq!(r.cmd_name.as_deref(), Some("bh"));
    assert_eq!(r.path.as_deref(), Some("/usr/local/bin/bh"));
    let r = cli_status(Some("bh".to_string()), false, false, false);
    assert!(!r.installed && r.cmd_name.is_none() && r.path.is_none());
}

#[test]
fn starting_a_clone_adds_a_cloning_comb() {
    let mut combs = vec![comb("a", "alpha", "/b/repo_x/alpha")];
    let c = cloning_comb("n1".into(), "beta".into(), "dev".into(), "/b/repo_x/beta".into(), "7".into());
    assert!(c.cloning && c.nest_id.is_none() && c.panes.is_empty());
    assert_eq!(c.operation.as_deref(), Some("cloning"));
    assert_eq!(add_comb(&mut combs, c), Ok(()));
    assert_eq!(combs.len(), 2);
    assert_eq!(combs[1].name, "beta");

    let again = cloning_comb("n2".into(), "alpha".into(), "dev".into(), "/b/repo_x/alpha2".into(), "8".into());
    assert_eq!(add_comb(&mut combs, again), Err("A comb named 'alpha' already exists".to_string()));
    assert_eq!(combs.len(), 2);
    let bad = cloning_comb("n3".into(), ".x".into(), "dev".into(), "/b/repo_x/.x".into(), "9".into());
    assert!(add_comb(&mut combs, bad).is_err());
}

#[test]
fn copies_take_the_source_branch_and_nest() {
    let mut source = comb("a", "alpha", "/b/repo_x/alpha");
    source.branch = "feature".into();
    source.nest_id = Some("n1".into());
    let mut combs = vec![source];
    let copy = copy_of(&combs, &"a".to_string(), "c1".into(), "alpha2".into(), "/b/repo_x/alpha2".into(), "5".into())
        .expect("copy");
    assert_eq!(copy.branch, "feature");
    assert_eq!(copy.nest_id.as_deref(), Some("n1"));
    assert_eq!(copy.operation.as_deref(), Some("copying"));
    assert!(!copy.cloning && copy.panes.is_empty());
    assert!(matches!(
        copy_of(&combs, &"zz".to_string(), "c2".into(), "x".into(), "/x".into(), "5".into()),
        Err(e) if e == "Source comb 'zz' not found"
    ));
    combs[0].operation = Some("deleting".into());
    assert!(matches!(
        copy_of(&combs, &"a".to_string(), "c3".into(), "y".into(), "/y".into(), "5".into()),
        Err(e) if e == "Cannot copy a comb that is being deleted"
    ));
}
