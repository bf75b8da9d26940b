use beehive::model::{Comb, HiveInfo};
use beehive::state::{
    delete_activity, remove_comb_from_items, update_comb_in_items, DeleteTarget, NavItem,
    RenameTarget,
};

fn comb(id: &str, name: &str, branch: &str, cloning: bool) -> Comb {
    Comb {
        id: id.to_string(),
        name: name.to_string(),
        branch: branch.to_string(),
        path: format!("/tmp/{}", name),
        created_at: "0".to_string(),
        nest_id: None,
        panes: vec![],
        cloning,
        operation: None,
    }
}

fn hive() -> HiveInfo {
    HiveInfo {
        dir_name: "repo_api".to_string(),
        repo_url: "https://github.com/acme/api.git".to_string(),
        repo_name: "api".to_string(),
        owner: "acme".to_string(),
        description: None,
        default_branch: Some("main".to_string()),
        custom_buttons: vec![],
    }
}

fn item(c: Comb) -> NavItem {
    NavItem::Comb { hive_dir_name: "repo_api".to_string(), comb: c }
}

fn comb_of(i: &NavItem) -> &Comb {
    match i {
        NavItem::Comb { comb, .. } => comb,
        _ => panic!("expected a comb"),
    }
}

#[test]
fn update_comb_copies_state_and_branch() {
    let mut items = vec![
        NavItem::Hive { info: hive(), expanded: true, comb_count: 2 },
        item(comb("a", "alpha", "main", true)),
        item(comb("b", "beta", "main", true)),
    ];
    update_comb_in_items(&mut items, "b", &comb("b", "beta", "dev", false));
    assert_eq!(comb_of(&items[2]).branch, "dev");
    assert!(!comb_of(&items[2]).cloning);
    assert!(comb_of(&items[1]).cloning);
    assert_eq!(comb_of(&items[1]).branch, "main");
}

#[test]
fn remove_only_unfinished_combs() {
    let mut items = vec![
        item(comb("a", "alpha", "main", true)),
        item(comb("b", "alpha", "main", false)),
        item(comb("c", "gamma", "main", true)),
    ];
    remove_comb_from_items(&mut items, "alpha");
    let ids: Vec<&str> = items.iter().map(|i| comb_of(i).id.as_str()).collect();
    assert_eq!(ids, vec!["b", "c"]);
}

#[test]
fn delete_activity_lines() {
    let one = vec![DeleteTarget::Comb {
        hive_dir_name: "h".to_string(),
        comb_id: "1".to_string(),
        comb_name: "alpha".to_string(),
    }];
    assert_eq!(delete_activity(&one), "Deleting 'alpha'");
    let hive = vec![DeleteTarget::Hive { dir_name: "h".to_string(), repo_name: "api".to_string() }];
    assert_eq!(delete_activity(&hive), "Deleting hive 'api'");
    let nest = vec![DeleteTarget::Nest {
        hive_dir_name: "h".to_string(),
        nest_id: "n".to_string(),
        nest_name: "Backend".to_string(),
    }];
    assert_eq!(delete_activity(&nest), "Deleting nest 'Backend'");
    let mut many = one;
    many.extend(hive);
    many.extend(nest);
    assert_eq!(delete_activity(&many), "Deleting 3 combs");
    assert_eq!(delete_activity(&[]), "Deleting 0 combs");
}

#[test]
fn rename_target_texts() {
    let t = RenameTarget::Comb {
        hive_dir_name: "h".to_string(),
        comb_id: "1".to_string(),
        current_name: "alpha".to_string(),
    };
    assert_eq!(t.current_name(), "alpha");
    assert_eq!(t.prompt(), "Rename 'alpha' to");
    assert_eq!(t.apply(Ok("beta".to_string())), Ok("Renamed 'alpha' to 'beta'".to_string()));
    assert_eq!(t.apply(Err("taken".to_string())), Err("taken".to_string()));
    let n = RenameTarget::Nest {
        hive_dir_name: "h".to_string(),
        nest_id: "n".to_string(),
        current_name: "Web".to_string(),
    };
    assert_eq!(n.prompt(), "Rename nest 'Web' to");
    assert_eq!(n.apply(Ok("Front".to_string())), Ok("Renamed nest 'Web' to 'Front'".to_string()));
}
