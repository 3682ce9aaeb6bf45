use opencli_rs::auth::PathStyle;
use opencli_rs::external::{
    merge_external_clis, sort_by_name, upsert_external_cli, user_external_clis_path, ExternalCli,
};

fn cli(name: &str, description: &str) -> ExternalCli {
    ExternalCli {
        name: name.to_string(),
        binary: name.to_string(),
        description: description.to_string(),
        homepage: None,
        tags: vec![],
        install: Default::default(),
    }
}

#[test]
fn test_upsert_external_cli_replaces_by_name() {
    let existing = vec![ExternalCli {
        name: "gh".to_string(),
        binary: "gh".to_string(),
        description: "old".to_string(),
        homepage: None,
        tags: vec![],
        install: Default::default(),
    }];

    let replacement = ExternalCli {
        name: "gh".to_string(),
        binary: "/usr/local/bin/gh".to_string(),
        description: "new".to_string(),
        homepage: Some("https://cli.github.com".to_string()),
        tags: vec!["github".to_string()],
        install: Default::default(),
    };

    let (existing, updated) = upsert_external_cli(existing, replacement);

    assert!(updated);
    assert_eq!(existing[0].binary, "/usr/local/bin/gh");
    assert_eq!(existing[0].description, "new");
}

#[test]
fn upsert_adds_and_sorts() {
    let clis = vec![cli("kubectl", "k"), cli("docker", "d")];
    let (clis, updated) = upsert_external_cli(clis, cli("gh", "g"));
    assert!(!updated);
    let names: Vec<&str> = clis.iter().map(|c| c.name.as_str()).collect();
    assert_eq!(names, vec!["docker", "gh", "kubectl"]);
}

#[test]
fn upsert_replaces_first_of_equal_names_and_sorts_stably() {
    let clis = vec![cli("b", "1"), cli("a", "2"), cli("b", "3")];
    let (clis, updated) = upsert_external_cli(clis, cli("b", "new"));
    assert!(updated);
    let got: Vec<(&str, &str)> =
        clis.iter().map(|c| (c.name.as_str(), c.description.as_str())).collect();
    assert_eq!(got, vec![("a", "2"), ("b", "new"), ("b", "3")]);
}

#[test]
fn sort_orders_by_code_point() {
    let clis = vec![cli("b", ""), cli("B", ""), cli("ab", ""), cli("a", ""), cli("é", "")];
    let names: Vec<String> = sort_by_name(clis).into_iter().map(|c| c.name).collect();
    assert_eq!(names, vec!["B", "a", "ab", "b", "é"]);
}

#[test]
fn merge_user_version_wins() {
    let builtin = vec![cli("gh", "builtin gh"), cli("docker", "builtin docker")];
    let user = vec![cli("gh", "user gh 1"), cli("jq", "user jq"), cli("gh", "user gh 2")];
    let merged = merge_external_clis(builtin, user);
    let got: Vec<(&str, &str)> =
        merged.iter().map(|c| (c.name.as_str(), c.description.as_str())).collect();
    assert_eq!(
        got,
        vec![("gh", "user gh 2"), ("docker", "builtin docker"), ("jq", "user jq")]
    );
}

#[test]
fn merge_without_user_definitions_keeps_builtin() {
    let merged = merge_external_clis(vec![cli("a", "x")], vec![]);
    assert_eq!(merged.len(), 1);
    assert_eq!(merged[0].description, "x");
}

#[test]
fn user_external_clis_path_joins() {
    let u = |h: &str| user_external_clis_path(h, PathStyle::Unix).unwrap();
    assert_eq!(u("/home/u"), "/home/u/.autocli/external-clis.yaml");
    assert_eq!(u("/home/u/"), "/home/u/.autocli/external-clis.yaml");
    assert_eq!(u(""), ".autocli/external-clis.yaml");
    assert_eq!(
        user_external_clis_path(r"C:\u", PathStyle::Windows).unwrap(),
        r"C:\u\.autocli\external-clis.yaml"
    );
}

#[test]
fn upsert_twice_is_upsert_once() {
    let clis = vec![cli("b", "1"), cli("a", "2"), cli("b", "3")];
    let (once, _) = upsert_external_cli(clis, cli("b", "new"));
    let once_view: Vec<(String, String)> =
        once.iter().map(|c| (c.name.clone(), c.description.clone())).collect();
    let (twice, updated) = upsert_external_cli(once, cli("b", "new"));
    let twice_view: Vec<(String, String)> =
        twice.iter().map(|c| (c.name.clone(), c.description.clone())).collect();
    assert!(updated);
    assert_eq!(once_view, twice_view);
}
