use workspace_version_tools::package::{find_direct_dependents, Dependency, Package};
use workspace_version_tools::version::Version;
use workspace_version_tools::workspace::Workspace;

/// Simple dependency graph
/// package_a depends on package_b and package_c
/// package_b depends on package_c
/// package_c has no dependencies
fn create_mock_workspace_deps() -> Vec<(String, Vec<String>)> {
    vec![
        (
            "package_a".to_string(),
            vec!["package_b".to_string(), "package_c".to_string()],
        ),
        ("package_b".to_string(), vec!["package_c".to_string()]),
        ("package_c".to_string(), vec![]),
    ]
}

fn check_direct_dependents() {
    let workspace_deps = create_mock_workspace_deps();
    let direct_dependents_c = find_direct_dependents("package_c", &workspace_deps);
    assert!(direct_dependents_c.contains(&"package_a".to_string()));
    assert!(direct_dependents_c.contains(&"package_b".to_string()));
    assert_eq!(direct_dependents_c.len(), 2);
    let direct_dependents_b = find_direct_dependents("package_b", &workspace_deps);
    assert!(direct_dependents_b.contains(&"package_a".to_string()));
    assert_eq!(direct_dependents_b.len(), 1);
    let direct_dependents_a = find_direct_dependents("package_a", &workspace_deps);
    assert!(direct_dependents_a.is_empty());
}

#[test]
fn graph_test_find_direct_dependents() {
    check_direct_dependents();
}

#[test]
fn package_test_find_direct_dependents() {
    check_direct_dependents();
}

#[test]
fn package_keeps_only_non_dev_workspace_dependencies() {
    let members = vec!["x".to_string(), "y".to_string(), "z".to_string()];
    let deps = vec![
        Dependency { name: "y".to_string(), development: false },
        Dependency { name: "serde".to_string(), development: false },
        Dependency { name: "z".to_string(), development: true },
    ];
    let p = Package::new("x".to_string(), Version::new(1, 2, 3), &deps, &members, false);
    assert_eq!(p.direct_workspace_dependencies(), &vec!["y".to_string()]);
    assert!(p.direct_workspace_dependents().is_empty());
    assert_eq!(p.name(), "x");
    assert_eq!(p.version(), Version::new(1, 2, 3));
    assert!(!p.publish());
}

#[test]
fn workspace_links_dependents() {
    let members = vec!["x".to_string(), "y".to_string(), "z".to_string()];
    let dep = |n: &str| Dependency { name: n.to_string(), development: false };
    let packages = vec![
        Package::new("x".to_string(), Version::new(1, 0, 0), &vec![], &members, true),
        Package::new("y".to_string(), Version::new(1, 0, 0), &vec![dep("x")], &members, true),
        Package::new("z".to_string(), Version::new(1, 0, 0), &vec![dep("x"), dep("y")], &members, true),
    ];
    let ws = Workspace::new("main".to_string(), packages);
    assert_eq!(ws.packages[0].dependents, vec!["y".to_string(), "z".to_string()]);
    assert_eq!(ws.packages[1].dependents, vec!["z".to_string()]);
    assert!(ws.packages[2].dependents.is_empty());
    assert_eq!(ws.find("z"), Some(2));
    assert_eq!(ws.find("w"), None);
    assert!(ws.is_bumpable());
}

#[test]
fn workspace_near_the_largest_version_is_not_bumpable() {
    let members = vec!["x".to_string()];
    let p = Package::new("x".to_string(), Version::new(1, u64::MAX - 1, 0), &vec![], &members, true);
    let ws = Workspace::new("main".to_string(), vec![p]);
    assert!(!ws.is_bumpable());
    let p = Package::new("x".to_string(), Version::new(1, u64::MAX - 2, 0), &vec![], &members, true);
    let ws = Workspace::new("main".to_string(), vec![p]);
    assert!(ws.is_bumpable());
}
