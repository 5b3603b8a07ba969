use workspace_version_tools::instruction::{BumpInstruction, ReleaseChannel};
use workspace_version_tools::node::BumpNode;
use workspace_version_tools::package::{Dependency, Package};
use workspace_version_tools::tree::BumpTree;
use workspace_version_tools::version::{BumpType, Version};
use workspace_version_tools::workspace::Workspace;

fn v(text: &str) -> Version {
    let (core, pre) = match text.split_once('-') {
        Some((c, p)) => (c, p),
        None => (text, ""),
    };
    let nums: Vec<u64> = core.split('.').map(|n| n.parse().unwrap()).collect();
    Version::with_label(nums[0], nums[1], nums[2], pre)
}

fn workspace(branch: &str, members: &[(&str, &str, &[&str])]) -> Workspace {
    let names: Vec<String> = members.iter().map(|m| m.0.to_string()).collect();
    let packages = members
        .iter()
        .map(|(name, version, deps)| {
            let deps: Vec<Dependency> = deps
                .iter()
                .map(|d| Dependency { name: d.to_string(), development: false })
                .collect();
            Package::new(name.to_string(), v(version), &deps, &names, true)
        })
        .collect();
    Workspace::new(branch.to_string(), packages)
}

fn get_mock_workspaces() -> (Workspace, Workspace) {
    let stable = workspace(
        "stable",
        &[
            ("a", "1.0.0", &[]),
            ("b", "0.1.0", &["a"]),
            ("c", "2.3.1", &["a"]),
            ("stable-only-1-0-0", "1.0.0", &[]),
        ],
    );
    let prerelease = workspace(
        "prerelease",
        &[
            ("a", "1.0.0", &[]),
            ("b", "0.1.0", &["a"]),
            ("c", "2.3.1", &["a"]),
            ("prerelease-only-1-0-0", "1.0.0", &[]),
        ],
    );
    (stable, prerelease)
}

struct VersionChangeAssertion {
    package_name: &'static str,
    initial_stable_version: Option<&'static str>,
    initial_prerelease_version: Option<&'static str>,
    expected_stable_version: Option<&'static str>,
    expected_prerelease_version: Option<&'static str>,
}

fn build(
    stable: &Workspace,
    prerelease: &Workspace,
    raw_bump_instruction: &str,
    release_channel: ReleaseChannel,
) -> BumpTree {
    let roots = match BumpInstruction::from_str(
        stable,
        prerelease,
        raw_bump_instruction,
        release_channel,
    )
    .unwrap()
    {
        Some(i) => vec![i],
        None => vec![],
    };
    BumpTree::new(stable, prerelease, roots, release_channel).unwrap()
}

/// Asserts that with the given bump instruction the packages end up with
/// the expected recorded bumps; `None` expects no bump on that channel.
fn run_bump_tree_assertion(
    raw_bump_instruction: &str,
    version_change_assertions: Vec<VersionChangeAssertion>,
    release_channel: ReleaseChannel,
) {
    let (mut stable, mut prerelease) = get_mock_workspaces();
    for a in &version_change_assertions {
        if let Some(version) = a.initial_stable_version {
            let i = stable.find(a.package_name).unwrap();
            stable.packages[i].set_version(&v(version));
        }
        if let Some(version) = a.initial_prerelease_version {
            let i = prerelease.find(a.package_name).unwrap();
            prerelease.packages[i].set_version(&v(version));
        }
    }
    let tree = build(&stable, &prerelease, raw_bump_instruction, release_channel);
    for a in &version_change_assertions {
        let got = tree
            .highest_stable_instruction(&stable, &prerelease, a.package_name)
            .map(|i| i.next_version);
        assert_eq!(got, a.expected_stable_version.map(v), "stable {}", a.package_name);
        let got = tree
            .highest_prerelease_instruction(&stable, &prerelease, a.package_name)
            .map(|i| i.next_version);
        assert_eq!(got, a.expected_prerelease_version.map(v), "prerelease {}", a.package_name);
    }
}

fn single(
    raw: &str,
    name: &'static str,
    stable: Option<&'static str>,
    pre: Option<&'static str>,
    expected_stable: Option<&'static str>,
    expected_pre: Option<&'static str>,
    channel: ReleaseChannel,
) {
    run_bump_tree_assertion(
        raw,
        vec![VersionChangeAssertion {
            package_name: name,
            initial_stable_version: stable,
            initial_prerelease_version: pre,
            expected_stable_version: expected_stable,
            expected_prerelease_version: expected_pre,
        }],
        channel,
    );
}

const PRE: ReleaseChannel = ReleaseChannel::Prerelease;
const STABLE: ReleaseChannel = ReleaseChannel::Stable;

#[test]
fn tree_success_when_matches_stable() {
    single("a major", "a", Some("1.0.0"), Some("1.0.0"), None, Some("2.0.0-alpha"), PRE);
    single("a minor", "a", Some("1.0.0"), Some("1.0.0"), None, Some("1.1.0-alpha"), PRE);
    single("a patch", "a", Some("1.0.0"), Some("1.0.0"), None, Some("1.0.1-alpha"), PRE);
}

#[test]
fn tree_noop_when_already_ahead_by_major() {
    single("a major", "a", Some("1.0.0"), Some("2.0.0-alpha"), None, None, PRE);
    single("a minor", "a", Some("1.0.0"), Some("2.0.0-alpha"), None, None, PRE);
    single("a patch", "a", Some("1.0.0"), Some("2.0.0-alpha"), None, None, PRE);
}

#[test]
fn tree_noop_when_already_ahead_by_minor() {
    single("a major", "a", Some("1.0.0"), Some("1.1.0-alpha"), None, Some("2.0.0-alpha"), PRE);
    single("a minor", "a", Some("1.0.0"), Some("1.1.0-alpha"), None, None, PRE);
    single("a patch", "a", Some("1.0.0"), Some("1.1.0-alpha"), None, None, PRE);
}

#[test]
fn tree_success_when_already_ahead_by_patch() {
    single("a major", "a", Some("1.0.0"), Some("1.0.1-alpha"), None, Some("2.0.0-alpha"), PRE);
    single("a minor", "a", Some("1.0.0"), Some("1.0.1-alpha"), None, Some("1.1.0-alpha"), PRE);
}

#[test]
fn noop_when_already_ahead_by_patch() {
    single("a patch", "a", Some("1.0.0"), Some("1.0.1-alpha"), None, None, PRE);
}

#[test]
fn tree_noop_when_no_stable() {
    for raw in ["prerelease-only-1-0-0 major", "prerelease-only-1-0-0 minor", "prerelease-only-1-0-0 patch"] {
        single(raw, "prerelease-only-1-0-0", None, None, None, None, PRE);
    }
}

#[test]
fn causes_minor_ahead_prerelease_to_leapfrog() {
    single("a major", "a", Some("1.0.0"), Some("1.1.0-alpha"), Some("2.0.0"), Some("3.0.0-alpha"), STABLE);
}

#[test]
fn causes_major_ahead_prerelease_to_leapfrog() {
    single("a major", "a", Some("1.0.0"), Some("2.0.0-alpha"), Some("2.0.0"), Some("3.0.0-alpha"), STABLE);
}

#[test]
fn tree_causes_equal_prerelease_to_leapfrog() {
    single("a major", "a", Some("1.0.0"), Some("1.0.0"), Some("2.0.0"), Some("3.0.0-alpha"), STABLE);
    single("a minor", "a", Some("1.0.0"), Some("1.0.0"), Some("1.1.0"), Some("2.0.0-alpha"), STABLE);
    single("a patch", "a", Some("1.0.0"), Some("1.0.0"), Some("1.0.1"), Some("1.0.2-alpha"), STABLE);
}

fn dependents_case(
    raw: &str,
    a: [Option<&'static str>; 4],
    b: [Option<&'static str>; 4],
    c: [Option<&'static str>; 4],
) {
    let row = |name: &'static str, r: [Option<&'static str>; 4]| VersionChangeAssertion {
        package_name: name,
        initial_stable_version: r[0],
        expected_stable_version: r[1],
        initial_prerelease_version: r[2],
        expected_prerelease_version: r[3],
    };
    run_bump_tree_assertion(raw, vec![row("a", a), row("b", b), row("c", c)], STABLE);
}

#[test]
fn causes_dependents_to_major_bump() {
    // The prerelease versions are already far enough ahead to stay put.
    dependents_case(
        "a major",
        [Some("1.0.0"), Some("2.0.0"), Some("3.0.0-alpha"), None],
        [Some("0.1.0"), Some("0.2.0"), Some("1.0.0-alpha"), None],
        [Some("2.3.1"), Some("3.0.0"), Some("4.0.0-alpha"), None],
    );
}

#[test]
fn causes_minor_ahead_prerelease_to_major_bump() {
    single("a minor", "a", Some("1.0.0"), Some("1.1.0"), Some("1.1.0"), Some("2.0.0-alpha"), STABLE);
}

#[test]
fn tree_has_no_impact_on_major_ahead_prerelease() {
    single("a minor", "a", Some("1.0.0"), Some("2.0.0-alpha"), Some("1.1.0"), None, STABLE);
    single("a patch", "a", Some("1.0.0"), Some("2.0.0-alpha"), Some("1.0.1"), None, STABLE);
}

#[test]
fn tree_causes_dependents_to_patch() {
    dependents_case(
        "a minor",
        [Some("1.0.0"), Some("1.1.0"), Some("2.0.0-alpha"), None],
        [Some("0.1.0"), Some("0.1.1"), Some("1.0.0-alpha"), None],
        [Some("2.3.1"), Some("2.3.2"), Some("3.0.0-alpha"), None],
    );
    dependents_case(
        "a patch",
        [Some("1.0.1"), Some("1.0.2"), Some("2.0.0-alpha"), None],
        [Some("0.1.0"), Some("0.1.1"), Some("1.0.0-alpha"), None],
        [Some("2.3.1"), Some("2.3.2"), Some("3.0.0-alpha"), None],
    );
}

#[test]
fn causes_patch_ahead_prerelease_to_bump() {
    single("a patch", "a", Some("1.0.0"), Some("1.0.1-alpha"), Some("1.0.1"), Some("1.0.2-alpha"), STABLE);
}

#[test]
fn has_no_impact_on_minor_ahead_prerelease() {
    single("a patch", "a", Some("1.0.0"), Some("1.1.0-alpha"), Some("1.0.1"), None, STABLE);
}

#[test]
fn stable_major_propagates_to_dependents() {
    let (stable, prerelease) = get_mock_workspaces();
    let tree = build(&stable, &prerelease, "a major", STABLE);
    for (name, next) in [("a", "2.0.0"), ("b", "0.2.0"), ("c", "3.0.0")] {
        let i = tree.highest_stable_instruction(&stable, &prerelease, name).unwrap();
        assert_eq!(i.next_version, v(next), "{}", name);
    }
    assert_eq!(tree.root_nodes.len(), 1);
    let root = tree.root_nodes[0];
    assert_eq!(tree.nodes[root].children.len(), 2);
    assert_eq!(tree.significant_children(&stable, &prerelease, root).len(), 2);
    assert_eq!(tree.nodes[root].package_name(&stable, &prerelease), "a");
    let summary = tree.summary(&stable, &prerelease);
    assert_eq!(summary.breaking_bumps, 3);
    assert_eq!(summary.compatible_bumps, 0);
    assert_eq!(tree.updated_packages(&stable, &prerelease), vec!["a", "b", "c"]);
}

#[test]
fn stable_minor_propagates_as_patch() {
    let (stable, prerelease) = get_mock_workspaces();
    let tree = build(&stable, &prerelease, "a minor", STABLE);
    for (name, next) in [("a", "1.1.0"), ("b", "0.1.1"), ("c", "2.3.2")] {
        let i = tree.highest_stable_instruction(&stable, &prerelease, name).unwrap();
        assert_eq!(i.next_version, v(next), "{}", name);
    }
    let summary = tree.summary(&stable, &prerelease);
    assert_eq!(summary.breaking_bumps, 0);
    assert_eq!(summary.compatible_bumps, 3);
}

#[test]
fn stable_major_leapfrogs_equal_prerelease() {
    let (stable, prerelease) = get_mock_workspaces();
    let tree = build(&stable, &prerelease, "a major", STABLE);
    let s = tree.highest_stable_instruction(&stable, &prerelease, "a").unwrap();
    let p = tree.highest_prerelease_instruction(&stable, &prerelease, "a").unwrap();
    assert_eq!(s.next_version, v("2.0.0"));
    assert_eq!(p.next_version, v("3.0.0-alpha"));
    assert_eq!(p.bump_type(), BumpType::Major);
}

/// `d` depends on `a`; a minor request on `d` and a major one on `a` reach
/// `d` twice.
fn diamond() -> (Workspace, Workspace) {
    let stable = workspace(
        "stable",
        &[("a", "1.0.0", &[]), ("b", "1.0.0", &["a"]), ("d", "1.0.0", &["a", "b"])],
    );
    let prerelease = workspace("prerelease", &[]);
    (stable, prerelease)
}

#[test]
fn diamond_records_most_severe_bump_in_either_order() {
    let (stable, prerelease) = diamond();
    for order in [["d minor", "a major"], ["a major", "d minor"]] {
        let batch: Vec<String> = order.iter().map(|s| s.to_string()).collect();
        let roots = BumpInstruction::resolve_all(&stable, &prerelease, &batch, STABLE).unwrap();
        let tree = BumpTree::new(&stable, &prerelease, roots, STABLE).unwrap();
        let d = tree.highest_stable_instruction(&stable, &prerelease, "d").unwrap();
        assert_eq!(d.bump_type(), BumpType::Major);
        assert_eq!(d.next_version, v("2.0.0"));
        // `d` is reached from the root `a` directly and through `b`.
        let reached = tree
            .nodes
            .iter()
            .filter(|n| n.stable.as_ref().map(|i| i.package) == stable.find("d"))
            .count();
        assert_eq!(reached, 3);
    }
}

#[test]
fn dependency_cycle_is_reported() {
    let stable = workspace("stable", &[("a", "1.0.0", &["b"]), ("b", "1.0.0", &["a"])]);
    let prerelease = workspace("prerelease", &[]);
    let roots = BumpInstruction::resolve_all(&stable, &prerelease, &vec!["a patch".to_string()], STABLE)
        .unwrap();
    assert!(BumpTree::new(&stable, &prerelease, roots, STABLE).is_err());
}

#[test]
fn significant_children_leave_out_superseded_nodes() {
    let (stable, prerelease) = diamond();
    let batch = vec!["a major".to_string(), "b patch".to_string()];
    let roots = BumpInstruction::resolve_all(&stable, &prerelease, &batch, STABLE).unwrap();
    let tree = BumpTree::new(&stable, &prerelease, roots, STABLE).unwrap();
    // The second root `b patch` reaches `d` with a patch only, which the
    // major bump from `a` supersedes.
    let second = tree.root_nodes[1];
    assert_eq!(tree.nodes[second].children.len(), 1);
    assert!(tree.significant_children(&stable, &prerelease, second).is_empty());
}

#[test]
fn nodes_compare_by_their_bumps_only() {
    let i = BumpInstruction { package: 1, current_version: v("1.0.0"), next_version: v("2.0.0") };
    let a = BumpNode { stable: Some(i.clone()), prerelease: None, children: vec![3, 4] };
    let b = BumpNode { stable: Some(i.clone()), prerelease: None, children: vec![] };
    assert_eq!(a, b);
    let c = BumpNode { stable: None, prerelease: Some(i), children: vec![] };
    assert_ne!(b, c);
}
