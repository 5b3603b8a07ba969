use workspace_version_tools::instruction::{BumpInstruction, ReleaseChannel};
use workspace_version_tools::package::{Dependency, Package};
use workspace_version_tools::version::{BumpType, EndUserInitiated, Version};
use workspace_version_tools::workspace::Workspace;

fn v(text: &str) -> Version {
    let (core, pre) = match text.split_once('-') {
        Some((c, p)) => (c, p),
        None => (text, ""),
    };
    let nums: Vec<u64> = core.split('.').map(|n| n.parse().unwrap()).collect();
    Version::with_label(nums[0], nums[1], nums[2], pre)
}

fn workspace(branch: &str, members: &[(&str, &str, &[&str])]) -> Workspace {
    let names: Vec<String> = members.iter().map(|m| m.0.to_string()).collect();
    let packages = members
        .iter()
        .map(|(name, version, deps)| {
            let deps: Vec<Dependency> = deps
                .iter()
                .map(|d| Dependency { name: d.to_string(), development: false })
                .collect();
            Package::new(name.to_string(), v(version), &deps, &names, true)
        })
        .collect();
    Workspace::new(branch.to_string(), packages)
}

/// A stable and a prerelease checkout of the same workspace.
fn get_mock_workspaces() -> (Workspace, Workspace) {
    let stable = workspace(
        "stable",
        &[
            ("a", "1.0.0", &[]),
            ("b", "0.1.0", &["a"]),
            ("c", "2.3.1", &["a"]),
            ("a1-0-0", "1.0.0", &[]),
            ("a0-1-0", "0.1.0", &[]),
            ("stable-only-1-0-0", "1.0.0", &[]),
            ("prerelease-ahead-major", "1.0.0", &[]),
            ("prerelease-ahead-minor", "1.0.0", &[]),
            ("prerelease-ahead-patch", "1.0.0", &[]),
        ],
    );
    let prerelease = workspace(
        "prerelease",
        &[
            ("a", "1.0.0", &[]),
            ("b", "0.1.0", &["a"]),
            ("c", "2.3.1", &["a"]),
            ("a1-0-0", "1.0.0", &[]),
            ("a0-1-0", "0.1.0", &[]),
            ("prerelease-only-1-0-0", "1.0.0", &[]),
            ("prerelease-ahead-major", "2.0.0-alpha", &[]),
            ("prerelease-ahead-minor", "1.1.0-alpha", &[]),
            ("prerelease-ahead-patch", "1.0.1-alpha", &[]),
        ],
    );
    (stable, prerelease)
}

fn resolve(
    stable: &Workspace,
    prerelease: &Workspace,
    text: &str,
    channel: ReleaseChannel,
) -> Result<Option<BumpInstruction>, String> {
    BumpInstruction::from_str(stable, prerelease, text, channel)
}

#[test]
fn prerelease_only_package_doesnt_need_bump() {
    let (stable, prerelease) = get_mock_workspaces();
    assert_eq!(
        resolve(&stable, &prerelease, "prerelease-only-1-0-0 patch", ReleaseChannel::Prerelease),
        Ok(None)
    );
}

#[test]
fn prerelease_already_major_bumped_package_doesnt_need_bump() {
    let (stable, prerelease) = get_mock_workspaces();
    assert_eq!(
        resolve(&stable, &prerelease, "prerelease-only-1-0-0 patch", ReleaseChannel::Prerelease),
        Ok(None)
    );
}

#[test]
fn bump_prerelease_only_package_on_stable_channel_fails() {
    let (stable, prerelease) = get_mock_workspaces();
    let r = resolve(&stable, &prerelease, "prerelease-only-1-0-0 patch", ReleaseChannel::Stable);
    assert!(matches!(r, Err(_)));
    assert_eq!(r, Err("Package prerelease-only-1-0-0 not found on branch stable".to_string()));
}

#[test]
fn bump_stable_only_package_on_prerelease_channel_fails() {
    let (stable, prerelease) = get_mock_workspaces();
    let r = resolve(&stable, &prerelease, "stable-only-1-0-0 patch", ReleaseChannel::Prerelease);
    assert!(matches!(r, Err(_)));
    assert_eq!(r, Err("Package stable-only-1-0-0 not found on branch prerelease".to_string()));
}

fn expect_stable(text: &str, next: &str) {
    let (stable, prerelease) = get_mock_workspaces();
    let package = stable.find("stable-only-1-0-0").unwrap();
    assert_eq!(
        resolve(&stable, &prerelease, text, ReleaseChannel::Stable),
        Ok(Some(BumpInstruction {
            package,
            current_version: v("1.0.0"),
            next_version: v(next),
        }))
    );
}

#[test]
fn bump_stable_patch_works() {
    expect_stable("stable-only-1-0-0 patch", "1.0.1");
}

#[test]
fn bump_stable_minor_works() {
    expect_stable("stable-only-1-0-0 minor", "1.1.0");
}

#[test]
fn bump_stable_major_works() {
    expect_stable("stable-only-1-0-0 major", "2.0.0");
}

#[test]
fn bump_prerelease_major_already_bumped_is_noop() {
    let (stable, prerelease) = get_mock_workspaces();
    for text in [
        "prerelease-ahead-major major",
        "prerelease-ahead-major minor",
        "prerelease-ahead-major patch",
    ] {
        assert_eq!(resolve(&stable, &prerelease, text, ReleaseChannel::Prerelease), Ok(None));
    }
}

#[test]
fn bump_prerelease_minor_already_bumped_works() {
    let (stable, prerelease) = get_mock_workspaces();
    let index = prerelease.find("prerelease-ahead-minor").unwrap();
    let current = prerelease.packages[index].version();
    let expected_next_version = current.bump(BumpType::Major, EndUserInitiated::Yes);
    assert_eq!(expected_next_version, v("2.0.0-alpha"));

    // Major bump works
    assert_eq!(
        resolve(&stable, &prerelease, "prerelease-ahead-minor major", ReleaseChannel::Prerelease),
        Ok(Some(BumpInstruction {
            package: index,
            current_version: current.clone(),
            next_version: expected_next_version,
        }))
    );
    // minor is noop (already bumped)
    assert_eq!(
        resolve(&stable, &prerelease, "prerelease-ahead-minor minor", ReleaseChannel::Prerelease),
        Ok(None)
    );
    // patch is noop (already bumped)
    assert_eq!(
        resolve(&stable, &prerelease, "prerelease-ahead-minor patch", ReleaseChannel::Prerelease),
        Ok(None)
    );
}

#[test]
fn bump_prerelease_patch_already_bumped_works() {
    let (stable, prerelease) = get_mock_workspaces();
    let index = prerelease.find("prerelease-ahead-patch").unwrap();
    let current = prerelease.packages[index].version();

    // Major bump works
    let expected_next_version = current.bump(BumpType::Major, EndUserInitiated::Yes);
    assert_eq!(
        resolve(&stable, &prerelease, "prerelease-ahead-patch major", ReleaseChannel::Prerelease),
        Ok(Some(BumpInstruction {
            package: index,
            current_version: current.clone(),
            next_version: expected_next_version,
        }))
    );

    // minor bump works
    let expected_next_version = current.bump(BumpType::Minor, EndUserInitiated::Yes);
    assert_eq!(expected_next_version, v("1.1.0-alpha"));
    assert_eq!(
        resolve(&stable, &prerelease, "prerelease-ahead-patch minor", ReleaseChannel::Prerelease),
        Ok(Some(BumpInstruction {
            package: index,
            current_version: current.clone(),
            next_version: expected_next_version,
        }))
    );

    // patch is noop (already bumped)
    assert_eq!(
        resolve(&stable, &prerelease, "prerelease-ahead-patch patch", ReleaseChannel::Prerelease),
        Ok(None)
    );
}

#[test]
fn malformed_instructions_fail() {
    let (stable, prerelease) = get_mock_workspaces();
    assert_eq!(
        resolve(&stable, &prerelease, "a", ReleaseChannel::Stable),
        Err("Invalid Bump Instruction: 'a'".to_string())
    );
    assert_eq!(
        resolve(&stable, &prerelease, "a huge", ReleaseChannel::Stable),
        Err("Invalid bump type: huge".to_string())
    );
    assert_eq!(
        resolve(&stable, &prerelease, "a  major", ReleaseChannel::Stable),
        Err("Invalid bump type:  major".to_string())
    );
}

#[test]
fn magnitude_word_is_case_insensitive() {
    let (stable, prerelease) = get_mock_workspaces();
    let r = resolve(&stable, &prerelease, "stable-only-1-0-0 MAJOR", ReleaseChannel::Stable);
    assert_eq!(r.unwrap().unwrap().next_version, v("2.0.0"));
}

#[test]
fn resolving_twice_gives_equal_instructions() {
    let (stable, prerelease) = get_mock_workspaces();
    for (text, channel) in [
        ("a major", ReleaseChannel::Stable),
        ("prerelease-ahead-patch minor", ReleaseChannel::Prerelease),
        ("a bogus", ReleaseChannel::Stable),
    ] {
        let first = resolve(&stable, &prerelease, text, channel);
        let second = resolve(&stable, &prerelease, text, channel);
        assert_eq!(first, second);
    }
}

#[test]
fn prerelease_no_op_laws_for_major() {
    // stable 1.0.0, magnitude major
    let (stable, mut prerelease) = get_mock_workspaces();
    let a = prerelease.find("a").unwrap();
    for (pre, expected) in [
        ("2.0.0-alpha", None),
        ("1.1.0-alpha", Some("2.0.0-alpha")),
        ("1.0.1-alpha", Some("2.0.0-alpha")),
    ] {
        prerelease.packages[a].set_version(&v(pre));
        let r = resolve(&stable, &prerelease, "a major", ReleaseChannel::Prerelease).unwrap();
        assert_eq!(r.map(|i| i.next_version), expected.map(v));
    }
}

#[test]
fn resolve_all_drops_no_ops_and_stops_at_first_error() {
    let (stable, prerelease) = get_mock_workspaces();
    let batch = vec![
        "prerelease-ahead-major major".to_string(),
        "prerelease-ahead-minor major".to_string(),
    ];
    let r = BumpInstruction::resolve_all(&stable, &prerelease, &batch, ReleaseChannel::Prerelease)
        .unwrap();
    assert_eq!(r.len(), 1);
    assert_eq!(r[0].next_version, v("2.0.0-alpha"));

    let batch = vec!["a major".to_string(), "nope major".to_string(), "b x".to_string()];
    assert_eq!(
        BumpInstruction::resolve_all(&stable, &prerelease, &batch, ReleaseChannel::Stable),
        Err("Package nope not found on branch stable".to_string())
    );
}
