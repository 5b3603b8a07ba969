use workspace_version_tools::logging::{bordered_message, Color, BLUE, GREEN, RESET};
use workspace_version_tools::maintenance::{at_least_stable, start_prerelease, sync_outcome, Outcome};
use workspace_version_tools::text::propagation_branch_name;
use workspace_version_tools::version::Version;

#[test]
fn at_least_stable_drops_label_and_leaves_zero_zero() {
    assert_eq!(at_least_stable(&Version::with_label(0, 0, 7, "alpha.1")), Version::new(0, 1, 0));
    assert_eq!(at_least_stable(&Version::with_label(1, 2, 3, "beta")), Version::new(1, 2, 3));
    assert_eq!(at_least_stable(&Version::new(0, 3, 1)), Version::new(0, 3, 1));
}

#[test]
fn start_prerelease_appends_first_label() {
    assert_eq!(
        start_prerelease(&Version::new(1, 2, 3)),
        Some(Version::with_label(1, 2, 3, "alpha.1"))
    );
    assert_eq!(start_prerelease(&Version::with_label(1, 2, 3, "alpha")), None);
}

#[test]
fn sync_outcome_compares_versions() {
    let a = Version::new(1, 2, 3);
    let b = Version::new(1, 2, 4);
    assert_eq!(sync_outcome(&a, &a), Outcome::AlreadyUpdated(a.clone()));
    assert_eq!(sync_outcome(&a, &b), Outcome::Updated(a.clone(), b.clone()));
    let c = Version::with_label(1, 2, 3, "rc.1");
    assert_eq!(sync_outcome(&a, &c), Outcome::Updated(a.clone(), c.clone()));
}

#[test]
fn bordered_message_frames_message() {
    let lines = bordered_message("hello", &Color::Blue);
    assert_eq!(lines.len(), 3);
    assert_eq!(lines[0], format!("{}-----", BLUE));
    assert_eq!(lines[1], format!("{}hello", BLUE));
    assert_eq!(lines[2], format!("{}-----{}", BLUE, RESET));
    let lines = bordered_message("é", &Color::Green);
    assert_eq!(lines[0], format!("{}--", GREEN));
    assert_eq!(Color::Green.to_string(), GREEN);
}

#[test]
fn propagation_branch_name_joins_instructions() {
    let instructions = vec!["a major".to_string(), "b patch".to_string()];
    assert_eq!(
        propagation_branch_name(&instructions, "2024-01-31"),
        "propagate-a_major-b_patch-bump-to-prerelease-2024-01-31"
    );
    assert_eq!(
        propagation_branch_name(&vec![], "d"),
        "propagate--bump-to-prerelease-d"
    );
}
