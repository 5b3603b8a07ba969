use std::cmp::Ordering;
use workspace_version_tools::instruction::BumpInstruction;
use workspace_version_tools::version::{magnitude_of, BumpType, EndUserInitiated, Version};

fn v(text: &str) -> Version {
    let (core, pre) = match text.split_once('-') {
        Some((c, p)) => (c, p),
        None => (text, ""),
    };
    let nums: Vec<u64> = core.split('.').map(|n| n.parse().unwrap()).collect();
    Version::with_label(nums[0], nums[1], nums[2], pre)
}

fn instruction(cur: &str, next: &str) -> BumpInstruction {
    BumpInstruction { package: 0, current_version: v(cur), next_version: v(next) }
}

#[test]
fn bump_type_ordering() {
    assert!(BumpType::Major > BumpType::Minor);
    assert!(BumpType::Major > BumpType::Patch);
    assert!(BumpType::Minor > BumpType::Patch);
    assert!(BumpType::Minor < BumpType::Major);
    assert!(BumpType::Patch < BumpType::Major);
    assert!(BumpType::Patch < BumpType::Minor);
    assert!(BumpType::Major == BumpType::Major);
    assert!(BumpType::Minor == BumpType::Minor);
    assert!(BumpType::Patch == BumpType::Patch);
    assert!(std::cmp::max(BumpType::Major, BumpType::Minor) == BumpType::Major);
}

#[test]
fn handles_versions_with_major() {
    assert_eq!(instruction("1.0.0", "2.0.0").bump_type(), BumpType::Major);
    assert_eq!(instruction("1.0.0", "1.1.0").bump_type(), BumpType::Minor);
    assert_eq!(instruction("1.0.0", "1.0.1").bump_type(), BumpType::Patch);
}

#[test]
fn handles_versions_without_major() {
    assert_eq!(instruction("0.1.0", "1.0.0").bump_type(), BumpType::Major);
    assert_eq!(instruction("0.1.0", "0.2.0").bump_type(), BumpType::Major);
    assert_eq!(instruction("0.1.0", "0.1.1").bump_type(), BumpType::Patch);
}

#[test]
fn magnitude_of_zero_major_minor_rise_is_breaking() {
    assert_eq!(magnitude_of(&v("0.3.4"), &v("0.4.0")), BumpType::Major);
    assert_eq!(magnitude_of(&v("0.3.4"), &v("0.3.5")), BumpType::Patch);
    assert_eq!(magnitude_of(&v("2.3.4"), &v("2.4.0")), BumpType::Minor);
}

#[test]
fn user_major_bump_leaves_zero_major() {
    assert_eq!(v("0.1.3").bump(BumpType::Major, EndUserInitiated::Yes), v("1.0.0"));
    assert_eq!(v("1.2.3").bump(BumpType::Major, EndUserInitiated::Yes), v("2.0.0"));
}

#[test]
fn derived_major_bump_of_zero_major_raises_minor() {
    assert_eq!(v("0.1.3").bump(BumpType::Major, EndUserInitiated::No), v("0.2.0"));
    assert_eq!(v("2.3.1").bump(BumpType::Major, EndUserInitiated::No), v("3.0.0"));
}

#[test]
fn minor_and_patch_bumps() {
    assert_eq!(v("1.2.3").bump(BumpType::Minor, EndUserInitiated::Yes), v("1.3.0"));
    assert_eq!(v("1.2.3").bump(BumpType::Patch, EndUserInitiated::No), v("1.2.4"));
    assert_eq!(v("1.0.1-alpha").bump(BumpType::Patch, EndUserInitiated::No), v("1.0.2-alpha"));
}

#[test]
fn with_prerelease_attaches_alpha() {
    assert_eq!(v("2.0.0").with_prerelease(), v("2.0.0-alpha"));
    assert_eq!(v("2.0.0-beta.3").with_prerelease(), v("2.0.0-alpha"));
    assert!(v("2.0.0").with_prerelease().is_prerelease());
    assert!(!v("2.0.0").is_prerelease());
}

#[test]
fn compare_uses_fields_then_semver_label_precedence() {
    assert_eq!(v("3.0.0-alpha").compare(&v("2.9.9")), Some(Ordering::Greater));
    assert_eq!(v("1.0.0").compare(&v("1.0.0-alpha")), Some(Ordering::Greater));
    assert_eq!(v("2.0.0-alpha").compare(&v("2.0.0-alpha.1")), Some(Ordering::Less));
    assert_eq!(v("2.0.0-beta").compare(&v("2.0.0-alpha")), Some(Ordering::Greater));
    assert_eq!(v("2.0.0-alpha.2").compare(&v("2.0.0-alpha.10")), Some(Ordering::Less));
    assert_eq!(v("2.0.0-alpha").compare(&v("2.0.0-alpha")), Some(Ordering::Equal));
    assert_eq!(v("2.0.0-al..pha").compare(&v("2.0.0-alpha")), None);
}

#[test]
fn bump_type_from_str_ignores_letter_case() {
    assert_eq!(BumpType::from_str("major"), Ok(BumpType::Major));
    assert_eq!(BumpType::from_str("MAJOR"), Ok(BumpType::Major));
    assert_eq!(BumpType::from_str("Minor"), Ok(BumpType::Minor));
    assert_eq!(BumpType::from_str("pAtCh"), Ok(BumpType::Patch));
    assert_eq!(
        BumpType::from_str("huge"),
        Err("Invalid bump type: huge".to_string())
    );
}

#[test]
fn bump_type_from_lowercase_is_exact() {
    assert_eq!(BumpType::from_lowercase("minor"), Some(BumpType::Minor));
    assert_eq!(BumpType::from_lowercase("Minor"), None);
    assert_eq!(BumpType::from_lowercase(""), None);
}
