//! Version rules of the workspace-wide maintenance commands.

use crate::version::{Version, VersionView};
use vstd::prelude::*;

verus! {

/// The version with its prerelease label removed, raised to at least
/// `0.1.0` so that compatible bumps are possible.
pub open spec fn at_least_stable_spec(v: VersionView) -> VersionView {
    if v.major == 0 && v.minor == 0 {
        VersionView { major: 0, minor: 1, patch: 0, pre: Seq::empty() }
    } else {
        VersionView { pre: Seq::empty(), ..v }
    }
}

/// The label that opens a prerelease line.
pub open spec fn first_prerelease_label() -> Seq<char> {
    seq!['a', 'l', 'p', 'h', 'a', '.', '1']
}

/// The version with its prerelease label removed and bumped to at least
/// `0.1.0`.
pub fn at_least_stable(version: &Version) -> (r: Version)
    ensures
        r@ == at_least_stable_spec(version@),
{
    if version.major == 0 && version.minor == 0 {
        Version::new(0, 1, 0)
    } else {
        Version::new(version.major, version.minor, version.patch)
    }
}

/// The first prerelease of a release version; none for a version that is
/// already a prerelease.
pub fn start_prerelease(version: &Version) -> (r: Option<Version>)
    ensures
        version@.pre.len() > 0 ==> r is None,
        version@.pre.len() == 0 ==> (r matches Some(v) && v@ == (VersionView {
            pre: first_prerelease_label(),
            ..version@
        })),
{
    if version.is_prerelease() {
        return None;
    }
    proof {
        reveal_strlit("alpha.1");
    }
    let v = Version::with_label(version.major, version.minor, version.patch, "alpha.1");
    assert(v@.pre =~= first_prerelease_label());
    Some(v)
}

/// What syncing a manifest with the registry did.
#[derive(Debug, Clone, PartialEq, Eq)]
pub enum Outcome {
    AlreadyUpdated(Version),
    Updated(Version, Version),
    PublishFalse,
}

/// The outcome of syncing a published package whose manifest holds
/// `current` with the registry's latest version `published`.
pub fn sync_outcome(current: &Version, published: &Version) -> (r: Outcome)
    ensures
        current@ == published@ ==> (r matches Outcome::AlreadyUpdated(v) && v@ == current@),
        current@ != published@ ==> (r matches Outcome::Updated(a, b) && a@ == current@ && b@
            == published@),
{
    if current == published {
        Outcome::AlreadyUpdated(current.copy())
    } else {
        Outcome::Updated(current.copy(), published.copy())
    }
}

} // verus!
