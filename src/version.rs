//! Version arithmetic: magnitudes, bumps and prerelease tagging.

use std::cmp::Ordering;
use vstd::prelude::*;

verus! {

/// How severe a version change is. Declared from least to most severe, so
/// the derived order has `Major > Minor > Patch`.
#[derive(Debug, Clone, Copy, PartialEq, Eq, Structural, PartialOrd, Ord, Hash)]
pub enum BumpType {
    Patch,
    Minor,
    Major,
}

/// Whether a bump was asked for by a person or derived by propagation.
#[derive(Debug, Clone, Copy, PartialEq, Eq, Structural, Hash)]
pub enum EndUserInitiated {
    Yes,
    No,
}

impl BumpType {
    /// Severity as a number: `Major` 2, `Minor` 1, `Patch` 0.
    pub open spec fn rank(self) -> int {
        match self {
            BumpType::Major => 2,
            BumpType::Minor => 1,
            BumpType::Patch => 0,
        }
    }

    pub fn severity(&self) -> (r: u8)
        ensures
            r as int == self.rank(),
    {
        match self {
            BumpType::Major => 2,
            BumpType::Minor => 1,
            BumpType::Patch => 0,
        }
    }

    /// The more severe of two magnitudes.
    pub open spec fn max_spec(self, other: BumpType) -> BumpType {
        if self.rank() >= other.rank() {
            self
        } else {
            other
        }
    }
}

/// A semantic version: `major.minor.patch`, with a prerelease label that is
/// empty for a release.
#[derive(Debug, Clone, Eq)]
pub struct Version {
    pub major: u64,
    pub minor: u64,
    pub patch: u64,
    pub pre: String,
}

/// The mathematical value of a [`Version`].
pub ghost struct VersionView {
    pub major: u64,
    pub minor: u64,
    pub patch: u64,
    pub pre: Seq<char>,
}

impl View for Version {
    type V = VersionView;

    open spec fn view(&self) -> VersionView {
        VersionView { major: self.major, minor: self.minor, patch: self.patch, pre: self.pre@ }
    }
}

/// The label that versions on the prerelease line carry.
pub open spec fn prerelease_label() -> Seq<char> {
    seq!['a', 'l', 'p', 'h', 'a']
}

/// Room left in each field for the two successive bumps that propagation
/// may apply to one version.
pub open spec fn has_headroom(v: VersionView) -> bool {
    &&& v.major + 2 <= u64::MAX
    &&& v.minor + 2 <= u64::MAX
    &&& v.patch + 2 <= u64::MAX
}

/// Room left in each field for one more bump.
pub open spec fn can_bump(v: VersionView) -> bool {
    &&& v.major + 1 <= u64::MAX
    &&& v.minor + 1 <= u64::MAX
    &&& v.patch + 1 <= u64::MAX
}

/// The version after a bump of magnitude `m`. A derived major bump of a
/// `0.x` version raises the minor field instead of leaving `0.x`.
pub open spec fn bumped(v: VersionView, m: BumpType, e: EndUserInitiated) -> VersionView {
    match m {
        BumpType::Major => {
            if e == EndUserInitiated::Yes || v.major > 0 {
                VersionView { major: (v.major + 1) as u64, minor: 0, patch: 0, ..v }
            } else {
                VersionView { minor: (v.minor + 1) as u64, patch: 0, ..v }
            }
        },
        BumpType::Minor => VersionView { minor: (v.minor + 1) as u64, patch: 0, ..v },
        BumpType::Patch => VersionView { patch: (v.patch + 1) as u64, ..v },
    }
}

/// The same version with the prerelease label attached.
pub open spec fn tagged(v: VersionView) -> VersionView {
    VersionView { pre: prerelease_label(), ..v }
}

/// The magnitude of the change from `cur` to `next`: a rise of the major
/// field, or of the minor field while both are `0.x`, is breaking.
pub open spec fn magnitude(cur: VersionView, next: VersionView) -> BumpType {
    if next.major > cur.major || (next.major == 0 && cur.major == 0 && next.minor > cur.minor) {
        BumpType::Major
    } else if next.minor > cur.minor {
        BumpType::Minor
    } else {
        BumpType::Patch
    }
}

/// Order of two versions that agree on `major.minor.patch` fields or not:
/// the fields decide first, the prerelease labels after them.
pub open spec fn numeric_cmp(a: VersionView, b: VersionView) -> Ordering {
    if a.major != b.major {
        if a.major < b.major { Ordering::Less } else { Ordering::Greater }
    } else if a.minor != b.minor {
        if a.minor < b.minor { Ordering::Less } else { Ordering::Greater }
    } else if a.patch != b.patch {
        if a.patch < b.patch { Ordering::Less } else { Ordering::Greater }
    } else {
        Ordering::Equal
    }
}

/// Semver precedence of two prerelease labels, `None` where one of them is
/// not a valid label.
pub uninterp spec fn label_precedence(a: Seq<char>, b: Seq<char>) -> Option<Ordering>;

/// Semver precedence of two versions; `None` where the fields agree and a
/// label is not valid.
pub open spec fn version_cmp(a: VersionView, b: VersionView) -> Option<Ordering> {
    if numeric_cmp(a, b) != Ordering::Equal {
        Some(numeric_cmp(a, b))
    } else {
        label_precedence(a.pre, b.pre)
    }
}

/// `a` has strictly higher precedence than `b`.
pub open spec fn version_gt(a: VersionView, b: VersionView) -> bool {
    version_cmp(a, b) == Some(Ordering::Greater)
}

/// Relies on `semver::Prerelease::new`, which parses a label, and on the `Ord`
/// of `semver::Prerelease`, which orders two labels by semver precedence.
#[verifier::external_body]
fn compare_labels(a: &str, b: &str) -> (r: Option<Ordering>)
    ensures
        r == label_precedence(a@, b@),
{
    match (semver::Prerelease::new(a), semver::Prerelease::new(b)) {
        (Ok(x), Ok(y)) => Some(x.cmp(&y)),
        _ => None,
    }
}

impl Version {
    /// A release version with no prerelease label.
    pub fn new(major: u64, minor: u64, patch: u64) -> (r: Version)
        ensures
            r@ == (VersionView { major, minor, patch, pre: Seq::empty() }),
    {
        Version { major, minor, patch, pre: String::new() }
    }

    /// A version with the given prerelease label.
    pub fn with_label(major: u64, minor: u64, patch: u64, pre: &str) -> (r: Version)
        ensures
            r@ == (VersionView { major, minor, patch, pre: pre@ }),
    {
        Version { major, minor, patch, pre: String::from_str(pre) }
    }

    pub fn copy(&self) -> (r: Version)
        ensures
            r@ == self@,
    {
        Version { major: self.major, minor: self.minor, patch: self.patch, pre: self.pre.clone() }
    }

    /// Whether the version carries a prerelease label.
    pub fn is_prerelease(&self) -> (r: bool)
        ensures
            r == (self@.pre.len() > 0),
    {
        self.pre.unicode_len() > 0
    }

    /// The version after a bump of magnitude `bump_type`.
    pub fn bump(&self, bump_type: BumpType, end_user_initiated: EndUserInitiated) -> (r: Version)
        requires
            can_bump(self@),
        ensures
            r@ == bumped(self@, bump_type, end_user_initiated),
    {
        let pre = self.pre.clone();
        match bump_type {
            BumpType::Major => {
                if end_user_initiated == EndUserInitiated::Yes || self.major > 0 {
                    Version { major: self.major + 1, minor: 0, patch: 0, pre }
                } else {
                    Version { major: self.major, minor: self.minor + 1, patch: 0, pre }
                }
            },
            BumpType::Minor => Version { major: self.major, minor: self.minor + 1, patch: 0, pre },
            BumpType::Patch => Version {
                major: self.major,
                minor: self.minor,
                patch: self.patch + 1,
                pre,
            },
        }
    }

    /// The same version on the prerelease line.
    pub fn with_prerelease(&self) -> (r: Version)
        ensures
            r@ == tagged(self@),
    {
        let pre = String::from_str("alpha");
        proof {
            reveal_strlit("alpha");
        }
        assert(pre@ =~= prerelease_label());
        Version { major: self.major, minor: self.minor, patch: self.patch, pre }
    }

    /// Semver precedence against `other`; `None` where the fields agree and
    /// a prerelease label is not valid.
    pub fn compare(&self, other: &Version) -> (r: Option<Ordering>)
        ensures
            r == version_cmp(self@, other@),
    {
        if self.major != other.major {
            Some(if self.major < other.major { Ordering::Less } else { Ordering::Greater })
        } else if self.minor != other.minor {
            Some(if self.minor < other.minor { Ordering::Less } else { Ordering::Greater })
        } else if self.patch != other.patch {
            Some(if self.patch < other.patch { Ordering::Less } else { Ordering::Greater })
        } else {
            compare_labels(self.pre.as_str(), other.pre.as_str())
        }
    }
}

/// The magnitude of the change from `cur` to `next`.
pub fn magnitude_of(cur: &Version, next: &Version) -> (r: BumpType)
    ensures
        r == magnitude(cur@, next@),
{
    if next.major > cur.major || (next.major == 0 && cur.major == 0 && next.minor > cur.minor) {
        BumpType::Major
    } else if next.minor > cur.minor {
        BumpType::Minor
    } else {
        BumpType::Patch
    }
}


impl PartialEq for Version {
    /// The same fields and the same prerelease label.
    fn eq(&self, other: &Version) -> (r: bool)
        ensures
            r == (self@ == other@),
    {
        self.major == other.major && self.minor == other.minor && self.patch == other.patch
            && crate::text::str_eq(self.pre.as_str(), other.pre.as_str())
    }
}

impl vstd::std_specs::cmp::PartialEqSpecImpl for Version {
    open spec fn obeys_eq_spec() -> bool {
        true
    }

    open spec fn eq_spec(&self, other: &Version) -> bool {
        self@ == other@
    }
}

} // verus!
