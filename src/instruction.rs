//! Bump instructions: resolving a requested bump on one channel, and
//! reconciling the prerelease line with a change on the stable line.

use crate::text::{
    bump_type_named, concat, find_space, first_space, invalid_instruction_message, lower_of,
    not_found_message,
};
use crate::version::{
    bumped, can_bump, has_headroom, magnitude, magnitude_of, tagged, version_gt, BumpType,
    EndUserInitiated, Version, VersionView,
};
use crate::package::texts;
use crate::tree::{instructions_view, root_fits};
use crate::workspace::{lemma_position_of, Workspace};
use std::cmp::Ordering;
use vstd::prelude::*;

verus! {

/// The two release lines.
#[derive(Debug, Clone, Copy, PartialEq, Eq, Structural, Hash)]
pub enum ReleaseChannel {
    Stable,
    Prerelease,
}

/// Bump one package, at a position in its channel's workspace, from its
/// current version to `next_version`.
#[derive(Debug, Clone, Eq)]
pub struct BumpInstruction {
    /// Position of the package in its channel's workspace.
    pub package: usize,
    /// The package's version when the instruction was made.
    pub current_version: Version,
    pub next_version: Version,
}

/// The mathematical value of a [`BumpInstruction`].
pub ghost struct InstructionView {
    pub package: int,
    pub current: VersionView,
    pub next: VersionView,
}

impl View for BumpInstruction {
    type V = InstructionView;

    open spec fn view(&self) -> InstructionView {
        InstructionView {
            package: self.package as int,
            current: self.current_version@,
            next: self.next_version@,
        }
    }
}

/// The magnitude of an instruction, derived from its two versions.
pub open spec fn kind(i: InstructionView) -> BumpType {
    magnitude(i.current, i.next)
}

pub open spec fn opt_view(i: Option<BumpInstruction>) -> Option<InstructionView> {
    match i {
        Some(i) => Some(i@),
        None => None,
    }
}

pub open spec fn ref_view(i: Option<&BumpInstruction>) -> Option<InstructionView> {
    match i {
        Some(i) => Some(i@),
        None => None,
    }
}

/// The mathematical value of a resolver result.
pub open spec fn resolved_view(r: Result<Option<BumpInstruction>, String>) -> Result<
    Option<InstructionView>,
    Seq<char>,
> {
    match r {
        Ok(i) => Ok(opt_view(i)),
        Err(e) => Err(e@),
    }
}

/// The prerelease version is already ahead of stable in the tier of `m`, or a
/// more severe one.
pub open spec fn already_ahead(pre: VersionView, stable: VersionView, m: BumpType) -> bool {
    match m {
        BumpType::Major => pre.major > stable.major,
        BumpType::Minor => pre.major > stable.major || pre.minor > stable.minor,
        BumpType::Patch => pre.major > stable.major || pre.minor > stable.minor || pre.patch
            > stable.patch,
    }
}

/// What a requested bump of `name` by `m` on channel `ch` resolves to.
pub open spec fn resolve_named(
    stable: &Workspace,
    prerelease: &Workspace,
    name: Seq<char>,
    m: BumpType,
    ch: ReleaseChannel,
) -> Result<Option<InstructionView>, Seq<char>> {
    match stable.lookup(name) {
        None => match ch {
            ReleaseChannel::Stable => Err(not_found_message(name, stable.branch_name@)),
            ReleaseChannel::Prerelease => Ok(None),
        },
        Some(si) => {
            let cur_stable = stable.packages@[si].version@;
            match ch {
                ReleaseChannel::Stable => Ok(
                    Some(
                        InstructionView {
                            package: si,
                            current: cur_stable,
                            next: bumped(cur_stable, m, EndUserInitiated::Yes),
                        },
                    ),
                ),
                ReleaseChannel::Prerelease => match prerelease.lookup(name) {
                    None => Err(not_found_message(name, prerelease.branch_name@)),
                    Some(pi) => {
                        let cur_pre = prerelease.packages@[pi].version@;
                        if already_ahead(cur_pre, cur_stable, m) {
                            Ok(None)
                        } else {
                            Ok(
                                Some(
                                    InstructionView {
                                        package: pi,
                                        current: cur_pre,
                                        next: tagged(bumped(cur_stable, m, EndUserInitiated::Yes)),
                                    },
                                ),
                            )
                        }
                    },
                },
            }
        },
    }
}

/// What the instruction text `s`, `<package> <magnitude>`, resolves to on
/// channel `ch`.
pub open spec fn resolve(
    stable: &Workspace,
    prerelease: &Workspace,
    s: Seq<char>,
    ch: ReleaseChannel,
) -> Result<Option<InstructionView>, Seq<char>> {
    match first_space(s) {
        None => Err(invalid_instruction_message(s)),
        Some(k) => {
            let word = s.subrange(k + 1, s.len() as int);
            match bump_type_named(lower_of(word)) {
                None => Err(crate::text::invalid_bump_type_message(word)),
                Some(m) => resolve_named(stable, prerelease, s.subrange(0, k), m, ch),
            }
        },
    }
}

/// The prerelease version that keeps the prerelease line ahead of stable,
/// from the stable change `st` and the prerelease parent's change `parent`.
pub open spec fn reconciled_version(
    cur_stable: VersionView,
    st: Option<InstructionView>,
    parent: Option<InstructionView>,
) -> Option<VersionView> {
    let c1 = match st {
        Some(i) => Some(
            tagged(
                bumped(
                    i.next,
                    if kind(i) == BumpType::Patch {
                        BumpType::Patch
                    } else {
                        BumpType::Major
                    },
                    EndUserInitiated::No,
                ),
            ),
        ),
        None => None,
    };
    let c2 = match parent {
        Some(i) => Some(
            tagged(
                bumped(
                    cur_stable,
                    if kind(i) == BumpType::Major {
                        BumpType::Major
                    } else {
                        BumpType::Patch
                    },
                    EndUserInitiated::No,
                ),
            ),
        ),
        None => None,
    };
    match (c1, c2) {
        (Some(a), Some(b)) => Some(
            if version_gt(a, b) {
                a
            } else {
                b
            },
        ),
        (Some(a), None) => Some(a),
        (None, Some(b)) => Some(b),
        (None, None) => None,
    }
}

/// The prerelease instruction for the package at `pi` of `prerelease`, whose
/// stable counterpart is at `si` of `stable`; none where a counterpart is
/// missing or the prerelease version is not behind the requirement.
pub open spec fn reconcile(
    stable: &Workspace,
    prerelease: &Workspace,
    pi: Option<int>,
    si: Option<int>,
    st: Option<InstructionView>,
    parent: Option<InstructionView>,
) -> Option<InstructionView> {
    match (pi, si) {
        (Some(pi), Some(si)) => {
            let cur_pre = prerelease.packages@[pi].version@;
            match reconciled_version(stable.packages@[si].version@, st, parent) {
                Some(v) => if version_gt(v, cur_pre) {
                    Some(InstructionView { package: pi, current: cur_pre, next: v })
                } else {
                    None
                },
                None => None,
            }
        },
        _ => None,
    }
}

impl BumpInstruction {
    /// The magnitude of this instruction.
    pub fn bump_type(&self) -> (r: BumpType)
        ensures
            r == kind(self@),
    {
        magnitude_of(&self.current_version, &self.next_version)
    }

    pub fn copy(&self) -> (r: BumpInstruction)
        ensures
            r@ == self@,
    {
        BumpInstruction {
            package: self.package,
            current_version: self.current_version.copy(),
            next_version: self.next_version.copy(),
        }
    }

    /// Resolves the instruction text `s`, `<package> <magnitude>`, on
    /// `release_channel`: the bump to make, none where nothing needs to
    /// move, or the error that makes the request invalid.
    pub fn from_str(
        stable_workspace: &Workspace,
        prerelease_workspace: &Workspace,
        s: &str,
        release_channel: ReleaseChannel,
    ) -> (r: Result<Option<BumpInstruction>, String>)
        requires
            stable_workspace.bumpable_once(),
        ensures
            resolved_view(r) == resolve(stable_workspace, prerelease_workspace, s@, release_channel),
    {
        let k = match find_space(s) {
            Some(k) => k,
            None => {
                let m = concat("Invalid Bump Instruction: '", s);
                return Err(concat(m.as_str(), "'"));
            },
        };
        let n = s.unicode_len();
        let name = s.substring_char(0, k);
        let word = s.substring_char(k + 1, n);
        let semver_part = match BumpType::from_str(word) {
            Ok(b) => b,
            Err(e) => return Err(e),
        };
        resolve_package(stable_workspace, prerelease_workspace, name, semver_part, release_channel)
    }
}

/// Resolves a bump of the package `name` by `m` on `ch`.
fn resolve_package(
    stable_workspace: &Workspace,
    prerelease_workspace: &Workspace,
    name: &str,
    m: BumpType,
    ch: ReleaseChannel,
) -> (r: Result<Option<BumpInstruction>, String>)
    requires
        stable_workspace.bumpable_once(),
    ensures
        resolved_view(r) == resolve_named(stable_workspace, prerelease_workspace, name@, m, ch),
{
    let si = match stable_workspace.find(name) {
        Some(i) => i,
        None => {
            return match ch {
                ReleaseChannel::Stable => Err(not_found(name, &stable_workspace.branch_name)),
                ReleaseChannel::Prerelease => Ok(None),
            };
        },
    };
    let cur_stable = &stable_workspace.packages[si].version;
    assert(can_bump(stable_workspace.packages@[si as int].version@));
    match ch {
        ReleaseChannel::Stable => Ok(
            Some(
                BumpInstruction {
                    package: si,
                    current_version: cur_stable.copy(),
                    next_version: cur_stable.bump(m, EndUserInitiated::Yes),
                },
            ),
        ),
        ReleaseChannel::Prerelease => {
            let pi = match prerelease_workspace.find(name) {
                Some(i) => i,
                None => return Err(not_found(name, &prerelease_workspace.branch_name)),
            };
            let cur_pre = &prerelease_workspace.packages[pi].version;
            let ahead = match m {
                BumpType::Major => cur_pre.major > cur_stable.major,
                BumpType::Minor => cur_pre.major > cur_stable.major || cur_pre.minor
                    > cur_stable.minor,
                BumpType::Patch => cur_pre.major > cur_stable.major || cur_pre.minor
                    > cur_stable.minor || cur_pre.patch > cur_stable.patch,
            };
            if ahead {
                Ok(None)
            } else {
                Ok(
                    Some(
                        BumpInstruction {
                            package: pi,
                            current_version: cur_pre.copy(),
                            next_version: cur_stable.bump(m, EndUserInitiated::Yes).with_prerelease(),
                        },
                    ),
                )
            }
        },
    }
}

/// The message for a package missing from a branch.
fn not_found(name: &str, branch: &String) -> (r: String)
    ensures
        r@ == not_found_message(name@, branch@),
{
    let a = concat("Package ", name);
    let b = concat(a.as_str(), " not found on branch ");
    let r = concat(b.as_str(), branch.as_str());
    assert(r@ =~= not_found_message(name@, branch@));
    r
}

/// Prerelease bump type is influenced by the parent and the next stable
/// bump type. It also requires a stable package to exist for this child,
/// otherwise the prerelease isn't being bumped in relation to anything.
pub fn compute_prerelease_bump_instruction(
    stable_workspace: &Workspace,
    prerelease_workspace: &Workspace,
    prerelease_package: Option<usize>,
    stable_package: Option<usize>,
    stable_bump_instruction: Option<&BumpInstruction>,
    prerelease_parent_bump_instruction: Option<&BumpInstruction>,
) -> (r: Option<BumpInstruction>)
    requires
        stable_workspace.bumpable(),
        match prerelease_package {
            Some(p) => p < prerelease_workspace.packages@.len(),
            None => true,
        },
        match stable_package {
            Some(p) => p < stable_workspace.packages@.len(),
            None => true,
        },
        match stable_bump_instruction {
            Some(i) => can_bump(i.next_version@),
            None => true,
        },
    ensures
        opt_view(r) == reconcile(
            stable_workspace,
            prerelease_workspace,
            match prerelease_package {
                Some(p) => Some(p as int),
                None => None,
            },
            match stable_package {
                Some(p) => Some(p as int),
                None => None,
            },
            ref_view(stable_bump_instruction),
            ref_view(prerelease_parent_bump_instruction),
        ),
{
    // If there's no prerelease package, there's nothing to bump.
    let pi = match prerelease_package {
        Some(p) => p,
        None => return None,
    };
    // Without a stable package the prerelease version is already ready to
    // release to stable.
    let si = match stable_package {
        Some(p) => p,
        None => return None,
    };
    let cur_pre = &prerelease_workspace.packages[pi].version;
    let cur_stable = &stable_workspace.packages[si].version;
    assert(has_headroom(stable_workspace.packages@[si as int].version@));

    // First candidate: what the prerelease needs to stay semver compliant
    // relative to the new stable version.
    let candidate1 = match stable_bump_instruction {
        Some(i) => match i.bump_type() {
            BumpType::Patch => Some(
                i.next_version.bump(BumpType::Patch, EndUserInitiated::No).with_prerelease(),
            ),
            _ => Some(i.next_version.bump(BumpType::Major, EndUserInitiated::No).with_prerelease()),
        },
        None => None,
    };
    // Second candidate: what the prerelease parent's change asks for.
    let candidate2 = match prerelease_parent_bump_instruction {
        Some(i) => match i.bump_type() {
            BumpType::Major => Some(
                cur_stable.bump(BumpType::Major, EndUserInitiated::No).with_prerelease(),
            ),
            _ => Some(cur_stable.bump(BumpType::Patch, EndUserInitiated::No).with_prerelease()),
        },
        None => None,
    };
    let highest_candidate = match (candidate1, candidate2) {
        (Some(c1), Some(c2)) => {
            match c1.compare(&c2) {
                Some(Ordering::Greater) => Some(c1),
                _ => Some(c2),
            }
        },
        (Some(c1), None) => Some(c1),
        (None, Some(c2)) => Some(c2),
        (None, None) => None,
    };
    match highest_candidate {
        Some(v) => {
            // Only bump where the current prerelease is behind the candidate.
            match v.compare(cur_pre) {
                Some(Ordering::Greater) => Some(
                    BumpInstruction { package: pi, current_version: cur_pre.copy(), next_version: v },
                ),
                _ => None,
            }
        },
        None => None,
    }
}


/// What a batch of instruction texts resolves to: the bumps to make, in
/// order, leaving out the requests that need none; the first invalid text
/// fails the batch.
pub open spec fn resolve_batch(
    stable: &Workspace,
    prerelease: &Workspace,
    raw: Seq<Seq<char>>,
    ch: ReleaseChannel,
) -> Result<Seq<InstructionView>, Seq<char>>
    decreases raw.len(),
{
    if raw.len() == 0 {
        Ok(Seq::empty())
    } else {
        match resolve_batch(stable, prerelease, raw.drop_last(), ch) {
            Err(e) => Err(e),
            Ok(v) => match resolve(stable, prerelease, raw.last(), ch) {
                Err(e) => Err(e),
                Ok(None) => Ok(v),
                Ok(Some(i)) => Ok(v.push(i)),
            },
        }
    }
}

/// A resolved instruction names a package of its channel's workspace, and
/// a stable one leaves room for one more bump.
pub proof fn lemma_resolved_fits(
    stable: &Workspace,
    prerelease: &Workspace,
    s: Seq<char>,
    ch: ReleaseChannel,
)
    requires
        stable.bumpable(),
    ensures
        resolve(stable, prerelease, s, ch) matches Ok(Some(i)) ==> root_fits(stable, prerelease, i, ch),
{
    match first_space(s) {
        None => {},
        Some(k) => {
            let name = s.subrange(0, k);
            lemma_position_of(stable.packages@, name);
            lemma_position_of(prerelease.packages@, name);
            match stable.lookup(name) {
                Some(si) => {
                    assert(has_headroom(stable.packages@[si].version@));
                },
                None => {},
            }
        },
    }
}

impl BumpInstruction {
    /// Resolves each instruction text on `release_channel`, leaving out
    /// those that need no bump; the first invalid one fails the batch.
    pub fn resolve_all(
        stable_workspace: &Workspace,
        prerelease_workspace: &Workspace,
        raw_bump_instructions: &Vec<String>,
        release_channel: ReleaseChannel,
    ) -> (r: Result<Vec<BumpInstruction>, String>)
        requires
            stable_workspace.bumpable(),
        ensures
            match resolve_batch(
                stable_workspace,
                prerelease_workspace,
                texts(raw_bump_instructions@),
                release_channel,
            ) {
                Ok(v) => r matches Ok(is) && instructions_view(is@) == v && forall|k: int|
                    0 <= k < is@.len() ==> root_fits(
                        stable_workspace,
                        prerelease_workspace,
                        #[trigger] is@[k]@,
                        release_channel,
                    ),
                Err(e) => r matches Err(m) && m@ == e,
            },
    {
        let ghost raw = texts(raw_bump_instructions@);
        let mut out: Vec<BumpInstruction> = Vec::new();
        let mut k: usize = 0;
        assert(raw.take(0) =~= Seq::<Seq<char>>::empty());
        assert(instructions_view(out@) =~= Seq::<InstructionView>::empty());
        while k < raw_bump_instructions.len()
            invariant
                k <= raw_bump_instructions@.len(),
                stable_workspace.bumpable(),
                raw == texts(raw_bump_instructions@),
                resolve_batch(stable_workspace, prerelease_workspace, raw.take(k as int), release_channel)
                    == Ok::<Seq<InstructionView>, Seq<char>>(instructions_view(out@)),
                forall|j: int|
                    0 <= j < out@.len() ==> root_fits(
                        stable_workspace,
                        prerelease_workspace,
                        #[trigger] out@[j]@,
                        release_channel,
                    ),
            decreases raw_bump_instructions@.len() - k,
        {
            let text = raw_bump_instructions[k].as_str();
            let ghost prev = out@;
            assert(raw.take(k as int + 1).drop_last() =~= raw.take(k as int));
            assert(raw.take(k as int + 1).last() == text@);
            proof {
                lemma_resolved_fits(stable_workspace, prerelease_workspace, text@, release_channel);
                assert forall|j: int| 0 <= j < stable_workspace.packages@.len() implies can_bump(
                    #[trigger] stable_workspace.packages@[j].version@,
                ) by {
                    assert(has_headroom(stable_workspace.packages@[j].version@));
                }
            }
            match BumpInstruction::from_str(
                stable_workspace,
                prerelease_workspace,
                text,
                release_channel,
            ) {
                Err(e) => {
                    proof {
                        lemma_batch_fails(
                            stable_workspace,
                            prerelease_workspace,
                            raw,
                            k as int + 1,
                            release_channel,
                            e@,
                        );
                        assert(raw.take(raw.len() as int) =~= raw);
                    }
                    return Err(e);
                },
                Ok(None) => {},
                Ok(Some(i)) => {
                    let ghost iv = i@;
                    out.push(i);
                    assert(out@ == prev.push(out@.last()));
                    assert(instructions_view(out@) =~= instructions_view(prev).push(iv));
                },
            }
            k = k + 1;
        }
        assert(raw.take(k as int) =~= raw);
        Ok(out)
    }
}

/// A batch whose prefix fails, fails with the same error.
proof fn lemma_batch_fails(
    stable: &Workspace,
    prerelease: &Workspace,
    raw: Seq<Seq<char>>,
    j: int,
    ch: ReleaseChannel,
    e: Seq<char>,
)
    requires
        0 <= j <= raw.len(),
        resolve_batch(stable, prerelease, raw.take(j), ch) == Err::<Seq<InstructionView>, Seq<char>>(
            e,
        ),
    ensures
        resolve_batch(stable, prerelease, raw, ch) == Err::<Seq<InstructionView>, Seq<char>>(e),
    decreases raw.len(),
{
    if j < raw.len() {
        assert(raw.drop_last().take(j) =~= raw.take(j));
        lemma_batch_fails(stable, prerelease, raw.drop_last(), j, ch, e);
    } else {
        assert(raw.take(j) =~= raw);
    }
}


impl PartialEq for BumpInstruction {
    /// The same package moving between the same versions.
    fn eq(&self, other: &BumpInstruction) -> (r: bool)
        ensures
            r == (self@ == other@),
    {
        self.package == other.package && self.current_version == other.current_version
            && self.next_version == other.next_version
    }
}

impl vstd::std_specs::cmp::PartialEqSpecImpl for BumpInstruction {
    open spec fn obeys_eq_spec() -> bool {
        true
    }

    open spec fn eq_spec(&self, other: &BumpInstruction) -> bool {
        self@ == other@
    }
}

} // verus!
