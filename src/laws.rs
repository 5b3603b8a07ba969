//! Properties of the propagation that hold for every input.

use crate::instruction::{
    kind, reconcile, reconciled_version, resolve, InstructionView, ReleaseChannel,
};
use crate::version::{
    bumped, can_bump, has_headroom, numeric_cmp, tagged, version_gt, BumpType, EndUserInitiated,
    VersionView,
};
use std::cmp::Ordering;
use crate::node::NodeView;
use crate::tree::{
    build, build_children, build_roots, child_names, child_pair, depth_limit, dependents_of,
    highest, root_fits, root_pair, side, unique,
};
use crate::workspace::lemma_position_of;
use crate::workspace::Workspace;
use vstd::prelude::*;

verus! {

/// Node `k` bumps package `p` on channel `ch`.
pub open spec fn bumps(nodes: Seq<NodeView>, ch: ReleaseChannel, p: int, k: int) -> bool {
    &&& 0 <= k < nodes.len()
    &&& side(nodes[k], ch) matches Some(i) && i.package == p
}

/// The severity of the bump recorded for `p` on `ch`, if any.
pub open spec fn recorded_rank(nodes: Seq<NodeView>, ch: ReleaseChannel, p: int) -> Option<int> {
    match highest(nodes, ch, p) {
        Some(h) => match side(nodes[h], ch) {
            Some(e) => Some(kind(e).rank()),
            None => None,
        },
        None => None,
    }
}

/// The node recorded for a package on a channel bumps that package, and no
/// node bumps it more severely; where none is recorded, no node bumps it.
pub proof fn highest_is_most_severe(nodes: Seq<NodeView>, ch: ReleaseChannel, p: int)
    ensures
        match highest(nodes, ch, p) {
            Some(h) => bumps(nodes, ch, p, h) && forall|k: int| #[trigger]
                bumps(nodes, ch, p, k) ==> kind(side(nodes[k], ch)->0).rank() <= kind(
                    side(nodes[h], ch)->0,
                ).rank(),
            None => forall|k: int| !#[trigger] bumps(nodes, ch, p, k),
        },
    decreases nodes.len(),
{
    if nodes.len() > 0 {
        let prev = nodes.drop_last();
        highest_is_most_severe(prev, ch, p);
        assert forall|k: int| 0 <= k < prev.len() implies #[trigger] bumps(nodes, ch, p, k)
            == bumps(prev, ch, p, k) by {
            assert(prev[k] == nodes[k]);
        }
    }
}

/// Diamond dedup: two registration orders of nodes that bump a package with
/// the same magnitudes record bumps of the same severity for it, whichever
/// path reached the package first.
pub proof fn highest_ignores_order(a: Seq<NodeView>, b: Seq<NodeView>, ch: ReleaseChannel, p: int)
    requires
        forall|k: int|
            #[trigger] bumps(a, ch, p, k) ==> exists|l: int|
                #[trigger] bumps(b, ch, p, l) && kind(side(b[l], ch)->0) == kind(
                    side(a[k], ch)->0,
                ),
        forall|l: int|
            #[trigger] bumps(b, ch, p, l) ==> exists|k: int|
                #[trigger] bumps(a, ch, p, k) && kind(side(a[k], ch)->0) == kind(
                    side(b[l], ch)->0,
                ),
    ensures
        recorded_rank(a, ch, p) == recorded_rank(b, ch, p),
{
    highest_is_most_severe(a, ch, p);
    highest_is_most_severe(b, ch, p);
    match (highest(a, ch, p), highest(b, ch, p)) {
        (Some(ha), Some(hb)) => {
            let l = choose|l: int|
                #[trigger] bumps(b, ch, p, l) && kind(side(b[l], ch)->0) == kind(
                    side(a[ha], ch)->0,
                );
            let k = choose|k: int|
                #[trigger] bumps(a, ch, p, k) && kind(side(a[k], ch)->0) == kind(
                    side(b[hb], ch)->0,
                );
            assert(bumps(b, ch, p, l));
            assert(bumps(a, ch, p, k));
        },
        (Some(ha), None) => {
            assert(bumps(a, ch, p, ha));
        },
        (None, Some(hb)) => {
            assert(bumps(b, ch, p, hb));
        },
        (None, None) => {},
    }
}

/// Resolving the same instruction text twice against the same workspaces
/// gives equal results.
pub proof fn resolving_is_repeatable(
    stable: &Workspace,
    prerelease: &Workspace,
    s: Seq<char>,
    ch: ReleaseChannel,
    first: Result<Option<InstructionView>, Seq<char>>,
    second: Result<Option<InstructionView>, Seq<char>>,
)
    requires
        first == resolve(stable, prerelease, s, ch),
        second == resolve(stable, prerelease, s, ch),
    ensures
        first == second,
{
}


/// `a` is ahead of `b` in `major.minor.patch`.
pub open spec fn fields_ahead(a: VersionView, b: VersionView) -> bool {
    numeric_cmp(a, b) == Ordering::Greater
}

/// A bump moves the fields ahead.
proof fn lemma_bump_ahead(v: VersionView, m: BumpType, e: EndUserInitiated)
    requires
        can_bump(v),
    ensures
        fields_ahead(tagged(bumped(v, m, e)), v),
{
}

/// Whenever reconciliation moves a prerelease version, the new prerelease
/// version is ahead, in `major.minor.patch`, of the stable version it was
/// derived against: the new stable version where the stable side changed,
/// else the current one.
pub proof fn reconciled_is_ahead_of_stable(
    stable: &Workspace,
    prerelease: &Workspace,
    pi: Option<int>,
    si: Option<int>,
    st: Option<InstructionView>,
    parent: Option<InstructionView>,
)
    requires
        stable.bumpable(),
        si matches Some(s) ==> 0 <= s < stable.packages@.len(),
        st matches Some(i) ==> can_bump(i.next),
    ensures
        reconcile(stable, prerelease, pi, si, st, parent) matches Some(r) ==> fields_ahead(
            r.next,
            match st {
                Some(i) => i.next,
                None => stable.packages@[si->0].version@,
            },
        ),
{
    if let (Some(p), Some(s)) = (pi, si) {
        let cur = stable.packages@[s].version@;
        assert(has_headroom(cur));
        let base = match st {
            Some(i) => i.next,
            None => cur,
        };
        match st {
            Some(i) => {
                lemma_bump_ahead(i.next, BumpType::Patch, EndUserInitiated::No);
                lemma_bump_ahead(i.next, BumpType::Major, EndUserInitiated::No);
            },
            None => {},
        }
        lemma_bump_ahead(cur, BumpType::Patch, EndUserInitiated::No);
        lemma_bump_ahead(cur, BumpType::Major, EndUserInitiated::No);
        match reconciled_version(cur, st, parent) {
            Some(v) => {
                let c1 = match st {
                    Some(i) => Some(
                        tagged(
                            bumped(
                                i.next,
                                if kind(i) == BumpType::Patch {
                                    BumpType::Patch
                                } else {
                                    BumpType::Major
                                },
                                EndUserInitiated::No,
                            ),
                        ),
                    ),
                    None => None,
                };
                let c2 = match parent {
                    Some(i) => Some(
                        tagged(
                            bumped(
                                cur,
                                if kind(i) == BumpType::Major {
                                    BumpType::Major
                                } else {
                                    BumpType::Patch
                                },
                                EndUserInitiated::No,
                            ),
                        ),
                    ),
                    None => None,
                };
                if let (Some(a), Some(b)) = (c1, c2) {
                    if !version_gt(a, b) {
                        assert(fields_ahead(a, base));
                        if numeric_cmp(b, a) != Ordering::Equal {
                            assert(numeric_cmp(a, b) != Ordering::Equal);
                        }
                    }
                }
            },
            None => {},
        }
    }
}


/// Every dependency edge, on either channel, leads from a package to a
/// dependent of smaller height. A height like this exists exactly when the
/// dependency graph has no cycle: the length of the longest chain of
/// dependents that starts at a package is one.
pub open spec fn heights_fall(
    stable: &Workspace,
    prerelease: &Workspace,
    height: spec_fn(Seq<char>) -> nat,
) -> bool {
    &&& forall|i: int, j: int|
        0 <= i < stable.packages@.len() && 0 <= j < stable.packages@[i].dependents@.len()
            ==> height(#[trigger] stable.packages@[i].dependents@[j]@) < height(
            stable.packages@[i].name@,
        )
    &&& forall|i: int, j: int|
        0 <= i < prerelease.packages@.len() && 0 <= j < prerelease.packages@[i].dependents@.len()
            ==> height(#[trigger] prerelease.packages@[i].dependents@[j]@) < height(
            prerelease.packages@[i].name@,
        )
}

/// The bumps of a node both name packages called `name`.
pub open spec fn named(
    stable: &Workspace,
    prerelease: &Workspace,
    st: Option<InstructionView>,
    pr: Option<InstructionView>,
    name: Seq<char>,
) -> bool {
    &&& st matches Some(i) ==> 0 <= i.package < stable.packages@.len()
        && stable.packages@[i.package].name@ == name
    &&& pr matches Some(i) ==> 0 <= i.package < prerelease.packages@.len()
        && prerelease.packages@[i.package].name@ == name
}

/// What `unique` keeps was there to begin with.
proof fn lemma_unique_within(s: Seq<Seq<char>>, x: Seq<char>)
    requires
        unique(s).contains(x),
    ensures
        s.contains(x),
    decreases s.len(),
{
    if s.len() > 0 {
        let u = unique(s.drop_last());
        if x != s.last() {
            if !u.contains(s.last()) {
                let k = choose|k: int| 0 <= k < u.push(s.last()).len() && u.push(s.last())[k] == x;
                assert(u[k] == x);
            }
            lemma_unique_within(s.drop_last(), x);
            let k = choose|k: int| 0 <= k < s.drop_last().len() && s.drop_last()[k] == x;
            assert(s[k] == x);
        } else {
            assert(s[s.len() - 1] == x);
        }
    }
}

/// A node whose packages are lower than the fuel left builds.
proof fn lemma_build_some(
    stable: &Workspace,
    prerelease: &Workspace,
    st: Option<InstructionView>,
    pr: Option<InstructionView>,
    name: Seq<char>,
    height: spec_fn(Seq<char>) -> nat,
    fuel: nat,
    base: nat,
)
    requires
        heights_fall(stable, prerelease, height),
        named(stable, prerelease, st, pr, name),
        height(name) < fuel,
    ensures
        build(stable, prerelease, st, pr, fuel, base) is Some,
    decreases fuel, 0nat, 0nat,
{
    let a = dependents_of(stable, st);
    let b = dependents_of(prerelease, pr);
    let names = child_names(stable, prerelease, st, pr);
    assert forall|k: int| 0 <= k < names.len() implies height(#[trigger] names[k]) < fuel - 1 by {
        lemma_unique_within(a + b, names[k]);
        let m = choose|m: int| 0 <= m < (a + b).len() && (a + b)[m] == names[k];
        if m < a.len() {
            let i = st->0.package;
            assert(a[m] == stable.packages@[i].dependents@[m]@);
        } else {
            let i = pr->0.package;
            assert(b[m - a.len()] == prerelease.packages@[i].dependents@[m - a.len()]@);
        }
    }
    lemma_children_some(stable, prerelease, st, pr, names, height, (fuel - 1) as nat, base);
}

/// Dependents that are all lower than the fuel left build.
proof fn lemma_children_some(
    stable: &Workspace,
    prerelease: &Workspace,
    st: Option<InstructionView>,
    pr: Option<InstructionView>,
    names: Seq<Seq<char>>,
    height: spec_fn(Seq<char>) -> nat,
    fuel: nat,
    base: nat,
)
    requires
        heights_fall(stable, prerelease, height),
        forall|k: int| 0 <= k < names.len() ==> height(#[trigger] names[k]) < fuel,
    ensures
        build_children(stable, prerelease, st, pr, names, fuel, base) is Some,
    decreases fuel, 1nat, names.len(),
{
    if names.len() > 0 {
        let rest = names.drop_last();
        assert forall|k: int| 0 <= k < rest.len() implies height(#[trigger] rest[k]) < fuel by {
            assert(rest[k] == names[k]);
        }
        lemma_children_some(stable, prerelease, st, pr, rest, height, fuel, base);
        let r = build_children(stable, prerelease, st, pr, rest, fuel, base)->0;
        let name = names.last();
        assert(height(names[names.len() - 1]) < fuel);
        lemma_position_of(stable.packages@, name);
        lemma_position_of(prerelease.packages@, name);
        reveal(child_pair);
        let c = child_pair(
            stable,
            prerelease,
            st,
            pr,
            stable.lookup(name),
            prerelease.lookup(name),
        );
        if !(c.0 is None && c.1 is None) {
            lemma_build_some(stable, prerelease, c.0, c.1, name, height, fuel, base + r.0.len());
        }
    }
}

/// Roots whose packages are all lower than the fuel build.
proof fn lemma_roots_some(
    stable: &Workspace,
    prerelease: &Workspace,
    roots: Seq<InstructionView>,
    ch: ReleaseChannel,
    height: spec_fn(Seq<char>) -> nat,
    fuel: nat,
)
    requires
        heights_fall(stable, prerelease, height),
        forall|i: int| 0 <= i < stable.packages@.len() ==> height(#[trigger] stable.packages@[i].name@) < fuel,
        forall|i: int|
            0 <= i < prerelease.packages@.len() ==> height(#[trigger] prerelease.packages@[i].name@)
                < fuel,
        forall|k: int| 0 <= k < roots.len() ==> root_fits(stable, prerelease, #[trigger] roots[k], ch),
    ensures
        build_roots(stable, prerelease, roots, ch, fuel) is Some,
    decreases roots.len(),
{
    if roots.len() > 0 {
        let rest = roots.drop_last();
        assert forall|k: int| 0 <= k < rest.len() implies root_fits(
            stable,
            prerelease,
            #[trigger] rest[k],
            ch,
        ) by {
            assert(rest[k] == roots[k]);
        }
        lemma_roots_some(stable, prerelease, rest, ch, height, fuel);
        let r = build_roots(stable, prerelease, rest, ch, fuel)->0;
        let i = roots.last();
        assert(root_fits(stable, prerelease, roots[roots.len() - 1], ch));
        let p = root_pair(stable, prerelease, i, ch);
        match ch {
            ReleaseChannel::Stable => {
                let name = stable.packages@[i.package].name@;
                lemma_position_of(prerelease.packages@, name);
                lemma_build_some(stable, prerelease, p.0, p.1, name, height, fuel, r.0.len());
            },
            ReleaseChannel::Prerelease => {
                let name = prerelease.packages@[i.package].name@;
                lemma_build_some(stable, prerelease, p.0, p.1, name, height, fuel, r.0.len());
            },
        }
    }
}

/// Propagation fails only on a dependency cycle: where every dependency
/// edge leads to a dependent of smaller height, and no height reaches the
/// depth limit, the tree of any fitting root instructions builds.
pub proof fn acyclic_propagation_succeeds(
    stable: &Workspace,
    prerelease: &Workspace,
    roots: Seq<InstructionView>,
    ch: ReleaseChannel,
    height: spec_fn(Seq<char>) -> nat,
)
    requires
        heights_fall(stable, prerelease, height),
        forall|i: int|
            0 <= i < stable.packages@.len() ==> height(#[trigger] stable.packages@[i].name@)
                < depth_limit(stable, prerelease),
        forall|i: int|
            0 <= i < prerelease.packages@.len() ==> height(#[trigger] prerelease.packages@[i].name@)
                < depth_limit(stable, prerelease),
        forall|k: int| 0 <= k < roots.len() ==> root_fits(stable, prerelease, #[trigger] roots[k], ch),
    ensures
        build_roots(stable, prerelease, roots, ch, depth_limit(stable, prerelease)) is Some,
{
    lemma_roots_some(stable, prerelease, roots, ch, height, depth_limit(stable, prerelease));
}

} // verus!
