//! The bump tree: propagation of root bumps along workspace dependents, with
//! per-package tracking of the most severe bump on each channel.

use crate::instruction::{
    compute_prerelease_bump_instruction, kind, opt_view, reconcile, ref_view, BumpInstruction,
    InstructionView, ReleaseChannel,
};
use crate::node::{node_fits, BumpNode, NodeView};
use crate::package::{contains_name, copy_names, texts};
use crate::version::{bumped, can_bump, has_headroom, BumpType, EndUserInitiated};
use crate::workspace::Workspace;
use vstd::prelude::*;

verus! {

/// Why a tree could not be built.
#[derive(Debug, Clone, Copy, PartialEq, Eq, Structural)]
pub enum BumpTreeError {
    /// Propagation went deeper than the workspaces have packages, which only
    /// a dependency cycle can cause.
    DependencyCycle,
}

pub open spec fn nodes_view(nodes: Seq<BumpNode>) -> Seq<NodeView> {
    nodes.map_values(|n: BumpNode| n@)
}

pub open spec fn opt_int(o: Option<usize>) -> Option<int> {
    match o {
        Some(i) => Some(i as int),
        None => None,
    }
}

/// A node's bump on channel `ch`.
pub open spec fn side(n: NodeView, ch: ReleaseChannel) -> Option<InstructionView> {
    match ch {
        ReleaseChannel::Stable => n.stable,
        ReleaseChannel::Prerelease => n.prerelease,
    }
}

/// The node that holds the most severe bump of package `p` on channel `ch`,
/// nodes being registered in order; of equally severe bumps the first one
/// registered stays.
pub open spec fn highest(nodes: Seq<NodeView>, ch: ReleaseChannel, p: int) -> Option<int>
    decreases nodes.len(),
{
    if nodes.len() == 0 {
        None
    } else {
        let prev = highest(nodes.drop_last(), ch, p);
        match side(nodes.last(), ch) {
            Some(i) => if i.package == p && match prev {
                None => true,
                Some(h) => match side(nodes[h], ch) {
                    Some(e) => kind(e).rank() < kind(i).rank(),
                    None => true,
                },
            } {
                Some(nodes.len() - 1)
            } else {
                prev
            },
            None => prev,
        }
    }
}

/// Names of the direct dependents of the package an instruction bumps.
pub open spec fn dependents_of(ws: &Workspace, i: Option<InstructionView>) -> Seq<Seq<char>> {
    match i {
        Some(i) => texts(ws.packages@[i.package].dependents@),
        None => Seq::empty(),
    }
}

/// `s` with later repeats of a name left out.
pub open spec fn unique(s: Seq<Seq<char>>) -> Seq<Seq<char>>
    decreases s.len(),
{
    if s.len() == 0 {
        Seq::empty()
    } else {
        let u = unique(s.drop_last());
        if u.contains(s.last()) {
            u
        } else {
            u.push(s.last())
        }
    }
}

/// The packages a node propagates to: the dependents on either channel, the
/// stable ones first.
pub open spec fn child_names(
    stable: &Workspace,
    prerelease: &Workspace,
    st: Option<InstructionView>,
    pr: Option<InstructionView>,
) -> Seq<Seq<char>> {
    unique(dependents_of(stable, st) + dependents_of(prerelease, pr))
}

/// A dependent's stable bump: breaking where the parent's is, else a patch.
pub open spec fn child_stable(
    stable: &Workspace,
    parent: Option<InstructionView>,
    si: Option<int>,
) -> Option<InstructionView> {
    match (si, parent) {
        (Some(si), Some(p)) => {
            let cur = stable.packages@[si].version@;
            Some(
                InstructionView {
                    package: si,
                    current: cur,
                    next: bumped(
                        cur,
                        if kind(p) == BumpType::Major {
                            BumpType::Major
                        } else {
                            BumpType::Patch
                        },
                        EndUserInitiated::No,
                    ),
                },
            )
        },
        _ => None,
    }
}

/// The bumps a dependent at `si` (stable) and `pi` (prerelease) gets from a
/// parent with bumps `st` and `pr`.
#[verifier::opaque]
pub open spec fn child_pair(
    stable: &Workspace,
    prerelease: &Workspace,
    st: Option<InstructionView>,
    pr: Option<InstructionView>,
    si: Option<int>,
    pi: Option<int>,
) -> (Option<InstructionView>, Option<InstructionView>) {
    let cs = child_stable(stable, st, si);
    (cs, reconcile(stable, prerelease, pi, si, cs, pr))
}

/// The nodes, in registration order, of the subtree rooted at a node with
/// bumps `st` and `pr`, whose first node lands at arena position `base`;
/// `None` where propagation runs deeper than `fuel`.
pub open spec fn build(
    stable: &Workspace,
    prerelease: &Workspace,
    st: Option<InstructionView>,
    pr: Option<InstructionView>,
    fuel: nat,
    base: nat,
) -> Option<Seq<NodeView>>
    decreases fuel, 0nat, 0nat,
{
    if fuel == 0 {
        None
    } else {
        match build_children(
            stable,
            prerelease,
            st,
            pr,
            child_names(stable, prerelease, st, pr),
            (fuel - 1) as nat,
            base,
        ) {
            Some(r) => Some(r.0.push(NodeView { stable: st, prerelease: pr, children: r.1 })),
            None => None,
        }
    }
}

/// The subtrees of the dependents `names` of a node with bumps `st` and
/// `pr`, with the arena positions of their roots. A dependent that gets no
/// bump on either channel gets no node.
pub open spec fn build_children(
    stable: &Workspace,
    prerelease: &Workspace,
    st: Option<InstructionView>,
    pr: Option<InstructionView>,
    names: Seq<Seq<char>>,
    fuel: nat,
    base: nat,
) -> Option<(Seq<NodeView>, Seq<usize>)>
    decreases fuel, 1nat, names.len(),
{
    if names.len() == 0 {
        Some((Seq::empty(), Seq::empty()))
    } else {
        match build_children(stable, prerelease, st, pr, names.drop_last(), fuel, base) {
            None => None,
            Some(r) => {
                let name = names.last();
                let c = child_pair(
                    stable,
                    prerelease,
                    st,
                    pr,
                    stable.lookup(name),
                    prerelease.lookup(name),
                );
                if c.0 is None && c.1 is None {
                    Some(r)
                } else {
                    match build(stable, prerelease, c.0, c.1, fuel, base + r.0.len()) {
                        None => None,
                        Some(sub) => Some(
                            (r.0 + sub, r.1.push((base + r.0.len() + sub.len() - 1) as usize)),
                        ),
                    }
                }
            },
        }
    }
}

/// The bumps of a root node made from instruction `i` on channel `ch`.
pub open spec fn root_pair(
    stable: &Workspace,
    prerelease: &Workspace,
    i: InstructionView,
    ch: ReleaseChannel,
) -> (Option<InstructionView>, Option<InstructionView>) {
    match ch {
        ReleaseChannel::Prerelease => (None, Some(i)),
        ReleaseChannel::Stable => (
            Some(i),
            reconcile(
                stable,
                prerelease,
                prerelease.lookup(stable.packages@[i.package].name@),
                Some(i.package),
                Some(i),
                None,
            ),
        ),
    }
}

/// The whole arena built from the root instructions, with the positions of
/// the root nodes.
pub open spec fn build_roots(
    stable: &Workspace,
    prerelease: &Workspace,
    roots: Seq<InstructionView>,
    ch: ReleaseChannel,
    fuel: nat,
) -> Option<(Seq<NodeView>, Seq<usize>)>
    decreases roots.len(),
{
    if roots.len() == 0 {
        Some((Seq::empty(), Seq::empty()))
    } else {
        match build_roots(stable, prerelease, roots.drop_last(), ch, fuel) {
            None => None,
            Some(r) => {
                let p = root_pair(stable, prerelease, roots.last(), ch);
                match build(stable, prerelease, p.0, p.1, fuel, r.0.len()) {
                    None => None,
                    Some(sub) => Some((r.0 + sub, r.1.push((r.0.len() + sub.len() - 1) as usize))),
                }
            },
        }
    }
}

/// How deep propagation may go: one more than the packages of both
/// workspaces, which no acyclic dependency chain reaches.
pub open spec fn depth_limit(stable: &Workspace, prerelease: &Workspace) -> nat {
    let n = stable.packages@.len() + prerelease.packages@.len() + 1;
    if n <= usize::MAX {
        n as nat
    } else {
        usize::MAX as nat
    }
}

/// A root instruction fits its channel's workspace.
pub open spec fn root_fits(
    stable: &Workspace,
    prerelease: &Workspace,
    i: InstructionView,
    ch: ReleaseChannel,
) -> bool {
    match ch {
        ReleaseChannel::Stable => 0 <= i.package < stable.packages@.len() && can_bump(i.next),
        ReleaseChannel::Prerelease => 0 <= i.package < prerelease.packages@.len(),
    }
}

/// The result of propagating bumps: an arena of nodes, the root nodes, and
/// for each package of each channel the node with its most severe bump.
#[derive(Debug, Clone)]
pub struct BumpTree {
    pub nodes: Vec<BumpNode>,
    pub root_nodes: Vec<usize>,
    /// For each package of the stable workspace, by position, the node with
    /// its most severe stable bump.
    pub highest_stable: Vec<Option<usize>>,
    /// For each package of the prerelease workspace, by position, the node
    /// with its most severe prerelease bump.
    pub highest_prerelease: Vec<Option<usize>>,
}

impl BumpTree {
    /// The highest-bump maps agree with the arena, and every node fits the
    /// workspaces and points only at earlier nodes.
    pub open spec fn consistent(&self, stable: &Workspace, prerelease: &Workspace) -> bool {
        &&& self.highest_stable@.len() == stable.packages@.len()
        &&& self.highest_prerelease@.len() == prerelease.packages@.len()
        &&& forall|p: int|
            0 <= p < stable.packages@.len() ==> opt_int(#[trigger] self.highest_stable@[p])
                == highest(nodes_view(self.nodes@), ReleaseChannel::Stable, p)
        &&& forall|p: int|
            0 <= p < prerelease.packages@.len() ==> opt_int(#[trigger] self.highest_prerelease@[p])
                == highest(nodes_view(self.nodes@), ReleaseChannel::Prerelease, p)
        &&& forall|k: int|
            0 <= k < self.nodes@.len() ==> {
                let n = #[trigger] self.nodes@[k]@;
                &&& node_fits(n, stable, prerelease)
                &&& forall|j: int| 0 <= j < n.children.len() ==> n.children[j] < k
            }
    }
}


/// What `highest` finds is a node with a bump of `p` on `ch`.
pub proof fn lemma_highest_found(nodes: Seq<NodeView>, ch: ReleaseChannel, p: int)
    ensures
        highest(nodes, ch, p) matches Some(h) ==> {
            &&& 0 <= h < nodes.len()
            &&& side(nodes[h], ch) matches Some(e) && e.package == p
        },
    decreases nodes.len(),
{
    if nodes.len() > 0 {
        lemma_highest_found(nodes.drop_last(), ch, p);
    }
}

/// A failed prefix fails the whole list of dependents.
proof fn lemma_children_fail(
    stable: &Workspace,
    prerelease: &Workspace,
    st: Option<InstructionView>,
    pr: Option<InstructionView>,
    names: Seq<Seq<char>>,
    j: int,
    fuel: nat,
    base: nat,
)
    requires
        0 <= j <= names.len(),
        build_children(stable, prerelease, st, pr, names.take(j), fuel, base) is None,
    ensures
        build_children(stable, prerelease, st, pr, names, fuel, base) is None,
    decreases names.len(),
{
    if j < names.len() {
        assert(names.drop_last().take(j) =~= names.take(j));
        lemma_children_fail(stable, prerelease, st, pr, names.drop_last(), j, fuel, base);
    } else {
        assert(names.take(j) =~= names);
    }
}

/// A failed prefix fails the whole list of roots.
proof fn lemma_roots_fail(
    stable: &Workspace,
    prerelease: &Workspace,
    roots: Seq<InstructionView>,
    j: int,
    ch: ReleaseChannel,
    fuel: nat,
)
    requires
        0 <= j <= roots.len(),
        build_roots(stable, prerelease, roots.take(j), ch, fuel) is None,
    ensures
        build_roots(stable, prerelease, roots, ch, fuel) is None,
    decreases roots.len(),
{
    if j < roots.len() {
        assert(roots.drop_last().take(j) =~= roots.take(j));
        lemma_roots_fail(stable, prerelease, roots.drop_last(), j, ch, fuel);
    } else {
        assert(roots.take(j) =~= roots);
    }
}

/// `build`, unfolded once.
proof fn lemma_build_unfold(
    stable: &Workspace,
    prerelease: &Workspace,
    st: Option<InstructionView>,
    pr: Option<InstructionView>,
    fuel: nat,
    base: nat,
)
    ensures
        build(stable, prerelease, st, pr, fuel, base) == if fuel == 0 {
            None
        } else {
            match build_children(
                stable,
                prerelease,
                st,
                pr,
                child_names(stable, prerelease, st, pr),
                (fuel - 1) as nat,
                base,
            ) {
                Some(r) => Some(r.0.push(NodeView { stable: st, prerelease: pr, children: r.1 })),
                None => None,
            }
        },
{
}

/// No dependents, no subtrees.
proof fn lemma_children_empty(
    stable: &Workspace,
    prerelease: &Workspace,
    st: Option<InstructionView>,
    pr: Option<InstructionView>,
    names: Seq<Seq<char>>,
    fuel: nat,
    base: nat,
)
    requires
        names.len() == 0,
    ensures
        build_children(stable, prerelease, st, pr, names, fuel, base) == Some(
            (Seq::<NodeView>::empty(), Seq::<usize>::empty()),
        ),
{
}

/// One more dependent: `build_children` of a longer prefix, unfolded once.
proof fn lemma_children_step(
    stable: &Workspace,
    prerelease: &Workspace,
    st: Option<InstructionView>,
    pr: Option<InstructionView>,
    names: Seq<Seq<char>>,
    k: int,
    fuel: nat,
    base: nat,
)
    requires
        0 <= k < names.len(),
    ensures
        build_children(stable, prerelease, st, pr, names.take(k + 1), fuel, base) == match build_children(
            stable,
            prerelease,
            st,
            pr,
            names.take(k),
            fuel,
            base,
        ) {
            None => None,
            Some(r) => {
                let c = child_pair(
                    stable,
                    prerelease,
                    st,
                    pr,
                    stable.lookup(names[k]),
                    prerelease.lookup(names[k]),
                );
                if c.0 is None && c.1 is None {
                    Some(r)
                } else {
                    match build(stable, prerelease, c.0, c.1, fuel, base + r.0.len()) {
                        None => None,
                        Some(sub) => Some(
                            (r.0 + sub, r.1.push((base + r.0.len() + sub.len() - 1) as usize)),
                        ),
                    }
                }
            },
        },
{
    assert(names.take(k + 1).drop_last() =~= names.take(k));
    assert(names.take(k + 1).last() == names[k]);
}

/// `v` with later repeats of a name left out.
fn unique_names(v: &Vec<String>) -> (r: Vec<String>)
    ensures
        texts(r@) == unique(texts(v@)),
{
    let mut out: Vec<String> = Vec::new();
    let mut k: usize = 0;
    while k < v.len()
        invariant
            k <= v.len(),
            texts(out@) == unique(texts(v@).take(k as int)),
        decreases v.len() - k,
    {
        assert(texts(v@).take(k as int + 1).drop_last() =~= texts(v@).take(k as int));
        assert(texts(v@).take(k as int + 1).last() == v@[k as int]@);
        if !contains_name(&out, &v[k]) {
            let name = v[k].clone();
            out.push(name);
            assert(texts(out@) =~= texts(out@.drop_last()).push(name@));
        }
        k = k + 1;
    }
    assert(texts(v@).take(k as int) =~= texts(v@));
    out
}

/// The names of the packages a node with bumps `st` and `pr` propagates to.
fn child_dependents(
    stable: &Workspace,
    prerelease: &Workspace,
    st: &Option<BumpInstruction>,
    pr: &Option<BumpInstruction>,
) -> (r: Vec<String>)
    requires
        match st {
            Some(i) => i.package < stable.packages@.len(),
            None => true,
        },
        match pr {
            Some(i) => i.package < prerelease.packages@.len(),
            None => true,
        },
    ensures
        texts(r@) == child_names(stable, prerelease, opt_view(*st), opt_view(*pr)),
{
    let mut all = match st {
        Some(i) => copy_names(&stable.packages[i.package].dependents),
        None => Vec::new(),
    };
    let mut more = match pr {
        Some(i) => copy_names(&prerelease.packages[i.package].dependents),
        None => Vec::new(),
    };
    let ghost a = all@;
    let ghost b = more@;
    all.append(&mut more);
    assert(texts(all@) =~= texts(a) + texts(b));
    unique_names(&all)
}

impl BumpTree {
    /// Builds the node for bumps `stable_bump_instruction` and
    /// `prerelease_bump_instruction`: first the subtrees of its dependents,
    /// then the node itself, registered as the highest bump of its packages
    /// where it is more severe than the one recorded.
    #[verifier::rlimit(100)]
    #[verifier::spinoff_prover]
    pub fn new_node(
        &mut self,
        stable: &Workspace,
        prerelease: &Workspace,
        stable_bump_instruction: Option<BumpInstruction>,
        prerelease_bump_instruction: Option<BumpInstruction>,
        fuel: usize,
    ) -> (r: Result<usize, BumpTreeError>)
        requires
            old(self).consistent(stable, prerelease),
            stable.bumpable(),
            stable_bump_instruction is Some || prerelease_bump_instruction is Some,
            match stable_bump_instruction {
                Some(i) => i.package < stable.packages@.len(),
                None => true,
            },
            match prerelease_bump_instruction {
                Some(i) => i.package < prerelease.packages@.len(),
                None => true,
            },
        ensures
            match build(
                stable,
                prerelease,
                opt_view(stable_bump_instruction),
                opt_view(prerelease_bump_instruction),
                fuel as nat,
                old(self).nodes@.len(),
            ) {
                Some(sub) => {
                    &&& sub.len() > 0
                    &&& r == Ok::<usize, BumpTreeError>(
                        (old(self).nodes@.len() + sub.len() - 1) as usize,
                    )
                    &&& nodes_view(final(self).nodes@) == nodes_view(old(self).nodes@) + sub
                    &&& final(self).consistent(stable, prerelease)
                    &&& final(self).root_nodes == old(self).root_nodes
                },
                None => r is Err,
            },
        decreases fuel, 1nat,
    {
        let ghost st = opt_view(stable_bump_instruction);
        let ghost pr = opt_view(prerelease_bump_instruction);
        let ghost base = self.nodes@.len();
        proof {
            lemma_build_unfold(stable, prerelease, st, pr, fuel as nat, base as nat);
        }
        if fuel == 0 {
            return Err(BumpTreeError::DependencyCycle);
        }
        let ghost before = nodes_view(self.nodes@);
        let names = child_dependents(
            stable,
            prerelease,
            &stable_bump_instruction,
            &prerelease_bump_instruction,
        );
        let mut children: Vec<usize> = Vec::new();
        let mut k: usize = 0;
        proof {
            lemma_children_empty(
                stable,
                prerelease,
                st,
                pr,
                texts(names@).take(0),
                (fuel - 1) as nat,
                base as nat,
            );
        }
        assert(nodes_view(self.nodes@).skip(base as int) =~= Seq::<NodeView>::empty());
        assert(nodes_view(self.nodes@).take(base as int) =~= before);
        while k < names.len()
            invariant
                k <= names.len(),
                0 < fuel,
                stable.bumpable(),
                self.consistent(stable, prerelease),
                self.root_nodes == old(self).root_nodes,
                st == opt_view(stable_bump_instruction),
                pr == opt_view(prerelease_bump_instruction),
                match stable_bump_instruction {
                    Some(i) => i.package < stable.packages@.len(),
                    None => true,
                },
                base <= self.nodes@.len(),
                base == old(self).nodes@.len(),
                texts(names@) == child_names(stable, prerelease, st, pr),
                nodes_view(self.nodes@).take(base as int) == before,
                build_children(
                    stable,
                    prerelease,
                    st,
                    pr,
                    texts(names@).take(k as int),
                    (fuel - 1) as nat,
                    base as nat,
                ) == Some((nodes_view(self.nodes@).skip(base as int), children@)),
                forall|j: int| 0 <= j < children@.len() ==> children@[j] < self.nodes@.len(),
            decreases names.len() - k,
        {
            let ghost prev_nodes = nodes_view(self.nodes@);
            let ghost prev_children = children@;
            let ghost acc = prev_nodes.skip(base as int);
            let name = names[k].as_str();
            let si = stable.find(name);
            let pi = prerelease.find(name);
            let sp = stable_bump_instruction.as_ref();
            let pp = prerelease_bump_instruction.as_ref();
            assert(ref_view(sp) == st);
            assert(ref_view(pp) == pr);
            proof {
                lemma_children_step(
                    stable,
                    prerelease,
                    st,
                    pr,
                    texts(names@),
                    k as int,
                    (fuel - 1) as nat,
                    base as nat,
                );
                assert(texts(names@)[k as int] == name@);
                assert(base + acc.len() == prev_nodes.len());
            }
            let child = self.derive_child_node(stable, prerelease, sp, pp, si, pi, fuel - 1);
            match child {
                Err(e) => {
                    proof {
                        lemma_children_fail(
                            stable,
                            prerelease,
                            st,
                            pr,
                            texts(names@),
                            k as int + 1,
                            (fuel - 1) as nat,
                            base as nat,
                        );
                        assert(texts(names@).take(names@.len() as int) =~= texts(names@));
                        lemma_build_unfold(stable, prerelease, st, pr, fuel as nat, base as nat);
                    }
                    return Err(e);
                },
                Ok(Some(c)) => {
                    children.push(c);
                    proof {
                        let now = nodes_view(self.nodes@);
                        assert(now.skip(base as int) =~= acc + now.skip(prev_nodes.len() as int));
                        assert(now.take(base as int) =~= before) by {
                            assert(now.take(prev_nodes.len() as int) =~= prev_nodes);
                            assert(prev_nodes.take(base as int) == before);
                        }
                        assert(children@ =~= prev_children.push(c));
                    }
                },
                Ok(None) => {},
            }
            k = k + 1;
        }
        assert(texts(names@).take(k as int) =~= texts(names@));
        let stable_info = match &stable_bump_instruction {
            Some(i) => Some((i.package, i.bump_type().severity())),
            None => None,
        };
        let prerelease_info = match &prerelease_bump_instruction {
            Some(i) => Some((i.package, i.bump_type().severity())),
            None => None,
        };
        let ghost old_view = nodes_view(self.nodes@);
        let ghost old_stable = self.highest_stable@;
        let ghost old_prerelease = self.highest_prerelease@;
        let node = BumpNode {
            stable: stable_bump_instruction,
            prerelease: prerelease_bump_instruction,
            children,
        };
        self.nodes.push(node);
        let idx = self.nodes.len() - 1;
        let ghost new_view = nodes_view(self.nodes@);
        assert(new_view =~= old_view.push(node@));
        assert(new_view.drop_last() =~= old_view);
        if let Some((p, sev)) = stable_info {
            let replace = match self.highest_stable[p] {
                None => true,
                Some(h) => {
                    proof {
                        lemma_highest_found(old_view, ReleaseChannel::Stable, p as int);
                    }
                    match &self.nodes[h].stable {
                        Some(e) => e.bump_type().severity() < sev,
                        None => true,
                    }
                },
            };
            if replace {
                self.highest_stable.set(p, Some(idx));
            }
        }
        if let Some((p, sev)) = prerelease_info {
            let replace = match self.highest_prerelease[p] {
                None => true,
                Some(h) => {
                    proof {
                        lemma_highest_found(old_view, ReleaseChannel::Prerelease, p as int);
                    }
                    match &self.nodes[h].prerelease {
                        Some(e) => e.bump_type().severity() < sev,
                        None => true,
                    }
                },
            };
            if replace {
                self.highest_prerelease.set(p, Some(idx));
            }
        }
        assert forall|q: int| 0 <= q < stable.packages@.len() implies opt_int(
            #[trigger] self.highest_stable@[q],
        ) == highest(new_view, ReleaseChannel::Stable, q) by {
            assert(opt_int(old_stable[q]) == highest(old_view, ReleaseChannel::Stable, q));
        }
        assert forall|q: int| 0 <= q < prerelease.packages@.len() implies opt_int(
            #[trigger] self.highest_prerelease@[q],
        ) == highest(new_view, ReleaseChannel::Prerelease, q) by {
            assert(opt_int(old_prerelease[q]) == highest(old_view, ReleaseChannel::Prerelease, q));
        }
        assert(new_view =~= before + (old_view.skip(base as int).push(node@))) by {
            assert(old_view =~= before + old_view.skip(base as int));
        }
        Ok(idx)
    }

    /// Builds the node of a dependent, at `stable_child_package` in the
    /// stable workspace and `prerelease_child_package` in the prerelease one,
    /// of a node with the given bumps. A dependent that gets no bump on either
    /// channel gets no node.
    pub fn derive_child_node(
        &mut self,
        stable: &Workspace,
        prerelease: &Workspace,
        stable_parent_bump_instruction: Option<&BumpInstruction>,
        prerelease_parent_bump_instruction: Option<&BumpInstruction>,
        stable_child_package: Option<usize>,
        prerelease_child_package: Option<usize>,
        fuel: usize,
    ) -> (r: Result<Option<usize>, BumpTreeError>)
        requires
            old(self).consistent(stable, prerelease),
            stable.bumpable(),
            match stable_child_package {
                Some(p) => p < stable.packages@.len(),
                None => true,
            },
            match prerelease_child_package {
                Some(p) => p < prerelease.packages@.len(),
                None => true,
            },
        ensures
            ({
                let c = child_pair(
                    stable,
                    prerelease,
                    ref_view(stable_parent_bump_instruction),
                    ref_view(prerelease_parent_bump_instruction),
                    opt_int(stable_child_package),
                    opt_int(prerelease_child_package),
                );
                if c.0 is None && c.1 is None {
                    r == Ok::<Option<usize>, BumpTreeError>(None) && *final(self) == *old(self)
                } else {
                    match build(stable, prerelease, c.0, c.1, fuel as nat, old(self).nodes@.len()) {
                        Some(sub) => {
                            &&& sub.len() > 0
                            &&& r == Ok::<Option<usize>, BumpTreeError>(
                                Some((old(self).nodes@.len() + sub.len() - 1) as usize),
                            )
                            &&& nodes_view(final(self).nodes@) == nodes_view(old(self).nodes@) + sub
                            &&& final(self).consistent(stable, prerelease)
                            &&& final(self).root_nodes == old(self).root_nodes
                        },
                        None => r is Err,
                    }
                }
            }),
        decreases fuel, 2nat,
    {
        // The child's stable bump follows from the parent's alone.
        let stable_bump_instruction = match (stable_child_package, stable_parent_bump_instruction) {
            (Some(si), Some(parent)) => {
                let cur = &stable.packages[si].version;
                assert(has_headroom(stable.packages@[si as int].version@));
                let m = match parent.bump_type() {
                    // Parent breaking change.
                    BumpType::Major => BumpType::Major,
                    // Parent compatible change.
                    _ => BumpType::Patch,
                };
                Some(
                    BumpInstruction {
                        package: si,
                        current_version: cur.copy(),
                        next_version: cur.bump(m, EndUserInitiated::No),
                    },
                )
            },
            _ => None,
        };
        proof {
            reveal(child_pair);
        }
        let prerelease_bump_instruction = compute_prerelease_bump_instruction(
            stable,
            prerelease,
            prerelease_child_package,
            stable_child_package,
            stable_bump_instruction.as_ref(),
            prerelease_parent_bump_instruction,
        );
        if stable_bump_instruction.is_none() && prerelease_bump_instruction.is_none() {
            return Ok(None);
        }
        match self.new_node(
            stable,
            prerelease,
            stable_bump_instruction,
            prerelease_bump_instruction,
            fuel,
        ) {
            Ok(i) => Ok(Some(i)),
            Err(e) => Err(e),
        }
    }
}


/// The mathematical value of a list of instructions.
pub open spec fn instructions_view(v: Seq<BumpInstruction>) -> Seq<InstructionView> {
    v.map_values(|i: BumpInstruction| i@)
}

/// The instruction of a node's bump on channel `ch`, for the package at `p`
/// of that channel's workspace, where the tree records one.
pub open spec fn recorded(nodes: Seq<NodeView>, ch: ReleaseChannel, p: Option<int>) -> Option<
    InstructionView,
> {
    match p {
        Some(p) => match highest(nodes, ch, p) {
            Some(h) => side(nodes[h], ch),
            None => None,
        },
        None => None,
    }
}

/// The children of `n` that hold the recorded highest bump of their package
/// on some channel, in order.
pub open spec fn significant(
    children: Seq<usize>,
    nodes: Seq<NodeView>,
    highest_stable: Seq<Option<usize>>,
    highest_prerelease: Seq<Option<usize>>,
) -> Seq<usize>
    decreases children.len(),
{
    if children.len() == 0 {
        Seq::empty()
    } else {
        let prev = significant(children.drop_last(), nodes, highest_stable, highest_prerelease);
        let c = children.last();
        let n = nodes[c as int];
        if (n.stable matches Some(i) && highest_stable[i.package] == Some(c)) || (
        n.prerelease matches Some(i) && highest_prerelease[i.package] == Some(c)) {
            prev.push(c)
        } else {
            prev
        }
    }
}

impl BumpTree {
    /// Propagates the root instructions on `release_channel` through both
    /// workspaces. Fails where propagation runs deeper than the two
    /// workspaces have packages, that is on a dependency cycle.
    #[verifier::rlimit(40)]
    pub fn new(
        stable_workspace: &Workspace,
        prerelease_workspace: &Workspace,
        root_instructions: Vec<BumpInstruction>,
        release_channel: ReleaseChannel,
    ) -> (r: Result<BumpTree, BumpTreeError>)
        requires
            stable_workspace.bumpable(),
            forall|k: int|
                0 <= k < root_instructions@.len() ==> root_fits(
                    stable_workspace,
                    prerelease_workspace,
                    #[trigger] root_instructions@[k]@,
                    release_channel,
                ),
        ensures
            match build_roots(
                stable_workspace,
                prerelease_workspace,
                instructions_view(root_instructions@),
                release_channel,
                depth_limit(stable_workspace, prerelease_workspace),
            ) {
                Some(b) => r matches Ok(t) && {
                    &&& nodes_view(t.nodes@) == b.0
                    &&& t.root_nodes@ == b.1
                    &&& t.consistent(stable_workspace, prerelease_workspace)
                },
                None => r is Err,
            },
    {
        let stable = stable_workspace;
        let prerelease = prerelease_workspace;
        let mut highest_stable: Vec<Option<usize>> = Vec::new();
        while highest_stable.len() < stable.packages.len()
            invariant
                highest_stable@.len() <= stable.packages@.len(),
                forall|p: int| 0 <= p < highest_stable@.len() ==> #[trigger] highest_stable@[p] is None,
            decreases stable.packages@.len() - highest_stable@.len(),
        {
            highest_stable.push(None);
        }
        let mut highest_prerelease: Vec<Option<usize>> = Vec::new();
        while highest_prerelease.len() < prerelease.packages.len()
            invariant
                highest_prerelease@.len() <= prerelease.packages@.len(),
                forall|p: int|
                    0 <= p < highest_prerelease@.len() ==> #[trigger] highest_prerelease@[p] is None,
            decreases prerelease.packages@.len() - highest_prerelease@.len(),
        {
            highest_prerelease.push(None);
        }
        let mut tree = BumpTree {
            nodes: Vec::new(),
            root_nodes: Vec::new(),
            highest_stable,
            highest_prerelease,
        };
        assert(nodes_view(tree.nodes@) =~= Seq::<NodeView>::empty());
        let a = stable.packages.len();
        let b = prerelease.packages.len();
        let fuel: usize = if b < usize::MAX && a < usize::MAX - b {
            a + b + 1
        } else {
            usize::MAX
        };
        assert(fuel as nat == depth_limit(stable, prerelease));
        let ghost roots_view = instructions_view(root_instructions@);
        let mut roots: Vec<usize> = Vec::new();
        let mut k: usize = 0;
        assert(roots_view.take(0) =~= Seq::<InstructionView>::empty());
        while k < root_instructions.len()
            invariant
                k <= root_instructions@.len(),
                stable == stable_workspace,
                prerelease == prerelease_workspace,
                stable.bumpable(),
                roots_view == instructions_view(root_instructions@),
                fuel as nat == depth_limit(stable, prerelease),
                forall|j: int|
                    0 <= j < root_instructions@.len() ==> root_fits(
                        stable,
                        prerelease,
                        #[trigger] root_instructions@[j]@,
                        release_channel,
                    ),
                tree.consistent(stable, prerelease),
                build_roots(stable, prerelease, roots_view.take(k as int), release_channel, fuel as nat)
                    == Some((nodes_view(tree.nodes@), roots@)),
            decreases root_instructions@.len() - k,
        {
            let i = root_instructions[k].copy();
            assert(roots_view[k as int] == i@);
            assert(root_fits(stable, prerelease, i@, release_channel));
            assert(roots_view.take(k as int + 1).drop_last() =~= roots_view.take(k as int));
            assert(roots_view.take(k as int + 1).last() == i@);
            let (st, pr) = match release_channel {
                ReleaseChannel::Prerelease => (None, Some(i)),
                ReleaseChannel::Stable => {
                    let pi = prerelease.find(stable.packages[i.package].name.as_str());
                    let pr = compute_prerelease_bump_instruction(
                        stable,
                        prerelease,
                        pi,
                        Some(i.package),
                        Some(&i),
                        None,
                    );
                    (Some(i), pr)
                },
            };
            let ghost before = nodes_view(tree.nodes@);
            assert((opt_view(st), opt_view(pr)) == root_pair(stable, prerelease, i@, release_channel));
            match tree.new_node(stable, prerelease, st, pr, fuel) {
                Ok(idx) => {
                    roots.push(idx);
                },
                Err(e) => {
                    proof {
                        lemma_roots_fail(
                            stable,
                            prerelease,
                            roots_view,
                            k as int + 1,
                            release_channel,
                            fuel as nat,
                        );
                        assert(roots_view.take(root_instructions@.len() as int) =~= roots_view);
                    }
                    return Err(e);
                },
            }
            k = k + 1;
        }
        assert(roots_view.take(k as int) =~= roots_view);
        tree.root_nodes = roots;
        Ok(tree)
    }

    /// The most severe stable bump recorded for the package named `name`.
    pub fn highest_stable_instruction(
        &self,
        stable: &Workspace,
        prerelease: &Workspace,
        name: &str,
    ) -> (r: Option<BumpInstruction>)
        requires
            self.consistent(stable, prerelease),
        ensures
            opt_view(r) == recorded(
                nodes_view(self.nodes@),
                ReleaseChannel::Stable,
                stable.lookup(name@),
            ),
    {
        match stable.find(name) {
            None => None,
            Some(p) => match self.highest_stable[p] {
                None => None,
                Some(h) => {
                    proof {
                        lemma_highest_found(nodes_view(self.nodes@), ReleaseChannel::Stable, p as int);
                    }
                    match &self.nodes[h].stable {
                        Some(i) => Some(i.copy()),
                        None => None,
                    }
                },
            },
        }
    }

    /// The most severe prerelease bump recorded for the package named `name`.
    pub fn highest_prerelease_instruction(
        &self,
        stable: &Workspace,
        prerelease: &Workspace,
        name: &str,
    ) -> (r: Option<BumpInstruction>)
        requires
            self.consistent(stable, prerelease),
        ensures
            opt_view(r) == recorded(
                nodes_view(self.nodes@),
                ReleaseChannel::Prerelease,
                prerelease.lookup(name@),
            ),
    {
        match prerelease.find(name) {
            None => None,
            Some(p) => match self.highest_prerelease[p] {
                None => None,
                Some(h) => {
                    proof {
                        lemma_highest_found(
                            nodes_view(self.nodes@),
                            ReleaseChannel::Prerelease,
                            p as int,
                        );
                    }
                    match &self.nodes[h].prerelease {
                        Some(i) => Some(i.copy()),
                        None => None,
                    }
                },
            },
        }
    }

    /// The children of node `node` worth showing: those that hold the
    /// recorded highest bump of their package on some channel.
    pub fn significant_children(&self, stable: &Workspace, prerelease: &Workspace, node: usize) -> (r:
        Vec<usize>)
        requires
            self.consistent(stable, prerelease),
            node < self.nodes@.len(),
        ensures
            r@ == significant(
                self.nodes@[node as int].children@,
                nodes_view(self.nodes@),
                self.highest_stable@,
                self.highest_prerelease@,
            ),
    {
        let children = &self.nodes[node].children;
        let ghost all = nodes_view(self.nodes@);
        let mut out: Vec<usize> = Vec::new();
        let mut k: usize = 0;
        assert(all[node as int].children == children@);
        while k < children.len()
            invariant
                k <= children@.len(),
                node < self.nodes@.len(),
                self.consistent(stable, prerelease),
                all == nodes_view(self.nodes@),
                children@ == self.nodes@[node as int].children@,
                out@ == significant(
                    children@.take(k as int),
                    all,
                    self.highest_stable@,
                    self.highest_prerelease@,
                ),
            decreases children@.len() - k,
        {
            let c = children[k];
            assert(all[node as int] == self.nodes@[node as int]@);
            assert(self.nodes@[node as int]@.children[k as int] == c);
            assert(c < node);
            assert(children@.take(k as int + 1).drop_last() =~= children@.take(k as int));
            assert(children@.take(k as int + 1).last() == c);
            let n = &self.nodes[c];
            assert(all[c as int] == n@);
            assert(node_fits(n@, stable, prerelease));
            let shown_stable = match &n.stable {
                Some(i) => self.highest_stable[i.package] == Some(c),
                None => false,
            };
            let shown = shown_stable || match &n.prerelease {
                Some(i) => self.highest_prerelease[i.package] == Some(c),
                None => false,
            };
            if shown {
                out.push(c);
            }
            k = k + 1;
        }
        assert(children@.take(k as int) =~= children@);
        out
    }
}


/// How many packages got a breaking stable bump, and how many a compatible one.
#[derive(Debug, Clone, Copy, PartialEq, Eq, Structural)]
pub struct BumpSummary {
    pub compatible_bumps: usize,
    pub breaking_bumps: usize,
}

/// The number of recorded stable bumps, among `marks`, that are breaking
/// (or, with `breaking` false, compatible).
pub open spec fn count_recorded(nodes: Seq<NodeView>, marks: Seq<Option<usize>>, breaking: bool) -> nat
    decreases marks.len(),
{
    if marks.len() == 0 {
        0
    } else {
        let prev = count_recorded(nodes, marks.drop_last(), breaking);
        match marks.last() {
            Some(h) => match nodes[h as int].stable {
                Some(i) => if (kind(i) == BumpType::Major) == breaking {
                    prev + 1
                } else {
                    prev
                },
                None => prev,
            },
            None => prev,
        }
    }
}

/// The names of the packages with a recorded bump, in package order.
pub open spec fn marked_names(pkgs: Seq<crate::package::Package>, marks: Seq<Option<usize>>) -> Seq<
    Seq<char>,
>
    decreases marks.len(),
{
    if marks.len() == 0 {
        Seq::empty()
    } else {
        let prev = marked_names(pkgs, marks.drop_last());
        if marks.last() is Some {
            prev.push(pkgs[marks.len() - 1].name@)
        } else {
            prev
        }
    }
}

/// The names of the packages with a recorded bump.
fn marked(pkgs: &Vec<crate::package::Package>, marks: &Vec<Option<usize>>) -> (r: Vec<String>)
    requires
        marks@.len() <= pkgs@.len(),
    ensures
        texts(r@) == marked_names(pkgs@, marks@),
{
    let mut out: Vec<String> = Vec::new();
    let mut k: usize = 0;
    while k < marks.len()
        invariant
            k <= marks@.len(),
            marks@.len() <= pkgs@.len(),
            texts(out@) == marked_names(pkgs@, marks@.take(k as int)),
        decreases marks@.len() - k,
    {
        assert(marks@.take(k as int + 1).drop_last() =~= marks@.take(k as int));
        if marks[k].is_some() {
            let name = pkgs[k].name.clone();
            out.push(name);
            assert(texts(out@) =~= texts(out@.drop_last()).push(name@));
        }
        k = k + 1;
    }
    assert(marks@.take(k as int) =~= marks@);
    out
}

impl BumpTree {
    /// Counts the packages by the severity of their recorded stable bump.
    pub fn summary(&self, stable: &Workspace, prerelease: &Workspace) -> (r: BumpSummary)
        requires
            self.consistent(stable, prerelease),
        ensures
            r.breaking_bumps == count_recorded(nodes_view(self.nodes@), self.highest_stable@, true),
            r.compatible_bumps == count_recorded(
                nodes_view(self.nodes@),
                self.highest_stable@,
                false,
            ),
    {
        let ghost all = nodes_view(self.nodes@);
        let mut breaking: usize = 0;
        let mut compatible: usize = 0;
        let mut k: usize = 0;
        while k < self.highest_stable.len()
            invariant
                k <= self.highest_stable@.len(),
                self.consistent(stable, prerelease),
                all == nodes_view(self.nodes@),
                breaking + compatible <= k,
                breaking == count_recorded(all, self.highest_stable@.take(k as int), true),
                compatible == count_recorded(all, self.highest_stable@.take(k as int), false),
            decreases self.highest_stable@.len() - k,
        {
            assert(self.highest_stable@.take(k as int + 1).drop_last() =~= self.highest_stable@.take(
                k as int,
            ));
            if let Some(h) = self.highest_stable[k] {
                proof {
                    lemma_highest_found(all, ReleaseChannel::Stable, k as int);
                }
                assert(all[h as int] == self.nodes@[h as int]@);
                if let Some(i) = &self.nodes[h].stable {
                    if i.bump_type() == BumpType::Major {
                        breaking = breaking + 1;
                    } else {
                        compatible = compatible + 1;
                    }
                }
            }
            k = k + 1;
        }
        assert(self.highest_stable@.take(k as int) =~= self.highest_stable@);
        BumpSummary { compatible_bumps: compatible, breaking_bumps: breaking }
    }

    /// The names of the packages that get a bump on either channel, each
    /// once.
    pub fn updated_packages(&self, stable: &Workspace, prerelease: &Workspace) -> (r: Vec<String>)
        requires
            self.consistent(stable, prerelease),
        ensures
            texts(r@) == unique(
                marked_names(stable.packages@, self.highest_stable@) + marked_names(
                    prerelease.packages@,
                    self.highest_prerelease@,
                ),
            ),
    {
        let mut all = marked(&stable.packages, &self.highest_stable);
        let mut more = marked(&prerelease.packages, &self.highest_prerelease);
        let ghost a = all@;
        let ghost b = more@;
        all.append(&mut more);
        assert(texts(all@) =~= texts(a) + texts(b));
        unique_names(&all)
    }
}

} // verus!
