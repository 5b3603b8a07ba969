//! Nodes of the bump tree.

use crate::instruction::{BumpInstruction, InstructionView};
use crate::workspace::Workspace;
use vstd::prelude::*;

verus! {

/// One package reached by propagation, with the bump it gets on each
/// channel. The tree keeps its nodes in one arena; `children` are positions
/// in that arena.
#[derive(Debug, Clone, Eq)]
pub struct BumpNode {
    pub stable: Option<BumpInstruction>,
    pub prerelease: Option<BumpInstruction>,
    pub children: Vec<usize>,
}

/// The mathematical value of a [`BumpNode`].
pub ghost struct NodeView {
    pub stable: Option<InstructionView>,
    pub prerelease: Option<InstructionView>,
    pub children: Seq<usize>,
}

impl View for BumpNode {
    type V = NodeView;

    open spec fn view(&self) -> NodeView {
        NodeView {
            stable: match self.stable {
                Some(i) => Some(i@),
                None => None,
            },
            prerelease: match self.prerelease {
                Some(i) => Some(i@),
                None => None,
            },
            children: self.children@,
        }
    }
}

/// A node carries a bump on at least one channel, each naming a package of
/// that channel's workspace.
pub open spec fn node_fits(n: NodeView, stable: &Workspace, prerelease: &Workspace) -> bool {
    &&& (n.stable is Some || n.prerelease is Some)
    &&& n.stable matches Some(i) ==> 0 <= i.package < stable.packages@.len()
    &&& n.prerelease matches Some(i) ==> 0 <= i.package < prerelease.packages@.len()
}

/// The name of the package a node bumps: its stable package if it has a
/// stable bump, else its prerelease package.
pub open spec fn node_package_name(n: NodeView, stable: &Workspace, prerelease: &Workspace) -> Seq<
    char,
> {
    match n.stable {
        Some(i) => stable.packages@[i.package].name@,
        None => prerelease.packages@[n.prerelease->0.package].name@,
    }
}

impl BumpNode {
    /// The name of the package this node bumps.
    pub fn package_name(&self, stable: &Workspace, prerelease: &Workspace) -> (r: String)
        requires
            node_fits(self@, stable, prerelease),
        ensures
            r@ == node_package_name(self@, stable, prerelease),
    {
        match &self.stable {
            Some(i) => stable.packages[i.package].name.clone(),
            None => {
                let i = self.prerelease.as_ref().unwrap();
                prerelease.packages[i.package].name.clone()
            },
        }
    }
}


/// Two optional instructions are equal.
fn same_instruction(a: &Option<BumpInstruction>, b: &Option<BumpInstruction>) -> (r: bool)
    ensures
        r == (match a {
            Some(i) => Some(i@),
            None => None::<InstructionView>,
        } == match b {
            Some(i) => Some(i@),
            None => None::<InstructionView>,
        }),
{
    match (a, b) {
        (Some(x), Some(y)) => x == y,
        (None, None) => true,
        _ => false,
    }
}

impl PartialEq for BumpNode {
    /// Nodes are equal where their bumps on both channels are; their
    /// children do not count.
    fn eq(&self, other: &BumpNode) -> (r: bool)
        ensures
            r == (self@.stable == other@.stable && self@.prerelease == other@.prerelease),
    {
        same_instruction(&self.stable, &other.stable) && same_instruction(
            &self.prerelease,
            &other.prerelease,
        )
    }
}

impl vstd::std_specs::cmp::PartialEqSpecImpl for BumpNode {
    open spec fn obeys_eq_spec() -> bool {
        true
    }

    open spec fn eq_spec(&self, other: &BumpNode) -> bool {
        self@.stable == other@.stable && self@.prerelease == other@.prerelease
    }
}

} // verus!
