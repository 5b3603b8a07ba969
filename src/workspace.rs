//! One channel's checkout of the workspace: its packages, looked up by name.

use crate::package::{copy_names, dependents_in, find_direct_dependents, table_view, texts, Package};
use crate::text::str_eq;
use crate::version::{can_bump, has_headroom};
use vstd::prelude::*;

verus! {

/// The first position in `pkgs` of a package named `name`.
pub open spec fn position_of(pkgs: Seq<Package>, name: Seq<char>) -> Option<int>
    decreases pkgs.len(),
{
    if pkgs.len() == 0 {
        None
    } else {
        match position_of(pkgs.drop_last(), name) {
            Some(i) => Some(i),
            None => if pkgs.last().name@ == name {
                Some(pkgs.len() - 1)
            } else {
                None
            },
        }
    }
}

/// The dependency table of `pkgs`: each name with its dependencies.
pub open spec fn dependency_table(pkgs: Seq<Package>) -> Seq<(Seq<char>, Seq<Seq<char>>)> {
    pkgs.map_values(|p: Package| (p.name@, texts(p.dependencies@)))
}

/// What `position_of` says about the packages it passes over and the one it
/// finds.
pub proof fn lemma_position_of(pkgs: Seq<Package>, name: Seq<char>)
    ensures
        match position_of(pkgs, name) {
            Some(i) => 0 <= i < pkgs.len() && pkgs[i].name@ == name && forall|j: int|
                0 <= j < i ==> pkgs[j].name@ != name,
            None => forall|j: int| 0 <= j < pkgs.len() ==> pkgs[j].name@ != name,
        },
    decreases pkgs.len(),
{
    if pkgs.len() > 0 {
        lemma_position_of(pkgs.drop_last(), name);
        assert(forall|j: int| 0 <= j < pkgs.len() - 1 ==> pkgs.drop_last()[j] == pkgs[j]);
    }
}

/// `position_of` is the first match, whatever follows it.
pub proof fn lemma_position_of_first(pkgs: Seq<Package>, name: Seq<char>, i: int)
    requires
        0 <= i < pkgs.len(),
        pkgs[i].name@ == name,
        forall|j: int| 0 <= j < i ==> pkgs[j].name@ != name,
    ensures
        position_of(pkgs, name) == Some(i),
    decreases pkgs.len(),
{
    if i < pkgs.len() - 1 {
        lemma_position_of_first(pkgs.drop_last(), name, i);
    } else {
        lemma_position_of(pkgs.drop_last(), name);
    }
}

/// An in-memory view of the workspace members on one branch.
#[derive(Debug, Clone)]
pub struct Workspace {
    /// Members of the workspace.
    pub packages: Vec<Package>,
    /// Git branch.
    pub branch_name: String,
}

impl Workspace {
    /// Every member's version leaves room for the bumps that propagation
    /// applies.
    pub open spec fn bumpable(&self) -> bool {
        forall|i: int| 0 <= i < self.packages@.len() ==> has_headroom(#[trigger] self.packages@[i].version@)
    }

    /// Every member's version leaves room for one more bump.
    pub open spec fn bumpable_once(&self) -> bool {
        forall|i: int| 0 <= i < self.packages@.len() ==> can_bump(#[trigger] self.packages@[i].version@)
    }

    /// The position of the member named `name`.
    pub open spec fn lookup(&self, name: Seq<char>) -> Option<int> {
        position_of(self.packages@, name)
    }

    /// A workspace of `packages`, each given as its dependents the members
    /// that depend on it, in member order.
    pub fn new(branch_name: String, packages: Vec<Package>) -> (r: Workspace)
        ensures
            r.branch_name@ == branch_name@,
            r.packages@.len() == packages@.len(),
            forall|i: int|
                0 <= i < packages@.len() ==> {
                    let p = #[trigger] r.packages@[i];
                    let q = packages@[i];
                    &&& p.name == q.name
                    &&& p.version == q.version
                    &&& p.dependencies == q.dependencies
                    &&& p.publish == q.publish
                    &&& texts(p.dependents@) == dependents_in(p.name@, dependency_table(packages@))
                },
    {
        let mut table: Vec<(String, Vec<String>)> = Vec::new();
        let mut i: usize = 0;
        while i < packages.len()
            invariant
                i <= packages.len(),
                table_view(table@) =~= dependency_table(packages@.take(i as int)),
            decreases packages.len() - i,
        {
            let p = &packages[i];
            let entry = (p.name.clone(), copy_names(&p.dependencies));
            assert(entry.0@ == p.name@);
            table.push(entry);
            assert(table_view(table@) =~= table_view(table@.drop_last()).push(
                (p.name@, texts(p.dependencies@)),
            ));
            assert(dependency_table(packages@.take(i as int + 1)) =~= dependency_table(
                packages@.take(i as int),
            ).push((p.name@, texts(p.dependencies@))));
            i = i + 1;
        }
        assert(packages@.take(i as int) =~= packages@);
        let ghost given = packages@;
        let mut rest = packages;
        let mut members: Vec<Package> = Vec::new();
        while rest.len() > 0
            invariant
                members@.len() + rest@.len() == given.len(),
                rest@ == given.skip(members@.len() as int),
                table_view(table@) == dependency_table(given),
                forall|j: int|
                    0 <= j < members@.len() ==> {
                        let p = #[trigger] members@[j];
                        let q = given[j];
                        &&& p.name == q.name
                        &&& p.version == q.version
                        &&& p.dependencies == q.dependencies
                        &&& p.publish == q.publish
                        &&& texts(p.dependents@) == dependents_in(
                            p.name@,
                            dependency_table(given),
                        )
                    },
            decreases rest@.len(),
        {
            let mut p = rest.remove(0);
            assert(p == given[members@.len() as int]);
            let dependents = find_direct_dependents(p.name.as_str(), &table);
            p.set_direct_dependents(dependents);
            members.push(p);
            assert(rest@ =~= given.skip(members@.len() as int));
        }
        Workspace { packages: members, branch_name }
    }

    /// The position of the member named `name`, if there is one.
    pub fn find(&self, name: &str) -> (r: Option<usize>)
        ensures
            match r {
                Some(i) => i < self.packages@.len() && self.packages@[i as int].name@ == name@
                    && self.lookup(name@) == Some(i as int),
                None => self.lookup(name@) is None,
            },
    {
        let mut i: usize = 0;
        while i < self.packages.len()
            invariant
                i <= self.packages.len(),
                forall|j: int| 0 <= j < i ==> self.packages@[j].name@ != name@,
            decreases self.packages.len() - i,
        {
            if self.packages[i].name.as_str().unicode_len() == name.unicode_len() && str_eq(
                self.packages[i].name.as_str(),
                name,
            ) {
                proof {
                    lemma_position_of_first(self.packages@, name@, i as int);
                }
                return Some(i);
            }
            i = i + 1;
        }
        proof {
            lemma_position_of(self.packages@, name@);
        }
        None
    }

    /// Whether every member's version leaves room for propagation's bumps.
    pub fn is_bumpable(&self) -> (r: bool)
        ensures
            r == self.bumpable(),
    {
        let mut i: usize = 0;
        while i < self.packages.len()
            invariant
                i <= self.packages.len(),
                forall|j: int| 0 <= j < i ==> has_headroom(#[trigger] self.packages@[j].version@),
            decreases self.packages.len() - i,
        {
            let v = &self.packages[i].version;
            if v.major > u64::MAX - 2 || v.minor > u64::MAX - 2 || v.patch > u64::MAX - 2 {
                assert(!has_headroom(self.packages@[i as int].version@));
                return false;
            }
            i = i + 1;
        }
        true
    }
}

} // verus!
