//! Packages of one workspace checkout and the dependency edges between them.

use crate::version::Version;
use vstd::prelude::*;

verus! {

/// The text of each string in `v`.
pub open spec fn texts(v: Seq<String>) -> Seq<Seq<char>> {
    v.map_values(|s: String| s@)
}

/// One dependency declared in a manifest.
#[derive(Debug, Clone)]
pub struct Dependency {
    pub name: String,
    /// A development-only dependency, which does not count as an edge.
    pub development: bool,
}

/// The names, in order, of the dependencies that are workspace members and
/// are not development-only.
pub open spec fn workspace_edges(deps: Seq<Dependency>, members: Seq<Seq<char>>) -> Seq<Seq<char>>
    decreases deps.len(),
{
    if deps.len() == 0 {
        Seq::empty()
    } else {
        let prev = workspace_edges(deps.drop_last(), members);
        let d = deps.last();
        if members.contains(d.name@) && !d.development {
            prev.push(d.name@)
        } else {
            prev
        }
    }
}

/// The names, in order, of the entries whose dependency list holds `package`.
pub open spec fn dependents_in(package: Seq<char>, deps: Seq<(Seq<char>, Seq<Seq<char>>)>) -> Seq<
    Seq<char>,
>
    decreases deps.len(),
{
    if deps.len() == 0 {
        Seq::empty()
    } else {
        let prev = dependents_in(package, deps.drop_last());
        if deps.last().1.contains(package) {
            prev.push(deps.last().0)
        } else {
            prev
        }
    }
}

/// The mathematical value of a dependency table.
pub open spec fn table_view(t: Seq<(String, Vec<String>)>) -> Seq<(Seq<char>, Seq<Seq<char>>)> {
    t.map_values(|e: (String, Vec<String>)| (e.0@, texts(e.1@)))
}

/// Whether `names` holds `name`.
pub fn contains_name(names: &Vec<String>, name: &String) -> (r: bool)
    ensures
        r == texts(names@).contains(name@),
{
    let mut i: usize = 0;
    while i < names.len()
        invariant
            i <= names.len(),
            forall|j: int| 0 <= j < i ==> names@[j]@ != name@,
        decreases names.len() - i,
    {
        if names[i] == *name {
            assert(texts(names@)[i as int] == name@);
            return true;
        }
        i = i + 1;
    }
    assert(!texts(names@).contains(name@)) by {
        if texts(names@).contains(name@) {
            let k = choose|k: int| 0 <= k < texts(names@).len() && texts(names@)[k] == name@;
            assert(names@[k]@ == name@);
        }
    }
    false
}

/// A copy of a list of names.
pub fn copy_names(names: &Vec<String>) -> (r: Vec<String>)
    ensures
        texts(r@) == texts(names@),
{
    let mut out: Vec<String> = Vec::new();
    let mut i: usize = 0;
    while i < names.len()
        invariant
            i <= names.len(),
            texts(out@) =~= texts(names@.take(i as int)),
        decreases names.len() - i,
    {
        let name = names[i].clone();
        assert(name@ == names@[i as int]@);
        out.push(name);
        assert(texts(out@) =~= texts(out@.drop_last()).push(name@));
        assert(texts(names@.take(i as int + 1)) =~= texts(names@.take(i as int)).push(name@));
        i = i + 1;
    }
    assert(names@.take(i as int) =~= names@);
    out
}

/// Finds all direct dependents of a given package: the names, in table order,
/// of the entries whose dependencies hold `package`.
pub fn find_direct_dependents(package: &str, workspace_deps: &Vec<(String, Vec<String>)>) -> (r:
    Vec<String>)
    ensures
        texts(r@) == dependents_in(package@, table_view(workspace_deps@)),
{
    let target = String::from_str(package);
    let mut dependents: Vec<String> = Vec::new();
    let mut i: usize = 0;
    while i < workspace_deps.len()
        invariant
            i <= workspace_deps.len(),
            target@ == package@,
            texts(dependents@) == dependents_in(
                package@,
                table_view(workspace_deps@.take(i as int)),
            ),
        decreases workspace_deps.len() - i,
    {
        let entry = &workspace_deps[i];
        assert(table_view(workspace_deps@.take(i as int + 1)).drop_last() =~= table_view(
            workspace_deps@.take(i as int),
        ));
        if contains_name(&entry.1, &target) {
            dependents.push(entry.0.clone());
            assert(texts(dependents@) =~= texts(dependents@.drop_last()).push(entry.0@));
        }
        i = i + 1;
    }
    assert(workspace_deps@.take(i as int) =~= workspace_deps@);
    dependents
}

/// A member of a workspace: its name, its current version and its edges to
/// other members.
#[derive(Debug, Clone)]
pub struct Package {
    pub name: String,
    pub version: Version,
    /// Direct, non-development dependencies that are also workspace members.
    pub dependencies: Vec<String>,
    /// Direct, non-development dependents that are also workspace members.
    pub dependents: Vec<String>,
    /// False where the manifest opts out of publishing.
    pub publish: bool,
}

impl Package {
    /// A package whose dependencies are those of `dependencies` that are
    /// workspace members and not development-only; it has no dependents yet.
    pub fn new(
        name: String,
        version: Version,
        dependencies: &Vec<Dependency>,
        workspace_members: &Vec<String>,
        publish: bool,
    ) -> (r: Package)
        ensures
            r.name@ == name@,
            r.version@ == version@,
            texts(r.dependencies@) == workspace_edges(dependencies@, texts(workspace_members@)),
            r.dependents@.len() == 0,
            r.publish == publish,
    {
        let mut edges: Vec<String> = Vec::new();
        let mut i: usize = 0;
        while i < dependencies.len()
            invariant
                i <= dependencies.len(),
                texts(edges@) == workspace_edges(
                    dependencies@.take(i as int),
                    texts(workspace_members@),
                ),
            decreases dependencies.len() - i,
        {
            let d = &dependencies[i];
            assert(dependencies@.take(i as int + 1).drop_last() =~= dependencies@.take(i as int));
            if contains_name(workspace_members, &d.name) && !d.development {
                edges.push(d.name.clone());
                assert(texts(edges@) =~= texts(edges@.drop_last()).push(d.name@));
            }
            i = i + 1;
        }
        assert(dependencies@.take(i as int) =~= dependencies@);
        Package { name, version, dependencies: edges, dependents: Vec::new(), publish }
    }

    pub fn name(&self) -> (r: String)
        ensures
            r@ == self.name@,
    {
        self.name.clone()
    }

    pub fn version(&self) -> (r: Version)
        ensures
            r@ == self.version@,
    {
        self.version.copy()
    }

    pub fn direct_workspace_dependents(&self) -> (r: &Vec<String>)
        ensures
            r@ == self.dependents@,
    {
        &self.dependents
    }

    pub fn direct_workspace_dependencies(&self) -> (r: &Vec<String>)
        ensures
            r@ == self.dependencies@,
    {
        &self.dependencies
    }

    pub fn set_direct_dependents(&mut self, direct_dependents: Vec<String>)
        ensures
            final(self).dependents@ == direct_dependents@,
            final(self).name == old(self).name,
            final(self).version == old(self).version,
            final(self).dependencies == old(self).dependencies,
            final(self).publish == old(self).publish,
    {
        self.dependents = direct_dependents;
    }

    pub fn set_version(&mut self, version: &Version)
        ensures
            final(self).version@ == version@,
            final(self).name == old(self).name,
            final(self).dependencies == old(self).dependencies,
            final(self).dependents == old(self).dependents,
            final(self).publish == old(self).publish,
    {
        self.version = version.copy();
    }

    pub fn publish(&self) -> (r: bool)
        ensures
            r == self.publish,
    {
        self.publish
    }
}

} // verus!
