use vstd::prelude::*;
use crate::report::strings_view;

verus! {

/// A package of the dependency graph, as the logic reads it.
pub struct PackageEntry {
    pub id: String,
    pub name: String,
    pub version: String,
}

/// A node of the resolved graph: a package id and the ids it depends on.
pub struct ResolveNode {
    pub id: String,
    pub dependencies: Vec<String>,
}

/// What the dependency scan reads of a project's metadata.
pub struct ProjectMetadata {
    pub packages: Vec<PackageEntry>,
    pub workspace_members: Vec<String>,
    pub resolve: Option<Vec<ResolveNode>>,
}

/// A direct dependency of the project.
#[derive(Clone)]
pub struct DependencyInfo {
    pub name: String,
    pub version: String,
}

pub struct PackageView {
    pub id: Seq<char>,
    pub name: Seq<char>,
    pub version: Seq<char>,
}

pub struct NodeView {
    pub id: Seq<char>,
    pub dependencies: Seq<Seq<char>>,
}

pub struct MetadataView {
    pub packages: Seq<PackageView>,
    pub workspace_members: Seq<Seq<char>>,
    pub resolve: Option<Seq<NodeView>>,
}

pub struct DependencyView {
    pub name: Seq<char>,
    pub version: Seq<char>,
}

impl View for PackageEntry {
    type V = PackageView;

    open spec fn view(&self) -> PackageView {
        PackageView { id: self.id@, name: self.name@, version: self.version@ }
    }
}

impl View for ResolveNode {
    type V = NodeView;

    open spec fn view(&self) -> NodeView {
        NodeView { id: self.id@, dependencies: strings_view(self.dependencies@) }
    }
}

impl View for DependencyInfo {
    type V = DependencyView;

    open spec fn view(&self) -> DependencyView {
        DependencyView { name: self.name@, version: self.version@ }
    }
}

pub open spec fn nodes_view(nodes: Seq<ResolveNode>) -> Seq<NodeView> {
    nodes.map_values(|n: ResolveNode| n@)
}

impl View for ProjectMetadata {
    type V = MetadataView;

    open spec fn view(&self) -> MetadataView {
        MetadataView {
            packages: self.packages@.map_values(|p: PackageEntry| p@),
            workspace_members: strings_view(self.workspace_members@),
            resolve: match self.resolve {
                Some(nodes) => Some(nodes_view(nodes@)),
                None => None,
            },
        }
    }
}

pub open spec fn dependencies_view(deps: Seq<DependencyInfo>) -> Seq<DependencyView> {
    deps.map_values(|d: DependencyInfo| d@)
}

/// `id` is a dependency of some workspace member in the resolved graph.
pub open spec fn is_direct_dependency(m: MetadataView, id: Seq<char>) -> bool {
    match m.resolve {
        None => false,
        Some(nodes) => exists|a: int, b: int|
            0 <= a < nodes.len() && m.workspace_members.contains(#[trigger] nodes[a].id) && 0 <= b
                < nodes[a].dependencies.len() && #[trigger] nodes[a].dependencies[b] == id,
    }
}

/// The direct dependencies of the project: the packages that some workspace
/// member depends on, in the order in which the packages are listed.
pub open spec fn direct_dependencies(m: MetadataView) -> Seq<DependencyView> {
    m.packages.filter_map(
        |p: PackageView|
            if is_direct_dependency(m, p.id) {
                Some(DependencyView { name: p.name, version: p.version })
            } else {
                None
            },
    )
}

/// The dependency ids of the workspace members among `nodes`, node by node.
spec fn member_dependency_ids(members: Seq<Seq<char>>, nodes: Seq<NodeView>) -> Seq<Seq<char>>
    decreases nodes.len(),
{
    if nodes.len() == 0 {
        Seq::empty()
    } else {
        member_dependency_ids(members, nodes.drop_last()) + if members.contains(
            nodes.last().id,
        ) {
            nodes.last().dependencies
        } else {
            Seq::empty()
        }
    }
}

proof fn lemma_member_dependency_ids(members: Seq<Seq<char>>, nodes: Seq<NodeView>, id: Seq<char>)
    ensures
        member_dependency_ids(members, nodes).contains(id) <==> exists|a: int, b: int|
            0 <= a < nodes.len() && members.contains(#[trigger] nodes[a].id) && 0 <= b
                < nodes[a].dependencies.len() && #[trigger] nodes[a].dependencies[b] == id,
    decreases nodes.len(),
{
    if nodes.len() > 0 {
        let init = nodes.drop_last();
        let last = nodes.last();
        lemma_member_dependency_ids(members, init, id);
        let tail = if members.contains(last.id) {
            last.dependencies
        } else {
            Seq::<Seq<char>>::empty()
        };
        let all = member_dependency_ids(members, init) + tail;
        if all.contains(id) {
            let k = choose|k: int| 0 <= k < all.len() && all[k] == id;
            if k < member_dependency_ids(members, init).len() {
                assert(member_dependency_ids(members, init)[k] == id);
                let (a, b) = choose|a: int, b: int|
                    0 <= a < init.len() && members.contains(#[trigger] init[a].id) && 0 <= b
                        < init[a].dependencies.len() && #[trigger] init[a].dependencies[b] == id;
                assert(nodes[a] == init[a]);
            } else {
                let b = k - member_dependency_ids(members, init).len();
                assert(tail[b] == id);
                assert(nodes[nodes.len() - 1] == last);
                assert(nodes[nodes.len() - 1].dependencies[b] == id);
            }
        }
        if exists|a: int, b: int|
            0 <= a < nodes.len() && members.contains(#[trigger] nodes[a].id) && 0 <= b
                < nodes[a].dependencies.len() && #[trigger] nodes[a].dependencies[b] == id {
            let (a, b) = choose|a: int, b: int|
                0 <= a < nodes.len() && members.contains(#[trigger] nodes[a].id) && 0 <= b
                    < nodes[a].dependencies.len() && #[trigger] nodes[a].dependencies[b] == id;
            if a < init.len() {
                assert(init[a] == nodes[a]);
                assert(member_dependency_ids(members, init).contains(id));
                let k = choose|k: int|
                    0 <= k < member_dependency_ids(members, init).len() && member_dependency_ids(
                        members,
                        init,
                    )[k] == id;
                assert(all[k] == id);
            } else {
                assert(nodes[a] == last);
                assert(all[member_dependency_ids(members, init).len() + b] == id);
            }
        }
    }
}

/// Whether `id` is among `ids`.
fn contains_id(ids: &Vec<String>, id: &String) -> (found: bool)
    ensures
        found == strings_view(ids@).contains(id@),
{
    let mut i: usize = 0;
    while i < ids.len()
        invariant
            i <= ids@.len(),
            forall|k: int| 0 <= k < i ==> ids@[k]@ != id@,
        decreases ids.len() - i,
    {
        if ids[i] == *id {
            assert(strings_view(ids@)[i as int] == id@);
            return true;
        }
        i = i + 1;
    }
    proof {
        if strings_view(ids@).contains(id@) {
            let k = choose|k: int| 0 <= k < strings_view(ids@).len() && strings_view(ids@)[k] == id@;
            assert(ids@[k]@ == id@);
        }
    }
    false
}

/// The direct dependencies of the project that `metadata` describes: each
/// package that a workspace member depends on, with its name and version, in
/// package order. Without a resolved graph there are none.
pub fn parse_dependencies(metadata: &ProjectMetadata) -> (deps: Vec<DependencyInfo>)
    ensures
        dependencies_view(deps@) == direct_dependencies(metadata@),
{
    let ghost m = metadata@;
    let ghost members = m.workspace_members;
    let mut direct: Vec<String> = Vec::new();
    if let Some(nodes) = &metadata.resolve {
        let ghost nv = nodes_view(nodes@);
        let mut i: usize = 0;
        assert(strings_view(direct@) =~= member_dependency_ids(members, nv.take(0)));
        while i < nodes.len()
            invariant
                i <= nodes@.len(),
                nv == nodes_view(nodes@),
                members == strings_view(metadata.workspace_members@),
                strings_view(direct@) == member_dependency_ids(members, nv.take(i as int)),
            decreases nodes.len() - i,
        {
            let node = &nodes[i];
            assert(nv.take(i + 1).drop_last() =~= nv.take(i as int));
            assert(nv.take(i + 1).last() == node@);
            if contains_id(&metadata.workspace_members, &node.id) {
                let ghost before = strings_view(direct@);
                let mut j: usize = 0;
                while j < node.dependencies.len()
                    invariant
                        j <= node.dependencies@.len(),
                        strings_view(direct@) == before + strings_view(node.dependencies@).take(
                            j as int,
                        ),
                    decreases node.dependencies.len() - j,
                {
                    let dep = node.dependencies[j].clone();
                    assert(dep@ == strings_view(node.dependencies@)[j as int]);
                    let ghost prev = direct@;
                    direct.push(dep);
                    assert(strings_view(direct@) =~= strings_view(prev).push(dep@));
                    assert(strings_view(node.dependencies@).take(j + 1) =~= strings_view(
                        node.dependencies@,
                    ).take(j as int).push(dep@));
                    assert(strings_view(direct@) =~= before + strings_view(
                        node.dependencies@,
                    ).take(j + 1));
                    j = j + 1;
                }
                assert(strings_view(node.dependencies@).take(j as int) =~= strings_view(
                    node.dependencies@,
                ));
            } else {
                assert(strings_view(direct@) =~= strings_view(direct@) + Seq::<Seq<char>>::empty());
            }
            i = i + 1;
        }
        assert(nv.take(i as int) =~= nv);
        assert(m.resolve == Some(nv));
        assert forall|id: Seq<char>| #[trigger]
            strings_view(direct@).contains(id) <==> is_direct_dependency(m, id) by {
            lemma_member_dependency_ids(members, nv, id);
            if is_direct_dependency(m, id) {
                let (a, b) = choose|a: int, b: int|
                    0 <= a < nv.len() && members.contains(#[trigger] nv[a].id) && 0 <= b
                        < nv[a].dependencies.len() && #[trigger] nv[a].dependencies[b] == id;
            }
        }
    }
    let ghost f = |p: PackageView|
        if is_direct_dependency(m, p.id) {
            Some(DependencyView { name: p.name, version: p.version })
        } else {
            None
        };
    let mut deps: Vec<DependencyInfo> = Vec::new();
    let mut k: usize = 0;
    assert(m.packages.take(0).filter_map(f) =~= Seq::<DependencyView>::empty());
    while k < metadata.packages.len()
        invariant
            k <= metadata.packages@.len(),
            m == metadata@,
            f == (|p: PackageView|
                if is_direct_dependency(m, p.id) {
                    Some(DependencyView { name: p.name, version: p.version })
                } else {
                    None
                }),
            forall|id: Seq<char>| #[trigger]
                strings_view(direct@).contains(id) <==> is_direct_dependency(m, id),
            dependencies_view(deps@) == m.packages.take(k as int).filter_map(f),
        decreases metadata.packages.len() - k,
    {
        let package = &metadata.packages[k];
        assert(m.packages.take(k + 1).drop_last() =~= m.packages.take(k as int));
        assert(m.packages.take(k + 1).last() == package@);
        if contains_id(&direct, &package.id) {
            deps.push(DependencyInfo { name: package.name.clone(), version: package.version.clone() });
            assert(dependencies_view(deps@) =~= m.packages.take(k + 1).filter_map(f));
        } else {
            assert(dependencies_view(deps@) =~= m.packages.take(k + 1).filter_map(f));
        }
        k = k + 1;
    }
    assert(m.packages.take(k as int) =~= m.packages);
    deps
}

proof fn lemma_filter_map_keeps<A, B>(s: Seq<A>, f: spec_fn(A) -> Option<B>, i: int)
    requires
        0 <= i < s.len(),
        f(s[i]) is Some,
    ensures
        s.filter_map(f).contains(f(s[i])->0),
    decreases s.len(),
{
    let rest = s.drop_last();
    if i == s.len() - 1 {
        let out = s.filter_map(f);
        assert(out == rest.filter_map(f) + seq![f(s[i])->0]);
        assert(out[out.len() - 1] == f(s[i])->0);
    } else {
        assert(rest[i] == s[i]);
        lemma_filter_map_keeps(rest, f, i);
        let k = choose|k: int| 0 <= k < rest.filter_map(f).len() && rest.filter_map(f)[k] == f(
            s[i],
        )->0;
        match f(s.last()) {
            Some(x) => {
                assert((rest.filter_map(f) + seq![x])[k] == f(s[i])->0);
            },
            None => {},
        }
    }
}

/// Every listed package that any workspace member depends on is a direct
/// dependency: whichever member it is, in whichever position of the list.
pub proof fn law_every_member_dependency_is_listed(
    m: MetadataView,
    nodes: Seq<NodeView>,
    i: int,
    a: int,
    b: int,
    p: int,
)
    requires
        m.resolve == Some(nodes),
        0 <= i < m.workspace_members.len(),
        0 <= a < nodes.len(),
        nodes[a].id == m.workspace_members[i],
        0 <= b < nodes[a].dependencies.len(),
        0 <= p < m.packages.len(),
        m.packages[p].id == nodes[a].dependencies[b],
    ensures
        direct_dependencies(m).contains(
            DependencyView { name: m.packages[p].name, version: m.packages[p].version },
        ),
{
    assert(m.workspace_members[i] == nodes[a].id);
    assert(m.workspace_members.contains(nodes[a].id));
    assert(nodes[a].dependencies[b] == m.packages[p].id);
    assert(m.resolve->0 == nodes);
    assert(is_direct_dependency(m, m.packages[p].id));
    let f = |q: PackageView|
        if is_direct_dependency(m, q.id) {
            Some(DependencyView { name: q.name, version: q.version })
        } else {
            None
        };
    lemma_filter_map_keeps(m.packages, f, p);
}

/// Every direct dependency is the name and version of a listed package that
/// some workspace member depends on in the resolved graph.
pub proof fn law_every_listed_dependency_comes_from_a_member(m: MetadataView, d: DependencyView)
    requires
        direct_dependencies(m).contains(d),
    ensures
        m.resolve is Some,
        exists|p: int, i: int, a: int, b: int|
            0 <= p < m.packages.len() && m.packages[p].name == d.name && m.packages[p].version
                == d.version && 0 <= i < m.workspace_members.len() && 0 <= a
                < m.resolve->0.len() && m.resolve->0[a].id == #[trigger] m.workspace_members[i] && 0 <= b
                < m.resolve->0[a].dependencies.len() && #[trigger] m.resolve->0[a].dependencies[b]
                == #[trigger] m.packages[p].id,
{
    let f = |q: PackageView|
        if is_direct_dependency(m, q.id) {
            Some(DependencyView { name: q.name, version: q.version })
        } else {
            None
        };
    m.packages.lemma_filter_map_contains(f, d);
    let t = choose|t: PackageView| #[trigger] m.packages.contains(t) && f(t) == Some(d);
    let p = choose|p: int| 0 <= p < m.packages.len() && m.packages[p] == t;
    let nodes = m.resolve->0;
    let (a, b) = choose|a: int, b: int|
        0 <= a < nodes.len() && m.workspace_members.contains(#[trigger] nodes[a].id) && 0 <= b
            < nodes[a].dependencies.len() && #[trigger] nodes[a].dependencies[b] == t.id;
    let i = choose|i: int| 0 <= i < m.workspace_members.len() && m.workspace_members[i] == nodes[a].id;
    assert(nodes[a].dependencies[b] == m.packages[p].id);
}

} // verus!
