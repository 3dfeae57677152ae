//! The analyzer: the registry of declared packages, the graph of well-known
//! relationships between them, and the table of known conflicts.
use vstd::prelude::*;
use crate::graph::{
    graph_add_edge, graph_add_node, graph_edge_count, graph_edge_endpoints, graph_edges, graph_new,
    graph_node_count, graph_node_name, graph_nodes,
};
use crate::knowledge::{build_known_conflicts, entries_view, known_conflicts, texts_view, ConflictEntry};
use crate::model::{
    add_record, edge_allowed, edges_upto, has_package, implied, index_from, index_of, lemma_index_from,
    lemma_index_of_unique, names_of, new_edges, packages_view, records_view, well_formed,
    AnalyzerView, Dependency, DependencyView, Package, PackageView,
};

verus! {

/// Collects the packages that a project declares and what is known of them.
/// Its fields are the library's own: a value is made by `new` and changed by
/// the methods alone, each of which keeps `wf`.
pub struct DependencyAnalyzer {
    /// The registry: one entry for each package name, in the order in which
    /// the names were first sighted.
    pub(crate) dependencies: Vec<Package>,
    /// The graph: node `i` stands for package `i` of the registry.
    pub(crate) graph: petgraph::graph::DiGraph<String, (), usize>,
    /// The table of known conflicts.
    pub(crate) known_conflicts: Vec<ConflictEntry>,
}

/// Every edge made for the first `upto` targets starts at `source` and ends
/// at the registry's index of one of those targets.
pub proof fn lemma_edges_upto(
    packages: Seq<PackageView>,
    source: int,
    targets: Seq<Seq<char>>,
    upto: int,
)
    requires
        0 <= upto <= targets.len(),
    ensures
        edges_upto(packages, source, targets, upto).len() <= upto,
        forall|e: int|
            0 <= e < edges_upto(packages, source, targets, upto).len() ==> {
                let edge = #[trigger] edges_upto(packages, source, targets, upto)[e];
                &&& edge.0 == source
                &&& 0 <= edge.1 < packages.len()
                &&& targets.contains(packages[edge.1].name)
            },
        forall|k: int|
            0 <= k < upto && index_of(packages, #[trigger] targets[k]) < packages.len()
                ==> edges_upto(packages, source, targets, upto).contains(
                (source, index_of(packages, targets[k])),
            ),
    decreases upto,
{
    if upto > 0 {
        lemma_edges_upto(packages, source, targets, upto - 1);
        let before = edges_upto(packages, source, targets, upto - 1);
        let now = edges_upto(packages, source, targets, upto);
        let target = index_of(packages, targets[upto - 1]);
        lemma_index_from(packages, targets[upto - 1], 0);
        if target < packages.len() {
            assert(now == before.push((source, target)));
            assert(now[before.len() as int] == (source, target));
            assert forall|k: int|
                0 <= k < upto && index_of(packages, #[trigger] targets[k]) < packages.len() implies now.contains(
                (source, index_of(packages, targets[k])),
            ) by {
                if k < upto - 1 {
                    let pair = (source, index_of(packages, targets[k]));
                    assert(before.contains(pair));
                    let w = choose|w: int| 0 <= w < before.len() && before[w] == pair;
                    assert(now[w] == pair);
                } else {
                    assert(now[before.len() as int] == (source, target));
                }
            }
        }
    }
}

/// One more record keeps a registry and graph well formed.
pub proof fn lemma_add_record_well_formed(a: AnalyzerView, record: DependencyView)
    requires
        well_formed(a),
    ensures
        well_formed(add_record(a, record)),
{
    let b = add_record(a, record);
    let n = a.packages.len() as int;
    let at = index_of(a.packages, record.name);
    lemma_index_from(a.packages, record.name, 0);
    if at < n {
        assert forall|s: int, t: int| #[trigger] edge_allowed(b.packages, s, t) implies b.edges.contains(
            (s, t),
        ) by {
            assert(edge_allowed(a.packages, s, t));
        }
        assert forall|e: int| 0 <= e < b.edges.len() implies edge_allowed(
            b.packages,
            (#[trigger] b.edges[e]).0,
            b.edges[e].1,
        ) by {
            assert(edge_allowed(a.packages, a.edges[e].0, a.edges[e].1));
        }
    } else {
        let targets = implied(record.name);
        let added = new_edges(a.packages, record.name);
        lemma_edges_upto(a.packages, n, targets, targets.len() as int);
        assert forall|e: int| 0 <= e < b.edges.len() implies edge_allowed(
            b.packages,
            (#[trigger] b.edges[e]).0,
            b.edges[e].1,
        ) by {
            if e < a.edges.len() {
                assert(b.edges[e] == a.edges[e]);
                assert(edge_allowed(a.packages, a.edges[e].0, a.edges[e].1));
            } else {
                assert(b.edges[e] == added[e - a.edges.len()]);
            }
        }
        assert forall|s: int, t: int| #[trigger] edge_allowed(b.packages, s, t) implies b.edges.contains(
            (s, t),
        ) by {
            if s < n {
                assert(edge_allowed(a.packages, s, t));
                let w = choose|w: int| 0 <= w < a.edges.len() && a.edges[w] == (s, t);
                assert(b.edges[w] == (s, t));
            } else {
                let wanted = a.packages[t].name;
                let k = choose|k: int| 0 <= k < targets.len() && targets[k] == wanted;
                lemma_index_of_unique(a.packages, t);
                assert(index_of(a.packages, targets[k]) == t);
                assert(added.contains((n, t)));
                let w = choose|w: int| 0 <= w < added.len() && added[w] == (n, t);
                assert(b.edges[a.edges.len() + w] == (n, t));
            }
        }
    }
}

impl DependencyAnalyzer {
    /// The registry and the edges of the graph.
    pub open(crate) spec fn view(&self) -> AnalyzerView {
        AnalyzerView { packages: packages_view(self.dependencies@), edges: graph_edges(self.graph) }
    }

    /// The analyzer's invariant: the registry and graph are well formed, the
    /// graph's nodes carry the registry's package names in the registry's
    /// order, and the table of known conflicts is the fixed one.
    pub open(crate) spec fn wf(&self) -> bool {
        &&& well_formed(self@)
        &&& graph_nodes(self.graph) == names_of(self@.packages)
        &&& entries_view(self.known_conflicts@) == known_conflicts()
    }

    /// An analyzer that has seen no package yet.
    pub fn new() -> (analyzer: DependencyAnalyzer)
        ensures
            analyzer.wf(),
            analyzer@.packages == Seq::<PackageView>::empty(),
            analyzer@.edges == Seq::<(int, int)>::empty(),
    {
        let analyzer = DependencyAnalyzer {
            dependencies: Vec::new(),
            graph: graph_new(),
            known_conflicts: build_known_conflicts(),
        };
        assert(names_of(analyzer@.packages) =~= Seq::<Seq<char>>::empty());
        assert(analyzer@.packages =~= Seq::<PackageView>::empty());
        analyzer
    }

    /// The registry: the packages in the order of their first sighting.
    pub fn dependencies(&self) -> (packages: &Vec<Package>)
        ensures
            packages_view(packages@) == self@.packages,
    {
        &self.dependencies
    }

    /// The table of known conflicts.
    pub fn known_conflicts(&self) -> (table: &Vec<ConflictEntry>)
        requires
            self.wf(),
        ensures
            entries_view(table@) == known_conflicts(),
    {
        &self.known_conflicts
    }

    /// The names on the nodes of the graph, by node index: those of the
    /// packages, in the registry's order.
    pub fn node_names(&self) -> (names: Vec<String>)
        requires
            self.wf(),
        ensures
            texts_view(names@) == names_of(self@.packages),
    {
        let count = graph_node_count(&self.graph);
        let mut names: Vec<String> = Vec::new();
        let mut i: usize = 0;
        while i < count
            invariant
                self.wf(),
                count == self@.packages.len(),
                i <= count,
                names@.len() == i,
                forall|k: int| 0 <= k < i ==> (#[trigger] names@[k])@ == self@.packages[k].name,
            decreases count - i,
        {
            names.push(graph_node_name(&self.graph, i).clone());
            i = i + 1;
        }
        assert(texts_view(names@) =~= names_of(self@.packages));
        names
    }

    /// The number of packages in the registry.
    pub fn package_count(&self) -> (count: usize)
        ensures
            count == self@.packages.len(),
    {
        self.dependencies.len()
    }

    /// The package called `name`, where the registry holds one.
    pub fn package(&self, name: &str) -> (found: Option<&Package>)
        ensures
            has_package(self@.packages, name@) ==> (found matches Some(package) && package@
                == self@.packages[index_of(self@.packages, name@)]),
            !has_package(self@.packages, name@) ==> found is None,
    {
        let at = self.position(&name.to_owned());
        if at < self.dependencies.len() {
            Some(&self.dependencies[at])
        } else {
            None
        }
    }

    /// The edges of the graph as pairs (source, target) of node indices, by
    /// edge index.
    pub fn edges(&self) -> (pairs: Vec<(usize, usize)>)
        requires
            self.wf(),
        ensures
            pairs@.len() == self@.edges.len(),
            forall|e: int|
                0 <= e < pairs@.len() ==> (pairs@[e].0 as int, pairs@[e].1 as int)
                    == #[trigger] self@.edges[e],
    {
        let count = graph_edge_count(&self.graph);
        let mut pairs: Vec<(usize, usize)> = Vec::new();
        let mut e: usize = 0;
        while e < count
            invariant
                self.wf(),
                count == self@.edges.len(),
                e <= count,
                pairs@.len() == e,
                forall|k: int|
                    0 <= k < e ==> (pairs@[k].0 as int, pairs@[k].1 as int)
                        == #[trigger] self@.edges[k],
            decreases count - e,
        {
            match graph_edge_endpoints(&self.graph, e) {
                Some(pair) => {
                    pairs.push(pair);
                },
                None => {
                    assert(false);
                },
            }
            e = e + 1;
        }
        pairs
    }

    /// The registry's index of the package called `name`, or the number of
    /// packages when the registry has none of that name.
    pub fn position(&self, name: &String) -> (at: usize)
        ensures
            at == index_of(self@.packages, name@),
            at <= self@.packages.len(),
    {
        let mut i: usize = 0;
        while i < self.dependencies.len() && self.dependencies[i].name != *name
            invariant
                i <= self.dependencies@.len(),
                index_of(self@.packages, name@) == index_from(self@.packages, name@, i as int),
            decreases self.dependencies@.len() - i,
        {
            i = i + 1;
        }
        i
    }

    /// Adds one record. A record of a known package joins that package's
    /// records. A record of a new package opens a package and a node, and
    /// the node gets an edge to each package that it is known to build on
    /// and that the registry already holds.
    pub fn add_dependency(&mut self, dep: Dependency)
        requires
            old(self).wf(),
        ensures
            final(self).wf(),
            final(self)@ == add_record(old(self)@, dep@),
    {
        let at = self.position(&dep.name);
        proof {
            lemma_add_record_well_formed(self@, dep@);
            lemma_index_from(self@.packages, dep@.name, 0);
        }
        if at < self.dependencies.len() {
            self.dependencies[at].records.push(dep);
            assert(self.dependencies@.len() == old(self).dependencies@.len());
            assert(self.dependencies@[at as int].name == old(self).dependencies@[at as int].name);
            assert(self.dependencies@[at as int].records@ == old(self).dependencies@[at as int].records@.push(
                dep,
            ));
            assert(forall|i: int|
                0 <= i < self.dependencies@.len() && i != at ==> self.dependencies@[i] == old(
                    self,
                ).dependencies@[i]);
            assert(self@.packages[at as int].records =~= old(self)@.packages[at as int].records.push(
                dep@,
            ));
            assert(self@.packages =~= old(self)@.packages.update(
                at as int,
                PackageView {
                    name: old(self)@.packages[at as int].name,
                    records: old(self)@.packages[at as int].records.push(dep@),
                },
            ));
            assert(names_of(self@.packages) =~= names_of(old(self)@.packages));
        } else {
            let name = dep.name.clone();
            let label = dep.name.clone();
            let targets = implied_targets(&dep.name);
            let mut records: Vec<Dependency> = Vec::new();
            records.push(dep);
            self.dependencies.push(Package { name, records });
            let node = graph_add_node(&mut self.graph, label);
            assert(records_view(records@) =~= seq![dep@]);
            assert(self@.packages =~= old(self)@.packages.push(
                PackageView { name: dep@.name, records: seq![dep@] },
            ));
            assert(names_of(self@.packages) =~= names_of(old(self)@.packages).push(dep@.name));
            let mut k: usize = 0;
            while k < targets.len()
                invariant
                    k <= targets@.len(),
                    texts_view(targets@) == implied(dep@.name),
                    node == old(self)@.packages.len(),
                    old(self).wf(),
                    self.dependencies@.len() == node + 1,
                    self@.packages == old(self)@.packages.push(
                        PackageView { name: dep@.name, records: seq![dep@] },
                    ),
                    graph_nodes(self.graph) == names_of(self@.packages),
                    self.known_conflicts == old(self).known_conflicts,
                    graph_edges(self.graph) == old(self)@.edges + edges_upto(
                        old(self)@.packages,
                        node as int,
                        implied(dep@.name),
                        k as int,
                    ),
                decreases targets@.len() - k,
            {
                let found = self.lookup(&targets[k], node);
                proof {
                    lemma_edges_upto(old(self)@.packages, node as int, implied(dep@.name), k as int);
                    assert(self@.packages.take(node as int) =~= old(self)@.packages);
                    assert(targets@[k as int]@ == texts_view(targets@)[k as int]);
                }
                if found < node {
                    graph_add_edge(&mut self.graph, node, found);
                }
                k = k + 1;
                assert(graph_edges(self.graph) =~= old(self)@.edges + edges_upto(
                    old(self)@.packages,
                    node as int,
                    implied(dep@.name),
                    k as int,
                ));
            }
        }
    }

    /// The index among the first `len` packages of the one called `name`, or
    /// `len` when none of them is called so.
    fn lookup(&self, name: &String, len: usize) -> (at: usize)
        requires
            len <= self.dependencies@.len(),
        ensures
            at == index_of(self@.packages.take(len as int), name@),
            at <= len,
    {
        let mut i: usize = 0;
        while i < len && self.dependencies[i].name != *name
            invariant
                i <= len <= self.dependencies@.len(),
                index_of(self@.packages.take(len as int), name@) == index_from(
                    self@.packages.take(len as int),
                    name@,
                    i as int,
                ),
            decreases len - i,
        {
            i = i + 1;
        }
        i
    }
}

/// The packages that `name` is known to build on.
pub fn implied_targets(name: &String) -> (targets: Vec<String>)
    ensures
        texts_view(targets@) == implied(name@),
{
    let mut targets: Vec<String> = Vec::new();
    if *name == "pandas".to_owned() || *name == "scikit-learn".to_owned() || *name
        == "tensorflow".to_owned() {
        targets.push("numpy".to_owned());
    } else if *name == "transformers".to_owned() {
        targets.push("torch".to_owned());
        targets.push("tensorflow".to_owned());
    }
    assert(texts_view(targets@) =~= implied(name@));
    targets
}

} // verus!
