//! The dependency record, the registry of packages, and the mathematical
//! model of both.
use vstd::prelude::*;

verus! {

/// One declaration of a package in one manifest file.
#[derive(Debug)]
pub struct Dependency {
    /// The package's name.
    pub name: String,
    /// The version restriction as it was written.
    pub version_spec: String,
    /// The canonical text of the structured constraint that the restriction
    /// parses to, where it parses.
    pub version_req: Option<String>,
    /// The concrete version that was chosen; no parser fills it.
    pub resolved_version: Option<String>,
    /// The manifest file that holds the declaration.
    pub source_file: String,
}

/// What a `Dependency` stands for.
pub struct DependencyView {
    pub name: Seq<char>,
    pub version_spec: Seq<char>,
    pub version_req: Option<Seq<char>>,
    pub resolved_version: Option<Seq<char>>,
    pub source_file: Seq<char>,
}

/// The characters of an optional text.
pub open spec fn text_of(t: Option<String>) -> Option<Seq<char>> {
    match t {
        Some(s) => Some(s@),
        None => None,
    }
}

impl View for Dependency {
    type V = DependencyView;

    open spec fn view(&self) -> DependencyView {
        DependencyView {
            name: self.name@,
            version_spec: self.version_spec@,
            version_req: text_of(self.version_req),
            resolved_version: text_of(self.resolved_version),
            source_file: self.source_file@,
        }
    }
}

/// All the declarations of one package, in the order of their discovery.
#[derive(Debug)]
pub struct Package {
    /// The name that every record below carries.
    pub name: String,
    /// The declarations, oldest first.
    pub records: Vec<Dependency>,
}

/// What a `Package` stands for.
pub struct PackageView {
    pub name: Seq<char>,
    pub records: Seq<DependencyView>,
}

/// The views of a sequence of records.
pub open spec fn records_view(records: Seq<Dependency>) -> Seq<DependencyView> {
    Seq::new(records.len(), |i: int| records[i]@)
}

impl View for Package {
    type V = PackageView;

    open spec fn view(&self) -> PackageView {
        PackageView { name: self.name@, records: records_view(self.records@) }
    }
}

/// The views of a sequence of packages.
pub open spec fn packages_view(packages: Seq<Package>) -> Seq<PackageView> {
    Seq::new(packages.len(), |i: int| packages[i]@)
}

/// The names of a sequence of packages.
pub open spec fn names_of(packages: Seq<PackageView>) -> Seq<Seq<char>> {
    Seq::new(packages.len(), |i: int| packages[i].name)
}

/// The registry together with the edges of its graph. Package `i` of the
/// registry is node `i` of the graph; an edge is a pair (source, target) of
/// node indices.
pub struct AnalyzerView {
    pub packages: Seq<PackageView>,
    pub edges: Seq<(int, int)>,
}

/// The index of the first package at or after `from` that is called `name`,
/// or the number of packages when there is none.
pub open spec fn index_from(packages: Seq<PackageView>, name: Seq<char>, from: int) -> int
    decreases packages.len() - from,
{
    if 0 <= from < packages.len() && packages[from].name != name {
        index_from(packages, name, from + 1)
    } else {
        from
    }
}

/// The index of the package called `name`, or the number of packages when
/// the registry has no such package.
pub open spec fn index_of(packages: Seq<PackageView>, name: Seq<char>) -> int {
    index_from(packages, name, 0)
}

/// Whether the registry holds a package called `name`.
pub open spec fn has_package(packages: Seq<PackageView>, name: Seq<char>) -> bool {
    index_of(packages, name) < packages.len()
}

/// The well-known packages that `name` is known to build on, in the order in
/// which edges to them are attempted.
pub open spec fn implied(name: Seq<char>) -> Seq<Seq<char>> {
    if name == "pandas"@ {
        seq!["numpy"@]
    } else if name == "scikit-learn"@ {
        seq!["numpy"@]
    } else if name == "tensorflow"@ {
        seq!["numpy"@]
    } else if name == "transformers"@ {
        seq!["torch"@, "tensorflow"@]
    } else {
        Seq::empty()
    }
}

/// The edges from node `source` to those of the first `upto` targets that the
/// registry already holds.
pub open spec fn edges_upto(
    packages: Seq<PackageView>,
    source: int,
    targets: Seq<Seq<char>>,
    upto: int,
) -> Seq<(int, int)>
    decreases upto,
{
    if upto <= 0 || upto > targets.len() {
        Seq::empty()
    } else {
        let before = edges_upto(packages, source, targets, upto - 1);
        let target = index_of(packages, targets[upto - 1]);
        if target < packages.len() {
            before.push((source, target))
        } else {
            before
        }
    }
}

/// The edges that the first sighting of `name` adds to the graph: one to each
/// implied package that was sighted before. An implied package that is
/// sighted later gets no edge, then or afterwards: which edges a graph has
/// depends on the order in which the packages were sighted.
pub open spec fn new_edges(packages: Seq<PackageView>, name: Seq<char>) -> Seq<(int, int)> {
    edges_upto(packages, packages.len() as int, implied(name), implied(name).len() as int)
}

/// The registry and graph after one more record. A record of a known package
/// joins that package's records and leaves the graph alone. A record of a new
/// package opens a package, which is a new node, with edges to the implied
/// packages that are already there.
pub open spec fn add_record(a: AnalyzerView, record: DependencyView) -> AnalyzerView {
    let at = index_of(a.packages, record.name);
    if at < a.packages.len() {
        AnalyzerView {
            packages: a.packages.update(
                at,
                PackageView { name: a.packages[at].name, records: a.packages[at].records.push(record) },
            ),
            edges: a.edges,
        }
    } else {
        AnalyzerView {
            packages: a.packages.push(PackageView { name: record.name, records: seq![record] }),
            edges: a.edges + new_edges(a.packages, record.name),
        }
    }
}

/// The registry and graph after the first `upto` of `records`, added in order.
pub open spec fn add_records_upto(a: AnalyzerView, records: Seq<DependencyView>, upto: int) -> AnalyzerView
    decreases upto,
{
    if upto <= 0 || upto > records.len() {
        a
    } else {
        add_record(add_records_upto(a, records, upto - 1), records[upto - 1])
    }
}

/// The registry and graph after all of `records`, added in order.
pub open spec fn add_records(a: AnalyzerView, records: Seq<DependencyView>) -> AnalyzerView {
    add_records_upto(a, records, records.len() as int)
}

/// What holds of every registry and graph that the analyzer builds.
pub open spec fn well_formed(a: AnalyzerView) -> bool {
    &&& forall|i: int| 0 <= i < a.packages.len() ==> (#[trigger] a.packages[i]).records.len() > 0
    &&& forall|i: int, j: int|
        0 <= i < a.packages.len() && 0 <= j < a.packages[i].records.len() ==> (
        #[trigger] a.packages[i].records[j]).name == a.packages[i].name
    &&& forall|i: int, j: int|
        0 <= i < j < a.packages.len() ==> (#[trigger] a.packages[i]).name != (
        #[trigger] a.packages[j]).name
    &&& forall|e: int|
        0 <= e < a.edges.len() ==> edge_allowed(a.packages, (#[trigger] a.edges[e]).0, a.edges[e].1)
    &&& forall|s: int, t: int| #[trigger]
        edge_allowed(a.packages, s, t) ==> a.edges.contains((s, t))
}

/// Whether the graph is to hold an edge from node `source` to node `target`:
/// the target is implied by the source and was sighted before it.
pub open spec fn edge_allowed(packages: Seq<PackageView>, source: int, target: int) -> bool {
    &&& 0 <= target < source < packages.len()
    &&& implied(packages[source].name).contains(packages[target].name)
}

/// `index_from` stays inside the registry; it stops at a package called
/// `name`, and no package before it from `from` on is called so.
pub proof fn lemma_index_from(packages: Seq<PackageView>, name: Seq<char>, from: int)
    requires
        0 <= from <= packages.len(),
    ensures
        from <= index_from(packages, name, from) <= packages.len(),
        index_from(packages, name, from) < packages.len() ==> packages[index_from(
            packages,
            name,
            from,
        )].name == name,
        forall|i: int|
            from <= i < index_from(packages, name, from) ==> (#[trigger] packages[i]).name != name,
    decreases packages.len() - from,
{
    if from < packages.len() && packages[from].name != name {
        lemma_index_from(packages, name, from + 1);
    }
}

/// In a registry without repeated names, the index of a package's name is
/// the package's own index.
pub proof fn lemma_index_of_unique(packages: Seq<PackageView>, at: int)
    requires
        0 <= at < packages.len(),
        forall|i: int, j: int|
            0 <= i < j < packages.len() ==> (#[trigger] packages[i]).name != (
            #[trigger] packages[j]).name,
    ensures
        index_of(packages, packages[at].name) == at,
{
    lemma_index_from(packages, packages[at].name, 0);
}

} // verus!
