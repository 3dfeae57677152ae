//! Rendering of the registry and graph: a plain listing, and a diagram in the
//! DOT language with one cluster for each category of package.
use vstd::prelude::*;
use vstd::string::StringExecFns;
use crate::analyzer::DependencyAnalyzer;
use crate::error::AnalysisError;
use crate::graph::{graph_edge_count, graph_edge_endpoints, graph_node_count, graph_node_name};
use crate::knowledge::{
    find_entry, holds_text, is_flagged, is_known_pair, known_conflicts, ConflictEntryView,
};
use crate::model::{AnalyzerView, DependencyView, PackageView};
use crate::text::{chars_of, decimal, escape_quotes, is_named, push_decimal, push_escaped};

verus! {

/// The four clusters of a diagram.
#[derive(Clone, Copy, Debug, PartialEq, Eq, Structural)]
pub enum Category {
    MachineLearning,
    DataProcessing,
    Utilities,
    Other,
}

/// The category of the package called `name`, by exact match of the name.
pub open spec fn category_of(name: Seq<char>) -> Category {
    if name == "tensorflow"@ || name == "torch"@ || name == "jax"@ || name == "transformers"@
        || name == "scikit-learn"@ {
        Category::MachineLearning
    } else if name == "numpy"@ || name == "pandas"@ || name == "matplotlib"@ || name == "seaborn"@ {
        Category::DataProcessing
    } else if name == "tqdm"@ || name == "pillow"@ || name == "tokenizers"@ {
        Category::Utilities
    } else {
        Category::Other
    }
}

impl Category {
    /// The identifier of the category's cluster.
    pub open spec fn cluster_id(self) -> Seq<char> {
        match self {
            Category::MachineLearning => "cluster_ml"@,
            Category::DataProcessing => "cluster_data"@,
            Category::Utilities => "cluster_util"@,
            Category::Other => "cluster_other"@,
        }
    }

    /// The title of the category's cluster.
    pub open spec fn title(self) -> Seq<char> {
        match self {
            Category::MachineLearning => "Machine Learning"@,
            Category::DataProcessing => "Data Processing"@,
            Category::Utilities => "Utilities"@,
            Category::Other => "Other"@,
        }
    }
}

/// The colour of a node: red for a package with more than one record,
/// orange for one that the table of known conflicts has an entry about, dark
/// grey for the others.
pub open spec fn node_color(records: nat, flagged: bool) -> Seq<char> {
    if records > 1 {
        "#CC0000"@
    } else if flagged {
        "#FF6600"@
    } else {
        "#2D3436"@
    }
}

/// The label of a node: the package's name, followed on a second line by the
/// number of its records where there are several.
pub open spec fn node_label(name: Seq<char>, records: nat) -> Seq<char> {
    if records > 1 {
        name + "\n("@ + decimal(records) + " versions)"@
    } else {
        name
    }
}

/// The attribute list of a node.
pub open spec fn node_attributes(name: Seq<char>, records: nat, flagged: bool) -> Seq<char> {
    "color=\""@ + node_color(records, flagged) + "\", fontcolor=\""@ + node_color(records, flagged)
        + "\", style=\"rounded,filled\", fillcolor=\"white\", fontname=\"Arial\", fontsize=\"10\", margin=\"0.2\", height=\"0.4\", label=\""@
        + escape_quotes(node_label(name, records)) + "\""@
}

/// The line that declares node `index`.
pub open spec fn node_line(index: int, package: PackageView, table: Seq<ConflictEntryView>) -> Seq<char> {
    "        n"@ + decimal(index as nat) + " ["@ + node_attributes(
        package.name,
        package.records.len(),
        is_flagged(table, package.name),
    ) + "];\n"@
}

/// The lines of those of the first `upto` nodes that belong to `category`.
pub open spec fn cluster_lines_upto(
    packages: Seq<PackageView>,
    table: Seq<ConflictEntryView>,
    category: Category,
    upto: int,
) -> Seq<char>
    decreases upto,
{
    if upto <= 0 || upto > packages.len() {
        Seq::empty()
    } else if category_of(packages[upto - 1].name) == category {
        cluster_lines_upto(packages, table, category, upto - 1) + node_line(
            upto - 1,
            packages[upto - 1],
            table,
        )
    } else {
        cluster_lines_upto(packages, table, category, upto - 1)
    }
}

/// Whether one of the first `upto` packages belongs to `category`.
pub open spec fn occupied_upto(packages: Seq<PackageView>, category: Category, upto: int) -> bool {
    exists|i: int| 0 <= i < upto && i < packages.len() && category_of(#[trigger] packages[i].name) == category
}

/// The text that opens the cluster of `category`.
pub open spec fn cluster_head(category: Category) -> Seq<char> {
    "    subgraph "@ + category.cluster_id() + " {\n        label=\""@ + category.title()
        + "\";\n        style=rounded;\n        color=\"#E0E0E0\";\n        bgcolor=\"#F8F8F8\";\n\n"@
}

/// The cluster of `category`: nothing when no package belongs to it, else its
/// head, the lines of its nodes by node index, and its closing.
pub open spec fn cluster_text(
    packages: Seq<PackageView>,
    table: Seq<ConflictEntryView>,
    category: Category,
) -> Seq<char> {
    if occupied_upto(packages, category, packages.len() as int) {
        cluster_head(category) + cluster_lines_upto(
            packages,
            table,
            category,
            packages.len() as int,
        ) + "    }\n\n"@
    } else {
        Seq::empty()
    }
}

/// The style of an edge: dashed red where the table lists the target's name
/// under the source's name, plain grey elsewhere.
pub open spec fn edge_style(table: Seq<ConflictEntryView>, source: Seq<char>, target: Seq<char>) -> Seq<char> {
    if is_known_pair(table, source, target) {
        "color=\"#CC0000\", style=\"dashed\", penwidth=2.0, arrowsize=1.5"@
    } else {
        "color=\"#666666\", penwidth=1.0, arrowsize=1.0"@
    }
}

/// The line that declares an edge.
pub open spec fn edge_line(
    packages: Seq<PackageView>,
    table: Seq<ConflictEntryView>,
    edge: (int, int),
) -> Seq<char> {
    "    n"@ + decimal(edge.0 as nat) + " -> n"@ + decimal(edge.1 as nat) + " ["@ + edge_style(
        table,
        packages[edge.0].name,
        packages[edge.1].name,
    ) + "];\n"@
}

/// The lines of the first `upto` edges.
pub open spec fn edge_lines_upto(a: AnalyzerView, table: Seq<ConflictEntryView>, upto: int) -> Seq<char>
    decreases upto,
{
    if upto <= 0 || upto > a.edges.len() {
        Seq::empty()
    } else {
        edge_lines_upto(a, table, upto - 1) + edge_line(a.packages, table, a.edges[upto - 1])
    }
}

/// The text that opens a diagram.
pub open spec fn diagram_head() -> Seq<char> {
    "digraph dependencies {\n    rankdir=LR;\n    compound=true;\n    node [shape=box, style=rounded, fontname=\"Arial\"];\n    edge [color=\"#666666\", fontname=\"Arial\"];\n\n"@
}

/// The diagram: the head, the four clusters, the edges by edge index, and
/// the closing brace.
pub open spec fn diagram(a: AnalyzerView, table: Seq<ConflictEntryView>) -> Seq<char> {
    diagram_head() + cluster_text(a.packages, table, Category::MachineLearning) + cluster_text(
        a.packages,
        table,
        Category::DataProcessing,
    ) + cluster_text(a.packages, table, Category::Utilities) + cluster_text(
        a.packages,
        table,
        Category::Other,
    ) + edge_lines_upto(a, table, a.edges.len() as int) + "}\n"@
}

/// The line of the listing for one record.
pub open spec fn record_line(name: Seq<char>, record: DependencyView) -> Seq<char> {
    name + " ("@ + record.version_spec + ") [from "@ + record.source_file + "]\n"@
}

/// The lines of the first `upto` records of a package.
pub open spec fn record_lines_upto(package: PackageView, upto: int) -> Seq<char>
    decreases upto,
{
    if upto <= 0 || upto > package.records.len() {
        Seq::empty()
    } else {
        record_lines_upto(package, upto - 1) + record_line(package.name, package.records[upto - 1])
    }
}

/// The lines of the first `upto` packages.
pub open spec fn listing_upto(packages: Seq<PackageView>, upto: int) -> Seq<char>
    decreases upto,
{
    if upto <= 0 || upto > packages.len() {
        Seq::empty()
    } else {
        listing_upto(packages, upto - 1) + record_lines_upto(
            packages[upto - 1],
            packages[upto - 1].records.len() as int,
        )
    }
}

/// The listing: one line for each record, package by package in the
/// registry's order, and within a package in the order of discovery.
pub open spec fn listing(packages: Seq<PackageView>) -> Seq<char> {
    listing_upto(packages, packages.len() as int)
}

/// What a rendering in `format` gives: the diagram for `dot` and `png`, the
/// listing for `text`, and nothing for any other format.
pub open spec fn rendering(a: AnalyzerView, table: Seq<ConflictEntryView>, format: Seq<char>) -> Option<
    Seq<char>,
> {
    if format == "dot"@ || format == "png"@ {
        Some(diagram(a, table))
    } else if format == "text"@ {
        Some(listing(a.packages))
    } else {
        None
    }
}

/// Sorts a package into its category.
pub fn categorize(name: &String) -> (category: Category)
    ensures
        category == category_of(name@),
{
    if is_named(name, "tensorflow") || is_named(name, "torch") || is_named(name, "jax") || is_named(
        name,
        "transformers",
    ) || is_named(name, "scikit-learn") {
        Category::MachineLearning
    } else if is_named(name, "numpy") || is_named(name, "pandas") || is_named(name, "matplotlib")
        || is_named(name, "seaborn") {
        Category::DataProcessing
    } else if is_named(name, "tqdm") || is_named(name, "pillow") || is_named(name, "tokenizers") {
        Category::Utilities
    } else {
        Category::Other
    }
}

/// The identifier of a category's cluster.
pub fn cluster_id_of(category: Category) -> (id: &'static str)
    ensures
        id@ == category.cluster_id(),
{
    match category {
        Category::MachineLearning => "cluster_ml",
        Category::DataProcessing => "cluster_data",
        Category::Utilities => "cluster_util",
        Category::Other => "cluster_other",
    }
}

/// The title of a category's cluster.
pub fn title_of(category: Category) -> (title: &'static str)
    ensures
        title@ == category.title(),
{
    match category {
        Category::MachineLearning => "Machine Learning",
        Category::DataProcessing => "Data Processing",
        Category::Utilities => "Utilities",
        Category::Other => "Other",
    }
}

/// Appends the attribute list of a node to `out`.
pub fn push_node_attributes(out: &mut String, name: &String, records: usize, flagged: bool)
    ensures
        final(out)@ == old(out)@ + node_attributes(name@, records as nat, flagged),
{
    let color: &str = if records > 1 {
        "#CC0000"
    } else if flagged {
        "#FF6600"
    } else {
        "#2D3436"
    };
    let mut label: String = name.clone();
    if records > 1 {
        label.append("\n(");
        push_decimal(&mut label, records);
        label.append(" versions)");
    }
    assert(label@ == node_label(name@, records as nat));
    let label_chars = chars_of(label.as_str());
    let mut attributes = String::from_str("color=\"");
    attributes.append(color);
    attributes.append("\", fontcolor=\"");
    attributes.append(color);
    attributes.append(
        "\", style=\"rounded,filled\", fillcolor=\"white\", fontname=\"Arial\", fontsize=\"10\", margin=\"0.2\", height=\"0.4\", label=\"",
    );
    push_escaped(&mut attributes, &label_chars);
    attributes.append("\"");
    assert(attributes@ == node_attributes(name@, records as nat, flagged));
    out.append(attributes.as_str());
}

impl DependencyAnalyzer {
    /// Tests whether the table of known conflicts has an entry about `name`.
    pub fn is_flagged_name(&self, name: &String) -> (r: bool)
        requires
            self.wf(),
        ensures
            r == is_flagged(known_conflicts(), name@),
    {
        find_entry(&self.known_conflicts, name) < self.known_conflicts.len()
    }

    /// Tests whether the table's entry about `package` lists `other`.
    pub fn is_known_pair_of(&self, package: &String, other: &String) -> (r: bool)
        requires
            self.wf(),
        ensures
            r == is_known_pair(known_conflicts(), package@, other@),
    {
        let at = find_entry(&self.known_conflicts, package);
        if at < self.known_conflicts.len() {
            holds_text(&self.known_conflicts[at].incompatible, other)
        } else {
            false
        }
    }

    /// Appends the cluster of `category` to `out`.
    fn push_cluster(&self, out: &mut String, category: Category)
        requires
            self.wf(),
        ensures
            final(out)@ == old(out)@ + cluster_text(self@.packages, known_conflicts(), category),
    {
        let ghost packages = self@.packages;
        let ghost table = known_conflicts();
        let count = graph_node_count(&self.graph);
        let mut lines = String::new();
        let mut occupied = false;
        let mut i: usize = 0;
        while i < count
            invariant
                self.wf(),
                packages == self@.packages,
                table == known_conflicts(),
                count == packages.len(),
                i <= count,
                occupied == occupied_upto(packages, category, i as int),
                lines@ == cluster_lines_upto(packages, table, category, i as int),
            decreases count - i,
        {
            let name = graph_node_name(&self.graph, i);
            assert(name@ == packages[i as int].name);
            if categorize(name) == category {
                let ghost before = lines@;
                lines.append("        n");
                push_decimal(&mut lines, i);
                lines.append(" [");
                push_node_attributes(
                    &mut lines,
                    name,
                    self.dependencies[i].records.len(),
                    self.is_flagged_name(name),
                );
                lines.append("];\n");
                assert(packages[i as int].records.len() == self.dependencies@[i as int].records@.len());
                assert(lines@ == before + node_line(i as int, packages[i as int], table));
                occupied = true;
            } else {
                assert forall|j: int|
                    0 <= j < i + 1 && j < packages.len() && category_of(
                        #[trigger] packages[j].name,
                    ) == category implies j < i by {}
            }
            i = i + 1;
        }
        if occupied {
            let mut cluster = String::from_str("    subgraph ");
            cluster.append(cluster_id_of(category));
            cluster.append(" {\n        label=\"");
            cluster.append(title_of(category));
            cluster.append(
                "\";\n        style=rounded;\n        color=\"#E0E0E0\";\n        bgcolor=\"#F8F8F8\";\n\n",
            );
            cluster.append(lines.as_str());
            cluster.append("    }\n\n");
            out.append(cluster.as_str());
        } else {
            assert(out@ =~= old(out)@ + Seq::<char>::empty());
        }
    }

    /// Appends the lines of the edges to `out`.
    fn push_edges(&self, out: &mut String)
        requires
            self.wf(),
        ensures
            final(out)@ == old(out)@ + edge_lines_upto(
                self@,
                known_conflicts(),
                self@.edges.len() as int,
            ),
    {
        let ghost table = known_conflicts();
        let count = graph_edge_count(&self.graph);
        let mut lines = String::new();
        let mut e: usize = 0;
        while e < count
            invariant
                self.wf(),
                table == known_conflicts(),
                count == self@.edges.len(),
                e <= count,
                lines@ == edge_lines_upto(self@, table, e as int),
            decreases count - e,
        {
            match graph_edge_endpoints(&self.graph, e) {
                Some((source, target)) => {
                    assert(self@.edges[e as int] == (source as int, target as int));
                    assert(crate::model::edge_allowed(
                        self@.packages,
                        self@.edges[e as int].0,
                        self@.edges[e as int].1,
                    ));
                    let source_name = graph_node_name(&self.graph, source);
                    let target_name = graph_node_name(&self.graph, target);
                    let style: &str = if self.is_known_pair_of(source_name, target_name) {
                        "color=\"#CC0000\", style=\"dashed\", penwidth=2.0, arrowsize=1.5"
                    } else {
                        "color=\"#666666\", penwidth=1.0, arrowsize=1.0"
                    };
                    let ghost before = lines@;
                    lines.append("    n");
                    push_decimal(&mut lines, source);
                    lines.append(" -> n");
                    push_decimal(&mut lines, target);
                    lines.append(" [");
                    lines.append(style);
                    lines.append("];\n");
                    assert(lines@ == before + edge_line(self@.packages, table, self@.edges[e as int]));
                },
                None => {
                    assert(false);
                },
            }
            e = e + 1;
        }
        out.append(lines.as_str());
    }

    /// The diagram of the registry and graph.
    pub fn render_diagram(&self) -> (out: String)
        requires
            self.wf(),
        ensures
            out@ == diagram(self@, known_conflicts()),
    {
        let mut out = String::from_str(
            "digraph dependencies {\n    rankdir=LR;\n    compound=true;\n    node [shape=box, style=rounded, fontname=\"Arial\"];\n    edge [color=\"#666666\", fontname=\"Arial\"];\n\n",
        );
        self.push_cluster(&mut out, Category::MachineLearning);
        self.push_cluster(&mut out, Category::DataProcessing);
        self.push_cluster(&mut out, Category::Utilities);
        self.push_cluster(&mut out, Category::Other);
        self.push_edges(&mut out);
        out.append("}\n");
        out
    }

    /// The listing of the registry.
    pub fn render_listing(&self) -> (out: String)
        ensures
            out@ == listing(self@.packages),
    {
        let ghost packages = self@.packages;
        let mut out = String::new();
        let mut i: usize = 0;
        while i < self.dependencies.len()
            invariant
                packages == self@.packages,
                i <= self.dependencies@.len(),
                out@ == listing_upto(packages, i as int),
            decreases self.dependencies@.len() - i,
        {
            let package = &self.dependencies[i];
            let ghost before = out@;
            let mut lines = String::new();
            let mut j: usize = 0;
            while j < package.records.len()
                invariant
                    package@ == packages[i as int],
                    j <= package.records@.len(),
                    lines@ == record_lines_upto(package@, j as int),
                decreases package.records@.len() - j,
            {
                let record = &package.records[j];
                let ghost so_far = lines@;
                lines.append(package.name.as_str());
                lines.append(" (");
                lines.append(record.version_spec.as_str());
                lines.append(") [from ");
                lines.append(record.source_file.as_str());
                lines.append("]\n");
                assert(package@.records[j as int] == record@);
                assert(lines@ =~= so_far + record_line(package@.name, package@.records[j as int]));
                j = j + 1;
            }
            out.append(lines.as_str());
            i = i + 1;
        }
        out
    }

    /// Renders the registry and graph: the diagram for the formats `dot` and
    /// `png`, the listing for `text`. Any other format is refused.
    pub fn generate_graph(&self, format: &str) -> (r: Result<String, AnalysisError>)
        requires
            self.wf(),
        ensures
            match rendering(self@, known_conflicts(), format@) {
                Some(text) => r matches Ok(out) && out@ == text,
                None => r == Err::<String, AnalysisError>(AnalysisError::UnsupportedFormat),
            },
    {
        let wanted = format.to_owned();
        if is_named(&wanted, "dot") || is_named(&wanted, "png") {
            Ok(self.render_diagram())
        } else if is_named(&wanted, "text") {
            Ok(self.render_listing())
        } else {
            Err(AnalysisError::UnsupportedFormat)
        }
    }
}

} // verus!
