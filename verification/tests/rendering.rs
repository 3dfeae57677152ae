use py_dep_analyzer::analyzer::DependencyAnalyzer;
use py_dep_analyzer::error::AnalysisError;
use py_dep_analyzer::model::Dependency;
use py_dep_analyzer::render::{categorize, Category};
use py_dep_analyzer::version::parse_version_spec;

const HEAD: &str = "digraph dependencies {\n    rankdir=LR;\n    compound=true;\n    node [shape=box, style=rounded, fontname=\"Arial\"];\n    edge [color=\"#666666\", fontname=\"Arial\"];\n\n";

fn record(name: &str, spec: &str, file: &str) -> Dependency {
    Dependency {
        name: name.to_string(),
        version_spec: spec.to_string(),
        version_req: parse_version_spec(spec),
        resolved_version: None,
        source_file: file.to_string(),
    }
}

fn analyzer_of(records: &[(&str, &str, &str)]) -> DependencyAnalyzer {
    let mut analyzer = DependencyAnalyzer::new();
    for (name, spec, file) in records {
        analyzer.add_dependency(record(name, spec, file));
    }
    analyzer
}

fn cluster_head(id: &str, title: &str) -> String {
    format!(
        "    subgraph {} {{\n        label=\"{}\";\n        style=rounded;\n        color=\"#E0E0E0\";\n        bgcolor=\"#F8F8F8\";\n\n",
        id, title
    )
}

fn node(index: usize, color: &str, label: &str) -> String {
    format!(
        "        n{} [color=\"{}\", fontcolor=\"{}\", style=\"rounded,filled\", fillcolor=\"white\", fontname=\"Arial\", fontsize=\"10\", margin=\"0.2\", height=\"0.4\", label=\"{}\"];\n",
        index, color, color, label
    )
}

#[test]
fn listing_has_one_line_for_each_record() {
    let analyzer = analyzer_of(&[
        ("numpy", "numpy>=1.0", "a/requirements.txt"),
        ("pandas", "*", "Pipfile"),
        ("numpy", "numpy<2.0", "b/setup.py"),
    ]);
    assert_eq!(
        analyzer.generate_graph("text"),
        Ok("numpy (numpy>=1.0) [from a/requirements.txt]\nnumpy (numpy<2.0) [from b/setup.py]\npandas (*) [from Pipfile]\n".to_string())
    );
    assert_eq!(analyzer.render_listing(), analyzer.generate_graph("text").unwrap());
}

#[test]
fn listing_of_nothing_is_empty() {
    let analyzer = DependencyAnalyzer::new();
    assert_eq!(analyzer.generate_graph("text"), Ok(String::new()));
}

#[test]
fn unknown_format_is_refused() {
    let analyzer = analyzer_of(&[("numpy", "numpy", "a")]);
    assert_eq!(analyzer.generate_graph("svg"), Err(AnalysisError::UnsupportedFormat));
    assert_eq!(analyzer.generate_graph(""), Err(AnalysisError::UnsupportedFormat));
    assert_eq!(analyzer.generate_graph("DOT"), Err(AnalysisError::UnsupportedFormat));
    assert_eq!(AnalysisError::UnsupportedFormat.message(), "Unsupported output format");
}

#[test]
fn diagram_of_nothing_has_head_and_closing_only() {
    let analyzer = DependencyAnalyzer::new();
    assert_eq!(analyzer.generate_graph("dot"), Ok(format!("{}}}\n", HEAD)));
}

#[test]
fn png_gives_the_same_diagram_as_dot() {
    let analyzer = analyzer_of(&[("numpy", "numpy", "a"), ("pandas", "pandas", "a")]);
    assert_eq!(analyzer.generate_graph("png"), analyzer.generate_graph("dot"));
    assert_eq!(analyzer.generate_graph("dot").unwrap(), analyzer.render_diagram());
}

#[test]
fn diagram_marks_conflicted_and_flagged_packages() {
    let analyzer = analyzer_of(&[
        ("numpy", "numpy>=1.0", "a"),
        ("pandas", "pandas", "a"),
        ("requests", "requests>=2.0", "a"),
        ("we\"ird", "*", "Pipfile"),
        ("requests", "requests<3.0", "b"),
    ]);
    let mut expected = String::from(HEAD);
    expected.push_str(&cluster_head("cluster_data", "Data Processing"));
    expected.push_str(&node(0, "#FF6600", "numpy"));
    expected.push_str(&node(1, "#2D3436", "pandas"));
    expected.push_str("    }\n\n");
    expected.push_str(&cluster_head("cluster_other", "Other"));
    expected.push_str(&node(2, "#CC0000", "requests\n(2 versions)"));
    expected.push_str(&node(3, "#2D3436", "we\\\"ird"));
    expected.push_str("    }\n\n");
    expected.push_str("    n1 -> n0 [color=\"#666666\", penwidth=1.0, arrowsize=1.0];\n");
    expected.push_str("}\n");
    assert_eq!(analyzer.generate_graph("dot"), Ok(expected));
}

#[test]
fn a_conflicted_flagged_package_is_red() {
    let analyzer = analyzer_of(&[("torch", "torch", "a"), ("torch", "torch>1.0", "b")]);
    let mut expected = String::from(HEAD);
    expected.push_str(&cluster_head("cluster_ml", "Machine Learning"));
    expected.push_str(&node(0, "#CC0000", "torch\n(2 versions)"));
    expected.push_str("    }\n\n");
    expected.push_str("}\n");
    assert_eq!(analyzer.generate_graph("dot"), Ok(expected));
}

#[test]
fn diagram_has_all_four_clusters_in_order() {
    let analyzer = analyzer_of(&[
        ("flask", "flask", "a"),
        ("tqdm", "tqdm", "a"),
        ("torch", "torch", "a"),
        ("seaborn", "seaborn", "a"),
        ("tensorflow", "tensorflow", "a"),
        ("transformers", "transformers", "a"),
        ("pillow", "pillow", "a"),
        ("jax", "jax", "a"),
        ("matplotlib", "matplotlib", "a"),
        ("tokenizers", "tokenizers", "a"),
        ("scikit-learn", "scikit-learn", "a"),
    ]);
    let mut expected = String::from(HEAD);
    expected.push_str(&cluster_head("cluster_ml", "Machine Learning"));
    expected.push_str(&node(2, "#FF6600", "torch"));
    expected.push_str(&node(4, "#FF6600", "tensorflow"));
    expected.push_str(&node(5, "#2D3436", "transformers"));
    expected.push_str(&node(7, "#2D3436", "jax"));
    expected.push_str(&node(10, "#2D3436", "scikit-learn"));
    expected.push_str("    }\n\n");
    expected.push_str(&cluster_head("cluster_data", "Data Processing"));
    expected.push_str(&node(3, "#2D3436", "seaborn"));
    expected.push_str(&node(8, "#2D3436", "matplotlib"));
    expected.push_str("    }\n\n");
    expected.push_str(&cluster_head("cluster_util", "Utilities"));
    expected.push_str(&node(1, "#2D3436", "tqdm"));
    expected.push_str(&node(6, "#2D3436", "pillow"));
    expected.push_str(&node(9, "#2D3436", "tokenizers"));
    expected.push_str("    }\n\n");
    expected.push_str(&cluster_head("cluster_other", "Other"));
    expected.push_str(&node(0, "#2D3436", "flask"));
    expected.push_str("    }\n\n");
    expected.push_str("    n5 -> n2 [color=\"#666666\", penwidth=1.0, arrowsize=1.0];\n");
    expected.push_str("    n5 -> n4 [color=\"#666666\", penwidth=1.0, arrowsize=1.0];\n");
    expected.push_str("}\n");
    assert_eq!(analyzer.generate_graph("dot"), Ok(expected));
}

#[test]
fn packages_are_sorted_by_exact_name() {
    for name in ["tensorflow", "torch", "jax", "transformers", "scikit-learn"] {
        assert_eq!(categorize(&name.to_string()), Category::MachineLearning);
    }
    for name in ["numpy", "pandas", "matplotlib", "seaborn"] {
        assert_eq!(categorize(&name.to_string()), Category::DataProcessing);
    }
    for name in ["tqdm", "pillow", "tokenizers"] {
        assert_eq!(categorize(&name.to_string()), Category::Utilities);
    }
    for name in ["Numpy", "numpy ", "requests", "", "torchvision"] {
        assert_eq!(categorize(&name.to_string()), Category::Other);
    }
}

#[test]
fn known_pairs_and_flags_go_by_the_table() {
    let analyzer = DependencyAnalyzer::new();
    assert!(analyzer.is_flagged_name(&"tensorflow".to_string()));
    assert!(analyzer.is_flagged_name(&"torch".to_string()));
    assert!(analyzer.is_flagged_name(&"numpy".to_string()));
    assert!(!analyzer.is_flagged_name(&"jax".to_string()));
    assert!(!analyzer.is_flagged_name(&"pandas".to_string()));
    assert!(analyzer.is_known_pair_of(&"tensorflow".to_string(), &"torch".to_string()));
    assert!(analyzer.is_known_pair_of(&"torch".to_string(), &"jax".to_string()));
    assert!(analyzer.is_known_pair_of(&"numpy".to_string(), &"pandas<1.0.0".to_string()));
    assert!(!analyzer.is_known_pair_of(&"numpy".to_string(), &"pandas".to_string()));
    assert!(!analyzer.is_known_pair_of(&"jax".to_string(), &"torch".to_string()));
}

#[test]
fn rendering_leaves_the_analyzer_as_it_was() {
    let analyzer = analyzer_of(&[("numpy", "numpy", "a"), ("pandas", "pandas", "a"), ("numpy", "numpy", "b")]);
    let before = analyzer.generate_graph("text").unwrap();
    let _ = analyzer.generate_graph("dot").unwrap();
    let _ = analyzer.check_conflicts();
    assert_eq!(analyzer.generate_graph("text").unwrap(), before);
    assert_eq!(analyzer.edges(), vec![(1, 0)]);
    assert_eq!(analyzer.package_count(), 2);
}
