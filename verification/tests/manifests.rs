use py_dep_analyzer::analyzer::DependencyAnalyzer;
use py_dep_analyzer::documents::TableEntry;
use py_dep_analyzer::error::AnalysisError;
use py_dep_analyzer::manifest::{
    balanced_end_of, extract_records, list_inside_of, manifest_kind, Layout, ManifestKind,
};
use py_dep_analyzer::text::chars_of;
use py_dep_analyzer::scan::ProjectFile;
use py_dep_analyzer::version::parse_version_spec;

fn toml_refusal(text: &str) -> String {
    toml::from_str::<toml::Value>(text).unwrap_err().to_string()
}

fn names(analyzer: &DependencyAnalyzer) -> Vec<String> {
    analyzer.dependencies().iter().map(|package| package.name.clone()).collect()
}

fn specs(analyzer: &DependencyAnalyzer, name: &str) -> Vec<String> {
    match analyzer.package(name) {
        Some(package) => package.records.iter().map(|record| record.version_spec.clone()).collect(),
        None => Vec::new(),
    }
}

#[test]
fn requirements_lines_become_records() {
    let mut analyzer = DependencyAnalyzer::new();
    let content = "# pinned for production\nnumpy>=1.19.2\n\n  pandas==1.3.0  \nrequests\nflask~=2.0\n";
    assert_eq!(analyzer.parse_requirements(content, "proj/requirements.txt"), Ok(()));
    assert_eq!(names(&analyzer), vec!["numpy", "pandas", "requests", "flask"]);
    assert_eq!(specs(&analyzer, "numpy"), vec!["numpy>=1.19.2"]);
    assert_eq!(specs(&analyzer, "pandas"), vec!["pandas==1.3.0"]);
    assert_eq!(specs(&analyzer, "requests"), vec!["requests"]);
    assert_eq!(specs(&analyzer, "flask"), vec!["flask~=2.0"]);
    for package in analyzer.dependencies().iter() {
        for record in package.records.iter() {
            assert_eq!(record.name, package.name);
            assert_eq!(record.source_file, "proj/requirements.txt");
            assert_eq!(record.resolved_version, None);
            assert_eq!(record.version_req, None);
        }
    }
}

#[test]
fn requirements_with_carriage_returns() {
    let mut analyzer = DependencyAnalyzer::new();
    assert_eq!(analyzer.parse_requirements("numpy>=1.0\r\npandas\r\n", "r.txt"), Ok(()));
    assert_eq!(names(&analyzer), vec!["numpy", "pandas"]);
    assert_eq!(specs(&analyzer, "numpy"), vec!["numpy>=1.0"]);
}

#[test]
fn requirements_without_final_newline() {
    let mut analyzer = DependencyAnalyzer::new();
    assert_eq!(analyzer.parse_requirements("numpy\npandas", "r.txt"), Ok(()));
    assert_eq!(names(&analyzer), vec!["numpy", "pandas"]);
}

#[test]
fn empty_requirements_declare_nothing() {
    let mut analyzer = DependencyAnalyzer::new();
    assert_eq!(analyzer.parse_requirements("", "r.txt"), Ok(()));
    assert_eq!(analyzer.parse_requirements("\n\n   \n# only a comment\n", "r.txt"), Ok(()));
    assert_eq!(analyzer.package_count(), 0);
}

#[test]
fn indented_comment_is_a_comment() {
    let mut analyzer = DependencyAnalyzer::new();
    assert_eq!(analyzer.parse_requirements("   # note\nnumpy\n", "r.txt"), Ok(()));
    assert_eq!(names(&analyzer), vec!["numpy"]);
}

#[test]
fn name_ends_at_first_delimiter() {
    for (line, name) in [
        ("scikit-learn != 1.0", "scikit-learn"),
        ("numpy<1.19.2", "numpy"),
        ("torch>1.0", "torch"),
        ("flask~=2.0", "flask"),
        ("pandas==1.3.0", "pandas"),
        ("requests", "requests"),
        ("==1.0", ""),
    ] {
        let records = extract_records(Layout::Lines, line, "r.txt");
        assert_eq!(records.len(), 1);
        assert_eq!(records[0].name, name);
        assert_eq!(records[0].version_spec, line);
    }
}

#[test]
fn every_line_gives_one_record() {
    let mut analyzer = DependencyAnalyzer::new();
    let content = "numpy>=1.0\nnumpy<2.0\npandas\nnumpy\n";
    assert_eq!(analyzer.parse_requirements(content, "a.txt"), Ok(()));
    assert_eq!(analyzer.parse_requirements("pandas==1.0\n", "b.txt"), Ok(()));
    let total: usize = analyzer.dependencies().iter().map(|package| package.records.len()).sum();
    assert_eq!(total, 5);
    assert_eq!(specs(&analyzer, "numpy"), vec!["numpy>=1.0", "numpy<2.0", "numpy"]);
    assert_eq!(specs(&analyzer, "pandas"), vec!["pandas", "pandas==1.0"]);
    let pandas = analyzer.package("pandas").unwrap();
    assert_eq!(pandas.records[0].source_file, "a.txt");
    assert_eq!(pandas.records[1].source_file, "b.txt");
}

#[test]
fn order_of_manifests_does_not_change_the_contents() {
    let mut forward = DependencyAnalyzer::new();
    forward.parse_requirements("numpy>=1.0\npandas\n", "a.txt").unwrap();
    forward.parse_requirements("numpy<2.0\n", "b.txt").unwrap();
    let mut backward = DependencyAnalyzer::new();
    backward.parse_requirements("numpy<2.0\n", "b.txt").unwrap();
    backward.parse_requirements("numpy>=1.0\npandas\n", "a.txt").unwrap();
    let mut first: Vec<(String, String, String)> = Vec::new();
    for package in forward.dependencies().iter() {
        for record in package.records.iter() {
            first.push((record.name.clone(), record.version_spec.clone(), record.source_file.clone()));
        }
    }
    let mut second: Vec<(String, String, String)> = Vec::new();
    for package in backward.dependencies().iter() {
        for record in package.records.iter() {
            second.push((record.name.clone(), record.version_spec.clone(), record.source_file.clone()));
        }
    }
    first.sort();
    second.sort();
    assert_eq!(first, second);
    assert_eq!(first.len(), 3);
}

#[test]
fn version_spec_is_rewritten_and_parsed() {
    assert_eq!(parse_version_spec("==1.2.3"), Some("=1.2.3".to_string()));
    assert_eq!(parse_version_spec("~=1.2"), Some("~1.2".to_string()));
    assert_eq!(parse_version_spec(">=1.0"), Some(">=1.0".to_string()));
    assert_eq!(parse_version_spec("<=2.1.0"), Some("<=2.1.0".to_string()));
    assert_eq!(parse_version_spec("1.2.3"), Some("^1.2.3".to_string()));
    assert_eq!(parse_version_spec("*"), Some("*".to_string()));
    assert_eq!(parse_version_spec(">=1.0, <2.0"), Some(">=1.0, <2.0".to_string()));
    assert_eq!(parse_version_spec("numpy>=1.0"), None);
    assert_eq!(parse_version_spec(""), None);
    assert_eq!(parse_version_spec("!=1.0"), None);
    let analyzer = DependencyAnalyzer::new();
    assert_eq!(analyzer.parse_version_spec("==0.9.1"), Some("=0.9.1".to_string()));
}

#[test]
fn setup_script_list_is_read() {
    let content = "from setuptools import setup\n\nsetup(\n    name=\"demo\",\n    install_requires=[\n        'numpy>=1.19.2',\n        \"pandas\",\n        'requests==2.25.1',\n    ],\n)\n";
    let mut analyzer = DependencyAnalyzer::new();
    assert_eq!(analyzer.parse_setup_py(content, "setup.py"), Ok(()));
    assert_eq!(names(&analyzer), vec!["numpy", "pandas", "requests"]);
    assert_eq!(specs(&analyzer, "numpy"), vec!["numpy>=1.19.2"]);
    assert_eq!(specs(&analyzer, "pandas"), vec!["pandas"]);
    assert_eq!(specs(&analyzer, "requests"), vec!["requests==2.25.1"]);
    assert_eq!(analyzer.package("numpy").unwrap().records[0].source_file, "setup.py");
}

#[test]
fn setup_list_runs_to_its_balancing_bracket() {
    let mut analyzer = DependencyAnalyzer::new();
    let content = "setup(install_requires=[\"requests[security]>=2.0\", \"numpy\"])";
    assert_eq!(analyzer.parse_setup_py(content, "setup.py"), Ok(()));
    assert_eq!(names(&analyzer), vec!["requests[security]", "numpy"]);
    assert_eq!(specs(&analyzer, "requests[security]"), vec!["requests[security]>=2.0"]);
    assert_eq!(specs(&analyzer, "numpy"), vec!["numpy"]);
    assert_eq!(analyzer.package("numpy").unwrap().records[0].source_file, "setup.py");
}

#[test]
fn setup_list_with_nested_brackets_and_a_later_list() {
    let mut analyzer = DependencyAnalyzer::new();
    let content = "install_requires = [\n  'a[x][y]==1.0',\n  'b[[z]]',\n]\nextras = ['c']\n";
    assert_eq!(analyzer.parse_setup_py(content, "setup.py"), Ok(()));
    assert_eq!(names(&analyzer), vec!["a[x][y]", "b[[z]]"]);
    assert_eq!(specs(&analyzer, "a[x][y]"), vec!["a[x][y]==1.0"]);
}

#[test]
fn setup_list_without_balancing_bracket_declares_nothing() {
    let mut analyzer = DependencyAnalyzer::new();
    assert_eq!(analyzer.parse_setup_py("install_requires=['a', 'b[x]'", "setup.py"), Ok(()));
    assert_eq!(analyzer.parse_setup_py("install_requires=[", "setup.py"), Ok(()));
    assert_eq!(analyzer.parse_setup_py("install_requires=[['a']", "setup.py"), Ok(()));
    analyzer.add_setup_list("'a', 'b'", "setup.py");
    assert_eq!(analyzer.package_count(), 0);
    analyzer.add_setup_list("'a', 'b'] + more]", "setup.py");
    assert_eq!(names(&analyzer), vec!["a", "b"]);
}

#[test]
fn balancing_bracket_is_found_by_depth() {
    assert_eq!(balanced_end_of(&chars_of("a]")), 1);
    assert_eq!(balanced_end_of(&chars_of("]")), 0);
    assert_eq!(balanced_end_of(&chars_of("")), 0);
    assert_eq!(balanced_end_of(&chars_of("abc")), 3);
    assert_eq!(balanced_end_of(&chars_of("[a]")), 3);
    assert_eq!(balanced_end_of(&chars_of("[a]]")), 3);
    assert_eq!(balanced_end_of(&chars_of("[[]]x]y]")), 5);
    assert_eq!(balanced_end_of(&chars_of("a[b")), 3);
    assert_eq!(balanced_end_of(&chars_of("a[")), 2);
    assert_eq!(list_inside_of("'a[b]', 'c'] tail ]"), Some("'a[b]', 'c'".to_string()));
    assert_eq!(list_inside_of("]"), Some(String::new()));
    assert_eq!(list_inside_of("abc"), None);
    assert_eq!(list_inside_of("[]"), None);
    assert_eq!(list_inside_of(""), None);
}

#[test]
fn setup_script_takes_the_first_list_only() {
    let content = "install_requires = ['a']\ninstall_requires = ['b']\n";
    let mut analyzer = DependencyAnalyzer::new();
    assert_eq!(analyzer.parse_setup_py(content, "setup.py"), Ok(()));
    assert_eq!(names(&analyzer), vec!["a"]);
}

#[test]
fn setup_script_without_list_declares_nothing() {
    let mut analyzer = DependencyAnalyzer::new();
    assert_eq!(analyzer.parse_setup_py("from setuptools import setup\nsetup(name='x')\n", "setup.py"), Ok(()));
    assert_eq!(analyzer.parse_setup_py("install_requires = []", "setup.py"), Ok(()));
    assert_eq!(analyzer.package_count(), 0);
}

#[test]
fn setup_list_entries_lose_their_quotes() {
    let mut analyzer = DependencyAnalyzer::new();
    analyzer.add_setup_requirements(" 'a>=1' ,\"b\", , ''  ,c==2 ", "setup.py");
    assert_eq!(names(&analyzer), vec!["a", "b", "c"]);
    assert_eq!(specs(&analyzer, "a"), vec!["a>=1"]);
    assert_eq!(specs(&analyzer, "c"), vec!["c==2"]);
}

#[test]
fn pipfile_packages_are_read() {
    let content = "[[source]]\nurl = \"https://pypi.org/simple\"\n\n[packages]\nrequests = \"*\"\nnumpy = \">=1.19.2\"\nflask = {version = \"==2.0.1\"}\n\n[dev-packages]\npytest = \"*\"\n";
    let mut analyzer = DependencyAnalyzer::new();
    assert_eq!(analyzer.parse_pipfile(content, "Pipfile"), Ok(()));
    assert_eq!(names(&analyzer), vec!["flask", "numpy", "requests"]);
    assert_eq!(specs(&analyzer, "flask"), vec!["*"]);
    assert_eq!(specs(&analyzer, "numpy"), vec![">=1.19.2"]);
    assert_eq!(specs(&analyzer, "requests"), vec!["*"]);
    assert_eq!(analyzer.package("numpy").unwrap().records[0].version_req, Some(">=1.19.2".to_string()));
    assert_eq!(analyzer.package("flask").unwrap().records[0].version_req, Some("*".to_string()));
    assert_eq!(analyzer.package("flask").unwrap().records[0].source_file, "Pipfile");
}

#[test]
fn pipfile_without_packages_declares_nothing() {
    let mut analyzer = DependencyAnalyzer::new();
    assert_eq!(analyzer.parse_pipfile("[dev-packages]\npytest = \"*\"\n", "Pipfile"), Ok(()));
    assert_eq!(analyzer.parse_pipfile("packages = \"none\"\n", "Pipfile"), Ok(()));
    assert_eq!(analyzer.package_count(), 0);
}

#[test]
fn pipfile_that_is_no_document_is_refused() {
    let mut analyzer = DependencyAnalyzer::new();
    analyzer.parse_requirements("numpy\n", "r.txt").unwrap();
    let broken = "[packages\nnumpy = ";
    let refused = analyzer.parse_pipfile(broken, "Pipfile");
    assert_eq!(refused, Err(AnalysisError::Syntax(toml_refusal(broken))));
    assert!(refused.unwrap_err().message().contains("TOML parse error"));
    assert_eq!(names(&analyzer), vec!["numpy"]);
    assert_eq!(specs(&analyzer, "numpy"), vec!["numpy"]);
}

#[test]
fn pipfile_entries_keep_their_keys() {
    let entries = vec![
        TableEntry { key: " spaced ".to_string(), text: Some("==1.0.0".to_string()) },
        TableEntry { key: "other".to_string(), text: None },
    ];
    let mut analyzer = DependencyAnalyzer::new();
    analyzer.add_pipfile_packages(&entries, "Pipfile");
    assert_eq!(names(&analyzer), vec![" spaced ", "other"]);
    assert_eq!(specs(&analyzer, " spaced "), vec!["==1.0.0"]);
    assert_eq!(analyzer.package(" spaced ").unwrap().records[0].version_req, Some("=1.0.0".to_string()));
    assert_eq!(specs(&analyzer, "other"), vec!["*"]);
}

#[test]
fn pyproject_dependencies_are_read() {
    let content = "[project]\nname = \"demo\"\ndependencies = [\n  \"numpy>=1.20\",\n  \"pandas\",\n  42,\n]\n";
    let mut analyzer = DependencyAnalyzer::new();
    assert_eq!(analyzer.parse_pyproject_toml(content, "pyproject.toml"), Ok(()));
    assert_eq!(names(&analyzer), vec!["numpy", "pandas"]);
    assert_eq!(specs(&analyzer, "numpy"), vec!["numpy>=1.20"]);
    assert_eq!(analyzer.package("pandas").unwrap().records[0].source_file, "pyproject.toml");
}

#[test]
fn pyproject_without_dependencies_declares_nothing() {
    let mut analyzer = DependencyAnalyzer::new();
    assert_eq!(analyzer.parse_pyproject_toml("[tool.black]\nline-length = 88\n", "pyproject.toml"), Ok(()));
    assert_eq!(analyzer.parse_pyproject_toml("[project]\nname = \"demo\"\n", "pyproject.toml"), Ok(()));
    assert_eq!(analyzer.parse_pyproject_toml("[project]\ndependencies = \"numpy\"\n", "pyproject.toml"), Ok(()));
    assert_eq!(analyzer.package_count(), 0);
}

#[test]
fn pyproject_that_is_no_document_is_refused() {
    let mut analyzer = DependencyAnalyzer::new();
    assert_eq!(
        analyzer.parse_pyproject_toml("[project\n", "pyproject.toml"),
        Err(AnalysisError::Syntax(toml_refusal("[project\n")))
    );
    assert_eq!(analyzer.package_count(), 0);
}

#[test]
fn environment_dependencies_are_read() {
    let content = "name: env\nchannels:\n  - conda-forge\ndependencies:\n  - python=3.8\n  - numpy>=1.19\n  - pip:\n    - requests\n";
    let mut analyzer = DependencyAnalyzer::new();
    assert_eq!(analyzer.parse_conda_yml(content, "environment.yml"), Ok(()));
    assert_eq!(names(&analyzer), vec!["python", "numpy"]);
    assert_eq!(specs(&analyzer, "python"), vec!["python=3.8"]);
    assert_eq!(specs(&analyzer, "numpy"), vec!["numpy>=1.19"]);
    assert_eq!(analyzer.package("numpy").unwrap().records[0].source_file, "environment.yml");
}

#[test]
fn environment_that_is_no_document_declares_nothing() {
    let mut analyzer = DependencyAnalyzer::new();
    assert_eq!(analyzer.parse_conda_yml("dependencies: [numpy, \n  - broken: : :\n", "environment.yml"), Ok(()));
    assert_eq!(analyzer.parse_conda_yml("name: env\n", "environment.yml"), Ok(()));
    assert_eq!(analyzer.parse_conda_yml("dependencies: numpy\n", "environment.yml"), Ok(()));
    assert_eq!(analyzer.package_count(), 0);
}

#[test]
fn listed_items_that_are_no_text_are_passed_over() {
    let items = vec![Some("numpy>=1.0".to_string()), None, Some("".to_string())];
    let mut analyzer = DependencyAnalyzer::new();
    analyzer.add_listed_dependencies(&items, "environment.yml");
    assert_eq!(names(&analyzer), vec!["numpy", ""]);
}

#[test]
fn manifests_are_known_by_their_base_name() {
    assert_eq!(manifest_kind("requirements.txt"), Some(ManifestKind::Requirements));
    assert_eq!(manifest_kind("setup.py"), Some(ManifestKind::SetupScript));
    assert_eq!(manifest_kind("Pipfile"), Some(ManifestKind::Pipfile));
    assert_eq!(manifest_kind("pyproject.toml"), Some(ManifestKind::Pyproject));
    assert_eq!(manifest_kind("environment.yml"), Some(ManifestKind::Environment));
    assert_eq!(manifest_kind("pipfile"), None);
    assert_eq!(manifest_kind("requirements-dev.txt"), None);
    assert_eq!(manifest_kind("environment.yaml"), None);
    assert_eq!(manifest_kind(""), None);
}

#[test]
fn parse_manifest_goes_by_kind() {
    let mut analyzer = DependencyAnalyzer::new();
    assert_eq!(analyzer.parse_manifest(ManifestKind::Requirements, "numpy\n", "r"), Ok(()));
    assert_eq!(analyzer.parse_manifest(ManifestKind::SetupScript, "install_requires=['pandas']", "s"), Ok(()));
    assert_eq!(analyzer.parse_manifest(ManifestKind::Pipfile, "[packages]\nflask = \"*\"\n", "p"), Ok(()));
    assert_eq!(analyzer.parse_manifest(ManifestKind::Pyproject, "[project]\ndependencies = [\"tqdm\"]\n", "y"), Ok(()));
    assert_eq!(analyzer.parse_manifest(ManifestKind::Environment, "dependencies:\n  - jax\n", "e"), Ok(()));
    assert_eq!(names(&analyzer), vec!["numpy", "pandas", "flask", "tqdm", "jax"]);
}

fn file(name: &str, path: &str, content: &str) -> ProjectFile {
    ProjectFile { file_name: name.to_string(), path: path.to_string(), content: content.to_string() }
}

#[test]
fn scan_reads_manifests_and_passes_over_the_rest() {
    let files = vec![
        file("README.md", "p/README.md", "numpy\n"),
        file("requirements.txt", "p/requirements.txt", "numpy>=1.0\n"),
        file("main.py", "p/main.py", "import numpy\n"),
        file("environment.yml", "p/sub/environment.yml", "dependencies:\n  - numpy\n  - pandas\n"),
    ];
    let mut analyzer = DependencyAnalyzer::new();
    assert_eq!(analyzer.scan_project(&files), Ok(()));
    assert_eq!(names(&analyzer), vec!["numpy", "pandas"]);
    assert_eq!(specs(&analyzer, "numpy"), vec!["numpy>=1.0", "numpy"]);
    assert_eq!(analyzer.package("numpy").unwrap().records[1].source_file, "p/sub/environment.yml");
    assert_eq!(analyzer.edges(), vec![(1, 0)]);
}

#[test]
fn scan_stops_at_the_first_failure() {
    let files = vec![
        file("requirements.txt", "p/requirements.txt", "numpy\n"),
        file("Pipfile", "p/Pipfile", "this is [ no toml"),
        file("setup.py", "p/setup.py", "install_requires=['pandas']"),
    ];
    let mut analyzer = DependencyAnalyzer::new();
    assert_eq!(
        analyzer.scan_project(&files),
        Err(AnalysisError::Syntax(toml_refusal("this is [ no toml")))
    );
    assert_eq!(names(&analyzer), vec!["numpy"]);
}

#[test]
fn scanning_twice_gives_the_same_results() {
    let files = vec![
        file("requirements.txt", "p/requirements.txt", "numpy<1.19.2\ntensorflow>=2.0\ntorch\n"),
        file("Pipfile", "p/Pipfile", "[packages]\nnumpy = \">=1.0\"\ntransformers = \"*\"\n"),
    ];
    let mut first = DependencyAnalyzer::new();
    first.scan_project(&files).unwrap();
    let mut second = DependencyAnalyzer::new();
    second.scan_project(&files).unwrap();
    assert_eq!(names(&first), names(&second));
    assert_eq!(first.check_conflicts(), second.check_conflicts());
    assert_eq!(first.generate_graph("dot"), second.generate_graph("dot"));
    assert_eq!(first.generate_graph("text"), second.generate_graph("text"));
    assert_eq!(first.edges(), second.edges());
}

#[test]
fn failures_carry_the_message_of_the_refusal() {
    assert_eq!(AnalysisError::Syntax("expected `]` at line 1".to_string()).message(), "expected `]` at line 1");
    assert_eq!(AnalysisError::Pattern("unclosed group".to_string()).message(), "unclosed group");
    assert_eq!(AnalysisError::UnsupportedFormat.message(), "Unsupported output format");
}
