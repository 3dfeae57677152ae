use py_dep_analyzer::analyzer::DependencyAnalyzer;
use py_dep_analyzer::conflicts::{has_old_bound_in, later_version_of, named_version_of};
use py_dep_analyzer::model::Dependency;
use py_dep_analyzer::version::parse_version_spec;

const PAIR_ADVICE: &str = "\n      Suggestion: Consider using only one of these packages, or ensure they are compatible versions";
const NUMPY_WARNING_TAIL: &str = " might be too old for modern ML frameworks.\n      Suggestion: Use numpy>=1.19.2 for better compatibility";
const TENSORFLOW_TAIL: &str = " requires numpy>=1.19.2.\n      Suggestion: Upgrade numpy to version >=1.19.2";
const TRANSFORMERS_WARNING: &str = "Warning: transformers is being used with both tensorflow and torch.\n      Suggestion: Consider using only one backend for better efficiency";

fn record(name: &str, spec: &str, file: &str) -> Dependency {
    Dependency {
        name: name.to_string(),
        version_spec: spec.to_string(),
        version_req: parse_version_spec(spec),
        resolved_version: None,
        source_file: file.to_string(),
    }
}

fn analyzer_of(records: &[(&str, &str, &str)]) -> DependencyAnalyzer {
    let mut analyzer = DependencyAnalyzer::new();
    for (name, spec, file) in records {
        analyzer.add_dependency(record(name, spec, file));
    }
    analyzer
}

#[test]
fn nothing_declared_nothing_found() {
    let analyzer = DependencyAnalyzer::new();
    assert_eq!(analyzer.check_conflicts(), Vec::<String>::new());
}

#[test]
fn single_records_give_no_first_rule_finding() {
    let analyzer = analyzer_of(&[("requests", "requests>=2.0", "a"), ("flask", "flask", "a"), ("tqdm", "tqdm", "b")]);
    assert_eq!(analyzer.check_multiple(), Vec::<String>::new());
    assert_eq!(analyzer.check_conflicts(), Vec::<String>::new());
}

#[test]
fn several_records_give_one_finding_with_the_highest_version() {
    let analyzer = analyzer_of(&[
        ("requests", "requests<2.19.2", "a/requirements.txt"),
        ("flask", "flask", "a/requirements.txt"),
        ("requests", "requests>2.20.0", "b/requirements.txt"),
    ]);
    assert_eq!(
        analyzer.check_conflicts(),
        vec![
            "Multiple version requirements for requests: requests<2.19.2 (in a/requirements.txt), requests>2.20.0 (in b/requirements.txt)\n      Suggestion: Use version >=2.20.0 to satisfy all requirements"
        ]
    );
}

#[test]
fn versions_are_compared_as_versions() {
    let rising = analyzer_of(&[("pkg", "pkg>1.9.0", "a"), ("pkg", "pkg<1.10.0", "b")]);
    assert_eq!(
        rising.check_multiple(),
        vec!["Multiple version requirements for pkg: pkg>1.9.0 (in a), pkg<1.10.0 (in b)\n      Suggestion: Use version >=1.10.0 to satisfy all requirements"]
    );
    let falling = analyzer_of(&[("pkg", "pkg<1.10.0", "b"), ("pkg", "pkg>1.9.0", "a"), ("pkg", "pkg", "c")]);
    assert_eq!(
        falling.check_multiple(),
        vec!["Multiple version requirements for pkg: pkg<1.10.0 (in b), pkg>1.9.0 (in a), pkg (in c)\n      Suggestion: Use version >=1.10.0 to satisfy all requirements"]
    );
    let releases = analyzer_of(&[("pkg", "pkg>1.0.0", "a"), ("pkg", "pkg>1.0.0-rc.1", "b")]);
    assert_eq!(
        releases.check_multiple(),
        vec!["Multiple version requirements for pkg: pkg>1.0.0 (in a), pkg>1.0.0-rc.1 (in b)\n      Suggestion: Use version >=1.0.0 to satisfy all requirements"]
    );
}

#[test]
fn without_a_strict_version_there_is_no_advice() {
    let doubled = analyzer_of(&[("pkg", "pkg>=1.0.0", "f1"), ("pkg", "pkg==2.0.0", "f2")]);
    assert_eq!(
        doubled.check_multiple(),
        vec!["Multiple version requirements for pkg: pkg>=1.0.0 (in f1), pkg==2.0.0 (in f2)"]
    );
    let short = analyzer_of(&[("pkg", "pkg<1.19", "f1"), ("pkg", "pkg>1.18", "f2")]);
    assert_eq!(
        short.check_multiple(),
        vec!["Multiple version requirements for pkg: pkg<1.19 (in f1), pkg>1.18 (in f2)"]
    );
}

#[test]
fn the_version_part_is_the_second_piece() {
    assert_eq!(named_version_of("numpy<1.19.2"), Some("1.19.2".to_string()));
    assert_eq!(named_version_of("numpy> 1.20.0 "), Some("1.20.0".to_string()));
    assert_eq!(named_version_of("numpy>1.2.3<2.0.0"), Some("1.2.3".to_string()));
    assert_eq!(named_version_of("numpy>=1.19.2"), None);
    assert_eq!(named_version_of("numpy"), None);
    assert_eq!(named_version_of("numpy<1.19"), None);
    assert_eq!(named_version_of("<0.1.0"), Some("0.1.0".to_string()));
    assert_eq!(named_version_of("numpy<"), None);
}

#[test]
fn the_later_version_wins() {
    let low = Some("1.2.3".to_string());
    let high = Some("1.10.0".to_string());
    assert_eq!(later_version_of(low.clone(), high.clone()), high);
    assert_eq!(later_version_of(high.clone(), low.clone()), high);
    assert_eq!(later_version_of(None, low.clone()), low);
    assert_eq!(later_version_of(low.clone(), None), low);
    assert_eq!(later_version_of(None, None), None);
    assert_eq!(later_version_of(low.clone(), low.clone()), low);
}

#[test]
fn known_pairs_are_reported_from_both_sides() {
    let analyzer = analyzer_of(&[("tensorflow", "tensorflow>=2.0", "a"), ("torch", "torch", "a")]);
    assert_eq!(
        analyzer.check_known_pairs(),
        vec![
            format!("Known conflict: tensorflow tensorflow>=2.0 may conflict with torch torch.{}", PAIR_ADVICE),
            format!("Known conflict: torch torch may conflict with tensorflow tensorflow>=2.0.{}", PAIR_ADVICE),
        ]
    );
    assert_eq!(analyzer.check_conflicts(), analyzer.check_known_pairs());
}

#[test]
fn a_qualified_identifier_is_looked_up_by_its_name() {
    let analyzer = analyzer_of(&[
        ("pandas", "pandas==1.3.0", "a"),
        ("numpy", "numpy", "a"),
        ("pandas", "pandas", "b"),
        ("jax", "jax>0.1.0", "a"),
    ]);
    assert_eq!(
        analyzer.check_known_pairs(),
        vec![format!("Known conflict: numpy numpy may conflict with pandas<1.0.0 pandas==1.3.0.{}", PAIR_ADVICE)]
    );
}

#[test]
fn all_entries_of_the_table_are_consulted() {
    let analyzer = analyzer_of(&[("jax", "jax", "a"), ("torch", "torch==1.0", "a"), ("tensorflow", "tensorflow", "b")]);
    assert_eq!(
        analyzer.check_known_pairs(),
        vec![
            format!("Known conflict: tensorflow tensorflow may conflict with torch torch==1.0.{}", PAIR_ADVICE),
            format!("Known conflict: tensorflow tensorflow may conflict with jax jax.{}", PAIR_ADVICE),
            format!("Known conflict: torch torch==1.0 may conflict with tensorflow tensorflow.{}", PAIR_ADVICE),
            format!("Known conflict: torch torch==1.0 may conflict with jax jax.{}", PAIR_ADVICE),
        ]
    );
}

#[test]
fn old_numpy_beside_tensorflow_gives_both_findings() {
    let analyzer = analyzer_of(&[("numpy", "numpy<1.19.2", "r.txt"), ("tensorflow", "tensorflow>=2.0", "r.txt")]);
    let findings = analyzer.check_conflicts();
    assert_eq!(
        findings,
        vec![
            format!("Warning: numpy numpy<1.19.2{}", NUMPY_WARNING_TAIL),
            format!("Potential conflict: tensorflow tensorflow>=2.0{}", TENSORFLOW_TAIL),
        ]
    );
    let bare = analyzer_of(&[("tensorflow", ">=2.0", "Pipfile"), ("numpy", "<1.19.2", "Pipfile")]);
    assert_eq!(
        bare.check_special(),
        vec![
            format!("Potential conflict: tensorflow >=2.0{}", TENSORFLOW_TAIL),
            format!("Warning: numpy <1.19.2{}", NUMPY_WARNING_TAIL),
        ]
    );
}

#[test]
fn a_recent_numpy_gives_no_warning() {
    let analyzer = analyzer_of(&[("numpy", "numpy>=1.19.2", "r.txt"), ("tensorflow", "tensorflow>=2.0", "r.txt")]);
    assert_eq!(analyzer.check_conflicts(), Vec::<String>::new());
    let alone = analyzer_of(&[("tensorflow", "tensorflow<1.19", "r.txt")]);
    assert_eq!(alone.check_conflicts(), Vec::<String>::new());
}

#[test]
fn only_the_first_record_counts_for_the_particular_rules() {
    let analyzer = analyzer_of(&[("numpy", "numpy>=1.20.0", "a"), ("numpy", "numpy<1.19.0", "b"), ("tensorflow", "tensorflow", "a")]);
    assert_eq!(analyzer.check_special(), Vec::<String>::new());
    assert_eq!(analyzer.check_multiple().len(), 1);
}

#[test]
fn the_old_bound_is_a_plain_substring() {
    assert!(has_old_bound_in(&record("numpy", "numpy<1.19.2", "a")));
    assert!(has_old_bound_in(&record("numpy", "<1.19", "a")));
    assert!(has_old_bound_in(&record("numpy", "numpy>=1.0,<1.190", "a")));
    assert!(!has_old_bound_in(&record("numpy", "numpy<=1.19", "a")));
    assert!(!has_old_bound_in(&record("numpy", "numpy< 1.19", "a")));
    assert!(!has_old_bound_in(&record("numpy", "numpy<1.1", "a")));
    assert!(!has_old_bound_in(&record("numpy", "", "a")));
}

#[test]
fn the_old_bound_is_sought_in_the_canonical_constraint() {
    let spaced = record("numpy", "< 1.19", "Pipfile");
    assert_eq!(spaced.version_req, Some("<1.19".to_string()));
    assert!(has_old_bound_in(&spaced));
    let analyzer = analyzer_of(&[("numpy", "< 1.19", "Pipfile"), ("tensorflow", "*", "Pipfile")]);
    assert_eq!(
        analyzer.check_special(),
        vec![
            format!("Warning: numpy < 1.19{}", NUMPY_WARNING_TAIL),
            format!("Potential conflict: tensorflow *{}", TENSORFLOW_TAIL),
        ]
    );
    let by_hand = Dependency {
        name: "numpy".to_string(),
        version_spec: "numpy<1.19.2".to_string(),
        version_req: Some(">=1.20.0".to_string()),
        resolved_version: None,
        source_file: "a".to_string(),
    };
    assert!(!has_old_bound_in(&by_hand));
}

#[test]
fn transformers_beside_both_backends_gives_a_warning() {
    let both = analyzer_of(&[("transformers", "transformers", "a"), ("torch", "torch", "b"), ("tensorflow", "tensorflow", "c")]);
    assert!(both.check_conflicts().contains(&TRANSFORMERS_WARNING.to_string()));
    assert_eq!(both.check_special(), vec![TRANSFORMERS_WARNING.to_string()]);
    let torch_only = analyzer_of(&[("transformers", "transformers", "a"), ("torch", "torch", "b")]);
    assert!(!torch_only.check_conflicts().contains(&TRANSFORMERS_WARNING.to_string()));
    let tensorflow_only = analyzer_of(&[("tensorflow", "tensorflow", "a"), ("transformers", "transformers>=4.0", "b")]);
    assert!(!tensorflow_only.check_conflicts().contains(&TRANSFORMERS_WARNING.to_string()));
    let backends_alone = analyzer_of(&[("tensorflow", "tensorflow", "a"), ("torch", "torch", "b")]);
    assert!(!backends_alone.check_conflicts().contains(&TRANSFORMERS_WARNING.to_string()));
}

#[test]
fn findings_come_rule_by_rule() {
    let analyzer = analyzer_of(&[
        ("transformers", "transformers", "a"),
        ("torch", "torch>1.0.0", "a"),
        ("tensorflow", "tensorflow", "a"),
        ("torch", "torch<2.0.0", "b"),
    ]);
    assert_eq!(
        analyzer.check_conflicts(),
        vec![
            "Multiple version requirements for torch: torch>1.0.0 (in a), torch<2.0.0 (in b)\n      Suggestion: Use version >=2.0.0 to satisfy all requirements".to_string(),
            format!("Known conflict: tensorflow tensorflow may conflict with torch torch>1.0.0.{}", PAIR_ADVICE),
            format!("Known conflict: torch torch>1.0.0 may conflict with tensorflow tensorflow.{}", PAIR_ADVICE),
            TRANSFORMERS_WARNING.to_string(),
        ]
    );
}
