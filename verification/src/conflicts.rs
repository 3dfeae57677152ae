//! The conflict engine: packages with several restrictions, pairs from the
//! table of known conflicts, and rules about particular packages.
use vstd::prelude::*;
use vstd::string::StringExecFns;
use crate::analyzer::DependencyAnalyzer;
use crate::knowledge::{known_conflicts, texts_view, ConflictEntry, ConflictEntryView};
use crate::model::{
    has_package, index_of, text_of, Dependency, DependencyView, Package, PackageView,
};
use crate::text::{
    chars_of, contains, contains_in, find, find_in, slice_of, string_of, strip_of, trim, CharClass,
};
use crate::version::{
    normalize, normalize_of, parse_version, semver_precedes, semver_version, version_precedes,
};

verus! {

/// How a finding cites one record: the restriction and the file it is in.
pub open spec fn occurrence(record: DependencyView) -> Seq<char> {
    record.version_spec + " (in "@ + record.source_file + ")"@
}

/// The citations of the first `upto` records, separated by commas.
pub open spec fn occurrences_upto(records: Seq<DependencyView>, upto: int) -> Seq<char>
    decreases upto,
{
    if upto <= 0 || upto > records.len() {
        Seq::empty()
    } else if upto == 1 {
        occurrence(records[0])
    } else {
        occurrences_upto(records, upto - 1) + ", "@ + occurrence(records[upto - 1])
    }
}

/// The part of a restriction that may hold a version: what stands between
/// its first and its second delimiter, trimmed. A restriction without a
/// delimiter has none.
pub open spec fn version_part(spec: Seq<char>) -> Option<Seq<char>> {
    let first = find(spec, 0, CharClass::Delimiter);
    if first < spec.len() {
        Some(trim(spec.subrange(first + 1, find(spec, first + 1, CharClass::Delimiter))))
    } else {
        None
    }
}

/// The version that a restriction names, where its version part is one.
pub open spec fn named_version(spec: Seq<char>) -> Option<Seq<char>> {
    match version_part(spec) {
        Some(part) => semver_version(part),
        None => None,
    }
}

/// The later of a version found so far and the next one: the next one
/// unless it comes strictly before the one found so far.
pub open spec fn later_version(so_far: Option<Seq<char>>, next: Option<Seq<char>>) -> Option<Seq<char>> {
    match next {
        None => so_far,
        Some(version) => match so_far {
            None => Some(version),
            Some(best) => if semver_precedes(version, best) {
                Some(best)
            } else {
                Some(version)
            },
        },
    }
}

/// The highest of the versions that the first `upto` records name.
pub open spec fn highest_upto(records: Seq<DependencyView>, upto: int) -> Option<Seq<char>>
    decreases upto,
{
    if upto <= 0 || upto > records.len() {
        None
    } else {
        later_version(highest_upto(records, upto - 1), named_version(records[upto - 1].version_spec))
    }
}

/// The advice that goes with several restrictions: to take at least the
/// highest version that one of them names, and nothing where none names one.
pub open spec fn advice(records: Seq<DependencyView>) -> Seq<char> {
    match highest_upto(records, records.len() as int) {
        Some(version) => "\n      Suggestion: Use version >="@ + version
            + " to satisfy all requirements"@,
        None => Seq::empty(),
    }
}

/// The finding about a package with several records.
pub open spec fn multiple_finding(package: PackageView) -> Seq<char> {
    "Multiple version requirements for "@ + package.name + ": "@ + occurrences_upto(
        package.records,
        package.records.len() as int,
    ) + advice(package.records)
}

/// The findings of the first rule among the first `upto` packages: one for
/// each package with more than one record.
pub open spec fn multiple_findings_upto(packages: Seq<PackageView>, upto: int) -> Seq<Seq<char>>
    decreases upto,
{
    if upto <= 0 || upto > packages.len() {
        Seq::empty()
    } else if packages[upto - 1].records.len() > 1 {
        multiple_findings_upto(packages, upto - 1).push(multiple_finding(packages[upto - 1]))
    } else {
        multiple_findings_upto(packages, upto - 1)
    }
}

/// The findings of the first rule.
pub open spec fn multiple_findings(packages: Seq<PackageView>) -> Seq<Seq<char>> {
    multiple_findings_upto(packages, packages.len() as int)
}

/// The package name in an identifier of the table: what stands before its
/// first `<`.
pub open spec fn bare_name(identifier: Seq<char>) -> Seq<char> {
    identifier.subrange(0, find(identifier, 0, CharClass::Exactly('<')))
}

/// The restriction of the first record of the package called `name`.
pub open spec fn first_spec(packages: Seq<PackageView>, name: Seq<char>) -> Seq<char> {
    first_record(packages, name).version_spec
}

/// The finding about a package and an identifier that the table lists
/// under it.
pub open spec fn pair_finding(packages: Seq<PackageView>, package: Seq<char>, identifier: Seq<char>) -> Seq<
    char,
> {
    "Known conflict: "@ + package + " "@ + first_spec(packages, package) + " may conflict with "@
        + identifier + " "@ + first_spec(packages, bare_name(identifier))
        + ".\n      Suggestion: Consider using only one of these packages, or ensure they are compatible versions"@
}

/// The findings about `entry` and the first `upto` of its identifiers: one
/// for each identifier whose package the registry holds.
pub open spec fn entry_findings_upto(packages: Seq<PackageView>, entry: ConflictEntryView, upto: int) -> Seq<
    Seq<char>,
>
    decreases upto,
{
    if upto <= 0 || upto > entry.incompatible.len() {
        Seq::empty()
    } else if has_package(packages, bare_name(entry.incompatible[upto - 1])) {
        entry_findings_upto(packages, entry, upto - 1).push(
            pair_finding(packages, entry.package, entry.incompatible[upto - 1]),
        )
    } else {
        entry_findings_upto(packages, entry, upto - 1)
    }
}

/// The findings of the second rule for the first `upto` entries of the
/// table: those of each entry whose package the registry holds.
pub open spec fn pair_findings_upto(packages: Seq<PackageView>, table: Seq<ConflictEntryView>, upto: int) -> Seq<
    Seq<char>,
>
    decreases upto,
{
    if upto <= 0 || upto > table.len() {
        Seq::empty()
    } else if has_package(packages, table[upto - 1].package) {
        pair_findings_upto(packages, table, upto - 1) + entry_findings_upto(
            packages,
            table[upto - 1],
            table[upto - 1].incompatible.len() as int,
        )
    } else {
        pair_findings_upto(packages, table, upto - 1)
    }
}

/// The findings of the second rule.
pub open spec fn pair_findings(packages: Seq<PackageView>, table: Seq<ConflictEntryView>) -> Seq<Seq<char>> {
    pair_findings_upto(packages, table, table.len() as int)
}

/// The constraint of a record in normal form: the canonical text of its
/// structured constraint where it has one, and elsewhere its restriction as
/// it is rewritten for the constraint parser.
pub open spec fn constraint_text(record: DependencyView) -> Seq<char> {
    match record.version_req {
        Some(canonical) => canonical,
        None => normalize(record.version_spec),
    }
}

/// Whether the constraint of a record holds the upper bound `<1.19`. This
/// is a test on the text, not a comparison of versions.
pub open spec fn has_old_bound(record: DependencyView) -> bool {
    contains(constraint_text(record), "<1.19"@)
}

/// The first record of the package called `name`.
pub open spec fn first_record(packages: Seq<PackageView>, name: Seq<char>) -> DependencyView {
    packages[index_of(packages, name)].records[0]
}

/// The warning about an old `numpy`.
pub open spec fn numpy_finding(spec: Seq<char>) -> Seq<char> {
    "Warning: numpy "@ + spec
        + " might be too old for modern ML frameworks.\n      Suggestion: Use numpy>=1.19.2 for better compatibility"@
}

/// The finding about `tensorflow` beside an old `numpy`.
pub open spec fn tensorflow_finding(spec: Seq<char>) -> Seq<char> {
    "Potential conflict: tensorflow "@ + spec
        + " requires numpy>=1.19.2.\n      Suggestion: Upgrade numpy to version >=1.19.2"@
}

/// The warning about `transformers` beside both of its backends.
pub open spec fn transformers_finding() -> Seq<char> {
    "Warning: transformers is being used with both tensorflow and torch.\n      Suggestion: Consider using only one backend for better efficiency"@
}

/// The findings of the third rule about one package. Only the first record
/// of a package is looked at.
pub open spec fn special_findings(packages: Seq<PackageView>, package: PackageView) -> Seq<Seq<char>> {
    if package.records.len() == 0 {
        Seq::empty()
    } else if package.name == "numpy"@ {
        if has_old_bound(package.records[0]) {
            seq![numpy_finding(package.records[0].version_spec)]
        } else {
            Seq::empty()
        }
    } else if package.name == "tensorflow"@ {
        if has_package(packages, "numpy"@) && has_old_bound(first_record(packages, "numpy"@)) {
            seq![tensorflow_finding(package.records[0].version_spec)]
        } else {
            Seq::empty()
        }
    } else if package.name == "transformers"@ {
        if has_package(packages, "tensorflow"@) && has_package(packages, "torch"@) {
            seq![transformers_finding()]
        } else {
            Seq::empty()
        }
    } else {
        Seq::empty()
    }
}

/// The findings of the third rule among the first `upto` packages.
pub open spec fn special_findings_upto(packages: Seq<PackageView>, upto: int) -> Seq<Seq<char>>
    decreases upto,
{
    if upto <= 0 || upto > packages.len() {
        Seq::empty()
    } else {
        special_findings_upto(packages, upto - 1) + special_findings(packages, packages[upto - 1])
    }
}

/// The findings of the third rule.
pub open spec fn special_findings_all(packages: Seq<PackageView>) -> Seq<Seq<char>> {
    special_findings_upto(packages, packages.len() as int)
}

/// All findings: those of the first rule, then those of the second, then
/// those of the third.
pub open spec fn conflict_findings(packages: Seq<PackageView>, table: Seq<ConflictEntryView>) -> Seq<
    Seq<char>,
> {
    multiple_findings(packages) + pair_findings(packages, table) + special_findings_all(packages)
}

/// The version that a restriction names, in canonical text.
pub fn named_version_of(spec: &str) -> (r: Option<String>)
    ensures
        text_of(r) == named_version(spec@),
{
    let chars = chars_of(spec);
    let first = find_in(&chars, 0, CharClass::Delimiter);
    if first < chars.len() {
        let second = find_in(&chars, first + 1, CharClass::Delimiter);
        let part = strip_of(&slice_of(&chars, first + 1, second), CharClass::Space);
        let part_text = string_of(&part);
        parse_version(part_text.as_str())
    } else {
        None
    }
}

/// The later of two versions in canonical text.
pub fn later_version_of(so_far: Option<String>, next: Option<String>) -> (r: Option<String>)
    ensures
        text_of(r) == later_version(text_of(so_far), text_of(next)),
{
    match next {
        None => so_far,
        Some(version) => match so_far {
            None => Some(version),
            Some(best) => if version_precedes(version.as_str(), best.as_str()) {
                Some(best)
            } else {
                Some(version)
            },
        },
    }
}

/// Tests whether the constraint of a record holds the upper bound `<1.19`.
pub fn has_old_bound_in(record: &Dependency) -> (r: bool)
    ensures
        r == has_old_bound(record@),
{
    let constraint = match &record.version_req {
        Some(canonical) => chars_of(canonical.as_str()),
        None => normalize_of(&chars_of(record.version_spec.as_str())),
    };
    let bound = chars_of("<1.19");
    contains_in(&constraint, &bound)
}

/// Writes the finding about a package with several records.
pub fn multiple_finding_of(package: &Package) -> (finding: String)
    ensures
        finding@ == multiple_finding(package@),
{
    let mut cited = String::new();
    let mut highest: Option<String> = None;
    let mut j: usize = 0;
    while j < package.records.len()
        invariant
            j <= package.records@.len(),
            cited@ == occurrences_upto(package@.records, j as int),
            text_of(highest) == highest_upto(package@.records, j as int),
        decreases package.records@.len() - j,
    {
        let record = &package.records[j];
        assert(package@.records[j as int] == record@);
        let ghost before = cited@;
        if j > 0 {
            cited.append(", ");
        }
        let mut one = String::new();
        one.append(record.version_spec.as_str());
        one.append(" (in ");
        one.append(record.source_file.as_str());
        one.append(")");
        assert(one@ =~= occurrence(record@));
        cited.append(one.as_str());
        assert(cited@ =~= occurrences_upto(package@.records, j + 1));
        highest = later_version_of(highest, named_version_of(record.version_spec.as_str()));
        j = j + 1;
    }
    let mut finding = String::from_str("Multiple version requirements for ");
    finding.append(package.name.as_str());
    finding.append(": ");
    finding.append(cited.as_str());
    match highest {
        Some(version) => {
            let mut words = String::from_str("\n      Suggestion: Use version >=");
            words.append(version.as_str());
            words.append(" to satisfy all requirements");
            finding.append(words.as_str());
        },
        None => {
            assert(finding@ =~= finding@ + Seq::<char>::empty());
        },
    }
    finding
}

/// Appends the findings in `more` to `findings`.
pub fn append_findings(findings: &mut Vec<String>, more: Vec<String>)
    ensures
        texts_view(final(findings)@) == texts_view(old(findings)@) + texts_view(more@),
{
    let mut rest = more;
    findings.append(&mut rest);
    assert(texts_view(findings@) =~= texts_view(old(findings)@) + texts_view(more@));
}

impl DependencyAnalyzer {
    /// The first record of package `at`.
    fn first_record_at(&self, at: usize) -> (record: &Dependency)
        requires
            self.wf(),
            at < self@.packages.len(),
        ensures
            record@ == self@.packages[at as int].records[0],
    {
        assert(self@.packages[at as int].records.len() > 0);
        &self.dependencies[at].records[0]
    }

    /// The restriction of the first record of package `at`.
    fn first_spec_at(&self, at: usize) -> (spec: &String)
        requires
            self.wf(),
            at < self@.packages.len(),
        ensures
            spec@ == self@.packages[at as int].records[0].version_spec,
    {
        &self.first_record_at(at).version_spec
    }

    /// The findings of the first rule: one for each package with more than
    /// one record, in the registry's order.
    pub fn check_multiple(&self) -> (findings: Vec<String>)
        ensures
            texts_view(findings@) == multiple_findings(self@.packages),
    {
        let mut findings: Vec<String> = Vec::new();
        let mut i: usize = 0;
        assert(texts_view(findings@) =~= multiple_findings_upto(self@.packages, 0));
        while i < self.dependencies.len()
            invariant
                i <= self.dependencies@.len(),
                texts_view(findings@) == multiple_findings_upto(self@.packages, i as int),
            decreases self.dependencies@.len() - i,
        {
            let package = &self.dependencies[i];
            assert(self@.packages[i as int] == package@);
            if package.records.len() > 1 {
                let ghost before = texts_view(findings@);
                let finding = multiple_finding_of(package);
                findings.push(finding);
                assert(texts_view(findings@) =~= before.push(multiple_finding(package@)));
            }
            i = i + 1;
        }
        findings
    }

    /// The findings about one entry of the table.
    fn check_entry(&self, entry: &ConflictEntry, at: usize) -> (findings: Vec<String>)
        requires
            self.wf(),
            at == index_of(self@.packages, entry@.package),
            at < self@.packages.len(),
        ensures
            texts_view(findings@) == entry_findings_upto(
                self@.packages,
                entry@,
                entry@.incompatible.len() as int,
            ),
    {
        let mut findings: Vec<String> = Vec::new();
        let mut k: usize = 0;
        assert(texts_view(findings@) =~= entry_findings_upto(self@.packages, entry@, 0));
        while k < entry.incompatible.len()
            invariant
                self.wf(),
                at == index_of(self@.packages, entry@.package),
                at < self@.packages.len(),
                k <= entry.incompatible@.len(),
                texts_view(findings@) == entry_findings_upto(self@.packages, entry@, k as int),
            decreases entry.incompatible@.len() - k,
        {
            let identifier = &entry.incompatible[k];
            assert(entry@.incompatible[k as int] == identifier@);
            let chars = chars_of(identifier.as_str());
            let end = find_in(&chars, 0, CharClass::Exactly('<'));
            let bare = string_of(&slice_of(&chars, 0, end));
            let other = self.position(&bare);
            if other < self.dependencies.len() {
                let ghost before = texts_view(findings@);
                let mut finding = String::from_str("Known conflict: ");
                finding.append(entry.package.as_str());
                finding.append(" ");
                finding.append(self.first_spec_at(at).as_str());
                finding.append(" may conflict with ");
                finding.append(identifier.as_str());
                finding.append(" ");
                finding.append(self.first_spec_at(other).as_str());
                finding.append(
                    ".\n      Suggestion: Consider using only one of these packages, or ensure they are compatible versions",
                );
                assert(finding@ == pair_finding(self@.packages, entry@.package, identifier@));
                findings.push(finding);
                assert(texts_view(findings@) =~= before.push(
                    pair_finding(self@.packages, entry@.package, identifier@),
                ));
            }
            k = k + 1;
        }
        findings
    }

    /// The findings of the second rule: for each entry of the table whose
    /// package the registry holds, one for each identifier of the entry
    /// whose package the registry holds too.
    pub fn check_known_pairs(&self) -> (findings: Vec<String>)
        requires
            self.wf(),
        ensures
            texts_view(findings@) == pair_findings(self@.packages, known_conflicts()),
    {
        let ghost table = known_conflicts();
        let mut findings: Vec<String> = Vec::new();
        let mut e: usize = 0;
        assert(texts_view(findings@) =~= pair_findings_upto(self@.packages, table, 0));
        while e < self.known_conflicts.len()
            invariant
                self.wf(),
                table == known_conflicts(),
                e <= self.known_conflicts@.len(),
                texts_view(findings@) == pair_findings_upto(self@.packages, table, e as int),
            decreases self.known_conflicts@.len() - e,
        {
            let entry = &self.known_conflicts[e];
            assert(table[e as int] == entry@);
            let at = self.position(&entry.package);
            if at < self.dependencies.len() {
                append_findings(&mut findings, self.check_entry(entry, at));
            }
            e = e + 1;
        }
        findings
    }

    /// The findings of the third rule about package `i`.
    fn check_special_at(&self, i: usize) -> (findings: Vec<String>)
        requires
            self.wf(),
            i < self@.packages.len(),
        ensures
            texts_view(findings@) == special_findings(self@.packages, self@.packages[i as int]),
    {
        let mut findings: Vec<String> = Vec::new();
        let package = &self.dependencies[i];
        assert(self@.packages[i as int] == package@);
        assert(self@.packages[i as int].records.len() > 0);
        let spec = self.first_spec_at(i);
        if package.name == "numpy".to_owned() {
            if has_old_bound_in(self.first_record_at(i)) {
                let mut finding = String::from_str("Warning: numpy ");
                finding.append(spec.as_str());
                finding.append(
                    " might be too old for modern ML frameworks.\n      Suggestion: Use numpy>=1.19.2 for better compatibility",
                );
                findings.push(finding);
            }
        } else if package.name == "tensorflow".to_owned() {
            let numpy = self.position(&"numpy".to_owned());
            if numpy < self.dependencies.len() && has_old_bound_in(self.first_record_at(numpy)) {
                let mut finding = String::from_str("Potential conflict: tensorflow ");
                finding.append(spec.as_str());
                finding.append(
                    " requires numpy>=1.19.2.\n      Suggestion: Upgrade numpy to version >=1.19.2",
                );
                findings.push(finding);
            }
        } else if package.name == "transformers".to_owned() {
            let tensorflow = self.position(&"tensorflow".to_owned());
            let torch = self.position(&"torch".to_owned());
            if tensorflow < self.dependencies.len() && torch < self.dependencies.len() {
                findings.push(
                    String::from_str(
                        "Warning: transformers is being used with both tensorflow and torch.\n      Suggestion: Consider using only one backend for better efficiency",
                    ),
                );
            }
        }
        assert(texts_view(findings@) =~= special_findings(self@.packages, self@.packages[i as int]));
        findings
    }

    /// The findings of the third rule, package by package in the registry's
    /// order.
    pub fn check_special(&self) -> (findings: Vec<String>)
        requires
            self.wf(),
        ensures
            texts_view(findings@) == special_findings_all(self@.packages),
    {
        let mut findings: Vec<String> = Vec::new();
        let mut i: usize = 0;
        assert(texts_view(findings@) =~= special_findings_upto(self@.packages, 0));
        while i < self.dependencies.len()
            invariant
                self.wf(),
                i <= self.dependencies@.len(),
                texts_view(findings@) == special_findings_upto(self@.packages, i as int),
            decreases self.dependencies@.len() - i,
        {
            append_findings(&mut findings, self.check_special_at(i));
            i = i + 1;
        }
        findings
    }

    /// All findings about the registry: those about packages with several
    /// records, those about known pairs, and those of the rules about
    /// particular packages, in this order. An empty result says that nothing
    /// was found.
    pub fn check_conflicts(&self) -> (findings: Vec<String>)
        requires
            self.wf(),
        ensures
            texts_view(findings@) == conflict_findings(self@.packages, known_conflicts()),
    {
        let mut findings = self.check_multiple();
        append_findings(&mut findings, self.check_known_pairs());
        append_findings(&mut findings, self.check_special());
        findings
    }
}

} // verus!
