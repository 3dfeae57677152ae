//! Laws of the library: what holds of every registry, graph and set of
//! findings, proved from the definitions of the other modules.
use vstd::prelude::*;
use vstd::multiset::Multiset;
use vstd::seq_lib::to_multiset_build;
use crate::analyzer::lemma_add_record_well_formed;
use crate::conflicts::{
    conflict_findings, entry_findings_upto, multiple_finding, multiple_findings,
    multiple_findings_upto, numpy_finding, pair_finding, pair_findings, pair_findings_upto,
    special_findings, special_findings_all, special_findings_upto, tensorflow_finding,
    transformers_finding,
};
use crate::documents::{regex_first_group, toml_array, toml_table, yaml_sequence};
use crate::knowledge::{known_conflicts, ConflictEntryView};
use crate::manifest::{
    kind_of, list_inside, list_pattern, listed_records, listed_records_upto, piece_records_from,
    requirement_records, setup_records, table_records, Layout, ManifestKind,
};
use crate::render::rendering;
use crate::scan::{file_outcome, scan, scan_upto, ProjectFileView};
use crate::model::{
    add_record, add_records, add_records_upto, edge_allowed, edges_upto, has_package, implied,
    index_of, lemma_index_from, well_formed, AnalyzerView, DependencyView, PackageView,
};
use crate::text::{find, lemma_find_bounds, CharClass};

verus! {

/// The records of the first `upto` packages, without their order.
pub open spec fn contents_upto(packages: Seq<PackageView>, upto: int) -> Multiset<DependencyView>
    decreases upto,
{
    if upto <= 0 || upto > packages.len() {
        Multiset::empty()
    } else {
        contents_upto(packages, upto - 1).add(packages[upto - 1].records.to_multiset())
    }
}

/// The records that a registry holds, without their order.
pub open spec fn contents(packages: Seq<PackageView>) -> Multiset<DependencyView> {
    contents_upto(packages, packages.len() as int)
}

/// Two registries that agree on their first `upto` packages hold the same
/// records there.
pub proof fn lemma_contents_agree(first: Seq<PackageView>, second: Seq<PackageView>, upto: int)
    requires
        0 <= upto <= first.len(),
        upto <= second.len(),
        forall|i: int| 0 <= i < upto ==> first[i] == second[i],
    ensures
        contents_upto(first, upto) == contents_upto(second, upto),
    decreases upto,
{
    if upto > 0 {
        lemma_contents_agree(first, second, upto - 1);
    }
}

/// One more record in package `at` is one more record among the first
/// `upto` packages, where `at` is one of them.
pub proof fn lemma_contents_grow(packages: Seq<PackageView>, at: int, record: DependencyView, upto: int)
    requires
        0 <= at < packages.len(),
        0 <= upto <= packages.len(),
    ensures
        contents_upto(
            packages.update(
                at,
                PackageView { name: packages[at].name, records: packages[at].records.push(record) },
            ),
            upto,
        ) == if upto > at {
            contents_upto(packages, upto).insert(record)
        } else {
            contents_upto(packages, upto)
        },
    decreases upto,
{
    broadcast use vstd::multiset::group_multiset_axioms;

    let grown = packages.update(
        at,
        PackageView { name: packages[at].name, records: packages[at].records.push(record) },
    );
    if upto > 0 {
        lemma_contents_grow(packages, at, record, upto - 1);
        if upto - 1 == at {
            to_multiset_build(packages[at].records, record);
            assert(contents_upto(grown, upto) =~= contents_upto(packages, upto).insert(record));
        } else if upto - 1 > at {
            assert(contents_upto(grown, upto) =~= contents_upto(packages, upto).insert(record));
        }
    }
}

/// A record that is entered is held from then on, and nothing else changes:
/// the registry holds what it held, and the record once more.
pub proof fn law_record_is_kept(a: AnalyzerView, record: DependencyView)
    ensures
        contents(add_record(a, record).packages) == contents(a.packages).insert(record),
{
    broadcast use vstd::multiset::group_multiset_axioms;

    let n = a.packages.len() as int;
    let at = index_of(a.packages, record.name);
    lemma_index_from(a.packages, record.name, 0);
    if at < n {
        lemma_contents_grow(a.packages, at, record, n);
    } else {
        let after = add_record(a, record).packages;
        lemma_contents_agree(a.packages, after, n);
        to_multiset_build(Seq::<DependencyView>::empty(), record);
        assert(seq![record] =~= Seq::<DependencyView>::empty().push(record));
        assert(Seq::<DependencyView>::empty().to_multiset() =~= Multiset::empty()) by {
            broadcast use vstd::seq_lib::group_to_multiset_ensures;

            assert(Seq::<DependencyView>::empty().to_multiset().len() == 0);
        }
        assert(contents(after) =~= contents(a.packages).insert(record));
    }
}

/// The records that the first `upto` of `records` leave in the registry.
pub proof fn lemma_records_are_kept(a: AnalyzerView, records: Seq<DependencyView>, upto: int)
    requires
        0 <= upto <= records.len(),
    ensures
        contents(add_records_upto(a, records, upto).packages) == contents(a.packages).add(
            records.take(upto).to_multiset(),
        ),
    decreases upto,
{
    broadcast use vstd::multiset::group_multiset_axioms;

    if upto > 0 {
        lemma_records_are_kept(a, records, upto - 1);
        law_record_is_kept(add_records_upto(a, records, upto - 1), records[upto - 1]);
        assert(records.take(upto) =~= records.take(upto - 1).push(records[upto - 1]));
        to_multiset_build(records.take(upto - 1), records[upto - 1]);
        assert(contents(add_records_upto(a, records, upto).packages) =~= contents(a.packages).add(
            records.take(upto).to_multiset(),
        ));
    } else {
        assert(records.take(0) =~= Seq::<DependencyView>::empty());
        assert(Seq::<DependencyView>::empty().to_multiset() =~= Multiset::empty()) by {
            broadcast use vstd::seq_lib::group_to_multiset_ensures;

            assert(Seq::<DependencyView>::empty().to_multiset().len() == 0);
        }
        assert(contents(a.packages) =~= contents(a.packages).add(Multiset::empty()));
    }
}

/// Entering `records` leaves in the registry what it held and each of the
/// records, as often as it was entered: as many more records as were
/// entered, none lost and none made up.
pub proof fn law_records_are_kept(a: AnalyzerView, records: Seq<DependencyView>)
    ensures
        contents(add_records(a, records).packages) == contents(a.packages).add(
            records.to_multiset(),
        ),
        contents(add_records(a, records).packages).len() == contents(a.packages).len()
            + records.len(),
{
    broadcast use vstd::multiset::group_multiset_axioms;
    broadcast use vstd::seq_lib::group_to_multiset_ensures;

    lemma_records_are_kept(a, records, records.len() as int);
    assert(records.take(records.len() as int) =~= records);
}

/// What the registry holds does not depend on the order in which the
/// records were entered.
pub proof fn law_order_is_immaterial(
    a: AnalyzerView,
    first: Seq<DependencyView>,
    second: Seq<DependencyView>,
)
    requires
        first.to_multiset() == second.to_multiset(),
    ensures
        contents(add_records(a, first).packages) == contents(add_records(a, second).packages),
{
    law_records_are_kept(a, first);
    law_records_are_kept(a, second);
}

/// The records that a manifest declares. A manifest that cannot be read as
/// a document of its kind, or that lacks the list, declares none.
pub open spec fn declared(kind: ManifestKind, content: Seq<char>, source: Seq<char>) -> Seq<DependencyView> {
    match kind {
        ManifestKind::Requirements => requirement_records(content, source),
        ManifestKind::SetupScript => match regex_first_group(list_pattern(), content) {
            Ok(Some(rest)) => match list_inside(rest) {
                Some(list) => setup_records(list, source),
                None => Seq::empty(),
            },
            _ => Seq::empty(),
        },
        ManifestKind::Pipfile => match toml_table(content, "packages"@) {
            Ok(Some(entries)) => table_records(entries, source),
            _ => Seq::empty(),
        },
        ManifestKind::Pyproject => match toml_array(content, "project"@, "dependencies"@) {
            Ok(Some(items)) => listed_records(items, source),
            _ => Seq::empty(),
        },
        ManifestKind::Environment => match yaml_sequence(content, "dependencies"@) {
            Some(Some(items)) => listed_records(items, source),
            _ => Seq::empty(),
        },
    }
}

/// The records that a file declares: those of its kind of manifest, and none
/// where it is no manifest.
pub open spec fn declared_by(file: ProjectFileView) -> Seq<DependencyView> {
    match kind_of(file.file_name) {
        Some(kind) => declared(kind, file.content, file.path),
        None => Seq::empty(),
    }
}

/// The records that the first `upto` files declare, without their order.
pub open spec fn declared_upto(files: Seq<ProjectFileView>, upto: int) -> Multiset<DependencyView>
    decreases upto,
{
    if upto <= 0 || upto > files.len() {
        Multiset::empty()
    } else {
        declared_upto(files, upto - 1).add(declared_by(files[upto - 1]).to_multiset())
    }
}

/// A file that is read without failure enters the records that it declares,
/// in their order.
pub proof fn law_file_enters_what_it_declares(a: AnalyzerView, file: ProjectFileView)
    requires
        file_outcome(a, file).error is None,
    ensures
        file_outcome(a, file).state == add_records(a, declared_by(file)),
{
}

/// After a scan without failure the registry holds what it held before and
/// every record that one of the files declares, as often as it is declared:
/// a manifest with N entries leaves N records, whatever else was scanned.
pub proof fn law_scan_keeps_what_is_declared(a: AnalyzerView, files: Seq<ProjectFileView>, upto: int)
    requires
        0 <= upto <= files.len(),
        scan_upto(a, files, upto).error is None,
    ensures
        contents(scan_upto(a, files, upto).state.packages) == contents(a.packages).add(
            declared_upto(files, upto),
        ),
    decreases upto,
{
    broadcast use vstd::multiset::group_multiset_axioms;

    if upto > 0 {
        let before = scan_upto(a, files, upto - 1);
        law_scan_keeps_what_is_declared(a, files, upto - 1);
        law_file_enters_what_it_declares(before.state, files[upto - 1]);
        law_records_are_kept(before.state, declared_by(files[upto - 1]));
        assert(contents(scan_upto(a, files, upto).state.packages) =~= contents(a.packages).add(
            declared_upto(files, upto),
        ));
    } else {
        assert(contents(a.packages) =~= contents(a.packages).add(Multiset::empty()));
    }
}

/// A scan of the same files in the same order, from the same registry and
/// graph, gives the same registry and graph, the same findings and the same
/// renderings: nothing but its arguments enters into what the library
/// computes.
pub proof fn law_same_files_same_results(
    a: AnalyzerView,
    b: AnalyzerView,
    first: Seq<ProjectFileView>,
    second: Seq<ProjectFileView>,
    format: Seq<char>,
)
    requires
        a == b,
        first == second,
    ensures
        scan(a, first) == scan(b, second),
        conflict_findings(scan(a, first).state.packages, known_conflicts()) == conflict_findings(
            scan(b, second).state.packages,
            known_conflicts(),
        ),
        rendering(scan(a, first).state, known_conflicts(), format) == rendering(
            scan(b, second).state,
            known_conflicts(),
            format,
        ),
{
}

/// Whatever is entered, the registry and graph stay well formed: no name
/// stands twice, every record stands under its own name, and the graph has
/// the edges from each package to those that it builds on and that were
/// sighted before it, and no others.
pub proof fn law_records_keep_the_registry_well_formed(
    a: AnalyzerView,
    records: Seq<DependencyView>,
    upto: int,
)
    requires
        well_formed(a),
        0 <= upto <= records.len(),
    ensures
        well_formed(add_records_upto(a, records, upto)),
    decreases upto,
{
    if upto > 0 {
        law_records_keep_the_registry_well_formed(a, records, upto - 1);
        lemma_add_record_well_formed(add_records_upto(a, records, upto - 1), records[upto - 1]);
    }
}

/// What becomes of the registry when a record is entered: the record joins
/// the records of the package of its name as the last of them, or opens a
/// package as the last of the registry. Every package that was there keeps
/// its place, its name and, the record's own package apart, its records.
pub proof fn law_record_joins_its_package(a: AnalyzerView, record: DependencyView)
    ensures
        has_package(a.packages, record.name) ==> {
            let at = index_of(a.packages, record.name);
            let after = add_record(a, record);
            &&& after.packages.len() == a.packages.len()
            &&& after.packages[at].name == record.name
            &&& after.packages[at].records == a.packages[at].records.push(record)
            &&& forall|i: int|
                0 <= i < a.packages.len() && i != at ==> after.packages[i] == a.packages[i]
            &&& after.edges == a.edges
        },
        !has_package(a.packages, record.name) ==> {
            let after = add_record(a, record);
            &&& after.packages.len() == a.packages.len() + 1
            &&& after.packages[a.packages.len() as int] == (PackageView {
                name: record.name,
                records: seq![record],
            })
            &&& forall|i: int| 0 <= i < a.packages.len() ==> after.packages[i] == a.packages[i]
        },
{
    lemma_index_from(a.packages, record.name, 0);
}

/// Whatever is entered, every package that was there keeps its place and
/// its name, and the records that it held stay where they were: new records
/// of the package come after them.
pub proof fn law_entering_keeps_what_was_held(a: AnalyzerView, records: Seq<DependencyView>, upto: int)
    requires
        0 <= upto <= records.len(),
    ensures
        add_records_upto(a, records, upto).packages.len() >= a.packages.len(),
        forall|i: int|
            0 <= i < a.packages.len() ==> {
                let before = #[trigger] a.packages[i];
                let after = add_records_upto(a, records, upto).packages[i];
                &&& after.name == before.name
                &&& before.records.is_prefix_of(after.records)
            },
    decreases upto,
{
    if upto > 0 {
        let middle = add_records_upto(a, records, upto - 1);
        let end = add_records_upto(a, records, upto);
        law_entering_keeps_what_was_held(a, records, upto - 1);
        law_record_joins_its_package(middle, records[upto - 1]);
        lemma_index_from(middle.packages, records[upto - 1].name, 0);
        assert forall|i: int| 0 <= i < a.packages.len() implies ({
            let before = #[trigger] a.packages[i];
            let after = end.packages[i];
            &&& after.name == before.name
            &&& before.records.is_prefix_of(after.records)
        }) by {
            let held = a.packages[i].records;
            let then = middle.packages[i].records;
            let now = end.packages[i].records;
            assert(held.is_prefix_of(then));
            assert(then.is_prefix_of(now)) by {
                if now != then {
                    assert(now == then.push(records[upto - 1]));
                    assert(then =~= now.subrange(0, then.len() as int));
                } else {
                    assert(then =~= now.subrange(0, then.len() as int));
                }
            }
            assert(held =~= now.subrange(0, held.len() as int));
        }
    } else {
        assert forall|i: int| 0 <= i < a.packages.len() implies (#[trigger] a.packages[i]).records.is_prefix_of(
            a.packages[i].records,
        ) by {
            let held = a.packages[i].records;
            assert(held =~= held.subrange(0, held.len() as int));
        }
    }
}

/// The test whether a record is of the package called `name`.
pub open spec fn named(name: Seq<char>) -> spec_fn(DependencyView) -> bool {
    |record: DependencyView| record.name == name
}

/// Which of the records of a sequence are of the package called `name`: all
/// of them where each carries that name, none where none does.
pub proof fn lemma_records_named(records: Seq<DependencyView>, own: Seq<char>, name: Seq<char>)
    requires
        forall|k: int| 0 <= k < records.len() ==> (#[trigger] records[k]).name == own,
    ensures
        records.to_multiset().filter(named(name)) == if own == name {
            records.to_multiset()
        } else {
            Multiset::empty()
        },
{
    broadcast use vstd::multiset::group_multiset_axioms;
    broadcast use vstd::seq_lib::group_to_multiset_ensures;

    let all = records.to_multiset();
    if own == name {
        assert forall|v: DependencyView| all.filter(named(name)).count(v) == all.count(v) by {
            if all.count(v) > 0 {
                assert(records.contains(v));
                assert(named(name)(v));
            }
        }
        assert(all.filter(named(name)) =~= all);
    } else {
        assert forall|v: DependencyView| all.filter(named(name)).count(v) == 0 by {
            if all.count(v) > 0 {
                assert(records.contains(v));
                assert(!named(name)(v));
            }
        }
        assert(all.filter(named(name)) =~= Multiset::empty());
    }
}

/// Among the first `upto` packages, the records of the package called
/// `name` are those that the package of that name holds.
pub proof fn lemma_records_of_name(a: AnalyzerView, name: Seq<char>, upto: int)
    requires
        well_formed(a),
        0 <= upto <= a.packages.len(),
    ensures
        contents_upto(a.packages, upto).filter(named(name)) == if index_of(a.packages, name) < upto {
            a.packages[index_of(a.packages, name)].records.to_multiset()
        } else {
            Multiset::empty()
        },
    decreases upto,
{
    broadcast use vstd::multiset::group_multiset_axioms;

    lemma_index_from(a.packages, name, 0);
    if upto > 0 {
        let last = a.packages[upto - 1];
        lemma_records_of_name(a, name, upto - 1);
        lemma_records_named(last.records, last.name, name);
        crate::model::lemma_index_of_unique(a.packages, upto - 1);
        let before = contents_upto(a.packages, upto - 1);
        assert(contents_upto(a.packages, upto).filter(named(name)) =~= before.filter(named(name)).add(
            last.records.to_multiset().filter(named(name)),
        ));
        if last.name == name {
            assert(index_of(a.packages, name) == upto - 1);
            assert(Multiset::<DependencyView>::empty().add(last.records.to_multiset())
                =~= last.records.to_multiset());
        } else {
            assert(index_of(a.packages, name) != upto - 1);
            assert(before.filter(named(name)).add(Multiset::empty()) =~= before.filter(named(name)));
        }
    } else {
        assert(contents_upto(a.packages, 0).filter(named(name)) =~= Multiset::empty());
    }
}

/// A package holds exactly the records of its name that the registry holds,
/// and the registry has a package of a name exactly where it holds a record
/// of that name.
pub proof fn law_package_holds_the_records_of_its_name(a: AnalyzerView, name: Seq<char>)
    requires
        well_formed(a),
    ensures
        has_package(a.packages, name) ==> a.packages[index_of(
            a.packages,
            name,
        )].records.to_multiset() == contents(a.packages).filter(named(name)),
        has_package(a.packages, name) <==> contents(a.packages).filter(named(name)).len() > 0,
{
    broadcast use vstd::multiset::group_multiset_axioms;
    broadcast use vstd::seq_lib::group_to_multiset_ensures;

    lemma_records_of_name(a, name, a.packages.len() as int);
    lemma_index_from(a.packages, name, 0);
    if has_package(a.packages, name) {
        let records = a.packages[index_of(a.packages, name)].records;
        records.to_multiset_ensures();
        assert(records.len() > 0);
    }
}

/// Records that are entered in another order give the same packages, each
/// with the same records: only the order of the records of a package, the
/// order of the packages and the edges may differ.
pub proof fn law_entry_order_keeps_each_package(
    a: AnalyzerView,
    first: Seq<DependencyView>,
    second: Seq<DependencyView>,
    name: Seq<char>,
)
    requires
        well_formed(a),
        first.to_multiset() == second.to_multiset(),
    ensures
        has_package(add_records(a, first).packages, name) == has_package(
            add_records(a, second).packages,
            name,
        ),
        has_package(add_records(a, first).packages, name) ==> add_records(a, first).packages[index_of(
            add_records(a, first).packages,
            name,
        )].records.to_multiset() == add_records(a, second).packages[index_of(
            add_records(a, second).packages,
            name,
        )].records.to_multiset(),
{
    law_order_is_immaterial(a, first, second);
    law_records_keep_the_registry_well_formed(a, first, first.len() as int);
    law_records_keep_the_registry_well_formed(a, second, second.len() as int);
    law_package_holds_the_records_of_its_name(add_records(a, first), name);
    law_package_holds_the_records_of_its_name(add_records(a, second), name);
}

/// The first record of `pandas` adds exactly one edge, from `pandas` to
/// `numpy`, where the registry holds `numpy` already, and no edge where it
/// does not. No later record makes up for a missing edge.
pub proof fn law_first_pandas_record(a: AnalyzerView, record: DependencyView)
    requires
        record.name == "pandas"@,
        !has_package(a.packages, "pandas"@),
    ensures
        has_package(a.packages, "numpy"@) ==> add_record(a, record).edges == a.edges.push(
            (a.packages.len() as int, index_of(a.packages, "numpy"@)),
        ),
        !has_package(a.packages, "numpy"@) ==> add_record(a, record).edges == a.edges,
{
    let targets = implied(record.name);
    let n = a.packages.len() as int;
    assert(targets == seq!["numpy"@]);
    assert(targets[0] == "numpy"@);
    assert(edges_upto(a.packages, n, targets, 0) =~= Seq::<(int, int)>::empty());
    if has_package(a.packages, "numpy"@) {
        assert(edges_upto(a.packages, n, targets, 1) =~= seq![
            (n, index_of(a.packages, "numpy"@)),
        ]);
        assert(add_record(a, record).edges =~= a.edges.push((n, index_of(a.packages, "numpy"@))));
    } else {
        assert(edges_upto(a.packages, n, targets, 1) =~= Seq::<(int, int)>::empty());
        assert(add_record(a, record).edges =~= a.edges);
    }
}

/// The records that all of `files` declare, without their order.
pub open spec fn declared_all(files: Seq<ProjectFileView>) -> Multiset<DependencyView> {
    declared_upto(files, files.len() as int)
}

/// Two sequences of files that agree on their first `upto` files declare
/// the same records there.
pub proof fn lemma_declared_agree(first: Seq<ProjectFileView>, second: Seq<ProjectFileView>, upto: int)
    requires
        0 <= upto <= first.len(),
        upto <= second.len(),
        forall|i: int| 0 <= i < upto ==> first[i] == second[i],
    ensures
        declared_upto(first, upto) == declared_upto(second, upto),
    decreases upto,
{
    if upto > 0 {
        lemma_declared_agree(first, second, upto - 1);
    }
}

/// What files declare is what they declare without one of them, and what
/// that one declares.
pub proof fn lemma_declared_without(files: Seq<ProjectFileView>, at: int)
    requires
        0 <= at < files.len(),
    ensures
        declared_all(files) == declared_all(files.remove(at)).add(
            declared_by(files[at]).to_multiset(),
        ),
    decreases files.len(),
{
    broadcast use vstd::multiset::group_multiset_axioms;

    let n = files.len() as int;
    let rest = files.remove(at);
    if at == n - 1 {
        lemma_declared_agree(files, rest, n - 1);
    } else {
        let shorter = files.take(n - 1);
        lemma_declared_without(shorter, at);
        lemma_declared_agree(files, shorter, n - 1);
        assert(rest[n - 2] == files[n - 1]);
        assert(shorter.remove(at).len() == n - 2);
        assert forall|i: int| 0 <= i < n - 2 implies rest[i] == shorter.remove(at)[i] by {}
        lemma_declared_agree(rest, shorter.remove(at), n - 2);
        assert(shorter[at] == files[at]);
        assert(declared_all(files) =~= declared_all(rest).add(declared_by(files[at]).to_multiset()));
    }
}

/// Files declare the same records in whatever order they stand.
pub proof fn lemma_declared_ignores_order(first: Seq<ProjectFileView>, second: Seq<ProjectFileView>)
    requires
        first.to_multiset() == second.to_multiset(),
    ensures
        declared_all(first) == declared_all(second),
    decreases first.len(),
{
    broadcast use vstd::multiset::group_multiset_axioms;
    broadcast use vstd::seq_lib::group_to_multiset_ensures;

    first.to_multiset_ensures();
    second.to_multiset_ensures();
    assert(first.len() == second.len());
    if first.len() > 0 {
        let last = first.len() - 1;
        let file = first[last];
        assert(first.contains(file));
        assert(second.to_multiset().count(file) > 0);
        assert(second.contains(file));
        let at = choose|at: int| 0 <= at < second.len() && second[at] == file;
        assert(first.remove(last).to_multiset() =~= first.to_multiset().remove(file));
        assert(second.remove(at).to_multiset() =~= second.to_multiset().remove(file));
        lemma_declared_ignores_order(first.remove(last), second.remove(at));
        lemma_declared_without(first, last);
        lemma_declared_without(second, at);
    }
}

/// The same files leave the same records in the registry in whatever order
/// they are scanned, where no scan fails. A scan that fails stops at the
/// failing manifest, so what it leaves does depend on the order. The order
/// of the records of a package, and with it the graph's edges and the
/// wording of findings, may differ as well.
pub proof fn law_scan_order_is_immaterial(
    a: AnalyzerView,
    first: Seq<ProjectFileView>,
    second: Seq<ProjectFileView>,
)
    requires
        first.to_multiset() == second.to_multiset(),
        scan(a, first).error is None,
        scan(a, second).error is None,
    ensures
        contents(scan(a, first).state.packages) == contents(scan(a, second).state.packages),
{
    law_scan_keeps_what_is_declared(a, first, first.len() as int);
    law_scan_keeps_what_is_declared(a, second, second.len() as int);
    lemma_declared_ignores_order(first, second);
}

/// The test whether a record was declared in the file `source`.
pub open spec fn cites(source: Seq<char>) -> spec_fn(DependencyView) -> bool {
    |record: DependencyView| record.source_file == source
}

/// The number of records in the registry that were declared in `source`.
pub open spec fn held_from(packages: Seq<PackageView>, source: Seq<char>) -> nat {
    contents(packages).filter(cites(source)).len()
}

/// The records that the first `upto` items of a list declare cite the file.
pub proof fn lemma_listed_records_cite(items: Seq<Option<Seq<char>>>, upto: int, source: Seq<char>)
    requires
        0 <= upto <= items.len(),
    ensures
        forall|k: int|
            0 <= k < listed_records_upto(items, upto, source).len() ==> (
            #[trigger] listed_records_upto(items, upto, source)[k]).source_file == source,
    decreases upto,
{
    if upto > 0 {
        lemma_listed_records_cite(items, upto - 1, source);
    }
}

/// Every record that a manifest declares cites the path of the manifest.
pub proof fn law_declared_records_cite_their_file(file: ProjectFileView)
    ensures
        forall|k: int|
            0 <= k < declared_by(file).len() ==> (#[trigger] declared_by(file)[k]).source_file
                == file.path,
{
    match kind_of(file.file_name) {
        Some(kind) => {
            match kind {
                ManifestKind::Requirements => {
                    law_records_cite_their_source(Layout::Lines, file.content, 0, file.path);
                },
                ManifestKind::SetupScript => {
                    match regex_first_group(list_pattern(), file.content) {
                        Ok(Some(rest)) => match list_inside(rest) {
                            Some(list) => {
                                law_records_cite_their_source(Layout::List, list, 0, file.path);
                            },
                            None => {},
                        },
                        _ => {},
                    }
                },
                ManifestKind::Pipfile => {},
                ManifestKind::Pyproject => {
                    match toml_array(file.content, "project"@, "dependencies"@) {
                        Ok(Some(items)) => {
                            lemma_listed_records_cite(items, items.len() as int, file.path);
                        },
                        _ => {},
                    }
                },
                ManifestKind::Environment => {
                    match yaml_sequence(file.content, "dependencies"@) {
                        Some(Some(items)) => {
                            lemma_listed_records_cite(items, items.len() as int, file.path);
                        },
                        _ => {},
                    }
                },
            }
        },
        None => {},
    }
}

/// How many of the records of a sequence were declared in `source`: all of
/// them where each cites `source`, none where none does.
pub proof fn lemma_count_of_citing(records: Seq<DependencyView>, cited: Seq<char>, source: Seq<char>)
    requires
        forall|k: int| 0 <= k < records.len() ==> (#[trigger] records[k]).source_file == cited,
    ensures
        records.to_multiset().filter(cites(source)).len() == if cited == source {
            records.len()
        } else {
            0
        },
{
    broadcast use vstd::multiset::group_multiset_axioms;
    broadcast use vstd::seq_lib::group_to_multiset_ensures;

    let all = records.to_multiset();
    if cited == source {
        assert forall|v: DependencyView| all.filter(cites(source)).count(v) == all.count(v) by {
            if all.count(v) > 0 {
                assert(records.contains(v));
                assert(cites(source)(v));
            }
        }
        assert(all.filter(cites(source)) =~= all);
    } else {
        assert forall|v: DependencyView| all.filter(cites(source)).count(v) == 0 by {
            if all.count(v) > 0 {
                assert(records.contains(v));
                assert(!cites(source)(v));
            }
        }
        assert(all.filter(cites(source)) =~= Multiset::empty());
    }
}

/// A manifest that is read without failure leaves as many records that
/// cite its path as it has entries, beside those that were there, and none
/// that cites another file.
pub proof fn law_file_leaves_its_entries(a: AnalyzerView, file: ProjectFileView, source: Seq<char>)
    requires
        file_outcome(a, file).error is None,
    ensures
        held_from(file_outcome(a, file).state.packages, source) == held_from(a.packages, source)
            + if source == file.path {
            declared_by(file).len()
        } else {
            0
        },
{
    broadcast use vstd::multiset::group_multiset_axioms;

    let records = declared_by(file);
    law_file_enters_what_it_declares(a, file);
    law_records_are_kept(a, records);
    law_declared_records_cite_their_file(file);
    lemma_count_of_citing(records, file.path, source);
    let before = contents(a.packages);
    let after = contents(file_outcome(a, file).state.packages);
    assert(after.filter(cites(source)) =~= before.filter(cites(source)).add(
        records.to_multiset().filter(cites(source)),
    ));
}

/// The number of entries of those of the first `upto` files whose path is
/// `source`.
pub open spec fn entries_from_upto(files: Seq<ProjectFileView>, upto: int, source: Seq<char>) -> nat
    decreases upto,
{
    if upto <= 0 || upto > files.len() {
        0
    } else if files[upto - 1].path == source {
        entries_from_upto(files, upto - 1, source) + declared_by(files[upto - 1]).len()
    } else {
        entries_from_upto(files, upto - 1, source)
    }
}

/// After a scan without failure, the records that cite a path are those
/// that cited it before and one for each entry of the manifests at that
/// path: for each manifest, as many records as it has entries.
pub proof fn law_scan_counts_by_file(
    a: AnalyzerView,
    files: Seq<ProjectFileView>,
    upto: int,
    source: Seq<char>,
)
    requires
        0 <= upto <= files.len(),
        scan_upto(a, files, upto).error is None,
    ensures
        held_from(scan_upto(a, files, upto).state.packages, source) == held_from(
            a.packages,
            source,
        ) + entries_from_upto(files, upto, source),
    decreases upto,
{
    if upto > 0 {
        let before = scan_upto(a, files, upto - 1);
        law_scan_counts_by_file(a, files, upto - 1, source);
        law_file_leaves_its_entries(before.state, files[upto - 1], source);
    }
}

/// Every record that a text declares names the file it was declared in, and
/// carries the declaration as it was written.
pub proof fn law_records_cite_their_source(layout: Layout, text: Seq<char>, from: int, source: Seq<char>)
    requires
        0 <= from <= text.len(),
    ensures
        forall|k: int|
            0 <= k < piece_records_from(layout, text, from, source).len() ==> (
            #[trigger] piece_records_from(layout, text, from, source)[k]).source_file == source,
    decreases text.len() - from,
{
    let end = find(text, from, CharClass::Exactly(layout.separator()));
    lemma_find_bounds(text, from, CharClass::Exactly(layout.separator()));
    if end < text.len() {
        law_records_cite_their_source(layout, text, end + 1, source);
    }
}

/// In a well-formed registry every record stands under its own name.
pub proof fn law_records_stand_under_their_name(a: AnalyzerView, package: int, record: int)
    requires
        well_formed(a),
        0 <= package < a.packages.len(),
        0 <= record < a.packages[package].records.len(),
    ensures
        a.packages[package].records[record].name == a.packages[package].name,
        index_of(a.packages, a.packages[package].records[record].name) == package,
{
    crate::model::lemma_index_of_unique(a.packages, package);
}

/// The indices of those of the first `upto` packages that have more than one
/// record.
pub open spec fn several_upto(packages: Seq<PackageView>, upto: int) -> Seq<int>
    decreases upto,
{
    if upto <= 0 || upto > packages.len() {
        Seq::empty()
    } else if packages[upto - 1].records.len() > 1 {
        several_upto(packages, upto - 1).push(upto - 1)
    } else {
        several_upto(packages, upto - 1)
    }
}

/// The first rule gives one finding for each package with more than one
/// record, and none for any other: the findings are those of the packages
/// with several records, in the registry's order.
pub proof fn law_multiple_findings(packages: Seq<PackageView>, upto: int)
    requires
        0 <= upto <= packages.len(),
    ensures
        multiple_findings_upto(packages, upto).len() == several_upto(packages, upto).len(),
        forall|k: int|
            0 <= k < several_upto(packages, upto).len() ==> {
                let at = #[trigger] several_upto(packages, upto)[k];
                &&& 0 <= at < upto
                &&& packages[at].records.len() >= 2
                &&& multiple_findings_upto(packages, upto)[k] == multiple_finding(packages[at])
            },
        forall|at: int|
            0 <= at < upto && (#[trigger] packages[at]).records.len() >= 2 ==> several_upto(
                packages,
                upto,
            ).contains(at),
    decreases upto,
{
    if upto > 0 {
        law_multiple_findings(packages, upto - 1);
        let before = several_upto(packages, upto - 1);
        let now = several_upto(packages, upto);
        assert forall|at: int|
            0 <= at < upto && (#[trigger] packages[at]).records.len() >= 2 implies now.contains(
            at,
        ) by {
            if at < upto - 1 {
                let w = choose|w: int| 0 <= w < before.len() && before[w] == at;
                assert(now[w] == at);
            } else {
                assert(now[before.len() as int] == at);
            }
        }
    }
}

/// The first rule is silent where no package has more than one record.
pub proof fn law_single_records_give_no_finding(packages: Seq<PackageView>)
    requires
        forall|i: int| 0 <= i < packages.len() ==> (#[trigger] packages[i]).records.len() <= 1,
    ensures
        multiple_findings(packages).len() == 0,
{
    lemma_no_multiple_findings(packages, packages.len() as int);
}

/// Among packages with at most one record each, the first rule finds nothing.
pub proof fn lemma_no_multiple_findings(packages: Seq<PackageView>, upto: int)
    requires
        0 <= upto <= packages.len(),
        forall|i: int| 0 <= i < packages.len() ==> (#[trigger] packages[i]).records.len() <= 1,
    ensures
        multiple_findings_upto(packages, upto).len() == 0,
    decreases upto,
{
    if upto > 0 {
        lemma_no_multiple_findings(packages, upto - 1);
    }
}

/// Whether every finding of a sequence starts with the character `c`.
pub open spec fn all_start_with(findings: Seq<Seq<char>>, c: char) -> bool {
    forall|k: int| 0 <= k < findings.len() ==> (#[trigger] findings[k]).len() > 0 && findings[k][0] == c
}

/// The findings of the first rule start with `M`.
pub proof fn lemma_multiple_findings_start(packages: Seq<PackageView>, upto: int)
    requires
        0 <= upto <= packages.len(),
    ensures
        all_start_with(multiple_findings_upto(packages, upto), 'M'),
    decreases upto,
{
    if upto > 0 {
        lemma_multiple_findings_start(packages, upto - 1);
        reveal_strlit("Multiple version requirements for ");
        let finding = multiple_finding(packages[upto - 1]);
        assert(finding[0] == 'M');
    }
}

/// The findings about one entry of the table start with `K`.
pub proof fn lemma_entry_findings_start(packages: Seq<PackageView>, entry: ConflictEntryView, upto: int)
    requires
        0 <= upto <= entry.incompatible.len(),
    ensures
        all_start_with(entry_findings_upto(packages, entry, upto), 'K'),
    decreases upto,
{
    if upto > 0 {
        lemma_entry_findings_start(packages, entry, upto - 1);
        reveal_strlit("Known conflict: ");
        let finding = pair_finding(packages, entry.package, entry.incompatible[upto - 1]);
        assert(finding[0] == 'K');
    }
}

/// The findings of the second rule start with `K`.
pub proof fn lemma_pair_findings_start(packages: Seq<PackageView>, table: Seq<ConflictEntryView>, upto: int)
    requires
        0 <= upto <= table.len(),
    ensures
        all_start_with(pair_findings_upto(packages, table, upto), 'K'),
    decreases upto,
{
    if upto > 0 {
        lemma_pair_findings_start(packages, table, upto - 1);
        lemma_entry_findings_start(
            packages,
            table[upto - 1],
            table[upto - 1].incompatible.len() as int,
        );
    }
}

/// The three package names that the rules about particular packages speak
/// of differ from one another.
pub proof fn lemma_special_names_differ()
    ensures
        "numpy"@ != "tensorflow"@,
        "numpy"@ != "transformers"@,
        "tensorflow"@ != "transformers"@,
{
    reveal_strlit("numpy");
    reveal_strlit("tensorflow");
    reveal_strlit("transformers");
    assert("numpy"@.len() == 5);
    assert("tensorflow"@.len() == 10);
    assert("transformers"@.len() == 12);
}

/// The warning about `transformers` is among the findings of the third rule
/// about one package only for a package of that name beside both backends.
pub proof fn lemma_special_finding_is_transformers(packages: Seq<PackageView>, package: PackageView)
    requires
        special_findings(packages, package).contains(transformers_finding()),
    ensures
        package.name == "transformers"@,
        has_package(packages, "tensorflow"@),
        has_package(packages, "torch"@),
{
    reveal_strlit("Warning: numpy ");
    reveal_strlit("Potential conflict: tensorflow ");
    reveal_strlit(
        "Warning: transformers is being used with both tensorflow and torch.\n      Suggestion: Consider using only one backend for better efficiency",
    );
    let found = special_findings(packages, package);
    let k = choose|k: int| 0 <= k < found.len() && found[k] == transformers_finding();
    assert(transformers_finding()[0] == 'W');
    assert(transformers_finding()[9] == 't');
    if package.records.len() > 0 {
        let spec = package.records[0].version_spec;
        assert(numpy_finding(spec)[9] == 'n');
        assert(tensorflow_finding(spec)[0] == 'P');
    }
}

/// What the third rule finds about one of the first `upto` packages is
/// among its findings for all of them, and the other way round.
pub proof fn lemma_special_findings_members(packages: Seq<PackageView>, upto: int, finding: Seq<char>)
    requires
        0 <= upto <= packages.len(),
    ensures
        special_findings_upto(packages, upto).contains(finding) <==> exists|i: int|
            0 <= i < upto && #[trigger] special_findings(packages, packages[i]).contains(finding),
    decreases upto,
{
    if upto > 0 {
        lemma_special_findings_members(packages, upto - 1, finding);
        let before = special_findings_upto(packages, upto - 1);
        let last = special_findings(packages, packages[upto - 1]);
        let now = special_findings_upto(packages, upto);
        assert(now == before + last);
        if now.contains(finding) {
            let w = choose|w: int| 0 <= w < now.len() && now[w] == finding;
            if w < before.len() {
                assert(before[w] == finding);
                assert(before.contains(finding));
            } else {
                assert(last[w - before.len()] == finding);
                assert(special_findings(packages, packages[upto - 1]).contains(finding));
            }
        }
        if exists|i: int|
            0 <= i < upto && #[trigger] special_findings(packages, packages[i]).contains(finding) {
            let i = choose|i: int|
                0 <= i < upto && #[trigger] special_findings(packages, packages[i]).contains(finding);
            if i < upto - 1 {
                assert(before.contains(finding));
                let w = choose|w: int| 0 <= w < before.len() && before[w] == finding;
                assert(now[w] == finding);
            } else {
                let w = choose|w: int| 0 <= w < last.len() && last[w] == finding;
                assert(now[before.len() + w] == finding);
            }
        }
    }
}

/// The warning about `transformers` beside both of its backends is among the
/// findings if and only if the registry holds `transformers`, `tensorflow`
/// and `torch`.
pub proof fn law_transformers_warning(a: AnalyzerView)
    requires
        well_formed(a),
    ensures
        conflict_findings(a.packages, known_conflicts()).contains(transformers_finding()) <==> (
        has_package(a.packages, "transformers"@) && has_package(a.packages, "tensorflow"@)
            && has_package(a.packages, "torch"@)),
{
    let packages = a.packages;
    let n = packages.len() as int;
    let table = known_conflicts();
    let wanted = transformers_finding();
    let first = multiple_findings(packages);
    let second = pair_findings(packages, table);
    let third = special_findings_all(packages);
    let all = conflict_findings(packages, table);
    reveal_strlit(
        "Warning: transformers is being used with both tensorflow and torch.\n      Suggestion: Consider using only one backend for better efficiency",
    );
    assert(wanted[0] == 'W');
    lemma_multiple_findings_start(packages, n);
    lemma_pair_findings_start(packages, table, table.len() as int);
    lemma_special_findings_members(packages, n, wanted);
    lemma_special_names_differ();
    if all.contains(wanted) {
        let w = choose|w: int| 0 <= w < all.len() && all[w] == wanted;
        if w < first.len() {
            assert(first[w] == wanted);
        } else if w < first.len() + second.len() {
            assert(second[w - first.len()] == wanted);
        } else {
            assert(third[w - first.len() - second.len()] == wanted);
            assert(third.contains(wanted));
            let i = choose|i: int|
                0 <= i < n && #[trigger] special_findings(packages, packages[i]).contains(wanted);
            lemma_special_finding_is_transformers(packages, packages[i]);
            lemma_index_from(packages, "transformers"@, 0);
        }
    }
    if has_package(packages, "transformers"@) && has_package(packages, "tensorflow"@)
        && has_package(packages, "torch"@) {
        let i = index_of(packages, "transformers"@);
        lemma_index_from(packages, "transformers"@, 0);
        assert(packages[i].records.len() > 0);
        assert(special_findings(packages, packages[i]) == seq![wanted]);
        assert(seq![wanted][0] == wanted);
        assert(special_findings(packages, packages[i]).contains(wanted));
        assert(third.contains(wanted));
        let w = choose|w: int| 0 <= w < third.len() && third[w] == wanted;
        assert(all[first.len() + second.len() + w] == wanted);
    }
}

/// The graph holds an edge from one package to another if and only if the
/// second is one that the first is known to build on and was sighted before
/// the first. A package that is sighted after a package that builds on it
/// gets no edge from it, then or later.
pub proof fn law_edge_needs_earlier_target(a: AnalyzerView, source: int, target: int)
    requires
        well_formed(a),
        0 <= source < a.packages.len(),
        0 <= target < a.packages.len(),
    ensures
        a.edges.contains((source, target)) <==> (target < source && implied(
            a.packages[source].name,
        ).contains(a.packages[target].name)),
{
    if a.edges.contains((source, target)) {
        let e = choose|e: int| 0 <= e < a.edges.len() && a.edges[e] == (source, target);
        assert(edge_allowed(a.packages, a.edges[e].0, a.edges[e].1));
    }
    if target < source && implied(a.packages[source].name).contains(a.packages[target].name) {
        assert(edge_allowed(a.packages, source, target));
    }
}

/// Between `pandas` and `numpy` there is an edge if and only if `numpy` was
/// sighted first.
pub proof fn law_pandas_numpy_edge(a: AnalyzerView)
    requires
        well_formed(a),
        has_package(a.packages, "pandas"@),
        has_package(a.packages, "numpy"@),
    ensures
        a.edges.contains((index_of(a.packages, "pandas"@), index_of(a.packages, "numpy"@)))
            <==> index_of(a.packages, "numpy"@) < index_of(a.packages, "pandas"@),
{
    let pandas = index_of(a.packages, "pandas"@);
    let numpy = index_of(a.packages, "numpy"@);
    lemma_index_from(a.packages, "pandas"@, 0);
    lemma_index_from(a.packages, "numpy"@, 0);
    law_edge_needs_earlier_target(a, pandas, numpy);
    assert(implied("pandas"@) == seq!["numpy"@]);
    assert(seq!["numpy"@][0] == "numpy"@);
}

} // verus!
