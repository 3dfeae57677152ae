//! The manifest parsers: what each kind of manifest declares, as records,
//! and the entry of those records into the registry.
use vstd::prelude::*;
use vstd::std_specs::iter::IteratorSpec;
use crate::analyzer::DependencyAnalyzer;
use crate::documents::{
    array_under, first_group, items_view, regex_first_group, sequence_under, table_under,
    table_view, toml_array, toml_table, yaml_sequence, TableEntry, TableEntryView,
};
use crate::error::{AnalysisError, AnalysisErrorView};
use crate::model::{
    add_records, add_records_upto, records_view, text_of, AnalyzerView, Dependency, DependencyView,
};
use crate::text::{
    chars_of, find, find_in, is_named, slice_of, string_of, strip, strip_of, trim, CharClass,
};
use crate::version::{normalize, normalize_of, parse_requirement, semver_requirement};

verus! {

/// The kinds of manifest that the library reads.
#[derive(Clone, Copy, Debug, PartialEq, Eq, Structural)]
pub enum ManifestKind {
    /// A plain list of requirements, one on each line.
    Requirements,
    /// A setup script with an `install_requires` list.
    SetupScript,
    /// A lock-style table of packages.
    Pipfile,
    /// A table of project metadata.
    Pyproject,
    /// A conda-style environment.
    Environment,
}

/// The kind of manifest that a file of the given base name is, if it is one.
pub open spec fn kind_of(file_name: Seq<char>) -> Option<ManifestKind> {
    if file_name == "requirements.txt"@ {
        Some(ManifestKind::Requirements)
    } else if file_name == "setup.py"@ {
        Some(ManifestKind::SetupScript)
    } else if file_name == "Pipfile"@ {
        Some(ManifestKind::Pipfile)
    } else if file_name == "pyproject.toml"@ {
        Some(ManifestKind::Pyproject)
    } else if file_name == "environment.yml"@ {
        Some(ManifestKind::Environment)
    } else {
        None
    }
}

/// Tells by a file's base name which kind of manifest it is.
pub fn manifest_kind(file_name: &str) -> (kind: Option<ManifestKind>)
    ensures
        kind == kind_of(file_name@),
{
    let name = file_name.to_owned();
    if is_named(&name, "requirements.txt") {
        Some(ManifestKind::Requirements)
    } else if is_named(&name, "setup.py") {
        Some(ManifestKind::SetupScript)
    } else if is_named(&name, "Pipfile") {
        Some(ManifestKind::Pipfile)
    } else if is_named(&name, "pyproject.toml") {
        Some(ManifestKind::Pyproject)
    } else if is_named(&name, "environment.yml") {
        Some(ManifestKind::Environment)
    } else {
        None
    }
}

/// The name of the package that an entry declares: what stands before the
/// entry's first delimiter, trimmed.
pub open spec fn package_name(entry: Seq<char>) -> Seq<char> {
    trim(entry.subrange(0, find(entry, 0, CharClass::Delimiter)))
}

/// A record with the given name and restriction. Its structured constraint
/// is what the restriction parses to once it is rewritten for the
/// constraint parser.
pub open spec fn record_with(name: Seq<char>, spec: Seq<char>, source: Seq<char>) -> DependencyView {
    DependencyView {
        name,
        version_spec: spec,
        version_req: semver_requirement(normalize(spec)),
        resolved_version: None,
        source_file: source,
    }
}

/// The record that an entry declares: the entry as a whole is the
/// restriction.
pub open spec fn entry_record(entry: Seq<char>, source: Seq<char>) -> DependencyView {
    record_with(package_name(entry), entry, source)
}

/// How a text is cut into entries.
#[derive(Clone, Copy, Debug, PartialEq, Eq, Structural)]
pub enum Layout {
    /// One entry on each line; lines that start with `#` are comments.
    Lines,
    /// Entries separated by commas, each of them possibly quoted.
    List,
}

impl Layout {
    /// The character that separates two pieces.
    pub open spec fn separator(self) -> char {
        match self {
            Layout::Lines => '\n',
            Layout::List => ',',
        }
    }

    /// A piece without what surrounds the entry in it: white space, and in a
    /// list also single quotes and then double quotes.
    pub open spec fn clean(self, piece: Seq<char>) -> Seq<char> {
        match self {
            Layout::Lines => trim(piece),
            Layout::List => strip(
                strip(trim(piece), CharClass::Exactly('\'')),
                CharClass::Exactly('"'),
            ),
        }
    }

    /// Whether a cleaned piece is an entry: it is not empty and, on a line,
    /// no comment.
    pub open spec fn is_entry(self, cleaned: Seq<char>) -> bool {
        match self {
            Layout::Lines => cleaned.len() > 0 && cleaned[0] != '#',
            Layout::List => cleaned.len() > 0,
        }
    }
}

/// The records that the pieces of `text` from index `from` on declare.
pub open spec fn piece_records_from(layout: Layout, text: Seq<char>, from: int, source: Seq<char>) -> Seq<
    DependencyView,
>
    decreases text.len() - from,
{
    if from < 0 || from > text.len() {
        Seq::empty()
    } else {
        let end = find(text, from, CharClass::Exactly(layout.separator()));
        let cleaned = layout.clean(text.subrange(from, end));
        let head = if layout.is_entry(cleaned) {
            seq![entry_record(cleaned, source)]
        } else {
            Seq::empty()
        };
        if from <= end < text.len() {
            head + piece_records_from(layout, text, end + 1, source)
        } else {
            head
        }
    }
}

/// The records that a plain list of requirements declares: one for each
/// line that is neither empty nor a comment.
pub open spec fn requirement_records(content: Seq<char>, source: Seq<char>) -> Seq<DependencyView> {
    piece_records_from(Layout::Lines, content, 0, source)
}

/// The records that the inside of an `install_requires` list declares: one
/// for each entry between commas that is not empty once its quotes are off.
pub open spec fn setup_records(list: Seq<char>, source: Seq<char>) -> Seq<DependencyView> {
    piece_records_from(Layout::List, list, 0, source)
}

/// The record that an entry of the packages table declares: the key is the
/// name, and the value the restriction where it is a text, `*` elsewhere.
pub open spec fn table_record(entry: TableEntryView, source: Seq<char>) -> DependencyView {
    match entry.text {
        Some(spec) => record_with(entry.key, spec, source),
        None => record_with(entry.key, "*"@, source),
    }
}

/// The records that the entries of the packages table declare.
pub open spec fn table_records(entries: Seq<TableEntryView>, source: Seq<char>) -> Seq<DependencyView> {
    Seq::new(entries.len(), |i: int| table_record(entries[i], source))
}

/// The records that the first `upto` items of a list declare: one for each
/// item that is a text.
pub open spec fn listed_records_upto(items: Seq<Option<Seq<char>>>, upto: int, source: Seq<char>) -> Seq<
    DependencyView,
>
    decreases upto,
{
    if upto <= 0 || upto > items.len() {
        Seq::empty()
    } else {
        match items[upto - 1] {
            Some(entry) => listed_records_upto(items, upto - 1, source).push(
                entry_record(entry, source),
            ),
            None => listed_records_upto(items, upto - 1, source),
        }
    }
}

/// The records that the items of a list declare.
pub open spec fn listed_records(items: Seq<Option<Seq<char>>>, source: Seq<char>) -> Seq<DependencyView> {
    listed_records_upto(items, items.len() as int, source)
}

/// The pattern that locates the `install_requires` list of a setup script:
/// it matches the marker, the equals sign and the opening bracket, and its
/// group takes what follows that bracket, to the end of the script.
pub open spec fn list_pattern() -> Seq<char> {
    "(?s)install_requires\\s*=\\s*\\[(.*)"@
}

/// The index of the `]` that closes a list of which `depth` brackets are
/// open at index `from`: every `[` on the way opens one more, every `]`
/// closes one, and the `]` that closes the last one is the end. Where the
/// brackets are not closed, the result is the length of `text`.
pub open spec fn balanced_end(text: Seq<char>, from: int, depth: int) -> int
    decreases text.len() - from,
{
    if from < 0 || from >= text.len() {
        text.len() as int
    } else if text[from] == ']' {
        if depth <= 1 {
            from
        } else {
            balanced_end(text, from + 1, depth - 1)
        }
    } else if text[from] == '[' {
        balanced_end(text, from + 1, depth + 1)
    } else {
        balanced_end(text, from + 1, depth)
    }
}

/// The inside of the list whose opening bracket stands just before `rest`:
/// what stands before the `]` that balances that bracket. Where no bracket
/// balances it, there is no list.
pub open spec fn list_inside(rest: Seq<char>) -> Option<Seq<char>> {
    let end = balanced_end(rest, 0, 1);
    if end < rest.len() {
        Some(rest.subrange(0, end))
    } else {
        None
    }
}

/// A registry and graph after an operation, with the failure if there was
/// one.
pub struct Outcome {
    pub state: AnalyzerView,
    pub error: Option<AnalysisErrorView>,
}

/// The outcome of entering `records`: all of them are entered, in order.
pub open spec fn entered(a: AnalyzerView, records: Seq<DependencyView>) -> Outcome {
    Outcome { state: add_records(a, records), error: None }
}

/// The outcome of a step that found nothing to enter.
pub open spec fn untouched(a: AnalyzerView) -> Outcome {
    Outcome { state: a, error: None }
}

/// The outcome of a step that failed before it entered anything.
pub open spec fn failed(a: AnalyzerView, error: AnalysisErrorView) -> Outcome {
    Outcome { state: a, error: Some(error) }
}

/// The outcome of entering what follows the opening bracket of a list: the
/// entries up to the balancing bracket are entered, and nothing is where no
/// bracket balances the opening one.
pub open spec fn list_outcome(a: AnalyzerView, rest: Seq<char>, source: Seq<char>) -> Outcome {
    match list_inside(rest) {
        Some(list) => entered(a, setup_records(list, source)),
        None => untouched(a),
    }
}

/// The outcome of reading a setup script, given what the search for the
/// opening of its list found.
pub open spec fn setup_outcome(
    a: AnalyzerView,
    found: Result<Option<Seq<char>>, Seq<char>>,
    source: Seq<char>,
) -> Outcome {
    match found {
        Err(message) => failed(a, AnalysisErrorView::Pattern(message)),
        Ok(None) => untouched(a),
        Ok(Some(rest)) => list_outcome(a, rest, source),
    }
}

/// The outcome of reading a packages table, given what the document holds
/// in its place.
pub open spec fn table_outcome(
    a: AnalyzerView,
    found: Result<Option<Seq<TableEntryView>>, Seq<char>>,
    source: Seq<char>,
) -> Outcome {
    match found {
        Err(message) => failed(a, AnalysisErrorView::Syntax(message)),
        Ok(None) => untouched(a),
        Ok(Some(entries)) => entered(a, table_records(entries, source)),
    }
}

/// The outcome of reading a list of dependencies from project metadata,
/// given what the document holds in its place.
pub open spec fn metadata_outcome(
    a: AnalyzerView,
    found: Result<Option<Seq<Option<Seq<char>>>>, Seq<char>>,
    source: Seq<char>,
) -> Outcome {
    match found {
        Err(message) => failed(a, AnalysisErrorView::Syntax(message)),
        Ok(None) => untouched(a),
        Ok(Some(items)) => entered(a, listed_records(items, source)),
    }
}

/// The outcome of reading a list of dependencies from an environment, given
/// what the document holds in its place. A text that is no document
/// declares nothing.
pub open spec fn environment_outcome(
    a: AnalyzerView,
    found: Option<Option<Seq<Option<Seq<char>>>>>,
    source: Seq<char>,
) -> Outcome {
    match found {
        None => untouched(a),
        Some(None) => untouched(a),
        Some(Some(items)) => entered(a, listed_records(items, source)),
    }
}

/// The outcome of reading one manifest of the given kind.
pub open spec fn manifest_outcome(
    a: AnalyzerView,
    kind: ManifestKind,
    content: Seq<char>,
    source: Seq<char>,
) -> Outcome {
    match kind {
        ManifestKind::Requirements => entered(a, requirement_records(content, source)),
        ManifestKind::SetupScript => setup_outcome(
            a,
            regex_first_group(list_pattern(), content),
            source,
        ),
        ManifestKind::Pipfile => table_outcome(a, toml_table(content, "packages"@), source),
        ManifestKind::Pyproject => metadata_outcome(
            a,
            toml_array(content, "project"@, "dependencies"@),
            source,
        ),
        ManifestKind::Environment => environment_outcome(
            a,
            yaml_sequence(content, "dependencies"@),
            source,
        ),
    }
}

/// The failure that a result carries.
pub open spec fn failure_of(r: Result<(), AnalysisError>) -> Option<AnalysisErrorView> {
    match r {
        Ok(_) => None,
        Err(error) => Some(error@),
    }
}

/// Finds the `]` that balances an opening bracket that stands just before
/// `rest`.
pub fn balanced_end_of(rest: &Vec<char>) -> (end: usize)
    ensures
        end == balanced_end(rest@, 0, 1),
        end <= rest@.len(),
{
    let n: usize = rest.len();
    let mut depth: usize = 1;
    let mut i: usize = 0;
    while i < n
        invariant
            n == rest@.len(),
            i <= n,
            1 <= depth <= i + 1,
            balanced_end(rest@, 0, 1) == balanced_end(rest@, i as int, depth as int),
        decreases n - i,
    {
        let c: char = rest[i];
        if c == ']' {
            if depth <= 1 {
                return i;
            }
            depth = depth - 1;
        } else if c == '[' {
            if i + 1 == n {
                assert(balanced_end(rest@, i + 1, depth + 1) == n);
                return n;
            }
            depth = depth + 1;
        }
        i = i + 1;
    }
    n
}

/// Cuts the inside of a list out of what follows its opening bracket.
pub fn list_inside_of(rest: &str) -> (list: Option<String>)
    ensures
        text_of(list) == list_inside(rest@),
{
    let chars = chars_of(rest);
    let end = balanced_end_of(&chars);
    if end < chars.len() {
        Some(string_of(&slice_of(&chars, 0, end)))
    } else {
        None
    }
}

/// Builds a record from a name and a restriction.
pub fn make_record(name: String, spec: &Vec<char>, source: &str) -> (record: Dependency)
    ensures
        record@ == record_with(name@, spec@, source@),
{
    let rewritten = string_of(&normalize_of(spec));
    Dependency {
        name,
        version_spec: string_of(spec),
        version_req: parse_requirement(rewritten.as_str()),
        resolved_version: None,
        source_file: source.to_owned(),
    }
}

/// Builds the record that an entry declares.
pub fn record_of_entry(entry: &Vec<char>, source: &str) -> (record: Dependency)
    ensures
        record@ == entry_record(entry@, source@),
{
    let end = find_in(entry, 0, CharClass::Delimiter);
    let name = strip_of(&slice_of(entry, 0, end), CharClass::Space);
    make_record(string_of(&name), entry, source)
}

/// Cleans a piece of a text in the given layout.
pub fn clean_piece(layout: Layout, piece: &Vec<char>) -> (cleaned: Vec<char>)
    ensures
        cleaned@ == layout.clean(piece@),
{
    let trimmed = strip_of(piece, CharClass::Space);
    match layout {
        Layout::Lines => trimmed,
        Layout::List => {
            let unquoted = strip_of(&trimmed, CharClass::Exactly('\''));
            strip_of(&unquoted, CharClass::Exactly('"'))
        },
    }
}

/// Cuts `text` into pieces and builds the records that the pieces declare.
pub fn extract_records(layout: Layout, text: &str, source: &str) -> (records: Vec<Dependency>)
    ensures
        records_view(records@) == piece_records_from(layout, text@, 0, source@),
{
    let chars = chars_of(text);
    let n: usize = chars.len();
    let separator: char = match layout {
        Layout::Lines => '\n',
        Layout::List => ',',
    };
    let mut records: Vec<Dependency> = Vec::new();
    let mut from: usize = 0;
    let mut done = false;
    assert(records_view(records@) + piece_records_from(layout, chars@, 0, source@)
        =~= piece_records_from(layout, chars@, 0, source@));
    while !done
        invariant
            n == chars@.len(),
            chars@ == text@,
            separator == layout.separator(),
            from <= n,
            !done ==> records_view(records@) + piece_records_from(
                layout,
                chars@,
                from as int,
                source@,
            ) == piece_records_from(layout, chars@, 0, source@),
            done ==> records_view(records@) == piece_records_from(layout, chars@, 0, source@),
        decreases n - from + (if done { 0int } else { 1int }),
    {
        let ghost before = records_view(records@);
        let ghost rest = piece_records_from(layout, chars@, from as int, source@);
        let end = find_in(&chars, from, CharClass::Exactly(separator));
        let cleaned = clean_piece(layout, &slice_of(&chars, from, end));
        let is_entry = match layout {
            Layout::Lines => cleaned.len() > 0 && cleaned[0] != '#',
            Layout::List => cleaned.len() > 0,
        };
        if is_entry {
            records.push(record_of_entry(&cleaned, source));
            assert(records_view(records@) =~= before.push(entry_record(cleaned@, source@)));
        }
        if end < n {
            assert(before + rest =~= records_view(records@) + piece_records_from(
                layout,
                chars@,
                end + 1,
                source@,
            ));
            from = end + 1;
        } else {
            assert(before + rest =~= records_view(records@));
            done = true;
        }
    }
    records
}

/// Builds the records that the entries of a packages table declare.
pub fn records_of_table(entries: &Vec<TableEntry>, source: &str) -> (records: Vec<Dependency>)
    ensures
        records_view(records@) == table_records(table_view(entries@), source@),
{
    let mut records: Vec<Dependency> = Vec::new();
    let mut i: usize = 0;
    while i < entries.len()
        invariant
            i <= entries@.len(),
            records@.len() == i,
            forall|k: int|
                0 <= k < i ==> (#[trigger] records@[k])@ == table_record(entries@[k]@, source@),
        decreases entries@.len() - i,
    {
        let entry = &entries[i];
        let spec = match &entry.text {
            Some(text) => chars_of(text.as_str()),
            None => chars_of("*"),
        };
        records.push(make_record(entry.key.clone(), &spec, source));
        i = i + 1;
    }
    assert(records_view(records@) =~= table_records(table_view(entries@), source@));
    records
}

/// Builds the records that the items of a list declare.
pub fn records_of_items(items: &Vec<Option<String>>, source: &str) -> (records: Vec<Dependency>)
    ensures
        records_view(records@) == listed_records(items_view(items@), source@),
{
    let mut records: Vec<Dependency> = Vec::new();
    let mut i: usize = 0;
    assert(records_view(records@) =~= listed_records_upto(items_view(items@), 0, source@));
    while i < items.len()
        invariant
            i <= items@.len(),
            records_view(records@) == listed_records_upto(items_view(items@), i as int, source@),
        decreases items@.len() - i,
    {
        let ghost before = records_view(records@);
        assert(items_view(items@)[i as int] == text_of(items@[i as int]));
        match &items[i] {
            Some(text) => {
                let entry = chars_of(text.as_str());
                records.push(record_of_entry(&entry, source));
                assert(records_view(records@) =~= before.push(entry_record(entry@, source@)));
            },
            None => {},
        }
        i = i + 1;
    }
    records
}

impl DependencyAnalyzer {
    /// The structured constraint of a restriction, where it has one.
    pub fn parse_version_spec(&self, spec: &str) -> (r: Option<String>)
        ensures
            text_of(r) == semver_requirement(normalize(spec@)),
    {
        crate::version::parse_version_spec(spec)
    }

    /// Enters `records` in order.
    pub fn add_dependencies(&mut self, records: Vec<Dependency>)
        requires
            old(self).wf(),
        ensures
            final(self).wf(),
            final(self)@ == add_records(old(self)@, records_view(records@)),
    {
        let ghost views = records_view(records@);
        for record in it: records
            invariant
                it.seq() == records@,
                views == records_view(records@),
                self.wf(),
                self@ == add_records_upto(old(self)@, views, it.index() as int),
        {
            assert(views[it.index() as int] == record@);
            self.add_dependency(record);
        }
    }

    /// Reads a plain list of requirements: each line that is neither empty
    /// nor a comment declares a package.
    pub fn parse_requirements(&mut self, content: &str, source_file: &str) -> (r: Result<
        (),
        AnalysisError,
    >)
        requires
            old(self).wf(),
        ensures
            final(self).wf(),
            final(self)@ == add_records(old(self)@, requirement_records(content@, source_file@)),
            r is Ok,
    {
        self.add_dependencies(extract_records(Layout::Lines, content, source_file));
        Ok(())
    }

    /// Enters what the inside of an `install_requires` list declares.
    pub fn add_setup_requirements(&mut self, list: &str, source_file: &str)
        requires
            old(self).wf(),
        ensures
            final(self).wf(),
            final(self)@ == add_records(old(self)@, setup_records(list@, source_file@)),
    {
        self.add_dependencies(extract_records(Layout::List, list, source_file));
    }

    /// Enters what a list declares, given what follows its opening bracket:
    /// the list ends at the bracket that balances the opening one, brackets
    /// inside an entry being counted. Without a balancing bracket nothing is
    /// entered.
    pub fn add_setup_list(&mut self, rest: &str, source_file: &str)
        requires
            old(self).wf(),
        ensures
            final(self).wf(),
            final(self)@ == list_outcome(old(self)@, rest@, source_file@).state,
    {
        match list_inside_of(rest) {
            Some(list) => self.add_setup_requirements(list.as_str(), source_file),
            None => {},
        }
    }

    /// Reads a setup script: a pattern locates the first `install_requires`
    /// that an equals sign and an opening bracket follow, the list runs from
    /// that bracket to the bracket that balances it, and each of its entries
    /// declares a package. A script without such a list declares nothing.
    pub fn parse_setup_py(&mut self, content: &str, source_file: &str) -> (r: Result<
        (),
        AnalysisError,
    >)
        requires
            old(self).wf(),
        ensures
            final(self).wf(),
            final(self)@ == manifest_outcome(
                old(self)@,
                ManifestKind::SetupScript,
                content@,
                source_file@,
            ).state,
            failure_of(r) == manifest_outcome(
                old(self)@,
                ManifestKind::SetupScript,
                content@,
                source_file@,
            ).error,
    {
        match first_group("(?s)install_requires\\s*=\\s*\\[(.*)", content) {
            Ok(Some(rest)) => {
                self.add_setup_list(rest.as_str(), source_file);
                Ok(())
            },
            Ok(None) => Ok(()),
            Err(message) => Err(AnalysisError::Pattern(message)),
        }
    }

    /// Enters what the entries of a packages table declare.
    pub fn add_pipfile_packages(&mut self, entries: &Vec<TableEntry>, source_file: &str)
        requires
            old(self).wf(),
        ensures
            final(self).wf(),
            final(self)@ == add_records(
                old(self)@,
                table_records(table_view(entries@), source_file@),
            ),
    {
        self.add_dependencies(records_of_table(entries, source_file));
    }

    /// Reads a lock-style manifest: each entry of its `packages` table
    /// declares a package. A manifest without that table declares nothing;
    /// a text that is no TOML document is refused.
    pub fn parse_pipfile(&mut self, content: &str, source_file: &str) -> (r: Result<
        (),
        AnalysisError,
    >)
        requires
            old(self).wf(),
        ensures
            final(self).wf(),
            final(self)@ == manifest_outcome(
                old(self)@,
                ManifestKind::Pipfile,
                content@,
                source_file@,
            ).state,
            failure_of(r) == manifest_outcome(
                old(self)@,
                ManifestKind::Pipfile,
                content@,
                source_file@,
            ).error,
    {
        match table_under(content, "packages") {
            Ok(Some(entries)) => {
                self.add_pipfile_packages(&entries, source_file);
                Ok(())
            },
            Ok(None) => Ok(()),
            Err(message) => Err(AnalysisError::Syntax(message)),
        }
    }

    /// Enters what the items of a list of dependencies declare: each item
    /// that is a text declares a package.
    pub fn add_listed_dependencies(&mut self, items: &Vec<Option<String>>, source_file: &str)
        requires
            old(self).wf(),
        ensures
            final(self).wf(),
            final(self)@ == add_records(
                old(self)@,
                listed_records(items_view(items@), source_file@),
            ),
    {
        self.add_dependencies(records_of_items(items, source_file));
    }

    /// Reads project metadata: each text in the `dependencies` array of the
    /// `project` table declares a package. A manifest without that array
    /// declares nothing; a text that is no TOML document is refused.
    pub fn parse_pyproject_toml(&mut self, content: &str, source_file: &str) -> (r: Result<
        (),
        AnalysisError,
    >)
        requires
            old(self).wf(),
        ensures
            final(self).wf(),
            final(self)@ == manifest_outcome(
                old(self)@,
                ManifestKind::Pyproject,
                content@,
                source_file@,
            ).state,
            failure_of(r) == manifest_outcome(
                old(self)@,
                ManifestKind::Pyproject,
                content@,
                source_file@,
            ).error,
    {
        match array_under(content, "project", "dependencies") {
            Ok(Some(items)) => {
                self.add_listed_dependencies(&items, source_file);
                Ok(())
            },
            Ok(None) => Ok(()),
            Err(message) => Err(AnalysisError::Syntax(message)),
        }
    }

    /// Reads a conda-style environment: each text in the top-level
    /// `dependencies` sequence declares a package. A manifest without that
    /// sequence, and a text that is no YAML document, declare nothing.
    pub fn parse_conda_yml(&mut self, content: &str, source_file: &str) -> (r: Result<
        (),
        AnalysisError,
    >)
        requires
            old(self).wf(),
        ensures
            final(self).wf(),
            final(self)@ == manifest_outcome(
                old(self)@,
                ManifestKind::Environment,
                content@,
                source_file@,
            ).state,
            failure_of(r) == manifest_outcome(
                old(self)@,
                ManifestKind::Environment,
                content@,
                source_file@,
            ).error,
    {
        match sequence_under(content, "dependencies") {
            Some(Some(items)) => {
                self.add_listed_dependencies(&items, source_file);
                Ok(())
            },
            Some(None) => Ok(()),
            None => Ok(()),
        }
    }

    /// Reads one manifest of the given kind.
    pub fn parse_manifest(&mut self, kind: ManifestKind, content: &str, source_file: &str) -> (r:
        Result<(), AnalysisError>)
        requires
            old(self).wf(),
        ensures
            final(self).wf(),
            final(self)@ == manifest_outcome(old(self)@, kind, content@, source_file@).state,
            failure_of(r) == manifest_outcome(old(self)@, kind, content@, source_file@).error,
    {
        match kind {
            ManifestKind::Requirements => self.parse_requirements(content, source_file),
            ManifestKind::SetupScript => self.parse_setup_py(content, source_file),
            ManifestKind::Pipfile => self.parse_pipfile(content, source_file),
            ManifestKind::Pyproject => self.parse_pyproject_toml(content, source_file),
            ManifestKind::Environment => self.parse_conda_yml(content, source_file),
        }
    }
}

} // verus!
