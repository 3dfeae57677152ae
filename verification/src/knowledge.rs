//! The table of package combinations that are known not to go together.
use vstd::prelude::*;

verus! {

/// A package and the identifiers of what it is known to conflict with. An
/// identifier is a package name, which a version bound may follow
/// (`pandas<1.0.0`).
#[derive(Debug)]
pub struct ConflictEntry {
    pub package: String,
    pub incompatible: Vec<String>,
}

/// What a `ConflictEntry` stands for.
pub struct ConflictEntryView {
    pub package: Seq<char>,
    pub incompatible: Seq<Seq<char>>,
}

/// The characters of each text of a sequence.
pub open spec fn texts_view(texts: Seq<String>) -> Seq<Seq<char>> {
    Seq::new(texts.len(), |i: int| texts[i]@)
}

impl View for ConflictEntry {
    type V = ConflictEntryView;

    open spec fn view(&self) -> ConflictEntryView {
        ConflictEntryView { package: self.package@, incompatible: texts_view(self.incompatible@) }
    }
}

/// The views of a sequence of entries.
pub open spec fn entries_view(entries: Seq<ConflictEntry>) -> Seq<ConflictEntryView> {
    Seq::new(entries.len(), |i: int| entries[i]@)
}

/// The table itself, in the order in which its entries are consulted.
pub open spec fn known_conflicts() -> Seq<ConflictEntryView> {
    seq![
        ConflictEntryView { package: "tensorflow"@, incompatible: seq!["torch"@, "jax"@] },
        ConflictEntryView { package: "torch"@, incompatible: seq!["tensorflow"@, "jax"@] },
        ConflictEntryView { package: "numpy"@, incompatible: seq!["pandas<1.0.0"@] },
    ]
}

/// The index of the first entry at or after `from` that is about `package`,
/// or the number of entries when there is none.
pub open spec fn entry_from(table: Seq<ConflictEntryView>, package: Seq<char>, from: int) -> int
    decreases table.len() - from,
{
    if 0 <= from < table.len() && table[from].package != package {
        entry_from(table, package, from + 1)
    } else {
        from
    }
}

/// Whether the table has an entry about `package`.
pub open spec fn is_flagged(table: Seq<ConflictEntryView>, package: Seq<char>) -> bool {
    entry_from(table, package, 0) < table.len()
}

/// Whether the table's entry about `package` lists the identifier `other`.
pub open spec fn is_known_pair(table: Seq<ConflictEntryView>, package: Seq<char>, other: Seq<char>) -> bool {
    let at = entry_from(table, package, 0);
    at < table.len() && table[at].incompatible.contains(other)
}

/// Builds an entry of two identifiers.
fn entry_of_two(package: &str, first: &str, second: &str) -> (entry: ConflictEntry)
    ensures
        entry@ == (ConflictEntryView { package: package@, incompatible: seq![first@, second@] }),
{
    let mut incompatible: Vec<String> = Vec::new();
    incompatible.push(first.to_owned());
    incompatible.push(second.to_owned());
    let entry = ConflictEntry { package: package.to_owned(), incompatible };
    assert(entry@.incompatible =~= seq![first@, second@]);
    entry
}

/// Builds the table.
pub fn build_known_conflicts() -> (table: Vec<ConflictEntry>)
    ensures
        entries_view(table@) == known_conflicts(),
{
    let mut table: Vec<ConflictEntry> = Vec::new();
    table.push(entry_of_two("tensorflow", "torch", "jax"));
    table.push(entry_of_two("torch", "tensorflow", "jax"));
    let mut incompatible: Vec<String> = Vec::new();
    incompatible.push("pandas<1.0.0".to_owned());
    let numpy = ConflictEntry { package: "numpy".to_owned(), incompatible };
    assert(numpy@.incompatible =~= seq!["pandas<1.0.0"@]);
    table.push(numpy);
    assert(entries_view(table@) =~= known_conflicts());
    table
}

/// Finds the entry about `package`.
pub fn find_entry(table: &Vec<ConflictEntry>, package: &String) -> (at: usize)
    ensures
        at == entry_from(entries_view(table@), package@, 0),
        at <= table@.len(),
{
    let mut i: usize = 0;
    while i < table.len() && table[i].package != *package
        invariant
            i <= table@.len(),
            entry_from(entries_view(table@), package@, 0) == entry_from(
                entries_view(table@),
                package@,
                i as int,
            ),
        decreases table@.len() - i,
    {
        i = i + 1;
    }
    i
}

/// Tests whether `texts` holds `wanted`.
pub fn holds_text(texts: &Vec<String>, wanted: &String) -> (r: bool)
    ensures
        r == texts_view(texts@).contains(wanted@),
{
    let mut i: usize = 0;
    while i < texts.len()
        invariant
            i <= texts@.len(),
            forall|k: int| 0 <= k < i ==> texts_view(texts@)[k] != wanted@,
        decreases texts@.len() - i,
    {
        if texts[i] == *wanted {
            assert(texts_view(texts@)[i as int] == wanted@);
            return true;
        }
        i = i + 1;
    }
    false
}

} // verus!
