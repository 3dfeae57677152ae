//! A whole project: the manifests that were found in its directory tree, read
//! one after the other.
use vstd::prelude::*;
use crate::analyzer::DependencyAnalyzer;
use crate::error::AnalysisError;
use crate::manifest::{failure_of, kind_of, manifest_kind, manifest_outcome, untouched, Outcome};
use crate::model::AnalyzerView;

verus! {

/// A file of a project: its base name, its path and what it holds.
#[derive(Debug)]
pub struct ProjectFile {
    pub file_name: String,
    pub path: String,
    pub content: String,
}

/// What a `ProjectFile` stands for.
pub struct ProjectFileView {
    pub file_name: Seq<char>,
    pub path: Seq<char>,
    pub content: Seq<char>,
}

impl View for ProjectFile {
    type V = ProjectFileView;

    open spec fn view(&self) -> ProjectFileView {
        ProjectFileView { file_name: self.file_name@, path: self.path@, content: self.content@ }
    }
}

/// The views of a sequence of files.
pub open spec fn files_view(files: Seq<ProjectFile>) -> Seq<ProjectFileView> {
    Seq::new(files.len(), |i: int| files[i]@)
}

/// The outcome of reading one file: a manifest is read as its kind asks, and
/// any other file is passed over.
pub open spec fn file_outcome(a: AnalyzerView, file: ProjectFileView) -> Outcome {
    match kind_of(file.file_name) {
        Some(kind) => manifest_outcome(a, kind, file.content, file.path),
        None => untouched(a),
    }
}

/// The outcome of reading the first `upto` files in order. The first failure
/// ends the scan: the files after it are not read.
pub open spec fn scan_upto(a: AnalyzerView, files: Seq<ProjectFileView>, upto: int) -> Outcome
    decreases upto,
{
    if upto <= 0 || upto > files.len() {
        untouched(a)
    } else {
        let before = scan_upto(a, files, upto - 1);
        if before.error is Some {
            before
        } else {
            file_outcome(before.state, files[upto - 1])
        }
    }
}

/// The outcome of reading all of `files` in order.
pub open spec fn scan(a: AnalyzerView, files: Seq<ProjectFileView>) -> Outcome {
    scan_upto(a, files, files.len() as int)
}

/// Once a scan has failed, more files change nothing.
pub proof fn lemma_scan_stays_failed(a: AnalyzerView, files: Seq<ProjectFileView>, at: int, upto: int)
    requires
        0 <= at <= upto <= files.len(),
        scan_upto(a, files, at).error is Some,
    ensures
        scan_upto(a, files, upto) == scan_upto(a, files, at),
    decreases upto - at,
{
    if at < upto {
        lemma_scan_stays_failed(a, files, at, upto - 1);
    }
}

impl DependencyAnalyzer {
    /// Reads the manifests among `files` in order, each by its base name,
    /// and stops at the first failure.
    pub fn scan_project(&mut self, files: &Vec<ProjectFile>) -> (r: Result<(), AnalysisError>)
        requires
            old(self).wf(),
        ensures
            final(self).wf(),
            final(self)@ == scan(old(self)@, files_view(files@)).state,
            failure_of(r) == scan(old(self)@, files_view(files@)).error,
    {
        let ghost views = files_view(files@);
        let mut i: usize = 0;
        while i < files.len()
            invariant
                i <= files@.len(),
                views == files_view(files@),
                self.wf(),
                scan_upto(old(self)@, views, i as int) == untouched(self@),
            decreases files@.len() - i,
        {
            let file = &files[i];
            assert(views[i as int] == file@);
            match manifest_kind(file.file_name.as_str()) {
                Some(kind) => {
                    match self.parse_manifest(kind, file.content.as_str(), file.path.as_str()) {
                        Ok(_) => {},
                        Err(error) => {
                            proof {
                                lemma_scan_stays_failed(
                                    old(self)@,
                                    views,
                                    i + 1,
                                    files@.len() as int,
                                );
                            }
                            return Err(error);
                        },
                    }
                },
                None => {},
            }
            i = i + 1;
        }
        Ok(())
    }
}

} // verus!
