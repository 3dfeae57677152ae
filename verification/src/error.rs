//! What can go wrong in an analysis.
use vstd::prelude::*;

verus! {

/// The failures that the library reports.
#[derive(Clone, Debug, PartialEq, Eq)]
pub enum AnalysisError {
    /// A manifest is not a document of its format. The text is the message
    /// with which the format's parser refused it.
    Syntax(String),
    /// The pattern that locates a list in a setup script was refused. The
    /// text is the message of the refusal.
    Pattern(String),
    /// A rendering was asked for in a format that the library does not know.
    UnsupportedFormat,
}

/// What an `AnalysisError` stands for.
pub enum AnalysisErrorView {
    Syntax(Seq<char>),
    Pattern(Seq<char>),
    UnsupportedFormat,
}

impl View for AnalysisError {
    type V = AnalysisErrorView;

    open spec fn view(&self) -> AnalysisErrorView {
        match self {
            AnalysisError::Syntax(message) => AnalysisErrorView::Syntax(message@),
            AnalysisError::Pattern(message) => AnalysisErrorView::Pattern(message@),
            AnalysisError::UnsupportedFormat => AnalysisErrorView::UnsupportedFormat,
        }
    }
}

impl AnalysisErrorView {
    /// The text that describes the failure: the parser's own message where
    /// a parser refused something, a fixed text elsewhere.
    pub open spec fn text(self) -> Seq<char> {
        match self {
            AnalysisErrorView::Syntax(message) => message,
            AnalysisErrorView::Pattern(message) => message,
            AnalysisErrorView::UnsupportedFormat => "Unsupported output format"@,
        }
    }
}

impl AnalysisError {
    /// Describes the failure.
    pub fn message(&self) -> (m: String)
        ensures
            m@ == self@.text(),
    {
        match self {
            AnalysisError::Syntax(message) => message.clone(),
            AnalysisError::Pattern(message) => message.clone(),
            AnalysisError::UnsupportedFormat => "Unsupported output format".to_owned(),
        }
    }
}

} // verus!
