//! The failures a build can report.  Every one carries the path it is about.

use vstd::prelude::*;
use vstd::string::StringExecFns;

verus! {

/// The ghost shape of a build failure.
pub ghost enum BuildIssue {
    /// A file the build needs was not supplied.
    MissingFile(Seq<char>),
    /// A file that had to be text was not valid UTF-8.
    InvalidText(Seq<char>),
    /// Processing a file's dependencies exceeded the depth bound.
    DependencyCycle(Seq<char>),
}

/// A build failure, with the offending path.
#[derive(Debug)]
pub enum ChmError {
    /// A file the build needs was not supplied.
    MissingFile(String),
    /// A file that had to be text was not valid UTF-8.
    InvalidText(String),
    /// Processing a file's dependencies exceeded the depth bound.
    DependencyCycle(String),
}

impl View for ChmError {
    type V = BuildIssue;

    open spec fn view(&self) -> BuildIssue {
        match self {
            ChmError::MissingFile(p) => BuildIssue::MissingFile(p@),
            ChmError::InvalidText(p) => BuildIssue::InvalidText(p@),
            ChmError::DependencyCycle(p) => BuildIssue::DependencyCycle(p@),
        }
    }
}

impl ChmError {
    /// The message shown for this failure.
    pub open spec fn spec_message(self) -> Seq<char> {
        match self@ {
            BuildIssue::MissingFile(p) => "File not found: "@ + p,
            BuildIssue::InvalidText(p) => "File is not valid UTF-8: "@ + p,
            BuildIssue::DependencyCycle(p) => "Dependency cycle while processing: "@ + p,
        }
    }

    /// Render the failure as one line of text.
    pub fn message(&self) -> (r: String)
        ensures
            r@ == self.spec_message(),
    {
        let mut out: String;
        match self {
            ChmError::MissingFile(p) => {
                out = String::from_str("File not found: ");
                out.append(p.as_str());
            },
            ChmError::InvalidText(p) => {
                out = String::from_str("File is not valid UTF-8: ");
                out.append(p.as_str());
            },
            ChmError::DependencyCycle(p) => {
                out = String::from_str("Dependency cycle while processing: ");
                out.append(p.as_str());
            },
        }
        out
    }
}

} // verus!
