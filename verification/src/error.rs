//! The ways in which an operation on the content model fails.

use vstd::prelude::*;

verus! {

/// Why an operation could not be completed.
#[derive(Clone, Copy, Debug, PartialEq, Eq, Structural)]
pub enum SiteError {
    /// A file that had to be there is missing, or a time of a file cannot be
    /// turned into a calendar timestamp.
    Filesystem,
    /// The configured base directory does not end with a separator, or a path
    /// that has to lie below it does not.
    Configuration,
    /// The pages that a page lists are nested deeper than the given limit.
    CycleDetected,
}

impl SiteError {
    /// A sentence that names the failure.
    pub fn message(&self) -> (r: String)
        ensures
            r@ == match *self {
                SiteError::Filesystem => "A file or its metadata could not be read."@,
                SiteError::Configuration => "Base dir is missing the trailing directory delimiter."@,
                SiteError::CycleDetected => "The content list is nested too deep."@,
            },
    {
        match self {
            SiteError::Filesystem => String::from_str("A file or its metadata could not be read."),
            SiteError::Configuration => String::from_str(
                "Base dir is missing the trailing directory delimiter.",
            ),
            SiteError::CycleDetected => String::from_str("The content list is nested too deep."),
        }
    }
}

} // verus!
