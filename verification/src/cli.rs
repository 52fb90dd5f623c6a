use vstd::prelude::*;

verus! {

/// The command line of the tool: where to search, what to search for, whom
/// to blame and where the repository root lies.
pub struct Cli {
    /// Path to the file(s) we search in.
    pub files: String,
    /// Content to search in the files.
    pub text: String,
    /// Name of the person to blame; when absent, the user name configured
    /// for the repository.
    pub blame: Option<String>,
    /// Directory of the git root.
    pub root: Option<String>,
}

} // verus!
