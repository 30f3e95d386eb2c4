//! The operations whose failure ends the process.

use vstd::prelude::*;
use vstd::string::StringExecFns;

verus! {

/// The operation that failed. Each of them is fatal: the uploader has no
/// retry and keeps no file back for a later attempt.
#[derive(Clone, Copy, Debug, PartialEq, Eq, Structural)]
pub enum Failure {
    /// A directory entry could not be enumerated.
    Scan,
    /// The bytes of a candidate could not be read.
    Read,
    /// The request did not reach the server, or the server did not answer
    /// with a success status.
    Upload,
    /// A candidate could not be removed after its upload.
    Unlink,
}

/// The name of the operation that failed.
pub open spec fn operation_of(failure: Failure) -> Seq<char> {
    match failure {
        Failure::Scan => "scan"@,
        Failure::Read => "read"@,
        Failure::Upload => "upload"@,
        Failure::Unlink => "unlink"@,
    }
}

/// The diagnostic for a failure on `path`: the operation, the words
/// ` failed on ` and the path.
pub open spec fn diagnostic_of(failure: Failure, path: Seq<char>) -> Seq<char> {
    operation_of(failure) + " failed on "@ + path
}

impl Failure {
    /// The operation's name.
    pub fn operation(&self) -> (name: &'static str)
        ensures
            name@ == operation_of(*self),
    {
        match self {
            Failure::Scan => "scan",
            Failure::Read => "read",
            Failure::Upload => "upload",
            Failure::Unlink => "unlink",
        }
    }

    /// The diagnostic that the process writes before it exits. It says which
    /// operation failed and ends with the path it failed on.
    pub fn diagnostic(&self, path: &str) -> (text: String)
        ensures
            text@ == diagnostic_of(*self, path@),
            path@.is_suffix_of(text@),
    {
        let mut text = String::from_str(self.operation());
        text.append(" failed on ");
        text.append(path);
        proof {
            assert(text@.subrange(text@.len() - path@.len(), text@.len() as int) =~= path@);
        }
        text
    }
}

} // verus!
