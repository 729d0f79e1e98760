//! The errors of the library.

use vstd::prelude::*;
use vstd::string::*;
use crate::path::LogicalPath;

verus! {

/// What can go wrong in the library's operations.
#[derive(Debug)]
pub enum Error {
    /// A value handed to a function is not valid.
    ValueError,
    /// The profile at the path is not valid or does not exist.
    InvalidProfileError(LogicalPath),
    /// The profile at the path exists already.
    ProfileAlreadyExists(LogicalPath),
    /// The shelf at the path has no database for the operation.
    NoShelfDatabase(LogicalPath),
    /// The shelf at the path has not been exported to the file system.
    UnexportedShelfError(LogicalPath),
    /// The subject at the path is missing from the shelf's records.
    DanglingSubjectError(LogicalPath),
    /// No subject directory exists at the path.
    InvalidSubjectError(LogicalPath),
    /// A batch's working directory at the path cannot be entered.
    BatchDirectoryError(LogicalPath),
    /// A part of the profile data is missing.
    MissingDataError(String),
}

/// The process exit code that stands for each error.
pub open spec fn exit_code_of(e: Error) -> i32 {
    match e {
        Error::ValueError => 1,
        Error::InvalidProfileError(_) => 2,
        Error::NoShelfDatabase(_) => 3,
        Error::UnexportedShelfError(_) => 4,
        Error::DanglingSubjectError(_) => 5,
        Error::BatchDirectoryError(_) => 7,
        _ => -1i32,
    }
}

impl From<Error> for i32 {
    fn from(e: Error) -> (r: i32) {
        match e {
            Error::ValueError => 1,
            Error::InvalidProfileError(_) => 2,
            Error::NoShelfDatabase(_) => 3,
            Error::UnexportedShelfError(_) => 4,
            Error::DanglingSubjectError(_) => 5,
            Error::BatchDirectoryError(_) => 7,
            _ => -1,
        }
    }
}

impl vstd::std_specs::convert::FromSpecImpl<Error> for i32 {
    open spec fn obeys_from_spec() -> bool {
        true
    }

    open spec fn from_spec(e: Error) -> i32 {
        exit_code_of(e)
    }
}

/// `pre`, the path's text, then `post`.
pub open spec fn quoted_message(pre: Seq<char>, p: LogicalPath, post: Seq<char>) -> Seq<char> {
    pre + crate::path::render_parts(p@) + post
}

fn quoted(pre: &str, p: &LogicalPath, post: &str) -> (r: String)
    ensures
        r@ == quoted_message(pre@, *p, post@),
{
    let mut out = String::from_str(pre);
    let text = p.render();
    out.append(text.as_str());
    out.append(post);
    out
}

impl Error {
    /// The message that describes the error to a user.
    pub fn message(&self) -> (r: String)
        ensures
            match self {
                Error::ValueError => r@ == "Given value is not valid."@,
                Error::InvalidProfileError(p) => r@ == quoted_message("Profile at '"@, *p, "' is not valid."@),
                Error::ProfileAlreadyExists(p) => r@ == quoted_message("Profile at '"@, *p, "' already exists."@),
                Error::NoShelfDatabase(p) => r@ == quoted_message("The shelf at path '"@, *p, "' has no database for the operations."@),
                Error::UnexportedShelfError(p) => r@ == quoted_message("The shelf at path '"@, *p, "' is not yet exported in the filesystem."@),
                Error::DanglingSubjectError(p) => r@ == quoted_message("The subject at path '"@, *p, "' is missing"@),
                Error::InvalidSubjectError(p) => r@ == quoted_message("The subject at path '"@, *p, "' does not exist in the shelf."@),
                Error::BatchDirectoryError(p) => r@ == quoted_message("The directory '"@, *p, "' cannot be entered for compilation."@),
                Error::MissingDataError(d) => r@ == d@ + " is missing."@,
            },
    {
        match self {
            Error::ValueError => String::from_str("Given value is not valid."),
            Error::InvalidProfileError(p) => quoted("Profile at '", p, "' is not valid."),
            Error::ProfileAlreadyExists(p) => quoted("Profile at '", p, "' already exists."),
            Error::NoShelfDatabase(p) => quoted("The shelf at path '", p, "' has no database for the operations."),
            Error::UnexportedShelfError(p) => quoted("The shelf at path '", p, "' is not yet exported in the filesystem."),
            Error::DanglingSubjectError(p) => quoted("The subject at path '", p, "' is missing"),
            Error::InvalidSubjectError(p) => quoted("The subject at path '", p, "' does not exist in the shelf."),
            Error::BatchDirectoryError(p) => quoted("The directory '", p, "' cannot be entered for compilation."),
            Error::MissingDataError(d) => {
                let mut out = d.clone();
                out.append(" is missing.");
                out
            },
        }
    }
}

} // verus!
