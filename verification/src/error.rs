//! The sole application-level error and its uniform translation to an
//! HTTP response: status 500, body "Something went wrong: " followed by
//! the failure's details.

use vstd::prelude::*;
use vstd::string::StringExecFns;

verus! {

/// A storage failure, carrying the engine's message. Every failure the
/// service meets is of this one kind.
pub struct AppError {
    pub details: String,
}

impl View for AppError {
    type V = Seq<char>;

    open spec fn view(&self) -> Seq<char> {
        self.details@
    }
}

/// The body of the response an error turns into.
pub open spec fn error_body_chars(details: Seq<char>) -> Seq<char> {
    "Something went wrong: "@ + details
}

impl AppError {
    pub fn new(details: String) -> (e: AppError)
        ensures
            e@ == details@,
    {
        AppError { details }
    }

    /// Every error maps to one status: internal server error.
    pub fn http_status(&self) -> (code: u16)
        ensures
            code == 500,
    {
        500
    }

    /// The uniform error body, whatever the underlying failure was.
    pub fn response_body(&self) -> (b: String)
        ensures
            b@ == error_body_chars(self@),
    {
        let mut b = String::from_str("Something went wrong: ");
        b.append(self.details.as_str());
        b
    }
}

} // verus!
