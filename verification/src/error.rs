//! The errors that building a pool can give, and their text.

use vstd::prelude::*;

verus! {

/// What `<str as core::fmt::Debug>::fmt` writes for a string with these
/// characters: the string between double quotes, with its escapes.
pub uninterp spec fn debug_quoted(s: Seq<char>) -> Seq<char>;

/// `std::io::Error`, which the library carries through and never looks into.
#[verifier::external_type_specification]
#[verifier::external_body]
pub struct ExIoError(std::io::Error);

/// Formats an I/O error with `{}`, that is with `<std::io::Error as Display>::fmt`.
/// The text may come from the operating system, so nothing is claimed of it.
#[verifier::external_body]
pub(crate) fn error_text(err: &std::io::Error) -> (r: String) {
    format!("{}", err)
}

/// Why a pool, or one of its workers, could not be made.
#[derive(Debug)]
pub enum ThreadPoolError {
    /// The pool itself was refused; the message says why.
    ThreadCreationError(String),
    /// One worker's thread could not be started; the message says why.
    WorkerCreationError(String),
}

/// Formats a string with `{:?}`, that is with `<str as core::fmt::Debug>::fmt`.
/// The result is a function of the characters alone, and is named, not spelled out.
#[verifier::external_body]
fn quote(s: &str) -> (r: String)
    ensures
        r@ == debug_quoted(s@),
{
    format!("{:?}", s)
}

impl ThreadPoolError {
    /// The message that the error carries.
    pub open spec fn spec_message(&self) -> Seq<char> {
        match self {
            ThreadPoolError::ThreadCreationError(m) => m@,
            ThreadPoolError::WorkerCreationError(m) => m@,
        }
    }

    /// The variant's name, as it is written in the source.
    pub open spec fn variant_name(&self) -> Seq<char> {
        match self {
            ThreadPoolError::ThreadCreationError(_) => "ThreadCreationError"@,
            ThreadPoolError::WorkerCreationError(_) => "WorkerCreationError"@,
        }
    }

    /// The variant's name, then the given text in round brackets.
    pub open spec fn text_around(&self, quoted: Seq<char>) -> Seq<char> {
        self.variant_name() + "("@ + quoted + ")"@
    }

    /// The error's text: the variant's name, then the quoted message in
    /// round brackets.
    pub open spec fn text(&self) -> Seq<char> {
        self.text_around(debug_quoted(self.spec_message()))
    }

    /// The message that the error carries.
    pub fn message(&self) -> (r: &str)
        ensures
            r@ == self.spec_message(),
    {
        match self {
            ThreadPoolError::ThreadCreationError(m) => m.as_str(),
            ThreadPoolError::WorkerCreationError(m) => m.as_str(),
        }
    }

    /// The error's text around a message that is already quoted.
    pub fn with_quoted(&self, quoted: &str) -> (r: String)
        ensures
            r@ == self.text_around(quoted@),
    {
        let name = match self {
            ThreadPoolError::ThreadCreationError(_) => "ThreadCreationError",
            ThreadPoolError::WorkerCreationError(_) => "WorkerCreationError",
        };
        let mut out = String::from_str(name);
        out.append("(");
        out.append(quoted);
        out.append(")");
        out
    }

    /// The error as text, for display.
    pub fn to_string(&self) -> (r: String)
        ensures
            r@ == self.text(),
    {
        let quoted = quote(self.message());
        self.with_quoted(quoted.as_str())
    }
}

} // verus!
