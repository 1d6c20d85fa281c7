//! What can go wrong behind a request.
use vstd::prelude::*;
use vstd::string::*;

verus! {

/// A failure, with the text that describes it.
#[derive(Debug)]
pub enum AppErrorKind {
    /// Telegram could not be reached or refused the request.
    Telegram(String),
    /// Anything else.
    Other(String),
}

impl AppErrorKind {
    /// The text that describes the failure.
    pub open spec fn text(self) -> Seq<char> {
        match self {
            AppErrorKind::Telegram(s) => s@,
            AppErrorKind::Other(s) => s@,
        }
    }

    /// The text that describes the failure.
    pub fn into_message(self) -> (r: String)
        ensures
            r@ == self.text(),
    {
        match self {
            AppErrorKind::Telegram(s) => s,
            AppErrorKind::Other(s) => s,
        }
    }
}

/// An answer to a request that is refused: the HTTP status, a message for the
/// reader and a code for programs.
#[derive(Debug)]
pub struct HttpError {
    pub status: u16,
    pub message: String,
    pub code: String,
}

/// The parts of an `HttpError`.
pub struct HttpErrorView {
    pub status: u16,
    pub message: Seq<char>,
    pub code: Seq<char>,
}

impl View for HttpError {
    type V = HttpErrorView;

    open spec fn view(&self) -> HttpErrorView {
        HttpErrorView { status: self.status, message: self.message@, code: self.code@ }
    }
}

/// The parts of a refusal side by side.
pub open spec fn refusal(status: u16, message: Seq<char>, code: Seq<char>) -> HttpErrorView {
    HttpErrorView { status, message, code }
}

/// A refusal with this status, message and code.
pub fn http_error(status: u16, message: &str, code: &str) -> (r: HttpError)
    ensures
        r@ == refusal(status, message@, code@),
{
    HttpError { status, message: String::from_str(message), code: String::from_str(code) }
}

} // verus!
