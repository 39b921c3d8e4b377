//! The answers of the hello server: which page a request line asks for,
//! and the text that is sent back.

use vstd::prelude::*;
use vstd::string::StringSliceAdditionalSpecFns;
use crate::error::error_text;

verus! {

/// What a request line asks for.
#[derive(Clone, Copy, Debug, PartialEq, Eq, Structural)]
pub enum Route {
    /// The greeting.
    Hello,
    /// The greeting, after a pause.
    SlowHello,
    /// Anything else.
    NotFound,
}

/// The route of a request line. Only the two lines that are known word for
/// word lead to the greeting.
pub open spec fn spec_route(line: Seq<char>) -> Route {
    if line == "GET / HTTP/1.1"@ {
        Route::Hello
    } else if line == "GET /sleep HTTP/1.1"@ {
        Route::SlowHello
    } else {
        Route::NotFound
    }
}

/// The decimal digit `d`, for `d` below ten.
pub open spec fn digit(d: nat) -> Seq<char> {
    if d == 0 {
        "0"@
    } else if d == 1 {
        "1"@
    } else if d == 2 {
        "2"@
    } else if d == 3 {
        "3"@
    } else if d == 4 {
        "4"@
    } else if d == 5 {
        "5"@
    } else if d == 6 {
        "6"@
    } else if d == 7 {
        "7"@
    } else if d == 8 {
        "8"@
    } else {
        "9"@
    }
}

/// A number in decimal digits, without leading zeros.
pub open spec fn decimal(n: nat) -> Seq<char>
    decreases n,
{
    if n < 10 {
        digit(n)
    } else {
        decimal(n / 10) + digit(n % 10)
    }
}

/// The page that stands in for a file that could not be read.
pub open spec fn spec_error_page(cause: Seq<char>) -> Seq<char> {
    "Repsponse error "@ + cause + " !"@
}

/// The answer to a request: the status line, the length of the contents in
/// bytes, an empty line, and the contents.
pub open spec fn spec_response(status: Seq<char>, contents: Seq<char>) -> Seq<char> {
    status + "\r\nContent-Length: "@ + decimal(vstd::utf8::encode_utf8(contents).len())
        + "\r\n\r\n"@ + contents
}

impl Route {
    pub open spec fn spec_status_line(self) -> Seq<char> {
        match self {
            Route::Hello => "HTTP/1.1 200 OK"@,
            Route::SlowHello => "HTTP/1.1 200 OK"@,
            Route::NotFound => "HTTP/1.1 404 NOT FOUND"@,
        }
    }

    pub open spec fn spec_filename(self) -> Seq<char> {
        match self {
            Route::Hello => "hello.html"@,
            Route::SlowHello => "hello.html"@,
            Route::NotFound => "404.html"@,
        }
    }

    /// The status line of the answer.
    pub fn status_line(&self) -> (r: &'static str)
        ensures
            r@ == self.spec_status_line(),
    {
        match self {
            Route::Hello => "HTTP/1.1 200 OK",
            Route::SlowHello => "HTTP/1.1 200 OK",
            Route::NotFound => "HTTP/1.1 404 NOT FOUND",
        }
    }

    /// The file whose contents are the answer.
    pub fn filename(&self) -> (r: &'static str)
        ensures
            r@ == self.spec_filename(),
    {
        match self {
            Route::Hello => "hello.html",
            Route::SlowHello => "hello.html",
            Route::NotFound => "404.html",
        }
    }

    /// How many seconds to pause before answering.
    pub fn delay_secs(&self) -> (r: u64)
        ensures
            r == if self == Route::SlowHello {
                5u64
            } else {
                0u64
            },
    {
        match self {
            Route::SlowHello => 5,
            _ => 0,
        }
    }
}

/// The request line, from what reading the first line of a request gave:
/// the line itself; nothing, where the request was empty; the error's text,
/// where reading failed.
pub fn request_line(first: Option<Result<String, std::io::Error>>) -> (r: String)
    ensures
        first is None ==> r@ == Seq::<char>::empty(),
        first matches Some(Ok(line)) ==> r == line,
{
    match first {
        None => String::new(),
        Some(Ok(line)) => line,
        Some(Err(err)) => error_text(&err),
    }
}

/// The route that a request line asks for.
pub fn route(request_line: &str) -> (r: Route)
    ensures
        r == spec_route(request_line@),
{
    let line = String::from_str(request_line);
    if line == String::from_str("GET / HTTP/1.1") {
        Route::Hello
    } else if line == String::from_str("GET /sleep HTTP/1.1") {
        Route::SlowHello
    } else {
        Route::NotFound
    }
}

/// The page that stands in for a file that could not be read, given the
/// cause as text.
pub fn error_page(cause: &str) -> (r: String)
    ensures
        r@ == spec_error_page(cause@),
{
    let mut page = String::from_str("Repsponse error ");
    page.append(cause);
    page.append(" !");
    page
}

/// The contents to send, from what reading the file gave: the file's
/// contents, or the page that names the error.
pub fn contents_or_error(read: Result<String, std::io::Error>) -> (r: String)
    ensures
        read matches Ok(contents) ==> r == contents,
        read is Err ==> exists|cause: Seq<char>| r@ == spec_error_page(cause),
{
    match read {
        Ok(contents) => contents,
        Err(err) => {
            let cause = error_text(&err);
            error_page(cause.as_str())
        },
    }
}

fn digit_text(d: usize) -> (r: &'static str)
    requires
        d < 10,
    ensures
        r@ == digit(d as nat),
{
    if d == 0 {
        "0"
    } else if d == 1 {
        "1"
    } else if d == 2 {
        "2"
    } else if d == 3 {
        "3"
    } else if d == 4 {
        "4"
    } else if d == 5 {
        "5"
    } else if d == 6 {
        "6"
    } else if d == 7 {
        "7"
    } else if d == 8 {
        "8"
    } else {
        "9"
    }
}

/// Appends a number in decimal digits to a text.
pub fn push_decimal(out: &mut String, n: usize)
    ensures
        final(out)@ == old(out)@ + decimal(n as nat),
    decreases n,
{
    if n >= 10 {
        push_decimal(out, n / 10);
    }
    out.append(digit_text(n % 10));
    assert(out@ =~= old(out)@ + decimal(n as nat));
}

/// The answer to a request, from the status line and the contents.
pub fn response(status: &str, contents: &str) -> (r: String)
    ensures
        r@ == spec_response(status@, contents@),
{
    let length = contents.as_bytes().len();
    let mut out = String::from_str(status);
    out.append("\r\nContent-Length: ");
    push_decimal(&mut out, length);
    out.append("\r\n\r\n");
    out.append(contents);
    assert(out@ =~= spec_response(status@, contents@));
    out
}

} // verus!
