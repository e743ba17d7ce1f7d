//! What goes wrong when a request is sent.

use tokio_timer::timeout;
use vstd::prelude::*;

verus! {

/// `std::io::Error`.
#[verifier::external_type_specification]
#[verifier::external_body]
pub struct ExIoError(std::io::Error);

/// `hyper::Error`.
#[verifier::external_type_specification]
#[verifier::external_body]
pub struct ExHyperError(hyper::Error);

/// `tokio_timer::timeout::Error`, what ends a future under a deadline early.
#[verifier::external_type_specification]
#[verifier::external_body]
#[verifier::reject_recursive_types(T)]
pub struct ExTimeoutError<T>(tokio_timer::timeout::Error<T>);

/// Whether a deadline passed before the response came.
pub uninterp spec fn deadline_elapsed(err: timeout::Error<hyper::Error>) -> bool;

/// The error of the request itself, where it was that which failed.
pub uninterp spec fn deadline_inner(err: timeout::Error<hyper::Error>) -> Option<hyper::Error>;

/// `timeout::Error::is_elapsed`: whether the deadline passed.
#[verifier::external_body]
fn is_elapsed(err: &timeout::Error<hyper::Error>) -> (elapsed: bool)
    ensures
        elapsed == deadline_elapsed(*err),
{
    err.is_elapsed()
}

/// `timeout::Error::into_inner`: the error of the request itself, where it was
/// that which failed.
#[verifier::external_body]
fn into_inner(err: timeout::Error<hyper::Error>) -> (inner: Option<hyper::Error>)
    ensures
        inner == deadline_inner(err),
{
    err.into_inner()
}

/// Whether each text that an io error is displayed as is one that the error of
/// hyper is displayed as.
pub open spec fn keeps_text(io_error: std::io::Error, err: hyper::Error) -> bool {
    forall|s: String| #[trigger]
        vstd::string::to_string_from_display_ensures(&io_error, s)
            ==> vstd::string::to_string_from_display_ensures(&err, s)
}

/// Whether the kind of an io error, as `std::io::Error::kind` gives it, is
/// `std::io::ErrorKind::Other`.
pub uninterp spec fn is_kind_other(io_error: std::io::Error) -> bool;

/// `std::io::Error::other`: an io error that carries another error is of the kind
/// `Other`, and is displayed as the one that it carries.
#[verifier::external_body]
fn other_error(err: hyper::Error) -> (io_error: std::io::Error)
    ensures
        is_kind_other(io_error),
        keeps_text(io_error, err),
{
    std::io::Error::other(err)
}

/// The error that ends the body of a response when hyper fails to read it: of the
/// kind `Other`, with the text of hyper's own error.
pub fn body_error(err: hyper::Error) -> (io_error: std::io::Error)
    ensures
        is_kind_other(io_error),
        keeps_text(io_error, err),
{
    other_error(err)
}

#[derive(Clone, Debug, PartialEq)]
/// An error produced when sending the request, such as a timeout error.
pub enum HttpDispatchError {
    /// Request timed out
    Timeout,
    /// Error from client future
    ClientFutureError(String),
    /// Internal error in deadline implementation.
    DeadlineError(String),
    /// Error from hyper
    HyperError(String),
    /// Io error
    IoError(String),
}

impl HttpDispatchError {
    /// What the error says of itself.
    pub open spec fn message(self) -> Seq<char> {
        match self {
            HttpDispatchError::Timeout => "Request timed out"@,
            HttpDispatchError::ClientFutureError(s) => s@,
            HttpDispatchError::DeadlineError(s) => s@,
            HttpDispatchError::HyperError(s) => s@,
            HttpDispatchError::IoError(s) => s@,
        }
    }

    /// What the error says of itself.
    pub fn description(&self) -> (text: &str)
        ensures
            text@ == self.message(),
    {
        match self {
            HttpDispatchError::Timeout => "Request timed out",
            HttpDispatchError::ClientFutureError(s) => s.as_str(),
            HttpDispatchError::DeadlineError(s) => s.as_str(),
            HttpDispatchError::HyperError(s) => s.as_str(),
            HttpDispatchError::IoError(s) => s.as_str(),
        }
    }

    /// The error as it is displayed: its description, with nothing added.
    pub fn fmt(&self) -> (text: String)
        ensures
            text@ == self.message(),
    {
        self.description().to_owned()
    }

    /// The error as it is displayed.
    pub fn to_string(&self) -> (text: String)
        ensures
            text@ == self.message(),
    {
        self.fmt()
    }

    /// The error for a deadline that was missed, a request that failed before
    /// its deadline, or a timer that failed: whether the deadline passed, the
    /// text of the request's own error, and the text of the whole.
    pub fn from_deadline_parts(elapsed: bool, inner: Option<String>, text: String) -> (err:
        HttpDispatchError)
        ensures
            elapsed ==> err == HttpDispatchError::Timeout,
            !elapsed ==> match inner {
                Some(s) => err == HttpDispatchError::HyperError(s),
                None => err == HttpDispatchError::DeadlineError(text),
            },
    {
        if elapsed {
            HttpDispatchError::Timeout
        } else {
            match inner {
                Some(s) => HttpDispatchError::HyperError(s),
                None => HttpDispatchError::DeadlineError(text),
            }
        }
    }

    /// The error for a request under a deadline.
    pub fn from_deadline(err: timeout::Error<hyper::Error>) -> (dispatch: HttpDispatchError)
        ensures
            deadline_elapsed(err) ==> dispatch == HttpDispatchError::Timeout,
            !deadline_elapsed(err) ==> match deadline_inner(err) {
                Some(inner) => dispatch matches HttpDispatchError::HyperError(s)
                    && vstd::string::to_string_from_display_ensures(&inner, s),
                None => dispatch matches HttpDispatchError::DeadlineError(s)
                    && vstd::string::to_string_from_display_ensures(&err, s),
            },
    {
        let elapsed: bool = is_elapsed(&err);
        let text: String = err.to_string();
        let inner: Option<String> = match into_inner(err) {
            Some(hyper_err) => Some(hyper_err.to_string()),
            None => None,
        };
        HttpDispatchError::from_deadline_parts(elapsed, inner, text)
    }
}

impl From<hyper::Error> for HttpDispatchError {
    fn from(err: hyper::Error) -> (dispatch: HttpDispatchError)
        ensures
            dispatch matches HttpDispatchError::HyperError(s)
                && vstd::string::to_string_from_display_ensures(&err, s),
    {
        HttpDispatchError::HyperError(err.to_string())
    }
}

impl vstd::std_specs::convert::FromSpecImpl<hyper::Error> for HttpDispatchError {
    open spec fn obeys_from_spec() -> bool {
        false
    }

    open spec fn from_spec(err: hyper::Error) -> HttpDispatchError {
        arbitrary()
    }
}

impl From<std::io::Error> for HttpDispatchError {
    fn from(err: std::io::Error) -> (dispatch: HttpDispatchError)
        ensures
            dispatch matches HttpDispatchError::IoError(s)
                && vstd::string::to_string_from_display_ensures(&err, s),
    {
        HttpDispatchError::IoError(err.to_string())
    }
}

impl vstd::std_specs::convert::FromSpecImpl<std::io::Error> for HttpDispatchError {
    open spec fn obeys_from_spec() -> bool {
        false
    }

    open spec fn from_spec(err: std::io::Error) -> HttpDispatchError {
        arbitrary()
    }
}

#[derive(Debug, PartialEq)]
/// An error produced when the user has an invalid TLS client
pub struct TlsError {
    message: String,
}

impl TlsError {
    /// What the error says of itself.
    pub closed spec fn text(self) -> Seq<char> {
        self.message@
    }

    /// The error for a native TLS connector that could not be made.
    pub fn native_tls(reason: &str) -> (err: TlsError)
        ensures
            err.text() == "Couldn't create NativeTlsClient: "@ + reason@,
    {
        let mut message: String = "Couldn't create NativeTlsClient: ".to_owned();
        message.append(reason);
        TlsError { message }
    }

    /// What the error says of itself.
    pub fn description(&self) -> (text: &str)
        ensures
            text@ == self.text(),
    {
        self.message.as_str()
    }

    /// The error as it is displayed: its description, with nothing added.
    pub fn fmt(&self) -> (text: String)
        ensures
            text@ == self.text(),
    {
        self.description().to_owned()
    }

    /// The error as it is displayed.
    pub fn to_string(&self) -> (text: String)
        ensures
            text@ == self.text(),
    {
        self.fmt()
    }
}

/// What an error says is the text that it was made with, whatever the text; and
/// a timeout says that the request timed out.
pub proof fn law_errors_say_what_they_were_told(text: String)
    ensures
        HttpDispatchError::ClientFutureError(text).message() == text@,
        HttpDispatchError::DeadlineError(text).message() == text@,
        HttpDispatchError::HyperError(text).message() == text@,
        HttpDispatchError::IoError(text).message() == text@,
        HttpDispatchError::Timeout.message() == "Request timed out"@,
{
}

} // verus!
