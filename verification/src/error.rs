//! The errors that the library reports.

use vstd::prelude::*;
use vstd::string::StringExecFns;

verus! {

/// Unified application error type.
#[derive(Debug)]
pub enum ScanError {
    DeviceNotFound(String),
    Unsupported(String),
    Cancelled(String),
    Invalid(String),
    Io(String),
    Image(String),
    Other(String),
}

/// What an error is, with its text as a sequence of characters.
pub enum Failure {
    DeviceNotFound(Seq<char>),
    Unsupported(Seq<char>),
    Cancelled(Seq<char>),
    Invalid(Seq<char>),
    Io(Seq<char>),
    Image(Seq<char>),
    Other(Seq<char>),
}

impl View for ScanError {
    type V = Failure;

    open spec fn view(&self) -> Failure {
        match self {
            ScanError::DeviceNotFound(text) => Failure::DeviceNotFound(text@),
            ScanError::Unsupported(text) => Failure::Unsupported(text@),
            ScanError::Cancelled(text) => Failure::Cancelled(text@),
            ScanError::Invalid(text) => Failure::Invalid(text@),
            ScanError::Io(text) => Failure::Io(text@),
            ScanError::Image(text) => Failure::Image(text@),
            ScanError::Other(text) => Failure::Other(text@),
        }
    }
}

impl Failure {
    /// The text that a user reads.
    pub open spec fn text(self) -> Seq<char> {
        match self {
            Failure::DeviceNotFound(text) => "device not found: "@ + text,
            Failure::Unsupported(text) => "unsupported: "@ + text,
            Failure::Cancelled(text) => "cancelled: "@ + text,
            Failure::Invalid(text) => "invalid: "@ + text,
            Failure::Io(text) => "io: "@ + text,
            Failure::Image(text) => "image: "@ + text,
            Failure::Other(text) => text,
        }
    }
}

impl Clone for ScanError {
    fn clone(&self) -> (r: Self)
        ensures
            r@ == self@,
    {
        match self {
            ScanError::DeviceNotFound(text) => ScanError::DeviceNotFound(text.clone()),
            ScanError::Unsupported(text) => ScanError::Unsupported(text.clone()),
            ScanError::Cancelled(text) => ScanError::Cancelled(text.clone()),
            ScanError::Invalid(text) => ScanError::Invalid(text.clone()),
            ScanError::Io(text) => ScanError::Io(text.clone()),
            ScanError::Image(text) => ScanError::Image(text.clone()),
            ScanError::Other(text) => ScanError::Other(text.clone()),
        }
    }
}

/// A result whose value stands for itself.
pub open spec fn outcome<T>(r: Result<T, ScanError>) -> Result<T, Failure> {
    match r {
        Ok(value) => Ok(value),
        Err(error) => Err(error@),
    }
}

/// A result whose value is taken by its view.
pub open spec fn outcome_view<T: View>(r: Result<T, ScanError>) -> Result<T::V, Failure> {
    match r {
        Ok(value) => Ok(value@),
        Err(error) => Err(error@),
    }
}

impl ScanError {
    /// The text that a user reads.
    pub fn message(&self) -> (r: String)
        ensures
            r@ == self@.text(),
    {
        match self {
            ScanError::DeviceNotFound(text) => joined("device not found: ", text.as_str()),
            ScanError::Unsupported(text) => joined("unsupported: ", text.as_str()),
            ScanError::Cancelled(text) => joined("cancelled: ", text.as_str()),
            ScanError::Invalid(text) => joined("invalid: ", text.as_str()),
            ScanError::Io(text) => joined("io: ", text.as_str()),
            ScanError::Image(text) => joined("image: ", text.as_str()),
            ScanError::Other(text) => text.clone(),
        }
    }
}

/// One text behind another.
pub fn joined(a: &str, b: &str) -> (r: String)
    ensures
        r@ == a@ + b@,
{
    let mut r = a.to_owned();
    r.append(b);
    r
}

/// An error about input that is not acceptable.
pub fn invalid(text: &str) -> (r: ScanError)
    ensures
        r@ == Failure::Invalid(text@),
{
    ScanError::Invalid(text.to_owned())
}

/// An error about something that is not supported.
pub fn unsupported(text: &str) -> (r: ScanError)
    ensures
        r@ == Failure::Unsupported(text@),
{
    ScanError::Unsupported(text.to_owned())
}

/// An error about cancelled work.
pub fn cancelled(text: &str) -> (r: ScanError)
    ensures
        r@ == Failure::Cancelled(text@),
{
    ScanError::Cancelled(text.to_owned())
}

/// An error of no particular kind.
pub fn other(text: &str) -> (r: ScanError)
    ensures
        r@ == Failure::Other(text@),
{
    ScanError::Other(text.to_owned())
}

} // verus!
