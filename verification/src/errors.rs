//! Errors of the library.
use vstd::prelude::*;

verus! {

/// An error found while reading configuration or a command.
#[derive(Clone, Debug)]
pub enum Error {
    /// The configuration or command text is not valid; the string says why.
    InvalidConfig(String),
}

/// Builds an `InvalidConfig` error whose message is `a` followed by `b`.
pub fn invalid2(a: &str, b: &str) -> (e: Error)
    ensures
        e matches Error::InvalidConfig(m) && m@ == a@ + b@,
{
    let mut m = String::from_str(a);
    m.append(b);
    Error::InvalidConfig(m)
}

/// Builds an `InvalidConfig` error whose message is `a`, `b` and `c` in
/// turn.
pub fn invalid3(a: &str, b: &str, c: &str) -> (e: Error)
    ensures
        e matches Error::InvalidConfig(m) && m@ == a@ + b@ + c@,
{
    let mut m = String::from_str(a);
    m.append(b);
    m.append(c);
    Error::InvalidConfig(m)
}

/// The message of an error.
pub open spec fn message(e: Error) -> Seq<char> {
    match e {
        Error::InvalidConfig(m) => m@,
    }
}

} // verus!
