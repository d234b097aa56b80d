//! The failures an operation of the library can report.

use vstd::prelude::*;

verus! {

/// Why an operation did not go through.
#[derive(Clone, Copy, PartialEq, Eq, Debug, Structural)]
pub enum Error {
    /// No live row carries the identity that was asked for.
    NotFound,
    /// The seat already holds a session.
    Conflict,
    /// The request breaks a rule on its contents, such as a phone number
    /// that another member has.
    Validation,
    /// The password is not the account's.
    Auth,
    /// The store refused the write: a key that exists, a row referring to
    /// nothing, or a number that no longer fits its column.
    Storage,
}

} // verus!
