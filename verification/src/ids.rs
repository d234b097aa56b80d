//! Fresh identities for new rows.

use vstd::prelude::*;

verus! {

/// A new random identity: `uuid::Uuid::new_v4`, written out by its
/// `Display` implementation (`to_string`).
///
/// Trusted: the text is the hyphenated form, which has 36 characters.
/// Nothing is claimed about which identity comes back; in particular not
/// that it differs from those in use, which every operation that takes an
/// identity checks for itself. `new_v4` panics when the system has no
/// random bytes to give.
#[verifier::external_body]
pub(crate) fn fresh_id() -> (id: String)
    ensures
        id@.len() == 36,
{
    uuid::Uuid::new_v4().to_string()
}

} // verus!
