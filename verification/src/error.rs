//! The failures a directory lookup can report.

use vstd::prelude::*;

verus! {

/// The directory call a lookup failure came from, kept so a caller can name
/// it in diagnostics.
#[derive(Debug, Clone, Copy, PartialEq, Eq, Structural)]
pub enum LookupCall {
    GetPwUid,
    GetPwNam,
    GetGrGid,
    GetGrNam,
}

/// A failure of an identity query, as the caller sees it.
#[derive(Debug, Clone, Copy, PartialEq, Eq, Structural)]
pub enum IdError {
    /// The directory service itself failed: the originating call, and the
    /// non-zero code it left on the error channel.
    Lookup { call: LookupCall, code: i32 },
    /// A structured field of an entry was not valid text.
    Decode,
    /// An environment query the rest of the system depends on failed; a
    /// caller is expected to treat this as non-continuable.
    Unrecoverable,
}

} // verus!
