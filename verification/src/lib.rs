//! A decentralized-identifier (DID) registry, written as a pure state
//! machine: every operation maps a registry state, a call context and its
//! arguments either to a new state or to a distinguishable error, with no
//! partial effects.  The persisted maps keep their keys in ascending order
//! so that the serialized state is reproducible across implementations.

pub mod address;
pub mod didfmt;
pub mod laws;
pub mod model;
pub mod ordmap;
pub mod order;
pub mod registry;

use vstd::prelude::*;

verus! {

/// The ways a registry operation can fail.  Every failure aborts the whole
/// call: no state produced by a failing call is ever observable.
#[derive(Clone, Copy, Debug, PartialEq, Eq, Structural)]
pub enum Error {
    /// The DID string is not of the form `did:metablox:<id>`.
    FormatError,
    /// The DID is already registered to the calling account.
    AlreadyRegistered,
    /// The DID is already registered to a different account.
    RegisteredByOther,
    /// The DID is not present in the controller map.
    DidNotFound,
    /// The caller is neither the controller nor an acceptable delegate.
    NotAuthorized,
    /// The caller holds a delegate grant, but it has expired.
    DelegateExpired,
    /// Fallback for conditions the host must rule out before a call,
    /// such as a counter at its numeric limit.
    InvariantViolation,
}

} // verus!
