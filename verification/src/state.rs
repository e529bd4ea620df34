//! The two tags that every envelope carries: what its payload is for, and how
//! far the envelope has been processed.

use vstd::prelude::*;

verus! {

/// Classification tag that the caller gives to an envelope's payload.
/// `Uninitialized` is the sentinel of an envelope that holds nothing yet.
#[derive(Clone, Copy, Debug, PartialEq, Eq, Structural)]
pub enum Kind {
    Uninitialized,
    Static,
    Dynamic,
    Reference,
    DeadReference,
}

impl Default for Kind {
    fn default() -> (k: Kind)
        ensures
            k == Kind::Uninitialized,
    {
        Kind::Uninitialized
    }
}

/// Processing state of an envelope. It starts `Uninitialized` and moves once,
/// to `Encoded` or to `Encrypted`.
#[derive(Clone, Copy, Debug, PartialEq, Eq, Structural)]
pub enum State {
    Uninitialized,
    Encoded,
    Encrypted,
}

impl Default for State {
    fn default() -> (s: State)
        ensures
            s == State::Uninitialized,
    {
        State::Uninitialized
    }
}

} // verus!
