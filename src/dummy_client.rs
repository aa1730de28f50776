use vstd::prelude::*;

verus! {

/// How a test client talks to the server: one full request, or hash polls
/// with a full request whenever the hash or the minute changes.
#[derive(Clone, Copy, Debug, PartialEq, Eq, Structural)]
pub enum ClientMode {
    OneShot,
    HashQuery,
}

} // verus!
