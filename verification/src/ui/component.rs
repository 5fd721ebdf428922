//! What the plain widgets share.
use vstd::prelude::*;

verus! {

/// What every widget may ask of the session.
#[derive(Clone, Copy, Debug, PartialEq, Eq, Structural)]
pub struct State {
    pub busy: bool,
}

impl State {
    /// An idle session.
    #[verifier::allow_in_spec]
    pub fn new() -> State
        returns
            (State { busy: false }),
    {
        State { busy: false }
    }
}

} // verus!
