use vstd::prelude::*;

verus! {

/// Life-cycle stage of a simulation session.
#[derive(Debug, Clone)]
pub enum SessionState {
    Parsed,
    Elaborated,
    Ready,
    Running,
    Completed,
}

/// A simulation session; it starts in the `Parsed` stage.
#[derive(Debug, Clone)]
pub struct Session {
    pub state: SessionState,
}

impl Session {
    /// A session in its first stage.
    pub fn new() -> (s: Self)
        ensures
            s.state is Parsed,
    {
        Self { state: SessionState::Parsed }
    }
}

} // verus!
