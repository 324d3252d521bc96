//! Shared state of the status display: the last messages shown for the
//! two notification kinds.

use vstd::prelude::*;

verus! {

/// Messages the status window shows for the two notifications.
pub struct State {
    pub ready_check_message: String,
    pub squad_ready_message: String,
}

impl State {
    /// Fresh display state with both messages empty.
    pub fn new() -> (state: State)
        ensures
            state.ready_check_message@ == Seq::<char>::empty(),
            state.squad_ready_message@ == Seq::<char>::empty(),
    {
        State { ready_check_message: String::new(), squad_ready_message: String::new() }
    }
}

} // verus!
