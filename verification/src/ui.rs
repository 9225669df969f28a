//! The decisions of the interactive front end.
//!
//! Each tick of the front-end loop renders a snapshot of the registry,
//! polls for one keyboard event and acts on it.  What an event does to
//! the registry, and whether it starts a launch or ends the loop, is
//! decided here; drawing, key reading and the launch itself stay in the
//! surrounding application.

use vstd::prelude::*;
use crate::registry::{AppState, VideoMessage, reg_next, reg_prev, reg_remove};

verus! {

/// One keyboard event the front end acts on.
#[derive(Clone, Copy, Debug, PartialEq, Eq, Structural)]
pub enum UiEvent {
    MoveDown,
    MoveUp,
    LaunchSelected,
    Quit,
    Other,
}

/// What the loop does after handling one event.
pub enum UiAction {
    /// Render the next tick.
    Continue,
    /// Spawn an independent launch of this job, then render on.
    StartLaunch(VideoMessage),
    /// Leave the loop.
    Exit,
}

/// Acts on one event: moves the cursor, pops the selected job for
/// launching, or ends the loop.  Asking to launch on an empty registry
/// starts nothing and changes nothing: the loop just continues.
pub fn handle_event(st: &mut AppState, ev: UiEvent) -> (a: UiAction)
    requires
        old(st).wf(),
    ensures
        final(st).wf(),
        match ev {
            UiEvent::Quit => a is Exit && final(st)@ == old(st)@,
            UiEvent::MoveDown => a is Continue && final(st)@ == reg_next(old(st)@),
            UiEvent::MoveUp => a is Continue && final(st)@ == reg_prev(old(st)@),
            UiEvent::LaunchSelected => {
                let stepped = reg_remove(old(st)@);
                final(st)@ == stepped.0 && match stepped.1 {
                    Some(j) => a == UiAction::StartLaunch(j),
                    None => a is Continue,
                }
            },
            UiEvent::Other => a is Continue && final(st)@ == old(st)@,
        },
{
    match ev {
        UiEvent::Quit => UiAction::Exit,
        UiEvent::MoveDown => {
            st.next();
            UiAction::Continue
        },
        UiEvent::MoveUp => {
            st.previous();
            UiAction::Continue
        },
        UiEvent::LaunchSelected => {
            match st.remove_selected() {
                Some(job) => UiAction::StartLaunch(job),
                None => UiAction::Continue,
            }
        },
        UiEvent::Other => UiAction::Continue,
    }
}

} // verus!
