//! One turn of the viewer's loop: what an event does to the debug controls
//! and what the viewer is to do next.

use vstd::prelude::*;
use crate::debug::{after_event, draw_state, names_key, DeviceEvent, PolygonMode};

verus! {

/// What the window system reports to the viewer.
#[derive(Clone, Copy, Debug, PartialEq, Eq)]
pub enum ViewerEvent {
    Device(DeviceEvent),
    CloseRequested,
    Other,
}

/// What the viewer does after an event.
#[derive(Clone, Copy, Debug, PartialEq, Eq)]
pub enum Step {
    Exit,
    Draw(PolygonMode),
}

/// Takes one event: a request to close ends the loop; a device event goes to
/// the debug controls; after anything but a request to close a frame is
/// drawn in the mode that the controls then ask for.
pub fn on_event(debug: &mut crate::debug::Debug, ev: &ViewerEvent) -> (step: Step)
    requires
        *ev matches ViewerEvent::Device(e) ==> names_key(e),
    ensures
        old(debug).wf() ==> final(debug).wf(),
        match *ev {
            ViewerEvent::CloseRequested => step == Step::Exit && final(debug).held() == old(
                debug,
            ).held(),
            ViewerEvent::Device(e) => final(debug).held() == after_event(old(debug).held(), e)
                && step == Step::Draw(draw_state(final(debug).held())),
            ViewerEvent::Other => final(debug).held() == old(debug).held() && step == Step::Draw(
                draw_state(final(debug).held()),
            ),
        },
{
    match ev {
        ViewerEvent::CloseRequested => { return Step::Exit; },
        ViewerEvent::Device(e) => {
            debug.parse_input(e);
        },
        ViewerEvent::Other => {},
    }
    Step::Draw(debug.get_draw_state())
}

} // verus!
