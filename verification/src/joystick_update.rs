//! The handler of SDL's joystick-update-complete events.
use vstd::prelude::*;
use crate::input::SdlEventKind;

verus! {

/// The handler of SDL's joystick-update-complete events, which does nothing
/// with them.
pub struct Handler {}

impl Handler {
    /// Handles a joystick-update-complete event: nothing to do.
    pub fn handle_event(&self) {
    }

    /// The SDL event types this handler listens to.
    pub fn listen_events(&self) -> (r: Vec<SdlEventKind>)
        ensures
            r@ == seq![SdlEventKind::JoystickUpdateComplete],
    {
        let r = vec![SdlEventKind::JoystickUpdateComplete];
        assert(r@ =~= seq![SdlEventKind::JoystickUpdateComplete]);
        r
    }
}

} // verus!
