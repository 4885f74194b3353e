use vstd::prelude::*;

verus! {

/// Pause between two frames of the presentation loop, for about sixty frames
/// a second.
pub const FRAME_PERIOD_NANOS: u32 = 16_666_666;

/// A key as far as the presentation loop cares.
#[derive(Debug, Clone, Copy, PartialEq, Eq)]
pub enum Key {
    Escape,
    Other,
}

/// An input event as far as the presentation loop cares.
#[derive(Debug, Clone, Copy, PartialEq, Eq)]
pub enum InputEvent {
    Quit,
    KeyDown(Key),
    Other,
}

/// A quit request or the escape key ends the session.
pub open spec fn ends_session_spec(e: InputEvent) -> bool {
    e == InputEvent::Quit || e == InputEvent::KeyDown(Key::Escape)
}

pub fn ends_session(e: &InputEvent) -> (r: bool)
    ensures
        r == ends_session_spec(*e),
{
    match e {
        InputEvent::Quit => true,
        InputEvent::KeyDown(Key::Escape) => true,
        _ => false,
    }
}

/// Whether any of the events polled during one frame ends the session.
pub fn frame_ends_session(events: &Vec<InputEvent>) -> (r: bool)
    ensures
        r == exists|i: int| 0 <= i < events@.len() && ends_session_spec(#[trigger] events@[i]),
{
    let mut k: usize = 0;
    while k < events.len()
        invariant
            k <= events@.len(),
            forall|i: int| 0 <= i < k ==> !ends_session_spec(#[trigger] events@[i]),
        decreases events@.len() - k,
    {
        if ends_session(&events[k]) {
            return true;
        }
        k = k + 1;
    }
    false
}

} // verus!
