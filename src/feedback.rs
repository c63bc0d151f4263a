use vstd::prelude::*;

verus! {

/// What the overlay shows about the session: its only visible state.
#[derive(Debug, Clone, Copy, PartialEq, Eq, Structural)]
pub enum Feedback {
    /// Nothing typed.
    Idle,
    /// A credential is being typed.
    Typing,
    /// The credential was accepted.
    Success,
    /// An attempt failed, for whatever reason.
    Failure,
}

/// How long a success or failure colour stays up, in milliseconds.
pub const FEEDBACK_HOLD_MS: u64 = 500;

/// Overlay colour while idle: black.
pub const IDLE_COLOR: u32 = 0x000000;

/// Overlay colour while typing.
pub const TYPING_COLOR: u32 = 0x1a2a40;

/// Overlay colour after an accepted credential.
pub const SUCCESS_COLOR: u32 = 0x1e6b2e;

/// Overlay colour after a failed attempt.
pub const FAILURE_COLOR: u32 = 0x7a1010;

/// The 0xRRGGBB fill of the overlay in each state.
pub open spec fn color_spec(f: Feedback) -> u32 {
    match f {
        Feedback::Idle => IDLE_COLOR,
        Feedback::Typing => TYPING_COLOR,
        Feedback::Success => SUCCESS_COLOR,
        Feedback::Failure => FAILURE_COLOR,
    }
}

/// The overlay colour for a feedback state; distinct states get distinct colours.
pub fn color_of(f: Feedback) -> (r: u32)
    ensures
        r == color_spec(f),
        forall|g: Feedback| color_spec(g) == r ==> g == f,
{
    match f {
        Feedback::Idle => IDLE_COLOR,
        Feedback::Typing => TYPING_COLOR,
        Feedback::Success => SUCCESS_COLOR,
        Feedback::Failure => FAILURE_COLOR,
    }
}

} // verus!
