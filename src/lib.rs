//! A screen-lock session core: credential accumulation, key classification,
//! authentication verdicts, feedback states, and staged acquisition and
//! teardown of the display resources that a lock holds.

pub mod auth;
pub mod buffer;
pub mod feedback;
pub mod keys;
pub mod session;
pub mod setup;

pub use auth::{hash_is_usable, normalize, pass_check, verdict_of, Auth};
pub use buffer::{CredentialBuffer, DecodeError, MAX_BUF_SIZE, MIN_BUF_CAP};
pub use feedback::{
    color_of, Feedback, FAILURE_COLOR, FEEDBACK_HOLD_MS, IDLE_COLOR, SUCCESS_COLOR, TYPING_COLOR,
};
pub use keys::{
    classify_keysym, is_modifier, keysym_to_char, Key, KEYSYM_BACKSPACE, KEYSYM_ESCAPE,
    KEYSYM_RETURN,
};
pub use session::{Command, Session};
pub use setup::{Setup, Stage, STAGE_COUNT};
