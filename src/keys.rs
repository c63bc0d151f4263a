use vstd::prelude::*;
use vstd::utf8::*;

verus! {

/// Keysym of the Return key, which submits the credential.
pub const KEYSYM_RETURN: u32 = 0xff0d;

/// Keysym of the Escape key, which abandons what was typed.
pub const KEYSYM_ESCAPE: u32 = 0xff1b;

/// Keysym of the BackSpace key, which deletes the last character.
pub const KEYSYM_BACKSPACE: u32 = 0xff08;

/// What a key press means to the lock session.
#[derive(Debug, Clone, Copy, PartialEq, Eq, Structural)]
pub enum Key {
    /// Submit the credential typed so far.
    Submit,
    /// Drop the credential and go back to the idle state.
    Cancel,
    /// Delete the last character typed.
    Erase,
    /// A modifier on its own (shift, control, a lock key): ignored.
    Modifier,
    /// A printable symbol, to be appended to the credential.
    Text(char),
    /// A symbol that names no character: the attempt fails.
    Unresolved,
}

/// The X11 modifier keysyms: Shift_L through Hyper_R, ISO_Lock through
/// ISO_Level5_Lock, Mode_switch and Num_Lock.
pub open spec fn is_modifier_keysym(sym: u32) -> bool {
    (0xffe1 <= sym <= 0xffee) || (0xfe01 <= sym <= 0xfe13) || sym == 0xff7e || sym == 0xff7f
}

/// The meaning of a keysym: control keys first, then modifiers, then the
/// character whose scalar value is the keysym itself.
pub open spec fn key_of(sym: u32) -> Key {
    if sym == KEYSYM_RETURN {
        Key::Submit
    } else if sym == KEYSYM_ESCAPE {
        Key::Cancel
    } else if sym == KEYSYM_BACKSPACE {
        Key::Erase
    } else if is_modifier_keysym(sym) {
        Key::Modifier
    } else if is_scalar(sym) {
        Key::Text(sym as char)
    } else {
        Key::Unresolved
    }
}

/// Relies on `char::from_u32`: it gives the character with that scalar value,
/// and nothing for surrogates or values past the last code point.
#[verifier::external_body]
fn char_from_u32(v: u32) -> (r: Option<char>)
    ensures
        r is Some <==> is_scalar(v),
        r is Some ==> r->0 as u32 == v,
{
    char::from_u32(v)
}

/// Whether `sym` is one of the modifier keysyms.
pub fn is_modifier(sym: u32) -> (r: bool)
    ensures
        r == is_modifier_keysym(sym),
{
    (0xffe1 <= sym && sym <= 0xffee) || (0xfe01 <= sym && sym <= 0xfe13) || sym == 0xff7e
        || sym == 0xff7f
}

/// The character a keysym stands for, if its value is a Unicode scalar.
pub fn keysym_to_char(sym: u32) -> (r: Option<char>)
    ensures
        r is Some <==> is_scalar(sym),
        r is Some ==> r->0 == sym as char,
{
    let r = char_from_u32(sym);
    proof {
        if let Some(c) = r {
            char_u32_cast(c, sym);
        }
    }
    r
}

/// Classifies a resolved keysym.
pub fn classify_keysym(sym: u32) -> (k: Key)
    ensures
        k == key_of(sym),
{
    if sym == KEYSYM_RETURN {
        Key::Submit
    } else if sym == KEYSYM_ESCAPE {
        Key::Cancel
    } else if sym == KEYSYM_BACKSPACE {
        Key::Erase
    } else if is_modifier(sym) {
        Key::Modifier
    } else {
        match keysym_to_char(sym) {
            Some(c) => Key::Text(c),
            None => Key::Unresolved,
        }
    }
}

} // verus!
