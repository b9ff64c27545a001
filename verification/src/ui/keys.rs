//! What a key press does in the terminal interface.

use vstd::prelude::*;

verus! {

/// A key press, as far as the interface tells keys apart.
pub enum Key {
    /// Control-C.
    Interrupt,
    Escape,
    /// Any other character key.
    Char(char),
    Backspace,
    Enter,
    /// A key that does nothing.
    Other,
}

/// What a key press does.
pub enum KeyAction {
    /// Ask the running capture to stop.
    StopCapture,
    /// Leave the interface.
    Quit,
    /// Add the character to the input line.
    Insert(char),
    /// Remove the last character of the input line.
    DeleteBack,
    /// Submit the input line.
    Submit,
    /// Nothing.
    Ignore,
}

/// Decides what a key press does; `capturing` tells whether a live capture
/// is running. Control-C stops a running capture and otherwise quits;
/// Escape stops a running capture and otherwise does nothing.
pub fn key_action(key: Key, capturing: bool) -> (a: KeyAction)
    ensures
        match key {
            Key::Interrupt => if capturing {
                a is StopCapture
            } else {
                a is Quit
            },
            Key::Escape => if capturing {
                a is StopCapture
            } else {
                a is Ignore
            },
            Key::Char(c) => a == KeyAction::Insert(c),
            Key::Backspace => a is DeleteBack,
            Key::Enter => a is Submit,
            Key::Other => a is Ignore,
        },
{
    match key {
        Key::Interrupt => if capturing {
            KeyAction::StopCapture
        } else {
            KeyAction::Quit
        },
        Key::Escape => if capturing {
            KeyAction::StopCapture
        } else {
            KeyAction::Ignore
        },
        Key::Char(c) => KeyAction::Insert(c),
        Key::Backspace => KeyAction::DeleteBack,
        Key::Enter => KeyAction::Submit,
        Key::Other => KeyAction::Ignore,
    }
}

} // verus!
