//! Button table of Apple's second-generation (2009) infrared remote.
use vstd::prelude::*;

verus! {

/// Logical buttons of the remote.
#[derive(Clone, Copy, Debug, PartialEq, Eq, Structural)]
pub enum RemoteButton {
    /// The `Menu` button.
    Setup,
    Right,
    Left,
    Up,
    Down,
    Enter,
    PlayPause,
}

/// Apple's second generation remote, released in 2009.
#[derive(Clone, Copy, Debug, PartialEq, Eq, Structural)]
pub struct Apple2009;

/// Address byte that the remote sends in every frame.
pub const APPLE2009_ADDRESS: u8 = 238;

/// The button that `(address, command)` stands for on this remote.
pub open spec fn apple_button(address: u8, command: u8) -> Option<RemoteButton> {
    if address != APPLE2009_ADDRESS {
        None
    } else if command == 3 {
        Some(RemoteButton::Setup)
    } else if command == 6 {
        Some(RemoteButton::Right)
    } else if command == 9 {
        Some(RemoteButton::Left)
    } else if command == 10 {
        Some(RemoteButton::Up)
    } else if command == 12 {
        Some(RemoteButton::Down)
    } else if command == 92 {
        Some(RemoteButton::Enter)
    } else if command == 95 {
        Some(RemoteButton::PlayPause)
    } else {
        None
    }
}

impl Apple2009 {
    /// Looks up the button for a received address and command.
    pub fn decode(address: u8, command: u8) -> (r: Option<RemoteButton>)
        ensures
            r == apple_button(address, command),
    {
        if address != APPLE2009_ADDRESS {
            return None;
        }
        match command {
            3 => Some(RemoteButton::Setup),
            6 => Some(RemoteButton::Right),
            9 => Some(RemoteButton::Left),
            10 => Some(RemoteButton::Up),
            12 => Some(RemoteButton::Down),
            92 => Some(RemoteButton::Enter),
            95 => Some(RemoteButton::PlayPause),
            _ => None,
        }
    }
}

} // verus!
