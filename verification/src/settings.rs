//! The Settings screen and its messages.

use crate::dispatch::Request;
use vstd::prelude::*;

verus! {

/// The Settings screen; it holds no state of its own.
#[derive(Default)]
pub struct Settings;

/// Messages of the Settings screen.
#[derive(Clone, Copy, Debug, PartialEq, Eq, Structural)]
pub enum SettingsMessage {
    Close,
    /// Ask for the settings window with the given identifier to be closed.
    CloseSettingsWindow(u64),
}

impl Settings {
    pub fn new() -> Settings {
        Settings
    }

    /// Reducer of the Settings screen: none of its messages changes state or
    /// asks for outside work.  (Closing the settings window is resolved by
    /// the dispatcher before a message reaches this reducer.)
    pub fn update(message: SettingsMessage) -> (r: Option<Request>)
        ensures
            r is None,
    {
        match message {
            SettingsMessage::Close => None,
            SettingsMessage::CloseSettingsWindow(_) => None,
        }
    }
}

} // verus!
