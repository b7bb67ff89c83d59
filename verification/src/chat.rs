//! The Chat screen and its messages.

use crate::dispatch::Request;
use vstd::prelude::*;

verus! {

/// Messages of the Chat screen.
#[derive(Clone, Copy, Debug, PartialEq, Eq, Structural)]
pub enum ChatMessage {
    Test,
    Back,
}

/// The Chat screen; it holds no state of its own.
#[derive(Default)]
pub struct Chat;

impl Chat {
    /// Reducer of the Chat screen: none of its messages changes state or
    /// asks for outside work.  (`Back` navigation is resolved by the
    /// dispatcher before a message reaches this reducer.)
    pub fn update(message: ChatMessage) -> (r: Option<Request>)
        ensures
            r is None,
    {
        match message {
            ChatMessage::Test => None,
            ChatMessage::Back => None,
        }
    }
}

} // verus!
