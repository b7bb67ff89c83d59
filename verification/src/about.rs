//! The About screen and its messages.

use crate::dispatch::Request;
use vstd::prelude::*;

verus! {

/// Messages of the About screen.
#[derive(Clone, Copy, Debug, PartialEq, Eq, Structural)]
pub enum AboutMessage {
    Test,
    Back,
}

/// The About screen; it holds no state of its own.
#[derive(Default)]
pub struct About;

impl About {
    /// Reducer of the About screen: none of its messages changes state or
    /// asks for outside work.  (`Back` navigation is resolved by the
    /// dispatcher before a message reaches this reducer.)
    pub fn update(message: AboutMessage) -> (r: Option<Request>)
        ensures
            r is None,
    {
        match message {
            AboutMessage::Test => None,
            AboutMessage::Back => None,
        }
    }
}

} // verus!
