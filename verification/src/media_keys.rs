//! The messages of the media-key worker, which presses keys on behalf of a request.

use vstd::prelude::*;

verus! {

/// A key of the `enigo` crate. It is carried through to the worker untouched.
#[verifier::external_type_specification]
#[verifier::external_body]
pub struct ExKey(enigo::Key);

/// What the media-key worker is asked to press.
#[derive(Debug, Clone, Copy, PartialEq, Eq)]
pub enum MediaKeyMessage {
    PlayPause,
    Skip,
    Previous,
    CustomKey(enigo::Key),
}

/// The message that a media-control request with this action number stands for: 0 toggles
/// play and pause, 1 skips to the next track, 2 goes back to the previous one. No other
/// number is an action.
pub open spec fn message_for(action: u8) -> Option<MediaKeyMessage> {
    if action == 0 {
        Some(MediaKeyMessage::PlayPause)
    } else if action == 1 {
        Some(MediaKeyMessage::Skip)
    } else if action == 2 {
        Some(MediaKeyMessage::Previous)
    } else {
        None
    }
}

impl MediaKeyMessage {
    /// The message for an action number, `None` where the number is no action.
    pub fn from_action(action: u8) -> (message: Option<MediaKeyMessage>)
        ensures
            message == message_for(action),
    {
        match action {
            0 => Some(MediaKeyMessage::PlayPause),
            1 => Some(MediaKeyMessage::Skip),
            2 => Some(MediaKeyMessage::Previous),
            _ => None,
        }
    }
}

} // verus!
