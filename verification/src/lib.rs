//! A remote control for one on-screen media player.
//!
//! The heart of the crate is the playback supervisor of [`vlc_manager`]: it owns at most
//! one handle of a running player, takes playback commands in the order in which they were
//! sent, and decides which process is to be killed and which is to be launched with which
//! arguments. Around it stand the rules by which a request is turned into a command, the
//! playlist file format, and the thumbnail and flag files.
//!
//! Nothing here touches a file, a process or a socket: every function takes plain values
//! and returns plain values, and the caller does what they ask for.

use vstd::prelude::*;

pub mod flags;
pub mod media_keys;
pub mod paths;
pub mod playlist;
pub mod session;
pub mod text;
pub mod thumbnails;
pub mod vlc_manager;
pub mod web_manager;

verus! {

/// Directory that holds the uploaded media files.
pub const VIDEO_PATH: &'static str = "uploads/";

/// Directory that holds the generated thumbnails.
pub const THUMB_PATH: &'static str = "thumbs/";

/// Directory that holds the playlist files.
pub const PLAYLIST_PATH: &'static str = "playlists/";

/// The path of the uploaded file `path`: `path` adjoined to [`VIDEO_PATH`].
#[must_use]
pub fn video_path(path: &str) -> (full: String)
    ensures
        full@ == paths::joined(VIDEO_PATH@, path@),
{
    paths::join(VIDEO_PATH, path)
}

} // verus!
