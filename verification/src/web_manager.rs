//! The rules by which a request becomes a command for the supervisor or an answer for the
//! client.
//!
//! The request handlers look at the disk and run the helper programs; what they find they
//! hand to these functions as plain values.

use crate::media_keys::{message_for, MediaKeyMessage};
use crate::paths;
use crate::playlist::{holds_video, playlist_path, without_video, Playlist, PlaylistView, video_paths};
use crate::text;
use crate::thumbnails::name_or_empty;
use crate::vlc_manager::{text_of, Command, VlcMessage};
use crate::{PLAYLIST_PATH, VIDEO_PATH};
use vstd::prelude::*;

verus! {

/// Why a request is turned down.
#[derive(Debug, Clone, Copy, PartialEq, Eq, Structural)]
pub enum WebError {
    /// The named video is no regular file.
    VideoNotFound,
    /// The named playlist has no file.
    PlaylistNotFound,
    /// The action number of a media-control request stands for nothing.
    InvalidAction,
    /// The URL resolver has failed.
    ResolverFailed,
}

impl WebError {
    /// The text of the error, as the client is told it.
    pub open spec fn text(self) -> Seq<char> {
        match self {
            WebError::VideoNotFound => "video not found"@,
            WebError::PlaylistNotFound => "playlist not found"@,
            WebError::InvalidAction => "invalid action"@,
            WebError::ResolverFailed => "yt-dlp failed"@,
        }
    }

    /// The text of the error, as the client is told it.
    pub fn message(&self) -> (message: String)
        ensures
            message@ == self.text(),
    {
        match self {
            WebError::VideoNotFound => "video not found".to_owned(),
            WebError::PlaylistNotFound => "playlist not found".to_owned(),
            WebError::InvalidAction => "invalid action".to_owned(),
            WebError::ResolverFailed => "yt-dlp failed".to_owned(),
        }
    }
}

/// `c`, or an underscore in place of a space.
pub open spec fn unspaced(c: char) -> char {
    if c == ' ' {
        '_'
    } else {
        c
    }
}

/// The file name of the playlist called `name`: the name with an underscore for each
/// space, and `.vlc` behind it.
pub open spec fn file_name_for(name: Seq<char>) -> Seq<char> {
    name.map_values(|c: char| unspaced(c)) + ".vlc"@
}

/// The file name of the playlist called `name`: `frank ocean` is kept in
/// `frank_ocean.vlc`.
pub fn playlist_name_to_file(name: &str) -> (file: String)
    ensures
        file@ == file_name_for(name@),
{
    let chars = text::chars_of(name);
    let ghost swap = |c: char| unspaced(c);
    let mut file = String::new();
    let mut i: usize = 0;
    while i < chars.len()
        invariant
            i <= chars.len(),
            swap == |c: char| unspaced(c),
            file@ == chars@.take(i as int).map_values(swap),
        decreases chars.len() - i,
    {
        let c = chars[i];
        if c == ' ' {
            text::push_char(&mut file, '_');
        } else {
            text::push_char(&mut file, c);
        }
        i = i + 1;
    }
    file.concat(".vlc")
}

/// The path of the file of the playlist called `playlist_name`.
pub fn playlist_file(playlist_name: &str) -> (path: String)
    ensures
        path@ == paths::joined(PLAYLIST_PATH@, file_name_for(playlist_name@)),
{
    let file = playlist_name_to_file(playlist_name);
    playlist_path(file.as_str())
}

/// The command that a request to switch to one video comes to. `video` is the path of the
/// video and `is_file` says whether a regular file lies there. A video that is no regular
/// file is not found, and no command is sent; else the video is played, in order.
pub fn switch_video(
    video: String,
    is_file: bool,
    gain: String,
    visualizer: Option<String>,
) -> (result: Result<VlcMessage, WebError>)
    ensures
        match result {
            Ok(message) => is_file && message@ == (Command::PlayPath {
                source: video@,
                gain: gain@,
                visualizer: text_of(visualizer),
                shuffle: false,
            }),
            Err(error) => !is_file && error == WebError::VideoNotFound,
        },
{
    if !is_file {
        return Err(WebError::VideoNotFound);
    }
    Ok(VlcMessage::ChangeVideo { file_path: video, gain, visualizer, shuffle: false })
}

/// The command that a request to play a playlist comes to. `playlist` is the path of the
/// playlist file, where the request names a playlist, and `is_file` says whether a regular
/// file lies there.
///
/// Without a playlist the whole video directory is played, shuffled. A named playlist
/// whose file is missing is not found, and no command is sent; else the playlist file is
/// played, shuffled.
pub fn play_playlist(
    playlist: Option<String>,
    is_file: bool,
    gain: String,
    visualizer: Option<String>,
) -> (result: Result<VlcMessage, WebError>)
    ensures
        match result {
            Ok(message) => (playlist is Some ==> is_file) && message@ == (Command::PlayPath {
                source: match playlist {
                    Some(path) => path@,
                    None => VIDEO_PATH@,
                },
                gain: gain@,
                visualizer: text_of(visualizer),
                shuffle: true,
            }),
            Err(error) => playlist is Some && !is_file && error == WebError::PlaylistNotFound,
        },
{
    match playlist {
        None => Ok(
            VlcMessage::ChangeVideo {
                file_path: VIDEO_PATH.to_owned(),
                gain,
                visualizer,
                shuffle: true,
            },
        ),
        Some(path) => {
            if !is_file {
                return Err(WebError::PlaylistNotFound);
            }
            Ok(VlcMessage::ChangeVideo { file_path: path, gain, visualizer, shuffle: true })
        },
    }
}

/// The arguments with which the URL resolver is asked for the direct URL of the best
/// stream of `url` that has both picture and sound.
pub open spec fn resolver_args_for(url: Seq<char>) -> Seq<Seq<char>> {
    seq![
        "--quiet"@,
        "--no-warnings"@,
        "--get-url"@,
        "-f"@,
        "best[vcodec!=none][acodec!=none]/best"@,
        url,
    ]
}

/// The arguments with which the URL resolver is called for `url`.
pub fn resolver_args(url: &str) -> (args: Vec<String>)
    ensures
        args.deep_view() == resolver_args_for(url@),
{
    let mut args: Vec<String> = Vec::new();
    args.push("--quiet".to_owned());
    args.push("--no-warnings".to_owned());
    args.push("--get-url".to_owned());
    args.push("-f".to_owned());
    args.push("best[vcodec!=none][acodec!=none]/best".to_owned());
    args.push(url.to_owned());
    args
}

/// The command that a request to play a remote URL comes to, once the URL resolver has
/// run. `resolved` says whether the resolver succeeded and `output` is what it printed.
/// Where it failed no command is sent; else its output, without the white space around
/// it, is the direct URL, which is played once and never shuffled.
pub fn play_media(
    resolved: bool,
    output: &str,
    gain: String,
    visualizer: Option<String>,
) -> (result: Result<VlcMessage, WebError>)
    ensures
        match result {
            Ok(message) => resolved && message@ == (Command::PlayDirectUrl {
                url: text::trimmed(output@),
                gain: gain@,
                visualizer: text_of(visualizer),
            }),
            Err(error) => !resolved && error == WebError::ResolverFailed,
        },
{
    if !resolved {
        return Err(WebError::ResolverFailed);
    }
    Ok(VlcMessage::PlayFromString { media: text::trim(output), gain, visualizer })
}

/// The message for the media-key worker that a media-control request with this action
/// number comes to.
pub fn media_control(action: u8) -> (result: Result<MediaKeyMessage, WebError>)
    ensures
        match result {
            Ok(message) => message_for(action) == Some(message),
            Err(error) => message_for(action) is None && error == WebError::InvalidAction,
        },
{
    match MediaKeyMessage::from_action(action) {
        Some(message) => Ok(message),
        None => Err(WebError::InvalidAction),
    }
}

/// What the client is told of one uploaded video.
#[derive(Debug, PartialEq, Eq)]
pub struct VideoInfo {
    pub size: u64,
    pub name: String,
    pub name_without_ext: String,
}

/// What the client is told of the video at `path`, whose file is called `name` and holds
/// `size` bytes. The name without its extension is the file stem of the path, empty where
/// the path has none.
pub fn video_info(path: &str, name: String, size: u64) -> (info: VideoInfo)
    ensures
        info.size == size,
        info.name@ == name@,
        info.name_without_ext@ == name_or_empty(paths::file_stem_of(path@)),
{
    let name_without_ext = match paths::file_stem(path) {
        Some(stem) => stem,
        None => String::new(),
    };
    VideoInfo { size, name, name_without_ext }
}

/// What the client is told of one playlist.
#[derive(Debug, PartialEq, Eq)]
pub struct PlaylistResponse {
    /// The name of the playlist file, without directory and extension.
    pub name: String,
    /// The file names of the videos, as the client knows them.
    pub videos: Vec<String>,
}

/// The file names of `videos`, in order; a path without a file name is passed over.
pub open spec fn file_names(videos: Seq<Seq<char>>) -> Seq<Seq<char>> {
    videos.filter_map(|video: Seq<char>| paths::file_name_of(video))
}

/// What the client is told of `playlist`: the stem of its file as its name, and the file
/// names of its videos.
pub fn playlist_response(playlist: &Playlist) -> (response: PlaylistResponse)
    ensures
        response.name@ == name_or_empty(paths::file_stem_of(playlist@.path)),
        response.videos.deep_view() == file_names(playlist@.videos),
{
    let name = match paths::file_stem(playlist.path.as_str()) {
        Some(stem) => stem,
        None => String::new(),
    };
    let ghost pick = |video: Seq<char>| paths::file_name_of(video);
    let mut videos: Vec<String> = Vec::new();
    let mut i: usize = 0;
    while i < playlist.videos.len()
        invariant
            i <= playlist.videos.len(),
            pick == |video: Seq<char>| paths::file_name_of(video),
            videos.deep_view() == playlist@.videos.take(i as int).filter_map(pick),
        decreases playlist.videos.len() - i,
    {
        proof {
            playlist@.videos.lemma_filter_map_take_succ(pick, i as int);
        }
        if let Some(file) = paths::file_name(playlist.videos[i].as_str()) {
            videos.push(file);
        }
        i = i + 1;
    }
    assert(playlist@.videos.take(playlist.videos.len() as int) =~= playlist@.videos);
    PlaylistResponse { name, videos }
}

/// The playlist that is saved under `playlist_name` for the uploaded files `videos`.
pub fn save_playlist(playlist_name: &str, videos: Vec<String>) -> (playlist: Playlist)
    ensures
        playlist@.path == paths::joined(PLAYLIST_PATH@, file_name_for(playlist_name@)),
        playlist@.videos == video_paths(videos.deep_view()),
{
    let file = playlist_name_to_file(playlist_name);
    Playlist::new(file.as_str(), videos)
}

/// What becomes of `playlist` when `video` is deleted: the playlist without the video,
/// where it held the video; `None` where it did not, and stays as it is.
pub open spec fn rewritten(playlist: PlaylistView, video: Seq<char>) -> Option<PlaylistView> {
    if holds_video(playlist.videos, video) {
        Some(PlaylistView { videos: without_video(playlist.videos, video), path: playlist.path })
    } else {
        None
    }
}

/// The playlists that are to be written anew when `video` is deleted, in order.
pub open spec fn rewritten_all(
    playlists: Seq<PlaylistView>,
    video: Seq<char>,
) -> Seq<PlaylistView> {
    playlists.filter_map(|playlist: PlaylistView| rewritten(playlist, video))
}

/// Takes the video at path `video` out of every playlist that holds it, and gives back the
/// playlists that have changed and are to be written anew, in the order of `playlists`.
pub fn delete_video(playlists: Vec<Playlist>, video: &str) -> (changed: Vec<Playlist>)
    ensures
        changed.deep_view() == rewritten_all(playlists.deep_view(), video@),
{
    let ghost all = playlists.deep_view();
    let ghost rewrite = |playlist: PlaylistView| rewritten(playlist, video@);
    let mut changed: Vec<Playlist> = Vec::new();
    for playlist in it: playlists
        invariant
            rewrite == |playlist: PlaylistView| rewritten(playlist, video@),
            all.len() == it.seq().len(),
            forall|k: int| 0 <= k < all.len() ==> all[k] == (#[trigger] it.seq()[k])@,
            changed.deep_view() == all.take(it.index() as int).filter_map(rewrite),
    {
        proof {
            all.lemma_filter_map_take_succ(rewrite, it.index() as int);
        }
        let mut playlist = playlist;
        if playlist.remove_video(video) {
            changed.push(playlist);
        }
    }
    assert(all.take(all.len() as int) =~= all);
    changed
}

} // verus!
