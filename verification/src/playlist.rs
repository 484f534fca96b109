//! Playlists and the text format of a playlist file.
//!
//! A playlist file holds one entry per line. Each entry is written with `../` in front of
//! the path of the video, so that the player finds the video from the playlist directory;
//! reading takes one `../` off again and passes over empty lines.

use crate::paths;
use crate::text;
use crate::{video_path, PLAYLIST_PATH, VIDEO_PATH};
use vstd::prelude::*;

verus! {

/// The path of the playlist file `playlist_file`: its name adjoined to [`PLAYLIST_PATH`].
pub fn playlist_path(playlist_file: &str) -> (path: String)
    ensures
        path@ == paths::joined(PLAYLIST_PATH@, playlist_file@),
{
    paths::join(PLAYLIST_PATH, playlist_file)
}

/// A playlist: the paths of its videos, in order, and the path of its file.
#[derive(Debug, PartialEq, Eq)]
pub struct Playlist {
    pub videos: Vec<String>,
    pub path: String,
}

/// A [`Playlist`] as a mathematical value.
pub struct PlaylistView {
    pub videos: Seq<Seq<char>>,
    pub path: Seq<char>,
}

impl View for Playlist {
    type V = PlaylistView;

    open spec fn view(&self) -> PlaylistView {
        PlaylistView { videos: self.videos.deep_view(), path: self.path@ }
    }
}

impl DeepView for Playlist {
    type V = PlaylistView;

    open spec fn deep_view(&self) -> PlaylistView {
        self@
    }
}

/// A playlist file as it was read: where it lies and what it holds.
#[derive(Debug, PartialEq, Eq)]
pub struct PlaylistFile {
    pub path: String,
    pub content: String,
}

/// The paths of the uploaded files `names`, one for one.
pub open spec fn video_paths(names: Seq<Seq<char>>) -> Seq<Seq<char>> {
    Seq::new(names.len(), |i: int| paths::joined(VIDEO_PATH@, names[i]))
}

/// The entry that a line of a playlist file stands for: the line without one `../` at its
/// start.
pub open spec fn entry_of(line: Seq<char>) -> Seq<char> {
    text::without_prefix(line, "../"@)
}

/// The entries of `lines`, in order, the empty ones left out.
pub open spec fn entries_of(lines: Seq<Seq<char>>) -> Seq<Seq<char>> {
    lines.map_values(|line: Seq<char>| entry_of(line)).filter(
        |entry: Seq<char>| entry.len() > 0,
    )
}

/// The videos that a playlist file with this content lists.
pub open spec fn parsed(content: Seq<char>) -> Seq<Seq<char>> {
    entries_of(text::lines_of(content))
}

/// The lines that are written for `videos`: `../` before each.
pub open spec fn written_lines(videos: Seq<Seq<char>>) -> Seq<Seq<char>> {
    Seq::new(videos.len(), |i: int| "../"@ + videos[i])
}

/// The content of the playlist file for `videos`: one line each, a line feed between two.
pub open spec fn rendered(videos: Seq<Seq<char>>) -> Seq<char> {
    text::joined_lines(written_lines(videos))
}

/// What is left of `videos` once every path that is the same path as `video` is taken out.
pub open spec fn without_video(videos: Seq<Seq<char>>, video: Seq<char>) -> Seq<Seq<char>> {
    videos.filter(|held: Seq<char>| !paths::same_path(held, video))
}

/// Whether some path in `videos` is the same path as `video`.
pub open spec fn holds_video(videos: Seq<Seq<char>>, video: Seq<char>) -> bool {
    exists|i: int| 0 <= i < videos.len() && #[trigger] paths::same_path(videos[i], video)
}

/// The playlist that `file` holds.
pub open spec fn playlist_of(file: PlaylistFile) -> PlaylistView {
    PlaylistView { videos: parsed(file.content@), path: file.path@ }
}

/// The playlists that `files` hold, in order, those without a video left out.
pub open spec fn playlists_of(files: Seq<PlaylistFile>) -> Seq<PlaylistView> {
    files.map_values(|file: PlaylistFile| playlist_of(file)).filter(
        |playlist: PlaylistView| playlist.videos.len() > 0,
    )
}

/// Once `video` is taken out of `videos`, it is held no more.
pub proof fn lemma_video_is_gone(videos: Seq<Seq<char>>, video: Seq<char>)
    ensures
        !holds_video(without_video(videos, video), video),
{
    let keep = |held: Seq<char>| !paths::same_path(held, video);
    let left = videos.filter(keep);
    assert forall|i: int| 0 <= i < left.len() implies !paths::same_path(#[trigger] left[i], video) by {
        videos.lemma_filter_pred(keep, i);
    }
}

impl Playlist {
    /// The playlist of file name `name` that holds the uploaded files `videos`, in order.
    pub fn new(name: &str, videos: Vec<String>) -> (playlist: Self)
        ensures
            playlist@.path == paths::joined(PLAYLIST_PATH@, name@),
            playlist@.videos == video_paths(videos.deep_view()),
    {
        let path = playlist_path(name);
        let mut full: Vec<String> = Vec::new();
        let mut i: usize = 0;
        while i < videos.len()
            invariant
                i <= videos.len(),
                full.deep_view() == video_paths(videos.deep_view().take(i as int)),
            decreases videos.len() - i,
        {
            let ghost before = full.deep_view();
            let one = video_path(videos[i].as_str());
            full.push(one);
            assert(video_paths(videos.deep_view().take(i + 1)) =~= before.push(one@));
            i = i + 1;
        }
        Playlist { videos: full, path }
    }

    /// Whether the playlist holds no video.
    pub fn is_empty(&self) -> (empty: bool)
        ensures
            empty == (self@.videos.len() == 0),
    {
        self.videos.len() == 0
    }

    /// Takes `video` out of the playlist, wherever it stands in it, and says whether it
    /// stood in it at all. Paths are compared as `std::path` compares them.
    pub fn remove_video(&mut self, video: &str) -> (removed: bool)
        ensures
            final(self)@.path == old(self)@.path,
            final(self)@.videos == without_video(old(self)@.videos, video@),
            removed == holds_video(old(self)@.videos, video@),
            !holds_video(final(self)@.videos, video@),
    {
        let ghost keep = |held: Seq<char>| !paths::same_path(held, video@);
        let ghost all = self.videos.deep_view();
        let mut kept: Vec<String> = Vec::new();
        let mut removed = false;
        let mut i: usize = 0;
        assert(all.take(0).filter(keep) =~= Seq::<Seq<char>>::empty()) by {
            reveal(Seq::filter);
        }
        while i < self.videos.len()
            invariant
                i <= self.videos.len(),
                self.videos.deep_view() == all,
                self.path == old(self).path,
                keep == |held: Seq<char>| !paths::same_path(held, video@),
                kept.deep_view() == all.take(i as int).filter(keep),
                removed == holds_video(all.take(i as int), video@),
            decreases self.videos.len() - i,
        {
            let ghost seen = all.take(i as int);
            proof {
                assert(all.take(i + 1) =~= seen.push(all[i as int]));
                seen.lemma_filter_push(all[i as int], keep);
            }
            if paths::paths_equal(self.videos[i].as_str(), video) {
                removed = true;
                assert(paths::same_path(all.take(i + 1)[i as int], video@));
            } else {
                let one = self.videos[i].clone();
                kept.push(one);
                proof {
                    if holds_video(all.take(i + 1), video@) {
                        let j = choose|j: int|
                            0 <= j < all.take(i + 1).len() && #[trigger] paths::same_path(
                                all.take(i + 1)[j],
                                video@,
                            );
                        assert(paths::same_path(seen[j], video@));
                    }
                    if holds_video(seen, video@) {
                        let j = choose|j: int|
                            0 <= j < seen.len() && #[trigger] paths::same_path(seen[j], video@);
                        assert(paths::same_path(all.take(i + 1)[j], video@));
                    }
                }
            }
            i = i + 1;
        }
        assert(all.take(all.len() as int) =~= all);
        proof {
            lemma_video_is_gone(all, video@);
        }
        self.videos = kept;
        removed
    }
}

/// Reads a playlist file: the playlist at `path` whose file holds `content`.
///
/// Each line is an entry; one `../` at its start is taken off; empty entries are passed
/// over. The order of the file is kept.
pub fn parse_playlist(path: &str, content: &str) -> (playlist: Playlist)
    ensures
        playlist@.path == path@,
        playlist@.videos == parsed(content@),
{
    let lines = text::lines(content);
    let ghost strip = |line: Seq<char>| entry_of(line);
    let ghost full = |entry: Seq<char>| entry.len() > 0;
    let mut videos: Vec<String> = Vec::new();
    let mut i: usize = 0;
    assert(Seq::<Seq<char>>::empty().filter(full) =~= Seq::<Seq<char>>::empty()) by {
        reveal(Seq::filter);
    }
    while i < lines.len()
        invariant
            i <= lines.len(),
            strip == |line: Seq<char>| entry_of(line),
            full == |entry: Seq<char>| entry.len() > 0,
            videos.deep_view() == lines.deep_view().take(i as int).map_values(strip).filter(full),
        decreases lines.len() - i,
    {
        let entry = text::strip_prefix(lines[i].as_str(), "../");
        proof {
            let seen = lines.deep_view().take(i as int).map_values(strip);
            assert(lines.deep_view().take(i + 1).map_values(strip) =~= seen.push(entry@));
            seen.lemma_filter_push(entry@, full);
        }
        if entry.as_str().unicode_len() > 0 {
            videos.push(entry);
        }
        i = i + 1;
    }
    assert(lines.deep_view().take(lines.len() as int) =~= lines.deep_view());
    Playlist { videos, path: path.to_owned() }
}

/// The content to write to the file of `playlist`; `None` where the playlist is empty, for
/// which no file is kept.
pub fn render_playlist(playlist: &Playlist) -> (content: Option<String>)
    ensures
        match content {
            Some(text) => playlist@.videos.len() > 0 && text@ == rendered(playlist@.videos),
            None => playlist@.videos.len() == 0,
        },
{
    if playlist.videos.len() == 0 {
        return None;
    }
    let mut lines: Vec<String> = Vec::new();
    let mut i: usize = 0;
    while i < playlist.videos.len()
        invariant
            i <= playlist.videos.len(),
            lines.deep_view() == written_lines(playlist@.videos.take(i as int)),
        decreases playlist.videos.len() - i,
    {
        let ghost before = lines.deep_view();
        let line = "../".to_owned().concat(playlist.videos[i].as_str());
        lines.push(line);
        assert(written_lines(playlist@.videos.take(i + 1)) =~= before.push(line@));
        i = i + 1;
    }
    assert(playlist@.videos.take(playlist.videos.len() as int) =~= playlist@.videos);
    Some(text::join_lines(&lines))
}

/// The playlists that the files of the playlist directory hold, in the order of `files`.
/// A file that lists no video gives no playlist.
pub fn playlists(files: &Vec<PlaylistFile>) -> (found: Vec<Playlist>)
    ensures
        found.deep_view() == playlists_of(files@),
{
    let ghost read = |file: PlaylistFile| playlist_of(file);
    let ghost full = |playlist: PlaylistView| playlist.videos.len() > 0;
    let mut found: Vec<Playlist> = Vec::new();
    let mut i: usize = 0;
    assert(Seq::<PlaylistView>::empty().filter(full) =~= Seq::<PlaylistView>::empty()) by {
        reveal(Seq::filter);
    }
    while i < files.len()
        invariant
            i <= files.len(),
            read == |file: PlaylistFile| playlist_of(file),
            full == |playlist: PlaylistView| playlist.videos.len() > 0,
            found.deep_view() == files@.take(i as int).map_values(read).filter(full),
        decreases files.len() - i,
    {
        let playlist = parse_playlist(files[i].path.as_str(), files[i].content.as_str());
        proof {
            let seen = files@.take(i as int).map_values(read);
            assert(files@.take(i + 1).map_values(read) =~= seen.push(playlist@));
            seen.lemma_filter_push(playlist@, full);
        }
        if !playlist.is_empty() {
            found.push(playlist);
        }
        i = i + 1;
    }
    assert(files@.take(files.len() as int) =~= files@);
    found
}

/// Every line that is written for a video stands for that video again when it is read,
/// and none is passed over as long as no video is empty.
proof fn lemma_entries_of_written(videos: Seq<Seq<char>>)
    requires
        forall|i: int| 0 <= i < videos.len() ==> (#[trigger] videos[i]).len() > 0,
    ensures
        entries_of(written_lines(videos)) == videos,
{
    let strip = |line: Seq<char>| entry_of(line);
    let full = |entry: Seq<char>| entry.len() > 0;
    let stripped = written_lines(videos).map_values(strip);
    assert(stripped =~= videos) by {
        assert forall|i: int| 0 <= i < videos.len() implies stripped[i] == videos[i] by {
            let line = "../"@ + videos[i];
            assert(line.subrange(0, "../"@.len() as int) =~= "../"@);
            assert(line.skip("../"@.len() as int) =~= videos[i]);
        }
    }
    text::lemma_filter_keeps_all(videos, full);
}

/// Written and read again. The content that is written for a playlist lists the videos of
/// that playlist, in their order, provided that each of them can stand as a line of its
/// own.
pub proof fn lemma_written_then_read(videos: Seq<Seq<char>>)
    requires
        forall|i: int| 0 <= i < videos.len() ==> text::is_plain_line(#[trigger] videos[i]),
    ensures
        parsed(rendered(videos)) == videos,
{
    let lines = written_lines(videos);
    assert forall|i: int| 0 <= i < lines.len() implies text::is_plain_line(#[trigger] lines[i]) by {
        let video = videos[i];
        let line = "../"@ + video;
        assert(text::is_plain_line(video));
        reveal_strlit("../");
        assert(line.last() == video.last());
        assert forall|k: int| 0 <= k < line.len() implies line[k] != '\n' by {
            if k >= "../"@.len() {
                assert(line[k] == video[k - "../"@.len()]);
            }
        }
    }
    text::lemma_lines_of_joined(lines);
    assert forall|i: int| 0 <= i < videos.len() implies (#[trigger] videos[i]).len() > 0 by {
        assert(text::is_plain_line(videos[i]));
    }
    lemma_entries_of_written(videos);
}

} // verus!
