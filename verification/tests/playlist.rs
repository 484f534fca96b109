use ambient_crt::playlist::{
    parse_playlist, playlist_path, playlists, render_playlist, Playlist, PlaylistFile,
};
use ambient_crt::{video_path, PLAYLIST_PATH, THUMB_PATH, VIDEO_PATH};

fn texts(items: &[&str]) -> Vec<String> {
    items.iter().map(|item| item.to_string()).collect()
}

#[test]
fn the_directories() {
    assert_eq!(VIDEO_PATH, "uploads/");
    assert_eq!(THUMB_PATH, "thumbs/");
    assert_eq!(PLAYLIST_PATH, "playlists/");
}

#[test]
fn video_path_lies_in_the_upload_directory() {
    assert_eq!(video_path("a.mp4"), "uploads/a.mp4");
    assert_eq!(video_path("sub/a.mp4"), "uploads/sub/a.mp4");
    assert_eq!(video_path(""), "uploads/");
}

#[test]
fn video_path_of_an_absolute_name_is_the_name() {
    assert_eq!(video_path("/tmp/a.mp4"), "/tmp/a.mp4");
}

#[test]
fn playlist_path_lies_in_the_playlist_directory() {
    assert_eq!(playlist_path("mix.vlc"), "playlists/mix.vlc");
}

#[test]
fn a_new_playlist_holds_the_paths_of_its_videos() {
    let playlist = Playlist::new("mix.vlc", texts(&["a.mp4", "b.mkv"]));
    assert_eq!(playlist.path, "playlists/mix.vlc");
    assert_eq!(playlist.videos, texts(&["uploads/a.mp4", "uploads/b.mkv"]));
    assert!(!playlist.is_empty());
}

#[test]
fn a_new_playlist_without_videos_is_empty() {
    let playlist = Playlist::new("none.vlc", Vec::new());
    assert_eq!(playlist.path, "playlists/none.vlc");
    assert!(playlist.videos.is_empty());
    assert!(playlist.is_empty());
}

#[test]
fn a_playlist_file_is_read_line_by_line() {
    let playlist = parse_playlist(
        "playlists/mix.vlc",
        "../uploads/a.mp4\n\n../uploads/b.mp4\r\nuploads/c.mp4\n../\n",
    );
    assert_eq!(playlist.path, "playlists/mix.vlc");
    assert_eq!(playlist.videos, texts(&["uploads/a.mp4", "uploads/b.mp4", "uploads/c.mp4"]));
}

#[test]
fn reading_takes_one_prefix_off() {
    let playlist = parse_playlist("p", "../../a\n..\n");
    assert_eq!(playlist.videos, texts(&["../a", ".."]));
}

#[test]
fn an_empty_file_lists_nothing() {
    assert!(parse_playlist("p", "").videos.is_empty());
    assert!(parse_playlist("p", "\n\n").videos.is_empty());
}

#[test]
fn a_playlist_is_written_with_the_prefix() {
    let playlist = Playlist {
        videos: texts(&["uploads/a.mp4", "uploads/b.mp4"]),
        path: "playlists/mix.vlc".to_string(),
    };
    assert_eq!(
        render_playlist(&playlist),
        Some("../uploads/a.mp4\n../uploads/b.mp4".to_string())
    );
}

#[test]
fn an_empty_playlist_is_not_written() {
    let playlist = Playlist { videos: Vec::new(), path: "playlists/mix.vlc".to_string() };
    assert_eq!(render_playlist(&playlist), None);
}

#[test]
fn what_is_written_is_read_back() {
    let playlist = Playlist::new("mix.vlc", texts(&["a.mp4", "b c.mkv", "../d.mp4"]));
    let content = render_playlist(&playlist).unwrap();
    assert_eq!(parse_playlist(&playlist.path, &content), playlist);
}

#[test]
fn remove_video_takes_out_every_occurrence() {
    let mut playlist = Playlist {
        videos: texts(&["uploads/a.mp4", "uploads/b.mp4", "uploads//a.mp4", "uploads/./a.mp4"]),
        path: "playlists/mix.vlc".to_string(),
    };
    assert!(playlist.remove_video("uploads/a.mp4"));
    assert_eq!(playlist.videos, texts(&["uploads/b.mp4"]));
    assert_eq!(playlist.path, "playlists/mix.vlc");
}

#[test]
fn remove_video_leaves_other_playlists_alone() {
    let mut playlist = Playlist {
        videos: texts(&["uploads/b.mp4", "uploads/a.mp4x"]),
        path: "playlists/mix.vlc".to_string(),
    };
    assert!(!playlist.remove_video("uploads/a.mp4"));
    assert_eq!(playlist.videos, texts(&["uploads/b.mp4", "uploads/a.mp4x"]));
}

#[test]
fn playlists_without_videos_are_left_out() {
    let files = vec![
        PlaylistFile { path: "playlists/a.vlc".to_string(), content: "../uploads/x.mp4\n".to_string() },
        PlaylistFile { path: "playlists/empty.vlc".to_string(), content: "\n\n".to_string() },
        PlaylistFile { path: "playlists/b.vlc".to_string(), content: "../uploads/y.mp4".to_string() },
    ];
    let found = playlists(&files);
    assert_eq!(
        found,
        vec![
            Playlist { videos: texts(&["uploads/x.mp4"]), path: "playlists/a.vlc".to_string() },
            Playlist { videos: texts(&["uploads/y.mp4"]), path: "playlists/b.vlc".to_string() },
        ]
    );
    assert!(playlists(&Vec::new()).is_empty());
}
