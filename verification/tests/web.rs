use ambient_crt::media_keys::MediaKeyMessage;
use ambient_crt::playlist::Playlist;
use ambient_crt::vlc_manager::VlcMessage;
use ambient_crt::web_manager::{
    delete_video, media_control, play_media, play_playlist, playlist_file, playlist_name_to_file,
    playlist_response, resolver_args, save_playlist, switch_video, video_info, PlaylistResponse,
    VideoInfo, WebError,
};

fn texts(items: &[&str]) -> Vec<String> {
    items.iter().map(|item| item.to_string()).collect()
}

#[test]
fn a_playlist_name_becomes_a_file_name() {
    assert_eq!(playlist_name_to_file("frank ocean"), "frank_ocean.vlc");
    assert_eq!(playlist_name_to_file("a  b "), "a__b_.vlc");
    assert_eq!(playlist_name_to_file("plain"), "plain.vlc");
    assert_eq!(playlist_name_to_file(""), ".vlc");
    assert_eq!(playlist_name_to_file("tab\tstays"), "tab\tstays.vlc");
}

#[test]
fn a_playlist_name_becomes_a_path() {
    assert_eq!(playlist_file("frank ocean"), "playlists/frank_ocean.vlc");
}

#[test]
fn switching_to_a_video_plays_it_in_order() {
    let result = switch_video(
        "uploads/a.mp4".to_string(),
        true,
        "0.5".to_string(),
        Some("spectrum".to_string()),
    );
    assert_eq!(
        result,
        Ok(VlcMessage::ChangeVideo {
            file_path: "uploads/a.mp4".to_string(),
            gain: "0.5".to_string(),
            visualizer: Some("spectrum".to_string()),
            shuffle: false,
        })
    );
}

#[test]
fn switching_to_a_missing_video_is_an_error() {
    let result = switch_video("uploads/a.mp4".to_string(), false, "0.5".to_string(), None);
    assert_eq!(result, Err(WebError::VideoNotFound));
}

#[test]
fn without_a_playlist_the_whole_directory_is_shuffled() {
    for is_file in [false, true] {
        let result = play_playlist(None, is_file, "1.0".to_string(), None);
        assert_eq!(
            result,
            Ok(VlcMessage::ChangeVideo {
                file_path: "uploads/".to_string(),
                gain: "1.0".to_string(),
                visualizer: None,
                shuffle: true,
            })
        );
    }
}

#[test]
fn a_named_playlist_is_shuffled() {
    let result = play_playlist(
        Some("playlists/mix.vlc".to_string()),
        true,
        "1.0".to_string(),
        Some("scope".to_string()),
    );
    assert_eq!(
        result,
        Ok(VlcMessage::ChangeVideo {
            file_path: "playlists/mix.vlc".to_string(),
            gain: "1.0".to_string(),
            visualizer: Some("scope".to_string()),
            shuffle: true,
        })
    );
}

#[test]
fn a_missing_playlist_is_an_error() {
    let result = play_playlist(Some("playlists/mix.vlc".to_string()), false, "1.0".to_string(), None);
    assert_eq!(result, Err(WebError::PlaylistNotFound));
}

#[test]
fn the_resolver_is_called_with_fixed_arguments() {
    assert_eq!(
        resolver_args("https://www.twitch.tv/ex"),
        texts(&[
            "--quiet",
            "--no-warnings",
            "--get-url",
            "-f",
            "best[vcodec!=none][acodec!=none]/best",
            "https://www.twitch.tv/ex",
        ])
    );
}

#[test]
fn a_resolved_url_is_played_once() {
    let result = play_media(true, "  https://host/live.m3u8\n", "0.75".to_string(), None);
    assert_eq!(
        result,
        Ok(VlcMessage::PlayFromString {
            media: "https://host/live.m3u8".to_string(),
            gain: "0.75".to_string(),
            visualizer: None,
        })
    );
}

#[test]
fn a_failed_resolution_sends_nothing() {
    let result = play_media(false, "https://host/live.m3u8", "0.75".to_string(), None);
    assert_eq!(result, Err(WebError::ResolverFailed));
}

#[test]
fn the_three_media_actions() {
    assert_eq!(media_control(0), Ok(MediaKeyMessage::PlayPause));
    assert_eq!(media_control(1), Ok(MediaKeyMessage::Skip));
    assert_eq!(media_control(2), Ok(MediaKeyMessage::Previous));
    assert_eq!(MediaKeyMessage::from_action(2), Some(MediaKeyMessage::Previous));
}

#[test]
fn any_other_action_is_an_error() {
    for action in 3..=255u8 {
        assert_eq!(media_control(action), Err(WebError::InvalidAction));
        assert_eq!(MediaKeyMessage::from_action(action), None);
    }
}

#[test]
fn the_error_texts() {
    assert_eq!(WebError::VideoNotFound.message(), "video not found");
    assert_eq!(WebError::PlaylistNotFound.message(), "playlist not found");
    assert_eq!(WebError::InvalidAction.message(), "invalid action");
    assert_eq!(WebError::ResolverFailed.message(), "yt-dlp failed");
}

#[test]
fn video_info_names_the_stem() {
    assert_eq!(
        video_info("uploads/clip.final.mp4", "clip.final.mp4".to_string(), 1234),
        VideoInfo {
            size: 1234,
            name: "clip.final.mp4".to_string(),
            name_without_ext: "clip.final".to_string(),
        }
    );
    assert_eq!(video_info("uploads/.hidden", ".hidden".to_string(), 0).name_without_ext, ".hidden");
    assert_eq!(video_info("..", "..".to_string(), 0).name_without_ext, "");
}

#[test]
fn a_playlist_is_shown_by_stem_and_file_names() {
    let playlist = Playlist {
        videos: texts(&["uploads/a.mp4", "..", "uploads/sub/b.mkv"]),
        path: "playlists/frank_ocean.vlc".to_string(),
    };
    assert_eq!(
        playlist_response(&playlist),
        PlaylistResponse { name: "frank_ocean".to_string(), videos: texts(&["a.mp4", "b.mkv"]) }
    );
}

#[test]
fn a_saved_playlist_lies_under_its_file_name() {
    let playlist = save_playlist("frank ocean", texts(&["frank_ocean.mp4"]));
    assert_eq!(
        playlist,
        Playlist {
            videos: texts(&["uploads/frank_ocean.mp4"]),
            path: "playlists/frank_ocean.vlc".to_string(),
        }
    );
}

#[test]
fn deleting_a_video_rewrites_the_playlists_that_hold_it() {
    let all = vec![
        Playlist { videos: texts(&["uploads/a.mp4", "uploads/b.mp4"]), path: "p1".to_string() },
        Playlist { videos: texts(&["uploads/b.mp4"]), path: "p2".to_string() },
        Playlist { videos: texts(&["uploads/a.mp4", "uploads/a.mp4"]), path: "p3".to_string() },
    ];
    assert_eq!(
        delete_video(all, "uploads/a.mp4"),
        vec![
            Playlist { videos: texts(&["uploads/b.mp4"]), path: "p1".to_string() },
            Playlist { videos: Vec::new(), path: "p3".to_string() },
        ]
    );
    assert!(delete_video(Vec::new(), "uploads/a.mp4").is_empty());
}

#[test]
fn a_custom_key_is_carried_through() {
    let message = MediaKeyMessage::CustomKey(enigo::Key::Space);
    assert_eq!(message, MediaKeyMessage::CustomKey(enigo::Key::Space));
    assert_ne!(message, MediaKeyMessage::PlayPause);
}
