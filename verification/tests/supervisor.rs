use ambient_crt::vlc_manager::{play_video, Action, Event, Supervisor, VlcMessage};

/// A stand-in for the operating system: it hands out process numbers, remembers which
/// processes are alive and writes down every call in order.
struct FakePlayer {
    next_id: u32,
    failing: bool,
    live: Vec<u32>,
    most_live: usize,
    calls: Vec<String>,
}

impl FakePlayer {
    fn new() -> Self {
        FakePlayer { next_id: 1, failing: false, live: Vec::new(), most_live: 0, calls: Vec::new() }
    }

    fn spawn(&mut self, args: &[String]) -> Option<u32> {
        let target = args.last().cloned().unwrap_or_default();
        if self.failing {
            self.calls.push(format!("spawn {} failed", target));
            return None;
        }
        let id = self.next_id;
        self.next_id += 1;
        self.live.push(id);
        if self.live.len() > self.most_live {
            self.most_live = self.live.len();
        }
        self.calls.push(format!("spawn {} as {}", target, id));
        Some(id)
    }

    fn kill(&mut self, id: u32) {
        assert!(self.live.contains(&id), "kill of a process that is not alive");
        self.live.retain(|held| *held != id);
        self.calls.push(format!("kill {}", id));
    }
}

fn perform(supervisor: &mut Supervisor<u32>, player: &mut FakePlayer, actions: Vec<Action<u32>>) {
    for action in actions {
        match action {
            Action::Kill(id) => player.kill(id),
            Action::Spawn(args) => {
                let report = match player.spawn(&args) {
                    Some(id) => Event::Spawned(id),
                    None => Event::SpawnFailed,
                };
                let more = supervisor.step(report);
                assert!(more.is_empty());
            }
        }
    }
}

fn send(supervisor: &mut Supervisor<u32>, player: &mut FakePlayer, message: VlcMessage) {
    let actions = supervisor.step(Event::Command(message));
    perform(supervisor, player, actions);
    assert!(player.live.len() <= 1);
    assert_eq!(supervisor.is_playing(), player.live.len() == 1);
    assert_eq!(supervisor.current().copied(), player.live.first().copied());
}

fn play(path: &str) -> VlcMessage {
    VlcMessage::ChangeVideo {
        file_path: path.to_string(),
        gain: "1.0".to_string(),
        visualizer: None,
        shuffle: false,
    }
}

fn texts(items: &[&str]) -> Vec<String> {
    items.iter().map(|item| item.to_string()).collect()
}

#[test]
fn new_supervisor_is_idle() {
    let supervisor: Supervisor<u32> = Supervisor::new(texts(&["--loop"]));
    assert!(!supervisor.is_playing());
    assert_eq!(supervisor.current(), None);
    assert_eq!(supervisor.flags(), &texts(&["--loop"]));
}

#[test]
fn at_most_one_process_is_alive_at_any_moment() {
    let mut supervisor = Supervisor::new(texts(&["--fullscreen"]));
    let mut player = FakePlayer::new();
    for round in 0..50u32 {
        let message = match round % 4 {
            0 => play("a.mp4"),
            1 => VlcMessage::PlayFromString {
                media: "http://host/stream".to_string(),
                gain: "0.5".to_string(),
                visualizer: None,
            },
            2 => VlcMessage::StopVideo,
            _ => play("b.mp4"),
        };
        player.failing = round % 7 == 3;
        send(&mut supervisor, &mut player, message);
    }
    assert_eq!(player.most_live, 1);
    assert!(player.live.len() <= 1);
}

#[test]
fn commands_are_applied_in_the_order_sent() {
    let mut supervisor = Supervisor::new(texts(&[]));
    let mut player = FakePlayer::new();
    send(&mut supervisor, &mut player, play("c1.mp4"));
    send(&mut supervisor, &mut player, play("c2.mp4"));
    send(&mut supervisor, &mut player, play("c3.mp4"));
    assert_eq!(
        player.calls,
        texts(&[
            "spawn c1.mp4 as 1",
            "kill 1",
            "spawn c2.mp4 as 2",
            "kill 2",
            "spawn c3.mp4 as 3",
        ])
    );
    assert_eq!(supervisor.current(), Some(&3));
}

#[test]
fn stop_after_play_leaves_the_supervisor_idle() {
    let mut supervisor = Supervisor::new(texts(&["--loop"]));
    let mut player = FakePlayer::new();
    send(&mut supervisor, &mut player, play("a.mp4"));
    assert!(supervisor.is_playing());
    send(&mut supervisor, &mut player, VlcMessage::StopVideo);
    assert!(!supervisor.is_playing());
    assert!(player.live.is_empty());
    assert_eq!(player.calls, texts(&["spawn a.mp4 as 1", "kill 1"]));
}

#[test]
fn stop_while_idle_asks_for_nothing() {
    let mut supervisor: Supervisor<u32> = Supervisor::new(texts(&[]));
    let actions = supervisor.step(Event::Command(VlcMessage::StopVideo));
    assert!(actions.is_empty());
    assert!(!supervisor.is_playing());
}

#[test]
fn play_asks_for_kill_before_spawn() {
    let mut supervisor: Supervisor<u32> = Supervisor::new(texts(&["--loop"]));
    assert!(supervisor.step(Event::Spawned(9)).is_empty());
    let actions = supervisor.step(Event::Command(play("a.mp4")));
    assert_eq!(
        actions,
        vec![Action::Kill(9), Action::Spawn(texts(&["--loop", "--gain=1.0", "a.mp4"]))]
    );
    assert!(!supervisor.is_playing());
    assert_eq!(supervisor.flags(), &texts(&["--loop"]));
}

#[test]
fn a_failed_spawn_does_not_stop_the_supervisor() {
    let mut supervisor = Supervisor::new(texts(&[]));
    let mut player = FakePlayer::new();
    player.failing = true;
    send(&mut supervisor, &mut player, play("c1.mp4"));
    assert!(!supervisor.is_playing());
    player.failing = false;
    send(&mut supervisor, &mut player, play("c2.mp4"));
    assert!(supervisor.is_playing());
    assert_eq!(supervisor.current(), Some(&1));
    assert_eq!(player.calls, texts(&["spawn c1.mp4 failed", "spawn c2.mp4 as 1"]));
}

#[test]
fn a_failed_spawn_after_play_leaves_nothing_alive() {
    let mut supervisor = Supervisor::new(texts(&[]));
    let mut player = FakePlayer::new();
    send(&mut supervisor, &mut player, play("c1.mp4"));
    player.failing = true;
    send(&mut supervisor, &mut player, play("c2.mp4"));
    assert!(!supervisor.is_playing());
    assert!(player.live.is_empty());
    assert_eq!(player.calls, texts(&["spawn c1.mp4 as 1", "kill 1", "spawn c2.mp4 failed"]));
}

#[test]
fn spawn_failed_keeps_what_is_held() {
    let mut supervisor: Supervisor<u32> = Supervisor::new(texts(&[]));
    assert!(supervisor.step(Event::Spawned(4)).is_empty());
    assert!(supervisor.step(Event::SpawnFailed).is_empty());
    assert_eq!(supervisor.current(), Some(&4));
}

#[test]
fn a_second_reported_process_displaces_the_first() {
    let mut supervisor: Supervisor<u32> = Supervisor::new(texts(&[]));
    assert!(supervisor.step(Event::Spawned(1)).is_empty());
    let actions = supervisor.step(Event::Spawned(2));
    assert_eq!(actions, vec![Action::Kill(1)]);
    assert_eq!(supervisor.current(), Some(&2));
}

#[test]
fn closing_the_channel_kills_what_is_held() {
    let mut supervisor = Supervisor::new(texts(&[]));
    let mut player = FakePlayer::new();
    send(&mut supervisor, &mut player, play("a.mp4"));
    let actions = supervisor.step(Event::Closed);
    assert_eq!(actions, vec![Action::Kill(1)]);
    assert!(!supervisor.is_playing());
    assert!(supervisor.step(Event::Closed).is_empty());
}

#[test]
fn deterministic_argument_construction() {
    let flags = texts(&["--fullscreen", "--loop"]);
    let gain = format!("{:?}", 0.5f32);
    let args = play_video(&flags, "a.mp4", &gain, &None, false);
    assert_eq!(args, texts(&["--fullscreen", "--loop", "--gain=0.5", "a.mp4"]));
    let message = VlcMessage::ChangeVideo {
        file_path: "a.mp4".to_string(),
        gain: "0.5".to_string(),
        visualizer: None,
        shuffle: false,
    };
    assert_eq!(message.args(&flags), Some(args));
}

#[test]
fn visualizer_and_shuffle_composition() {
    let flags = texts(&["--fullscreen", "--loop"]);
    let message = VlcMessage::ChangeVideo {
        file_path: "dir/".to_string(),
        gain: format!("{:?}", 1.0f32),
        visualizer: Some("spectrum".to_string()),
        shuffle: true,
    };
    assert_eq!(
        message.args(&flags),
        Some(texts(&[
            "--fullscreen",
            "--loop",
            "--gain=1.0",
            "--audio-visual=visual",
            "--effect-list=spectrum",
            "--random",
            "dir/",
        ]))
    );
}

#[test]
fn shuffle_without_visualizer() {
    let args = play_video(&texts(&[]), "uploads/", "0.0", &None, true);
    assert_eq!(args, texts(&["--gain=0.0", "--random", "uploads/"]));
}

#[test]
fn a_direct_url_is_never_shuffled() {
    let flags = texts(&["--no-osd"]);
    let message = VlcMessage::PlayFromString {
        media: "https://host/live.m3u8".to_string(),
        gain: "0.25".to_string(),
        visualizer: Some("scope".to_string()),
    };
    assert_eq!(
        message.args(&flags),
        Some(texts(&[
            "--no-osd",
            "--gain=0.25",
            "--audio-visual=visual",
            "--effect-list=scope",
            "https://host/live.m3u8",
        ]))
    );
}

#[test]
fn stop_has_no_arguments() {
    assert_eq!(VlcMessage::StopVideo.args(&texts(&["--loop"])), None);
}

#[test]
fn the_flags_are_left_as_they_are() {
    let flags = texts(&["--b", "--a", "--b"]);
    let args = play_video(&flags, "x", "2.0", &None, false);
    assert_eq!(args, texts(&["--b", "--a", "--b", "--gain=2.0", "x"]));
    assert_eq!(flags, texts(&["--b", "--a", "--b"]));
}
