//! The playback commands, the arguments that the player is launched with, and the
//! supervisor that owns the one running player.

use vstd::prelude::*;

verus! {

/// A playback command, as a request handler sends it to the supervisor.
///
/// `gain` is the linear output gain as decimal text (`"0.5"`; `"0.0"` mutes), ready to be
/// put behind the player's gain flag.
#[derive(Debug, PartialEq, Eq)]
pub enum VlcMessage {
    /// Stop what is playing.
    StopVideo,
    /// Play a media file, a directory or a playlist file.
    ChangeVideo { file_path: String, gain: String, visualizer: Option<String>, shuffle: bool },
    /// Play a direct media URL, once and in order.
    PlayFromString { media: String, gain: String, visualizer: Option<String> },
}

/// What a [`VlcMessage`] says, as a mathematical value.
pub enum Command {
    Stop,
    PlayPath { source: Seq<char>, gain: Seq<char>, visualizer: Option<Seq<char>>, shuffle: bool },
    PlayDirectUrl { url: Seq<char>, gain: Seq<char>, visualizer: Option<Seq<char>> },
}

/// The text of an optional string.
pub open spec fn text_of(value: Option<String>) -> Option<Seq<char>> {
    match value {
        Some(text) => Some(text@),
        None => None,
    }
}

impl View for VlcMessage {
    type V = Command;

    open spec fn view(&self) -> Command {
        match *self {
            VlcMessage::StopVideo => Command::Stop,
            VlcMessage::ChangeVideo { file_path, gain, visualizer, shuffle } => Command::PlayPath {
                source: file_path@,
                gain: gain@,
                visualizer: text_of(visualizer),
                shuffle,
            },
            VlcMessage::PlayFromString { media, gain, visualizer } => Command::PlayDirectUrl {
                url: media@,
                gain: gain@,
                visualizer: text_of(visualizer),
            },
        }
    }
}

/// The two arguments that switch the visualizer `name` on; none where there is no name.
pub open spec fn visualizer_args(visualizer: Option<Seq<char>>) -> Seq<Seq<char>> {
    match visualizer {
        Some(name) => seq!["--audio-visual=visual"@, "--effect-list="@ + name],
        None => Seq::empty(),
    }
}

/// The argument that asks for random order; none where `shuffle` is off.
pub open spec fn shuffle_args(shuffle: bool) -> Seq<Seq<char>> {
    if shuffle {
        seq!["--random"@]
    } else {
        Seq::empty()
    }
}

/// The argument vector of the player: the configured flags in their order, the gain flag,
/// the visualizer flags, the shuffle flag, and last the target to play.
pub open spec fn args_for(
    flags: Seq<Seq<char>>,
    target: Seq<char>,
    gain: Seq<char>,
    visualizer: Option<Seq<char>>,
    shuffle: bool,
) -> Seq<Seq<char>> {
    flags + seq!["--gain="@ + gain] + visualizer_args(visualizer) + shuffle_args(shuffle)
        + seq![target]
}

impl Command {
    /// The argument vector that this command launches the player with; `None` for `Stop`.
    /// A direct URL is never shuffled.
    pub open spec fn args(self, flags: Seq<Seq<char>>) -> Option<Seq<Seq<char>>> {
        match self {
            Command::Stop => None,
            Command::PlayPath { source, gain, visualizer, shuffle } => Some(
                args_for(flags, source, gain, visualizer, shuffle),
            ),
            Command::PlayDirectUrl { url, gain, visualizer } => Some(
                args_for(flags, url, gain, visualizer, false),
            ),
        }
    }

    /// Whether this command asks for a launch.
    pub open spec fn is_play(self) -> bool {
        !(self is Stop)
    }
}

/// A copy of `flags`.
fn copy_of(flags: &Vec<String>) -> (out: Vec<String>)
    ensures
        out.deep_view() == flags.deep_view(),
{
    let mut out: Vec<String> = Vec::new();
    let mut i: usize = 0;
    while i < flags.len()
        invariant
            i <= flags.len(),
            out.deep_view() == flags.deep_view().take(i as int),
        decreases flags.len() - i,
    {
        let ghost before = out.deep_view();
        out.push(flags[i].clone());
        assert(flags.deep_view().take(i + 1) =~= before.push(flags@[i as int]@));
        i = i + 1;
    }
    out
}

/// Appends `arg` to `args`.
fn push_arg(args: &mut Vec<String>, arg: String)
    ensures
        final(args).deep_view() == old(args).deep_view().push(arg@),
{
    args.push(arg);
}

/// Builds the argument vector of the player for one target.
///
/// The order is fixed: every flag of `flags` in its order, then `--gain=` with the gain,
/// then, where a visualizer is named, `--audio-visual=visual` and `--effect-list=` with its
/// name, then `--random` where `shuffle` is set, and last `path`.
pub fn play_video(
    flags: &Vec<String>,
    path: &str,
    gain: &str,
    visualizer: &Option<String>,
    shuffle: bool,
) -> (args: Vec<String>)
    ensures
        args.deep_view() == args_for(flags.deep_view(), path@, gain@, text_of(*visualizer), shuffle),
{
    let mut args = copy_of(flags);
    push_arg(&mut args, "--gain=".to_owned().concat(gain));
    if let Some(name) = visualizer {
        push_arg(&mut args, "--audio-visual=visual".to_owned());
        push_arg(&mut args, "--effect-list=".to_owned().concat(name.as_str()));
    }
    if shuffle {
        push_arg(&mut args, "--random".to_owned());
    }
    push_arg(&mut args, path.to_owned());
    args
}

impl VlcMessage {
    /// The argument vector that this command launches the player with; `None` for
    /// `StopVideo`, which launches nothing.
    pub fn args(&self, flags: &Vec<String>) -> (args: Option<Vec<String>>)
        ensures
            match args {
                Some(list) => self@.args(flags.deep_view()) == Some(list.deep_view()),
                None => self@.args(flags.deep_view()) is None,
            },
    {
        match self {
            VlcMessage::StopVideo => None,
            VlcMessage::ChangeVideo { file_path, gain, visualizer, shuffle } => Some(
                play_video(flags, file_path.as_str(), gain.as_str(), visualizer, *shuffle),
            ),
            VlcMessage::PlayFromString { media, gain, visualizer } => Some(
                play_video(flags, media.as_str(), gain.as_str(), visualizer, false),
            ),
        }
    }
}

/// What the caller reports to the supervisor.
#[derive(Debug, PartialEq, Eq)]
pub enum Event<H> {
    /// The next command has been taken from the channel.
    Command(VlcMessage),
    /// The launch that the supervisor asked for has succeeded; here is the process handle.
    Spawned(H),
    /// The launch that the supervisor asked for has failed.
    SpawnFailed,
    /// Every sender is gone: no command will follow.
    Closed,
}

/// What the supervisor asks the caller to do.
#[derive(Debug, PartialEq, Eq)]
pub enum Action<H> {
    /// Kill this process, as well as that can be done; it may have exited already.
    Kill(H),
    /// Launch the player with these arguments, and report `Spawned` or `SpawnFailed`.
    Spawn(Vec<String>),
}

/// What an [`Event`] says, as a mathematical value.
pub enum Occurrence<H> {
    Command(Command),
    Spawned(H),
    SpawnFailed,
    Closed,
}

/// What an [`Action`] asks for, as a mathematical value.
pub enum Effect<H> {
    Kill(H),
    Spawn(Seq<Seq<char>>),
}

impl<H> View for Event<H> {
    type V = Occurrence<H>;

    open spec fn view(&self) -> Occurrence<H> {
        match *self {
            Event::Command(message) => Occurrence::Command(message@),
            Event::Spawned(handle) => Occurrence::Spawned(handle),
            Event::SpawnFailed => Occurrence::SpawnFailed,
            Event::Closed => Occurrence::Closed,
        }
    }
}

impl<H> DeepView for Action<H> {
    type V = Effect<H>;

    open spec fn deep_view(&self) -> Effect<H> {
        match *self {
            Action::Kill(handle) => Effect::Kill(handle),
            Action::Spawn(args) => Effect::Spawn(args.deep_view()),
        }
    }
}

/// The kill of the process that is held, if one is held.
pub open spec fn kill_of<H>(held: Option<H>) -> Seq<Effect<H>> {
    match held {
        Some(handle) => seq![Effect::Kill(handle)],
        None => Seq::empty(),
    }
}

/// The launch that `command` asks for, if it asks for one.
pub open spec fn launch_of<H>(command: Command, flags: Seq<Seq<char>>) -> Seq<Effect<H>> {
    match command.args(flags) {
        Some(args) => seq![Effect::Spawn(args)],
        None => Seq::empty(),
    }
}

/// The handle that the supervisor holds after `event`, where it held `held` before.
///
/// Every command empties the supervisor, `Stop` included: what it held is killed before
/// anything else happens. A reported process is held from then on. A failed launch changes
/// nothing. When the channel closes the supervisor lets go of what it holds.
pub open spec fn next_held<H>(held: Option<H>, event: Occurrence<H>) -> Option<H> {
    match event {
        Occurrence::Command(_) => None,
        Occurrence::Spawned(handle) => Some(handle),
        Occurrence::SpawnFailed => held,
        Occurrence::Closed => None,
    }
}

/// What the supervisor asks for on `event`, in the order in which it is to be done, where
/// it held `held` before.
///
/// On a command: the kill of what it held, then the launch if the command plays. On a
/// reported process: the kill of what it held, which a caller that reports one process per
/// launch never sees. On a failed launch: nothing. On the end of the channel: the kill of
/// what it held.
pub open spec fn effects_of<H>(
    held: Option<H>,
    event: Occurrence<H>,
    flags: Seq<Seq<char>>,
) -> Seq<Effect<H>> {
    match event {
        Occurrence::Command(command) => kill_of(held) + launch_of(command, flags),
        Occurrence::Spawned(_) => kill_of(held),
        Occurrence::SpawnFailed => Seq::empty(),
        Occurrence::Closed => kill_of(held),
    }
}

/// The owner of the one player process that may run.
///
/// `H` is the caller's process handle. The supervisor is `Idle` while it holds none and
/// `Playing` while it holds one; there is no way to make it hold two. The player flags are
/// given to it once, when it is made, and stay as they are from then on.
///
/// A player that exits by itself goes unnoticed: its handle is held until the next command
/// comes, and the kill that is asked for then finds nothing left to do.
pub struct Supervisor<H> {
    flags: Vec<String>,
    current: Option<H>,
}

/// A [`Supervisor`] as a mathematical value: its flags, and the handle that it holds.
pub struct SupervisorView<H> {
    pub flags: Seq<Seq<char>>,
    pub held: Option<H>,
}

impl<H> View for Supervisor<H> {
    type V = SupervisorView<H>;

    closed spec fn view(&self) -> SupervisorView<H> {
        SupervisorView { flags: self.flags.deep_view(), held: self.current }
    }
}

impl<H> Supervisor<H> {
    /// A supervisor in its initial state, `Idle`, that launches the player with `flags`.
    pub fn new(flags: Vec<String>) -> (supervisor: Self)
        ensures
            supervisor@.flags == flags.deep_view(),
            supervisor@.held is None,
    {
        Supervisor { flags, current: None }
    }

    /// The flags that every launch begins with.
    pub fn flags(&self) -> (flags: &Vec<String>)
        ensures
            flags.deep_view() == self@.flags,
    {
        &self.flags
    }

    /// Whether a process is held.
    pub fn is_playing(&self) -> (playing: bool)
        ensures
            playing == self@.held is Some,
    {
        self.current.is_some()
    }

    /// The process that is held, if any.
    pub fn current(&self) -> (handle: Option<&H>)
        ensures
            match handle {
                Some(held) => self@.held == Some(*held),
                None => self@.held is None,
            },
    {
        self.current.as_ref()
    }

    /// Takes one event and says what is to be done, in order.
    ///
    /// The caller runs the loop: it waits for the next command, hands it in, performs the
    /// actions that come back one after another, and reports how a launch has ended before
    /// it waits again.
    pub fn step(&mut self, event: Event<H>) -> (actions: Vec<Action<H>>)
        ensures
            final(self)@.flags == old(self)@.flags,
            final(self)@.held == next_held(old(self)@.held, event@),
            actions.deep_view() == effects_of(old(self)@.held, event@, old(self)@.flags),
    {
        let mut actions: Vec<Action<H>> = Vec::new();
        match event {
            Event::SpawnFailed => {},
            Event::Command(message) => {
                let launch = message.args(&self.flags);
                if let Some(handle) = self.current.take() {
                    actions.push(Action::Kill(handle));
                }
                if let Some(args) = launch {
                    actions.push(Action::Spawn(args));
                }
            },
            Event::Spawned(handle) => {
                if let Some(displaced) = self.current.take() {
                    actions.push(Action::Kill(displaced));
                }
                self.current = Some(handle);
            },
            Event::Closed => {
                if let Some(handle) = self.current.take() {
                    actions.push(Action::Kill(handle));
                }
            },
        }
        actions
    }
}

} // verus!
