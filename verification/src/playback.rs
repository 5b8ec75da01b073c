//! The daemon's playback state and how each command changes it.
use vstd::prelude::*;
use crate::config::Audio;
use crate::config::Config;
use crate::config::ConfigError;
use crate::config::ConfigErrorView;
use crate::config::ConfigView;
use crate::config::Frequencies;
use crate::config::Options;
use crate::config::OptionsView;
use crate::config::Resolution;
use crate::config::check_playback;
use crate::config::command_options;
use crate::config::select;
use crate::config::selected_preset;
use crate::config::spec_check_playback;
use crate::config::spec_command_options;
use crate::config::spec_selection;
use crate::document::Level;
use crate::noise::Noise;

verus! {

/// A command to the daemon, with volumes as levels.
#[derive(Debug)]
pub enum Command {
    Status,
    Stop,
    Pause,
    Play,
    Preset { name: String },
    Volume { level: Level },
    Noise { kind: Noise, volume: Option<Level> },
    Reload,
    Shutdown,
}

/// The model of a [`Command`].
pub enum CommandView {
    Status,
    Stop,
    Pause,
    Play,
    Preset { name: Seq<char> },
    Volume { level: Level },
    Noise { kind: Noise, volume: Option<Level> },
    Reload,
    Shutdown,
}

impl View for Command {
    type V = CommandView;

    open spec fn view(&self) -> CommandView {
        match self {
            Command::Status => CommandView::Status,
            Command::Stop => CommandView::Stop,
            Command::Pause => CommandView::Pause,
            Command::Play => CommandView::Play,
            Command::Preset { name } => CommandView::Preset { name: name@ },
            Command::Volume { level } => CommandView::Volume { level: *level },
            Command::Noise { kind, volume } => CommandView::Noise { kind: *kind, volume: *volume },
            Command::Reload => CommandView::Reload,
            Command::Shutdown => CommandView::Shutdown,
        }
    }
}

/// What the player has to do after a command.
#[derive(Clone, Copy, Debug, PartialEq, Eq, Structural)]
pub enum Effect {
    Nothing,
    /// Stop the sound.
    Stop,
    /// Pause the sound.
    Pause,
    /// Resume the paused sound.
    Resume,
    /// Play `resolution` from now on, paused unless `play`.
    Replace { resolution: Resolution, play: bool },
    /// Leave the daemon's loop.
    Shutdown,
}

/// The reply to a command.
#[derive(Clone, Copy, Debug, PartialEq, Eq, Structural)]
pub enum Reply {
    /// A report of the current state.
    Status,
    Stopped,
    Paused,
    Playing,
    Done,
    Reloaded,
    ShuttingDown,
}

impl Reply {
    /// The reply line, for every reply but [`Reply::Status`], whose line
    /// reports the state.
    pub fn text(&self) -> (r: &'static str)
        ensures
            r@ == spec_reply_text(*self),
    {
        match self {
            Reply::Status => "ok",
            Reply::Stopped => "ok stopped",
            Reply::Paused => "ok paused",
            Reply::Playing => "ok playing",
            Reply::Done => "ok",
            Reply::Reloaded => "ok reloaded",
            Reply::ShuttingDown => "ok shutting down",
        }
    }
}

/// The line of each reply.
pub open spec fn spec_reply_text(r: Reply) -> Seq<char> {
    match r {
        Reply::Status => "ok"@,
        Reply::Stopped => "ok stopped"@,
        Reply::Paused => "ok paused"@,
        Reply::Playing => "ok playing"@,
        Reply::Done => "ok"@,
        Reply::Reloaded => "ok reloaded"@,
        Reply::ShuttingDown => "ok shutting down"@,
    }
}

/// What follows from a command: an effect on the sound and a reply.
#[derive(Clone, Copy, Debug, PartialEq, Eq, Structural)]
pub struct Outcome {
    pub effect: Effect,
    pub reply: Reply,
}

/// A command the daemon refuses.
#[derive(Debug)]
pub enum ApplyError {
    /// A volume outside `0..=0.25`.
    VolumeRange,
    /// A noise volume outside `0..=0.25`.
    NoiseVolumeRange,
    /// What the command selects cannot be played.
    Config(ConfigError),
}

/// The model of an [`ApplyError`].
pub enum ApplyErrorView {
    VolumeRange,
    NoiseVolumeRange,
    Config(ConfigErrorView),
}

impl View for ApplyError {
    type V = ApplyErrorView;

    open spec fn view(&self) -> ApplyErrorView {
        match self {
            ApplyError::VolumeRange => ApplyErrorView::VolumeRange,
            ApplyError::NoiseVolumeRange => ApplyErrorView::NoiseVolumeRange,
            ApplyError::Config(e) => ApplyErrorView::Config(e@),
        }
    }
}

/// What the daemon plays: the options it was last asked for, the preset
/// they select, its audio settings, and whether it is paused or stopped.
#[derive(Debug)]
pub struct PlaybackState {
    pub current: Options,
    pub preset: String,
    pub audio: Audio,
    pub paused: bool,
    pub stopped: bool,
}

/// The model of a [`PlaybackState`].
pub struct StateView {
    pub current: OptionsView,
    pub preset: Seq<char>,
    pub audio: Audio,
    pub paused: bool,
    pub stopped: bool,
}

impl View for PlaybackState {
    type V = StateView;

    open spec fn view(&self) -> StateView {
        StateView {
            current: self.current@,
            preset: self.preset@,
            audio: self.audio,
            paused: self.paused,
            stopped: self.stopped,
        }
    }
}

/// Sound is playing: neither paused nor stopped.
pub open spec fn playing(st: StateView) -> bool {
    !st.paused && !st.stopped
}

/// Switching to `next`: what they select in `c` must be playable (a
/// preset's frequencies count as playable, frequencies given otherwise do
/// not); then the state holds `next`, the preset it selects and its audio,
/// paused unless `play`, not stopped.
pub open spec fn spec_replace(c: ConfigView, next: OptionsView, play: bool) -> Result<
    (StateView, Effect),
    ConfigErrorView,
> {
    match spec_selection(next, c) {
        Err(e) => Err(e),
        Ok(res) => match spec_check_playback(res.frequencies is Preset, res.audio) {
            Err(e) => Err(e),
            Ok(()) => Ok(
                (
                    StateView {
                        current: next,
                        preset: selected_preset(next, c),
                        audio: res.audio,
                        paused: !play,
                        stopped: false,
                    },
                    Effect::Replace { resolution: res, play },
                ),
            ),
        },
    }
}

/// A replacement followed by the given reply.
pub open spec fn replaced(r: Result<(StateView, Effect), ConfigErrorView>, reply: Reply) -> Result<
    (StateView, Outcome),
    ApplyErrorView,
> {
    match r {
        Err(e) => Err(ApplyErrorView::Config(e)),
        Ok((s, effect)) => Ok((s, Outcome { effect, reply })),
    }
}

/// The state after `cmd`, with its outcome, or why `cmd` is refused.
/// `c` is the configuration in force; for `Reload` it is the configuration
/// just read.
pub open spec fn spec_apply(st: StateView, cmd: CommandView, c: ConfigView) -> Result<
    (StateView, Outcome),
    ApplyErrorView,
> {
    match cmd {
        CommandView::Status => Ok((st, Outcome { effect: Effect::Nothing, reply: Reply::Status })),
        CommandView::Stop => Ok(
            (
                StateView { paused: true, stopped: true, ..st },
                Outcome { effect: Effect::Stop, reply: Reply::Stopped },
            ),
        ),
        CommandView::Pause => if playing(st) {
            Ok(
                (
                    StateView { paused: true, ..st },
                    Outcome { effect: Effect::Pause, reply: Reply::Paused },
                ),
            )
        } else {
            Ok((st, Outcome { effect: Effect::Nothing, reply: Reply::Paused }))
        },
        CommandView::Play => if st.stopped {
            replaced(spec_replace(c, st.current, true), Reply::Playing)
        } else if st.paused {
            Ok(
                (
                    StateView { paused: false, ..st },
                    Outcome { effect: Effect::Resume, reply: Reply::Playing },
                ),
            )
        } else {
            Ok((st, Outcome { effect: Effect::Nothing, reply: Reply::Playing }))
        },
        CommandView::Preset { name } => replaced(
            spec_replace(c, spec_command_options(name), false),
            Reply::Done,
        ),
        CommandView::Volume { level } => if !level.in_range() {
            Err(ApplyErrorView::VolumeRange)
        } else {
            replaced(
                spec_replace(c, OptionsView { volume: Some(level), ..st.current }, false),
                Reply::Done,
            )
        },
        CommandView::Noise { kind, volume } => if volume matches Some(v) && !v.in_range() {
            Err(ApplyErrorView::NoiseVolumeRange)
        } else {
            let next = OptionsView {
                noise: Some(kind),
                noise_volume: match volume {
                    Some(v) => Some(v),
                    None => st.current.noise_volume,
                },
                ..st.current
            };
            replaced(spec_replace(c, next, false), Reply::Done)
        },
        CommandView::Reload => replaced(
            spec_replace(c, st.current, playing(st)),
            Reply::Reloaded,
        ),
        CommandView::Shutdown => Ok(
            (st, Outcome { effect: Effect::Shutdown, reply: Reply::ShuttingDown }),
        ),
    }
}

/// The state after switching (see [`spec_replace`]), or why not.
fn replacement(config: &Config, next: Options, play: bool) -> (r: Result<
    (PlaybackState, Effect),
    ConfigError,
>)
    ensures
        match (r, spec_replace(config@, next@, play)) {
            (Ok((s, e)), Ok((sv, ev))) => s@ == sv && e == ev,
            (Err(e), Err(f)) => e@ == f,
            _ => false,
        },
{
    let res = select(&next, config)?;
    let from_preset = match res.frequencies {
        Frequencies::Preset { .. } => true,
        _ => false,
    };
    check_playback(from_preset, res.audio)?;
    let preset = match &next.preset {
        Some(p) => p.clone(),
        None => config.default.clone(),
    };
    let state = PlaybackState { current: next, preset, audio: res.audio, paused: !play, stopped: false };
    Ok((state, Effect::Replace { resolution: res, play }))
}

impl PlaybackState {
    /// The state of a daemon that has just started: the default preset,
    /// paused; the effect loads it, paused.
    pub fn new(config: &Config) -> (r: Result<(PlaybackState, Effect), ConfigError>)
        ensures
            match (r, spec_replace(config@, spec_command_options(config@.default), false)) {
                (Ok((s, e)), Ok((sv, ev))) => s@ == sv && e == ev,
                (Err(e), Err(f)) => e@ == f,
                _ => false,
            },
    {
        replacement(config, command_options(config.default.as_str()), false)
    }

    /// Whether sound is playing.
    pub fn is_playing(&self) -> (r: bool)
        ensures
            r == playing(self@),
    {
        !self.paused && !self.stopped
    }

    /// Switches to `next` when it can be played; otherwise leaves the state
    /// as it is.
    fn replace(&mut self, config: &Config, next: Options, play: bool) -> (r: Result<
        Effect,
        ConfigError,
    >)
        ensures
            match (r, spec_replace(config@, next@, play)) {
                (Ok(e), Ok((sv, ev))) => final(self)@ == sv && e == ev,
                (Err(e), Err(f)) => e@ == f && final(self)@ == old(self)@,
                _ => false,
            },
    {
        let (state, effect) = replacement(config, next, play)?;
        *self = state;
        Ok(effect)
    }

    /// Carries out a command (see [`spec_apply`]); a refused command leaves
    /// the state as it was.
    pub fn apply(&mut self, command: Command, config: &Config) -> (r: Result<Outcome, ApplyError>)
        ensures
            match (r, spec_apply(old(self)@, command@, config@)) {
                (Ok(o), Ok((sv, ov))) => final(self)@ == sv && o == ov,
                (Err(e), Err(f)) => e@ == f && final(self)@ == old(self)@,
                _ => false,
            },
    {
        let playing_now = !self.paused && !self.stopped;
        match command {
            Command::Status => Ok(Outcome { effect: Effect::Nothing, reply: Reply::Status }),
            Command::Stop => {
                self.paused = true;
                self.stopped = true;
                Ok(Outcome { effect: Effect::Stop, reply: Reply::Stopped })
            },
            Command::Pause => {
                if playing_now {
                    self.paused = true;
                    Ok(Outcome { effect: Effect::Pause, reply: Reply::Paused })
                } else {
                    Ok(Outcome { effect: Effect::Nothing, reply: Reply::Paused })
                }
            },
            Command::Play => {
                if self.stopped {
                    let next = self.current.duplicate();
                    match self.replace(config, next, true) {
                        Ok(effect) => Ok(Outcome { effect, reply: Reply::Playing }),
                        Err(e) => Err(ApplyError::Config(e)),
                    }
                } else if self.paused {
                    self.paused = false;
                    Ok(Outcome { effect: Effect::Resume, reply: Reply::Playing })
                } else {
                    Ok(Outcome { effect: Effect::Nothing, reply: Reply::Playing })
                }
            },
            Command::Preset { name } => {
                match self.replace(config, command_options(name.as_str()), false) {
                    Ok(effect) => Ok(Outcome { effect, reply: Reply::Done }),
                    Err(e) => Err(ApplyError::Config(e)),
                }
            },
            Command::Volume { level } => {
                if !level.in_range() {
                    return Err(ApplyError::VolumeRange);
                }
                let mut next = self.current.duplicate();
                next.volume = Some(level);
                match self.replace(config, next, false) {
                    Ok(effect) => Ok(Outcome { effect, reply: Reply::Done }),
                    Err(e) => Err(ApplyError::Config(e)),
                }
            },
            Command::Noise { kind, volume } => {
                match volume {
                    Some(v) => {
                        if !v.in_range() {
                            return Err(ApplyError::NoiseVolumeRange);
                        }
                    },
                    None => {},
                }
                let mut next = self.current.duplicate();
                next.noise = Some(kind);
                match volume {
                    Some(v) => {
                        next.noise_volume = Some(v);
                    },
                    None => {},
                }
                match self.replace(config, next, false) {
                    Ok(effect) => Ok(Outcome { effect, reply: Reply::Done }),
                    Err(e) => Err(ApplyError::Config(e)),
                }
            },
            Command::Reload => {
                let next = self.current.duplicate();
                match self.replace(config, next, playing_now) {
                    Ok(effect) => Ok(Outcome { effect, reply: Reply::Reloaded }),
                    Err(e) => Err(ApplyError::Config(e)),
                }
            },
            Command::Shutdown => Ok(Outcome { effect: Effect::Shutdown, reply: Reply::ShuttingDown }),
        }
    }
}

/// What each command does to the play/pause status, when it is carried out:
/// `Stop` and `Pause` leave the sound not playing; `Play` leaves it playing;
/// a new preset, volume or noise is loaded paused; reloading keeps the sound
/// playing or not as it was; `Status`, `Shutdown`, and `Pause` or `Play`
/// when already in that status, change nothing.
pub proof fn lemma_apply_status(st: StateView, cmd: CommandView, c: ConfigView)
    ensures
        spec_apply(st, cmd, c) matches Ok((s, _)) ==> {
            &&& cmd is Stop ==> s.stopped && s.paused
            &&& cmd is Pause ==> !playing(s)
            &&& cmd is Play ==> playing(s)
            &&& (cmd is Preset || cmd is Volume || cmd is Noise) ==> s.paused && !s.stopped
            &&& cmd is Reload ==> playing(s) == playing(st)
            &&& (cmd is Status || cmd is Shutdown) ==> s == st
            &&& (cmd is Pause && !playing(st)) ==> s == st
            &&& (cmd is Play && playing(st)) ==> s == st
        },
{
}

/// Whatever command is carried out, the state plays what its options select
/// in the configuration: after a switch, the preset is the one selected and
/// the audio is the one resolved.
pub proof fn lemma_replace_selects(c: ConfigView, next: OptionsView, play: bool)
    ensures
        spec_replace(c, next, play) matches Ok((s, Effect::Replace { resolution, play: p })) ==> {
            &&& spec_selection(next, c) == Ok::<Resolution, ConfigErrorView>(resolution)
            &&& s.current == next
            &&& s.preset == selected_preset(next, c)
            &&& s.audio == resolution.audio
            &&& p == play
            &&& playing(s) == play
        },
{
}

/// A stopped player is also paused.
pub open spec fn stopped_is_paused(st: StateView) -> bool {
    st.stopped ==> st.paused
}

/// The state after carrying out `cmds` in order, each with the
/// configuration in force for it; a refused command leaves the state as it
/// was.
pub open spec fn apply_all(st: StateView, cmds: Seq<(CommandView, ConfigView)>) -> StateView
    decreases cmds.len(),
{
    if cmds.len() == 0 {
        st
    } else {
        let next = match spec_apply(st, cmds[0].0, cmds[0].1) {
            Ok((s, _)) => s,
            Err(_) => st,
        };
        apply_all(next, cmds.drop_first())
    }
}

/// No command leaves the player stopped but not paused: a daemon that
/// starts (see [`PlaybackState::new`]) is not stopped, and from a state in
/// which a stopped player is paused, every sequence of commands, carried out
/// or refused, leads to such a state again.
pub proof fn lemma_stopped_is_paused(st: StateView, cmds: Seq<(CommandView, ConfigView)>)
    requires
        stopped_is_paused(st),
    ensures
        stopped_is_paused(apply_all(st, cmds)),
        forall|c: ConfigView, next: OptionsView, play: bool|
            #[trigger] spec_replace(c, next, play) matches Ok((s, _)) ==> stopped_is_paused(s),
    decreases cmds.len(),
{
    if cmds.len() > 0 {
        let next = match spec_apply(st, cmds[0].0, cmds[0].1) {
            Ok((s, _)) => s,
            Err(_) => st,
        };
        lemma_stopped_is_paused(next, cmds.drop_first());
    }
}

/// Each command that changes what is played changes only its own setting:
/// `volume` only the volume override, `noise` only the noise kind and, when
/// one is given, the noise volume; `preset` selects the preset with no
/// overrides; `reload`, and `play` after `stop`, keep the options. The
/// audio then is what the new options select in the configuration.
pub proof fn lemma_commands_change_their_setting(st: StateView, cmd: CommandView, c: ConfigView)
    ensures
        spec_apply(st, cmd, c) matches Ok((s, _)) ==> {
            &&& cmd matches CommandView::Volume { level } ==> s.current == OptionsView {
                volume: Some(level),
                ..st.current
            }
            &&& cmd matches CommandView::Noise { kind, volume } ==> {
                &&& s.current.noise == Some(kind)
                &&& s.current.noise_volume == (if volume is Some {
                    volume
                } else {
                    st.current.noise_volume
                })
                &&& s.current.volume == st.current.volume
                &&& s.current.preset == st.current.preset
                &&& s.current.left == st.current.left && s.current.right == st.current.right
                &&& s.current.carrier == st.current.carrier && s.current.beat == st.current.beat
            }
            &&& cmd matches CommandView::Preset { name } ==> {
                &&& s.current.preset == Some(name)
                &&& s.preset == name
                &&& s.current.volume is None && s.current.noise is None
                &&& s.current.noise_volume is None
                &&& s.current.left is None && s.current.right is None
                &&& s.current.carrier is None && s.current.beat is None
            }
            &&& (cmd is Reload || cmd is Play || cmd is Pause || cmd is Stop || cmd is Status
                || cmd is Shutdown) ==> s.current == st.current
            &&& (cmd is Volume || cmd is Noise || cmd is Preset || cmd is Reload || (cmd is Play
                && st.stopped)) ==> (spec_selection(s.current, c) is Ok && s.audio == spec_selection(
                s.current,
                c,
            )->Ok_0.audio)
        },
{
}

} // verus!
