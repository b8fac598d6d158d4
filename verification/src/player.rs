//! The playback engine adapter: the one place the opaque media pipeline is
//! driven from.
//!
//! The adapter records every pipeline request as a [`PlayerCommand`] and
//! exposes the pipeline's externally visible command state (current URI,
//! queued URI, volume). The unverified runner drains the commands, performs
//! them on the real pipeline, and feeds the pipeline's bus back in through
//! [`Player::push_event`], [`Player::notify_about_to_finish`] and
//! [`Player::set_position`].

use crate::media::opt_str_view;
use vstd::prelude::*;

verus! {

/// One request to the underlying media pipeline, in the order issued.
#[derive(Clone, Debug, PartialEq, Eq)]
pub enum PlayerCommand {
    /// Set the pipeline's source to this URI.
    Load(String),
    Play,
    Pause,
    Stop,
    /// Volume in permille of full scale, already clamped to `0..=1000`.
    SetVolume(u32),
    /// Flushing seek to this absolute position, in whole seconds.
    Seek(u64),
    /// The URI the pipeline switches to on its own when the current stream
    /// is about to finish; `None` disables the gapless auto-advance.
    SetQueuedUri(Option<String>),
}

/// A pipeline request with its text at the mathematical level.
pub enum CommandModel {
    Load(Seq<char>),
    Play,
    Pause,
    Stop,
    SetVolume(u32),
    Seek(u64),
    SetQueuedUri(Option<Seq<char>>),
}

impl View for PlayerCommand {
    type V = CommandModel;

    open spec fn view(&self) -> CommandModel {
        match self {
            PlayerCommand::Load(u) => CommandModel::Load(u@),
            PlayerCommand::Play => CommandModel::Play,
            PlayerCommand::Pause => CommandModel::Pause,
            PlayerCommand::Stop => CommandModel::Stop,
            PlayerCommand::SetVolume(v) => CommandModel::SetVolume(*v),
            PlayerCommand::Seek(t) => CommandModel::Seek(*t),
            PlayerCommand::SetQueuedUri(u) => CommandModel::SetQueuedUri(opt_str_view(*u)),
        }
    }
}

/// An event the pipeline's bus reported, in arrival order.
#[derive(Clone, Debug, PartialEq, Eq)]
pub enum PlayerEvent {
    /// A new stream began playing — after a plain load as well as after a
    /// gapless auto-switch; the service tells the two apart with its own
    /// pending flag.
    StreamStarted,
    /// Playback ran out with no queued URI.
    EndOfStream,
    /// The pipeline failed; the message is the pipeline's own.
    Error(String),
}

/// The mathematical content of the adapter.
#[verifier::ext_equal]
pub struct PlayerModel {
    pub current_uri: Option<Seq<char>>,
    pub queued_uri: Option<Seq<char>>,
    pub volume: u32,
    pub commands: Seq<CommandModel>,
    pub events: Seq<PlayerEvent>,
    pub about_to_finish: bool,
    pub position: Option<u64>,
}

/// Full volume, in permille.
pub const VOLUME_FULL: u32 = 1000;

/// The playback engine adapter. `current_uri`, `queued_uri` and `volume`
/// mirror the pipeline's command state; `commands` is the outbound request
/// log; `events`, `about_to_finish` and `position` are the inbound side the
/// runner fills from the pipeline's bus.
pub struct Player {
    pub current_uri: Option<String>,
    pub queued_uri: Option<String>,
    pub volume: u32,
    pub commands: Vec<PlayerCommand>,
    pub events: Vec<PlayerEvent>,
    pub about_to_finish: bool,
    pub position: Option<u64>,
}

impl View for Player {
    type V = PlayerModel;

    open spec fn view(&self) -> PlayerModel {
        PlayerModel {
            current_uri: opt_str_view(self.current_uri),
            queued_uri: opt_str_view(self.queued_uri),
            volume: self.volume,
            commands: self.commands@.map_values(|c: PlayerCommand| c@),
            events: self.events@,
            about_to_finish: self.about_to_finish,
            position: self.position,
        }
    }
}

/// The adapter before anything was requested: nothing loaded, nothing
/// queued, full volume, empty logs.
pub open spec fn initial_player() -> PlayerModel {
    PlayerModel {
        current_uri: None,
        queued_uri: None,
        volume: VOLUME_FULL,
        commands: Seq::empty(),
        events: Seq::empty(),
        about_to_finish: false,
        position: None,
    }
}

impl Player {
    pub fn new() -> (r: Self)
        ensures
            r@ == initial_player(),
    {
        let r = Player {
            current_uri: None,
            queued_uri: None,
            volume: VOLUME_FULL,
            commands: Vec::new(),
            events: Vec::new(),
            about_to_finish: false,
            position: None,
        };
        proof {
            assert(r@ =~= initial_player());
        }
        r
    }

    /// Request the pipeline's source set to `uri`.
    pub fn load(&mut self, uri: String)
        ensures
            final(self)@ == (PlayerModel {
                current_uri: Some(uri@),
                commands: old(self)@.commands.push(CommandModel::Load(uri@)),
                ..old(self)@
            }),
    {
        self.commands.push(PlayerCommand::Load(uri.clone()));
        self.current_uri = Some(uri);
        proof {
            assert(self@.commands =~= old(self)@.commands.push(CommandModel::Load(
                self.current_uri->Some_0@,
            )));
        }
    }

    /// Request the pipeline to start or resume playing.
    pub fn play(&mut self)
        ensures
            final(self)@ == (PlayerModel {
                commands: old(self)@.commands.push(CommandModel::Play),
                ..old(self)@
            }),
    {
        self.commands.push(PlayerCommand::Play);
        proof {
            assert(self@.commands =~= old(self)@.commands.push(CommandModel::Play));
        }
    }

    /// Request the pipeline paused.
    pub fn pause(&mut self)
        ensures
            final(self)@ == (PlayerModel {
                commands: old(self)@.commands.push(CommandModel::Pause),
                ..old(self)@
            }),
    {
        self.commands.push(PlayerCommand::Pause);
        proof {
            assert(self@.commands =~= old(self)@.commands.push(CommandModel::Pause));
        }
    }

    /// Request the pipeline stopped (torn down to its null state).
    pub fn stop(&mut self)
        ensures
            final(self)@ == (PlayerModel {
                commands: old(self)@.commands.push(CommandModel::Stop),
                ..old(self)@
            }),
    {
        self.commands.push(PlayerCommand::Stop);
        proof {
            assert(self@.commands =~= old(self)@.commands.push(CommandModel::Stop));
        }
    }

    /// Request a volume change. A value above full scale is clamped to full
    /// scale, never rejected.
    pub fn set_volume(&mut self, permille: u32)
        ensures
            final(self)@ == (PlayerModel {
                volume: clamp_volume(permille),
                commands: old(self)@.commands.push(
                    CommandModel::SetVolume(clamp_volume(permille)),
                ),
                ..old(self)@
            }),
    {
        let v = if permille > VOLUME_FULL {
            VOLUME_FULL
        } else {
            permille
        };
        self.volume = v;
        self.commands.push(PlayerCommand::SetVolume(v));
        proof {
            assert(self@.commands =~= old(self)@.commands.push(
                CommandModel::SetVolume(clamp_volume(permille)),
            ));
        }
    }

    /// Request a flushing seek to an absolute position in whole seconds.
    pub fn seek(&mut self, seconds: u64)
        ensures
            final(self)@ == (PlayerModel {
                commands: old(self)@.commands.push(CommandModel::Seek(seconds)),
                ..old(self)@
            }),
    {
        self.commands.push(PlayerCommand::Seek(seconds));
        proof {
            assert(self@.commands =~= old(self)@.commands.push(CommandModel::Seek(seconds)));
        }
    }

    /// Set (or clear) the URI the pipeline auto-switches to when the current
    /// stream is about to finish.
    pub fn set_queued_uri(&mut self, uri: Option<String>)
        ensures
            final(self)@ == (PlayerModel {
                queued_uri: opt_str_view(uri),
                commands: old(self)@.commands.push(
                    CommandModel::SetQueuedUri(opt_str_view(uri)),
                ),
                ..old(self)@
            }),
    {
        let copied = match &uri {
            Some(u) => Some(u.clone()),
            None => None,
        };
        self.commands.push(PlayerCommand::SetQueuedUri(copied));
        self.queued_uri = uri;
        proof {
            assert(self@.commands =~= old(self)@.commands.push(
                CommandModel::SetQueuedUri(opt_str_view(self.queued_uri)),
            ));
        }
    }

    /// True exactly when the pipeline reported "about to finish" since the
    /// last call; the flag is consumed.
    pub fn take_about_to_finish(&mut self) -> (r: bool)
        ensures
            r == old(self)@.about_to_finish,
            final(self)@ == (PlayerModel { about_to_finish: false, ..old(self)@ }),
    {
        let r = self.about_to_finish;
        self.about_to_finish = false;
        r
    }

    /// The runner reports that the pipeline's about-to-finish signal fired.
    pub fn notify_about_to_finish(&mut self)
        ensures
            final(self)@ == (PlayerModel { about_to_finish: true, ..old(self)@ }),
    {
        self.about_to_finish = true;
    }

    /// The runner appends one bus event in arrival order.
    pub fn push_event(&mut self, e: PlayerEvent)
        ensures
            final(self)@ == (PlayerModel { events: old(self)@.events.push(e), ..old(self)@ }),
    {
        self.events.push(e);
    }

    /// The runner reports the pipeline's playback position in milliseconds,
    /// or `None` where the pipeline cannot tell.
    pub fn set_position(&mut self, position: Option<u64>)
        ensures
            final(self)@ == (PlayerModel { position, ..old(self)@ }),
    {
        self.position = position;
    }

    /// Drain the bus events that arrived since the last call, in order.
    pub fn take_events(&mut self) -> (r: Vec<PlayerEvent>)
        ensures
            r@ == old(self)@.events,
            final(self)@ == (PlayerModel { events: Seq::empty(), ..old(self)@ }),
    {
        let mut taken: Vec<PlayerEvent> = Vec::new();
        core::mem::swap(&mut self.events, &mut taken);
        proof {
            assert(self@ =~= (PlayerModel { events: Seq::empty(), ..old(self)@ }));
        }
        taken
    }

    /// Hand out the request log and clear it; the runner performs the
    /// requests on the real pipeline, in order.
    pub fn take_commands(&mut self) -> (r: Vec<PlayerCommand>)
        ensures
            r@.map_values(|c: PlayerCommand| c@) == old(self)@.commands,
            final(self)@ == (PlayerModel { commands: Seq::empty(), ..old(self)@ }),
    {
        let mut taken: Vec<PlayerCommand> = Vec::new();
        core::mem::swap(&mut self.commands, &mut taken);
        proof {
            assert(self@.commands =~= Seq::<CommandModel>::empty());
        }
        taken
    }
}

/// A requested volume clamped to full scale.
pub open spec fn clamp_volume(permille: u32) -> u32 {
    if permille > VOLUME_FULL {
        VOLUME_FULL
    } else {
        permille
    }
}

} // verus!
