//! Playback sessions: the materialized play-queue a session plays from, and
//! the aggregate playback state the service owns.

use crate::media::MediaMetaData;
use crate::playlist::{clone_tracks, Track};
use vstd::prelude::*;

verus! {

/// How navigation treats the end of a track: replay the same track, or
/// advance through the queue.
#[derive(Clone, Copy, Debug, PartialEq, Eq, Structural)]
pub enum RepeatMode {
    One,
    All,
}

#[derive(Clone, Copy, Debug, PartialEq, Eq, Structural)]
pub enum PlaybackStatus {
    Stopped,
    Playing,
    Paused,
}

/// The text a remote-control surface shows for each status.
pub open spec fn status_text(s: PlaybackStatus) -> Seq<char> {
    match s {
        PlaybackStatus::Playing => "Playing"@,
        PlaybackStatus::Paused => "Paused"@,
        PlaybackStatus::Stopped => "Stopped"@,
    }
}

impl PlaybackStatus {
    pub fn as_str(&self) -> (r: &'static str)
        ensures
            r@ == status_text(*self),
    {
        match self {
            PlaybackStatus::Playing => "Playing",
            PlaybackStatus::Paused => "Paused",
            PlaybackStatus::Stopped => "Stopped",
        }
    }
}

/// The mathematical content of a playback session.
#[verifier::ext_equal]
pub struct SessionModel {
    pub playlist_id: u32,
    pub order: Seq<Track>,
    pub index: int,
}

/// A play-queue derived from a playlist at a point in time — a materialized,
/// possibly shuffled copy, never a live view — plus the cursor of the track
/// being played. `playlist_id` records which playlist it was derived from.
pub struct PlaybackSession {
    pub playlist_id: u32,
    pub order: Vec<Track>,
    pub index: usize,
}

impl View for PlaybackSession {
    type V = SessionModel;

    open spec fn view(&self) -> SessionModel {
        SessionModel { playlist_id: self.playlist_id, order: self.order@, index: self.index as int }
    }
}

impl Clone for PlaybackSession {
    fn clone(&self) -> (r: Self)
        ensures
            r@ == self@,
    {
        PlaybackSession {
            playlist_id: self.playlist_id,
            order: clone_tracks(&self.order),
            index: self.index,
        }
    }
}

/// A session must never be empty, and its cursor must point at a track.
pub open spec fn session_wf(s: Option<SessionModel>) -> bool {
    match s {
        None => true,
        Some(sess) => sess.order.len() > 0 && 0 <= sess.index < sess.order.len(),
    }
}

/// The mathematical content of the aggregate playback state.
#[verifier::ext_equal]
pub struct StateModel {
    pub session: Option<SessionModel>,
    pub status: PlaybackStatus,
    pub progress: u64,
    pub now_playing: Option<MediaMetaData>,
    pub dragging_slider: bool,
}

/// Aggregate playback state: the optional session, the transport status, the
/// position inside the current track in milliseconds, a snapshot of the
/// playing track's metadata, and whether the user is dragging the seek
/// control (which suppresses position polling).
pub struct PlaybackState {
    pub session: Option<PlaybackSession>,
    pub status: PlaybackStatus,
    pub progress: u64,
    pub now_playing: Option<MediaMetaData>,
    pub dragging_slider: bool,
}

impl View for PlaybackState {
    type V = StateModel;

    open spec fn view(&self) -> StateModel {
        StateModel {
            session: match self.session {
                Some(s) => Some(s@),
                None => None,
            },
            status: self.status,
            progress: self.progress,
            now_playing: self.now_playing,
            dragging_slider: self.dragging_slider,
        }
    }
}

/// The state before anything has played.
pub open spec fn initial_state() -> StateModel {
    StateModel {
        session: None,
        status: PlaybackStatus::Stopped,
        progress: 0,
        now_playing: None,
        dragging_slider: false,
    }
}

impl PlaybackState {
    pub fn new() -> (r: Self)
        ensures
            r@ == initial_state(),
    {
        Self {
            session: None,
            status: PlaybackStatus::Stopped,
            progress: 0,
            now_playing: None,
            dragging_slider: false,
        }
    }
}

impl Default for PlaybackState {
    fn default() -> (r: Self)
        ensures
            r@ == initial_state(),
    {
        Self::new()
    }
}

} // verus!
