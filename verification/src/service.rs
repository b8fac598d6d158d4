//! The playback service: the sole owner of the session, the engine adapter
//! and the gapless bookkeeping. Every operation is proved to implement its
//! transition function from [`crate::model`].

use crate::media::{clone_opt_string, opt_str_view, MediaMetaData};
use crate::model::{
    advance_model, clamp_seek, clicked_index, drain_events_model, drain_from, entry_pred,
    event_step_model, first_where, has_id, id_pred, initial_model, lemma_first_where_is,
    lemma_first_where_props, lemma_rebuild_order_push, lib_match, library_repair_keeps,
    library_repair_model, load_current_track_model, model_current_id, model_next_index,
    model_queue_target, next_model, pause_model, play_model, prev_model, queue_next_model,
    rebuild_order, same_entry, session_over, set_index_model, set_repeat_model,
    start_session_model, stop_model, teardown_model, tick_model, update_now_playing_model,
    update_shuffle_model, valid_id_pred, validate_model, Model, PlaybackEvent,
};
use crate::mpris::MprisCommand;
use crate::player::{Player, PlayerEvent, PlayerModel};
use crate::playlist::{clone_tracks, Playlist, Track};
use crate::session::{
    session_wf, PlaybackSession, PlaybackState, PlaybackStatus, RepeatMode, SessionModel,
    StateModel,
};
use crate::trusted::{path_to_uri, shuffle_tracks};
use vstd::prelude::*;

verus! {

/// The playback service. It owns the one engine adapter; nothing else may
/// drive the pipeline. Repeat settings are mirrored here because the correct
/// gapless target depends on them.
pub struct PlaybackService {
    pub player: Player,
    pub state: PlaybackState,
    pub mpris_queue: Vec<MprisCommand>,
    pub repeat_mode: RepeatMode,
    pub repeat_enabled: bool,
    pub gapless_pending: bool,
    pub pending_gapless_track_id: Option<String>,
}

impl View for PlaybackService {
    type V = Model;

    open spec fn view(&self) -> Model {
        Model {
            player: self.player@,
            state: self.state@,
            mpris: self.mpris_queue@,
            repeat_mode: self.repeat_mode,
            repeat_enabled: self.repeat_enabled,
            gapless_pending: self.gapless_pending,
            pending_id: opt_str_view(self.pending_gapless_track_id),
        }
    }
}

impl PlaybackService {
    /// A session, if present, is never empty and its cursor points at a
    /// track. Every operation preserves this.
    pub open spec fn wf(&self) -> bool {
        session_wf(self@.state.session)
    }

    pub fn new() -> (r: Self)
        ensures
            r@ == initial_model(),
            r.wf(),
    {
        let r = PlaybackService {
            player: Player::new(),
            state: PlaybackState::new(),
            mpris_queue: Vec::new(),
            repeat_mode: RepeatMode::All,
            repeat_enabled: false,
            gapless_pending: false,
            pending_gapless_track_id: None,
        };
        proof {
            assert(r@ =~= initial_model());
        }
        r
    }

    // ===== State access =====

    pub fn status(&self) -> (r: PlaybackStatus)
        ensures
            r == self@.state.status,
    {
        self.state.status
    }

    /// A snapshot of the playing track's metadata, if any.
    pub fn now_playing(&self) -> (r: Option<MediaMetaData>)
        ensures
            r == self@.state.now_playing,
    {
        match &self.state.now_playing {
            Some(m) => Some(m.clone()),
            None => None,
        }
    }

    /// The position inside the current track, in milliseconds.
    pub fn progress(&self) -> (r: u64)
        ensures
            r == self@.state.progress,
    {
        self.state.progress
    }

    /// A copy of the live session, if any.
    pub fn session(&self) -> (r: Option<PlaybackSession>)
        ensures
            r matches Some(s) ==> self@.state.session == Some(s@),
            r is None ==> self@.state.session is None,
    {
        match &self.state.session {
            Some(s) => Some(s.clone()),
            None => None,
        }
    }

    /// The URI the engine is set to auto-switch to, if any.
    pub fn queued_uri(&self) -> (r: Option<String>)
        ensures
            opt_str_view(r) == self@.player.queued_uri,
    {
        clone_opt_string(&self.player.queued_uri)
    }

    pub fn set_dragging_slider(&mut self, dragging: bool)
        ensures
            final(self)@ == (Model {
                state: StateModel { dragging_slider: dragging, ..old(self)@.state },
                ..old(self)@
            }),
    {
        self.state.dragging_slider = dragging;
        proof {
            assert(self@ =~= (Model {
                state: StateModel { dragging_slider: dragging, ..old(self)@.state },
                ..old(self)@
            }));
        }
    }

    pub fn set_progress(&mut self, progress: u64)
        ensures
            final(self)@ == (Model {
                state: StateModel { progress, ..old(self)@.state },
                ..old(self)@
            }),
    {
        self.state.progress = progress;
        proof {
            assert(self@ =~= (Model {
                state: StateModel { progress, ..old(self)@.state },
                ..old(self)@
            }));
        }
    }

    // ===== Playback control =====

    pub fn play(&mut self)
        ensures
            final(self)@ == play_model(old(self)@),
    {
        self.player.play();
        self.state.status = PlaybackStatus::Playing;
        proof {
            assert(self@ =~= play_model(old(self)@));
        }
    }

    pub fn pause(&mut self)
        ensures
            final(self)@ == pause_model(old(self)@),
    {
        self.player.pause();
        self.state.status = PlaybackStatus::Paused;
        proof {
            assert(self@ =~= pause_model(old(self)@));
        }
    }

    /// Stop playback: halt the pipeline, disable the gapless auto-advance,
    /// and forget any pending switch.
    pub fn stop(&mut self)
        ensures
            final(self)@ == stop_model(old(self)@),
    {
        self.player.stop();
        self.player.set_queued_uri(None);
        self.gapless_pending = false;
        self.pending_gapless_track_id = None;
        self.state.status = PlaybackStatus::Stopped;
        proof {
            assert(self@ =~= stop_model(old(self)@));
        }
    }

    /// Toggle between playing and paused; stopped counts as paused.
    pub fn play_pause(&mut self)
        ensures
            old(self)@.state.status is Playing ==> final(self)@ == pause_model(old(self)@),
            !(old(self)@.state.status is Playing) ==> final(self)@ == play_model(old(self)@),
    {
        match self.state.status {
            PlaybackStatus::Stopped | PlaybackStatus::Paused => self.play(),
            PlaybackStatus::Playing => self.pause(),
        }
    }

    /// Set the volume, in permille of full scale; values above full scale
    /// are clamped, never rejected.
    pub fn set_volume(&mut self, permille: u32)
        ensures
            final(self)@ == (Model {
                player: PlayerModel {
                    volume: crate::player::clamp_volume(permille),
                    commands: old(self)@.player.commands.push(
                        crate::player::CommandModel::SetVolume(
                            crate::player::clamp_volume(permille),
                        ),
                    ),
                    ..old(self)@.player
                },
                ..old(self)@
            }),
    {
        self.player.set_volume(permille);
        proof {
            assert(self@ =~= (Model { player: self@.player, ..old(self)@ }));
        }
    }

    /// Request a flushing seek to an absolute position in whole seconds;
    /// negative time is clamped to the start.
    pub fn seek(&mut self, seconds: i64)
        ensures
            final(self)@ == (Model {
                player: PlayerModel {
                    commands: old(self)@.player.commands.push(
                        crate::player::CommandModel::Seek(clamp_seek(seconds)),
                    ),
                    ..old(self)@.player
                },
                ..old(self)@
            }),
    {
        let t: u64 = if seconds < 0 {
            0
        } else {
            seconds as u64
        };
        self.player.seek(t);
        proof {
            assert(self@ =~= (Model { player: self@.player, ..old(self)@ }));
        }
    }

    // ===== Remote control =====

    /// The transport bridge hands one remote command in; it waits until the
    /// next tick's drain.
    pub fn push_mpris_command(&mut self, cmd: MprisCommand)
        ensures
            final(self)@ == (Model { mpris: old(self)@.mpris.push(cmd), ..old(self)@ }),
    {
        self.mpris_queue.push(cmd);
        proof {
            assert(self@ =~= (Model { mpris: old(self)@.mpris.push(cmd), ..old(self)@ }));
        }
    }

    /// Apply one drained remote command; each maps one-to-one to a service
    /// call, none are batched or coalesced. The remote surface's seek is an
    /// offset with no absolute target, so it is left to the caller.
    pub fn apply_mpris_command(
        &mut self,
        cmd: MprisCommand,
        repeat_mode: RepeatMode,
        repeat_enabled: bool,
    )
        requires
            old(self).wf(),
        ensures
            final(self).wf(),
            cmd is Play ==> final(self)@ == play_model(old(self)@),
            cmd is Pause ==> final(self)@ == pause_model(old(self)@),
            cmd is PlayPause && old(self)@.state.status is Playing ==> final(self)@ == pause_model(
                old(self)@,
            ),
            cmd is PlayPause && !(old(self)@.state.status is Playing) ==> final(self)@
                == play_model(old(self)@),
            cmd is Stop ==> final(self)@ == stop_model(old(self)@),
            cmd is Next ==> final(self)@ == next_model(old(self)@, repeat_mode, repeat_enabled),
            cmd is Previous ==> final(self)@ == prev_model(old(self)@, repeat_mode),
            cmd is Seek ==> final(self)@ == old(self)@,
    {
        match cmd {
            MprisCommand::Play => self.play(),
            MprisCommand::Pause => self.pause(),
            MprisCommand::PlayPause => self.play_pause(),
            MprisCommand::Stop => self.stop(),
            MprisCommand::Next => self.next(repeat_mode, repeat_enabled),
            MprisCommand::Previous => self.prev(repeat_mode),
            MprisCommand::Seek(_) => {},
        }
    }

    /// Drain the queued remote commands, in arrival order.
    pub fn process_mpris_commands(&mut self) -> (r: Vec<MprisCommand>)
        ensures
            r@ == old(self)@.mpris,
            final(self)@ == (Model { mpris: Seq::empty(), ..old(self)@ }),
    {
        let mut taken: Vec<MprisCommand> = Vec::new();
        core::mem::swap(&mut self.mpris_queue, &mut taken);
        proof {
            assert(self@ =~= (Model { mpris: Seq::empty(), ..old(self)@ }));
        }
        taken
    }

    // ===== The gapless queue =====

    /// The cursor position the queue advances to next, a pure function of
    /// the queue length, the cursor and the repeat settings; `None` at the
    /// end of the queue without repeat and for an empty session.
    pub fn compute_next_index(&self) -> (r: Option<usize>)
        requires
            self.wf(),
        ensures
            r matches Some(i) ==> model_next_index(self@) == Some(i as int),
            r is None ==> model_next_index(self@) is None,
    {
        match &self.state.session {
            None => None,
            Some(session) => {
                let len = session.order.len();
                if len == 0 {
                    None
                } else {
                    match self.repeat_mode {
                        RepeatMode::One => Some(session.index),
                        RepeatMode::All => {
                            if session.index < len - 1 {
                                Some(session.index + 1)
                            } else if self.repeat_enabled {
                                Some(0)
                            } else {
                                None
                            }
                        },
                    }
                }
            },
        }
    }

    /// Pre-queue the next track's URI in the engine so the about-to-finish
    /// signal can switch to it gaplessly. The remembered pending hash is
    /// only replaced while no switch is in flight, so a mutation racing with
    /// an about-to-finish cannot overwrite the hash the engine is already
    /// committed to.
    pub fn queue_next_uri(&mut self)
        requires
            old(self).wf(),
        ensures
            final(self).wf(),
            final(self)@ == queue_next_model(old(self)@),
    {
        let next_idx = self.compute_next_index();
        let mut uri_opt: Option<String> = None;
        let mut id_opt: Option<String> = None;
        let mut have_target = false;
        match next_idx {
            Some(idx) => {
                match &self.state.session {
                    Some(session) => {
                        if idx < session.order.len() {
                            match path_to_uri(&session.order[idx].path) {
                                Some(u) => {
                                    uri_opt = Some(u);
                                    id_opt = clone_opt_string(&session.order[idx].metadata.id);
                                    have_target = true;
                                },
                                None => {},
                            }
                        }
                    },
                    None => {},
                }
            },
            None => {},
        }
        proof {
            if have_target {
                assert(model_queue_target(self@) matches Some(tgt) && opt_str_view(uri_opt)
                    == Some(tgt.0) && opt_str_view(id_opt) == tgt.1);
            } else {
                assert(model_queue_target(self@) is None);
            }
        }
        if have_target {
            if !self.gapless_pending {
                self.pending_gapless_track_id = id_opt;
            }
            self.player.set_queued_uri(uri_opt);
        } else {
            if !self.gapless_pending {
                self.pending_gapless_track_id = None;
            }
            self.player.set_queued_uri(None);
        }
        proof {
            assert(self@ =~= queue_next_model(old(self)@));
        }
    }

    /// Refresh the now-playing snapshot from the track under the cursor.
    fn update_now_playing(&mut self)
        ensures
            final(self)@ == update_now_playing_model(old(self)@),
    {
        let meta: Option<MediaMetaData> = match &self.state.session {
            Some(session) => {
                if session.index < session.order.len() {
                    Some(session.order[session.index].metadata.clone())
                } else {
                    None
                }
            },
            None => None,
        };
        self.state.now_playing = meta;
        proof {
            assert(self@ =~= update_now_playing_model(old(self)@));
        }
    }

    /// The content hash of the track under the cursor, if any.
    fn get_current_track_id(&self) -> (r: Option<String>)
        ensures
            opt_str_view(r) == model_current_id(self@),
    {
        match &self.state.session {
            Some(session) => {
                if session.index < session.order.len() {
                    clone_opt_string(&session.order[session.index].metadata.id)
                } else {
                    None
                }
            },
            None => None,
        }
    }

    /// Load the track under the cursor (stop, then set the source), then
    /// pre-queue the next one so about-to-finish has it ready.
    fn load_current_track(&mut self)
        requires
            old(self).wf(),
        ensures
            final(self).wf(),
            final(self)@ == load_current_track_model(old(self)@),
    {
        let uri_opt: Option<String> = match &self.state.session {
            Some(session) => {
                if session.index < session.order.len() {
                    path_to_uri(&session.order[session.index].path)
                } else {
                    None
                }
            },
            None => None,
        };
        if let Some(u) = uri_opt {
            self.player.stop();
            self.player.load(u);
        }
        self.queue_next_uri();
    }

    /// Record the repeat settings and re-queue the gapless target, since the
    /// correct next track depends on them.
    pub fn set_repeat_state(&mut self, mode: RepeatMode, enabled: bool)
        requires
            old(self).wf(),
        ensures
            final(self).wf(),
            final(self)@ == set_repeat_model(old(self)@, mode, enabled),
    {
        self.repeat_mode = mode;
        self.repeat_enabled = enabled;
        proof {
            assert(self@ =~= (Model {
                repeat_mode: mode,
                repeat_enabled: enabled,
                ..old(self)@
            }));
        }
        self.queue_next_uri();
    }
}

impl PlaybackService {
    // ===== Session management =====

    /// Start a new session from a playlist: materialize a copy of its tracks
    /// (shuffled on request), put the cursor on the clicked entry, reset the
    /// gapless bookkeeping, and load the current track with the next one
    /// pre-queued. Starting from an empty playlist changes nothing.
    pub fn start_session(&mut self, playlist: &Playlist, index: usize, shuffle: bool)
        requires
            old(self).wf(),
        ensures
            final(self).wf(),
            playlist@.tracks.len() == 0 ==> final(self)@ == old(self)@,
            playlist@.tracks.len() > 0 && !shuffle ==> final(self)@ == start_session_model(
                old(self)@,
                playlist@,
                index as int,
                false,
                playlist@.tracks,
            ),
            playlist@.tracks.len() > 0 && shuffle ==> exists|ord: Seq<Track>|
                #[trigger] ord.to_multiset() == playlist@.tracks.to_multiset() && ord.len()
                    == playlist@.tracks.len() && final(self)@ == start_session_model(
                    old(self)@,
                    playlist@,
                    index as int,
                    true,
                    ord,
                ),
    {
        if playlist.len() == 0 {
            return;
        }
        let mut order = clone_tracks(playlist.tracks());
        let actual_index: usize;
        if shuffle {
            shuffle_tracks(&mut order);
            if index < playlist.len() {
                actual_index = match find_entry(&order, &playlist.tracks()[index]) {
                    Some(i) => i,
                    None => 0,
                };
            } else {
                actual_index = 0;
            }
        } else {
            actual_index = if index < playlist.len() {
                index
            } else {
                0
            };
        }
        let ghost ord = order@;
        proof {
            assert(actual_index as int == clicked_index(playlist@, index as int, shuffle, ord));
        }
        self.state.session = Some(
            PlaybackSession { playlist_id: playlist.id(), order, index: actual_index },
        );
        self.gapless_pending = false;
        self.pending_gapless_track_id = None;
        proof {
            assert(self@ =~= (Model {
                state: StateModel {
                    session: Some(
                        SessionModel {
                            playlist_id: playlist@.id,
                            order: ord,
                            index: clicked_index(playlist@, index as int, shuffle, ord),
                        },
                    ),
                    ..old(self)@.state
                },
                gapless_pending: false,
                pending_id: None,
                ..old(self)@
            }));
        }
        self.update_now_playing();
        self.load_current_track();
        proof {
            if shuffle {
                assert(ord.to_multiset() == playlist@.tracks.to_multiset() && ord.len()
                    == playlist@.tracks.len() && self@ == start_session_model(
                    old(self)@,
                    playlist@,
                    index as int,
                    true,
                    ord,
                ));
            }
        }
    }

    /// Re-materialize the session's order from its playlist with or without
    /// shuffle, keeping the playing track by content hash, and re-queue the
    /// gapless target. Applies only to a session derived from this playlist;
    /// an empty playlist changes nothing.
    pub fn update_session_shuffle(&mut self, playlist: &Playlist, shuffle: bool) -> (r: bool)
        requires
            old(self).wf(),
        ensures
            final(self).wf(),
            !session_over(old(self)@, playlist@) ==> r == false && final(self)@ == old(self)@,
            session_over(old(self)@, playlist@) && playlist@.tracks.len() == 0 ==> r == false
                && final(self)@ == old(self)@,
            session_over(old(self)@, playlist@) && playlist@.tracks.len() > 0 && !shuffle ==> r
                == true && final(self)@ == update_shuffle_model(
                old(self)@,
                playlist@,
                playlist@.tracks,
            ),
            session_over(old(self)@, playlist@) && playlist@.tracks.len() > 0 && shuffle ==> r
                == true && exists|ord: Seq<Track>|
                #[trigger] ord.to_multiset() == playlist@.tracks.to_multiset() && ord.len()
                    == playlist@.tracks.len() && final(self)@ == update_shuffle_model(
                    old(self)@,
                    playlist@,
                    ord,
                ),
    {
        let applies = match &self.state.session {
            Some(session) => session.playlist_id == playlist.id(),
            None => false,
        };
        if !applies {
            return false;
        }
        if playlist.len() == 0 {
            return false;
        }
        let current_track_id = self.get_current_track_id();
        let mut new_order = clone_tracks(playlist.tracks());
        if shuffle {
            shuffle_tracks(&mut new_order);
        }
        let new_index = match &current_track_id {
            Some(id) => match find_by_id(&new_order, id) {
                Some(i) => i,
                None => 0,
            },
            None => 0,
        };
        let ghost ord = new_order@;
        self.state.session = Some(
            PlaybackSession { playlist_id: playlist.id(), order: new_order, index: new_index },
        );
        proof {
            assert(self@ =~= (Model {
                state: StateModel {
                    session: Some(
                        SessionModel {
                            playlist_id: playlist@.id,
                            order: ord,
                            index: new_index as int,
                        },
                    ),
                    ..old(self)@.state
                },
                ..old(self)@
            }));
        }
        self.queue_next_uri();
        proof {
            if shuffle {
                assert(ord.to_multiset() == playlist@.tracks.to_multiset() && ord.len()
                    == playlist@.tracks.len() && self@ == update_shuffle_model(
                    old(self)@,
                    playlist@,
                    ord,
                ));
            }
        }
        true
    }

    /// Repair the session after the library changed underneath it: rebuild
    /// the order by content hash against the fresh snapshot and re-locate
    /// the playing track. Where the playing track's hash is gone — or
    /// nothing at all is left — playback is torn down and `false` comes
    /// back; a stale order is never kept. Applies only to a session derived
    /// from the library playlist.
    pub fn update_session_for_library(&mut self, library: &Playlist) -> (r: bool)
        requires
            old(self).wf(),
        ensures
            final(self).wf(),
            !session_over(old(self)@, library@) ==> r == false && final(self)@ == old(self)@,
            session_over(old(self)@, library@) ==> final(self)@ == library_repair_model(
                old(self)@,
                library@,
            ) && r == library_repair_keeps(old(self)@, library@),
    {
        let current_track_id = self.get_current_track_id();
        let applies = match &self.state.session {
            Some(session) => session.playlist_id == library.id(),
            None => false,
        };
        if !applies {
            return false;
        }
        let rebuilt = match &self.state.session {
            Some(session) => rebuild_tracks(&session.order, library.tracks()),
            None => Vec::new(),
        };
        let new_index_opt = match &current_track_id {
            Some(id) => find_by_id(&rebuilt, id),
            None => None,
        };
        if new_index_opt.is_none() && current_track_id.is_some() {
            self.stop();
            self.state.session = None;
            self.state.now_playing = None;
            proof {
                assert(!library_repair_keeps(old(self)@, library@));
                assert(self@ =~= teardown_model(old(self)@));
            }
            return false;
        }
        if rebuilt.len() == 0 {
            self.stop();
            self.state.session = None;
            self.state.now_playing = None;
            proof {
                assert(!library_repair_keeps(old(self)@, library@));
                assert(self@ =~= teardown_model(old(self)@));
            }
            return false;
        }
        let new_index = match new_index_opt {
            Some(i) => i,
            None => 0,
        };
        let playlist_id = match &self.state.session {
            Some(session) => session.playlist_id,
            None => 0,
        };
        let ghost rebuilt_seq = rebuilt@;
        self.state.session = Some(
            PlaybackSession { playlist_id, order: rebuilt, index: new_index },
        );
        proof {
            assert(library_repair_keeps(old(self)@, library@));
            assert(self@ =~= (Model {
                state: StateModel {
                    session: Some(
                        SessionModel {
                            playlist_id: old(self)@.state.session->Some_0.playlist_id,
                            order: rebuilt_seq,
                            index: new_index as int,
                        },
                    ),
                    ..old(self)@.state
                },
                ..old(self)@
            }));
        }
        self.update_now_playing();
        self.queue_next_uri();
        true
    }

    /// Clamp the cursor into bounds, and where the track under it has no
    /// content hash yet, advance it to the next hashed track (front where
    /// none follows). Guards against races with the library scanner.
    pub fn validate_session(&mut self) -> (r: bool)
        requires
            old(self).wf(),
        ensures
            final(self).wf(),
            r == true,
            final(self)@ == validate_model(old(self)@),
    {
        let mut tmp: Option<PlaybackSession> = None;
        core::mem::swap(&mut self.state.session, &mut tmp);
        match tmp {
            None => {
                proof {
                    assert(self@ =~= validate_model(old(self)@));
                }
                true
            },
            Some(mut session) => {
                if session.index >= session.order.len() {
                    session.index = if session.order.len() > 0 {
                        session.order.len() - 1
                    } else {
                        0
                    };
                }
                if session.index < session.order.len() {
                    if session.order[session.index].metadata.id.is_none() {
                        session.index = match find_valid_from(&session.order, session.index) {
                            Some(i) => i,
                            None => 0,
                        };
                    }
                }
                self.state.session = Some(session);
                proof {
                    assert(self@ =~= validate_model(old(self)@));
                }
                true
            },
        }
    }

    // ===== Navigation =====

    /// A user-triggered skip forward, independent of the pipeline's
    /// about-to-finish signal: under repeat-one the same track restarts;
    /// otherwise the cursor advances, wraps to the front only when repeat is
    /// enabled, and at the end of the queue without repeat playback stops
    /// entirely. The repeat settings are recorded first.
    pub fn next(&mut self, repeat_mode: RepeatMode, repeat_enabled: bool)
        requires
            old(self).wf(),
        ensures
            final(self).wf(),
            final(self)@ == next_model(old(self)@, repeat_mode, repeat_enabled),
    {
        self.repeat_mode = repeat_mode;
        self.repeat_enabled = repeat_enabled;
        let ghost m0 = Model {
            repeat_mode,
            repeat_enabled,
            ..old(self)@
        };
        proof {
            assert(self@ =~= m0);
        }
        if self.state.session.is_none() {
            return;
        }
        match repeat_mode {
            RepeatMode::One => {
                self.load_current_track();
                self.play();
            },
            RepeatMode::All => {
                let mut tmp: Option<PlaybackSession> = None;
                core::mem::swap(&mut self.state.session, &mut tmp);
                let mut session = tmp.unwrap();
                let len = session.order.len();
                if session.index < len - 1 {
                    session.index = session.index + 1;
                    let ghost ni = session.index as int;
                    self.state.session = Some(session);
                    proof {
                        assert(self@ =~= set_index_model(m0, ni));
                    }
                } else if repeat_enabled {
                    session.index = 0;
                    self.state.session = Some(session);
                    proof {
                        assert(self@ =~= set_index_model(m0, 0));
                    }
                } else {
                    self.state.session = Some(session);
                    proof {
                        assert(self@ =~= m0);
                    }
                    self.stop();
                    return;
                }
                self.load_current_track();
                self.play();
                self.update_now_playing();
            },
        }
    }

    /// A user-triggered skip backward: under repeat-one the same track
    /// restarts; otherwise the cursor moves back, always wrapping to the
    /// last track at the front — skipping backward past the start is no
    /// end-of-content condition.
    pub fn prev(&mut self, repeat_mode: RepeatMode)
        requires
            old(self).wf(),
        ensures
            final(self).wf(),
            final(self)@ == prev_model(old(self)@, repeat_mode),
    {
        if self.state.session.is_none() {
            return;
        }
        match repeat_mode {
            RepeatMode::One => {
                self.load_current_track();
                self.play();
                self.update_now_playing();
            },
            RepeatMode::All => {
                let mut tmp: Option<PlaybackSession> = None;
                core::mem::swap(&mut self.state.session, &mut tmp);
                let mut session = tmp.unwrap();
                let len = session.order.len();
                session.index = if session.index > 0 {
                    session.index - 1
                } else {
                    len - 1
                };
                let ghost ni = session.index as int;
                self.state.session = Some(session);
                proof {
                    assert(self@ =~= set_index_model(old(self)@, ni));
                }
                self.load_current_track();
                self.play();
                self.update_now_playing();
            },
        }
    }
}

impl PlaybackService {
    // ===== The tick state machine =====

    /// The stream start confirming a gapless switch has arrived: move the
    /// cursor to the pending hash as the order stands now (it may have been
    /// reshuffled since the URI was queued), falling back to the pre-switch
    /// next index where the hash is gone; clear the pending hash, refresh
    /// now-playing, queue the track after the new current one, and reset the
    /// position to the start of the new track.
    fn advance_session_after_gapless(&mut self)
        requires
            old(self).wf(),
        ensures
            final(self).wf(),
            final(self)@ == advance_model(old(self)@),
    {
        let located: Option<usize> = match &self.pending_gapless_track_id {
            Some(pending_id) => match &self.state.session {
                Some(session) => find_by_id(&session.order, pending_id),
                None => None,
            },
            None => None,
        };
        match located {
            Some(idx) => {
                let mut tmp: Option<PlaybackSession> = None;
                core::mem::swap(&mut self.state.session, &mut tmp);
                let mut session = tmp.unwrap();
                session.index = idx;
                self.state.session = Some(session);
                proof {
                    assert(self@ =~= set_index_model(old(self)@, idx as int));
                }
            },
            None => {
                match self.compute_next_index() {
                    Some(next_idx) => {
                        if self.state.session.is_some() {
                            let mut tmp: Option<PlaybackSession> = None;
                            core::mem::swap(&mut self.state.session, &mut tmp);
                            let mut session = tmp.unwrap();
                            session.index = next_idx;
                            self.state.session = Some(session);
                            proof {
                                assert(self@ =~= set_index_model(old(self)@, next_idx as int));
                            }
                        }
                    },
                    None => {},
                }
            },
        }
        self.pending_gapless_track_id = None;
        self.update_now_playing();
        self.queue_next_uri();
        self.state.progress = 0;
        proof {
            assert(self@ =~= advance_model(old(self)@));
        }
    }

    /// One tick: fold the pipeline's signals into the session, in order.
    /// First the about-to-finish signal (coalesced, it may have fired more
    /// than once between ticks) marks a switch as pending; then the bus
    /// events are drained in arrival order; last, unless the user is
    /// dragging the seek control, the reported position becomes the
    /// progress. The returned events are for the caller to react to.
    pub fn tick(&mut self) -> (r: Vec<PlaybackEvent>)
        requires
            old(self).wf(),
        ensures
            final(self).wf(),
            final(self)@ == tick_model(old(self)@).0,
            r@ == tick_model(old(self)@).1,
    {
        let mut events: Vec<PlaybackEvent> = Vec::new();
        if self.player.take_about_to_finish() {
            self.gapless_pending = true;
        }
        let bus = self.player.take_events();
        let ghost total = old(self)@.player.events;
        let ghost m0 = Model {
            gapless_pending: old(self)@.gapless_pending || old(self)@.player.about_to_finish,
            player: PlayerModel {
                about_to_finish: false,
                events: Seq::empty(),
                ..old(self)@.player
            },
            ..old(self)@
        };
        proof {
            assert(self@ =~= m0);
            assert(total.skip(0) =~= total);
            assert(events@ + drain_events_model(m0, total).1 =~= drain_events_model(m0, total).1);
        }
        let n = bus.len();
        let mut i: usize = 0;
        while i < n
            invariant
                i <= n,
                n == bus@.len(),
                bus@ == total,
                self.wf(),
                drain_from(self@, total.skip(i as int), events@) == drain_events_model(m0, total),
            decreases n - i,
        {
            let ghost pre = self@;
            let ghost pre_events = events@;
            let ghost e = total[i as int];
            proof {
                assert(total.skip(i as int)[0] == e);
                assert(total.skip(i as int).drop_first() =~= total.skip(i as int + 1));
            }
            match &bus[i] {
                PlayerEvent::EndOfStream => {
                    self.gapless_pending = false;
                    events.push(PlaybackEvent::TrackEnded);
                    proof {
                        assert(self@ =~= event_step_model(pre, e).0);
                        assert(events@ =~= pre_events + event_step_model(pre, e).1);
                    }
                },
                PlayerEvent::StreamStarted => {
                    if self.gapless_pending {
                        self.gapless_pending = false;
                        proof {
                            assert(self@ =~= (Model { gapless_pending: false, ..pre }));
                        }
                        self.advance_session_after_gapless();
                        events.push(PlaybackEvent::GaplessTrackAdvanced);
                        proof {
                            assert(self@ =~= event_step_model(pre, e).0);
                            assert(events@ =~= pre_events + event_step_model(pre, e).1);
                        }
                    } else {
                        proof {
                            assert(self@ =~= event_step_model(pre, e).0);
                            assert(events@ =~= pre_events + event_step_model(pre, e).1);
                        }
                    }
                },
                PlayerEvent::Error(msg) => {
                    self.gapless_pending = false;
                    events.push(PlaybackEvent::Error(msg.clone()));
                    proof {
                        assert(self@ =~= event_step_model(pre, e).0);
                        assert(events@ =~= pre_events + event_step_model(pre, e).1);
                    }
                },
            }
            proof {
                let stepped = event_step_model(pre, e);
                let rest = drain_events_model(self@, total.skip(i as int + 1));
                assert(drain_events_model(pre, total.skip(i as int)) == (
                    rest.0,
                    stepped.1 + rest.1,
                ));
                assert((pre_events + stepped.1) + rest.1 =~= pre_events + (stepped.1 + rest.1));
            }
            i = i + 1;
        }
        proof {
            assert(total.skip(n as int) =~= Seq::<PlayerEvent>::empty());
            assert(events@ + Seq::<PlaybackEvent>::empty() =~= events@);
            assert(drain_events_model(m0, total).0 == self@);
            assert(drain_events_model(m0, total).1 == events@);
        }
        if !self.state.dragging_slider {
            if let Some(pos) = self.player.position {
                self.state.progress = pos;
                events.push(PlaybackEvent::PositionUpdate(pos));
                proof {
                    assert(self@ =~= tick_model(old(self)@).0);
                    assert(events@ =~= tick_model(old(self)@).1);
                }
            }
        }
        proof {
            assert(self@ =~= tick_model(old(self)@).0);
            assert(events@ =~= tick_model(old(self)@).1);
        }
        events
    }
}

/// Whether two tracks are the same playlist entry: the same content hash
/// (missing read as empty) and the same instance-local entry id.
fn entry_matches(t: &Track, c: &Track) -> (r: bool)
    ensures
        r == same_entry(*t, *c),
{
    let ids_equal: bool = match (&t.metadata.id, &c.metadata.id) {
        (Some(a), Some(b)) => *a == *b,
        (None, None) => true,
        (Some(a), None) => a.as_str().is_empty(),
        (None, Some(b)) => b.as_str().is_empty(),
    };
    proof {
        if crate::model::id_or_empty(*t).len() == 0 {
            assert(crate::model::id_or_empty(*t) =~= Seq::<char>::empty());
        }
        if crate::model::id_or_empty(*c).len() == 0 {
            assert(crate::model::id_or_empty(*c) =~= Seq::<char>::empty());
        }
    }
    ids_equal && t.entry_id == c.entry_id
}

/// The least index of `order` holding the same playlist entry as `clicked`.
fn find_entry(order: &Vec<Track>, clicked: &Track) -> (r: Option<usize>)
    ensures
        r matches Some(i) ==> i < order@.len() && first_where(order@, entry_pred(*clicked))
            == Some(i as int),
        r is None ==> first_where(order@, entry_pred(*clicked)) is None,
{
    let n = order.len();
    let mut i: usize = 0;
    while i < n
        invariant
            i <= n,
            n == order@.len(),
            forall|j: int| 0 <= j < i ==> !(#[trigger] entry_pred(*clicked)(order@[j])),
        decreases n - i,
    {
        if entry_matches(&order[i], clicked) {
            proof {
                assert(entry_pred(*clicked)(order@[i as int]));
                lemma_first_where_is(order@, entry_pred(*clicked), i as int);
            }
            return Some(i);
        }
        proof {
            assert(!entry_pred(*clicked)(order@[i as int]));
        }
        i = i + 1;
    }
    proof {
        lemma_first_where_props(order@, entry_pred(*clicked));
    }
    None
}

/// The least index at or after `from` whose track has a content hash.
fn find_valid_from(order: &Vec<Track>, from: usize) -> (r: Option<usize>)
    requires
        from < order@.len(),
    ensures
        r matches Some(i) ==> from <= i < order@.len() && first_where(
            order@.skip(from as int),
            valid_id_pred(),
        ) == Some(i - from),
        r is None ==> first_where(order@.skip(from as int), valid_id_pred()) is None,
{
    let n = order.len();
    let mut i: usize = from;
    while i < n
        invariant
            from <= i <= n,
            n == order@.len(),
            forall|j: int| from <= j < i ==> !(#[trigger] valid_id_pred()(order@[j])),
        decreases n - i,
    {
        if order[i].metadata.id.is_some() {
            proof {
                let sk = order@.skip(from as int);
                assert(forall|j: int| 0 <= j < sk.len() ==> sk[j] == order@[from + j]);
                assert(valid_id_pred()(sk[i - from]));
                lemma_first_where_is(sk, valid_id_pred(), i - from);
            }
            return Some(i);
        }
        proof {
            assert(!valid_id_pred()(order@[i as int]));
        }
        i = i + 1;
    }
    proof {
        let sk = order@.skip(from as int);
        assert(forall|j: int| 0 <= j < sk.len() ==> sk[j] == order@[from + j]);
        lemma_first_where_props(sk, valid_id_pred());
    }
    None
}

/// Rebuild a session order against a fresh library snapshot: each old entry
/// replaced by the first library track with the same content hash, dropped
/// where the hash is missing or gone.
fn rebuild_tracks(old_order: &Vec<Track>, lib: &Vec<Track>) -> (r: Vec<Track>)
    ensures
        r@ == rebuild_order(old_order@, lib@),
{
    let mut r: Vec<Track> = Vec::new();
    let n = old_order.len();
    let mut i: usize = 0;
    proof {
        assert(old_order@.subrange(0, 0) =~= Seq::<Track>::empty());
    }
    while i < n
        invariant
            i <= n,
            n == old_order@.len(),
            r@ == rebuild_order(old_order@.subrange(0, i as int), lib@),
        decreases n - i,
    {
        proof {
            assert(old_order@.subrange(0, i + 1) =~= old_order@.subrange(0, i as int).push(
                old_order@[i as int],
            ));
            lemma_rebuild_order_push(
                old_order@.subrange(0, i as int),
                lib@,
                old_order@[i as int],
            );
        }
        match &old_order[i].metadata.id {
            Some(oid) => {
                match find_by_id(lib, oid) {
                    Some(j) => {
                        r.push(lib[j].clone());
                        proof {
                            assert(lib_match(lib@, old_order@[i as int]) =~= seq![lib@[j as int]]);
                            assert(r@ =~= rebuild_order(old_order@.subrange(0, i + 1), lib@));
                        }
                    },
                    None => {
                        proof {
                            assert(lib_match(lib@, old_order@[i as int]) =~= Seq::<Track>::empty());
                            assert(r@ =~= rebuild_order(old_order@.subrange(0, i + 1), lib@));
                        }
                    },
                }
            },
            None => {
                proof {
                    assert(lib_match(lib@, old_order@[i as int]) =~= Seq::<Track>::empty());
                    assert(r@ =~= rebuild_order(old_order@.subrange(0, i + 1), lib@));
                }
            },
        }
        i = i + 1;
    }
    proof {
        assert(old_order@.subrange(0, n as int) =~= old_order@);
    }
    r
}

/// Whether a track carries exactly the content hash `id`.
fn track_matches_id(t: &Track, id: &String) -> (r: bool)
    ensures
        r == has_id(*t, id@),
{
    match &t.metadata.id {
        Some(tid) => *tid == *id,
        None => false,
    }
}

/// The least index of `order` carrying exactly the content hash `id`.
fn find_by_id(order: &Vec<Track>, id: &String) -> (r: Option<usize>)
    ensures
        r matches Some(i) ==> i < order@.len() && first_where(order@, id_pred(id@)) == Some(
            i as int,
        ),
        r is None ==> first_where(order@, id_pred(id@)) is None,
{
    let n = order.len();
    let mut i: usize = 0;
    while i < n
        invariant
            i <= n,
            n == order@.len(),
            forall|j: int| 0 <= j < i ==> !(#[trigger] id_pred(id@)(order@[j])),
        decreases n - i,
    {
        if track_matches_id(&order[i], id) {
            proof {
                assert(id_pred(id@)(order@[i as int]));
                lemma_first_where_is(order@, id_pred(id@), i as int);
            }
            return Some(i);
        }
        proof {
            assert(!id_pred(id@)(order@[i as int]));
        }
        i = i + 1;
    }
    proof {
        lemma_first_where_props(order@, id_pred(id@));
    }
    None
}

} // verus!
