//! The mathematical model of the playback service: its whole state at the
//! level of sequences and views, and the transition functions that every
//! service operation is proved to implement.

use crate::mpris::MprisCommand;
use crate::media::opt_str_view;
use crate::player::{CommandModel, PlayerEvent, PlayerModel};
use crate::playlist::{PlaylistModel, Track};
use crate::session::{PlaybackStatus, RepeatMode, SessionModel, StateModel};
use crate::trusted::file_uri_of;
use vstd::prelude::*;

verus! {

/// An event the service reports from one tick, for the caller to react to.
#[derive(Clone, Debug, PartialEq, Eq)]
pub enum PlaybackEvent {
    /// Playback ran out naturally with nothing queued.
    TrackEnded,
    /// A gapless auto-switch completed and the session cursor moved.
    GaplessTrackAdvanced,
    /// The pipeline failed; the caller decides the remedy (usually a skip).
    Error(String),
    /// The playback position, in milliseconds.
    PositionUpdate(u64),
}

/// The whole state of the playback service, at the mathematical level.
#[verifier::ext_equal]
pub struct Model {
    pub player: PlayerModel,
    pub state: StateModel,
    pub mpris: Seq<MprisCommand>,
    pub repeat_mode: RepeatMode,
    pub repeat_enabled: bool,
    /// True between an about-to-finish notification and the stream start
    /// that confirms the switch.
    pub gapless_pending: bool,
    /// The content hash of the track handed to the pipeline for the pending
    /// gapless switch; it re-locates the track even if the order was
    /// reshuffled in the meantime.
    pub pending_id: Option<Seq<char>>,
}

/// The service before anything has played.
pub open spec fn initial_model() -> Model {
    Model {
        player: crate::player::initial_player(),
        state: crate::session::initial_state(),
        mpris: Seq::empty(),
        repeat_mode: RepeatMode::All,
        repeat_enabled: false,
        gapless_pending: false,
        pending_id: None,
    }
}

// ---------------------------------------------------------------------------
// Identifying tracks

/// A track's content hash, if extraction has produced one.
pub open spec fn track_id_view(t: Track) -> Option<Seq<char>> {
    opt_str_view(t.metadata.id)
}

/// Whether `t` carries exactly the content hash `id`.
pub open spec fn has_id(t: Track, id: Seq<char>) -> bool {
    track_id_view(t) == Some(id)
}

/// A track's content hash with a missing hash read as the empty text, the
/// way session start compares the clicked entry.
pub open spec fn id_or_empty(t: Track) -> Seq<char> {
    match t.metadata.id {
        Some(s) => s@,
        None => Seq::empty(),
    }
}

/// The same playlist entry: the same content hash (missing read as empty)
/// and the same instance-local entry id. Both are compared because duplicate
/// files share a content hash and only the entry id tells them apart.
pub open spec fn same_entry(a: Track, b: Track) -> bool {
    id_or_empty(a) == id_or_empty(b) && a.entry_id == b.entry_id
}

/// Tracks carrying exactly the content hash `id`.
pub open spec fn id_pred(id: Seq<char>) -> spec_fn(Track) -> bool {
    |t: Track| has_id(t, id)
}

/// Tracks that are the same playlist entry as `c`.
pub open spec fn entry_pred(c: Track) -> spec_fn(Track) -> bool {
    |t: Track| same_entry(t, c)
}

/// Tracks whose content hash is present at all.
pub open spec fn valid_id_pred() -> spec_fn(Track) -> bool {
    |t: Track| t.metadata.id is Some
}

// ---------------------------------------------------------------------------
// First match in a sequence

/// The least index of `s` whose element satisfies `p`.
pub open spec fn first_where<A>(s: Seq<A>, p: spec_fn(A) -> bool) -> Option<int>
    decreases s.len(),
{
    if s.len() == 0 {
        None
    } else if p(s[0]) {
        Some(0int)
    } else {
        match first_where(s.drop_first(), p) {
            Some(i) => Some(i + 1),
            None => None,
        }
    }
}

/// What a first match means: it satisfies `p`, nothing before it does, and
/// `None` means nothing does.
pub proof fn lemma_first_where_props<A>(s: Seq<A>, p: spec_fn(A) -> bool)
    ensures
        match first_where(s, p) {
            Some(i) => 0 <= i < s.len() && p(s[i]) && (forall|j: int| 0 <= j < i ==> !p(s[j])),
            None => forall|j: int| 0 <= j < s.len() ==> !p(s[j]),
        },
    decreases s.len(),
{
    if s.len() > 0 && !p(s[0]) {
        lemma_first_where_props(s.drop_first(), p);
        assert(forall|j: int| 0 <= j < s.drop_first().len() ==> s.drop_first()[j] == s[j + 1]);
        match first_where(s.drop_first(), p) {
            Some(i) => {
                assert(first_where(s, p) == Some(i + 1));
                assert(p(s[i + 1]));
                assert forall|j: int| 0 <= j < i + 1 implies !p(s[j]) by {
                    if j > 0 {
                        assert(s[j] == s.drop_first()[j - 1]);
                    }
                }
            },
            None => {
                assert forall|j: int| 0 <= j < s.len() implies !p(s[j]) by {
                    if j > 0 {
                        assert(s[j] == s.drop_first()[j - 1]);
                    }
                }
            },
        }
    }
}

/// The converse: an index that satisfies `p` with nothing before it is the
/// first match.
pub proof fn lemma_first_where_is<A>(s: Seq<A>, p: spec_fn(A) -> bool, i: int)
    requires
        0 <= i < s.len(),
        p(s[i]),
        forall|j: int| 0 <= j < i ==> !p(s[j]),
    ensures
        first_where(s, p) == Some(i),
    decreases s.len(),
{
    if p(s[0]) {
        assert(i == 0);
    } else {
        assert(forall|j: int| 0 <= j < s.drop_first().len() ==> s.drop_first()[j] == s[j + 1]);
        lemma_first_where_is(s.drop_first(), p, i - 1);
    }
}

// ---------------------------------------------------------------------------
// Rebuilding a session order against a fresh library snapshot

/// One old entry's replacement: the first new track carrying the same
/// content hash, or nothing where the hash is missing or gone.
pub open spec fn lib_match(lib: Seq<Track>, old_track: Track) -> Seq<Track> {
    match old_track.metadata.id {
        Some(id) => match first_where(lib, id_pred(id@)) {
            Some(j) => seq![lib[j]],
            None => Seq::empty(),
        },
        None => Seq::empty(),
    }
}

/// The session order rebuilt against a fresh library snapshot: each old
/// entry replaced by its library match, in the old order; dropped entries
/// leave no hole.
pub open spec fn rebuild_order(old_order: Seq<Track>, lib: Seq<Track>) -> Seq<Track>
    decreases old_order.len(),
{
    if old_order.len() == 0 {
        Seq::empty()
    } else {
        lib_match(lib, old_order[0]) + rebuild_order(old_order.drop_first(), lib)
    }
}

/// Rebuilding commutes with appending one old entry.
pub proof fn lemma_rebuild_order_push(old_order: Seq<Track>, lib: Seq<Track>, t: Track)
    ensures
        rebuild_order(old_order.push(t), lib) == rebuild_order(old_order, lib) + lib_match(lib, t),
    decreases old_order.len(),
{
    if old_order.len() == 0 {
        assert(old_order.push(t)[0] == t);
        assert(old_order.push(t).drop_first() =~= Seq::<Track>::empty());
        assert(rebuild_order(Seq::<Track>::empty(), lib) == Seq::<Track>::empty());
        assert(rebuild_order(old_order.push(t), lib) == lib_match(lib, t)
            + Seq::<Track>::empty());
        assert(lib_match(lib, t) + Seq::<Track>::empty() =~= Seq::<Track>::empty() + lib_match(
            lib,
            t,
        ));
        assert(rebuild_order(old_order, lib) == Seq::<Track>::empty());
    } else {
        assert(old_order.push(t)[0] == old_order[0]);
        assert(old_order.push(t).drop_first() =~= old_order.drop_first().push(t));
        lemma_rebuild_order_push(old_order.drop_first(), lib, t);
        let a = lib_match(lib, old_order[0]);
        let b = rebuild_order(old_order.drop_first(), lib);
        let c = lib_match(lib, t);
        assert(rebuild_order(old_order.push(t), lib) == a + rebuild_order(
            old_order.drop_first().push(t),
            lib,
        ));
        assert(rebuild_order(old_order.drop_first().push(t), lib) == b + c);
        assert(rebuild_order(old_order.push(t), lib) == a + (b + c));
        assert(a + (b + c) =~= (a + b) + c);
        assert(rebuild_order(old_order, lib) == a + b);
        assert(rebuild_order(old_order.push(t), lib) == (a + b) + c);
    }
}

/// A track that a rebuild against `lib` maps to itself: the first library
/// track carrying its content hash is the track itself.
pub open spec fn canonical_in(lib: Seq<Track>, t: Track) -> bool {
    lib_match(lib, t) == seq![t]
}

/// Every track a rebuild produces is canonical: it came out of the library
/// as the first carrier of its hash, so a second rebuild maps it to itself.
pub proof fn lemma_rebuild_canonical(old_order: Seq<Track>, lib: Seq<Track>)
    ensures
        forall|k: int|
            0 <= k < rebuild_order(old_order, lib).len() ==> canonical_in(
                lib,
                #[trigger] rebuild_order(old_order, lib)[k],
            ),
    decreases old_order.len(),
{
    if old_order.len() > 0 {
        lemma_rebuild_canonical(old_order.drop_first(), lib);
        let head = lib_match(lib, old_order[0]);
        let rest = rebuild_order(old_order.drop_first(), lib);
        assert(rebuild_order(old_order, lib) == head + rest);
        match old_order[0].metadata.id {
            Some(id) => {
                lemma_first_where_props(lib, id_pred(id@));
                match first_where(lib, id_pred(id@)) {
                    Some(j) => {
                        assert(has_id(lib[j], id@));
                        assert(lib[j].metadata.id matches Some(s) && s@ == id@);
                        assert(lib_match(lib, lib[j]) == seq![lib[j]]);
                        assert(canonical_in(lib, head[0]));
                    },
                    None => {},
                }
            },
            None => {},
        }
        assert forall|k: int|
            0 <= k < rebuild_order(old_order, lib).len() implies canonical_in(
            lib,
            #[trigger] rebuild_order(old_order, lib)[k],
        ) by {
            if k < head.len() {
                assert(rebuild_order(old_order, lib)[k] == head[0]);
            } else {
                assert(rebuild_order(old_order, lib)[k] == rest[k - head.len()]);
            }
        }
    }
}

/// Rebuilding an order of canonical tracks changes nothing.
pub proof fn lemma_rebuild_of_canonical(order: Seq<Track>, lib: Seq<Track>)
    requires
        forall|k: int| 0 <= k < order.len() ==> canonical_in(lib, #[trigger] order[k]),
    ensures
        rebuild_order(order, lib) == order,
    decreases order.len(),
{
    if order.len() == 0 {
        assert(rebuild_order(order, lib) =~= order);
    } else {
        assert(canonical_in(lib, order[0]));
        assert(forall|k: int|
            0 <= k < order.drop_first().len() ==> order.drop_first()[k] == order[k + 1]);
        lemma_rebuild_of_canonical(order.drop_first(), lib);
        assert(rebuild_order(order, lib) == seq![order[0]] + order.drop_first());
        assert(seq![order[0]] + order.drop_first() =~= order);
    }
}

// ---------------------------------------------------------------------------
// The queue cursor

/// The index the queue advances to next: the same track under repeat-one;
/// otherwise the following track, wrapping to the front only when repeat is
/// enabled; nothing at the end of the queue without repeat, and nothing in
/// an empty queue. A pure function of exactly these four values.
pub open spec fn spec_next_index(len: int, index: int, mode: RepeatMode, enabled: bool) -> Option<
    int,
> {
    if len == 0 {
        None
    } else if mode is One {
        Some(index)
    } else if index + 1 < len {
        Some(index + 1)
    } else if enabled {
        Some(0int)
    } else {
        None
    }
}

/// The next cursor position of the service's own session.
pub open spec fn model_next_index(m: Model) -> Option<int> {
    match m.state.session {
        None => None,
        Some(sess) => spec_next_index(
            sess.order.len() as int,
            sess.index,
            m.repeat_mode,
            m.repeat_enabled,
        ),
    }
}

/// The track the queue advances to next, if any.
pub open spec fn model_next_track(m: Model) -> Option<Track> {
    match m.state.session {
        None => None,
        Some(sess) => match model_next_index(m) {
            Some(i) => if 0 <= i < sess.order.len() {
                Some(sess.order[i])
            } else {
                None
            },
            None => None,
        },
    }
}

/// The track under the cursor, if any.
pub open spec fn session_current_track(s: Option<SessionModel>) -> Option<Track> {
    match s {
        None => None,
        Some(sess) => if 0 <= sess.index < sess.order.len() {
            Some(sess.order[sess.index])
        } else {
            None
        },
    }
}

/// The content hash of the track under the cursor, if any.
pub open spec fn model_current_id(m: Model) -> Option<Seq<char>> {
    match session_current_track(m.state.session) {
        Some(t) => track_id_view(t),
        None => None,
    }
}

// ---------------------------------------------------------------------------
// Elementary transitions

/// What the pipeline is told to auto-switch to: the next track's URI and its
/// content hash; nothing where there is no next track or its path yields no
/// URI.
pub open spec fn model_queue_target(m: Model) -> Option<(Seq<char>, Option<Seq<char>>)> {
    match model_next_track(m) {
        Some(t) => match file_uri_of(t.path@) {
            Some(u) => Some((u, track_id_view(t))),
            None => None,
        },
        None => None,
    }
}

/// Re-queue the gapless target from the current session and repeat settings.
/// The remembered pending hash is only replaced while no switch is in
/// flight, so a mutation racing with an about-to-finish cannot overwrite the
/// hash the pipeline is already committed to.
pub open spec fn queue_next_model(m: Model) -> Model {
    let queued = match model_queue_target(m) {
        Some(tgt) => Some(tgt.0),
        None => None,
    };
    let pending = if m.gapless_pending {
        m.pending_id
    } else {
        match model_queue_target(m) {
            Some(tgt) => tgt.1,
            None => None,
        }
    };
    Model {
        player: PlayerModel {
            queued_uri: queued,
            commands: m.player.commands.push(CommandModel::SetQueuedUri(queued)),
            ..m.player
        },
        pending_id: pending,
        ..m
    }
}

/// Refresh the now-playing snapshot from the track under the cursor.
pub open spec fn update_now_playing_model(m: Model) -> Model {
    Model {
        state: StateModel {
            now_playing: match session_current_track(m.state.session) {
                Some(t) => Some(t.metadata),
                None => None,
            },
            ..m.state
        },
        ..m
    }
}

/// Move the session cursor; without a session nothing changes.
pub open spec fn set_index_model(m: Model, i: int) -> Model {
    match m.state.session {
        Some(sess) => Model {
            state: StateModel { session: Some(SessionModel { index: i, ..sess }), ..m.state },
            ..m
        },
        None => m,
    }
}

/// Ask the pipeline to play and record the status.
pub open spec fn play_model(m: Model) -> Model {
    Model {
        player: PlayerModel { commands: m.player.commands.push(CommandModel::Play), ..m.player },
        state: StateModel { status: PlaybackStatus::Playing, ..m.state },
        ..m
    }
}

/// Ask the pipeline to pause and record the status.
pub open spec fn pause_model(m: Model) -> Model {
    Model {
        player: PlayerModel { commands: m.player.commands.push(CommandModel::Pause), ..m.player },
        state: StateModel { status: PlaybackStatus::Paused, ..m.state },
        ..m
    }
}

/// Stop the pipeline, disable the gapless auto-advance, forget any pending
/// switch, and record the status.
pub open spec fn stop_model(m: Model) -> Model {
    Model {
        player: PlayerModel {
            queued_uri: None,
            commands: m.player.commands.push(CommandModel::Stop).push(
                CommandModel::SetQueuedUri(None),
            ),
            ..m.player
        },
        state: StateModel { status: PlaybackStatus::Stopped, ..m.state },
        gapless_pending: false,
        pending_id: None,
        ..m
    }
}

/// Load the track under the cursor (stop, then set the source), then
/// re-queue the gapless target so the about-to-finish signal has it ready.
pub open spec fn load_current_track_model(m: Model) -> Model {
    let loaded = match session_current_track(m.state.session) {
        Some(t) => match file_uri_of(t.path@) {
            Some(u) => Model {
                player: PlayerModel {
                    current_uri: Some(u),
                    commands: m.player.commands.push(CommandModel::Stop).push(
                        CommandModel::Load(u),
                    ),
                    ..m.player
                },
                ..m
            },
            None => m,
        },
        None => m,
    };
    queue_next_model(loaded)
}

// ---------------------------------------------------------------------------
// Session construction and repair

/// The cursor a fresh session starts at: the clicked position as it stands
/// in the session order. Without shuffle that is the clicked index itself;
/// with shuffle, the clicked entry is re-located in the shuffled order. An
/// out-of-range click, or a clicked entry lost in the shuffle, falls back to
/// the front.
pub open spec fn clicked_index(
    pl: PlaylistModel,
    clicked: int,
    shuffle: bool,
    ord: Seq<Track>,
) -> int {
    if 0 <= clicked < pl.tracks.len() {
        if shuffle {
            match first_where(ord, entry_pred(pl.tracks[clicked])) {
                Some(j) => j,
                None => 0,
            }
        } else {
            clicked
        }
    } else {
        0
    }
}

/// Start a session over `ord`, a materialized copy of the playlist's tracks
/// (shuffled or not), reset the gapless bookkeeping, refresh now-playing,
/// and load the current track. A session start is never a gapless switch.
pub open spec fn start_session_model(
    m: Model,
    pl: PlaylistModel,
    clicked: int,
    shuffle: bool,
    ord: Seq<Track>,
) -> Model {
    let m1 = Model {
        state: StateModel {
            session: Some(
                SessionModel {
                    playlist_id: pl.id,
                    order: ord,
                    index: clicked_index(pl, clicked, shuffle, ord),
                },
            ),
            ..m.state
        },
        gapless_pending: false,
        pending_id: None,
        ..m
    };
    load_current_track_model(update_now_playing_model(m1))
}

/// Whether a playlist-wide operation touches the live session at all.
pub open spec fn session_over(m: Model, pl: PlaylistModel) -> bool {
    match m.state.session {
        Some(sess) => sess.playlist_id == pl.id,
        None => false,
    }
}

/// Install a re-materialized order `ord` for the same playlist, keeping the
/// playing track by content hash (front where it is lost or was never
/// hashed), then re-queue the gapless target.
pub open spec fn update_shuffle_model(m: Model, pl: PlaylistModel, ord: Seq<Track>) -> Model {
    let new_index = match model_current_id(m) {
        Some(id) => match first_where(ord, id_pred(id)) {
            Some(j) => j,
            None => 0,
        },
        None => 0,
    };
    let m1 = Model {
        state: StateModel {
            session: Some(SessionModel { playlist_id: pl.id, order: ord, index: new_index }),
            ..m.state
        },
        ..m
    };
    queue_next_model(m1)
}

/// Tear playback down: stop the pipeline and clear the session and the
/// now-playing snapshot.
pub open spec fn teardown_model(m: Model) -> Model {
    let m1 = stop_model(m);
    Model { state: StateModel { session: None, now_playing: None, ..m1.state }, ..m1 }
}

/// Whether library repair keeps a session: the playing track's hash is still
/// found in the rebuilt order (or nothing identified was playing), and the
/// rebuilt order is not empty.
pub open spec fn library_repair_keeps(m: Model, lib: PlaylistModel) -> bool {
    match m.state.session {
        None => false,
        Some(sess) => {
            let rebuilt = rebuild_order(sess.order, lib.tracks);
            let found = match model_current_id(m) {
                Some(id) => first_where(rebuilt, id_pred(id)),
                None => None,
            };
            !(found is None && model_current_id(m) is Some) && rebuilt.len() != 0
        },
    }
}

/// Repair the session after the library changed underneath it: rebuild the
/// order by content hash, re-locate the playing track, and either install
/// the rebuilt order or — where the playing track is gone, or nothing is
/// left — tear playback down. A stale order is never kept.
pub open spec fn library_repair_model(m: Model, lib: PlaylistModel) -> Model {
    match m.state.session {
        None => m,
        Some(sess) => {
            let rebuilt = rebuild_order(sess.order, lib.tracks);
            let found = match model_current_id(m) {
                Some(id) => first_where(rebuilt, id_pred(id)),
                None => None,
            };
            if !library_repair_keeps(m, lib) {
                teardown_model(m)
            } else {
                let m1 = Model {
                    state: StateModel {
                        session: Some(
                            SessionModel {
                                playlist_id: sess.playlist_id,
                                order: rebuilt,
                                index: match found {
                                    Some(j) => j,
                                    None => 0,
                                },
                            },
                        ),
                        ..m.state
                    },
                    ..m
                };
                queue_next_model(update_now_playing_model(m1))
            }
        },
    }
}

/// Clamp the cursor into bounds, and where the track under it has no
/// content hash yet, move it forward to the next hashed track (front where
/// none follows). Guards against races with the library scanner.
pub open spec fn validate_model(m: Model) -> Model {
    match m.state.session {
        None => m,
        Some(sess) => {
            let len = sess.order.len() as int;
            let ix = if sess.index >= len {
                if len > 0 {
                    len - 1
                } else {
                    0
                }
            } else {
                sess.index
            };
            let fixed = if 0 <= ix < len && sess.order[ix].metadata.id is None {
                match first_where(sess.order.skip(ix), valid_id_pred()) {
                    Some(p) => ix + p,
                    None => 0,
                }
            } else {
                ix
            };
            set_index_model(m, fixed)
        },
    }
}

// ---------------------------------------------------------------------------
// Navigation

/// A user-triggered skip forward: under repeat-one the same track restarts;
/// otherwise the cursor advances, wraps to the front only when repeat is
/// enabled, and at the end of the queue without repeat playback stops
/// entirely. The repeat settings are recorded first.
pub open spec fn next_model(m: Model, mode: RepeatMode, enabled: bool) -> Model {
    let m0 = Model { repeat_mode: mode, repeat_enabled: enabled, ..m };
    match m0.state.session {
        None => m0,
        Some(sess) => match mode {
            RepeatMode::One => play_model(load_current_track_model(m0)),
            RepeatMode::All => {
                if sess.index + 1 < sess.order.len() {
                    update_now_playing_model(
                        play_model(load_current_track_model(set_index_model(m0, sess.index + 1))),
                    )
                } else if enabled {
                    update_now_playing_model(
                        play_model(load_current_track_model(set_index_model(m0, 0))),
                    )
                } else {
                    stop_model(m0)
                }
            },
        },
    }
}

/// A user-triggered skip backward: under repeat-one the same track restarts;
/// otherwise the cursor moves back, always wrapping to the last track at the
/// front — skipping backward past the start is no end-of-content condition.
pub open spec fn prev_model(m: Model, mode: RepeatMode) -> Model {
    match m.state.session {
        None => m,
        Some(sess) => match mode {
            RepeatMode::One => update_now_playing_model(play_model(load_current_track_model(m))),
            RepeatMode::All => {
                let ni = if sess.index > 0 {
                    sess.index - 1
                } else if sess.order.len() > 0 {
                    sess.order.len() - 1
                } else {
                    0
                };
                update_now_playing_model(
                    play_model(load_current_track_model(set_index_model(m, ni))),
                )
            },
        },
    }
}

// ---------------------------------------------------------------------------
// The tick state machine

/// The cursor after a confirmed gapless switch: the pending hash re-located
/// in the order as it stands now (it may have been reshuffled since the URI
/// was queued); where the hash is gone, the pre-switch next index; failing
/// both, the cursor stays. Then the pending hash is cleared, now-playing
/// refreshed, the following track queued, and the position reset to the
/// start of the new track.
pub open spec fn advance_model(m: Model) -> Model {
    let located: Option<int> = match m.pending_id {
        Some(id) => match m.state.session {
            Some(sess) => first_where(sess.order, id_pred(id)),
            None => None,
        },
        None => None,
    };
    let m1 = match located {
        Some(j) => set_index_model(m, j),
        None => match model_next_index(m) {
            Some(k) => set_index_model(m, k),
            None => m,
        },
    };
    let m2 = Model { pending_id: None, ..m1 };
    let m3 = queue_next_model(update_now_playing_model(m2));
    Model { state: StateModel { progress: 0, ..m3.state }, ..m3 }
}

/// One bus event folded into the service: end-of-stream clears any stale
/// pending flag and reports the track's end; a stream start confirms a
/// pending gapless switch (and is silent otherwise); an error clears the
/// pending flag and is passed outward.
pub open spec fn event_step_model(m: Model, e: PlayerEvent) -> (Model, Seq<PlaybackEvent>) {
    match e {
        PlayerEvent::EndOfStream => (
            Model { gapless_pending: false, ..m },
            seq![PlaybackEvent::TrackEnded],
        ),
        PlayerEvent::StreamStarted => if m.gapless_pending {
            (
                advance_model(Model { gapless_pending: false, ..m }),
                seq![PlaybackEvent::GaplessTrackAdvanced],
            )
        } else {
            (m, Seq::empty())
        },
        PlayerEvent::Error(msg) => (
            Model { gapless_pending: false, ..m },
            seq![PlaybackEvent::Error(msg)],
        ),
    }
}

/// Bus events folded in arrival order.
pub open spec fn drain_events_model(m: Model, evs: Seq<PlayerEvent>) -> (
    Model,
    Seq<PlaybackEvent>,
)
    decreases evs.len(),
{
    if evs.len() == 0 {
        (m, Seq::empty())
    } else {
        let stepped = event_step_model(m, evs[0]);
        let rest = drain_events_model(stepped.0, evs.drop_first());
        (rest.0, stepped.1 + rest.1)
    }
}

/// Bus events still to fold, together with the tick events already reported.
pub open spec fn drain_from(m: Model, evs: Seq<PlayerEvent>, out: Seq<PlaybackEvent>) -> (
    Model,
    Seq<PlaybackEvent>,
) {
    let rest = drain_events_model(m, evs);
    (rest.0, out + rest.1)
}

/// One tick: coalesce the about-to-finish signal into the pending flag,
/// fold the bus events in arrival order, then — unless the user is dragging
/// the seek control — take the reported position as the progress.
pub open spec fn tick_model(m: Model) -> (Model, Seq<PlaybackEvent>) {
    let m0 = Model {
        gapless_pending: m.gapless_pending || m.player.about_to_finish,
        player: PlayerModel { about_to_finish: false, events: Seq::empty(), ..m.player },
        ..m
    };
    let drained = drain_events_model(m0, m.player.events);
    let m1 = drained.0;
    if m1.state.dragging_slider {
        drained
    } else {
        match m1.player.position {
            Some(p) => (
                Model { state: StateModel { progress: p, ..m1.state }, ..m1 },
                drained.1.push(PlaybackEvent::PositionUpdate(p)),
            ),
            None => drained,
        }
    }
}

// ---------------------------------------------------------------------------
// Small settings transitions

/// Record the repeat settings and re-queue the gapless target, since the
/// correct next track depends on them.
pub open spec fn set_repeat_model(m: Model, mode: RepeatMode, enabled: bool) -> Model {
    queue_next_model(Model { repeat_mode: mode, repeat_enabled: enabled, ..m })
}

/// A seek request clamped below at the start of the track.
pub open spec fn clamp_seek(seconds: i64) -> u64 {
    if seconds < 0 {
        0
    } else {
        seconds as u64
    }
}

} // verus!
