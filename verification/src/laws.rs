//! The laws the playback core obeys, stated and proved over the model in
//! [`crate::model`]. Each is a public proof function: its statement is part
//! of the library's contract.

use crate::model::{
    advance_model, event_step_model, first_where, id_pred, lemma_first_where_props,
    library_repair_keeps, library_repair_model, model_current_id, next_model, queue_next_model,
    session_over, start_session_model, Model, PlaybackEvent,
};
use crate::media::opt_str_view;
use crate::player::PlayerEvent;
use crate::playlist::{PlaylistModel, Track};
use crate::session::RepeatMode;
use vstd::prelude::*;

verus! {

/// Starting a session without shuffle takes the playlist's own order and
/// puts the cursor exactly on the clicked index.
pub proof fn lemma_start_session_direct(m: Model, pl: PlaylistModel, i: int)
    requires
        0 <= i < pl.tracks.len(),
    ensures
        ({
            let s = start_session_model(m, pl, i, false, pl.tracks).state.session;
            s matches Some(sess) && sess.order == pl.tracks && sess.index == i && sess.playlist_id
                == pl.id
        }),
{
}

/// Shuffle preserves the multiset of tracks: a session started over any
/// permutation of the playlist's tracks holds exactly the playlist's tracks,
/// duplicate entries included.
pub proof fn lemma_start_session_shuffle_preserves_tracks(
    m: Model,
    pl: PlaylistModel,
    i: int,
    ord: Seq<Track>,
)
    requires
        ord.to_multiset() == pl.tracks.to_multiset(),
    ensures
        ({
            let s = start_session_model(m, pl, i, true, ord).state.session;
            s matches Some(sess) && sess.order.to_multiset() == pl.tracks.to_multiset()
        }),
{
}

/// Queueing the gapless target twice with no state change in between hands
/// the engine the same queued URI both times, by the same request.
pub proof fn lemma_queue_next_uri_idempotent(m: Model)
    ensures
        ({
            let once = queue_next_model(m);
            let twice = queue_next_model(once);
            twice.player.queued_uri == once.player.queued_uri && twice.player.commands.last()
                == once.player.commands.last()
        }),
{
}

/// Library repair keeps the playing track: where the playing track's hash is
/// still found after the rebuild, the refreshed now-playing snapshot carries
/// that very hash.
pub proof fn lemma_library_repair_keeps_current(m: Model, lib: PlaylistModel)
    requires
        session_over(m, lib),
        library_repair_keeps(m, lib),
        model_current_id(m) is Some,
    ensures
        ({
            let repaired = library_repair_model(m, lib);
            repaired.state.now_playing matches Some(meta) && opt_str_view(meta.id)
                == model_current_id(m)
        }),
{
    let sess = m.state.session->Some_0;
    let rebuilt = crate::model::rebuild_order(sess.order, lib.tracks);
    let id = model_current_id(m)->Some_0;
    lemma_first_where_props(rebuilt, id_pred(id));
}

/// Library repair removal: where the playing track's hash is absent from the
/// rebuilt order, repair tears playback down — the session is gone, the
/// status stopped, and nothing shows as playing.
pub proof fn lemma_library_repair_removal(m: Model, lib: PlaylistModel)
    requires
        session_over(m, lib),
        !library_repair_keeps(m, lib),
    ensures
        ({
            let repaired = library_repair_model(m, lib);
            repaired.state.session is None && repaired.state.status is Stopped
                && repaired.state.now_playing is None
        }),
{
}

/// Library repair is idempotent given the same snapshot: repairing again
/// with the library that was just applied leaves the session and the
/// now-playing snapshot exactly where the first repair put them.
pub proof fn lemma_library_repair_idempotent(m: Model, lib: PlaylistModel)
    requires
        session_over(m, lib),
        library_repair_keeps(m, lib),
    ensures
        ({
            let once = library_repair_model(m, lib);
            let twice = library_repair_model(once, lib);
            session_over(once, lib) && library_repair_keeps(once, lib) && twice.state.session
                == once.state.session && twice.state.now_playing == once.state.now_playing
        }),
{
    let sess = m.state.session->Some_0;
    let rebuilt = crate::model::rebuild_order(sess.order, lib.tracks);
    crate::model::lemma_rebuild_canonical(sess.order, lib.tracks);
    crate::model::lemma_rebuild_of_canonical(rebuilt, lib.tracks);
    let once = library_repair_model(m, lib);
    match model_current_id(m) {
        Some(id) => {
            lemma_first_where_props(rebuilt, id_pred(id));
            let j = first_where(rebuilt, id_pred(id))->Some_0;
            assert(model_current_id(once) == Some(id));
            crate::model::lemma_first_where_is(rebuilt, id_pred(id), j);
        },
        None => {
            assert(once.state.session->Some_0.index == 0);
            assert(crate::model::canonical_in(lib.tracks, rebuilt[0]));
            let id0 = crate::model::track_id_view(rebuilt[0])->Some_0;
            assert(rebuilt[0].metadata.id is Some);
            assert(crate::model::has_id(rebuilt[0], id0));
            crate::model::lemma_first_where_is(rebuilt, id_pred(id0), 0);
        },
    }
}

/// A skip forward at the end of the queue, under advance-through-the-queue
/// repeat with wrapping disabled, stops playback and leaves the session
/// where it stands.
pub proof fn lemma_next_at_end_stops(m: Model)
    requires
        m.state.session matches Some(sess) && sess.index + 1 == sess.order.len(),
    ensures
        ({
            let n = next_model(m, RepeatMode::All, false);
            n.state.status is Stopped && n.state.session == m.state.session
        }),
{
}

/// A stream start while a gapless switch is pending confirms the switch: the
/// session advances and exactly one gapless-advance event is reported.
pub proof fn lemma_stream_start_confirms_gapless(m: Model)
    requires
        m.gapless_pending,
    ensures
        ({
            let stepped = event_step_model(m, PlayerEvent::StreamStarted);
            stepped.0 == advance_model(Model { gapless_pending: false, ..m }) && stepped.1
                =~= seq![PlaybackEvent::GaplessTrackAdvanced] && !stepped.0.gapless_pending
        }),
{
}

/// A confirmed gapless switch moves the cursor to the pending hash's
/// position in the order as it stands now, resets the position to the start
/// of the new track, and shows that track as playing.
pub proof fn lemma_gapless_advance(m: Model, id: Seq<char>, j: int)
    requires
        m.state.session is Some,
        m.pending_id == Some(id),
        first_where(m.state.session->Some_0.order, id_pred(id)) == Some(j),
    ensures
        ({
            let a = advance_model(m);
            a.state.session matches Some(sess2) && sess2.index == j && sess2.order
                == m.state.session->Some_0.order && a.state.progress == 0 && a.state.now_playing
                == Some(sess2.order[j].metadata)
        }),
{
    lemma_first_where_props(m.state.session->Some_0.order, id_pred(id));
}

} // verus!
