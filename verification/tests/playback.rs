use ethereal_waves::model::PlaybackEvent;
use ethereal_waves::mpris::MprisCommand;
use ethereal_waves::player::{PlayerCommand, PlayerEvent};
use ethereal_waves::playlist::{Playlist, Track};
use ethereal_waves::service::PlaybackService;
use ethereal_waves::session::{PlaybackStatus, RepeatMode};

fn track(path: &str, id: &str, entry_id: u32) -> Track {
    let mut t = Track::new();
    t.path = path.to_string();
    t.entry_id = entry_id;
    t.metadata.id = Some(id.to_string());
    t.metadata.title = Some(format!("Title {}", entry_id));
    t
}

fn playlist_abc() -> Playlist {
    let mut p = Playlist::new("mix".to_string());
    p.push(track("/a.mp3", "id-a", 1));
    p.push(track("/b.mp3", "id-b", 2));
    p.push(track("/c.mp3", "id-c", 3));
    p
}

#[test]
fn start_session_without_shuffle_keeps_order_and_index() {
    let mut svc = PlaybackService::new();
    let p = playlist_abc();
    svc.start_session(&p, 1, false);
    let session = svc.session().unwrap();
    assert_eq!(session.playlist_id, p.id());
    assert_eq!(session.index, 1);
    assert_eq!(session.order.len(), 3);
    for (i, t) in session.order.iter().enumerate() {
        assert_eq!(t.path, p.tracks()[i].path);
        assert_eq!(t.entry_id, p.tracks()[i].entry_id);
    }
    assert_eq!(svc.now_playing().unwrap().id.as_deref(), Some("id-b"));
}

#[test]
fn start_session_empty_playlist_changes_nothing() {
    let mut svc = PlaybackService::new();
    let p = Playlist::new("empty".to_string());
    svc.start_session(&p, 0, false);
    assert!(svc.session().is_none());
    assert_eq!(svc.status(), PlaybackStatus::Stopped);
}

#[test]
fn start_session_shuffle_preserves_entries() {
    let mut svc = PlaybackService::new();
    let p = playlist_abc();
    svc.start_session(&p, 2, true);
    let session = svc.session().unwrap();
    let mut ids: Vec<u32> = session.order.iter().map(|t| t.entry_id).collect();
    ids.sort();
    assert_eq!(ids, vec![1, 2, 3]);
    // the clicked entry is where the cursor sits
    assert_eq!(session.order[session.index].entry_id, 3);
}

#[test]
fn start_session_shuffle_tells_duplicate_entries_apart() {
    // two entries of the same file share a content hash; the entry id alone
    // resolves the clicked instance
    let mut svc = PlaybackService::new();
    let mut p = Playlist::new("dups".to_string());
    p.push(track("/dup.mp3", "same-hash", 1));
    p.push(track("/dup.mp3", "same-hash", 2));
    p.push(track("/c.mp3", "id-c", 3));
    svc.start_session(&p, 1, true);
    let session = svc.session().unwrap();
    assert_eq!(session.order[session.index].entry_id, 2);
}

#[test]
fn compute_next_index_end_of_queue_without_repeat_is_none() {
    let mut svc = PlaybackService::new();
    let mut p = Playlist::new("five".to_string());
    for i in 0..5 {
        p.push(track(&format!("/t{}.mp3", i), &format!("id{}", i), i));
    }
    svc.start_session(&p, 4, false);
    svc.set_repeat_state(RepeatMode::All, false);
    assert_eq!(svc.compute_next_index(), None);
}

#[test]
fn compute_next_index_end_of_queue_with_repeat_wraps() {
    let mut svc = PlaybackService::new();
    let mut p = Playlist::new("five".to_string());
    for i in 0..5 {
        p.push(track(&format!("/t{}.mp3", i), &format!("id{}", i), i));
    }
    svc.start_session(&p, 4, false);
    svc.set_repeat_state(RepeatMode::All, true);
    assert_eq!(svc.compute_next_index(), Some(0));
}

#[test]
fn compute_next_index_repeat_one_stays() {
    let mut svc = PlaybackService::new();
    let mut p = Playlist::new("five".to_string());
    for i in 0..5 {
        p.push(track(&format!("/t{}.mp3", i), &format!("id{}", i), i));
    }
    svc.start_session(&p, 2, false);
    svc.set_repeat_state(RepeatMode::One, false);
    assert_eq!(svc.compute_next_index(), Some(2));
    svc.set_repeat_state(RepeatMode::One, true);
    assert_eq!(svc.compute_next_index(), Some(2));
}

#[test]
fn queue_next_uri_is_idempotent() {
    let mut svc = PlaybackService::new();
    let p = playlist_abc();
    svc.start_session(&p, 0, false);
    svc.queue_next_uri();
    let first = svc.queued_uri();
    svc.queue_next_uri();
    let second = svc.queued_uri();
    assert_eq!(first, second);
    assert_eq!(first.as_deref(), Some("file:///b.mp3"));
}

#[test]
fn library_repair_keeps_current_track() {
    let mut svc = PlaybackService::new();
    let mut lib = Playlist::library();
    lib.push(track("/a.mp3", "id-a", 1));
    lib.push(track("/b.mp3", "id-b", 2));
    lib.push(track("/c.mp3", "id-c", 3));
    svc.start_session(&lib, 1, false);

    // a rescan found the same files again, with richer metadata
    let mut fresh = Playlist::library();
    let mut ta = track("/a.mp3", "id-a", 10);
    ta.metadata.title = Some("Alpha".to_string());
    let mut tb = track("/b.mp3", "id-b", 20);
    tb.metadata.title = Some("Beta".to_string());
    let mut tc = track("/c.mp3", "id-c", 30);
    tc.metadata.title = Some("Gamma".to_string());
    fresh.push(ta);
    fresh.push(tb);
    fresh.push(tc);

    assert!(svc.update_session_for_library(&fresh));
    let now = svc.now_playing().unwrap();
    assert_eq!(now.id.as_deref(), Some("id-b"));
    assert_eq!(now.title.as_deref(), Some("Beta"));
    let session = svc.session().unwrap();
    assert_eq!(session.order.len(), fresh.len());
    assert_eq!(session.index, 1);
}

#[test]
fn library_repair_twice_with_one_snapshot_changes_nothing_more() {
    let mut svc = PlaybackService::new();
    let mut lib = Playlist::library();
    lib.push(track("/a.mp3", "id-a", 1));
    lib.push(track("/b.mp3", "id-b", 2));
    svc.start_session(&lib, 0, false);

    let mut fresh = Playlist::library();
    fresh.push(track("/b.mp3", "id-b", 20));
    fresh.push(track("/a.mp3", "id-a", 10));

    assert!(svc.update_session_for_library(&fresh));
    let first = svc.session().unwrap();
    assert!(svc.update_session_for_library(&fresh));
    let second = svc.session().unwrap();
    assert_eq!(first.index, second.index);
    assert_eq!(first.order.len(), second.order.len());
    for (a, b) in first.order.iter().zip(second.order.iter()) {
        assert_eq!(a.entry_id, b.entry_id);
        assert_eq!(a.path, b.path);
    }
    assert_eq!(svc.now_playing().unwrap().id.as_deref(), Some("id-a"));
}

#[test]
fn library_repair_removal_tears_playback_down() {
    let mut svc = PlaybackService::new();
    let mut lib = Playlist::library();
    lib.push(track("/a.mp3", "id-a", 1));
    lib.push(track("/b.mp3", "id-b", 2));
    svc.start_session(&lib, 1, false);

    // the playing file is gone from the rescan
    let mut fresh = Playlist::library();
    fresh.push(track("/a.mp3", "id-a", 10));

    assert!(!svc.update_session_for_library(&fresh));
    assert!(svc.session().is_none());
    assert_eq!(svc.status(), PlaybackStatus::Stopped);
    assert!(svc.now_playing().is_none());
}

#[test]
fn library_repair_ignores_other_playlists() {
    let mut svc = PlaybackService::new();
    let p = playlist_abc();
    svc.start_session(&p, 0, false);
    let mut fresh = Playlist::library();
    fresh.push(track("/z.mp3", "id-z", 9));
    assert!(!svc.update_session_for_library(&fresh));
    assert_eq!(svc.session().unwrap().order.len(), 3);
}

#[test]
fn next_walks_the_queue_and_stops_at_the_end() {
    let mut svc = PlaybackService::new();
    let p = playlist_abc();
    svc.start_session(&p, 0, false);
    svc.next(RepeatMode::All, false);
    assert_eq!(svc.session().unwrap().index, 1);
    svc.next(RepeatMode::All, false);
    assert_eq!(svc.session().unwrap().index, 2);
    svc.next(RepeatMode::All, false);
    assert_eq!(svc.session().unwrap().index, 2);
    assert_eq!(svc.status(), PlaybackStatus::Stopped);
}

#[test]
fn next_wraps_when_repeat_is_enabled() {
    let mut svc = PlaybackService::new();
    let p = playlist_abc();
    svc.start_session(&p, 2, false);
    svc.next(RepeatMode::All, true);
    assert_eq!(svc.session().unwrap().index, 0);
    assert_eq!(svc.status(), PlaybackStatus::Playing);
}

#[test]
fn next_under_repeat_one_restarts_the_same_track() {
    let mut svc = PlaybackService::new();
    let p = playlist_abc();
    svc.start_session(&p, 1, false);
    svc.next(RepeatMode::One, false);
    assert_eq!(svc.session().unwrap().index, 1);
    assert_eq!(svc.status(), PlaybackStatus::Playing);
}

#[test]
fn prev_always_wraps_to_the_last_track() {
    let mut svc = PlaybackService::new();
    let p = playlist_abc();
    svc.start_session(&p, 0, false);
    svc.prev(RepeatMode::All);
    assert_eq!(svc.session().unwrap().index, 2);
    svc.prev(RepeatMode::All);
    assert_eq!(svc.session().unwrap().index, 1);
}

#[test]
fn gapless_stream_start_advances_the_session() {
    let mut svc = PlaybackService::new();
    let p = playlist_abc();
    svc.start_session(&p, 0, false);
    // start_session pre-queued track 1's URI
    assert_eq!(svc.queued_uri().as_deref(), Some("file:///b.mp3"));

    svc.player.notify_about_to_finish();
    svc.player.push_event(PlayerEvent::StreamStarted);
    let events = svc.tick();

    let advanced = events
        .iter()
        .filter(|e| matches!(e, PlaybackEvent::GaplessTrackAdvanced))
        .count();
    assert_eq!(advanced, 1);
    assert_eq!(svc.session().unwrap().index, 1);
    assert_eq!(svc.progress(), 0);
    assert_eq!(svc.now_playing().unwrap().id.as_deref(), Some("id-b"));
    // the track after the new current one is queued in turn
    assert_eq!(svc.queued_uri().as_deref(), Some("file:///c.mp3"));
}

#[test]
fn a_reshuffle_during_a_pending_switch_keeps_the_committed_track() {
    let mut svc = PlaybackService::new();
    let p = playlist_abc();
    svc.start_session(&p, 0, false);
    // the engine is committed to the queued track
    svc.player.notify_about_to_finish();
    let _ = svc.tick();
    // a reshuffle races with the switch; the pending hash must survive it
    assert!(svc.update_session_shuffle(&p, true));
    svc.player.push_event(PlayerEvent::StreamStarted);
    let events = svc.tick();
    assert!(events
        .iter()
        .any(|e| matches!(e, PlaybackEvent::GaplessTrackAdvanced)));
    let session = svc.session().unwrap();
    assert_eq!(
        session.order[session.index].metadata.id.as_deref(),
        Some("id-b")
    );
    assert_eq!(svc.progress(), 0);
}

#[test]
fn stream_start_without_pending_switch_is_silent() {
    let mut svc = PlaybackService::new();
    let p = playlist_abc();
    svc.start_session(&p, 0, false);
    svc.player.push_event(PlayerEvent::StreamStarted);
    let events = svc.tick();
    assert!(events
        .iter()
        .all(|e| !matches!(e, PlaybackEvent::GaplessTrackAdvanced)));
    assert_eq!(svc.session().unwrap().index, 0);
}

#[test]
fn end_of_stream_reports_track_ended() {
    let mut svc = PlaybackService::new();
    let p = playlist_abc();
    svc.start_session(&p, 2, false);
    svc.player.push_event(PlayerEvent::EndOfStream);
    let events = svc.tick();
    assert!(events.iter().any(|e| matches!(e, PlaybackEvent::TrackEnded)));
}

#[test]
fn pipeline_errors_are_passed_outward() {
    let mut svc = PlaybackService::new();
    let p = playlist_abc();
    svc.start_session(&p, 0, false);
    svc.player
        .push_event(PlayerEvent::Error("decode failed".to_string()));
    let events = svc.tick();
    assert!(events
        .iter()
        .any(|e| matches!(e, PlaybackEvent::Error(msg) if msg == "decode failed")));
}

#[test]
fn tick_reports_the_position_unless_dragging() {
    let mut svc = PlaybackService::new();
    let p = playlist_abc();
    svc.start_session(&p, 0, false);
    svc.player.set_position(Some(1500));
    let events = svc.tick();
    assert!(events
        .iter()
        .any(|e| matches!(e, PlaybackEvent::PositionUpdate(1500))));
    assert_eq!(svc.progress(), 1500);

    svc.set_dragging_slider(true);
    svc.player.set_position(Some(9000));
    let events = svc.tick();
    assert!(events
        .iter()
        .all(|e| !matches!(e, PlaybackEvent::PositionUpdate(_))));
    assert_eq!(svc.progress(), 1500);
}

#[test]
fn shuffle_toggle_keeps_the_playing_track() {
    let mut svc = PlaybackService::new();
    let p = playlist_abc();
    svc.start_session(&p, 1, false);
    assert!(svc.update_session_shuffle(&p, true));
    let session = svc.session().unwrap();
    assert_eq!(
        session.order[session.index].metadata.id.as_deref(),
        Some("id-b")
    );
    let mut ids: Vec<u32> = session.order.iter().map(|t| t.entry_id).collect();
    ids.sort();
    assert_eq!(ids, vec![1, 2, 3]);
}

#[test]
fn shuffle_toggle_needs_a_matching_session() {
    let mut svc = PlaybackService::new();
    let p = playlist_abc();
    assert!(!svc.update_session_shuffle(&p, true));
    svc.start_session(&p, 0, false);
    let other = playlist_abc();
    if other.id() != p.id() {
        assert!(!svc.update_session_shuffle(&other, true));
    }
}

#[test]
fn validate_session_skips_unhashed_tracks() {
    let mut svc = PlaybackService::new();
    let mut p = Playlist::new("mixed".to_string());
    let mut pending = track("/a.mp3", "unused", 1);
    pending.metadata.id = None;
    p.push(pending);
    p.push(track("/b.mp3", "id-b", 2));
    svc.start_session(&p, 0, false);
    assert!(svc.validate_session());
    assert_eq!(svc.session().unwrap().index, 1);
}

#[test]
fn stop_clears_the_gapless_queue() {
    let mut svc = PlaybackService::new();
    let p = playlist_abc();
    svc.start_session(&p, 0, false);
    assert!(svc.queued_uri().is_some());
    svc.stop();
    assert!(svc.queued_uri().is_none());
    assert_eq!(svc.status(), PlaybackStatus::Stopped);
}

#[test]
fn play_pause_toggles() {
    let mut svc = PlaybackService::new();
    let p = playlist_abc();
    svc.start_session(&p, 0, false);
    svc.play();
    assert_eq!(svc.status(), PlaybackStatus::Playing);
    svc.play_pause();
    assert_eq!(svc.status(), PlaybackStatus::Paused);
    svc.play_pause();
    assert_eq!(svc.status(), PlaybackStatus::Playing);
}

#[test]
fn volume_is_clamped_to_full_scale() {
    let mut svc = PlaybackService::new();
    svc.set_volume(1500);
    assert_eq!(svc.player.volume, 1000);
    svc.set_volume(250);
    assert_eq!(svc.player.volume, 250);
}

#[test]
fn seek_clamps_negative_time_to_the_start() {
    let mut svc = PlaybackService::new();
    svc.player.take_commands();
    svc.seek(-7);
    svc.seek(42);
    let commands = svc.player.take_commands();
    assert_eq!(
        commands,
        vec![PlayerCommand::Seek(0), PlayerCommand::Seek(42)]
    );
}

#[test]
fn mpris_commands_drain_in_arrival_order() {
    let mut svc = PlaybackService::new();
    svc.push_mpris_command(MprisCommand::Play);
    svc.push_mpris_command(MprisCommand::Pause);
    svc.push_mpris_command(MprisCommand::Seek(-100));
    let drained = svc.process_mpris_commands();
    assert_eq!(
        drained,
        vec![
            MprisCommand::Play,
            MprisCommand::Pause,
            MprisCommand::Seek(-100)
        ]
    );
    assert!(svc.process_mpris_commands().is_empty());
}

#[test]
fn remote_commands_apply_one_by_one_in_order() {
    let mut svc = PlaybackService::new();
    let p = playlist_abc();
    svc.start_session(&p, 0, false);
    svc.push_mpris_command(MprisCommand::Play);
    svc.push_mpris_command(MprisCommand::Pause);
    for cmd in svc.process_mpris_commands() {
        svc.apply_mpris_command(cmd, RepeatMode::All, false);
    }
    // both arrived in one tick; both applied, in order, leaving paused
    assert_eq!(svc.status(), PlaybackStatus::Paused);

    svc.push_mpris_command(MprisCommand::Next);
    for cmd in svc.process_mpris_commands() {
        svc.apply_mpris_command(cmd, RepeatMode::All, false);
    }
    assert_eq!(svc.session().unwrap().index, 1);
}

#[test]
fn load_commands_reach_the_engine_in_order() {
    let mut svc = PlaybackService::new();
    let p = playlist_abc();
    svc.player.take_commands();
    svc.start_session(&p, 0, false);
    let commands = svc.player.take_commands();
    assert_eq!(
        commands,
        vec![
            PlayerCommand::Stop,
            PlayerCommand::Load("file:///a.mp3".to_string()),
            PlayerCommand::SetQueuedUri(Some("file:///b.mp3".to_string())),
        ]
    );
}
