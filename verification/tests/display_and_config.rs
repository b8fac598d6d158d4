use ethereal_waves::config::{AppTheme, Config};
use ethereal_waves::display::{display_playback_progress, display_time_left, u64_to_decimal};
use ethereal_waves::media::{Library, MediaEntry, MediaMetaData};
use ethereal_waves::mpris::{MediaPlayer2, MprisCommand};
use ethereal_waves::session::{PlaybackState, PlaybackStatus, RepeatMode};

#[test]
fn decimal_rendering_is_exact() {
    assert_eq!(u64_to_decimal(0), "0");
    assert_eq!(u64_to_decimal(7), "7");
    assert_eq!(u64_to_decimal(10), "10");
    assert_eq!(u64_to_decimal(1234567), "1234567");
}

#[test]
fn progress_renders_as_minutes_and_padded_seconds() {
    assert_eq!(display_playback_progress(0), "0:00");
    assert_eq!(display_playback_progress(59_999), "0:59");
    assert_eq!(display_playback_progress(60_000), "1:00");
    assert_eq!(display_playback_progress(125_000), "2:05");
    assert_eq!(display_playback_progress(3_605_000), "60:05");
}

#[test]
fn time_left_counts_down_and_clamps() {
    let mut meta = MediaMetaData::new();
    meta.duration = Some(180);
    assert_eq!(display_time_left(&Some(meta.clone()), 60_000), "-2:00");
    assert_eq!(display_time_left(&Some(meta.clone()), 0), "-3:00");
    // past the end of the track
    assert_eq!(display_time_left(&Some(meta.clone()), 500_000), "-0:00");
    meta.duration = None;
    assert_eq!(display_time_left(&Some(meta), 5_000), "-0:00");
    assert_eq!(display_time_left(&None, 5_000), "-0.00");
}

#[test]
fn fresh_metadata_has_every_field_missing() {
    let m = MediaMetaData::new();
    assert!(m.id.is_none());
    assert!(m.title.is_none());
    assert!(m.artist.is_none());
    assert!(m.album.is_none());
    assert!(m.duration.is_none());
    assert!(m.track_number.is_none());
}

#[test]
fn library_keeps_only_hashed_entries() {
    let mut with_id = MediaEntry {
        path: "/a.mp3".to_string(),
        metadata: MediaMetaData::new(),
    };
    with_id.metadata.id = Some("abc".to_string());
    let without_id = MediaEntry {
        path: "/b.mp3".to_string(),
        metadata: MediaMetaData::new(),
    };
    let lib = Library::from_entries(vec![without_id, with_id]);
    assert_eq!(lib.media.len(), 1);
    assert_eq!(lib.media[0].path, "/a.mp3");
}

#[test]
fn library_lookup_finds_the_first_match() {
    let mut e1 = MediaEntry {
        path: "/a.mp3".to_string(),
        metadata: MediaMetaData::new(),
    };
    e1.metadata.id = Some("dup".to_string());
    let mut e2 = MediaEntry {
        path: "/b.mp3".to_string(),
        metadata: MediaMetaData::new(),
    };
    e2.metadata.id = Some("dup".to_string());
    let lib = Library::from_entries(vec![e1, e2]);
    let hit = lib.from_id(&"dup".to_string()).unwrap();
    assert_eq!(hit.path, "/a.mp3");
    assert!(lib.from_id(&"missing".to_string()).is_none());
}

#[test]
fn config_defaults_match_the_first_run() {
    let c = Config::default();
    assert_eq!(c.app_theme, AppTheme::System);
    assert!(c.library_paths.is_empty());
    assert!(c.list_text_wrap);
    assert!(!c.list_row_align_top);
}

#[test]
fn library_paths_are_listed_once() {
    let mut c = Config::default();
    assert!(c.add_library_path("/music".to_string()));
    assert!(!c.add_library_path("/music".to_string()));
    assert!(c.add_library_path("/more".to_string()));
    assert_eq!(c.library_paths.len(), 2);
    assert!(c.contains_library_path("/music"));
    assert!(!c.contains_library_path("/other"));
}

#[test]
fn playback_state_starts_stopped_at_zero() {
    let s = PlaybackState::new();
    assert!(s.session.is_none());
    assert_eq!(s.status, PlaybackStatus::Stopped);
    assert_eq!(s.progress, 0);
    assert!(s.now_playing.is_none());
    assert!(!s.dragging_slider);
    let d = PlaybackState::default();
    assert_eq!(d.status, PlaybackStatus::Stopped);
}

#[test]
fn status_text_matches_the_remote_surface() {
    assert_eq!(PlaybackStatus::Playing.as_str(), "Playing");
    assert_eq!(PlaybackStatus::Paused.as_str(), "Paused");
    assert_eq!(PlaybackStatus::Stopped.as_str(), "Stopped");
}

#[test]
fn repeat_modes_compare_by_variant() {
    assert_eq!(RepeatMode::One, RepeatMode::One);
    assert_ne!(RepeatMode::One, RepeatMode::All);
}

#[test]
fn the_remote_surface_accepts_window_requests() {
    let m = MediaPlayer2 {};
    m.raise();
    m.quit();
    let seek = MprisCommand::Seek(250_000);
    assert!(matches!(seek, MprisCommand::Seek(250_000)));
}
