//! A verified playback core for a desktop audio player: playlists, playback
//! sessions, and the gapless-transition engine that keeps the next track
//! queued in the media pipeline before the current one ends.

pub mod config;
pub mod display;
pub mod laws;
pub mod media;
pub mod model;
pub mod mpris;
pub mod player;
pub mod playlist;
pub mod playlist_service;
pub mod service;
pub mod session;
pub mod text;
pub mod trusted;
