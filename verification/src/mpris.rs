//! The inbound remote-control surface: commands an OS-level media-control
//! bridge queues for the service. The bridge's transport lives outside the
//! library; it hands commands in through [`crate::service::PlaybackService::push_mpris_command`].

use vstd::prelude::*;

verus! {

/// One remote-control command; each maps one-to-one to a service call.
#[derive(Clone, Copy, Debug, PartialEq, Eq, Structural)]
pub enum MprisCommand {
    Play,
    Pause,
    PlayPause,
    Next,
    Previous,
    Stop,
    /// Seek by this offset, in microseconds, as the remote surface measures it.
    Seek(i64),
}

/// The application-level face of the remote-control surface. The transport
/// exposes these on the session bus; raising and quitting are for the windowed
/// shell around the library, so here they are deliberately requests that do
/// nothing.
pub struct MediaPlayer2 {}

impl MediaPlayer2 {
    pub fn raise(&self) {
    }

    pub fn quit(&self) {
    }
}

} // verus!
