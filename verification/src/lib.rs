//! Timing model, playback clock and subtitle text handling for a subtitle
//! overlay that follows a manually driven virtual playback clock.

pub mod chars;
pub mod clock;
pub mod fonts;
pub mod format;
pub mod subtitle;
pub mod text;
pub mod timing;
pub mod watcher;
