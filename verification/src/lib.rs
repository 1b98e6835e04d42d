//! Time-synced lyrics: timestamps, the line parser, and the timing
//! calculations over parsed lines.

pub mod error;
pub mod line;
pub mod lyrics;
pub mod matcher;
pub mod number;
pub mod request;
pub mod text;
pub mod timestamp;
pub mod timing;

pub use error::LyricsError;
pub use line::MUSIC_INDICATOR;
pub use lyrics::SyncedLyrics;
pub use timestamp::Timestamp;
