//! Text-to-narration conversion core: text normalization, voice profiles,
//! subtitle timing, file-name sanitizing, the conversion queue and the
//! cancellable batch driver.
pub mod chars;
pub mod choices;
pub mod config;
pub mod mlt;
pub mod package;
pub mod pipeline;
pub mod processor;
pub mod queue;
pub mod sanitize;
pub mod subtitle;
pub mod text;
pub mod tts;
pub mod video;
pub mod voices;
