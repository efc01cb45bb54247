//! Platform-independent playback logic of the Apogee radio player.
pub mod session;
pub mod text;
pub mod detect;
pub mod output;
pub mod network;
pub mod source;
pub mod hls;
pub mod engine;
pub mod device;
pub mod commands;
pub mod stellar;
pub mod xtream;
pub mod updater;
pub mod artwork;
pub mod secrets;
pub mod pipeline;
pub mod diagnostics;
pub mod audio_out;
pub mod logs;
