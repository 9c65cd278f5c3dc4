//! The core of a voice-chat bot that plays sounds: the catalogue of audio
//! effects, the planning of decode and effect pipelines, the mixing of
//! streams into frames, loudness control, the framing of audio for the
//! wire, and the reading of chat commands.

pub mod audio;
pub mod certificates;
pub mod commands;
pub mod config;
pub mod error;
pub mod persistence;
pub mod protos;
pub mod session;
pub mod sounds;
pub mod text;
pub mod util;
