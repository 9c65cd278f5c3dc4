//! The audio engine: effects, pipelines, streams, mixing and framing.

pub mod effects;
pub mod frame;
pub mod mix_laws;
pub mod mixer;
pub mod normalizer;
pub mod pipeline;
pub mod prenorm;
pub mod sample;
