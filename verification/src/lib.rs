//! Glowbe runtime core: wire protocol, identifiers, registries and pixel logic.

pub mod strs;
pub mod wire;
pub mod text_api;
pub mod demos;
pub mod state;
pub mod audio;
pub mod devices;
pub mod clip;
pub mod layouts;
pub mod source;
pub mod media;
pub mod api;
pub mod pattern;
pub mod output;
pub mod device_slot;
pub mod text_state;
pub mod mate;
pub mod mate_api;
pub mod ws;
pub mod config;
pub mod metrics;
pub mod media_jobs;
