//! Audio visualizer: scene / palette identifiers, PipeWire node discovery and the capture ring.

pub mod capture;
pub mod types;
pub mod ring;
pub mod engine;
