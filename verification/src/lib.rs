//! Verified core of the TuneLock DJ instrument: frame-accurate command
//! scheduling, player and transport state, meter snapshots, the output
//! ring of the time stretcher, audio-device selection, the key vocabulary
//! and timeline, and the text handling of the optional assist features.

pub mod analysis;
pub mod assist;
pub mod command;
pub mod control;
pub mod device;
pub mod genre;
pub mod keys;
pub mod metadata;
pub mod meter;
pub mod registry;
pub mod repair;
pub mod ring;
pub mod schedule;
pub mod setlist;
pub mod similarity;
pub mod text;
pub mod timeline;
pub mod transport;
