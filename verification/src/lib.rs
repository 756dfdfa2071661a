//! AirPlay 2 bridge for legacy Sonos rooms.

pub mod airplay;
pub mod bridge;
pub mod bridge_laws;
pub mod bridge_state;
pub mod chunk;
pub mod cli;
pub mod client;
pub mod cohort_laws;
pub mod config;
pub mod diagnostics;
pub mod discovery;
pub mod downstream;
pub mod encoder;
pub mod event_laws;
pub mod home_assistant;
pub mod http;
pub mod ids;
pub mod net;
pub mod paths;
pub mod registry;
pub mod sequences;
pub mod session_laws;
pub mod session_map;
pub mod soap;
pub mod stream;
pub mod sync;
pub mod text;
pub mod text_map;
pub mod topology;
pub mod types;
pub mod web;
pub mod xml;
