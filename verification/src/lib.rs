//! Core of a transparent proxy for the Growatt v6 inverter telemetry
//! protocol: the framed-message codec, the schema-driven decoder, the
//! chunk handlers of the relay and the state machine of its copy loops.
//!
//! Everything here is pure computation over plain values; sockets, the
//! database and the file system stay outside the library and hand it
//! byte buffers, taking byte buffers and decoded messages back.

pub mod codec;
pub mod config;
pub mod data;
pub mod data_message;
pub mod decoder;
pub mod error;
pub mod fragment;
pub mod message_type;
pub mod meter;
pub mod numfmt;
pub mod session;
pub mod text;
pub mod time;
