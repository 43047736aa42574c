//! A verified protocol core for Switcher power-plug devices.
//!
//! The library covers the protocol layer: decoding fixed-layout broadcast
//! discovery packets into device records, building and CRC-signing the
//! hex-textual command payloads, interpreting session replies, the
//! at-most-two-poll convergence policy for power commands, and the pure
//! bookkeeping around discovery — deduplication, caching and alias pairing.
//! Sockets, timers, files and the command line live outside the library and
//! hand it plain values.

pub mod cache;
pub mod codec;
pub mod config;
pub mod control;
pub mod device;
pub mod discovery;
pub mod errors;
pub mod hexstr;
pub mod pairing;
pub mod utils;
