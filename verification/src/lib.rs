//! Core of a text-to-speech voice-chat bot: the fingerprint-keyed cache
//! over an embedded key-value store, the rotating credential pool, the
//! synthesis middleware that deduplicates requests and screens finished
//! downloads before caching them, the audio delivery stage that turns
//! container buffers into ordered frame and mute commands, and the
//! presence tracker that follows a target participant across channels.
//!
//! The network transports, the web front end and all task scheduling live
//! outside this crate and exchange plain values with the functions here.

pub mod cache;
pub mod config;
pub mod connection;
pub mod tts;
pub mod types;
pub mod web;
