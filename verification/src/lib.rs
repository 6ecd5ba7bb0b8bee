//! Verified core of a line-oriented VOICEVOX text editor: voice-tag parsing,
//! speaker tables, line bookkeeping, prefetch planning, help-menu matching,
//! overlay/notice state machines and session bookkeeping.

pub mod text;
pub mod speakers;
pub mod tag;
pub mod tag_laws;
pub mod lines;
pub mod prefetch;
pub mod help;
pub mod overlay;
pub mod cli;
pub mod editor;
pub mod history;
pub mod mascot;
pub mod http;
pub mod config;
pub mod session;
pub mod insert;
pub mod chooser;
pub mod fetch;
pub mod playback;
pub mod keys;
pub mod events;
pub mod request_log;
pub mod intonation;
