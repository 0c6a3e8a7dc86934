//! The logic of a small native Discord client: text and voice over the gateway,
//! end-to-end encrypted voice frames, and the state behind the window.

pub mod applog;
pub mod audio;
pub mod auth;
pub mod bytes;
pub mod config;
pub mod dave;
pub mod gateway;
pub mod json;
pub mod laws;
pub mod model;
pub mod net;
pub mod rest;
pub mod ring;
pub mod state;
pub mod text;
pub mod textmap;
pub mod token_import;
pub mod ui;
pub mod voice;
