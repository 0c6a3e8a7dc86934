//! What the library promises, said of what its functions give for what they are given.

pub mod call;
pub mod frames;
pub mod gateway;
pub mod group;
pub mod handshake;
pub mod keys;
pub mod maps;
pub mod messages;
pub mod packets;
pub mod reading;
pub mod requests;
pub mod screen;
pub mod sound;
pub mod texts;
pub mod token;
pub mod voice_start;
pub mod window;
pub mod wire;
