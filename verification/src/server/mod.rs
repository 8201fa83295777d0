//! The server side: client streams, mixing, playback and control.
pub mod backend;
pub mod client;
pub mod door;
pub mod dsp;
pub mod mixer;
pub mod player;
pub mod protocol;
pub mod session;
pub mod state;
pub mod wav;
