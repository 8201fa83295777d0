//! The client side: a virtual ALSA device that forwards PCM to the server.
pub mod abi;
pub mod drain;
pub mod pcm;
pub mod symbols;
