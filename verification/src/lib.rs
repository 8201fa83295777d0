//! The verified core of an ALSA-compatible audio server.
#![allow(unused_imports)]

pub mod bytes;
pub mod cli;
pub mod common;
pub mod config;
pub mod hda;
pub mod ring;
pub mod server;
pub mod shim;
pub mod text;
