//! Userspace Intel HD-Audio driver: register programs, DMA rings, the codec
//! command engines and the playback session.
//!
//! Nothing here touches hardware. Register accesses come out as actions for
//! the caller to perform, and DMA memory comes in as slices.
pub mod bdl;
pub mod codec;
pub mod controller;
pub mod corb;
pub mod dbg;
pub mod mmio;
pub mod pagemap;
pub mod pcicfg;
pub mod playback;
pub mod program;
pub mod regs;
pub mod stream;
pub mod topology;
