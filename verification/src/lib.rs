//! Driver core for the 7.5" three-colour e-paper panel (V3, 800x480).
//!
//! The crate holds the protocol layer of the driver and none of the
//! hardware access. A driver value queues the exact sequence of transport
//! operations that each panel operation stands for; whoever owns the pins
//! and the serial bus asks for one [`wire::Action`] at a time, carries
//! it out and reports back with an [`wire::Event`].

pub mod color;
pub mod command;
pub mod wire;
pub mod channel;
pub mod framing;
pub mod interface;
pub mod epd7in5bc_v3;
pub mod datasheet;
