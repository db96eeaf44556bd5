//! Minitel driver library.
//!
//! Talk to a real Minitel terminal (1B and compatibles) through a USB-UART
//! adapter plugged into the DIN peripheral socket.
//!
//! ```text
//!   [link]      serial link decisions (speed negotiation, reconnection back-off)
//!     |
//!   [protocol]  raw Videotex sequences (cursor, row 0, keyboard options)
//!   [videotex]  text encoding (accents, word wrap, G1 mosaic)
//!   [constants] protocol codes (C0, G0/G1/G2, function keys)
//!     |
//!   [input]     keyboard stream decoding (keys, arrows, protocol acks)
//!   [edit]      multi-line input editor projected on the 40x24 grid
//!     |
//!   [backend]   pure parts of the minimal HTTP client to *your* server
//! ```
#![allow(unused_imports)]

pub mod backend;
pub mod chars;
pub mod chat;
pub mod constants;
pub mod control;
pub mod demo;
pub mod edit;
pub mod input;
pub mod link;
pub mod protocol;
pub mod remote;
pub mod session;
pub mod videotex;
pub mod watch;
