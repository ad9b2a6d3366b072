//! The decisions of an audio and CAT bridge for the truSDX transceiver.
//!
//! Nothing here touches a serial port, a socket or a sound card. Every function takes what was
//! read as plain values and says what is to be done next; the program under `app/` does it.

pub mod audio;
pub mod bridge;
pub mod clients;
pub mod commands;
pub mod demux;
pub mod device;
pub mod gui;
pub mod laws;
pub mod monitor;
pub mod number;
pub mod rigctl;
pub mod shutdown;
pub mod text;
pub mod trusdx;
pub mod utf8;
