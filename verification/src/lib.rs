//! Control plane for a 9x34 LED panel shared by up to four applets.

pub mod applet;
pub mod config;
pub mod connection;
pub mod framing;
pub mod laws;
pub mod panel;
pub mod slots;
pub mod status;
