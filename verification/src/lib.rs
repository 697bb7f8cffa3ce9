//! A screen-sharing protocol library: message framing, pixel conversion,
//! session decisions and the state of the desktop front end.

pub mod address;
pub mod capture;
pub mod client;
pub mod frame;
pub mod gui;
pub mod host;
pub mod pixels;
pub mod protocol;
pub mod text;
