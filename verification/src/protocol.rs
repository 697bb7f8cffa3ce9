//! The messages that the client and the host exchange.
use vstd::prelude::*;

verus! {

/// A message that the client sends to the host.
#[derive(Debug)]
pub enum ClientMessage {
    /// Asks for access with a password.
    Autoryzacja { haslo: String },
    /// Asks for another resolution and frame rate.
    ZmienKonfiguracje { rozdzielczosc: (u32, u32), fps: u32 },
    /// Moves the pointer.
    RuchMyszki { x: i32, y: i32 },
    /// Presses or releases a mouse button.
    KlikniecieMyszki { przycisk: String, wcisniety: bool },
    /// Presses or releases a key.
    Klawisz { kod: u32, wcisniety: bool },
}

/// A message that the host sends to the client.
#[derive(Debug)]
pub enum HostMessage {
    /// The password was right.
    AutoryzacjaOk,
    /// The password was wrong.
    AutoryzacjaBlad,
    /// A frame of the screen, as a JPEG image.
    KlatkaObrazu { dane: Vec<u8> },
}

} // verus!
