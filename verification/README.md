# second_screen

A screen-sharing library for a host and a client on a local network, verified
with Verus, and the desktop program around it.

- `src/` is the verified library:
  - `protocol` holds the client and host messages;
  - `frame` holds the length-prefixed framing of video packets;
  - `host` holds the host's listen plan, mDNS names and the per-client session
    that lets in only a client with the right password;
  - `client` holds the candidate addresses, the probe of a candidate, and the
    reading of the user's answers and of the host's reply;
  - `capture` holds capture settings (the frame rate shared so it can change
    while streaming), frame pacing and the choice of monitor;
  - `pixels` holds resizing, RGBA to RGB and ARGB conversion, and the JPEG
    encoding and decoding of frames through the `image` crate;
  - `gui` holds the front end's state and its reactions;
  - `address` and `text` hold address formatting and character-level text work.
- `app/` is the program: the window (eframe), the Tokio networking, mDNS,
  screen capture and the bincode encoding of messages.
- `tests/` runs the library on concrete values.
