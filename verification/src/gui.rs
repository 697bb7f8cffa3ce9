//! The state of the desktop front end and how it reacts to the user and to
//! the host and client tasks.
use vstd::prelude::*;
use crate::capture::CaptureSettings;
use crate::host::HostEvent;
use crate::text::{chars_of, push_decimal_chars, push_str_chars, spec_decimal, spec_trim, string_of, trim_chars};

verus! {

/// The screen that the front end shows.
#[derive(Debug, Clone, Copy, PartialEq, Eq)]
pub enum Screen {
    Menu,
    HostSetup,
    HostRunning,
    ClientSetup,
    ClientStreaming,
}

/// What the client task reports to the front end.
#[derive(Debug)]
pub enum ClientEvent {
    /// A line for the log.
    Log(String),
    /// Discovery ended with these hosts, by name and address.
    HostsFound(Vec<(String, String)>),
    /// The host let the client in.
    Connected,
    /// Connecting or the request for access failed, with the reason.
    AuthFailed(String),
    /// A decoded video frame, as RGBA bytes.
    Frame { rgba: Vec<u8>, width: u32, height: u32 },
    /// The stream ended.
    Disconnected,
}

/// What the front end is to do with its video texture after a client event.
#[derive(Debug)]
pub enum FrameEffect {
    /// Nothing.
    Keep,
    /// Show these pixels: in the texture as it is where `reuse`, else in a
    /// texture made anew.
    Show { rgba: Vec<u8>, width: u32, height: u32, reuse: bool },
    /// Drop the texture.
    Drop,
}

/// When the front end is to draw again.
#[derive(Debug, Clone, Copy, PartialEq, Eq)]
pub enum Repaint {
    /// At once, continuously.
    Continuous,
    /// After this many milliseconds, or on input.
    AfterMillis(u64),
}

/// The front end's state.
#[derive(Debug)]
pub struct AppModel {
    pub screen: Screen,
    pub host_password: String,
    pub host_width: u32,
    pub host_height: u32,
    pub host_fps: u32,
    pub host_local_only: bool,
    pub host_log: Vec<String>,
    pub host_listen_addr: Option<String>,
    pub host_client: Option<String>,
    pub client_local_only: bool,
    pub client_discovering: bool,
    pub client_hosts: Vec<(String, String)>,
    pub client_selected_addr: String,
    pub client_manual_addr: String,
    pub client_password: String,
    pub client_log: Vec<String>,
    pub client_error: Option<String>,
    pub client_frame_size: (u32, u32),
}

/// The text shown for the address on which the host listens: "addr (port N)".
pub open spec fn spec_listen_label(addr: Seq<char>, port: u16) -> Seq<char> {
    addr + " (port "@ + spec_decimal(port as nat) + ")"@
}

/// The view of an optional string.
pub open spec fn opt_text(o: Option<String>) -> Option<Seq<char>> {
    match o {
        Some(s) => Some(s@),
        None => None,
    }
}

/// The host side of two states is the same: settings, log, listen address and client.
pub open spec fn host_side_eq(a: AppModel, b: AppModel) -> bool {
    &&& a.host_password@ == b.host_password@
    &&& a.host_width == b.host_width
    &&& a.host_height == b.host_height
    &&& a.host_fps == b.host_fps
    &&& a.host_local_only == b.host_local_only
    &&& a.host_log@ == b.host_log@
    &&& opt_text(a.host_listen_addr) == opt_text(b.host_listen_addr)
    &&& opt_text(a.host_client) == opt_text(b.host_client)
}

/// The client side of two states is the same, but for its log, its host list
/// and its error.
pub open spec fn client_form_eq(a: AppModel, b: AppModel) -> bool {
    &&& a.client_local_only == b.client_local_only
    &&& a.client_selected_addr@ == b.client_selected_addr@
    &&& a.client_manual_addr@ == b.client_manual_addr@
    &&& a.client_password@ == b.client_password@
    &&& a.client_frame_size == b.client_frame_size
}

/// The client log of two states is the same.
pub open spec fn same_log(a: AppModel, b: AppModel) -> bool {
    a.client_log@ == b.client_log@
}

/// The client error of two states is the same.
pub open spec fn same_error(a: AppModel, b: AppModel) -> bool {
    opt_text(a.client_error) == opt_text(b.client_error)
}

/// The host list and the discovering flag of two states are the same.
pub open spec fn same_hosts(a: AppModel, b: AppModel) -> bool {
    &&& a.client_hosts@ == b.client_hosts@
    &&& a.client_discovering == b.client_discovering
}

/// The client side of two states is the same.
pub open spec fn client_side_eq(a: AppModel, b: AppModel) -> bool {
    &&& client_form_eq(a, b)
    &&& a.client_discovering == b.client_discovering
    &&& a.client_hosts@ == b.client_hosts@
    &&& a.client_log@ == b.client_log@
    &&& opt_text(a.client_error) == opt_text(b.client_error)
}

fn text(s: &str) -> (r: String)
    ensures
        r@ == s@,
{
    string_of(chars_of(s).as_slice())
}

impl AppModel {
    /// The state at start: the menu, empty fields, 1280 x 720 at 30 frames per second.
    pub fn new() -> (m: AppModel)
        ensures
            m.screen == Screen::Menu,
            m.host_password@.len() == 0,
            m.host_width == 1280,
            m.host_height == 720,
            m.host_fps == 30,
            !m.host_local_only,
            m.host_log@.len() == 0,
            m.host_listen_addr is None,
            m.host_client is None,
            !m.client_local_only,
            !m.client_discovering,
            m.client_hosts@.len() == 0,
            m.client_selected_addr@.len() == 0,
            m.client_manual_addr@.len() == 0,
            m.client_password@.len() == 0,
            m.client_log@.len() == 0,
            m.client_error is None,
            m.client_frame_size == (0u32, 0u32),
    {
        AppModel {
            screen: Screen::Menu,
            host_password: String::new(),
            host_width: 1280,
            host_height: 720,
            host_fps: 30,
            host_local_only: false,
            host_log: Vec::new(),
            host_listen_addr: None,
            host_client: None,
            client_local_only: false,
            client_discovering: false,
            client_hosts: Vec::new(),
            client_selected_addr: String::new(),
            client_manual_addr: String::new(),
            client_password: String::new(),
            client_log: Vec::new(),
            client_error: None,
            client_frame_size: (0, 0),
        }
    }

    /// Takes in a report of the host task: a log line is appended, the listen
    /// address is shown as "addr (port N)", a connected client is shown, a
    /// departed one is no longer shown.
    pub fn apply_host_event(&mut self, event: HostEvent)
        ensures
            match event {
                HostEvent::Log(msg) => final(self).host_log@ == old(self).host_log@.push(msg)
                    && final(self).host_listen_addr == old(self).host_listen_addr
                    && final(self).host_client == old(self).host_client,
                HostEvent::ListenAddr { addr, port } => final(self).host_log@ == old(self).host_log@
                    && opt_text(final(self).host_listen_addr) == Some(spec_listen_label(addr@, port))
                    && final(self).host_client == old(self).host_client,
                HostEvent::ClientConnected(peer) => final(self).host_log@ == old(self).host_log@
                    && final(self).host_listen_addr == old(self).host_listen_addr
                    && final(self).host_client == Some(peer),
                HostEvent::ClientDisconnected => final(self).host_log@ == old(self).host_log@
                    && final(self).host_listen_addr == old(self).host_listen_addr
                    && final(self).host_client is None,
            },
            final(self).screen == old(self).screen,
            client_side_eq(*final(self), *old(self)),
            final(self).host_password@ == old(self).host_password@,
            final(self).host_width == old(self).host_width,
            final(self).host_height == old(self).host_height,
            final(self).host_fps == old(self).host_fps,
            final(self).host_local_only == old(self).host_local_only,
    {
        match event {
            HostEvent::Log(msg) => self.host_log.push(msg),
            HostEvent::ListenAddr { addr, port } => {
                let mut v = chars_of(addr.as_str());
                push_str_chars(&mut v, " (port ");
                push_decimal_chars(&mut v, port as u64);
                push_str_chars(&mut v, ")");
                self.host_listen_addr = Some(string_of(v.as_slice()));
            },
            HostEvent::ClientConnected(peer) => self.host_client = Some(peer),
            HostEvent::ClientDisconnected => self.host_client = None,
        }
    }

    /// Takes in a report of the client task, given whether a video texture
    /// exists, and says what to do with the texture. A frame reuses the texture
    /// only where one exists and the frame's size is the last frame's size and
    /// not 0 x 0; a departure returns to the client setup screen.
    pub fn apply_client_event(&mut self, event: ClientEvent, has_texture: bool) -> (effect: FrameEffect)
        ensures
            match event {
                ClientEvent::Log(msg) => {
                    &&& final(self).client_log@ == old(self).client_log@.push(msg)
                    &&& final(self).screen == old(self).screen
                    &&& effect is Keep
                    &&& client_form_eq(*final(self), *old(self))
                    &&& same_error(*final(self), *old(self))
                    &&& same_hosts(*final(self), *old(self))
                },
                ClientEvent::HostsFound(hosts) => {
                    &&& final(self).client_hosts@ == hosts@
                    &&& !final(self).client_discovering
                    &&& final(self).screen == old(self).screen
                    &&& effect is Keep
                    &&& client_form_eq(*final(self), *old(self))
                    &&& same_log(*final(self), *old(self))
                    &&& same_error(*final(self), *old(self))
                },
                ClientEvent::Connected => {
                    &&& final(self).client_error is None
                    &&& final(self).screen == Screen::ClientStreaming
                    &&& effect is Keep
                    &&& client_form_eq(*final(self), *old(self))
                    &&& same_log(*final(self), *old(self))
                    &&& same_hosts(*final(self), *old(self))
                },
                ClientEvent::AuthFailed(reason) => {
                    &&& final(self).client_error == Some(reason)
                    &&& final(self).screen == old(self).screen
                    &&& effect is Keep
                    &&& client_form_eq(*final(self), *old(self))
                    &&& same_log(*final(self), *old(self))
                    &&& same_hosts(*final(self), *old(self))
                },
                ClientEvent::Frame { rgba, width, height } => {
                    &&& final(self).client_frame_size == (width, height)
                    &&& final(self).screen == old(self).screen
                    &&& effect matches FrameEffect::Show { rgba: r, width: w, height: h, reuse }
                    &&& r == rgba && w == width && h == height
                    &&& reuse == (has_texture && old(self).client_frame_size == (width, height)
                        && old(self).client_frame_size != (0u32, 0u32))
                    &&& final(self).client_local_only == old(self).client_local_only
                    &&& final(self).client_selected_addr@ == old(self).client_selected_addr@
                    &&& final(self).client_manual_addr@ == old(self).client_manual_addr@
                    &&& final(self).client_password@ == old(self).client_password@
                    &&& same_log(*final(self), *old(self))
                    &&& same_error(*final(self), *old(self))
                    &&& same_hosts(*final(self), *old(self))
                },
                ClientEvent::Disconnected => {
                    &&& final(self).client_log@ == old(self).client_log@.push(final(self).client_log@.last())
                    &&& final(self).client_log@.last()@ == "Rozłączono."@
                    &&& final(self).screen == Screen::ClientSetup
                    &&& effect is Drop
                    &&& client_form_eq(*final(self), *old(self))
                    &&& same_error(*final(self), *old(self))
                    &&& same_hosts(*final(self), *old(self))
                },
            },
            host_side_eq(*final(self), *old(self)),
    {
        match event {
            ClientEvent::Log(msg) => {
                self.client_log.push(msg);
                FrameEffect::Keep
            },
            ClientEvent::HostsFound(hosts) => {
                self.client_hosts = hosts;
                self.client_discovering = false;
                FrameEffect::Keep
            },
            ClientEvent::Connected => {
                self.client_error = None;
                self.screen = Screen::ClientStreaming;
                FrameEffect::Keep
            },
            ClientEvent::AuthFailed(reason) => {
                self.client_error = Some(reason);
                FrameEffect::Keep
            },
            ClientEvent::Frame { rgba, width, height } => {
                let old_size = self.client_frame_size;
                let reuse = has_texture && old_size.0 == width && old_size.1 == height
                    && !(old_size.0 == 0 && old_size.1 == 0);
                self.client_frame_size = (width, height);
                FrameEffect::Show { rgba, width, height, reuse }
            },
            ClientEvent::Disconnected => {
                self.client_log.push(text("Rozłączono."));
                self.screen = Screen::ClientSetup;
                FrameEffect::Drop
            },
        }
    }

    /// Starts the host: clears the log, the listen address and the client,
    /// shows the running host, and gives the settings, password and mode to
    /// start it with.
    pub fn start_host(&mut self) -> (launch: (CaptureSettings, String, bool))
        ensures
            launch.0 == (CaptureSettings { width: old(self).host_width, height: old(self).host_height, fps: old(self).host_fps }),
            launch.1@ == old(self).host_password@,
            launch.2 == old(self).host_local_only,
            final(self).host_log@.len() == 0,
            final(self).host_listen_addr is None,
            final(self).host_client is None,
            final(self).screen == Screen::HostRunning,
            final(self).host_password@ == old(self).host_password@,
            final(self).host_width == old(self).host_width,
            final(self).host_height == old(self).host_height,
            final(self).host_fps == old(self).host_fps,
            final(self).host_local_only == old(self).host_local_only,
            client_side_eq(*final(self), *old(self)),
    {
        self.host_log = Vec::new();
        self.host_listen_addr = None;
        self.host_client = None;
        let cfg = CaptureSettings { width: self.host_width, height: self.host_height, fps: self.host_fps };
        let password = text(self.host_password.as_str());
        self.screen = Screen::HostRunning;
        (cfg, password, self.host_local_only)
    }

    /// Stops the host: no client and no listen address are shown any more, and
    /// the menu comes back.
    pub fn stop_host(&mut self)
        ensures
            final(self).host_client is None,
            final(self).host_listen_addr is None,
            final(self).screen == Screen::Menu,
            final(self).host_log@ == old(self).host_log@,
            final(self).host_password@ == old(self).host_password@,
            final(self).host_width == old(self).host_width,
            final(self).host_height == old(self).host_height,
            final(self).host_fps == old(self).host_fps,
            final(self).host_local_only == old(self).host_local_only,
            client_side_eq(*final(self), *old(self)),
    {
        self.host_client = None;
        self.host_listen_addr = None;
        self.screen = Screen::Menu;
    }

    /// Starts looking for hosts: the list and the log are cleared, and the
    /// local-only mode to look in is given.
    pub fn discover_hosts(&mut self) -> (local_only: bool)
        ensures
            local_only == old(self).client_local_only,
            final(self).client_hosts@.len() == 0,
            final(self).client_discovering,
            final(self).client_log@.len() == 0,
            final(self).screen == old(self).screen,
            host_side_eq(*final(self), *old(self)),
            client_form_eq(*final(self), *old(self)),
            opt_text(final(self).client_error) == opt_text(old(self).client_error),
    {
        self.client_hosts = Vec::new();
        self.client_discovering = true;
        self.client_log = Vec::new();
        self.client_local_only
    }

    /// Connects to the host typed or picked: the error is cleared, and the
    /// address, trimmed, and the password are given.
    pub fn connect_to_host(&mut self) -> (target: (String, String))
        ensures
            target.0@ == spec_trim(old(self).client_manual_addr@),
            target.1@ == old(self).client_password@,
            final(self).client_error is None,
            final(self).screen == old(self).screen,
            host_side_eq(*final(self), *old(self)),
            client_form_eq(*final(self), *old(self)),
            final(self).client_discovering == old(self).client_discovering,
            final(self).client_hosts@ == old(self).client_hosts@,
            final(self).client_log@ == old(self).client_log@,
    {
        self.client_error = None;
        let addr = string_of(trim_chars(self.client_manual_addr.as_str()).as_slice());
        let password = text(self.client_password.as_str());
        (addr, password)
    }

    /// Disconnects from the host: the host list is cleared and the client
    /// setup screen comes back.
    pub fn disconnect_client(&mut self)
        ensures
            final(self).client_hosts@.len() == 0,
            final(self).screen == Screen::ClientSetup,
            host_side_eq(*final(self), *old(self)),
            client_form_eq(*final(self), *old(self)),
            final(self).client_discovering == old(self).client_discovering,
            final(self).client_log@ == old(self).client_log@,
            opt_text(final(self).client_error) == opt_text(old(self).client_error),
    {
        self.client_hosts = Vec::new();
        self.screen = Screen::ClientSetup;
    }

    /// Picks a listed host: its address becomes the selected and the typed one.
    pub fn select_host(&mut self, addr: &str)
        ensures
            final(self).client_selected_addr@ == addr@,
            final(self).client_manual_addr@ == addr@,
            final(self).screen == old(self).screen,
            host_side_eq(*final(self), *old(self)),
            final(self).client_local_only == old(self).client_local_only,
            final(self).client_password@ == old(self).client_password@,
            final(self).client_frame_size == old(self).client_frame_size,
            final(self).client_discovering == old(self).client_discovering,
            final(self).client_hosts@ == old(self).client_hosts@,
            final(self).client_log@ == old(self).client_log@,
            opt_text(final(self).client_error) == opt_text(old(self).client_error),
    {
        self.client_selected_addr = text(addr);
        self.client_manual_addr = text(addr);
    }

    /// Whether `addr` is the selected host's address.
    pub fn is_selected(&self, addr: &str) -> (b: bool)
        ensures
            b == (self.client_selected_addr@ == addr@),
    {
        let a = text(addr);
        self.client_selected_addr == a
    }

    /// Whether the host may be started: only with a password that is not blank.
    pub fn can_start_host(&self) -> (b: bool)
        ensures
            b == (spec_trim(self.host_password@).len() > 0),
    {
        trim_chars(self.host_password.as_str()).len() > 0
    }

    /// Whether a connection may be made: only to an address that is not blank.
    pub fn can_connect(&self) -> (b: bool)
        ensures
            b == (spec_trim(self.client_manual_addr@).len() > 0),
    {
        trim_chars(self.client_manual_addr.as_str()).len() > 0
    }

    /// Goes to another screen, as the menu's and the back buttons do.
    pub fn show(&mut self, screen: Screen)
        ensures
            final(self).screen == screen,
            host_side_eq(*final(self), *old(self)),
            client_side_eq(*final(self), *old(self)),
    {
        self.screen = screen;
    }

    /// When to draw again: continuously while streaming or hosting, since data
    /// come from the tasks and not from input; else after 200 milliseconds.
    pub fn repaint(&self) -> (r: Repaint)
        ensures
            (self.screen == Screen::ClientStreaming || self.screen == Screen::HostRunning) ==> r == Repaint::Continuous,
            !(self.screen == Screen::ClientStreaming || self.screen == Screen::HostRunning) ==> r == Repaint::AfterMillis(200),
    {
        match self.screen {
            Screen::ClientStreaming | Screen::HostRunning => Repaint::Continuous,
            _ => Repaint::AfterMillis(200),
        }
    }
}

} // verus!
