//! The host's decisions: where to listen, what to announce, and how a
//! connecting client is let in or turned away.
use vstd::prelude::*;
use crate::address::{external_v4, push_dotted, spec_dotted, spec_external_v4, IpAddress};
use crate::protocol::{ClientMessage, HostMessage};
use crate::text::{lemma_string_views_push, chars_of, push_decimal_chars, push_str_chars, spec_decimal, spec_split, split_chars, string_of, string_views};

verus! {

/// The mDNS service type under which hosts announce themselves.
pub const SERVICE_TYPE: &'static str = "_2ndscreen._tcp.local.";

/// What the host reports to the user interface.
#[derive(Debug, Clone)]
pub enum HostEvent {
    /// A line for the log.
    Log(String),
    /// The address and port on which the host listens.
    ListenAddr { addr: String, port: u16 },
    /// A client was let in; its address.
    ClientConnected(String),
    /// The client went away.
    ClientDisconnected,
}

/// A `HostEvent` with its texts taken by their characters.
pub enum HostEventView {
    Log(Seq<char>),
    ListenAddr { addr: Seq<char>, port: u16 },
    ClientConnected(Seq<char>),
    ClientDisconnected,
}

impl View for HostEvent {
    type V = HostEventView;

    open spec fn view(&self) -> HostEventView {
        match self {
            HostEvent::Log(s) => HostEventView::Log(s@),
            HostEvent::ListenAddr { addr, port } => HostEventView::ListenAddr { addr: addr@, port: *port },
            HostEvent::ClientConnected(s) => HostEventView::ClientConnected(s@),
            HostEvent::ClientDisconnected => HostEventView::ClientDisconnected,
        }
    }
}

/// The views of a list of host events.
pub open spec fn event_views(v: Seq<HostEvent>) -> Seq<HostEventView> {
    v.map_values(|e: HostEvent| e@)
}

/// What the lookup of this machine's name gave.
#[derive(Debug)]
pub enum HostnameLookup {
    /// The name, readable as text.
    Name(String),
    /// A name that is not valid Unicode.
    NotUnicode,
    /// The lookup failed.
    Failed,
}

/// The name under which the host presents itself: the machine's name, else
/// "Host" where the name is no valid text, else "NieznanyHost" where the lookup failed.
pub fn resolve_hostname(lookup: HostnameLookup) -> (name: String)
    ensures
        match lookup {
            HostnameLookup::Name(s) => name@ == s@,
            HostnameLookup::NotUnicode => name@ == "Host"@,
            HostnameLookup::Failed => name@ == "NieznanyHost"@,
        },
{
    match lookup {
        HostnameLookup::Name(s) => s,
        HostnameLookup::NotUnicode => string_of(chars_of("Host").as_slice()),
        HostnameLookup::Failed => string_of(chars_of("NieznanyHost").as_slice()),
    }
}

/// The mDNS instance name: the host name followed by "_screen".
pub fn mdns_instance_name(hostname: &str) -> (name: String)
    ensures
        name@ == hostname@ + "_screen"@,
{
    let mut v = chars_of(hostname);
    push_str_chars(&mut v, "_screen");
    string_of(v.as_slice())
}

/// The mDNS host name: the host name followed by ".local.".
pub fn mdns_host_name(hostname: &str) -> (name: String)
    ensures
        name@ == hostname@ + ".local."@,
{
    let mut v = chars_of(hostname);
    push_str_chars(&mut v, ".local.");
    string_of(v.as_slice())
}

/// The addresses to bind, in the order tried. In local-only mode the host
/// listens on loopback only, so loopback with any port is the one address.
/// Otherwise: every interface on port 8080, then every interface on any port,
/// then loopback on any port.
pub open spec fn spec_bind_candidates(local_only: bool) -> Seq<Seq<char>> {
    if local_only {
        seq!["127.0.0.1:0"@]
    } else {
        seq!["0.0.0.0:8080"@, "0.0.0.0:0"@, "127.0.0.1:0"@]
    }
}

/// The addresses to bind, in the order tried; see `spec_bind_candidates`.
pub fn bind_candidates(local_only: bool) -> (addrs: Vec<String>)
    ensures
        string_views(addrs@) == spec_bind_candidates(local_only),
{
    let mut addrs: Vec<String> = Vec::new();
    if local_only {
        addrs.push(string_of(chars_of("127.0.0.1:0").as_slice()));
    } else {
        addrs.push(string_of(chars_of("0.0.0.0:8080").as_slice()));
        addrs.push(string_of(chars_of("0.0.0.0:0").as_slice()));
        addrs.push(string_of(chars_of("127.0.0.1:0").as_slice()));
    }
    assert(string_views(addrs@) =~= spec_bind_candidates(local_only));
    addrs
}

/// The log line for a listener bound at `attempt` in the bind order of
/// `spec_bind_candidates(local_only)`: none for the first address; for the
/// second, that the first address's port is taken; for the third, that only
/// loopback is listened on.
pub open spec fn spec_bind_note(local_only: bool, attempt: int) -> Option<Seq<char>> {
    if attempt == 0 {
        None
    } else if attempt == 1 {
        Some("Port "@ + spec_split(spec_bind_candidates(local_only)[0], ':').last() + " zajęty, używam losowego."@)
    } else {
        Some("Nie udało się nasłuchiwać na 0.0.0.0, używam tylko loopback."@)
    }
}

/// The log line for a listener bound at `attempt` in the bind order; `None`
/// where nothing is to be said.
pub fn bind_note(local_only: bool, attempt: usize) -> (note: Option<String>)
    requires
        attempt < spec_bind_candidates(local_only).len(),
    ensures
        match note {
            Some(n) => spec_bind_note(local_only, attempt as int) == Some(n@),
            None => spec_bind_note(local_only, attempt as int) is None,
        },
{
    if attempt == 0 {
        None
    } else if attempt == 1 {
        let binds = bind_candidates(local_only);
        let port = port_text(binds[0].as_str());
        let mut v = chars_of("Port ");
        push_str_chars(&mut v, port.as_str());
        push_str_chars(&mut v, " zajęty, używam losowego.");
        Some(string_of(v.as_slice()))
    } else {
        Some(string_of(chars_of("Nie udało się nasłuchiwać na 0.0.0.0, używam tylko loopback.").as_slice()))
    }
}

/// In local-only mode every address tried is a loopback address: none of them
/// listens on other interfaces.
pub proof fn lemma_local_only_binds_loopback(local_only: bool)
    requires
        local_only,
    ensures
        forall|i: int| 0 <= i < spec_bind_candidates(local_only).len() ==> #[trigger] spec_bind_candidates(local_only)[i] == "127.0.0.1:0"@,
{
}

/// The port part of a bind address: what follows its last ':' (all of it
/// where it has none), as `addr.split(':').last()` gives it.
pub fn port_text(addr: &str) -> (port: String)
    ensures
        port@ == spec_split(addr@, ':').last(),
{
    let pieces = split_chars(addr, ':');
    let n = pieces.len();
    assert(n >= 1) by {
        crate::text::lemma_split_len(addr@, ':');
    }
    string_of(pieces[n - 1].as_slice())
}

/// The address and port reported once the host listens: the bound address,
/// else "Nieznany adres" where it cannot be read; the bound port, else 8080.
pub fn listen_report(bound: Option<String>, port: Option<u16>) -> (report: (String, u16))
    ensures
        report.0@ == match bound {
            Some(a) => a@,
            None => "Nieznany adres"@,
        },
        report.1 == match port {
            Some(p) => p,
            None => 8080u16,
        },
{
    let addr = match bound {
        Some(a) => a,
        None => string_of(chars_of("Nieznany adres").as_slice()),
    };
    let p = match port {
        Some(p) => p,
        None => 8080,
    };
    (addr, p)
}

/// The addresses, as "a.b.c.d:port", of the external IPv4 interfaces, in order.
pub open spec fn spec_reachable_addresses(ifaces: Seq<IpAddress>, port: u16) -> Seq<Seq<char>>
    decreases ifaces.len(),
{
    if ifaces.len() == 0 {
        Seq::empty()
    } else {
        spec_reachable_addresses(ifaces.drop_last(), port) + match spec_external_v4(ifaces.last()) {
            Some(o) => seq![spec_dotted(o) + seq![':'] + spec_decimal(port as nat)],
            None => Seq::empty(),
        }
    }
}

/// Whether `t` is the address of one of the external IPv4 interfaces
/// followed by ':' and the decimal of `port`.
pub open spec fn is_interface_address(ifaces: Seq<IpAddress>, port: u16, t: Seq<char>) -> bool {
    exists|j: int|
        0 <= j < ifaces.len() && #[trigger] spec_external_v4(ifaces[j]) is Some
            && t == spec_dotted(spec_external_v4(ifaces[j])->0) + seq![':'] + spec_decimal(port as nat)
}

/// Every reachable address is an external IPv4 interface's address followed
/// by ':' and the decimal of the port listened on, and every external IPv4
/// interface's address with that port is among them.
pub proof fn lemma_reachable_addresses(ifaces: Seq<IpAddress>, port: u16)
    ensures
        forall|j: int| 0 <= j < ifaces.len() && #[trigger] spec_external_v4(ifaces[j]) is Some ==>
            spec_reachable_addresses(ifaces, port).contains(
                spec_dotted(spec_external_v4(ifaces[j])->0) + seq![':'] + spec_decimal(port as nat)),
        forall|i: int| 0 <= i < spec_reachable_addresses(ifaces, port).len() ==>
            is_interface_address(ifaces, port, #[trigger] spec_reachable_addresses(ifaces, port)[i]),
    decreases ifaces.len(),
{
    let r = spec_reachable_addresses(ifaces, port);
    if ifaces.len() > 0 {
        let p = ifaces.drop_last();
        let rp = spec_reachable_addresses(p, port);
        lemma_reachable_addresses(p, port);
        let last = ifaces.len() - 1;
        assert forall|j: int| 0 <= j < ifaces.len() && #[trigger] spec_external_v4(ifaces[j]) is Some implies
            r.contains(spec_dotted(spec_external_v4(ifaces[j])->0) + seq![':'] + spec_decimal(port as nat)) by {
            let t = spec_dotted(spec_external_v4(ifaces[j])->0) + seq![':'] + spec_decimal(port as nat);
            if j < last {
                assert(p[j] == ifaces[j]);
                assert(spec_external_v4(p[j]) is Some);
                let k = choose|k: int| 0 <= k < rp.len() && rp[k] == t;
                assert(r[k] == rp[k]);
            } else {
                assert(r[rp.len() as int] == t);
            }
        }
        assert forall|i: int| 0 <= i < r.len() implies is_interface_address(ifaces, port, #[trigger] r[i]) by {
            if i < rp.len() {
                assert(r[i] == rp[i]);
                assert(is_interface_address(p, port, rp[i]));
                let j = choose|j: int|
                    0 <= j < p.len() && #[trigger] spec_external_v4(p[j]) is Some
                        && rp[i] == spec_dotted(spec_external_v4(p[j])->0) + seq![':'] + spec_decimal(port as nat);
                assert(p[j] == ifaces[j]);
                assert(spec_external_v4(ifaces[j]) is Some);
            } else {
                assert(spec_external_v4(ifaces[last]) is Some);
            }
        }
    }
}

/// The addresses at which clients can reach the host on `port`: one per
/// external IPv4 interface.
pub fn reachable_addresses(interfaces: &Vec<IpAddress>, port: u16) -> (addrs: Vec<String>)
    ensures
        string_views(addrs@) == spec_reachable_addresses(interfaces@, port),
        forall|i: int| 0 <= i < addrs@.len() ==>
            is_interface_address(interfaces@, port, #[trigger] string_views(addrs@)[i]),
        forall|j: int| 0 <= j < interfaces@.len() && #[trigger] spec_external_v4(interfaces@[j]) is Some ==>
            string_views(addrs@).contains(
                spec_dotted(spec_external_v4(interfaces@[j])->0) + seq![':'] + spec_decimal(port as nat)),
{
    let mut addrs: Vec<String> = Vec::new();
    let n = interfaces.len();
    assert(interfaces@.take(0) =~= Seq::<IpAddress>::empty());
    assert(string_views(addrs@) =~= spec_reachable_addresses(interfaces@.take(0), port));
    for i in 0..n
        invariant
            n == interfaces@.len(),
            string_views(addrs@) == spec_reachable_addresses(interfaces@.take(i as int), port),
    {
        let ghost prefix = interfaces@.take(i + 1);
        assert(prefix.drop_last() =~= interfaces@.take(i as int));
        assert(prefix.last() == interfaces@[i as int]);
        match external_v4(&interfaces[i]) {
            Some(o) => {
                let mut v: Vec<char> = Vec::new();
                push_dotted(&mut v, &o);
                v.push(':');
                push_decimal_chars(&mut v, port as u64);
                assert(v@ =~= spec_dotted(o) + seq![':'] + spec_decimal(port as nat));
                let s = string_of(v.as_slice());
                let ghost before = addrs@;
                addrs.push(s);
                assert(addrs@ == before.push(s));
                proof {
                    lemma_string_views_push(before, s);
                }
                assert(string_views(addrs@) =~= spec_reachable_addresses(prefix, port));
            },
            None => {
                assert(string_views(addrs@) =~= spec_reachable_addresses(prefix, port));
            },
        }
    }
    assert(interfaces@.take(n as int) =~= interfaces@);
    proof {
        lemma_reachable_addresses(interfaces@, port);
    }
    addrs
}


/// Where a client's session with the host stands.
#[derive(Debug, Clone, Copy, PartialEq, Eq)]
pub enum SessionPhase {
    /// Waiting for the client's first message.
    AwaitingRequest,
    /// The password was right; the acceptance is being sent.
    Accepting,
    /// The password was wrong; the refusal is being sent.
    Rejecting,
    /// The client is let in and the screen is streamed to it.
    Streaming,
    /// The session is over.
    Closed,
}

/// What happened on a client's connection.
#[derive(Debug)]
pub enum SessionEvent {
    /// The first read failed or the client closed the connection before sending anything.
    ReadFailed,
    /// The client's first message.
    Received(ClientMessage),
    /// The first bytes are no client message.
    Malformed,
    /// The reply was encoded and written.
    ReplySent,
    /// The reply could not be encoded or written.
    ReplyFailed,
    /// The stream to the client ended.
    StreamEnded,
}

/// The phase that follows `phase` on `event`, for a host whose password is `password`.
pub open spec fn spec_next_phase(password: Seq<char>, phase: SessionPhase, event: SessionEvent) -> SessionPhase {
    match (phase, event) {
        (SessionPhase::AwaitingRequest, SessionEvent::Received(ClientMessage::Autoryzacja { haslo })) =>
            if haslo@ == password { SessionPhase::Accepting } else { SessionPhase::Rejecting },
        (SessionPhase::AwaitingRequest, _) => SessionPhase::Closed,
        (SessionPhase::Accepting, SessionEvent::ReplySent) => SessionPhase::Streaming,
        (SessionPhase::Accepting, SessionEvent::ReplyFailed) => SessionPhase::Closed,
        (SessionPhase::Rejecting, SessionEvent::ReplySent) => SessionPhase::Closed,
        (SessionPhase::Rejecting, SessionEvent::ReplyFailed) => SessionPhase::Closed,
        (SessionPhase::Streaming, SessionEvent::StreamEnded) => SessionPhase::Closed,
        _ => phase,
    }
}

/// The phase reached from `phase` after the events in order.
pub open spec fn spec_run(password: Seq<char>, phase: SessionPhase, events: Seq<SessionEvent>) -> SessionPhase
    decreases events.len(),
{
    if events.len() == 0 {
        phase
    } else {
        spec_next_phase(password, spec_run(password, phase, events.drop_last()), events.last())
    }
}

/// Whether an event is a request for access with the password `password`.
pub open spec fn is_right_request(password: Seq<char>, e: SessionEvent) -> bool {
    e matches SessionEvent::Received(ClientMessage::Autoryzacja { haslo }) && haslo@ == password
}

/// What the host is to do after an event of a client's session.
#[derive(Debug)]
pub struct SessionAction {
    /// The message to send to the client, if any.
    pub reply: Option<HostMessage>,
    /// What to report to the user interface, in order.
    pub events: Vec<HostEvent>,
    /// Whether to start streaming the screen to the client.
    pub start_stream: bool,
}

/// A client's session with the host, from its first message to its end.
pub struct HostSession {
    password: String,
    peer: String,
    phase: SessionPhase,
}

impl HostSession {
    /// The host's password.
    pub closed spec fn password(&self) -> Seq<char> {
        self.password@
    }

    /// The client's address.
    pub closed spec fn peer(&self) -> Seq<char> {
        self.peer@
    }

    /// The session's phase.
    pub closed spec fn phase(&self) -> SessionPhase {
        self.phase
    }

    /// A session with a newly connected client at `peer`, for a host whose password is `password`.
    pub fn new(password: String, peer: String) -> (s: HostSession)
        ensures
            s.password() == password@,
            s.peer() == peer@,
            s.phase() == SessionPhase::AwaitingRequest,
    {
        HostSession { password, peer, phase: SessionPhase::AwaitingRequest }
    }

    /// The session's phase.
    pub fn current_phase(&self) -> (p: SessionPhase)
        ensures
            p == self.phase(),
    {
        self.phase
    }

    /// Takes in what happened on the connection and says what to do next:
    /// a first message that asks for access with the right password is answered
    /// with an acceptance and, once that is written, the stream starts; one with
    /// a wrong password is answered with a refusal; anything else ends the
    /// session. Each way that ends the session before streaming reports the
    /// client's departure; the end of a stream reports nothing.
    pub fn step(&mut self, event: SessionEvent) -> (action: SessionAction)
        ensures
            final(self).password() == old(self).password(),
            final(self).peer() == old(self).peer(),
            final(self).phase() == spec_next_phase(old(self).password(), old(self).phase(), event),
            match (old(self).phase(), event) {
                (SessionPhase::AwaitingRequest, SessionEvent::Received(ClientMessage::Autoryzacja { haslo })) =>
                    if haslo@ == old(self).password() {
                        &&& action.reply matches Some(HostMessage::AutoryzacjaOk)
                        &&& event_views(action.events@) == seq![HostEventView::Log("Hasło poprawne!"@)]
                        &&& !action.start_stream
                    } else {
                        &&& action.reply matches Some(HostMessage::AutoryzacjaBlad)
                        &&& event_views(action.events@) == seq![HostEventView::Log("BŁĄD: Złe hasło."@)]
                        &&& !action.start_stream
                    },
                (SessionPhase::AwaitingRequest, SessionEvent::ReadFailed) => {
                    &&& action.reply is None
                    &&& event_views(action.events@) == seq![
                        HostEventView::Log("Klient rozłączył się przed autoryzacją."@),
                        HostEventView::ClientDisconnected,
                    ]
                    &&& !action.start_stream
                },
                (SessionPhase::AwaitingRequest, _) => {
                    &&& action.reply is None
                    &&& event_views(action.events@) == seq![
                        HostEventView::Log("Nieprawidłowa wiadomość od klienta."@),
                        HostEventView::ClientDisconnected,
                    ]
                    &&& !action.start_stream
                },
                (SessionPhase::Accepting, SessionEvent::ReplySent) => {
                    &&& action.reply is None
                    &&& event_views(action.events@) == seq![HostEventView::ClientConnected(old(self).peer())]
                    &&& action.start_stream
                },
                (SessionPhase::Accepting, SessionEvent::ReplyFailed)
                | (SessionPhase::Rejecting, SessionEvent::ReplySent)
                | (SessionPhase::Rejecting, SessionEvent::ReplyFailed) => {
                    &&& action.reply is None
                    &&& event_views(action.events@) == seq![HostEventView::ClientDisconnected]
                    &&& !action.start_stream
                },
                _ => {
                    &&& action.reply is None
                    &&& action.events@.len() == 0
                    &&& !action.start_stream
                },
            },
    {
        let mut events: Vec<HostEvent> = Vec::new();
        match (self.phase, &event) {
            (SessionPhase::AwaitingRequest, SessionEvent::Received(ClientMessage::Autoryzacja { haslo })) => {
                if *haslo == self.password {
                    events.push(log_line("Hasło poprawne!"));
                    self.phase = SessionPhase::Accepting;
                    assert(event_views(events@) =~= seq![HostEventView::Log("Hasło poprawne!"@)]);
                    SessionAction { reply: Some(HostMessage::AutoryzacjaOk), events, start_stream: false }
                } else {
                    events.push(log_line("BŁĄD: Złe hasło."));
                    self.phase = SessionPhase::Rejecting;
                    assert(event_views(events@) =~= seq![HostEventView::Log("BŁĄD: Złe hasło."@)]);
                    SessionAction { reply: Some(HostMessage::AutoryzacjaBlad), events, start_stream: false }
                }
            },
            (SessionPhase::AwaitingRequest, SessionEvent::ReadFailed) => {
                events.push(log_line("Klient rozłączył się przed autoryzacją."));
                events.push(HostEvent::ClientDisconnected);
                self.phase = SessionPhase::Closed;
                assert(event_views(events@) =~= seq![
                    HostEventView::Log("Klient rozłączył się przed autoryzacją."@),
                    HostEventView::ClientDisconnected,
                ]);
                SessionAction { reply: None, events, start_stream: false }
            },
            (SessionPhase::AwaitingRequest, _) => {
                events.push(log_line("Nieprawidłowa wiadomość od klienta."));
                events.push(HostEvent::ClientDisconnected);
                self.phase = SessionPhase::Closed;
                assert(event_views(events@) =~= seq![
                    HostEventView::Log("Nieprawidłowa wiadomość od klienta."@),
                    HostEventView::ClientDisconnected,
                ]);
                SessionAction { reply: None, events, start_stream: false }
            },
            (SessionPhase::Accepting, SessionEvent::ReplySent) => {
                let peer = string_of(chars_of(self.peer.as_str()).as_slice());
                events.push(HostEvent::ClientConnected(peer));
                self.phase = SessionPhase::Streaming;
                assert(event_views(events@) =~= seq![HostEventView::ClientConnected(old(self).peer())]);
                SessionAction { reply: None, events, start_stream: true }
            },
            (SessionPhase::Accepting, SessionEvent::ReplyFailed)
            | (SessionPhase::Rejecting, SessionEvent::ReplySent)
            | (SessionPhase::Rejecting, SessionEvent::ReplyFailed) => {
                events.push(HostEvent::ClientDisconnected);
                self.phase = SessionPhase::Closed;
                assert(event_views(events@) =~= seq![HostEventView::ClientDisconnected]);
                SessionAction { reply: None, events, start_stream: false }
            },
            (SessionPhase::Streaming, SessionEvent::StreamEnded) => {
                self.phase = SessionPhase::Closed;
                SessionAction { reply: None, events, start_stream: false }
            },
            _ => SessionAction { reply: None, events, start_stream: false },
        }
    }
}

fn log_line(text: &str) -> (e: HostEvent)
    ensures
        e@ == HostEventView::Log(text@),
{
    HostEvent::Log(string_of(chars_of(text).as_slice()))
}

/// Once a session has seen an event it never waits for the first message again.
proof fn lemma_run_leaves_awaiting(password: Seq<char>, events: Seq<SessionEvent>)
    requires
        events.len() > 0,
    ensures
        spec_run(password, SessionPhase::AwaitingRequest, events) != SessionPhase::AwaitingRequest,
{
}

/// A client is streamed to, or is being sent the acceptance, only if the very
/// first thing it sent was a request for access with the host's password:
/// whatever the events of a session, if they bring it from its start to
/// `Accepting` or `Streaming`, the first of them is such a request.
pub proof fn lemma_stream_needs_password(password: Seq<char>, events: Seq<SessionEvent>)
    requires
        spec_run(password, SessionPhase::AwaitingRequest, events) == SessionPhase::Accepting
            || spec_run(password, SessionPhase::AwaitingRequest, events) == SessionPhase::Streaming,
    ensures
        events.len() > 0,
        is_right_request(password, events[0]),
    decreases events.len(),
{
    let prev = spec_run(password, SessionPhase::AwaitingRequest, events.drop_last());
    if events.len() == 0 {
    } else if prev == SessionPhase::Accepting || prev == SessionPhase::Streaming {
        lemma_stream_needs_password(password, events.drop_last());
        assert(events[0] == events.drop_last()[0]);
    } else {
        if events.drop_last().len() > 0 {
            lemma_run_leaves_awaiting(password, events.drop_last());
        }
        assert(events.drop_last().len() == 0);
        assert(events[0] == events.last());
    }
}

/// A session that opens with a request for access with a wrong password is
/// never streamed to: after any events that follow, it is refusing or closed.
pub proof fn lemma_wrong_password_refused(password: Seq<char>, events: Seq<SessionEvent>)
    requires
        events.len() > 0,
        events[0] matches SessionEvent::Received(ClientMessage::Autoryzacja { haslo }) && haslo@ != password,
    ensures
        spec_run(password, SessionPhase::AwaitingRequest, events) == SessionPhase::Rejecting
            || spec_run(password, SessionPhase::AwaitingRequest, events) == SessionPhase::Closed,
    decreases events.len(),
{
    if events.len() > 1 {
        assert(events.drop_last()[0] == events[0]);
        lemma_wrong_password_refused(password, events.drop_last());
    } else {
        assert(events.drop_last().len() == 0);
        assert(spec_run(password, SessionPhase::AwaitingRequest, events.drop_last()) == SessionPhase::AwaitingRequest);
        assert(events.last() == events[0]);
    }
}

} // verus!
