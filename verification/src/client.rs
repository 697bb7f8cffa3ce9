//! The client's decisions: which addresses to try, how to read the user's
//! answers, and what the host's reply means.
use vstd::prelude::*;
use crate::address::{
    external_v4, push_dotted3, spec_dotted3, spec_external_v4, IpAddress,
};
use crate::protocol::{ClientMessage, HostMessage};
use crate::address::{socket_address, spec_socket_address};
use crate::text::{
    eq_ignore_ascii_case, parse_usize, spec_eq_ignore_ascii_case, spec_parse_usize,
    chars_of, insert_sorted_unique, push_str_chars, push_decimal_chars, spec_decimal, spec_split,
    spec_trim, split_chars, string_of, string_views, strictly_sorted, trim_chars, trim_slice,
    views,
};

verus! {

/// The last octets tried on the /24 network of each external IPv4 interface.
pub open spec fn spec_host_suffixes() -> Seq<u8> {
    seq![1u8, 2, 3, 5, 10, 20, 50, 100, 101, 200, 254]
}

/// The addresses guessed on the /24 network of `o`, one per suffix.
pub open spec fn spec_subnet_guesses(o: [u8; 4]) -> Seq<Seq<char>> {
    spec_host_suffixes().map_values(|k: u8| spec_dotted3(o) + seq!['.'] + spec_decimal(k as nat))
}

/// The guesses for all interfaces, in order; loopback and IPv6 addresses give none.
pub open spec fn spec_interface_guesses(ifaces: Seq<IpAddress>) -> Seq<Seq<char>>
    decreases ifaces.len(),
{
    if ifaces.len() == 0 {
        Seq::empty()
    } else {
        spec_interface_guesses(ifaces.drop_last()) + match spec_external_v4(ifaces.last()) {
            Some(o) => spec_subnet_guesses(o),
            None => Seq::empty(),
        }
    }
}

/// The pieces, trimmed, that are not empty after trimming, in order.
pub open spec fn spec_listed_hosts(pieces: Seq<Seq<char>>) -> Seq<Seq<char>>
    decreases pieces.len(),
{
    if pieces.len() == 0 {
        Seq::empty()
    } else {
        let t = spec_trim(pieces.last());
        spec_listed_hosts(pieces.drop_last()) + if t.len() > 0 {
            seq![t]
        } else {
            Seq::empty()
        }
    }
}

/// The view of an optional string.
pub open spec fn opt_view(o: Option<String>) -> Option<Seq<char>> {
    match o {
        Some(s) => Some(s@),
        None => None,
    }
}

/// The host named by the single-host setting, trimmed, if it is not blank.
pub open spec fn spec_env_host(h: Option<Seq<char>>) -> Seq<Seq<char>> {
    match h {
        Some(s) => if spec_trim(s).len() > 0 {
            seq![spec_trim(s)]
        } else {
            Seq::empty()
        },
        None => Seq::empty(),
    }
}

/// The hosts named by the comma-separated setting, trimmed, blanks left out.
pub open spec fn spec_env_hosts(h: Option<Seq<char>>) -> Seq<Seq<char>> {
    match h {
        Some(s) => spec_listed_hosts(spec_split(s, ',')),
        None => Seq::empty(),
    }
}

/// Every candidate, in the order in which they are gathered, repeats included.
pub open spec fn spec_candidate_list(
    env_host: Option<Seq<char>>,
    env_hosts: Option<Seq<char>>,
    ifaces: Seq<IpAddress>,
) -> Seq<Seq<char>> {
    spec_env_host(env_host) + spec_env_hosts(env_hosts) + seq!["127.0.0.1"@, "localhost"@]
        + spec_interface_guesses(ifaces) + seq!["host"@, "desktop"@, "pc"@]
}

proof fn lemma_contains_push(s: Seq<Seq<char>>, x: Seq<char>, t: Seq<char>)
    ensures
        s.push(x).contains(t) <==> (s.contains(t) || t == x),
{
    if s.push(x).contains(t) {
        let k = choose|k: int| 0 <= k < s.push(x).len() && s.push(x)[k] == t;
        if k < s.len() {
            assert(s[k] == t);
        }
    }
    if s.contains(t) {
        let k = choose|k: int| 0 <= k < s.len() && s[k] == t;
        assert(s.push(x)[k] == t);
    }
    if t == x {
        assert(s.push(x)[s.len() as int] == t);
    }
}

/// A strictly sorted list of candidates that holds exactly the texts of `raw`.
pub open spec fn holds_exactly(sorted: Seq<Seq<char>>, raw: Seq<Seq<char>>) -> bool {
    &&& strictly_sorted(sorted)
    &&& forall|t: Seq<char>| sorted.contains(t) <==> raw.contains(t)
}

fn add_candidate(sorted: &mut Vec<Vec<char>>, x: Vec<char>, Ghost(raw): Ghost<Seq<Seq<char>>>)
    requires
        holds_exactly(views(old(sorted)@), raw),
    ensures
        holds_exactly(views(final(sorted)@), raw.push(x@)),
{
    let ghost xv = x@;
    insert_sorted_unique(sorted, x);
    assert forall|t: Seq<char>| views(sorted@).contains(t) <==> raw.push(xv).contains(t) by {
        lemma_contains_push(raw, xv, t);
    }
}

fn add_text(sorted: &mut Vec<Vec<char>>, s: &str, Ghost(raw): Ghost<Seq<Seq<char>>>)
    requires
        holds_exactly(views(old(sorted)@), raw),
    ensures
        holds_exactly(views(final(sorted)@), raw.push(s@)),
{
    add_candidate(sorted, chars_of(s), Ghost(raw));
}

fn add_listed_hosts(
    sorted: &mut Vec<Vec<char>>,
    env_hosts: &Option<String>,
    Ghost(base): Ghost<Seq<Seq<char>>>,
)
    requires
        holds_exactly(views(old(sorted)@), base),
    ensures
        holds_exactly(views(final(sorted)@), base + spec_env_hosts(opt_view(*env_hosts))),
{
    let ghost mut raw = base;
    match env_hosts {
        Some(hs) => {
            let pieces = split_chars(hs.as_str(), ',');
            let n = pieces.len();
            assert(views(pieces@).take(0) =~= Seq::<Seq<char>>::empty());
            assert(raw =~= base + spec_listed_hosts(views(pieces@).take(0)));
            for i in 0..n
                invariant
                    n == pieces@.len(),
                    holds_exactly(views(sorted@), raw),
                    raw == base + spec_listed_hosts(views(pieces@).take(i as int)),
            {
                let t = trim_slice(pieces[i].as_slice());
                let ghost prefix = views(pieces@).take(i + 1);
                assert(prefix.drop_last() =~= views(pieces@).take(i as int));
                assert(prefix.last() == pieces@[i as int]@);
                if t.len() > 0 {
                    let ghost tv = t@;
                    add_candidate(sorted, t, Ghost(raw));
                    proof {
                        raw = raw.push(tv);
                    }
                    assert(raw =~= base + spec_listed_hosts(prefix));
                } else {
                    assert(raw =~= base + spec_listed_hosts(prefix));
                }
            }
            assert(views(pieces@).take(n as int) =~= views(pieces@));
        },
        None => {
            assert(raw =~= base + spec_env_hosts(opt_view(*env_hosts)));
        },
    }
}

fn add_subnet_guesses(sorted: &mut Vec<Vec<char>>, o: [u8; 4], Ghost(before): Ghost<Seq<Seq<char>>>)
    requires
        holds_exactly(views(old(sorted)@), before),
    ensures
        holds_exactly(views(final(sorted)@), before + spec_subnet_guesses(o)),
{
    let ghost mut raw = before;
    let suffixes: [u8; 11] = [1, 2, 3, 5, 10, 20, 50, 100, 101, 200, 254];
    assert(suffixes@ =~= spec_host_suffixes());
    let ghost guesses = spec_subnet_guesses(o);
    assert(raw =~= before + guesses.take(0));
    for k in 0..11
        invariant
            suffixes@ == spec_host_suffixes(),
            guesses == spec_subnet_guesses(o),
            holds_exactly(views(sorted@), raw),
            raw == before + guesses.take(k as int),
    {
        let mut g: Vec<char> = Vec::new();
        push_dotted3(&mut g, &o);
        g.push('.');
        push_decimal_chars(&mut g, suffixes[k] as u64);
        assert(g@ =~= guesses[k as int]);
        let ghost gv = g@;
        add_candidate(sorted, g, Ghost(raw));
        proof {
            raw = raw.push(gv);
        }
        assert(raw =~= before + guesses.take(k + 1));
    }
    assert(guesses.take(11) =~= guesses);
}

fn add_interface_guesses(
    sorted: &mut Vec<Vec<char>>,
    interfaces: &Vec<IpAddress>,
    Ghost(base): Ghost<Seq<Seq<char>>>,
)
    requires
        holds_exactly(views(old(sorted)@), base),
    ensures
        holds_exactly(views(final(sorted)@), base + spec_interface_guesses(interfaces@)),
{
    let ghost mut raw = base;
    let m = interfaces.len();
    assert(interfaces@.take(0) =~= Seq::<IpAddress>::empty());
    assert(raw =~= base + spec_interface_guesses(interfaces@.take(0)));
    for i in 0..m
        invariant
            m == interfaces@.len(),
            holds_exactly(views(sorted@), raw),
            raw == base + spec_interface_guesses(interfaces@.take(i as int)),
    {
        let ghost prefix = interfaces@.take(i + 1);
        assert(prefix.drop_last() =~= interfaces@.take(i as int));
        assert(prefix.last() == interfaces@[i as int]);
        match external_v4(&interfaces[i]) {
            Some(o) => {
                add_subnet_guesses(sorted, o, Ghost(raw));
                proof {
                    raw = raw + spec_subnet_guesses(o);
                }
            },
            None => {},
        }
        assert(raw =~= base + spec_interface_guesses(prefix));
    }
    assert(interfaces@.take(m as int) =~= interfaces@);
}

/// The address with last octet `k` on the /24 network of `o`.
pub open spec fn subnet_address(o: [u8; 4], k: nat) -> Seq<char> {
    spec_dotted3(o) + seq!['.'] + spec_decimal(k)
}

/// Whether `t` is one of the usual host addresses on the /24 network of `o`:
/// last octet 1, 2, 3, 5, 10, 20, 50, 100, 101, 200 or 254.
pub open spec fn is_usual_subnet_address(o: [u8; 4], t: Seq<char>) -> bool {
    ||| t == subnet_address(o, 1)
    ||| t == subnet_address(o, 2)
    ||| t == subnet_address(o, 3)
    ||| t == subnet_address(o, 5)
    ||| t == subnet_address(o, 10)
    ||| t == subnet_address(o, 20)
    ||| t == subnet_address(o, 50)
    ||| t == subnet_address(o, 100)
    ||| t == subnet_address(o, 101)
    ||| t == subnet_address(o, 200)
    ||| t == subnet_address(o, 254)
}

/// Whether `t` is a usual host address on the /24 network of one of the
/// external IPv4 interfaces.
pub open spec fn is_interface_guess(ifaces: Seq<IpAddress>, t: Seq<char>) -> bool {
    exists|j: int|
        0 <= j < ifaces.len() && #[trigger] spec_external_v4(ifaces[j]) is Some
            && is_usual_subnet_address(spec_external_v4(ifaces[j])->0, t)
}

/// Whether `t` is one of the comma-separated pieces of `s`, trimmed and not blank.
pub open spec fn is_listed_piece(s: Seq<char>, t: Seq<char>) -> bool {
    exists|j: int|
        0 <= j < spec_split(s, ',').len() && spec_trim(#[trigger] spec_split(s, ',')[j]).len() > 0
            && t == spec_trim(spec_split(s, ',')[j])
}

/// Whether `t` is a candidate: the single-host setting, trimmed, where it is
/// not blank; a non-blank trimmed piece of the comma-separated setting; one of
/// "127.0.0.1", "localhost", "host", "desktop", "pc"; or a usual address on the
/// /24 network of an external IPv4 interface.
pub open spec fn is_candidate(
    env_host: Option<Seq<char>>,
    env_hosts: Option<Seq<char>>,
    ifaces: Seq<IpAddress>,
    t: Seq<char>,
) -> bool {
    ||| (env_host matches Some(h) && spec_trim(h).len() > 0 && t == spec_trim(h))
    ||| (env_hosts matches Some(s) && is_listed_piece(s, t))
    ||| t == "127.0.0.1"@
    ||| t == "localhost"@
    ||| t == "host"@
    ||| t == "desktop"@
    ||| t == "pc"@
    ||| is_interface_guess(ifaces, t)
}

proof fn lemma_contains_concat(a: Seq<Seq<char>>, b: Seq<Seq<char>>, t: Seq<char>)
    ensures
        (a + b).contains(t) <==> (a.contains(t) || b.contains(t)),
{
    if (a + b).contains(t) {
        let k = choose|k: int| 0 <= k < (a + b).len() && (a + b)[k] == t;
        if k < a.len() {
            assert(a[k] == t);
        } else {
            assert(b[k - a.len()] == t);
        }
    }
    if a.contains(t) {
        let k = choose|k: int| 0 <= k < a.len() && a[k] == t;
        assert((a + b)[k] == t);
    }
    if b.contains(t) {
        let k = choose|k: int| 0 <= k < b.len() && b[k] == t;
        assert((a + b)[k + a.len()] == t);
    }
}

proof fn lemma_listed_hosts_contains(pieces: Seq<Seq<char>>, t: Seq<char>)
    ensures
        spec_listed_hosts(pieces).contains(t) <==> exists|j: int|
            0 <= j < pieces.len() && spec_trim(#[trigger] pieces[j]).len() > 0 && t == spec_trim(pieces[j]),
    decreases pieces.len(),
{
    if pieces.len() > 0 {
        let p = pieces.drop_last();
        let tl = spec_trim(pieces.last());
        let tail: Seq<Seq<char>> = if tl.len() > 0 { seq![tl] } else { Seq::empty() };
        lemma_listed_hosts_contains(p, t);
        lemma_contains_concat(spec_listed_hosts(p), tail, t);
        if tail.contains(t) {
            assert(tail[0] == t);
            assert(pieces[pieces.len() - 1] == pieces.last());
        }
        if exists|j: int| 0 <= j < pieces.len() && spec_trim(#[trigger] pieces[j]).len() > 0 && t == spec_trim(pieces[j]) {
            let j = choose|j: int| 0 <= j < pieces.len() && spec_trim(#[trigger] pieces[j]).len() > 0 && t == spec_trim(pieces[j]);
            if j < p.len() {
                assert(p[j] == pieces[j]);
            } else {
                assert(tail[0] == t);
            }
        }
        if spec_listed_hosts(p).contains(t) {
            let j = choose|j: int| 0 <= j < p.len() && spec_trim(#[trigger] p[j]).len() > 0 && t == spec_trim(p[j]);
            assert(pieces[j] == p[j]);
        }
    }
}

proof fn lemma_subnet_guesses_contains(o: [u8; 4], t: Seq<char>)
    ensures
        spec_subnet_guesses(o).contains(t) <==> is_usual_subnet_address(o, t),
{
    let g = spec_subnet_guesses(o);
    assert(g.len() == 11);
    assert(g[0] == subnet_address(o, 1));
    assert(g[1] == subnet_address(o, 2));
    assert(g[2] == subnet_address(o, 3));
    assert(g[3] == subnet_address(o, 5));
    assert(g[4] == subnet_address(o, 10));
    assert(g[5] == subnet_address(o, 20));
    assert(g[6] == subnet_address(o, 50));
    assert(g[7] == subnet_address(o, 100));
    assert(g[8] == subnet_address(o, 101));
    assert(g[9] == subnet_address(o, 200));
    assert(g[10] == subnet_address(o, 254));
    if g.contains(t) {
        let k = choose|k: int| 0 <= k < g.len() && g[k] == t;
        assert(0 <= k < 11);
    }
}

proof fn lemma_interface_guesses_contains(ifaces: Seq<IpAddress>, t: Seq<char>)
    ensures
        spec_interface_guesses(ifaces).contains(t) <==> is_interface_guess(ifaces, t),
    decreases ifaces.len(),
{
    if ifaces.len() > 0 {
        let p = ifaces.drop_last();
        let last = ifaces.len() - 1;
        let tail: Seq<Seq<char>> = match spec_external_v4(ifaces.last()) {
            Some(o) => spec_subnet_guesses(o),
            None => Seq::empty(),
        };
        lemma_interface_guesses_contains(p, t);
        lemma_contains_concat(spec_interface_guesses(p), tail, t);
        assert(ifaces[last] == ifaces.last());
        if let Some(o) = spec_external_v4(ifaces.last()) {
            lemma_subnet_guesses_contains(o, t);
        }
        if is_interface_guess(p, t) {
            let j = choose|j: int|
                0 <= j < p.len() && #[trigger] spec_external_v4(p[j]) is Some
                    && is_usual_subnet_address(spec_external_v4(p[j])->0, t);
            assert(p[j] == ifaces[j]);
            assert(spec_external_v4(ifaces[j]) is Some);
        }
        if is_interface_guess(ifaces, t) {
            let j = choose|j: int|
                0 <= j < ifaces.len() && #[trigger] spec_external_v4(ifaces[j]) is Some
                    && is_usual_subnet_address(spec_external_v4(ifaces[j])->0, t);
            if j < last {
                assert(p[j] == ifaces[j]);
                assert(spec_external_v4(p[j]) is Some);
            }
        }
    }
}

/// The candidates gathered are exactly the candidates as `is_candidate`
/// describes them: the hosts that the settings name, the loopback and common
/// machine names, and the usual /24 addresses of the external interfaces.
pub proof fn lemma_candidates(
    env_host: Option<Seq<char>>,
    env_hosts: Option<Seq<char>>,
    ifaces: Seq<IpAddress>,
    t: Seq<char>,
)
    ensures
        spec_candidate_list(env_host, env_hosts, ifaces).contains(t) <==> is_candidate(env_host, env_hosts, ifaces, t),
{
    let a = spec_env_host(env_host);
    let b = spec_env_hosts(env_hosts);
    let c: Seq<Seq<char>> = seq!["127.0.0.1"@, "localhost"@];
    let d = spec_interface_guesses(ifaces);
    let e: Seq<Seq<char>> = seq!["host"@, "desktop"@, "pc"@];
    assert(spec_candidate_list(env_host, env_hosts, ifaces) == a + b + c + d + e);
    lemma_contains_concat(a + b + c + d, e, t);
    lemma_contains_concat(a + b + c, d, t);
    lemma_contains_concat(a + b, c, t);
    lemma_contains_concat(a, b, t);
    lemma_interface_guesses_contains(ifaces, t);
    if let Some(s) = env_hosts {
        lemma_listed_hosts_contains(spec_split(s, ','), t);
    }
    if a.contains(t) {
        let k = choose|k: int| 0 <= k < a.len() && a[k] == t;
    }
    if let Some(h) = env_host {
        if spec_trim(h).len() > 0 && t == spec_trim(h) {
            assert(a[0] == t);
        }
    }
    if c.contains(t) {
        let k = choose|k: int| 0 <= k < c.len() && c[k] == t;
    }
    if t == "127.0.0.1"@ { assert(c[0] == t); }
    if t == "localhost"@ { assert(c[1] == t); }
    if e.contains(t) {
        let k = choose|k: int| 0 <= k < e.len() && e[k] == t;
    }
    if t == "host"@ { assert(e[0] == t); }
    if t == "desktop"@ { assert(e[1] == t); }
    if t == "pc"@ { assert(e[2] == t); }
}

/// The addresses at which the client looks for a host: the host named by
/// `env_host` (the single-host setting), the hosts named by `env_hosts` (the
/// comma-separated setting), the loopback names, the usual addresses on the /24
/// network of every external IPv4 interface, and a few common machine names;
/// sorted, each once.
pub fn build_candidate_hosts(
    env_host: Option<String>,
    env_hosts: Option<String>,
    interfaces: &Vec<IpAddress>,
) -> (candidates: Vec<String>)
    ensures
        strictly_sorted(string_views(candidates@)),
        forall|t: Seq<char>|
            string_views(candidates@).contains(t) <==> spec_candidate_list(
                opt_view(env_host),
                opt_view(env_hosts),
                interfaces@,
            ).contains(t),
        forall|t: Seq<char>|
            string_views(candidates@).contains(t) <==> is_candidate(
                opt_view(env_host),
                opt_view(env_hosts),
                interfaces@,
                t,
            ),
        opt_view(env_host) matches Some(h) ==> (spec_trim(h).len() > 0 ==> string_views(candidates@).contains(spec_trim(h))),
{
    let mut sorted: Vec<Vec<char>> = Vec::new();
    let ghost mut raw: Seq<Seq<char>> = Seq::empty();
    assert(holds_exactly(views(sorted@), raw));

    match &env_host {
        Some(h) => {
            let t = trim_chars(h.as_str());
            if t.len() > 0 {
                let ghost tv = t@;
                add_candidate(&mut sorted, t, Ghost(raw));
                proof {
                    raw = raw.push(tv);
                }
            }
        },
        None => {},
    }
    assert(raw =~= spec_env_host(opt_view(env_host)));

    add_listed_hosts(&mut sorted, &env_hosts, Ghost(raw));
    proof {
        raw = raw + spec_env_hosts(opt_view(env_hosts));
    }
    assert(raw =~= spec_env_host(opt_view(env_host)) + spec_env_hosts(opt_view(env_hosts)));

    add_text(&mut sorted, "127.0.0.1", Ghost(raw));
    proof {
        raw = raw.push("127.0.0.1"@);
    }
    add_text(&mut sorted, "localhost", Ghost(raw));
    proof {
        raw = raw.push("localhost"@);
    }

    add_interface_guesses(&mut sorted, interfaces, Ghost(raw));
    proof {
        raw = raw + spec_interface_guesses(interfaces@);
    }

    add_text(&mut sorted, "host", Ghost(raw));
    proof {
        raw = raw.push("host"@);
    }
    add_text(&mut sorted, "desktop", Ghost(raw));
    proof {
        raw = raw.push("desktop"@);
    }
    add_text(&mut sorted, "pc", Ghost(raw));
    proof {
        raw = raw.push("pc"@);
    }
    assert(raw =~= spec_candidate_list(opt_view(env_host), opt_view(env_hosts), interfaces@));

    let out = strings_of(&sorted);
    proof {
        assert forall|t: Seq<char>|
            string_views(out@).contains(t) <==> is_candidate(opt_view(env_host), opt_view(env_hosts), interfaces@, t) by {
            lemma_candidates(opt_view(env_host), opt_view(env_hosts), interfaces@, t);
        }
        if let Some(h) = opt_view(env_host) {
            if spec_trim(h).len() > 0 {
                assert(is_candidate(opt_view(env_host), opt_view(env_hosts), interfaces@, spec_trim(h)));
            }
        }
    }
    out
}

fn strings_of(v: &Vec<Vec<char>>) -> (out: Vec<String>)
    ensures
        string_views(out@) == views(v@),
{
    let mut out: Vec<String> = Vec::new();
    let k = v.len();
    for j in 0..k
        invariant
            k == v@.len(),
            string_views(out@) == views(v@).take(j as int),
    {
        let s = string_of(v[j].as_slice());
        let ghost before = out@;
        assert(string_views(before).len() == before.len());
        assert(before.len() == j);
        out.push(s);
        assert(out@ == before.push(s));
        assert(s@ == v@[j as int]@);
        assert(string_views(out@).len() == j + 1);
        assert(string_views(out@)[j as int] == s@);
        assert(views(v@).take(j + 1)[j as int] == v@[j as int]@);
        assert(string_views(out@) =~= views(v@).take(j + 1));
    }
    assert(views(v@).take(k as int) =~= views(v@));
    out
}


/// Whether the local-only setting, where it is set, turns local-only mode on:
/// it does where it is "1", "true" or "yes", whatever the case of its letters.
pub open spec fn spec_local_only(value: Option<Seq<char>>) -> bool {
    match value {
        Some(v) => spec_eq_ignore_ascii_case(v, "1"@) || spec_eq_ignore_ascii_case(v, "true"@)
            || spec_eq_ignore_ascii_case(v, "yes"@),
        None => false,
    }
}

/// Reads the local-only setting; `None` where it is not set.
pub fn local_only_setting(value: Option<String>) -> (on: bool)
    ensures
        on == spec_local_only(opt_view(value)),
{
    match &value {
        Some(v) => eq_ignore_ascii_case(v.as_str(), "1") || eq_ignore_ascii_case(v.as_str(), "true")
            || eq_ignore_ascii_case(v.as_str(), "yes"),
        None => false,
    }
}

/// Whether one of the listed hosts has the address `addr`.
pub open spec fn spec_has_address(hosts: Seq<(String, String)>, addr: Seq<char>) -> bool {
    exists|i: int| 0 <= i < hosts.len() && (#[trigger] hosts[i]).1@ == addr
}

/// The list after discovery reports a host: unchanged where a host with the
/// same address is listed already, else with the host appended.
pub open spec fn spec_add_discovered(hosts: Seq<(String, String)>, name: String, addr: String) -> Seq<(String, String)> {
    if spec_has_address(hosts, addr@) {
        hosts
    } else {
        hosts.push((name, addr))
    }
}

/// After discovery reports a host, the list keeps every host it had, in
/// order, and holds a host with the reported address; it grows by one host,
/// the reported one, exactly when no host had that address.
pub proof fn lemma_add_discovered(hosts: Seq<(String, String)>, name: String, addr: String)
    ensures
        spec_add_discovered(hosts, name, addr).take(hosts.len() as int) == hosts,
        spec_has_address(spec_add_discovered(hosts, name, addr), addr@),
        !spec_has_address(hosts, addr@) ==> spec_add_discovered(hosts, name, addr) == hosts.push((name, addr)),
        spec_has_address(hosts, addr@) ==> spec_add_discovered(hosts, name, addr).len() == hosts.len(),
{
    let r = spec_add_discovered(hosts, name, addr);
    assert(r.take(hosts.len() as int) =~= hosts);
    if !spec_has_address(hosts, addr@) {
        assert(r[hosts.len() as int] == (name, addr));
    }
}

/// No two listed hosts have the same address.
pub open spec fn addresses_distinct(hosts: Seq<(String, String)>) -> bool {
    forall|i: int, j: int| 0 <= i < j < hosts.len() ==> (#[trigger] hosts[i]).1@ != (#[trigger] hosts[j]).1@
}

/// Discovery lists each address once: adding reported hosts to a list whose
/// addresses are distinct keeps them distinct.
pub proof fn lemma_discovered_addresses_distinct(hosts: Seq<(String, String)>, name: String, addr: String)
    requires
        addresses_distinct(hosts),
    ensures
        addresses_distinct(spec_add_discovered(hosts, name, addr)),
{
    let r = spec_add_discovered(hosts, name, addr);
    if !spec_has_address(hosts, addr@) {
        assert forall|i: int, j: int| 0 <= i < j < r.len() implies (#[trigger] r[i]).1@ != (#[trigger] r[j]).1@ by {
            if j == hosts.len() {
                assert(r[i] == hosts[i]);
            } else {
                assert(r[i] == hosts[i] && r[j] == hosts[j]);
            }
        }
    }
}

/// Adds a host that discovery reported, by name and address, unless a host with
/// the same address is listed already.
pub fn add_discovered_host(hosts: &mut Vec<(String, String)>, name: String, addr: String)
    ensures
        final(hosts)@ == spec_add_discovered(old(hosts)@, name, addr),
{
    let n = hosts.len();
    for i in 0..n
        invariant
            n == hosts@.len(),
            hosts@ == old(hosts)@,
            forall|k: int| 0 <= k < i ==> (#[trigger] hosts@[k]).1@ != addr@,
    {
        if hosts[i].1 == addr {
            assert(hosts@[i as int].1@ == addr@);
            return;
        }
    }
    hosts.push((name, addr));
}

/// The host that the user picked from a numbered list of `count` hosts: the
/// answer, trimmed, read as a number from 1 to `count`, gives its index.
pub open spec fn spec_selection(answer: Seq<char>, count: usize) -> Option<usize> {
    match spec_parse_usize(spec_trim(answer)) {
        Some(num) => if num > 0 && num <= count {
            Some((num - 1) as usize)
        } else {
            None
        },
        None => None,
    }
}

/// The user's answer picks the host whose number, counted from 1, the answer
/// reads as (after trimming): numbers from 1 to `count` pick, anything else
/// picks none.
pub proof fn lemma_selection(answer: Seq<char>, count: usize)
    ensures
        spec_selection(answer, count) matches Some(i) ==> (i < count && spec_parse_usize(spec_trim(answer)) == Some((i + 1) as usize)),
        spec_parse_usize(spec_trim(answer)) matches Some(n) ==> (
            (1 <= n <= count ==> spec_selection(answer, count) == Some((n - 1) as usize))
            && ((n == 0 || n > count) ==> spec_selection(answer, count) is None)),
        spec_parse_usize(spec_trim(answer)) is None ==> spec_selection(answer, count) is None,
{
}

/// Reads the user's pick from a numbered list of `count` hosts; `None` for an
/// answer that picks none of them.
pub fn parse_selection(answer: &str, count: usize) -> (index: Option<usize>)
    ensures
        index == spec_selection(answer@, count),
        index matches Some(i) ==> i < count,
{
    let t = trim_chars(answer);
    match parse_usize(t.as_slice()) {
        Some(num) => if num > 0 && num <= count {
            Some(num - 1)
        } else {
            None
        },
        None => None,
    }
}

/// The line that shows the host at `index` of the list: "[n] name (Adres: addr)",
/// numbered from 1.
pub open spec fn spec_host_line(index: usize, name: Seq<char>, addr: Seq<char>) -> Seq<char> {
    "["@ + spec_decimal((index + 1) as nat) + "] "@ + name + " (Adres: "@ + addr + ")"@
}

/// The line that shows a listed host to the user.
pub fn host_line(index: usize, name: &str, addr: &str) -> (line: String)
    requires
        index < usize::MAX,
    ensures
        line@ == spec_host_line(index, name@, addr@),
        forall|count: usize| index < count ==> #[trigger] shows_pick(line@, name@, addr@, index, count),
{
    let mut v = chars_of("[");
    push_decimal_chars(&mut v, (index + 1) as u64);
    push_str_chars(&mut v, "] ");
    push_str_chars(&mut v, name);
    push_str_chars(&mut v, " (Adres: ");
    push_str_chars(&mut v, addr);
    push_str_chars(&mut v, ")");
    let line = string_of(v.as_slice());
    proof {
        assert forall|count: usize| index < count implies #[trigger] shows_pick(line@, name@, addr@, index, count) by {
            lemma_host_line_number(index, count, name@, addr@);
        }
    }
    line
}

/// The number shown before the host at `index` in the numbered list picks
/// that host: answering with the decimal number `index + 1` selects `index`.
pub proof fn lemma_shown_number_selects(index: usize, count: usize)
    requires
        index < count,
    ensures
        spec_selection(spec_decimal((index + 1) as nat), count) == Some(index),
{
    crate::text::lemma_trim_decimal((index + 1) as nat);
    crate::text::lemma_parse_decimal((index + 1) as usize);
}

/// Whether `line` shows, in square brackets, a number that picks the host at
/// `index` from a list of `count`, then `name` and, after "(Adres: ", `addr`.
pub open spec fn shows_pick(line: Seq<char>, name: Seq<char>, addr: Seq<char>, index: usize, count: usize) -> bool {
    exists|n: Seq<char>|
        #![trigger spec_selection(n, count)]
        line == "["@ + n + "] "@ + name + " (Adres: "@ + addr + ")"@
        && !n.contains(']')
        && spec_selection(n, count) == Some(index)
}

/// The line of the host at `index` shows, in square brackets, the number that
/// picks that host from a list of `count`, then the host's name and address:
/// answering with the bracketed number selects `index`.
pub proof fn lemma_host_line_number(index: usize, count: usize, name: Seq<char>, addr: Seq<char>)
    requires
        index < count,
    ensures
        shows_pick(spec_host_line(index, name, addr), name, addr, index, count),
{
    let n = spec_decimal((index + 1) as nat);
    lemma_shown_number_selects(index, count);
    crate::text::lemma_decimal_digits((index + 1) as nat);
    if n.contains(']') {
        let j = choose|j: int| 0 <= j < n.len() && n[j] == ']';
        assert(crate::text::is_digit(n[j]));
    }
    assert(spec_host_line(index, name, addr) == "["@ + n + "] "@ + name + " (Adres: "@ + addr + ")"@);
}

/// The address that the user typed, trimmed; `None` where nothing but white
/// space was typed.
pub fn manual_address(answer: &str) -> (addr: Option<String>)
    ensures
        spec_trim(answer@).len() == 0 ==> addr is None,
        spec_trim(answer@).len() > 0 ==> (addr matches Some(a) && a@ == spec_trim(answer@)),
{
    let t = trim_chars(answer);
    if t.len() == 0 {
        None
    } else {
        Some(string_of(t.as_slice()))
    }
}

/// Why the user's answer picks no host.
#[derive(Debug, Clone, Copy, PartialEq, Eq)]
pub enum HostChoiceError {
    /// No host was found and nothing but white space was typed.
    NoAddress,
    /// The number given picks none of the listed hosts.
    InvalidChoice,
}

/// The host to connect to after discovery: where no host was found, the
/// address that the user typed, trimmed; else the address of the host whose
/// number the user gave.
pub fn choose_host(found: &Vec<(String, String)>, answer: &str) -> (r: Result<String, HostChoiceError>)
    ensures
        found@.len() == 0 ==> if spec_trim(answer@).len() > 0 {
            r matches Ok(a) && a@ == spec_trim(answer@)
        } else {
            r == Err::<String, HostChoiceError>(HostChoiceError::NoAddress)
        },
        found@.len() > 0 ==> match spec_selection(answer@, found@.len() as usize) {
            Some(i) => r matches Ok(a) && a@ == found@[i as int].1@,
            None => r == Err::<String, HostChoiceError>(HostChoiceError::InvalidChoice),
        },
{
    if found.len() == 0 {
        match manual_address(answer) {
            Some(a) => Ok(a),
            None => Err(HostChoiceError::NoAddress),
        }
    } else {
        match parse_selection(answer, found.len()) {
            Some(i) => Ok(string_of(chars_of(found[i].1.as_str()).as_slice())),
            None => Err(HostChoiceError::InvalidChoice),
        }
    }
}

/// What the user is told when the answer picks no host.
pub fn host_choice_message(e: HostChoiceError) -> (m: String)
    ensures
        m@ == match e {
            HostChoiceError::NoAddress => "Błąd: Nie podano adresu IP."@,
            HostChoiceError::InvalidChoice => "Nieprawidłowy wybór."@,
        },
{
    match e {
        HostChoiceError::NoAddress => string_of(chars_of("Błąd: Nie podano adresu IP.").as_slice()),
        HostChoiceError::InvalidChoice => string_of(chars_of("Nieprawidłowy wybór.").as_slice()),
    }
}

/// The request for access with the password that the user typed, trimmed.
pub fn authorization_request(typed_password: &str) -> (msg: ClientMessage)
    ensures
        msg matches ClientMessage::Autoryzacja { haslo } && haslo@ == spec_trim(typed_password@),
{
    let t = trim_chars(typed_password);
    ClientMessage::Autoryzacja { haslo: string_of(t.as_slice()) }
}

/// What the client does after its request for access.
#[derive(Debug, Clone, Copy, PartialEq, Eq)]
pub enum AuthOutcome {
    /// The host let the client in: the video stream follows.
    Accepted,
    /// The host refused the password.
    Refused,
    /// The host answered with something else.
    Unexpected,
    /// The reply could not be read as a host message: nothing more happens.
    Unreadable,
}

/// The meaning of the host's reply to a request for access; `None` for a reply
/// that is no host message.
pub fn authorization_outcome(reply: &Option<HostMessage>) -> (outcome: AuthOutcome)
    ensures
        outcome == match reply {
            Some(HostMessage::AutoryzacjaOk) => AuthOutcome::Accepted,
            Some(HostMessage::AutoryzacjaBlad) => AuthOutcome::Refused,
            Some(HostMessage::KlatkaObrazu { .. }) => AuthOutcome::Unexpected,
            None => AuthOutcome::Unreadable,
        },
{
    match reply {
        Some(HostMessage::AutoryzacjaOk) => AuthOutcome::Accepted,
        Some(HostMessage::AutoryzacjaBlad) => AuthOutcome::Refused,
        Some(HostMessage::KlatkaObrazu { .. }) => AuthOutcome::Unexpected,
        None => AuthOutcome::Unreadable,
    }
}


/// The ports on which the console client looks for a host, in the order tried.
pub open spec fn spec_probe_ports() -> Seq<u16> {
    seq![8080u16, 8081, 8082, 9090]
}

/// The ports on which the client looks for a host, in the order tried.
pub fn probe_ports() -> (ports: Vec<u16>)
    ensures
        ports@ == spec_probe_ports(),
{
    let ports: Vec<u16> = vec![8080, 8081, 8082, 9090];
    assert(ports@ =~= spec_probe_ports());
    ports
}

/// Where a probe of one candidate stands.
#[derive(Debug, Clone, Copy, PartialEq, Eq)]
pub enum ProbePhase {
    /// Not started.
    Idle,
    /// Waiting for a connection to the current port.
    Connecting,
    /// Connected; the probe message is to be sent.
    Sending,
    /// The probe message went out; waiting for the reply.
    Reading,
    /// Done: a host was found or every port failed.
    Finished,
}

/// What happened to the last thing the probe asked for.
#[derive(Debug, Clone, Copy, PartialEq, Eq)]
pub enum ProbeEvent {
    /// Start probing.
    Begin,
    /// The connection is open.
    Connected,
    /// The connection failed or timed out.
    ConnectFailed,
    /// The probe message could not be encoded.
    EncodeFailed,
    /// The probe message was written.
    Sent,
    /// Writing the probe message failed.
    SendFailed,
    /// A reply came; `understood` tells whether it reads as a host message.
    Replied { understood: bool },
    /// Reading the reply failed.
    ReadFailed,
}

/// What the caller is to do next for a probe.
#[derive(Debug)]
pub enum ProbeAction {
    /// Connect to this address, with the short timeout.
    Connect { address: String },
    /// Send this message on the connection.
    Send(ClientMessage),
    /// Read the reply.
    Read,
    /// A host answers at this address; the probe is over.
    Found { address: String },
    /// No port answered; the probe is over.
    NotFound,
    /// The event does not fit the probe's phase: nothing to do.
    Nothing,
}

/// The probe of one candidate host: each port of its list in turn is connected
/// to, sent an empty request for access, and read; the first port whose reply
/// reads as a host message is the one found. With no ports, nothing is tried.
pub struct HostProbe {
    target: String,
    ports: Vec<u16>,
    port_index: usize,
    phase: ProbePhase,
}

impl HostProbe {
    #[verifier::type_invariant]
    spec fn inv(&self) -> bool {
        &&& (self.port_index < self.ports@.len() || (self.ports@.len() == 0 && self.port_index == 0))
        &&& (self.phase == ProbePhase::Connecting || self.phase == ProbePhase::Sending
            || self.phase == ProbePhase::Reading) ==> self.port_index < self.ports@.len()
    }

    /// The candidate that is probed.
    pub closed spec fn target(&self) -> Seq<char> {
        self.target@
    }

    /// The ports to try, in order.
    pub closed spec fn ports(&self) -> Seq<u16> {
        self.ports@
    }

    /// The index, in the port list, of the port being tried.
    pub closed spec fn port_index(&self) -> nat {
        self.port_index as nat
    }

    /// The probe's phase.
    pub closed spec fn phase(&self) -> ProbePhase {
        self.phase
    }

    /// The address of the port being tried.
    pub open spec fn current_address(&self) -> Seq<char> {
        spec_socket_address(self.target(), self.ports()[self.port_index() as int])
    }

    /// A probe of `target` on `ports` that has not started.
    pub fn new(target: String, ports: Vec<u16>) -> (p: HostProbe)
        ensures
            p.target() == target@,
            p.ports() == ports@,
            p.port_index() == 0,
            p.phase() == ProbePhase::Idle,
    {
        HostProbe { target, ports, port_index: 0, phase: ProbePhase::Idle }
    }

    fn address(&self) -> (a: String)
        requires
            self.port_index() < self.ports().len(),
        ensures
            a@ == self.current_address(),
    {
        socket_address(self.target.as_str(), self.ports[self.port_index])
    }

    fn next_port(&mut self) -> (action: ProbeAction)
        ensures
            final(self).target() == old(self).target(),
            final(self).ports() == old(self).ports(),
            old(self).port_index() + 1 < old(self).ports().len() ==> {
                &&& final(self).port_index() == old(self).port_index() + 1
                &&& final(self).phase() == ProbePhase::Connecting
                &&& action matches ProbeAction::Connect { address } && address@ == final(self).current_address()
            },
            old(self).port_index() + 1 >= old(self).ports().len() ==> {
                &&& final(self).port_index() == old(self).port_index()
                &&& final(self).phase() == ProbePhase::Finished
                &&& action is NotFound
            },
    {
        proof {
            use_type_invariant(&*self);
        }
        let n = self.ports.len();
        if n > 0 && self.port_index < n - 1 {
            self.port_index = self.port_index + 1;
            self.phase = ProbePhase::Connecting;
            ProbeAction::Connect { address: self.address() }
        } else {
            self.phase = ProbePhase::Finished;
            ProbeAction::NotFound
        }
    }

    /// Takes in what happened and says what to do next.
    pub fn step(&mut self, event: ProbeEvent) -> (action: ProbeAction)
        ensures
            final(self).target() == old(self).target(),
            final(self).ports() == old(self).ports(),
            match (old(self).phase(), event) {
                (ProbePhase::Idle, ProbeEvent::Begin) => if old(self).ports().len() == 0 {
                    &&& final(self).port_index() == 0
                    &&& final(self).phase() == ProbePhase::Finished
                    &&& action is NotFound
                } else {
                    &&& final(self).port_index() == 0
                    &&& final(self).phase() == ProbePhase::Connecting
                    &&& action matches ProbeAction::Connect { address } && address@ == final(self).current_address()
                },
                (ProbePhase::Connecting, ProbeEvent::Connected) => {
                    &&& final(self).port_index() == old(self).port_index()
                    &&& final(self).phase() == ProbePhase::Sending
                    &&& action matches ProbeAction::Send(ClientMessage::Autoryzacja { haslo }) && haslo@.len() == 0
                },
                (ProbePhase::Sending, ProbeEvent::EncodeFailed) => {
                    &&& final(self).port_index() == old(self).port_index()
                    &&& final(self).phase() == ProbePhase::Finished
                    &&& action is NotFound
                },
                (ProbePhase::Sending, ProbeEvent::Sent) => {
                    &&& final(self).port_index() == old(self).port_index()
                    &&& final(self).phase() == ProbePhase::Reading
                    &&& action is Read
                },
                (ProbePhase::Reading, ProbeEvent::Replied { understood: true }) => {
                    &&& final(self).port_index() == old(self).port_index()
                    &&& final(self).phase() == ProbePhase::Finished
                    &&& action matches ProbeAction::Found { address } && address@ == old(self).current_address()
                },
                (ProbePhase::Connecting, ProbeEvent::ConnectFailed)
                | (ProbePhase::Sending, ProbeEvent::SendFailed)
                | (ProbePhase::Reading, ProbeEvent::Replied { understood: false })
                | (ProbePhase::Reading, ProbeEvent::ReadFailed) => {
                    &&& old(self).port_index() + 1 < old(self).ports().len() ==> {
                        &&& final(self).port_index() == old(self).port_index() + 1
                        &&& final(self).phase() == ProbePhase::Connecting
                        &&& action matches ProbeAction::Connect { address } && address@ == final(self).current_address()
                    }
                    &&& old(self).port_index() + 1 >= old(self).ports().len() ==> {
                        &&& final(self).port_index() == old(self).port_index()
                        &&& final(self).phase() == ProbePhase::Finished
                        &&& action is NotFound
                    }
                },
                _ => {
                    &&& final(self).port_index() == old(self).port_index()
                    &&& final(self).phase() == old(self).phase()
                    &&& action is Nothing
                },
            },
    {
        proof {
            use_type_invariant(&*self);
        }
        match (self.phase, event) {
            (ProbePhase::Idle, ProbeEvent::Begin) => {
                self.port_index = 0;
                if self.ports.len() == 0 {
                    self.phase = ProbePhase::Finished;
                    ProbeAction::NotFound
                } else {
                    self.phase = ProbePhase::Connecting;
                    ProbeAction::Connect { address: self.address() }
                }
            },
            (ProbePhase::Connecting, ProbeEvent::Connected) => {
                self.phase = ProbePhase::Sending;
                ProbeAction::Send(ClientMessage::Autoryzacja { haslo: String::new() })
            },
            (ProbePhase::Sending, ProbeEvent::EncodeFailed) => {
                self.phase = ProbePhase::Finished;
                ProbeAction::NotFound
            },
            (ProbePhase::Sending, ProbeEvent::Sent) => {
                self.phase = ProbePhase::Reading;
                ProbeAction::Read
            },
            (ProbePhase::Reading, ProbeEvent::Replied { understood: true }) => {
                let address = self.address();
                self.phase = ProbePhase::Finished;
                ProbeAction::Found { address }
            },
            (ProbePhase::Connecting, ProbeEvent::ConnectFailed)
            | (ProbePhase::Sending, ProbeEvent::SendFailed)
            | (ProbePhase::Reading, ProbeEvent::Replied { understood: false })
            | (ProbePhase::Reading, ProbeEvent::ReadFailed) => self.next_port(),
            _ => ProbeAction::Nothing,
        }
    }
}

} // verus!
