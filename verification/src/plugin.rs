//! Plugin lifecycle and the network plugin configurations.
use vstd::prelude::*;
use crate::presence::{decimal, digit_char};

verus! {

/// Lifecycle state of plugins.
#[derive(PartialEq, Eq, Debug, Clone, Copy, PartialOrd, Ord, Structural)]
pub enum PluginsState {
    Adding,
    Ready,
    Finished,
    Cleaned,
}

/// Default capacity of the channel from the network layer to the ECS layer.
pub const DEFAULT_ECS_BUFFER: usize = 1024;

/// Default capacity of each client's outbound channel.
pub const DEFAULT_CLIENT_BUFFER: usize = 100;

/// Position of the last `:` among the first `n` characters of `s`, or -1.
pub open spec fn last_colon(s: Seq<char>, n: int) -> int
    decreases n,
{
    if n <= 0 {
        -1
    } else if s[n - 1] == ':' {
        n - 1
    } else {
        last_colon(s, n - 1)
    }
}

/// Whether `c` is an ASCII decimal digit.
pub open spec fn is_ascii_digit(c: char) -> bool {
    '0' <= c <= '9'
}

/// The number written by the decimal digits `d`.
pub open spec fn decimal_value(d: Seq<char>) -> nat
    decreases d.len(),
{
    if d.len() == 0 {
        0
    } else {
        decimal_value(d.drop_last()) * 10 + (d.last() as nat - '0' as nat) as nat
    }
}

/// Whether `t` reads as a `u16` the way `u16::from_str` reads it: an optional
/// `+`, then one or more decimal digits whose value is at most 65535.
pub open spec fn is_u16_text(t: Seq<char>) -> bool {
    &&& u16_digits(t).len() > 0
    &&& all_digits(u16_digits(t))
    &&& decimal_value(u16_digits(t)) <= 65535
}

/// `t` without a leading `+`.
pub open spec fn u16_digits(t: Seq<char>) -> Seq<char> {
    if t.len() > 0 && t[0] == '+' {
        t.drop_first()
    } else {
        t
    }
}

/// Whether every character of `d` is a decimal digit.
pub open spec fn all_digits(d: Seq<char>) -> bool {
    forall|i: int| 0 <= i < d.len() ==> is_ascii_digit(#[trigger] d[i])
}

/// Whether an address to listen on names a port: the text after its last `:`
/// reads as a port number. An address without one can never be bound.
pub open spec fn has_port(a: Seq<char>) -> bool {
    let c = last_colon(a, a.len() as int);
    c >= 0 && is_u16_text(a.subrange(c + 1, a.len() as int))
}

proof fn lemma_last_colon(s: Seq<char>, n: int)
    requires
        0 <= n <= s.len(),
    ensures
        -1 <= last_colon(s, n) < n,
        last_colon(s, n) >= 0 ==> s[last_colon(s, n)] == ':',
        forall|k: int| last_colon(s, n) < k < n ==> s[k] != ':',
    decreases n,
{
    if n > 0 && s[n - 1] != ':' {
        lemma_last_colon(s, n - 1);
    }
}

proof fn lemma_decimal_prefix_bound(d: Seq<char>, i: int)
    requires
        0 <= i <= d.len(),
        forall|k: int| 0 <= k < d.len() ==> is_ascii_digit(#[trigger] d[k]),
    ensures
        decimal_value(d.take(i)) <= decimal_value(d),
    decreases d.len() - i,
{
    if i < d.len() {
        lemma_decimal_prefix_bound(d, i + 1);
        assert(d.take(i + 1).drop_last() =~= d.take(i));
        assert(d.take(i + 1).last() == d[i]);
    } else {
        assert(d.take(i) =~= d);
    }
}

/// Whether the address names a port that can be bound.
pub fn address_has_port(address: &str) -> (b: bool)
    ensures
        b == has_port(address@),
{
    let cs = crate::text::chars_of(address);
    let n = cs.len();
    let mut c = n;
    while c > 0 && cs[c - 1] != ':'
        invariant
            c <= n == cs@.len(),
            last_colon(cs@, n as int) == last_colon(cs@, c as int),
        decreases c,
    {
        c = c - 1;
    }
    if c == 0 {
        return false;
    }
    let colon = c - 1;
    assert(last_colon(cs@, n as int) == colon);
    let ghost t = cs@.subrange(colon + 1, n as int);
    let mut start = colon + 1;
    if start < n && cs[start] == '+' {
        start = start + 1;
    }
    let ghost d = u16_digits(t);
    assert(d =~= cs@.subrange(start as int, n as int));
    if start == n {
        assert(!is_u16_text(t));
        return false;
    }
    let mut v: u32 = 0;
    let mut i = start;
    while i < n
        invariant
            start <= i <= n == cs@.len(),
            cs@ == address@,
            colon < n,
            last_colon(cs@, n as int) == colon,
            t == cs@.subrange(colon + 1, n as int),
            d == cs@.subrange(start as int, n as int),
            d == u16_digits(t),
            forall|k: int| 0 <= k < i - start ==> is_ascii_digit(#[trigger] d[k]),
            v == decimal_value(d.take(i - start)),
            v <= 65535,
        decreases n - i,
    {
        let ch = cs[i];
        if !('0' <= ch && ch <= '9') {
            assert(!is_ascii_digit(d[i - start]));
            assert(!all_digits(d));
            return false;
        }
        let digit = (ch as u32) - ('0' as u32);
        assert(d.take(i - start + 1).drop_last() =~= d.take(i - start));
        assert(d.take(i - start + 1).last() == ch);
        v = v * 10 + digit;
        if v > 65535 {
            proof {
                if all_digits(d) {
                    lemma_decimal_prefix_bound(d, i - start + 1);
                }
            }
            return false;
        }
        i = i + 1;
    }
    assert(d.take(d.len() as int) =~= d);
    true
}

proof fn lemma_decimal_digits(n: nat)
    ensures
        decimal(n).len() > 0,
        all_digits(decimal(n)),
        decimal_value(decimal(n)) == n,
        decimal(n)[0] != '+',
    decreases n,
{
    if n >= 10 {
        lemma_decimal_digits(n / 10);
        let d = decimal(n);
        let init = decimal(n / 10);
        assert(d.drop_last() =~= init);
        assert(d[0] == init[0]);
        assert forall|i: int| 0 <= i < d.len() implies is_ascii_digit(#[trigger] d[i]) by {
            if i < init.len() {
                assert(d[i] == init[i]);
            }
        }
        assert(digit_char(n % 10) as nat - '0' as nat == n % 10);
    } else {
        assert(decimal(n).drop_last() =~= Seq::<char>::empty());
        assert(decimal_value(Seq::<char>::empty()) == 0);
    }
}

proof fn lemma_last_colon_skips(s: Seq<char>, from: int, n: int)
    requires
        0 <= from <= n <= s.len(),
        forall|k: int| from <= k < n ==> s[k] != ':',
    ensures
        last_colon(s, n) == last_colon(s, from),
    decreases n - from,
{
    if n > from {
        lemma_last_colon_skips(s, from, n - 1);
    }
}

/// Every port is accepted: an address made of any host, a `:` and the decimal
/// notation of a number up to 65535 names a port.
pub proof fn law_every_port_is_accepted(host: Seq<char>, port: nat)
    requires
        port <= 65535,
    ensures
        has_port(host + ":"@ + decimal(port)),
{
    reveal_strlit(":");
    lemma_decimal_digits(port);
    let d = decimal(port);
    let a = host + ":"@ + d;
    let c = host.len() as int;
    assert(a[c] == ':');
    assert forall|k: int| c + 1 <= k < a.len() implies a[k] != ':' by {
        assert(a[k] == d[k - c - 1]);
        assert(is_ascii_digit(d[k - c - 1]));
    }
    lemma_last_colon_skips(a, c + 1, a.len() as int);
    assert(a.subrange(c + 1, a.len() as int) =~= d);
    assert(u16_digits(d) == d);
}

/// WebSocket (ws://) server plugin configuration.
pub struct EcsonWebSocketPlugin {
    pub address: String,
    ecs_buffer: usize,
    client_buffer: usize,
}

impl EcsonWebSocketPlugin {
    /// Configuration listening on `address`, with the default buffer sizes.
    /// The address must name a port ([`EcsonWebSocketPlugin::try_new`] checks it).
    pub fn new(address: &str) -> (p: Self)
        requires
            has_port(address@),
        ensures
            p.spec_address() == address@,
            p.spec_ecs_buffer() == DEFAULT_ECS_BUFFER,
            p.spec_client_buffer() == DEFAULT_CLIENT_BUFFER,
    {
        EcsonWebSocketPlugin {
            address: String::from_str(address),
            ecs_buffer: DEFAULT_ECS_BUFFER,
            client_buffer: DEFAULT_CLIENT_BUFFER,
        }
    }

    /// Configuration listening on `address`, with the default buffer sizes, or
    /// `None` when the address names no port.
    pub fn try_new(address: &str) -> (p: Option<Self>)
        ensures
            p is Some <==> has_port(address@),
            p matches Some(q) ==> q.spec_address() == address@ && q.spec_ecs_buffer() == DEFAULT_ECS_BUFFER
                && q.spec_client_buffer() == DEFAULT_CLIENT_BUFFER,
    {
        if address_has_port(address) {
            Some(EcsonWebSocketPlugin::new(address))
        } else {
            None
        }
    }

    /// Sets the capacity of the channel from the network layer to the ECS layer.
    pub fn ecs_buffer(self, size: usize) -> (p: Self)
        ensures
            p.spec_ecs_buffer() == size,
            p.spec_client_buffer() == self.spec_client_buffer(),
            p.spec_address() == self.spec_address(),
    {
        EcsonWebSocketPlugin { ecs_buffer: size, ..self }
    }

    /// Sets the capacity of each client's outbound channel.
    pub fn client_buffer(self, size: usize) -> (p: Self)
        ensures
            p.spec_client_buffer() == size,
            p.spec_ecs_buffer() == self.spec_ecs_buffer(),
            p.spec_address() == self.spec_address(),
    {
        EcsonWebSocketPlugin { client_buffer: size, ..self }
    }

    pub closed spec fn spec_address(&self) -> Seq<char> {
        self.address@
    }

    pub closed spec fn spec_ecs_buffer(&self) -> usize {
        self.ecs_buffer
    }

    pub closed spec fn spec_client_buffer(&self) -> usize {
        self.client_buffer
    }

    /// The address to listen on.
    pub fn listen_address(&self) -> (a: &str)
        ensures
            a@ == self.spec_address(),
    {
        self.address.as_str()
    }

    /// Capacity of the channel from the network layer to the ECS layer.
    pub fn ecs_buffer_size(&self) -> (n: usize)
        ensures
            n == self.spec_ecs_buffer(),
    {
        self.ecs_buffer
    }

    /// Capacity of each client's outbound channel.
    pub fn client_buffer_size(&self) -> (n: usize)
        ensures
            n == self.spec_client_buffer(),
    {
        self.client_buffer
    }
}

/// WebSocket over TLS (wss://) server plugin configuration, with a certificate and key read from PEM files.
pub struct EcsonWebSocketTlsPlugin {
    address: String,
    cert_path: String,
    key_path: String,
    ecs_buffer: usize,
    client_buffer: usize,
}

impl EcsonWebSocketTlsPlugin {
    /// Configuration listening on `address`, with the default buffer sizes.
    pub fn new(address: &str, cert_path: &str, key_path: &str) -> (p: Self)
        ensures
            p.spec_address() == address@,
            p.spec_cert_path() == cert_path@,
            p.spec_key_path() == key_path@,
            p.spec_ecs_buffer() == DEFAULT_ECS_BUFFER,
            p.spec_client_buffer() == DEFAULT_CLIENT_BUFFER,
    {
        EcsonWebSocketTlsPlugin {
            address: String::from_str(address),
            cert_path: String::from_str(cert_path),
            key_path: String::from_str(key_path),
            ecs_buffer: DEFAULT_ECS_BUFFER,
            client_buffer: DEFAULT_CLIENT_BUFFER,
        }
    }

    /// Sets the capacity of the channel from the network layer to the ECS layer.
    pub fn ecs_buffer(self, size: usize) -> (p: Self)
        ensures
            p.spec_ecs_buffer() == size,
            p.spec_client_buffer() == self.spec_client_buffer(),
            p.spec_address() == self.spec_address(),
            p.spec_cert_path() == self.spec_cert_path(),
            p.spec_key_path() == self.spec_key_path(),
    {
        EcsonWebSocketTlsPlugin { ecs_buffer: size, ..self }
    }

    /// Sets the capacity of each client's outbound channel.
    pub fn client_buffer(self, size: usize) -> (p: Self)
        ensures
            p.spec_client_buffer() == size,
            p.spec_ecs_buffer() == self.spec_ecs_buffer(),
            p.spec_address() == self.spec_address(),
            p.spec_cert_path() == self.spec_cert_path(),
            p.spec_key_path() == self.spec_key_path(),
    {
        EcsonWebSocketTlsPlugin { client_buffer: size, ..self }
    }

    pub closed spec fn spec_address(&self) -> Seq<char> {
        self.address@
    }

    pub closed spec fn spec_ecs_buffer(&self) -> usize {
        self.ecs_buffer
    }

    pub closed spec fn spec_client_buffer(&self) -> usize {
        self.client_buffer
    }

    /// The address to listen on.
    pub fn listen_address(&self) -> (a: &str)
        ensures
            a@ == self.spec_address(),
    {
        self.address.as_str()
    }

    /// Capacity of the channel from the network layer to the ECS layer.
    pub fn ecs_buffer_size(&self) -> (n: usize)
        ensures
            n == self.spec_ecs_buffer(),
    {
        self.ecs_buffer
    }

    /// Capacity of each client's outbound channel.
    pub fn client_buffer_size(&self) -> (n: usize)
        ensures
            n == self.spec_client_buffer(),
    {
        self.client_buffer
    }

    pub closed spec fn spec_cert_path(&self) -> Seq<char> {
        self.cert_path@
    }

    pub closed spec fn spec_key_path(&self) -> Seq<char> {
        self.key_path@
    }

    /// Path of the PEM certificate chain.
    pub fn cert_file(&self) -> (a: &str)
        ensures
            a@ == self.spec_cert_path(),
    {
        self.cert_path.as_str()
    }

    /// Path of the PEM private key.
    pub fn key_file(&self) -> (a: &str)
        ensures
            a@ == self.spec_key_path(),
    {
        self.key_path.as_str()
    }
}

/// WebSocket over TLS plugin configuration for development, with a self-signed certificate generated at start-up.
pub struct EcsonWebSocketTlsDevPlugin {
    address: String,
    ecs_buffer: usize,
    client_buffer: usize,
}

impl EcsonWebSocketTlsDevPlugin {
    /// Configuration listening on `address`, with the default buffer sizes.
    pub fn new(address: &str) -> (p: Self)
        ensures
            p.spec_address() == address@,
            p.spec_ecs_buffer() == DEFAULT_ECS_BUFFER,
            p.spec_client_buffer() == DEFAULT_CLIENT_BUFFER,
    {
        EcsonWebSocketTlsDevPlugin {
            address: String::from_str(address),
            ecs_buffer: DEFAULT_ECS_BUFFER,
            client_buffer: DEFAULT_CLIENT_BUFFER,
        }
    }

    /// Sets the capacity of the channel from the network layer to the ECS layer.
    pub fn ecs_buffer(self, size: usize) -> (p: Self)
        ensures
            p.spec_ecs_buffer() == size,
            p.spec_client_buffer() == self.spec_client_buffer(),
            p.spec_address() == self.spec_address(),
    {
        EcsonWebSocketTlsDevPlugin { ecs_buffer: size, ..self }
    }

    /// Sets the capacity of each client's outbound channel.
    pub fn client_buffer(self, size: usize) -> (p: Self)
        ensures
            p.spec_client_buffer() == size,
            p.spec_ecs_buffer() == self.spec_ecs_buffer(),
            p.spec_address() == self.spec_address(),
    {
        EcsonWebSocketTlsDevPlugin { client_buffer: size, ..self }
    }

    pub closed spec fn spec_address(&self) -> Seq<char> {
        self.address@
    }

    pub closed spec fn spec_ecs_buffer(&self) -> usize {
        self.ecs_buffer
    }

    pub closed spec fn spec_client_buffer(&self) -> usize {
        self.client_buffer
    }

    /// The address to listen on.
    pub fn listen_address(&self) -> (a: &str)
        ensures
            a@ == self.spec_address(),
    {
        self.address.as_str()
    }

    /// Capacity of the channel from the network layer to the ECS layer.
    pub fn ecs_buffer_size(&self) -> (n: usize)
        ensures
            n == self.spec_ecs_buffer(),
    {
        self.ecs_buffer
    }

    /// Capacity of each client's outbound channel.
    pub fn client_buffer_size(&self) -> (n: usize)
        ensures
            n == self.spec_client_buffer(),
    {
        self.client_buffer
    }
}

/// WebTransport server plugin configuration for development, with a self-signed certificate.
pub struct EcsonWebTransportDevPlugin {
    pub address: String,
    ecs_buffer: usize,
    client_buffer: usize,
}

impl EcsonWebTransportDevPlugin {
    /// Configuration listening on `address`, with the default buffer sizes.
    pub fn new(address: &str) -> (p: Self)
        ensures
            p.spec_address() == address@,
            p.spec_ecs_buffer() == DEFAULT_ECS_BUFFER,
            p.spec_client_buffer() == DEFAULT_CLIENT_BUFFER,
    {
        EcsonWebTransportDevPlugin {
            address: String::from_str(address),
            ecs_buffer: DEFAULT_ECS_BUFFER,
            client_buffer: DEFAULT_CLIENT_BUFFER,
        }
    }

    /// Sets the capacity of the channel from the network layer to the ECS layer.
    pub fn ecs_buffer(self, size: usize) -> (p: Self)
        ensures
            p.spec_ecs_buffer() == size,
            p.spec_client_buffer() == self.spec_client_buffer(),
            p.spec_address() == self.spec_address(),
    {
        EcsonWebTransportDevPlugin { ecs_buffer: size, ..self }
    }

    /// Sets the capacity of each client's outbound channel.
    pub fn client_buffer(self, size: usize) -> (p: Self)
        ensures
            p.spec_client_buffer() == size,
            p.spec_ecs_buffer() == self.spec_ecs_buffer(),
            p.spec_address() == self.spec_address(),
    {
        EcsonWebTransportDevPlugin { client_buffer: size, ..self }
    }

    pub closed spec fn spec_address(&self) -> Seq<char> {
        self.address@
    }

    pub closed spec fn spec_ecs_buffer(&self) -> usize {
        self.ecs_buffer
    }

    pub closed spec fn spec_client_buffer(&self) -> usize {
        self.client_buffer
    }

    /// The address to listen on.
    pub fn listen_address(&self) -> (a: &str)
        ensures
            a@ == self.spec_address(),
    {
        self.address.as_str()
    }

    /// Capacity of the channel from the network layer to the ECS layer.
    pub fn ecs_buffer_size(&self) -> (n: usize)
        ensures
            n == self.spec_ecs_buffer(),
    {
        self.ecs_buffer
    }

    /// Capacity of each client's outbound channel.
    pub fn client_buffer_size(&self) -> (n: usize)
        ensures
            n == self.spec_client_buffer(),
    {
        self.client_buffer
    }
}

} // verus!
