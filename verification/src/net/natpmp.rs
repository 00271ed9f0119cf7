//! Automatic router port mapping by NAT-PMP: what is asked of the gateway, what its
//! answers mean, when to ask again, and how the gateway is found in the routing
//! tables of the platforms.

use vstd::prelude::*;
use crate::net::wire::{be_bytes, be_value, from_be, to_be};
use crate::text::{all_digits, begins_with, concat2, decimal, decimal_text, digits_value, hex_digit, hex_value, is_whitespace, owned, same_text, segments, split_on, starts_with, texts, to_chars, trim, trimmed, whitespace};

verus! {

/// The UDP port of the gateway's NAT-PMP service.
pub const NATPMP_PORT: u16 = 5351;

/// How long a mapping is asked for, in seconds.
pub const LEASE_SECS: u32 = 3600;

pub const OP_EXTERNAL: u8 = 0;

pub const OP_MAP_TCP: u8 = 2;

/// Added to an operation in its answer.
pub const RESP_FLAG: u8 = 128;

/// How many times a request is sent.
pub const TRIES: u32 = 4;

/// How long the first answer is waited for, in milliseconds.
pub const FIRST_WAIT: u64 = 250;

// ---------------------------------------------------------------------------
// Numbers in messages
// ---------------------------------------------------------------------------

/// The big-endian 16-bit number at `off`.
pub open spec fn be16_at(buf: Seq<u8>, off: int) -> Option<u16> {
    if off + 1 < buf.len() {
        Some((buf[off] * 256 + buf[off + 1]) as u16)
    } else {
        None
    }
}

/// The big-endian 32-bit number at `off`.
pub open spec fn be32_at(buf: Seq<u8>, off: int) -> Option<u32> {
    if off + 3 < buf.len() {
        Some(be_value(buf.subrange(off, off + 4)) as u32)
    } else {
        None
    }
}

/// The big-endian 16-bit number at `off`.
pub fn be_u16(buf: &[u8], off: usize) -> (r: Option<u16>)
    ensures
        r == be16_at(buf@, off as int),
{
    let n: usize = buf.len();
    if n >= 2 && off <= n - 2 {
        Some(buf[off] as u16 * 256 + buf[off + 1] as u16)
    } else {
        None
    }
}

/// The big-endian 32-bit number at `off`.
pub fn be_u32(buf: &[u8], off: usize) -> (r: Option<u32>)
    ensures
        r == be32_at(buf@, off as int),
{
    let n: usize = buf.len();
    if n >= 4 && off <= n - 4 {
        let bytes = [buf[off], buf[off + 1], buf[off + 2], buf[off + 3]];
        assert(bytes@ =~= buf@.subrange(off as int, off + 4));
        Some(from_be(&bytes))
    } else {
        None
    }
}

// ---------------------------------------------------------------------------
// One exchange with the gateway
// ---------------------------------------------------------------------------

/// What is wrong with an answer, if anything.
pub open spec fn response_fault(resp: Seq<u8>, op: u8, min_len: nat) -> Option<Seq<char>> {
    if resp.len() < min_len {
        Some("short NAT-PMP response"@)
    } else if resp.len() < 1 || resp[0] != 0 {
        Some("unexpected NAT-PMP version"@)
    } else if resp.len() < 2 || resp[1] != RESP_FLAG + op {
        Some("unexpected NAT-PMP opcode"@)
    } else if be16_at(resp, 2) != Some(0u16) {
        Some("the gateway refused the NAT-PMP request"@)
    } else {
        None
    }
}

/// What is wrong with an answer, if anything.
pub fn check_response(resp: &[u8], op: u8, min_len: usize) -> (r: Option<&'static str>)
    requires
        op < 128,
    ensures
        match r {
            Some(e) => response_fault(resp@, op, min_len as nat) == Some(e@),
            None => response_fault(resp@, op, min_len as nat) is None,
        },
{
    if resp.len() < min_len {
        Some("short NAT-PMP response")
    } else if resp.len() < 1 || resp[0] != 0 {
        Some("unexpected NAT-PMP version")
    } else if resp.len() < 2 || resp[1] != RESP_FLAG + op {
        Some("unexpected NAT-PMP opcode")
    } else {
        match be_u16(resp, 2) {
            Some(0) => None,
            _ => Some("the gateway refused the NAT-PMP request"),
        }
    }
}

/// A request that waits for its answer.
pub struct Exchange {
    /// How many more times it may be sent, this one included.
    pub tries: u32,
    /// How long to wait, in milliseconds.
    pub wait: u64,
    pub last_err: String,
}

/// What came back.
pub enum GatewayReply {
    Bytes(Vec<u8>),
    /// Nothing, in time.
    Quiet,
    Failed(String),
}

/// What to do next.
pub enum ExchangeStep {
    Again(Exchange),
    Done(Vec<u8>),
    Failed(String),
}

/// The error to remember after a reply.
pub open spec fn error_after(x: Exchange, reply: GatewayReply, op: u8, min_len: nat) -> Seq<char> {
    match reply {
        GatewayReply::Bytes(b) => match response_fault(b@, op, min_len) {
            Some(e) => e,
            None => x.last_err@,
        },
        GatewayReply::Quiet => x.last_err@,
        GatewayReply::Failed(e) => e@,
    }
}

/// A request about to be sent for the first time.
pub fn exchange_start() -> (x: Exchange)
    ensures
        x.tries == TRIES && x.wait == FIRST_WAIT,
        x.last_err@ == "no response from the gateway"@,
{
    Exchange { tries: TRIES, wait: FIRST_WAIT, last_err: owned("no response from the gateway") }
}

/// What to do after a reply: an answer in order ends the exchange; otherwise the
/// request is sent again, waiting twice as long, until it was sent often enough.
pub fn transact(x: Exchange, reply: GatewayReply, op: u8, min_len: usize) -> (r: ExchangeStep)
    requires
        op < 128,
    ensures
        match r {
            ExchangeStep::Done(b) => reply == GatewayReply::Bytes(b) && response_fault(
                b@,
                op,
                min_len as nat,
            ) is None,
            ExchangeStep::Again(y) => {
                &&& !(reply is Bytes && response_fault(reply->Bytes_0@, op, min_len as nat) is None)
                &&& x.tries > 1 && y.tries == x.tries - 1
                &&& y.wait == (if x.wait > u64::MAX / 2 {
                    u64::MAX
                } else {
                    (x.wait * 2) as u64
                })
                &&& y.last_err@ == error_after(x, reply, op, min_len as nat)
            },
            ExchangeStep::Failed(e) => {
                &&& !(reply is Bytes && response_fault(reply->Bytes_0@, op, min_len as nat) is None)
                &&& x.tries <= 1
                &&& e@ == error_after(x, reply, op, min_len as nat)
            },
        },
{
    let last_err = match reply {
        GatewayReply::Bytes(b) => match check_response(&b, op, min_len) {
            None => return ExchangeStep::Done(b),
            Some(e) => owned(e),
        },
        GatewayReply::Quiet => x.last_err,
        GatewayReply::Failed(e) => e,
    };
    if x.tries <= 1 {
        ExchangeStep::Failed(last_err)
    } else {
        let wait: u64 = if x.wait > u64::MAX / 2 { u64::MAX } else { x.wait * 2 };
        ExchangeStep::Again(Exchange { tries: x.tries - 1, wait, last_err })
    }
}

// ---------------------------------------------------------------------------
// Mapping a port
// ---------------------------------------------------------------------------

/// The request for the public address.
pub open spec fn external_bytes() -> Seq<u8> {
    seq![0u8, OP_EXTERNAL]
}

/// The request for the public address.
pub fn external_request() -> (r: Vec<u8>)
    ensures
        r@ == external_bytes(),
{
    let r = vec![0u8, OP_EXTERNAL];
    assert(r@ =~= external_bytes());
    r
}

/// The request for a TCP mapping.
pub open spec fn map_bytes(internal_port: u16, external_port: u16, lifetime: u32) -> Seq<u8> {
    seq![
        0u8,
        OP_MAP_TCP,
        0u8,
        0u8,
        (internal_port / 256) as u8,
        (internal_port % 256) as u8,
        (external_port / 256) as u8,
        (external_port % 256) as u8,
    ] + be_bytes(lifetime)
}

/// The request for a TCP mapping; a lifetime of 0 removes it.
pub fn map_request(internal_port: u16, external_port: u16, lifetime: u32) -> (r: Vec<u8>)
    ensures
        r@ == map_bytes(internal_port, external_port, lifetime),
        r@.len() == 12,
{
    let l = to_be(lifetime);
    let r = vec![
        0u8,
        OP_MAP_TCP,
        0u8,
        0u8,
        (internal_port / 256) as u8,
        (internal_port % 256) as u8,
        (external_port / 256) as u8,
        (external_port % 256) as u8,
        l[0],
        l[1],
        l[2],
        l[3],
    ];
    assert(r@ =~= map_bytes(internal_port, external_port, lifetime));
    r
}

/// A port that the router forwards to this machine.
pub struct PortMapping {
    pub gateway: [u8; 4],
    pub internal_port: u16,
    pub external_port: u16,
    pub public_ip: [u8; 4],
}

/// The stages of mapping a port.
pub enum MapStep {
    FindGateway,
    AskAddress { gateway: [u8; 4] },
    AskPort { gateway: [u8; 4], public_ip: [u8; 4] },
    Done(PortMapping),
    Failed(String),
}

/// What a stage of mapping a port gave.
pub enum MapReply {
    Gateway(Option<[u8; 4]>),
    Answer(Result<Vec<u8>, String>),
}

/// Why the gateway's answer gives no public address, if it does not.
pub open spec fn address_fault(a: Result<Vec<u8>, String>) -> Option<Seq<char>> {
    match a {
        Err(e) => Some(e@),
        Ok(b) => if be32_at(b@, 8) is None {
            Some("malformed external-address response"@)
        } else {
            None
        },
    }
}

/// Why the gateway's answer gives no port, if it does not.
pub open spec fn port_fault(a: Result<Vec<u8>, String>) -> Option<Seq<char>> {
    match a {
        Err(e) => Some(e@),
        Ok(b) => if be16_at(b@, 10) is None {
            Some("malformed mapping response"@)
        } else {
            None
        },
    }
}

/// Whether `r` is the stage after one that gave `reply`.
pub open spec fn map_after(step: MapStep, internal_port: u16, reply: MapReply, r: MapStep) -> bool {
    match (step, reply) {
        (MapStep::FindGateway, MapReply::Gateway(Some(gateway))) => r == (MapStep::AskAddress {
            gateway,
        }),
        (MapStep::FindGateway, _) => r is Failed && r->Failed_0@
            == "could not find the router's address (no default gateway)"@,
        (MapStep::AskAddress { gateway }, MapReply::Answer(a)) => match address_fault(a) {
            Some(e) => r is Failed && r->Failed_0@
                == "the router did not report a public address: "@ + e,
            None => r is AskPort && r->AskPort_gateway == gateway && r->AskPort_public_ip@
                == be_bytes(be32_at(a->Ok_0@, 8)->0),
        },
        (MapStep::AskPort { gateway, public_ip }, MapReply::Answer(a)) => match port_fault(a) {
            Some(e) => r is Failed && r->Failed_0@ == "the router refused to open a port: "@ + e,
            None => r == MapStep::Done(
                PortMapping {
                    gateway,
                    internal_port,
                    external_port: be16_at(a->Ok_0@, 10)->0,
                    public_ip,
                },
            ),
        },
        _ => r == step,
    }
}

/// The public address in an answer.
pub fn external_address(a: Result<Vec<u8>, String>) -> (r: Result<[u8; 4], String>)
    ensures
        match r {
            Ok(ip) => address_fault(a) is None && ip@ == be_bytes(be32_at(a->Ok_0@, 8)->0),
            Err(e) => address_fault(a) == Some(e@),
        },
{
    match a {
        Err(e) => Err(e),
        Ok(b) => match be_u32(&b, 8) {
            Some(ip) => Ok(to_be(ip)),
            None => Err(owned("malformed external-address response")),
        },
    }
}

/// The external port in an answer.
pub fn map_tcp(a: Result<Vec<u8>, String>) -> (r: Result<u16, String>)
    ensures
        match r {
            Ok(p) => port_fault(a) is None && Some(p) == be16_at(a->Ok_0@, 10),
            Err(e) => port_fault(a) == Some(e@),
        },
{
    match a {
        Err(e) => Err(e),
        Ok(b) => match be_u16(&b, 10) {
            Some(p) => Ok(p),
            None => Err(owned("malformed mapping response")),
        },
    }
}

impl PortMapping {
    /// The next stage of mapping a port.
    pub fn create(step: MapStep, internal_port: u16, reply: MapReply) -> (r: MapStep)
        ensures
            map_after(step, internal_port, reply, r),
    {
        match (step, reply) {
            (MapStep::FindGateway, MapReply::Gateway(Some(gateway))) => MapStep::AskAddress {
                gateway,
            },
            (MapStep::FindGateway, _) => MapStep::Failed(
                owned("could not find the router's address (no default gateway)"),
            ),
            (MapStep::AskAddress { gateway }, MapReply::Answer(a)) => match external_address(a) {
                Ok(public_ip) => MapStep::AskPort { gateway, public_ip },
                Err(e) => MapStep::Failed(
                    concat2("the router did not report a public address: ", &e),
                ),
            },
            (MapStep::AskPort { gateway, public_ip }, MapReply::Answer(a)) => match map_tcp(a) {
                Ok(external_port) => MapStep::Done(
                    PortMapping { gateway, internal_port, external_port, public_ip },
                ),
                Err(e) => MapStep::Failed(concat2("the router refused to open a port: ", &e)),
            },
            (s, _) => s,
        }
    }

    /// The address at which the public reaches this machine.
    pub fn public_addr(&self) -> (r: String)
        ensures
            r@ == addr_text(self.public_ip@, self.external_port),
    {
        let mut r = decimal(self.public_ip[0] as u64);
        r.append(".");
        r.append(&decimal(self.public_ip[1] as u64));
        r.append(".");
        r.append(&decimal(self.public_ip[2] as u64));
        r.append(".");
        r.append(&decimal(self.public_ip[3] as u64));
        r.append(":");
        r.append(&decimal(self.external_port as u64));
        r
    }

    /// The request that renews the mapping.
    pub fn refresh(&self) -> (r: Vec<u8>)
        ensures
            r@ == map_bytes(self.internal_port, self.external_port, LEASE_SECS),
    {
        map_request(self.internal_port, self.external_port, LEASE_SECS)
    }

    /// The request that removes the mapping.
    pub fn release(&self) -> (r: Vec<u8>)
        ensures
            r@ == map_bytes(self.internal_port, 0, 0),
    {
        map_request(self.internal_port, 0, 0)
    }

    /// How often to renew, in seconds: well within the lease.
    pub fn refresh_interval_secs() -> (n: u64)
        ensures
            n == LEASE_SECS / 2,
    {
        (LEASE_SECS / 2) as u64
    }
}

/// An address and a port as text.
pub open spec fn addr_text(ip: Seq<u8>, port: u16) -> Seq<char> {
    decimal_text(ip[0] as nat) + "."@ + decimal_text(ip[1] as nat) + "."@ + decimal_text(
        ip[2] as nat,
    ) + "."@ + decimal_text(ip[3] as nat) + ":"@ + decimal_text(port as nat)
}

/// The bytes of a mapping answer read back as they were written: the external port
/// that the router puts at offset 10 is the one that is used.
pub proof fn law_ports_read_back(port: u16, head: Seq<u8>)
    requires
        head.len() == 10,
    ensures
        be16_at(head + seq![(port / 256) as u8, (port % 256) as u8], 10) == Some(port),
{
    let b = head + seq![(port / 256) as u8, (port % 256) as u8];
    assert(b[10] == (port / 256) as u8);
    assert(b[11] == (port % 256) as u8);
}

// ---------------------------------------------------------------------------
// Finding the gateway
// ---------------------------------------------------------------------------

/// A line without the carriage return of its line ending.
pub open spec fn without_return(s: Seq<char>) -> Seq<char> {
    if s.len() > 0 && s.last() == '\r' {
        s.drop_last()
    } else {
        s
    }
}

/// The lines of a text, whose endings are a line feed with or without a carriage
/// return before it. What follows the last ending is a line unless it is empty.
pub open spec fn lines_of(s: Seq<char>) -> Seq<Seq<char>> {
    let parts = segments(s, '\n');
    parts.drop_last().map_values(|p: Seq<char>| without_return(p)) + (if parts.last().len() > 0 {
        seq![parts.last()]
    } else {
        Seq::empty()
    })
}

/// The lines of a text.
pub fn lines(s: &str) -> (r: Vec<String>)
    ensures
        texts(r@) == lines_of(s@),
{
    let parts = split_on(s, '\n');
    let ghost p = texts(parts@);
    proof {
        crate::text::lemma_segments_nonempty(s@, '\n');
    }
    let n: usize = parts.len();
    let mut r: Vec<String> = Vec::new();
    let mut i: usize = 0;
    while i < n - 1
        invariant
            n == parts@.len(),
            n > 0,
            i <= n - 1,
            p == texts(parts@),
            texts(r@) == p.take(i as int).map_values(|p: Seq<char>| without_return(p)),
        decreases n - i,
    {
        let v = to_chars(&parts[i]);
        let len: usize = v.len();
        let ghost before = texts(r@);
        let line = if len > 0 && v[len - 1] == '\r' {
            crate::text::from_chars(&v, 0, len - 1)
        } else {
            owned(&parts[i])
        };
        let ghost lv = line@;
        proof {
            assert(p[i as int] == parts@[i as int]@);
            assert(lv =~= without_return(p[i as int]));
        }
        r.push(line);
        proof {
            assert(texts(r@) =~= before.push(lv));
            assert(texts(r@) =~= p.take(i + 1).map_values(|p: Seq<char>| without_return(p)));
        }
        i += 1;
    }
    assert(p.take(n - 1) =~= p.drop_last());
    assert(p.last() == parts@[n - 1]@);
    if !parts[n - 1].as_str().is_empty() {
        let ghost before = texts(r@);
        r.push(owned(&parts[n - 1]));
        assert(texts(r@) =~= before + seq![p.last()]);
    } else {
        assert(texts(r@) =~= texts(r@) + Seq::<Seq<char>>::empty());
    }
    r
}

/// The words of a text: its longest runs without whitespace.
pub open spec fn words_of(s: Seq<char>) -> Seq<Seq<char>>
    decreases s.len(),
{
    if s.len() == 0 {
        Seq::empty()
    } else {
        let before = words_of(s.drop_last());
        if whitespace(s.last()) {
            before
        } else if s.len() == 1 || whitespace(s[s.len() - 2]) {
            before.push(seq![s.last()])
        } else {
            before.drop_last().push(before.last().push(s.last()))
        }
    }
}

proof fn lemma_words_end(s: Seq<char>)
    requires
        s.len() > 0,
        !whitespace(s.last()),
    ensures
        words_of(s).len() > 0,
    decreases s.len(),
{
}

/// The words of a text.
pub fn words(s: &str) -> (r: Vec<String>)
    ensures
        texts(r@) == words_of(s@),
{
    let v = to_chars(s);
    let mut r: Vec<String> = Vec::new();
    let mut i: usize = 0;
    assert(texts(r@) =~= words_of(v@.take(0)));
    while i < v.len()
        invariant
            i <= v@.len(),
            v@ == s@,
            texts(r@) == words_of(v@.take(i as int)),
        decreases v@.len() - i,
    {
        let c = v[i];
        let ghost t = v@.take(i + 1);
        proof {
            assert(t.drop_last() =~= v@.take(i as int));
            assert(t.last() == c);
        }
        if !is_whitespace(c) {
            let ghost before = texts(r@);
            if i == 0 || is_whitespace(v[i - 1]) {
                let mut w = String::new();
                w.push(c);
                let ghost wv = w@;
                assert(wv =~= seq![c]);
                r.push(w);
                assert(texts(r@) =~= before.push(seq![c]));
                assert(i > 0 ==> t[t.len() - 2] == v@[i - 1]);
            } else {
                proof {
                    assert(t[t.len() - 2] == v@[i - 1]);
                    assert(v@.take(i as int).last() == v@[i - 1]);
                    lemma_words_end(v@.take(i as int));
                    assert(r@.len() > 0);
                }
                let n: usize = r.len();
                let mut w = owned(&r[n - 1]);
                w.push(c);
                let ghost wv = w@;
                r[n - 1] = w;
                assert(texts(r@) =~= before.drop_last().push(before.last().push(c)));
            }
        }
        i += 1;
    }
    assert(v@.take(i as int) =~= v@);
    r
}

/// The value of a character as a hexadecimal digit.
pub open spec fn char_hex_value(c: char) -> Option<u8> {
    if c as u32 <= 0x7f {
        hex_value((c as u32) as u8)
    } else {
        None
    }
}

/// The number that hexadecimal digits write.
pub open spec fn hex_number(s: Seq<char>) -> nat
    decreases s.len(),
{
    if s.len() == 0 {
        0
    } else {
        hex_number(s.drop_last()) * 16 + (char_hex_value(s.last())->0) as nat
    }
}

/// A number's text without its plus sign.
pub open spec fn without_plus(s: Seq<char>) -> Seq<char> {
    if s.len() > 0 && s[0] == '+' {
        s.skip(1)
    } else {
        s
    }
}

/// Whether every character is a hexadecimal digit.
pub open spec fn all_hex_digits(d: Seq<char>) -> bool {
    forall|i: int| 0 <= i < d.len() ==> char_hex_value(#[trigger] d[i]) is Some
}

/// The 32-bit number that a text writes in hexadecimal, with an optional plus sign.
pub open spec fn hex_u32_of(s: Seq<char>) -> Option<u32> {
    let d = without_plus(s);
    if d.len() > 0 && all_hex_digits(d) && hex_number(d) <= u32::MAX {
        Some(hex_number(d) as u32)
    } else {
        None
    }
}

proof fn lemma_hex_grows(d: Seq<char>, k: int)
    requires
        0 <= k <= d.len(),
    ensures
        hex_number(d.take(k)) <= hex_number(d),
    decreases d.len(),
{
    if k < d.len() {
        assert(d.drop_last().take(k) =~= d.take(k));
        lemma_hex_grows(d.drop_last(), k);
    } else {
        assert(d.take(k) =~= d);
    }
}

/// Reads a 32-bit number in hexadecimal.
pub fn parse_hex_u32(s: &str) -> (r: Option<u32>)
    ensures
        r == hex_u32_of(s@),
{
    let v = to_chars(s);
    let n: usize = v.len();
    let from: usize = if n > 0 && v[0] == '+' { 1 } else { 0 };
    let ghost d = without_plus(s@);
    assert(d =~= v@.skip(from as int));
    if n == from {
        return None;
    }
    let mut acc: u64 = 0;
    let mut i: usize = from;
    assert(d.take(0) =~= Seq::<char>::empty());
    while i < n
        invariant
            from <= i <= n,
            n == v@.len(),
            v@ == s@,
            d == v@.skip(from as int),
            from == 0 || from == 1,
            d == without_plus(s@),
            acc == hex_number(d.take(i - from)),
            acc <= u32::MAX,
            forall|k: int| 0 <= k < i - from ==> char_hex_value(#[trigger] d[k]) is Some,
        decreases n - i,
    {
        let c = v[i];
        assert(d[i - from] == c);
        let code: u32 = c as u32;
        let value = if code <= 0x7f {
            hex_digit(code as u8)
        } else {
            None
        };
        let digit: u8 = match value {
            Some(x) => x,
            None => {
                assert(char_hex_value(d[i - from]) is None);
                return None;
            },
        };
        acc = acc * 16 + digit as u64;
        proof {
            assert(d.take(i - from + 1).drop_last() =~= d.take(i - from));
            assert(d.take(i - from + 1).last() == c);
            lemma_hex_grows(d, i - from + 1);
        }
        if acc > 0xffff_ffff {
            return None;
        }
        i += 1;
    }
    assert(d.take(n - from) =~= d);
    Some(acc as u32)
}

/// The gateway of the default route in the lines of a routing table: the lines hold
/// interface, destination and gateway, the latter two as little-endian hexadecimal.
/// A line with fewer columns, or an unreadable gateway, ends the search.
pub open spec fn route_gateway(lines: Seq<Seq<char>>) -> Option<u32>
    decreases lines.len(),
{
    if lines.len() == 0 {
        None
    } else {
        let cols = words_of(lines[0]);
        if cols.len() < 3 {
            None
        } else if cols[1] == "00000000"@ {
            match hex_u32_of(cols[2]) {
                None => None,
                Some(0) => route_gateway(lines.skip(1)),
                Some(raw) => Some(raw),
            }
        } else {
            route_gateway(lines.skip(1))
        }
    }
}

/// The four bytes of a 32-bit number, lowest first.
pub open spec fn le_bytes(n: u32) -> Seq<u8> {
    seq![
        (n % 0x100) as u8,
        (n / 0x100 % 0x100) as u8,
        (n / 0x1_0000 % 0x100) as u8,
        (n / 0x100_0000) as u8,
    ]
}

/// The gateway of the default route in the kernel's routing table.
pub fn linux_gateway(table: &str) -> (r: Option<[u8; 4]>)
    ensures
        match r {
            Some(ip) => route_gateway(lines_of(table@).skip(1)) is Some && ip@ == le_bytes(
                route_gateway(lines_of(table@).skip(1))->0,
            ),
            None => lines_of(table@).len() == 0 || route_gateway(lines_of(table@).skip(1)) is None,
        },
{
    let all = lines(table);
    let ghost t = lines_of(table@);
    let mut i: usize = 1;
    while i < all.len()
        invariant
            1 <= i,
            t == texts(all@),
            t == lines_of(table@),
            i <= t.len() || t.len() == 0,
            t.len() > 0 ==> route_gateway(t.skip(1)) == route_gateway(t.skip(i as int)),
        decreases all@.len() - i,
    {
        let cols = words(&all[i]);
        let ghost c = texts(cols@);
        proof {
            assert(t[i as int] == all@[i as int]@);
            assert(t.skip(i as int)[0] == t[i as int]);
            assert(t.skip(i as int).skip(1) =~= t.skip(i + 1));
        }
        if cols.len() < 3 {
            return None;
        }
        assert(c[1] == cols@[1]@ && c[2] == cols@[2]@);
        if same_text(&cols[1], "00000000") {
            match parse_hex_u32(&cols[2]) {
                None => return None,
                Some(raw) => if raw != 0 {
                    let ip = [
                        (raw % 0x100) as u8,
                        (raw / 0x100 % 0x100) as u8,
                        (raw / 0x1_0000 % 0x100) as u8,
                        (raw / 0x100_0000) as u8,
                    ];
                    assert(ip@ =~= le_bytes(raw));
                    return Some(ip);
                },
            }
        }
        i += 1;
    }
    proof {
        if t.len() > 0 {
            assert(t.skip(i as int).len() == 0);
        }
    }
    None
}

/// The number of an address part: one to three digits, no needless zero, at most 255.
pub open spec fn octet_of(s: Seq<char>) -> Option<u8> {
    if 1 <= s.len() <= 3 && all_digits(s) && (s.len() == 1 || s[0] != '0') && digits_value(s)
        <= 255 {
        Some(digits_value(s) as u8)
    } else {
        None
    }
}

/// The address that a text writes in dotted form.
pub open spec fn ipv4_of(s: Seq<char>) -> Option<Seq<u8>> {
    let p = segments(s, '.');
    if p.len() == 4 && octet_of(p[0]) is Some && octet_of(p[1]) is Some && octet_of(p[2]) is Some
        && octet_of(p[3]) is Some {
        Some(
            seq![octet_of(p[0])->0, octet_of(p[1])->0, octet_of(p[2])->0, octet_of(p[3])->0],
        )
    } else {
        None
    }
}

/// Reads one part of an address.
fn octet(s: &str) -> (r: Option<u8>)
    ensures
        r == octet_of(s@),
{
    let v = to_chars(s);
    let n: usize = v.len();
    if n < 1 || n > 3 || (n > 1 && v[0] == '0') {
        return None;
    }
    let mut acc: u32 = 0;
    let mut i: usize = 0;
    assert(v@.take(0) =~= Seq::<char>::empty());
    while i < n
        invariant
            i <= n <= 3,
            n == v@.len(),
            v@ == s@,
            acc == digits_value(v@.take(i as int)),
            acc <= (if i == 0 { 0int } else if i == 1 { 9 } else if i == 2 { 99 } else { 999 }),
            all_digits(v@.take(i as int)),
        decreases n - i,
    {
        let c = v[i];
        proof {
            assert(v@.take(i + 1).drop_last() =~= v@.take(i as int));
            assert(v@.take(i + 1).last() == c);
        }
        if !('0' <= c && c <= '9') {
            assert(!all_digits(v@)) by {
                assert(!crate::text::is_digit(v@[i as int]));
            }
            return None;
        }
        acc = acc * 10 + (c as u32 - 48);
        i += 1;
    }
    assert(v@.take(n as int) =~= v@);
    if acc <= 255 {
        Some(acc as u8)
    } else {
        None
    }
}

/// Reads an address in dotted form.
pub fn parse_ipv4(s: &str) -> (r: Option<[u8; 4]>)
    ensures
        match r {
            Some(ip) => ipv4_of(s@) == Some(ip@),
            None => ipv4_of(s@) is None,
        },
{
    let p = split_on(s, '.');
    let ghost t = texts(p@);
    if p.len() != 4 {
        return None;
    }
    assert(t[0] == p@[0]@ && t[1] == p@[1]@ && t[2] == p@[2]@ && t[3] == p@[3]@);
    match (octet(&p[0]), octet(&p[1]), octet(&p[2]), octet(&p[3])) {
        (Some(a), Some(b), Some(c), Some(d)) => {
            let ip = [a, b, c, d];
            assert(ip@ =~= seq![a, b, c, d]);
            Some(ip)
        },
        _ => None,
    }
}

/// The address after `gateway:` in a line, if it is such a line.
pub open spec fn named_gateway(line: Seq<char>) -> Option<Seq<u8>> {
    let t = trimmed(line);
    if begins_with(t, "gateway:"@) {
        ipv4_of(trimmed(t.skip(8)))
    } else {
        None
    }
}

/// The first gateway that a line gives.
pub open spec fn first_gateway(
    lines: Seq<Seq<char>>,
    of: spec_fn(Seq<char>) -> Option<Seq<u8>>,
) -> Option<Seq<u8>>
    decreases lines.len(),
{
    if lines.len() == 0 {
        None
    } else if of(lines[0]) is Some {
        of(lines[0])
    } else {
        first_gateway(lines.skip(1), of)
    }
}

/// The gateway in the answer of `route -n get default`.
pub fn bsd_gateway(text: &str) -> (r: Option<[u8; 4]>)
    ensures
        ({
            let found = first_gateway(lines_of(text@), |l: Seq<char>| named_gateway(l));
            match r {
                Some(ip) => found == Some(ip@),
                None => found is None,
            }
        }),
{
    let all = lines(text);
    let ghost t = lines_of(text@);
    let ghost of = |l: Seq<char>| named_gateway(l);
    let mut i: usize = 0;
    assert(t.skip(0) =~= t);
    while i < all.len()
        invariant
            i <= all@.len(),
            t == texts(all@),
            of == (|l: Seq<char>| named_gateway(l)),
            first_gateway(t, of) == first_gateway(t.skip(i as int), of),
            t == lines_of(text@),
        decreases all@.len() - i,
    {
        let line = trim(&all[i]);
        proof {
            assert(t[i as int] == all@[i as int]@);
            assert(t.skip(i as int)[0] == t[i as int]);
            assert(t.skip(i as int).skip(1) =~= t.skip(i + 1));
            reveal_strlit("gateway:");
        }
        if starts_with(&line, "gateway:") {
            let n: usize = line.as_str().unicode_len();
            let rest = line.as_str().substring_char(8, n);
            assert(rest@ =~= line@.skip(8));
            match parse_ipv4(&trim(rest)) {
                Some(ip) => return Some(ip),
                None => {},
            }
        }
        i += 1;
    }
    None
}

/// The gateway in the answer of the route query on Windows: the first line that is an
/// address.
pub fn windows_gateway(text: &str) -> (r: Option<[u8; 4]>)
    ensures
        ({
            let found = first_gateway(lines_of(text@), |l: Seq<char>| ipv4_of(trimmed(l)));
            match r {
                Some(ip) => found == Some(ip@),
                None => found is None,
            }
        }),
{
    let all = lines(text);
    let ghost t = lines_of(text@);
    let ghost of = |l: Seq<char>| ipv4_of(trimmed(l));
    let mut i: usize = 0;
    assert(t.skip(0) =~= t);
    while i < all.len()
        invariant
            i <= all@.len(),
            t == texts(all@),
            of == (|l: Seq<char>| ipv4_of(trimmed(l))),
            first_gateway(t, of) == first_gateway(t.skip(i as int), of),
            t == lines_of(text@),
        decreases all@.len() - i,
    {
        proof {
            assert(t[i as int] == all@[i as int]@);
            assert(t.skip(i as int)[0] == t[i as int]);
            assert(t.skip(i as int).skip(1) =~= t.skip(i + 1));
        }
        match parse_ipv4(&trim(&all[i])) {
            Some(ip) => return Some(ip),
            None => {},
        }
        i += 1;
    }
    None
}

// ---------------------------------------------------------------------------
// Laws
// ---------------------------------------------------------------------------

/// An answer counts if it is long enough, of the right version and operation, and reports
/// success; such an answer ends the exchange, and no other does.
pub proof fn law_only_a_good_answer_ends_the_exchange(
    x: Exchange,
    b: Vec<u8>,
    op: u8,
    min_len: usize,
    r: ExchangeStep,
)
    requires
        op < 128,
        call_ensures(transact, (x, GatewayReply::Bytes(b), op, min_len), r),
    ensures
        r is Done <==> b@.len() >= min_len && b@.len() >= 4 && b@[0] == 0 && b@[1] == 128 + op
            && b@[2] == 0 && b@[3] == 0,
        r is Done ==> r->Done_0 == b,
        r is Again ==> x.tries > 1,
        r is Failed ==> x.tries <= 1,
{
}

/// A silent gateway is asked four times, with waits of 250, 500, 1000 and 2000 milliseconds,
/// and then given up.
pub proof fn law_a_silent_gateway_is_asked_four_times(
    x: Seq<Exchange>,
    op: u8,
    min_len: usize,
    r: ExchangeStep,
)
    requires
        op < 128,
        x.len() == 4,
        call_ensures(exchange_start, (), x[0]),
        call_ensures(
            transact,
            (x[0], GatewayReply::Quiet, op, min_len),
            ExchangeStep::Again(x[1]),
        ),
        call_ensures(
            transact,
            (x[1], GatewayReply::Quiet, op, min_len),
            ExchangeStep::Again(x[2]),
        ),
        call_ensures(
            transact,
            (x[2], GatewayReply::Quiet, op, min_len),
            ExchangeStep::Again(x[3]),
        ),
        call_ensures(transact, (x[3], GatewayReply::Quiet, op, min_len), r),
    ensures
        x[0].wait == 250 && x[1].wait == 500 && x[2].wait == 1000 && x[3].wait == 2000,
        r is Failed && r->Failed_0@ == "no response from the gateway"@,
{
}

/// Until its last try every unanswered request is sent again.
pub proof fn law_an_unanswered_request_is_sent_again(
    x: Exchange,
    reply: GatewayReply,
    op: u8,
    min_len: usize,
    r: ExchangeStep,
)
    requires
        op < 128,
        !(reply is Bytes),
        call_ensures(transact, (x, reply, op, min_len), r),
    ensures
        x.tries > 1 <==> r is Again,
        r is Again ==> r->Again_0.tries == x.tries - 1,
        reply is Failed && r is Failed ==> r->Failed_0@ == reply->Failed_0@,
        reply is Failed && r is Again ==> r->Again_0.last_err@ == reply->Failed_0@,
{
}

/// A mapping request names its operation, both ports and how long the mapping is to last, and
/// is told from the request for the address by its operation.
pub proof fn law_a_mapping_request_says_what_is_wanted(
    internal_port: u16,
    external_port: u16,
    lifetime: u32,
    r: Vec<u8>,
    ask: Vec<u8>,
)
    requires
        call_ensures(map_request, (internal_port, external_port, lifetime), r),
        call_ensures(external_request, (), ask),
    ensures
        r@.len() == 12,
        r@[0] == 0 && r@[1] == 2 && r@[2] == 0 && r@[3] == 0,
        r@[4] * 256 + r@[5] == internal_port,
        r@[6] * 256 + r@[7] == external_port,
        r@[8] * 0x100_0000 + r@[9] * 0x1_0000 + r@[10] * 0x100 + r@[11] == lifetime,
        ask@.len() == 2 && ask@[0] == 0 && ask@[1] == 0,
{
}

/// Renewing asks for the same ports for an hour, half an hour before that ends; releasing
/// asks for the same internal port with no time left.
pub proof fn law_a_mapping_is_renewed_and_released(
    m: PortMapping,
    renew: Vec<u8>,
    free: Vec<u8>,
    every: u64,
)
    requires
        call_ensures(PortMapping::refresh, (&m,), renew),
        call_ensures(PortMapping::release, (&m,), free),
        call_ensures(PortMapping::refresh_interval_secs, (), every),
    ensures
        renew@.len() == 12 && free@.len() == 12,
        renew@[1] == 2 && free@[1] == 2,
        renew@[4] * 256 + renew@[5] == m.internal_port,
        renew@[6] * 256 + renew@[7] == m.external_port,
        renew@[8] * 0x100_0000 + renew@[9] * 0x1_0000 + renew@[10] * 0x100 + renew@[11] == 3600,
        free@[4] * 256 + free@[5] == m.internal_port,
        free@[8] == 0 && free@[9] == 0 && free@[10] == 0 && free@[11] == 0,
        every == 1800,
{
}

/// A port is mapped in order: the gateway is found, it tells the public address, and it tells
/// the external port; the mapping is made of just these.
pub proof fn law_a_port_is_mapped_in_order(
    internal_port: u16,
    gateway: [u8; 4],
    address: Vec<u8>,
    port: Vec<u8>,
    s: Seq<MapStep>,
)
    requires
        s.len() == 4,
        s[0] is FindGateway,
        call_ensures(
            PortMapping::create,
            (s[0], internal_port, MapReply::Gateway(Some(gateway))),
            s[1],
        ),
        call_ensures(
            PortMapping::create,
            (s[1], internal_port, MapReply::Answer(Ok::<Vec<u8>, String>(address))),
            s[2],
        ),
        call_ensures(
            PortMapping::create,
            (s[2], internal_port, MapReply::Answer(Ok::<Vec<u8>, String>(port))),
            s[3],
        ),
        address@.len() >= 12,
        port@.len() >= 12,
    ensures
        s[1] is AskAddress && s[2] is AskPort && s[3] is Done,
        s[3]->Done_0.gateway == gateway,
        s[3]->Done_0.internal_port == internal_port,
        s[3]->Done_0.external_port == port@[10] * 256 + port@[11],
        s[3]->Done_0.public_ip@ == address@.subrange(8, 12),
{
    lemma_found(internal_port, gateway, s[0], s[1]);
    lemma_address_told(internal_port, gateway, address, s[1], s[2]);
    lemma_port_told(internal_port, port, s[2], s[3]);
}

proof fn lemma_found(internal_port: u16, gateway: [u8; 4], step: MapStep, r: MapStep)
    requires
        step is FindGateway,
        call_ensures(
            PortMapping::create,
            (step, internal_port, MapReply::Gateway(Some(gateway))),
            r,
        ),
    ensures
        r == (MapStep::AskAddress { gateway }),
{
}

proof fn lemma_address_told(
    internal_port: u16,
    gateway: [u8; 4],
    address: Vec<u8>,
    step: MapStep,
    r: MapStep,
)
    requires
        step == (MapStep::AskAddress { gateway }),
        call_ensures(
            PortMapping::create,
            (step, internal_port, MapReply::Answer(Ok::<Vec<u8>, String>(address))),
            r,
        ),
        address@.len() >= 12,
    ensures
        r is AskPort && r->AskPort_gateway == gateway,
        r->AskPort_public_ip@ == address@.subrange(8, 12),
{
    crate::net::wire::lemma_be_bytes_read_back(address@.subrange(8, 12));
    assert(be32_at(address@, 8) == Some(be_value(address@.subrange(8, 12)) as u32));
}

proof fn lemma_port_told(internal_port: u16, port: Vec<u8>, step: MapStep, r: MapStep)
    requires
        step is AskPort,
        call_ensures(
            PortMapping::create,
            (step, internal_port, MapReply::Answer(Ok::<Vec<u8>, String>(port))),
            r,
        ),
        port@.len() >= 12,
    ensures
        r is Done,
        r->Done_0.gateway == step->AskPort_gateway,
        r->Done_0.public_ip == step->AskPort_public_ip,
        r->Done_0.internal_port == internal_port,
        r->Done_0.external_port == port@[10] * 256 + port@[11],
{
    assert(0 <= port@[10] * 256 + port@[11] <= 65_535);
    assert(be16_at(port@, 10) == Some((port@[10] * 256 + port@[11]) as u16));
}

/// A port is not mapped without a gateway, an address and a port.
pub proof fn law_no_port_is_mapped_without_answers(
    internal_port: u16,
    step: MapStep,
    e: String,
    r: MapStep,
)
    requires
        step is FindGateway && call_ensures(
            PortMapping::create,
            (step, internal_port, MapReply::Gateway(None::<[u8; 4]>)),
            r,
        ) || (step is AskAddress || step is AskPort) && call_ensures(
            PortMapping::create,
            (step, internal_port, MapReply::Answer(Err::<Vec<u8>, String>(e))),
            r,
        ),
    ensures
        r is Failed,
{
}

/// The public address of a mapping reads back: its four numbers between dots, a colon and
/// the port.
pub proof fn law_a_public_address_reads_back(
    m: PortMapping,
    addr: String,
    host: &str,
    r: Option<[u8; 4]>,
)
    requires
        call_ensures(PortMapping::public_addr, (&m,), addr),
        addr@ == host@ + ":"@ + decimal_text(m.external_port as nat),
        call_ensures(parse_ipv4, (host,), r),
    ensures
        r is Some && r->0@ == m.public_ip@,
{
    let ip = m.public_ip@;
    let d = |i: int| decimal_text(ip[i] as nat);
    let want = d(0) + "."@ + d(1) + "."@ + d(2) + "."@ + d(3);
    let tail = ":"@ + decimal_text(m.external_port as nat);
    assert(addr@ =~= want + tail);
    assert(addr@ =~= host@ + tail);
    assert(host@.len() == want.len());
    assert(host@ =~= addr@.take(want.len() as int));
    assert(host@ =~= want);
    reveal_strlit(".");
    let t2 = d(2).push('.') + d(3);
    let t1 = d(1).push('.') + t2;
    assert(want =~= d(0).push('.') + t1);
    crate::text::lemma_segments_join(d(0), '.', t1);
    crate::text::lemma_segments_join(d(1), '.', t2);
    crate::text::lemma_segments_join(d(2), '.', d(3));
    lemma_octet(ip[0]);
    lemma_octet(ip[1]);
    lemma_octet(ip[2]);
    lemma_octet(ip[3]);
    let p = segments(want, '.');
    assert(p =~= seq![d(0), d(1), d(2), d(3)]);
    if r is Some {
        assert(r->0@ =~= ip);
    }
}

proof fn lemma_octet(n: u8)
    ensures
        octet_of(decimal_text(n as nat)) == Some(n),
        segments(decimal_text(n as nat), '.') == seq![decimal_text(n as nat)],
{
    let d = decimal_text(n as nat);
    crate::text::lemma_decimal_round_trip(n as nat);
    reveal_with_fuel(decimal_text, 3);
    crate::text::lemma_one_segment(d, '.');
}

/// Words are what stands between whitespace: a text without any is one word, and the words of
/// two texts with whitespace between them are the words of both.
pub proof fn law_words_stand_between_whitespace(
    a: &str,
    c: char,
    b: &str,
    all: &str,
    wa: Vec<String>,
    wb: Vec<String>,
    r: Vec<String>,
)
    requires
        whitespace(c),
        all@ == a@.push(c) + b@,
        call_ensures(words, (a,), wa),
        call_ensures(words, (b,), wb),
        call_ensures(words, (all,), r),
    ensures
        texts(r@) == texts(wa@) + texts(wb@),
        a@.len() > 0 && (forall|i: int| 0 <= i < a@.len() ==> !whitespace(#[trigger] a@[i]))
            ==> texts(wa@) == seq![a@],
        a@.len() == 0 ==> wa@.len() == 0,
{
    lemma_words_of_both(a@, c, b@);
    if a@.len() > 0 && (forall|i: int| 0 <= i < a@.len() ==> !whitespace(#[trigger] a@[i])) {
        lemma_one_word(a@);
    }
    assert(texts(wa@).len() == wa@.len());
}

proof fn lemma_one_word(s: Seq<char>)
    requires
        s.len() > 0,
        forall|i: int| 0 <= i < s.len() ==> !whitespace(#[trigger] s[i]),
    ensures
        words_of(s) == seq![s],
    decreases s.len(),
{
    let t = s.drop_last();
    assert(!whitespace(s.last()));
    if t.len() == 0 {
        assert(s =~= seq![s.last()]);
        assert(words_of(t) =~= Seq::<Seq<char>>::empty());
        assert(words_of(s) =~= seq![s]);
    } else {
        assert forall|i: int| 0 <= i < t.len() implies !whitespace(#[trigger] t[i]) by {
            assert(t[i] == s[i]);
        }
        lemma_one_word(t);
        assert(!whitespace(s[s.len() - 2]));
        assert(t.push(s.last()) =~= s);
        assert(words_of(s) =~= seq![s]);
    }
}

proof fn lemma_words_of_both(a: Seq<char>, c: char, b: Seq<char>)
    requires
        whitespace(c),
    ensures
        words_of(a.push(c) + b) == words_of(a) + words_of(b),
    decreases b.len(),
{
    let j = a.push(c) + b;
    if b.len() == 0 {
        assert(j =~= a.push(c));
        assert(j.drop_last() =~= a);
        assert(words_of(j) =~= words_of(a) + words_of(b));
    } else {
        let t = b.drop_last();
        lemma_words_of_both(a, c, t);
        assert(j.drop_last() =~= a.push(c) + t);
        assert(j.last() == b.last());
        if !whitespace(b.last()) {
            if b.len() == 1 {
                assert(j[j.len() - 2] == c);
            } else {
                assert(j[j.len() - 2] == b[b.len() - 2]);
                if !whitespace(b[b.len() - 2]) {
                    assert(t.last() == b[b.len() - 2]);
                    lemma_words_end(t);
                }
            }
        }
        assert(words_of(j) =~= words_of(a) + words_of(b));
    }
}

/// A line ends at a line feed, and a carriage return before it is no part of the line.
pub proof fn law_lines_end_at_line_feeds(
    a: &str,
    rest: &str,
    all: &str,
    below: Vec<String>,
    r: Vec<String>,
)
    requires
        !a@.contains('\n'),
        all@ == a@.push('\n') + rest@,
        call_ensures(lines, (rest,), below),
        call_ensures(lines, (all,), r),
    ensures
        r@.len() == below@.len() + 1,
        a@.len() > 0 && a@.last() == '\r' ==> r@[0]@ == a@.drop_last(),
        a@.len() == 0 || a@.last() != '\r' ==> r@[0]@ == a@,
        forall|i: int| 0 <= i < below@.len() ==> (#[trigger] below@[i])@ == r@[i + 1]@,
{
    crate::text::lemma_one_segment(a@, '\n');
    crate::text::lemma_segments_join(a@, '\n', rest@);
    crate::text::lemma_segments_nonempty(rest@, '\n');
    let pa = segments(all@, '\n');
    let pr = segments(rest@, '\n');
    assert(pa.drop_last() =~= seq![a@] + pr.drop_last());
    assert(lines_of(all@) =~= seq![without_return(a@)] + lines_of(rest@));
    assert(texts(r@)[0] == r@[0]@);
    assert forall|i: int| 0 <= i < below@.len() implies (#[trigger] below@[i])@ == r@[i + 1]@ by {
        assert(texts(below@)[i] == below@[i]@);
        assert(texts(r@)[i + 1] == r@[i + 1]@);
    }
    assert(texts(r@).len() == r@.len() && texts(below@).len() == below@.len());
}

/// A hexadecimal number grows by a digit at its end as numbers do.
pub proof fn law_a_hexadecimal_number_is_read_digit_by_digit(
    s: &str,
    c: char,
    longer: &str,
    n: u32,
    r: Option<u32>,
)
    requires
        longer@ == s@.push(c),
        call_ensures(parse_hex_u32, (s,), Some(n)),
        call_ensures(parse_hex_u32, (longer,), r),
    ensures
        '0' <= c <= '9' && n < 0x1000_0000 ==> r == Some((n * 16 + (c as u32 - 48)) as u32),
        'a' <= c <= 'f' && n < 0x1000_0000 ==> r == Some((n * 16 + (c as u32 - 87)) as u32),
        'A' <= c <= 'F' && n < 0x1000_0000 ==> r == Some((n * 16 + (c as u32 - 55)) as u32),
        n >= 0x1000_0000 ==> r is None,
{
    let d = without_plus(s@);
    let e = without_plus(longer@);
    assert(e =~= d.push(c));
    assert(e.drop_last() =~= d);
    assert(e.last() == c);
    assert forall|i: int| 0 <= i < d.len() implies char_hex_value(#[trigger] e[i]) is Some by {
        assert(e[i] == d[i]);
    }
    if char_hex_value(c) is Some {
        assert(all_hex_digits(e));
    }
}

/// The gateway of the kernel's routing table is that of the first default route with one: the
/// first line under the heading whose second word is all zeros and whose third writes a
/// number other than zero, with the address lowest byte first.
pub proof fn law_the_default_route_gives_the_gateway(
    table: &str,
    all: Vec<String>,
    cols: Seq<Seq<char>>,
    at: int,
    raw: u32,
    r: Option<[u8; 4]>,
)
    requires
        call_ensures(lines, (table,), all),
        1 <= at < all@.len(),
        forall|i: int| 1 <= i < at ==> is_other_route((#[trigger] all@[i])@),
        cols == words_of(all@[at]@),
        cols.len() >= 3,
        cols[1] == "00000000"@,
        hex_u32_of(cols[2]) == Some(raw),
        raw != 0,
        call_ensures(linux_gateway, (table,), r),
    ensures
        r is Some,
        r->0@[0] + r->0@[1] * 0x100 + r->0@[2] * 0x1_0000 + r->0@[3] * 0x100_0000 == raw,
{
    let t = lines_of(table@);
    assert forall|i: int| 1 <= i < at implies is_other_route(#[trigger] t[i]) by {
        assert(is_other_route(all@[i]@));
        assert(texts(all@)[i] == all@[i]@);
    }
    assert(texts(all@)[at] == all@[at]@);
    lemma_route_found(t, 1, at, raw);
}

/// Whether a line of the routing table is in order and gives no gateway for other networks.
pub open spec fn is_other_route(line: Seq<char>) -> bool {
    let cols = words_of(line);
    cols.len() >= 3 && (cols[1] != "00000000"@ || hex_u32_of(cols[2]) == Some(0u32))
}

proof fn lemma_route_found(t: Seq<Seq<char>>, from: int, at: int, raw: u32)
    requires
        0 <= from <= at < t.len(),
        forall|i: int| from <= i < at ==> is_other_route(#[trigger] t[i]),
        words_of(t[at]).len() >= 3,
        words_of(t[at])[1] == "00000000"@,
        hex_u32_of(words_of(t[at])[2]) == Some(raw),
        raw != 0,
    ensures
        route_gateway(t.skip(from)) == Some(raw),
    decreases at - from,
{
    assert(t.skip(from)[0] == t[from]);
    assert(t.skip(from).skip(1) =~= t.skip(from + 1));
    if from < at {
        assert(is_other_route(t[from]));
        lemma_route_found(t, from + 1, at, raw);
    }
}

/// The route query of the BSDs names the gateway in a line of its own.
pub proof fn law_the_named_gateway_is_found(
    text: &str,
    all: Vec<String>,
    at: int,
    host: &str,
    ip: [u8; 4],
    r: Option<[u8; 4]>,
)
    requires
        call_ensures(lines, (text,), all),
        0 <= at < all@.len(),
        forall|i: int|
            0 <= i < at ==> !begins_with(trimmed((#[trigger] all@[i])@), "gateway:"@),
        trimmed(all@[at]@) == "gateway:"@ + " "@ + host@,
        trimmed(" "@ + host@) == host@,
        call_ensures(parse_ipv4, (host,), Some(ip)),
        call_ensures(bsd_gateway, (text,), r),
    ensures
        r is Some && r->0@ == ip@,
{
    let t = lines_of(text@);
    let of = |l: Seq<char>| named_gateway(l);
    assert forall|i: int| 0 <= i < at implies of(#[trigger] t[i]) is None by {
        assert(texts(all@)[i] == all@[i]@);
    }
    reveal_strlit("gateway:");
    let line = trimmed(all@[at]@);
    assert(texts(all@)[at] == all@[at]@);
    assert(line.take(8) =~= "gateway:"@);
    assert(line.skip(8) =~= " "@ + host@);
    lemma_gateway_found(t, of, 0, at);
    assert(t.skip(0) =~= t);
}

/// The route query of Windows gives the gateway as the first line that is an address.
pub proof fn law_the_first_address_is_the_gateway(
    text: &str,
    all: Vec<String>,
    at: int,
    host: &str,
    ip: [u8; 4],
    r: Option<[u8; 4]>,
)
    requires
        call_ensures(lines, (text,), all),
        0 <= at < all@.len(),
        forall|i: int| 0 <= i < at ==> ipv4_of(trimmed((#[trigger] all@[i])@)) is None,
        host@ == trimmed(all@[at]@),
        call_ensures(parse_ipv4, (host,), Some(ip)),
        call_ensures(windows_gateway, (text,), r),
    ensures
        r is Some && r->0@ == ip@,
{
    let t = lines_of(text@);
    let of = |l: Seq<char>| ipv4_of(trimmed(l));
    assert forall|i: int| 0 <= i < at implies of(#[trigger] t[i]) is None by {
        assert(texts(all@)[i] == all@[i]@);
    }
    assert(texts(all@)[at] == all@[at]@);
    lemma_gateway_found(t, of, 0, at);
    assert(t.skip(0) =~= t);
}

proof fn lemma_gateway_found(
    t: Seq<Seq<char>>,
    of: spec_fn(Seq<char>) -> Option<Seq<u8>>,
    from: int,
    at: int,
)
    requires
        0 <= from <= at < t.len(),
        forall|i: int| from <= i < at ==> of(#[trigger] t[i]) is None,
        of(t[at]) is Some,
    ensures
        first_gateway(t.skip(from), of) == of(t[at]),
    decreases at - from,
{
    assert(t.skip(from)[0] == t[from]);
    assert(t.skip(from).skip(1) =~= t.skip(from + 1));
    if from < at {
        assert(of(t[from]) is None);
        lemma_gateway_found(t, of, from + 1, at);
    }
}

} // verus!
