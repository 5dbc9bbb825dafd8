//! The packet filter: the query for a redirected connection's destination, and
//! the rules that redirect connections.
//!
//! The filter's device and its control program are worked outside.

use vstd::prelude::*;
use vstd::string::StringExecFns;

use crate::net::{Endpoint, EndpointView};

verus! {

/// The control code of the query: read and write, 84 bytes, group `D`, number 23.
pub const DIOCNATLOOK: u64 = 0xC054_4417;

/// The direction in which a redirected connection left.
pub const PF_OUT: u8 = 2;

/// The address family of IPv4.
pub const AF_INET: u8 = 2;

/// The protocol number of TCP.
pub const IPPROTO_TCP: u8 = 6;

/// Bytes of a query.
pub const NATLOOK_SIZE: usize = 84;

/// An address of the packet filter: IPv4 in the first four bytes.
#[derive(Debug, Clone, Copy)]
pub struct PfAddr {
    v4: [u8; 4],
    pad: [u8; 12],
}

impl View for PfAddr {
    type V = Seq<u8>;

    /// The sixteen bytes.
    closed spec fn view(&self) -> Seq<u8> {
        self.v4@ + self.pad@
    }
}

/// The sixteen bytes of an IPv4 address.
pub open spec fn addr_bytes(ip: Seq<u8>) -> Seq<u8> {
    ip + Seq::new(12, |i: int| 0u8)
}

impl PfAddr {
    /// The address as the packet filter holds it.
    pub fn from_ipv4(ip: [u8; 4]) -> (a: Self)
        ensures
            a@ == addr_bytes(ip@),
    {
        let a = PfAddr { v4: ip, pad: [0u8, 0, 0, 0, 0, 0, 0, 0, 0, 0, 0, 0] };
        assert(a@ == addr_bytes(ip@));
        a
    }

    /// The IPv4 address.
    pub fn to_ipv4(&self) -> (ip: [u8; 4])
        ensures
            ip@ == self@.take(4),
    {
        assert(self.v4@ == self@.take(4));
        self.v4
    }

    /// Reads sixteen bytes at `at`.
    fn read(data: &[u8], at: usize) -> (a: Self)
        requires
            at + 16 <= data@.len(),
        ensures
            a@ == data@.subrange(at as int, at + 16),
    {
        let a = PfAddr {
            v4: [data[at], data[at + 1], data[at + 2], data[at + 3]],
            pad: [
                data[at + 4],
                data[at + 5],
                data[at + 6],
                data[at + 7],
                data[at + 8],
                data[at + 9],
                data[at + 10],
                data[at + 11],
                data[at + 12],
                data[at + 13],
                data[at + 14],
                data[at + 15],
            ],
        };
        assert(a@ == data@.subrange(at as int, at + 16));
        a
    }

    /// Appends the sixteen bytes.
    fn write(&self, out: &mut Vec<u8>)
        ensures
            final(out)@ == old(out)@ + self@,
    {
        for i in 0..4
            invariant
                out@ == old(out)@ + self.v4@.take(i as int),
        {
            out.push(self.v4[i]);
            assert(self.v4@.take(i + 1) == self.v4@.take(i as int).push(self.v4@[i as int]));
        }
        assert(self.v4@.take(4) == self.v4@);
        for i in 0..12
            invariant
                out@ == old(out)@ + self.v4@ + self.pad@.take(i as int),
        {
            out.push(self.pad[i]);
            assert(self.pad@.take(i + 1) == self.pad@.take(i as int).push(self.pad@[i as int]));
        }
        assert(self.pad@.take(12) == self.pad@);
        assert(out@ == old(out)@ + self@);
    }
}

/// A port of the packet filter: two bytes, most significant first, and padding.
#[derive(Debug, Clone, Copy)]
pub struct PfStateXport {
    port: [u8; 2],
    pad: [u8; 2],
}

impl View for PfStateXport {
    type V = Seq<u8>;

    /// The four bytes.
    closed spec fn view(&self) -> Seq<u8> {
        self.port@ + self.pad@
    }
}

/// The four bytes of a port.
pub open spec fn port_bytes(port: u16) -> Seq<u8> {
    seq![(port / 256) as u8, (port % 256) as u8, 0, 0]
}

/// The port that four bytes hold.
pub open spec fn port_of(data: Seq<u8>) -> u16 {
    (data[0] * 256 + data[1]) as u16
}

impl PfStateXport {
    /// The port as the packet filter holds it.
    pub fn from_port(port: u16) -> (x: Self)
        ensures
            x@ == port_bytes(port),
    {
        let x = PfStateXport { port: [(port / 256) as u8, (port % 256) as u8], pad: [0u8, 0] };
        assert(x@ == port_bytes(port));
        x
    }

    /// The port.
    pub fn port_value(&self) -> (p: u16)
        ensures
            p == port_of(self@),
    {
        self.port[0] as u16 * 256 + self.port[1] as u16
    }

    /// Reads four bytes at `at`.
    fn read(data: &[u8], at: usize) -> (x: Self)
        requires
            at + 4 <= data@.len(),
        ensures
            x@ == data@.subrange(at as int, at + 4),
    {
        let x = PfStateXport {
            port: [data[at], data[at + 1]],
            pad: [data[at + 2], data[at + 3]],
        };
        assert(x@ == data@.subrange(at as int, at + 4));
        x
    }

    /// Appends the four bytes.
    fn write(&self, out: &mut Vec<u8>)
        ensures
            final(out)@ == old(out)@ + self@,
    {
        out.push(self.port[0]);
        out.push(self.port[1]);
        out.push(self.pad[0]);
        out.push(self.pad[1]);
        assert(out@ == old(out)@ + self@);
    }
}

/// The query for the destination of a redirected connection, and its answer.
#[derive(Debug, Clone, Copy)]
pub struct PfiocNatlook {
    saddr: PfAddr,
    daddr: PfAddr,
    rsaddr: PfAddr,
    rdaddr: PfAddr,
    sxport: PfStateXport,
    dxport: PfStateXport,
    rsxport: PfStateXport,
    rdxport: PfStateXport,
    af: u8,
    proto: u8,
    direction: u8,
    pad: u8,
}

impl View for PfiocNatlook {
    type V = Seq<u8>;

    /// The query in memory: four addresses, four ports, family, protocol,
    /// direction and a byte of padding.
    closed spec fn view(&self) -> Seq<u8> {
        self.saddr@ + self.daddr@ + self.rsaddr@ + self.rdaddr@ + self.sxport@ + self.dxport@
            + self.rsxport@ + self.rdxport@ + seq![self.af, self.proto, self.direction, self.pad]
    }
}

/// Sixteen zero bytes.
pub open spec fn no_addr() -> Seq<u8> {
    Seq::new(16, |i: int| 0u8)
}

/// The query about a TCP connection from `client` to `listen`: where it came
/// from and went to, and zeros in place of the answer.
pub open spec fn natlook_query(client: EndpointView, listen: EndpointView) -> Seq<u8> {
    addr_bytes(client.ip) + addr_bytes(listen.ip) + no_addr() + no_addr() + port_bytes(client.port)
        + port_bytes(listen.port) + port_bytes(0) + port_bytes(0) + seq![
        AF_INET,
        IPPROTO_TCP,
        PF_OUT,
        0u8,
    ]
}

/// The destination in an answered query: the fourth address and the fourth
/// port.
pub open spec fn natlook_destination(data: Seq<u8>) -> EndpointView {
    EndpointView { ip: data.subrange(48, 52), port: port_of(data.subrange(76, 80)) }
}

impl PfiocNatlook {
    /// The query about a TCP connection from `client` to `listen`.
    pub fn new(client: Endpoint, listen: Endpoint) -> (q: Self)
        ensures
            q@ == natlook_query(client@, listen@),
    {
        let none = PfAddr::from_ipv4([0u8, 0, 0, 0]);
        assert(none@ =~= no_addr());
        let q = PfiocNatlook {
            saddr: PfAddr::from_ipv4(client.ip),
            daddr: PfAddr::from_ipv4(listen.ip),
            rsaddr: none,
            rdaddr: none,
            sxport: PfStateXport::from_port(client.port),
            dxport: PfStateXport::from_port(listen.port),
            rsxport: PfStateXport::from_port(0),
            rdxport: PfStateXport::from_port(0),
            af: AF_INET,
            proto: IPPROTO_TCP,
            direction: PF_OUT,
            pad: 0,
        };
        q
    }

    /// The bytes of the query.
    pub fn to_bytes(&self) -> (data: Vec<u8>)
        ensures
            data@ == self@,
            data@.len() == NATLOOK_SIZE,
    {
        let mut data: Vec<u8> = Vec::new();
        self.saddr.write(&mut data);
        self.daddr.write(&mut data);
        self.rsaddr.write(&mut data);
        self.rdaddr.write(&mut data);
        self.sxport.write(&mut data);
        self.dxport.write(&mut data);
        self.rsxport.write(&mut data);
        self.rdxport.write(&mut data);
        data.push(self.af);
        data.push(self.proto);
        data.push(self.direction);
        data.push(self.pad);
        assert(data@ == self@);
        data
    }

    /// The query that the bytes hold.
    pub fn from_bytes(data: &[u8]) -> (q: Self)
        requires
            data@.len() == NATLOOK_SIZE,
        ensures
            q@ == data@,
    {
        let q = PfiocNatlook {
            saddr: PfAddr::read(data, 0),
            daddr: PfAddr::read(data, 16),
            rsaddr: PfAddr::read(data, 32),
            rdaddr: PfAddr::read(data, 48),
            sxport: PfStateXport::read(data, 64),
            dxport: PfStateXport::read(data, 68),
            rsxport: PfStateXport::read(data, 72),
            rdxport: PfStateXport::read(data, 76),
            af: data[80],
            proto: data[81],
            direction: data[82],
            pad: data[83],
        };
        assert(q@ =~= data@);
        q
    }

    /// The original destination in an answered query.
    pub fn destination(&self) -> (d: Endpoint)
        ensures
            d@ == natlook_destination(self@),
    {
        let d = Endpoint { ip: self.rdaddr.to_ipv4(), port: self.rdxport.port_value() };
        assert(self@.subrange(48, 52) == self.rdaddr@.take(4));
        assert(self@.subrange(76, 80) == self.rdxport@);
        d
    }
}

/// The wording of a failed query.
pub open spec fn natlook_failure(
    client: EndpointView,
    listen: EndpointView,
    cause: Seq<char>,
) -> Seq<char> {
    "DIOCNATLOOK failed for "@ + client.text() + "\u{2192}"@ + listen.text() + ": "@ + cause
}

/// What came back from the packet filter.
#[derive(Debug)]
pub enum NatlookReply {
    /// The query, answered in place.
    Answered { query: PfiocNatlook },
    /// The query failed for this cause.
    Failed { cause: String },
}

/// What comes of a query, if it was answered with these bytes or failed for this
/// cause.
pub open spec fn looked_up(
    client: EndpointView,
    listen: EndpointView,
    answer: Result<Seq<u8>, Seq<char>>,
) -> Result<EndpointView, Seq<char>> {
    match answer {
        Ok(data) => Ok(natlook_destination(data)),
        Err(cause) => Err(natlook_failure(client, listen, cause)),
    }
}

/// The original destination of a redirected connection from `client` to
/// `listen`, or the failure in words.
pub fn natlook(client: Endpoint, listen: Endpoint, reply: &NatlookReply) -> (r: Result<
    Endpoint,
    String,
>)
    ensures
        r matches Ok(d) ==> reply is Answered && looked_up(
            client@,
            listen@,
            Ok(reply->query@),
        ) == Ok::<EndpointView, Seq<char>>(d@),
        r matches Err(e) ==> reply is Failed && looked_up(
            client@,
            listen@,
            Err(reply->cause@),
        ) == Err::<EndpointView, Seq<char>>(e@),
        (match reply {
            NatlookReply::Answered { query } => r matches Ok(d) && d@ == natlook_destination(
                query@,
            ),
            NatlookReply::Failed { cause } => r matches Err(e) && e@ == natlook_failure(
                client@,
                listen@,
                cause@,
            ),
        }),
{
    match reply {
        NatlookReply::Answered { query } => Ok(query.destination()),
        NatlookReply::Failed { cause } => {
            let mut s = "DIOCNATLOOK failed for ".to_string();
            s.append(client.to_text().as_str());
            s.append("\u{2192}");
            s.append(listen.to_text().as_str());
            s.append(": ");
            s.append(cause.as_str());
            Err(s)
        },
    }
}

/// A query is 84 bytes long.
pub proof fn law_query_size(client: EndpointView, listen: EndpointView)
    requires
        client.ip.len() == 4,
        listen.ip.len() == 4,
    ensures
        natlook_query(client, listen).len() == NATLOOK_SIZE,
{
}

/// A port comes back from its four bytes.
pub proof fn law_port_survives(port: u16)
    ensures
        port_of(port_bytes(port)) == port,
{
}

/// A query with a destination written in at the place of the answer.
pub open spec fn answered(query: Seq<u8>, d: EndpointView) -> Seq<u8> {
    query.take(48) + addr_bytes(d.ip) + query.subrange(64, 76) + port_bytes(d.port) + query.skip(80)
}

/// The destination that the packet filter writes into a query is the one read
/// out of it.
pub proof fn law_answer_is_read(query: Seq<u8>, d: EndpointView)
    requires
        query.len() == NATLOOK_SIZE,
        d.ip.len() == 4,
    ensures
        natlook_destination(answered(query, d)) == d,
{
    let a = answered(query, d);
    assert(a.subrange(48, 52) =~= d.ip);
    assert(a.subrange(76, 80) =~= port_bytes(d.port));
}

/// An answered query gives the destination in it, and a failed one the failure.
pub proof fn law_answers_give_destinations(
    client: EndpointView,
    listen: EndpointView,
    data: Seq<u8>,
    cause: Seq<char>,
)
    ensures
        looked_up(client, listen, Ok(data)) == Ok::<EndpointView, Seq<char>>(
            natlook_destination(data),
        ),
        looked_up(client, listen, Err(cause)) == Err::<EndpointView, Seq<char>>(
            natlook_failure(client, listen, cause),
        ),
{
}

} // verus!
