//! IPv4 endpoints.

use vstd::prelude::*;
use vstd::string::StringExecFns;

use crate::text::{decimal, push_decimal};

verus! {

/// An IPv4 address and a port.
#[derive(Debug, Clone, Copy, PartialEq, Eq)]
pub struct Endpoint {
    pub ip: [u8; 4],
    pub port: u16,
}

/// The contents of an `Endpoint`.
#[verifier::ext_equal]
pub struct EndpointView {
    pub ip: Seq<u8>,
    pub port: u16,
}

impl View for Endpoint {
    type V = EndpointView;

    open spec fn view(&self) -> EndpointView {
        EndpointView { ip: self.ip@, port: self.port }
    }
}

/// An address in dotted decimal.
pub open spec fn dotted(ip: Seq<u8>) -> Seq<char> {
    decimal(ip[0] as nat) + "."@ + decimal(ip[1] as nat) + "."@ + decimal(ip[2] as nat) + "."@
        + decimal(ip[3] as nat)
}

impl EndpointView {
    /// The endpoint as text: address, colon, port.
    pub open spec fn text(self) -> Seq<char> {
        dotted(self.ip) + ":"@ + decimal(self.port as nat)
    }
}

impl Endpoint {
    /// Writes the endpoint as text.
    pub fn to_text(&self) -> (s: String)
        ensures
            s@ == self@.text(),
    {
        let mut s = String::new();
        push_decimal(&mut s, self.ip[0] as u64);
        s.append(".");
        push_decimal(&mut s, self.ip[1] as u64);
        s.append(".");
        push_decimal(&mut s, self.ip[2] as u64);
        s.append(".");
        push_decimal(&mut s, self.ip[3] as u64);
        s.append(":");
        push_decimal(&mut s, self.port as u64);
        assert(s@ == self@.text());
        s
    }
}

/// The contents of an endpoint are its four bytes and its port.
pub proof fn law_endpoints_show_their_fields(e: Endpoint)
    ensures
        e@.ip == e.ip@,
        e@.port == e.port,
        e@.ip.len() == 4,
{
}

} // verus!
