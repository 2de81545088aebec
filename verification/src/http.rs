//! What the listener serves, and where.

use vstd::prelude::*;

verus! {

/// An IPv4 address and a port.
#[derive(Clone, Copy, Debug, PartialEq, Eq)]
pub struct ListenAddr {
    /// The four octets of the address, most significant first.
    pub octets: (u8, u8, u8, u8),
    /// The TCP port.
    pub port: u16,
}

/// The address that the listener binds: port 8080 on the loopback
/// interface.
pub open spec fn loopback_8080() -> ListenAddr {
    ListenAddr { octets: (127, 0, 0, 1), port: 8080 }
}

/// The address that the listener binds.
pub fn listen_addr() -> (addr: ListenAddr)
    ensures
        addr == loopback_8080(),
{
    ListenAddr { octets: (127, 0, 0, 1), port: 8080 }
}

/// The answer to a request.
#[derive(Clone, Copy, Debug, PartialEq, Eq)]
pub struct Response {
    /// The HTTP status code.
    pub status: u16,
    /// What is sent back, as text.
    pub body: &'static str,
}

/// Answers a request.
///
/// There is one route and it matches everything: whatever the method and
/// the path, the answer is `200` with the body `Hello, World!`.  Headers
/// and body of the request are not even looked at.
pub fn respond(method: &str, path: &str) -> (response: Response)
    ensures
        response.status == 200,
        response.body@ == "Hello, World!"@,
{
    Response { status: 200, body: "Hello, World!" }
}

} // verus!
