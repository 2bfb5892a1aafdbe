use vstd::prelude::*;

use crate::config::Config;
use crate::request::Request;

verus! {

/// The size of one read chunk of the stream reader's heuristic.
pub const READ_CHUNK_SIZE: usize = 1024;

/// The server: a configuration, handed read-only to the handling of every
/// accepted connection. Binding, accepting and the per-connection I/O runs
/// outside the library and takes its decisions from here.
pub struct Server {
    pub config: Config,
}

impl Server {
    /// A server that will serve with exactly this configuration.
    pub fn new(config: Config) -> (s: Server)
        ensures
            s.config == config,
    {
        Server { config }
    }
}

/// One step of the stream reader's heuristic, after a read put `n` bytes at
/// the front of `chunk`: the bytes read are appended to the message, and
/// reading goes on only when the chunk came back full — an empty read means
/// the peer closed, a short read that no more data is arriving right now.
/// A message whose size is an exact multiple of the chunk size can therefore
/// be over-read or stall: the heuristic is a boundary guess, not a framing
/// protocol.
pub fn read_step(buffer: &mut Vec<u8>, chunk: &Vec<u8>, n: usize) -> (more: bool)
    requires
        n <= chunk.len(),
    ensures
        final(buffer)@ == old(buffer)@ + chunk@.take(n as int),
        more == (n == chunk@.len() && n > 0),
{
    let mut j: usize = 0;
    while j < n
        invariant
            j <= n,
            n <= chunk.len(),
            buffer@ == old(buffer)@ + chunk@.take(j as int),
        decreases n - j,
    {
        buffer.push(chunk[j]);
        proof {
            assert(chunk@.take(j as int + 1) =~= chunk@.take(j as int) + seq![chunk@[j as int]]);
            assert(old(buffer)@ + chunk@.take(j as int + 1) =~= (old(buffer)@ + chunk@.take(
                j as int,
            )) + seq![chunk@[j as int]]);
        }
        j = j + 1;
    }
    n == chunk.len() && n > 0
}

/// The forwarding strategy of a request: an opaque bidirectional tunnel for
/// CONNECT, a single request/response relay for every other method.
#[derive(Clone, Copy, Debug, PartialEq, Eq, Structural)]
pub enum Strategy {
    Tunnel,
    Direct,
}

/// Which strategy serves the request: the tunnel exactly for CONNECT.
pub fn select_strategy(request: &Request) -> (s: Strategy)
    ensures
        (s == Strategy::Tunnel) <==> request.method@ == "CONNECT"@,
{
    let connect = String::from_str("CONNECT");
    if request.method == connect {
        Strategy::Tunnel
    } else {
        Strategy::Direct
    }
}

/// Where the connection is forwarded: with proxying enabled, always the
/// configured upstream proxy, whatever the request says; otherwise the
/// request's own host and port.
pub fn route(request: &Request, config: &Config) -> (dest: (String, i32))
    ensures
        config.enable_proxy ==> dest.0@ == config.proxy_host@ && dest.1 == config.proxy_port,
        !config.enable_proxy ==> dest.0@ == request.host@ && dest.1 == request.port,
{
    if config.enable_proxy {
        (config.proxy_host.clone(), config.proxy_port)
    } else {
        (request.host.clone(), request.port)
    }
}

/// The acknowledgement the tunnel sends the client before any tunneled
/// byte: the request's version token, then a fixed 200 line and a blank
/// line.
pub fn connect_ack(version: &String) -> (ack: String)
    ensures
        ack@ == version@ + " 200 Connection Established\r\n\r\n"@,
{
    version.clone().concat(" 200 Connection Established\r\n\r\n")
}

} // verus!
