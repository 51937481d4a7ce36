use vstd::prelude::*;

use crate::text::{lacks, lemma_replaced_absent, replace_all, replaced};

verus! {

/// An IP address, as the numbers that identify it.
#[derive(Clone, Copy, Debug, PartialEq, Eq, Hash, Structural)]
pub enum IpAddress {
    V4(u32),
    V6 { ip: u128, flowinfo: u32, scope_id: u32 },
}

/// A socket address: an IP address and a port. Two are equal when the IP
/// addresses and the ports are.
#[derive(Clone, Copy, Debug, PartialEq, Eq, Hash, Structural)]
pub struct SockAddr {
    pub ip: IpAddress,
    pub port: u16,
}

/// The host that a wildcard bind address is written with.
pub open spec fn wildcard_host() -> Seq<char> {
    "0.0.0.0"@
}

/// The loopback host that a plugin sends to in its place.
pub open spec fn loopback_host() -> Seq<char> {
    "127.0.0.1"@
}

/// The address that a plugin's socket is connected to: the configured bind
/// address with each wildcard host written as the loopback host.
pub open spec fn router_peer(bind_addr: Seq<char>) -> Seq<char> {
    replaced(bind_addr, wildcard_host(), loopback_host())
}

/// The address that each plugin's socket connects to, so that every datagram
/// that a plugin sends reaches the router from a loopback source.
pub fn loader_addr(bind_addr: &str) -> (r: String)
    ensures
        r@ == router_peer(bind_addr@),
{
    proof {
        reveal_strlit("0.0.0.0");
    }
    replace_all(bind_addr, "0.0.0.0", "127.0.0.1")
}

/// A wildcard bind address `0.0.0.0:PORT` gives the peer address
/// `127.0.0.1:PORT`, for every port written without a dot.
pub proof fn lemma_wildcard_peer_is_loopback(port: Seq<char>)
    requires
        lacks(port, '.'),
    ensures
        router_peer(wildcard_host() + ":"@ + port) == loopback_host() + ":"@ + port,
{
    reveal_strlit("0.0.0.0");
    reveal_strlit("127.0.0.1");
    reveal_strlit(":");
    let s = wildcard_host() + ":"@ + port;
    let rest = ":"@ + port;
    assert(s.subrange(0, 7) =~= wildcard_host());
    assert(s.subrange(7, s.len() as int) =~= rest);
    assert(lacks(rest, '.')) by {
        assert forall|i: int| 0 <= i < rest.len() implies rest[i] != '.' by {
            if i > 0 {
                assert(rest[i] == port[i - 1]);
            }
        }
    }
    assert(wildcard_host()[1] == '.');
    lemma_replaced_absent(rest, wildcard_host(), loopback_host(), '.');
    assert(loopback_host() + rest =~= loopback_host() + ":"@ + port);
}

} // verus!
