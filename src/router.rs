use vstd::prelude::*;

use crate::addr::SockAddr;
use crate::plugin::PluginDescriptor;

verus! {

/// The router's routing state: where upstream traffic goes and which sources
/// are plugins. It is fixed once the plugins are loaded.
pub struct Router {
    pub send_addr: SockAddr,
    pub plugin_addrs: Vec<SockAddr>,
}

/// Where a datagram from `src` is sent: to the upstream application when it
/// comes from a plugin, else to every plugin, in the order they were loaded.
pub open spec fn route(send_addr: SockAddr, plugin_addrs: Seq<SockAddr>, src: SockAddr) -> Seq<SockAddr> {
    if plugin_addrs.contains(src) {
        seq![send_addr]
    } else {
        plugin_addrs
    }
}

impl Router {
    /// A router that forwards plugin traffic to `send_addr` and knows the
    /// plugins by the local addresses of their sockets.
    pub fn new(send_addr: SockAddr, plugins: &Vec<PluginDescriptor>) -> (r: Router)
        ensures
            r.send_addr == send_addr,
            r.plugin_addrs@.len() == plugins@.len(),
            forall|i: int| 0 <= i < plugins@.len() ==> r.plugin_addrs@[i] == plugins@[i].local,
    {
        let mut plugin_addrs: Vec<SockAddr> = Vec::new();
        let mut i: usize = 0;
        while i < plugins.len()
            invariant
                i <= plugins@.len(),
                plugin_addrs@.len() == i,
                forall|k: int| 0 <= k < i ==> plugin_addrs@[k] == plugins@[k].local,
            decreases plugins@.len() - i,
        {
            plugin_addrs.push(plugins[i].local);
            i += 1;
        }
        Router { send_addr, plugin_addrs }
    }

    /// Whether `src` is the address of a plugin's socket.
    pub fn is_plugin(&self, src: &SockAddr) -> (r: bool)
        ensures
            r == self.plugin_addrs@.contains(*src),
    {
        let mut i: usize = 0;
        while i < self.plugin_addrs.len()
            invariant
                i <= self.plugin_addrs@.len(),
                forall|k: int| 0 <= k < i ==> self.plugin_addrs@[k] != *src,
            decreases self.plugin_addrs@.len() - i,
        {
            if self.plugin_addrs[i] == *src {
                return true;
            }
            i += 1;
        }
        false
    }

    /// The destinations of one datagram received from `src`, each to be sent
    /// the received bytes unchanged.
    pub fn destinations(&self, src: &SockAddr) -> (r: Vec<SockAddr>)
        ensures
            r@ == route(self.send_addr, self.plugin_addrs@, *src),
    {
        if self.is_plugin(src) {
            return vec![self.send_addr];
        }
        let mut r: Vec<SockAddr> = Vec::new();
        let mut i: usize = 0;
        while i < self.plugin_addrs.len()
            invariant
                i <= self.plugin_addrs@.len(),
                r@ == self.plugin_addrs@.subrange(0, i as int),
            decreases self.plugin_addrs@.len() - i,
        {
            r.push(self.plugin_addrs[i]);
            i += 1;
            assert(r@ =~= self.plugin_addrs@.subrange(0, i as int));
        }
        assert(r@ =~= self.plugin_addrs@);
        r
    }
}

/// A datagram from a source that is no plugin reaches every plugin.
pub proof fn lemma_upstream_reaches_every_plugin(router: Router, src: SockAddr, p: SockAddr)
    requires
        !router.plugin_addrs@.contains(src),
        router.plugin_addrs@.contains(p),
    ensures
        route(router.send_addr, router.plugin_addrs@, src).contains(p),
{
}

/// A datagram from a plugin is sent exactly once, and to the upstream
/// application only.
pub proof fn lemma_plugin_traffic_sent_upstream_once(router: Router, src: SockAddr)
    requires
        router.plugin_addrs@.contains(src),
    ensures
        route(router.send_addr, router.plugin_addrs@, src) == seq![router.send_addr],
        route(router.send_addr, router.plugin_addrs@, src).len() == 1,
{
}

/// The router sends nothing to its own bind address, where that address is
/// neither a plugin's nor the upstream application's.
pub proof fn lemma_never_sends_to_bind(router: Router, bind_addr: SockAddr, src: SockAddr)
    requires
        !router.plugin_addrs@.contains(bind_addr),
        router.send_addr != bind_addr,
    ensures
        !route(router.send_addr, router.plugin_addrs@, src).contains(bind_addr),
{
    if router.plugin_addrs@.contains(src) {
        assert(seq![router.send_addr][0] == router.send_addr);
    }
}

} // verus!
