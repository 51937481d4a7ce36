use vrc_osc::addr::{loader_addr, IpAddress, SockAddr};
use vrc_osc::plugin::PluginDescriptor;
use vrc_osc::router::Router;

fn v4(a: u8, b: u8, c: u8, d: u8, port: u16) -> SockAddr {
    SockAddr { ip: IpAddress::V4(u32::from_be_bytes([a, b, c, d])), port }
}

fn plugin(name: &str, local: SockAddr) -> PluginDescriptor {
    PluginDescriptor { path: format!("/opt/host/{name}"), name: name.to_string(), local }
}

fn two_plugin_router() -> Router {
    let plugins = vec![plugin("a.so", v4(127, 0, 0, 1, 40001)), plugin("b.so", v4(127, 0, 0, 1, 40002))];
    Router::new(v4(127, 0, 0, 1, 9000), &plugins)
}

#[test]
fn upstream_datagram_fans_out_to_every_plugin() {
    let router = two_plugin_router();
    let dests = router.destinations(&v4(127, 0, 0, 1, 50000));
    assert_eq!(dests, vec![v4(127, 0, 0, 1, 40001), v4(127, 0, 0, 1, 40002)]);
    assert!(!dests.contains(&v4(127, 0, 0, 1, 9000)));
}

#[test]
fn plugin_datagram_goes_upstream_only() {
    let router = two_plugin_router();
    let dests = router.destinations(&v4(127, 0, 0, 1, 40001));
    assert_eq!(dests, vec![v4(127, 0, 0, 1, 9000)]);
    assert!(!dests.contains(&v4(127, 0, 0, 1, 40002)));
}

#[test]
fn same_port_other_ip_is_not_a_plugin() {
    let router = two_plugin_router();
    assert!(!router.is_plugin(&v4(10, 0, 0, 5, 40001)));
    assert!(router.is_plugin(&v4(127, 0, 0, 1, 40002)));
    let dests = router.destinations(&v4(10, 0, 0, 5, 40001));
    assert_eq!(dests.len(), 2);
}

#[test]
fn no_plugins_means_no_sends_for_upstream_traffic() {
    let router = Router::new(v4(127, 0, 0, 1, 9000), &Vec::new());
    assert!(router.destinations(&v4(127, 0, 0, 1, 50000)).is_empty());
}

#[test]
fn router_records_each_plugin_socket_address_in_order() {
    let router = two_plugin_router();
    assert_eq!(router.plugin_addrs, vec![v4(127, 0, 0, 1, 40001), v4(127, 0, 0, 1, 40002)]);
    assert_eq!(router.send_addr, v4(127, 0, 0, 1, 9000));
}

#[test]
fn bind_address_is_never_a_destination() {
    let router = two_plugin_router();
    let bind = v4(0, 0, 0, 0, 9001);
    for src in [v4(127, 0, 0, 1, 50000), v4(127, 0, 0, 1, 40001), bind] {
        assert!(!router.destinations(&src).contains(&bind));
    }
}

#[test]
fn wildcard_bind_is_rewritten_to_loopback() {
    assert_eq!(loader_addr("0.0.0.0:9001"), "127.0.0.1:9001");
}

#[test]
fn loopback_bind_is_kept() {
    assert_eq!(loader_addr("127.0.0.1:9001"), "127.0.0.1:9001");
    assert_eq!(loader_addr("192.168.0.10:9001"), "192.168.0.10:9001");
}

#[test]
fn every_wildcard_occurrence_is_rewritten() {
    assert_eq!(loader_addr("10.0.0.0:9001"), "1127.0.0.1:9001");
}
