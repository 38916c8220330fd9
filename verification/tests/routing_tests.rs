use l2portal::net::Ipv4;
use l2portal::routing::{best_route_from, resolve_local_ip, route_add_args, route_delete_args, BestRoute};

#[test]
fn on_link_route_uses_destination() {
    let dest = Ipv4::new(192, 168, 1, 20);
    let r = best_route_from(dest, Ipv4::unspecified(), 7, Ipv4::new(192, 168, 1, 5));
    assert_eq!(r, BestRoute { gateway: dest, if_index: 7, local_ip: Ipv4::new(192, 168, 1, 5) });
    let gw = Ipv4::new(192, 168, 1, 1);
    let r = best_route_from(Ipv4::new(203, 0, 113, 1), gw, 7, Ipv4::new(192, 168, 1, 5));
    assert_eq!(r.gateway, gw);
}

#[test]
fn local_ip_resolution() {
    let route = BestRoute { gateway: Ipv4::new(10, 0, 0, 1), if_index: 3, local_ip: Ipv4::new(10, 0, 0, 9) };
    assert_eq!(resolve_local_ip(Ipv4::new(1, 2, 3, 4), Some(route)), Some(Ipv4::new(1, 2, 3, 4)));
    assert_eq!(resolve_local_ip(Ipv4::new(1, 2, 3, 4), None), Some(Ipv4::new(1, 2, 3, 4)));
    assert_eq!(resolve_local_ip(Ipv4::unspecified(), Some(route)), Some(Ipv4::new(10, 0, 0, 9)));
    assert_eq!(resolve_local_ip(Ipv4::unspecified(), None), None);
}

#[test]
fn route_command_lines() {
    assert_eq!(
        route_add_args(Ipv4::new(203, 0, 113, 1), Ipv4::new(192, 168, 1, 1), 12),
        vec!["add", "203.0.113.1", "mask", "255.255.255.255", "192.168.1.1", "if", "12"]
    );
    assert_eq!(route_delete_args(Ipv4::new(203, 0, 113, 1)), vec!["delete", "203.0.113.1", "mask", "255.255.255.255"]);
}

#[test]
fn route_lookup_only_for_unspecified_local() {
    assert!(l2portal::routing::needs_route_lookup(Ipv4::new(0, 0, 0, 0)));
    assert!(!l2portal::routing::needs_route_lookup(Ipv4::new(192, 168, 1, 10)));
}
