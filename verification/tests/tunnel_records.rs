use tunneller::tunnel::{Tunnel, TunnellerRequest, TunnellerResponse};

fn sample(now: u128) -> Tunnel {
    let req = TunnellerRequest {
        id: String::from("t1"),
        realm: String::from("realm"),
        dst_host: String::from("10.0.0.2"),
        dst_port: 25565,
    };
    Tunnel::from_request(&req, 34100, String::from("1.2.3.4"), now)
}

#[test]
fn from_request_copies_the_request() {
    let t = sample(1000);
    assert_eq!(t.id, "t1");
    assert_eq!(t.realm_name, "realm");
    assert_eq!(t.public_host, "1.2.3.4");
    assert_eq!(t.public_port, 34100);
    assert_eq!(t.destination_host, "10.0.0.2");
    assert_eq!(t.destination_port, 25565);
    assert_eq!((t.last_occupied_time, t.last_issuer_alive_time, t.online), (1000, 1000, 0));
    let resp = TunnellerResponse { tunnel_id: t.id.clone(), realm: t.realm_name.clone(), public_port: t.public_port };
    assert_eq!(resp.public_port, 34100);
}

#[test]
fn busy_tunnel_is_touched_and_counts_players() {
    let mut t = sample(0);
    assert!(!t.update_liveness(100_000, 7));
    assert_eq!(t.last_occupied_time, 100_000);
    assert_eq!(t.online, 2);
    assert!(!t.update_liveness(200_000, 4));
    assert_eq!(t.online, 0);
}

#[test]
fn idle_tunnel_dies_only_when_issuer_is_silent() {
    let mut t = sample(0);
    t.last_issuer_alive_time = 50_000;
    assert!(!t.update_liveness(60_000, 3));
    assert!(!t.update_liveness(60_001, 3));
    assert!(t.update_liveness(65_001, 3));
    assert_eq!(t.last_occupied_time, 0);
    assert_eq!(t.online, 0);
}

#[test]
fn online_rounds_toward_zero() {
    let mut t = sample(0);
    t.update_liveness(0, 2);
    assert_eq!(t.online, 0);
    t.update_liveness(0, 1);
    assert_eq!(t.online, -1);
    t.update_liveness(0, 6);
    assert_eq!(t.online, 1);
}

#[test]
fn empty_realm_closes_tunnel() {
    let mut req = TunnellerRequest {
        id: String::from("t1"),
        realm: String::new(),
        dst_host: String::from("10.0.0.1"),
        dst_port: 25565,
    };
    assert!(req.closes_tunnel());
    req.realm = String::from("lobby");
    assert!(!req.closes_tunnel());
    req.realm = String::from(" ");
    assert!(!req.closes_tunnel());
}
