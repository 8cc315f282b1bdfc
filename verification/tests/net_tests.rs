use deepnet::net::{
    find_interface_by_name, find_usable_interface, ipv4_to_u32, parse_ipv4, Ipv4Address,
    NetworkInterface,
};

fn iface(name: &str, up: bool, loopback: bool, with_ip: bool) -> NetworkInterface {
    NetworkInterface {
        name: name.to_string(),
        mac: [0xAA, 0xBB, 0xCC, 0xDD, 0xEE, 0xFF],
        ips: if with_ip {
            vec![Ipv4Address::new(192, 168, 0, 2)]
        } else {
            Vec::new()
        },
        is_up: up,
        is_loopback: loopback,
    }
}

#[test]
fn ipv4_packs_big_endian() {
    assert_eq!(ipv4_to_u32(Ipv4Address::new(192, 168, 1, 100)), 0xC0A80164);
    assert_eq!(ipv4_to_u32(Ipv4Address::new(0, 0, 0, 0)), 0);
    assert_eq!(ipv4_to_u32(Ipv4Address::new(255, 255, 255, 255)), 0xFFFFFFFF);
    assert_eq!(ipv4_to_u32(Ipv4Address::new(127, 0, 0, 1)), 0x7F000001);
}

#[test]
fn parse_accepts_well_formed_addresses() {
    assert_eq!(parse_ipv4("192.168.1.100"), Some(Ipv4Address::new(192, 168, 1, 100)));
    assert_eq!(parse_ipv4("0.0.0.0"), Some(Ipv4Address::new(0, 0, 0, 0)));
    assert_eq!(parse_ipv4("255.255.255.255"), Some(Ipv4Address::new(255, 255, 255, 255)));
    assert_eq!(parse_ipv4("8.8.8.8"), Some(Ipv4Address::new(8, 8, 8, 8)));
}

#[test]
fn parse_rejects_malformed_addresses() {
    assert_eq!(parse_ipv4(""), None);
    assert_eq!(parse_ipv4("1.2.3"), None);
    assert_eq!(parse_ipv4("1.2.3.4.5"), None);
    assert_eq!(parse_ipv4("256.1.1.1"), None);
    assert_eq!(parse_ipv4("1.2.3.999"), None);
    assert_eq!(parse_ipv4("01.2.3.4"), None); // superfluous leading zero
    assert_eq!(parse_ipv4("1..3.4"), None);
    assert_eq!(parse_ipv4("1.2.3.4 "), None);
    assert_eq!(parse_ipv4("a.b.c.d"), None);
    assert_eq!(parse_ipv4("1.2.3.-4"), None);
}

#[test]
fn usable_interface_is_first_up_non_loopback_with_address() {
    let ifaces = vec![
        iface("lo", true, true, true),
        iface("down0", false, false, true),
        iface("empty0", true, false, false),
        iface("eth0", true, false, true),
        iface("eth1", true, false, true),
    ];
    assert_eq!(find_usable_interface(&ifaces), Some(3));
    let none = vec![iface("lo", true, true, true)];
    assert_eq!(find_usable_interface(&none), None);
    assert_eq!(find_usable_interface(&Vec::new()), None);
}

#[test]
fn interface_lookup_by_name() {
    let ifaces = vec![iface("lo", true, true, true), iface("eth0", true, false, true)];
    assert_eq!(find_interface_by_name(&ifaces, "eth0"), Some(1));
    assert_eq!(find_interface_by_name(&ifaces, "lo"), Some(0));
    assert_eq!(find_interface_by_name(&ifaces, "wlan0"), None);
}
