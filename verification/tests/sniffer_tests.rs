use deepnet::net::NetworkInterface;
use deepnet::sniffer::{tcp_flags_to_str, PacketInfo, PacketSniffer};

fn iface(name: &str, up: bool, loopback: bool, with_ip: bool) -> NetworkInterface {
    NetworkInterface {
        name: name.to_string(),
        mac: [2, 0, 0, 0, 0, 1],
        ips: if with_ip {
            vec![deepnet::net::Ipv4Address::new(10, 0, 0, 9)]
        } else {
            Vec::new()
        },
        is_up: up,
        is_loopback: loopback,
    }
}

fn sniffer(filter: &str) -> PacketSniffer {
    let ifaces = vec![iface("eth0", true, false, true)];
    PacketSniffer::new(&ifaces, "eth0", filter).unwrap()
}

/// Ethernet + IPv4 + TCP with the given ports and flag byte.
fn tcp_frame(sport: u16, dport: u16, flags: u8) -> Vec<u8> {
    let mut f: Vec<u8> = Vec::new();
    f.extend_from_slice(&[1, 2, 3, 4, 5, 6]); // destination
    f.extend_from_slice(&[6, 5, 4, 3, 2, 1]); // source
    f.extend_from_slice(&[0x08, 0x00]); // IPv4
    // IPv4 header, 20 bytes
    f.extend_from_slice(&[0x45, 0, 0, 40, 0, 0, 0, 0, 64, 6, 0, 0]);
    f.extend_from_slice(&[10, 0, 0, 1]);
    f.extend_from_slice(&[10, 0, 0, 2]);
    // TCP header, 20 bytes
    f.extend_from_slice(&sport.to_be_bytes());
    f.extend_from_slice(&dport.to_be_bytes());
    f.extend_from_slice(&7u32.to_be_bytes()); // sequence
    f.extend_from_slice(&9u32.to_be_bytes()); // acknowledgement
    f.push(0x50); // data offset 5
    f.push(flags);
    f.extend_from_slice(&1024u16.to_be_bytes()); // window
    f.extend_from_slice(&[0, 0, 0, 0]); // checksum, urgent
    f
}

#[test]
fn tcp_syn_frame_decodes() {
    // A SYN from port 1234 to port 80: one record, protocol "TCP", and a
    // summary carrying the flag letter and both ports.
    let s = sniffer("");
    let rec = s.process_packet(&tcp_frame(1234, 80, 0x02), "t0".to_string()).unwrap();
    assert_eq!(rec.protocol, "TCP");
    assert!(rec.info.contains("S"));
    assert!(rec.info.contains("1234"));
    assert!(rec.info.contains("80"));
    assert_eq!(rec.source, "10.0.0.1");
    assert_eq!(rec.destination, "10.0.0.2");
    assert_eq!(rec.timestamp, "t0");
    assert_eq!(rec.length, 54);
}

#[test]
fn tcp_summary_is_exact() {
    let s = sniffer("");
    let rec = s.process_packet(&tcp_frame(1234, 80, 0x12), "".to_string()).unwrap();
    assert_eq!(rec.info, "1234 → 80 [SA] Seq=7 Ack=9 Win=1024 Len=0");
}

#[test]
fn udp_frame_decodes() {
    let mut f = tcp_frame(53, 68, 0)[..34].to_vec();
    f[23] = 17; // protocol UDP
    f.extend_from_slice(&53u16.to_be_bytes());
    f.extend_from_slice(&68u16.to_be_bytes());
    f.extend_from_slice(&12u16.to_be_bytes()); // length
    f.extend_from_slice(&[0, 0]); // checksum
    let rec = sniffer("").process_packet(&f, "".to_string()).unwrap();
    assert_eq!(rec.protocol, "UDP");
    assert_eq!(rec.info, "53 → 68 Len=12");
}

#[test]
fn icmp_labels() {
    let cases = [
        (0u8, "Echo Reply"),
        (8, "Echo Request"),
        (3, "Destination Unreachable"),
        (11, "Other ICMP"),
    ];
    for (ty, label) in cases {
        let mut f = tcp_frame(0, 0, 0)[..34].to_vec();
        f[23] = 1; // protocol ICMP
        f.extend_from_slice(&[ty, 0, 0, 0, 0, 1, 0, 1]);
        let rec = sniffer("").process_packet(&f, "".to_string()).unwrap();
        assert_eq!(rec.protocol, "ICMP");
        assert_eq!(rec.info, label);
    }
}

#[test]
fn unknown_ip_protocol_gets_numeric_label() {
    let mut f = tcp_frame(0, 0, 0)[..34].to_vec();
    f[23] = 89; // OSPF, which the decoder does not know
    let rec = sniffer("").process_packet(&f, "".to_string()).unwrap();
    assert_eq!(rec.protocol, "IPv4 Protocol 89");
    assert_eq!(rec.info, "");
}

#[test]
fn arp_frame_decodes() {
    let mut f = vec![0u8; 14];
    f[12] = 0x08;
    f[13] = 0x06;
    f.extend_from_slice(&[0; 28]);
    let rec = sniffer("").process_packet(&f, "".to_string()).unwrap();
    assert_eq!(rec.protocol, "ARP");
    assert_eq!(rec.source, "");
    assert_eq!(rec.destination, "");
}

#[test]
fn ipv6_frame_decodes() {
    let mut f = vec![0u8; 12];
    f.extend_from_slice(&[0x86, 0xDD]);
    f.extend_from_slice(&[0x60, 0, 0, 0, 0, 0, 59, 64]); // 8-byte v6 prefix
    let mut src = [0u8; 16];
    src[0] = 0x20;
    src[1] = 0x01;
    src[15] = 0x01;
    let mut dst = [0u8; 16];
    dst[15] = 0x02;
    f.extend_from_slice(&src);
    f.extend_from_slice(&dst);
    let rec = sniffer("").process_packet(&f, "".to_string()).unwrap();
    assert_eq!(rec.protocol, "IPv6");
    assert_eq!(rec.source, "2001:0000:0000:0000:0000:0000:0000:0001");
    assert_eq!(rec.destination, "0000:0000:0000:0000:0000:0000:0000:0002");
}

#[test]
fn unknown_ethertype_gets_numeric_label() {
    let mut f = vec![0u8; 14];
    f[12] = 0x12;
    f[13] = 0x34;
    let rec = sniffer("").process_packet(&f, "".to_string()).unwrap();
    assert_eq!(rec.protocol, "EtherType 4660");
}

#[test]
fn malformed_frames_are_dropped() {
    let s = sniffer("");
    assert!(s.process_packet(&[0; 13], "".to_string()).is_none()); // short Ethernet
    let mut v4 = vec![0u8; 14];
    v4[12] = 0x08;
    v4[13] = 0x00;
    v4.extend_from_slice(&[0; 10]); // truncated IPv4 header
    assert!(s.process_packet(&v4, "".to_string()).is_none());
    let mut v6 = vec![0u8; 12];
    v6.extend_from_slice(&[0x86, 0xDD]);
    v6.extend_from_slice(&[0; 20]); // truncated IPv6 header
    assert!(s.process_packet(&v6, "".to_string()).is_none());
}

#[test]
fn truncated_transport_keeps_record_but_no_summary() {
    // A complete IPv4 header whose TCP segment is cut short: the record
    // is still emitted, with an empty summary line.
    let f = tcp_frame(1234, 80, 0x02)[..40].to_vec();
    let rec = sniffer("").process_packet(&f, "".to_string()).unwrap();
    assert_eq!(rec.protocol, "TCP");
    assert_eq!(rec.info, "");
}

#[test]
fn flag_letters_in_bit_order() {
    assert_eq!(tcp_flags_to_str(0x00), "");
    assert_eq!(tcp_flags_to_str(0x02), "S");
    assert_eq!(tcp_flags_to_str(0x12), "SA");
    assert_eq!(tcp_flags_to_str(0x05), "FR");
    assert_eq!(tcp_flags_to_str(0xFF), "FSRPAUEC");
}

#[test]
fn filter_is_applied_as_predicate() {
    let s = sniffer("TCP");
    let tcp = s.process_packet(&tcp_frame(1, 2, 0), "".to_string()).unwrap();
    assert!(s.filter_accepts(&tcp));
    let mut udp_frame = tcp_frame(1, 2, 0);
    udp_frame[23] = 17;
    let udp = s.process_packet(&udp_frame, "".to_string()).unwrap();
    assert!(!s.filter_accepts(&udp));
    let accept_all = sniffer("");
    assert!(accept_all.filter_accepts(&udp));
}

#[test]
fn new_finds_interface_by_name() {
    let ifaces = vec![iface("lo", true, true, true), iface("eth1", true, false, true)];
    let s = PacketSniffer::new(&ifaces, "eth1", "").unwrap();
    assert_eq!(s.interface.name, "eth1");
    assert!(PacketSniffer::new(&ifaces, "wlan0", "").is_none());
}

#[test]
fn empty_record() {
    let rec = PacketInfo::new();
    assert_eq!(rec.timestamp, "");
    assert_eq!(rec.source, "");
    assert_eq!(rec.destination, "");
    assert_eq!(rec.protocol, "");
    assert_eq!(rec.length, 0);
    assert_eq!(rec.info, "");
}
