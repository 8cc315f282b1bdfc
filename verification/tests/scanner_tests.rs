use deepnet::net::Ipv4Address;
use deepnet::scanner::{
    classify_response, partition_ports, syn_probe_event, ConfigError, PortScanner, PortStatus,
    ProbeEvent, ScanType,
};

/// Ethernet + IPv4 + TCP from the given source address and port, with the
/// given flag byte.
fn answer_frame(src: [u8; 4], sport: u16, flags: u8) -> Vec<u8> {
    let mut f = vec![0u8; 12];
    f.extend_from_slice(&[0x08, 0x00]);
    f.extend_from_slice(&[0x45, 0, 0, 40, 0, 0, 0, 0, 64, 6, 0, 0]);
    f.extend_from_slice(&src);
    f.extend_from_slice(&[10, 0, 0, 1]);
    f.extend_from_slice(&sport.to_be_bytes());
    f.extend_from_slice(&54321u16.to_be_bytes());
    f.extend_from_slice(&[0; 8]); // sequence, acknowledgement
    f.push(0x50);
    f.push(flags);
    f.extend_from_slice(&[0; 6]); // window, checksum, urgent
    f
}

#[test]
fn partition_even_range() {
    // [1, 1000] over 7 workers: 1000 = 7 * 142 + 6; the last worker
    // absorbs the remainder.
    let r = partition_ports(1, 1000, 7);
    assert_eq!(r.len(), 7);
    assert_eq!(r[0].0, 1);
    assert_eq!(r[6].1, 1001);
    for i in 0..6 {
        assert_eq!(r[i].1 - r[i].0, 142);
        assert_eq!(r[i].1, r[i + 1].0); // contiguous, hence disjoint
    }
    assert_eq!(r[6].1 - r[6].0, 142 + 6);
    // The union is exactly [1, 1000]: count the covered ports.
    let covered: u32 = r.iter().map(|(s, e)| e - s).sum();
    assert_eq!(covered, 1000);
}

#[test]
fn partition_more_workers_than_ports() {
    let r = partition_ports(10, 12, 5);
    assert_eq!(r.len(), 5);
    assert_eq!(r[0].0, 10);
    assert_eq!(r[4].1, 13);
    for i in 0..4 {
        assert_eq!(r[i].1 - r[i].0, 0); // empty shares
        assert_eq!(r[i].1, r[i + 1].0);
    }
    assert_eq!(r[4].1 - r[4].0, 3); // the last worker owns everything
}

#[test]
fn partition_single_worker_full_range() {
    let r = partition_ports(1, 65535, 1);
    assert_eq!(r.len(), 1);
    assert_eq!(r[0], (1, 65536));
}

#[test]
fn syn_scan_classification() {
    assert_eq!(classify_response(ScanType::TcpSyn, ProbeEvent::SynAck), PortStatus::Open);
    assert_eq!(classify_response(ScanType::TcpSyn, ProbeEvent::Rst), PortStatus::Closed);
    assert_eq!(classify_response(ScanType::TcpSyn, ProbeEvent::Timeout), PortStatus::Filtered);
}

#[test]
fn connect_scan_classification() {
    assert_eq!(classify_response(ScanType::TcpConnect, ProbeEvent::ConnectOk), PortStatus::Open);
    assert_eq!(
        classify_response(ScanType::TcpConnect, ProbeEvent::ConnectRefused),
        PortStatus::Closed
    );
    assert_eq!(classify_response(ScanType::TcpConnect, ProbeEvent::Timeout), PortStatus::Filtered);
}

#[test]
fn udp_scan_classification() {
    assert_eq!(classify_response(ScanType::Udp, ProbeEvent::AppData), PortStatus::Open);
    assert_eq!(
        classify_response(ScanType::Udp, ProbeEvent::IcmpPortUnreachable),
        PortStatus::Closed
    );
    assert_eq!(classify_response(ScanType::Udp, ProbeEvent::Timeout), PortStatus::Unknown);
}

#[test]
fn syn_scan_over_scripted_responses() {
    // Ports 25 and 443 answer SYN-ACK, every other port answers RST: the
    // scan yields Open for exactly those two and Closed for the other 998,
    // 1000 results in all.
    let mut scanner = PortScanner::new("10.0.0.5", (1, 1000), ScanType::TcpSyn, 4).unwrap();
    let events: Vec<ProbeEvent> = (1u16..=1000)
        .map(|port| {
            if port == 25 || port == 443 {
                ProbeEvent::SynAck
            } else {
                ProbeEvent::Rst
            }
        })
        .collect();
    assert_eq!(scanner.scan(&events), Ok(()));
    let results = scanner.get_results();
    assert_eq!(results.len(), 1000);
    let mut open_ports: Vec<u16> = Vec::new();
    for (i, (port, status)) in results.iter().enumerate() {
        assert_eq!(*port, (i + 1) as u16); // ascending, exactly once each
        if status == "Open" {
            open_ports.push(*port);
        } else {
            assert_eq!(status, "Closed");
        }
    }
    assert_eq!(open_ports, vec![25, 443]);
}

#[test]
fn scan_rejects_bad_range() {
    let mut scanner = PortScanner::new("10.0.0.5", (1, 50), ScanType::TcpSyn, 4).unwrap();
    scanner.port_range = (100, 50);
    assert_eq!(scanner.scan(&Vec::new()), Err(ConfigError::InvalidPortRange));
    assert!(scanner.get_results().is_empty());
    scanner.port_range = (0, 50);
    assert_eq!(scanner.scan(&Vec::new()), Err(ConfigError::InvalidPortRange));
}

#[test]
fn scan_rejects_zero_workers() {
    let mut scanner = PortScanner::new("10.0.0.5", (1, 10), ScanType::TcpSyn, 1).unwrap();
    scanner.threads = 0;
    let events = vec![ProbeEvent::Rst; 10];
    assert_eq!(scanner.scan(&events), Err(ConfigError::InvalidWorkerCount));
}

#[test]
fn new_reports_faults_in_order() {
    // A malformed target address is a fatal configuration error; range
    // and worker faults follow, in that order.
    assert!(matches!(
        PortScanner::new("not-an-address", (1, 10), ScanType::Udp, 1),
        Err(ConfigError::MalformedTarget)
    ));
    assert!(matches!(
        PortScanner::new("definitely not an ip", (1, 10), ScanType::TcpSyn, 1),
        Err(ConfigError::MalformedTarget)
    ));
    assert!(matches!(
        PortScanner::new("10.0.0.5", (9, 3), ScanType::Udp, 1),
        Err(ConfigError::InvalidPortRange)
    ));
    assert!(matches!(
        PortScanner::new("10.0.0.5", (0, 10), ScanType::Udp, 1),
        Err(ConfigError::InvalidPortRange)
    ));
    assert!(matches!(
        PortScanner::new("10.0.0.5", (1, 10), ScanType::Udp, 0),
        Err(ConfigError::InvalidWorkerCount)
    ));
    let good = PortScanner::new("172.16.254.3", (1, 10), ScanType::TcpSyn, 1).unwrap();
    assert_eq!(good.target_ip, Ipv4Address::new(172, 16, 254, 3));
}

#[test]
fn status_labels() {
    assert_eq!(PortStatus::Open.label(), "Open");
    assert_eq!(PortStatus::Closed.label(), "Closed");
    assert_eq!(PortStatus::Filtered.label(), "Filtered");
    assert_eq!(PortStatus::Unknown.label(), "Unknown");
}

#[test]
fn syn_answers_are_matched_to_their_probe() {
    let target = Ipv4Address::new(10, 9, 8, 7);
    // SYN+ACK from the probed address and port, back to the probe's port.
    assert_eq!(
        syn_probe_event(&answer_frame([10, 9, 8, 7], 443, 0x12), target, 443, 54321),
        Some(ProbeEvent::SynAck)
    );
    // RST from the probed address and port.
    assert_eq!(
        syn_probe_event(&answer_frame([10, 9, 8, 7], 443, 0x04), target, 443, 54321),
        Some(ProbeEvent::Rst)
    );
    // Another host's traffic is not an answer to this probe.
    assert_eq!(syn_probe_event(&answer_frame([10, 9, 8, 6], 443, 0x12), target, 443, 54321), None);
    // Another port's traffic is not an answer either.
    assert_eq!(syn_probe_event(&answer_frame([10, 9, 8, 7], 80, 0x12), target, 443, 54321), None);
    // Traffic from the probed port to some other local flow is ignored.
    assert_eq!(syn_probe_event(&answer_frame([10, 9, 8, 7], 443, 0x12), target, 443, 50000), None);
    // A plain data segment with neither SYN+ACK nor RST is ignored.
    assert_eq!(syn_probe_event(&answer_frame([10, 9, 8, 7], 443, 0x18), target, 443, 54321), None);
    // A truncated frame is ignored.
    assert_eq!(syn_probe_event(&[0u8; 20], target, 443, 54321), None);
}

#[test]
fn udp_scan_session() {
    let mut scanner = PortScanner::new("10.0.0.5", (40, 42), ScanType::Udp, 1).unwrap();
    let events = vec![ProbeEvent::IcmpPortUnreachable, ProbeEvent::Timeout, ProbeEvent::AppData];
    assert_eq!(scanner.scan(&events), Ok(()));
    let results = scanner.get_results();
    assert_eq!(results.len(), 3);
    assert_eq!(results[0], (40, "Closed".to_string()));
    assert_eq!(results[1], (41, "Unknown".to_string()));
    assert_eq!(results[2], (42, "Open".to_string()));
}
