//! The packet sniffer's decoder: turns one captured link-layer frame
//! into a structured capture record. The capture stream itself — opening
//! the interface, the blocking reads, the timestamp source — is outside
//! work; each raw frame and its capture timestamp are handed in, and a
//! record comes back, or nothing for a malformed frame, which is dropped
//! without a record.
//!
//! Decoding dispatches on the ethertype: IPv4 frames get their addresses
//! and a transport summary (TCP ports, flag letters, sequence and
//! acknowledgement numbers, window and payload length; UDP ports and
//! length; an ICMP type label), IPv6 frames get their addresses, ARP and
//! unknown ethertypes only a label.

use vstd::prelude::*;
use vstd::string::StringExecFns;
use crate::net::NetworkInterface;
use crate::net::Ipv4Address;
use crate::net::find_interface_by_name;
use crate::text::{dec_digits, hex_word, ipv4_text, push_dec, push_hex_word, push_ipv4};

verus! {

/// One capture record: timestamp, addresses in string form, a protocol
/// label, the raw frame length, and a one-line summary. Immutable once
/// created.
pub struct PacketInfo {
    pub timestamp: String,
    pub source: String,
    pub destination: String,
    pub protocol: String,
    pub length: usize,
    pub info: String,
}

impl PacketInfo {
    /// An empty record, to be filled during decoding.
    pub fn new() -> (r: PacketInfo)
        ensures
            r.timestamp@ == Seq::<char>::empty(),
            r.source@ == Seq::<char>::empty(),
            r.destination@ == Seq::<char>::empty(),
            r.protocol@ == Seq::<char>::empty(),
            r.length == 0,
            r.info@ == Seq::<char>::empty(),
    {
        PacketInfo {
            timestamp: String::new(),
            source: String::new(),
            destination: String::new(),
            protocol: String::new(),
            length: 0,
            info: String::new(),
        }
    }
}

/// The big-endian 16-bit value at index `i`.
pub open spec fn be16(s: Seq<u8>, i: int) -> int {
    s[i] * 256 + s[i + 1]
}

/// The big-endian 32-bit value at index `i`.
pub open spec fn be32(s: Seq<u8>, i: int) -> int {
    s[i] * 0x1000000 + s[i + 1] * 0x10000 + s[i + 2] * 0x100 + s[i + 3]
}

/// A frame yields a record exactly when its headers are complete: a full
/// Ethernet header, and a full network header for the IPv4 and IPv6
/// ethertypes. Anything else is dropped.
pub open spec fn spec_frame_parses(p: Seq<u8>) -> bool {
    &&& p.len() >= 14
    &&& be16(p, 12) == 0x0800 ==> p.len() >= 34
    &&& be16(p, 12) == 0x86DD ==> p.len() >= 54
}

/// The transport bytes of an IPv4 packet: what follows the header, whose
/// length the low nibble of the first byte gives in 32-bit words; empty
/// where that length overruns the packet.
pub open spec fn ipv4_payload(ip: Seq<u8>) -> Seq<u8> {
    let off = 4 * ((ip[0] as int) % 16);
    if off <= ip.len() {
        ip.skip(off)
    } else {
        Seq::empty()
    }
}

/// The flag letters of a TCP segment, one fixed letter per set bit, in
/// bit order, unset flags omitted.
pub open spec fn spec_tcp_flags(flags: u16) -> Seq<char> {
    (if flags & 0x01 != 0 {
        "F"@
    } else {
        Seq::empty()
    }) + (if flags & 0x02 != 0 {
        "S"@
    } else {
        Seq::empty()
    }) + (if flags & 0x04 != 0 {
        "R"@
    } else {
        Seq::empty()
    }) + (if flags & 0x08 != 0 {
        "P"@
    } else {
        Seq::empty()
    }) + (if flags & 0x10 != 0 {
        "A"@
    } else {
        Seq::empty()
    }) + (if flags & 0x20 != 0 {
        "U"@
    } else {
        Seq::empty()
    }) + (if flags & 0x40 != 0 {
        "E"@
    } else {
        Seq::empty()
    }) + (if flags & 0x80 != 0 {
        "C"@
    } else {
        Seq::empty()
    })
}

/// The payload length of a TCP segment: what follows the data offset,
/// zero where the offset overruns the segment.
pub open spec fn spec_tcp_payload_len(t: Seq<u8>) -> int {
    let off = 4 * ((t[12] as int) / 16);
    if off <= t.len() {
        t.len() - off
    } else {
        0
    }
}

/// The summary line of a TCP segment.
pub open spec fn spec_tcp_info(t: Seq<u8>) -> Seq<char> {
    dec_digits(be16(t, 0)) + " → "@ + dec_digits(be16(t, 2)) + " ["@ + spec_tcp_flags(
        t[13] as u16,
    ) + "] Seq="@ + dec_digits(be32(t, 4)) + " Ack="@ + dec_digits(be32(t, 8)) + " Win="@
        + dec_digits(be16(t, 14)) + " Len="@ + dec_digits(spec_tcp_payload_len(t))
}

/// The summary line of a UDP datagram.
pub open spec fn spec_udp_info(t: Seq<u8>) -> Seq<char> {
    dec_digits(be16(t, 0)) + " → "@ + dec_digits(be16(t, 2)) + " Len="@ + dec_digits(be16(t, 4))
}

/// The label of an ICMP message, by its type byte.
pub open spec fn spec_icmp_label(ty: u8) -> Seq<char> {
    if ty == 0 {
        "Echo Reply"@
    } else if ty == 8 {
        "Echo Request"@
    } else if ty == 3 {
        "Destination Unreachable"@
    } else {
        "Other ICMP"@
    }
}

/// An IPv6 address (16 bytes) as eight colon-separated groups of four
/// hexadecimal digits, fixed width, no zero compression.
pub open spec fn spec_ipv6_text(g: Seq<u8>) -> Seq<char> {
    hex_word(be16(g, 0)) + ":"@ + hex_word(be16(g, 2)) + ":"@ + hex_word(be16(g, 4)) + ":"@
        + hex_word(be16(g, 6)) + ":"@ + hex_word(be16(g, 8)) + ":"@ + hex_word(be16(g, 10)) + ":"@
        + hex_word(be16(g, 12)) + ":"@ + hex_word(be16(g, 14))
}

/// The protocol label of a frame: the transport's name or number inside
/// IPv4, or the network-layer label.
pub open spec fn spec_protocol_label(p: Seq<u8>) -> Seq<char> {
    let et = be16(p, 12);
    if et == 0x0800 {
        let proto = p[23];
        if proto == 6 {
            "TCP"@
        } else if proto == 17 {
            "UDP"@
        } else if proto == 1 {
            "ICMP"@
        } else {
            "IPv4 Protocol "@ + dec_digits(proto as int)
        }
    } else if et == 0x86DD {
        "IPv6"@
    } else if et == 0x0806 {
        "ARP"@
    } else {
        "EtherType "@ + dec_digits(et)
    }
}

/// The source address text of a frame: dotted quad for IPv4, hex groups
/// for IPv6, empty otherwise.
pub open spec fn spec_source_text(p: Seq<u8>) -> Seq<char> {
    let et = be16(p, 12);
    if et == 0x0800 {
        ipv4_text(p[26], p[27], p[28], p[29])
    } else if et == 0x86DD {
        spec_ipv6_text(p.subrange(22, 38))
    } else {
        Seq::empty()
    }
}

/// The destination address text of a frame.
pub open spec fn spec_dest_text(p: Seq<u8>) -> Seq<char> {
    let et = be16(p, 12);
    if et == 0x0800 {
        ipv4_text(p[30], p[31], p[32], p[33])
    } else if et == 0x86DD {
        spec_ipv6_text(p.subrange(38, 54))
    } else {
        Seq::empty()
    }
}

/// The summary line of a frame: the transport summary inside IPv4 where
/// the transport header is complete, empty otherwise.
pub open spec fn spec_info_text(p: Seq<u8>) -> Seq<char> {
    let et = be16(p, 12);
    if et == 0x0800 {
        let ip = p.skip(14);
        let proto = p[23];
        let t = ipv4_payload(ip);
        if proto == 6 {
            if t.len() >= 20 {
                spec_tcp_info(t)
            } else {
                Seq::empty()
            }
        } else if proto == 17 {
            if t.len() >= 8 {
                spec_udp_info(t)
            } else {
                Seq::empty()
            }
        } else if proto == 1 {
            if t.len() >= 8 {
                spec_icmp_label(t[0])
            } else {
                Seq::empty()
            }
        } else {
            Seq::empty()
        }
    } else {
        Seq::empty()
    }
}

/// Renders the flag letters of a TCP segment's flag byte.
pub fn tcp_flags_to_str(flags: u16) -> (r: String)
    ensures
        r@ == spec_tcp_flags(flags),
{
    let mut s = String::new();
    if flags & 0x01 != 0 {
        s.append("F");
    }
    if flags & 0x02 != 0 {
        s.append("S");
    }
    if flags & 0x04 != 0 {
        s.append("R");
    }
    if flags & 0x08 != 0 {
        s.append("P");
    }
    if flags & 0x10 != 0 {
        s.append("A");
    }
    if flags & 0x20 != 0 {
        s.append("U");
    }
    if flags & 0x40 != 0 {
        s.append("E");
    }
    if flags & 0x80 != 0 {
        s.append("C");
    }
    proof {
        assert(s@ =~= spec_tcp_flags(flags));
    }
    s
}

/// One capture session: the chosen interface and the filter text.
pub struct PacketSniffer {
    pub interface: NetworkInterface,
    pub filter: String,
}

fn clone_interface(i: &NetworkInterface) -> (r: NetworkInterface)
    ensures
        r.name@ == i.name@,
        r.mac == i.mac,
        r.ips@ == i.ips@,
        r.is_up == i.is_up,
        r.is_loopback == i.is_loopback,
{
    let mut ips: Vec<Ipv4Address> = Vec::new();
    let mut k: usize = 0;
    while k < i.ips.len()
        invariant
            k <= i.ips@.len(),
            ips@ == i.ips@.subrange(0, k as int),
        decreases i.ips@.len() - k,
    {
        ips.push(i.ips[k]);
        proof {
            assert(ips@ =~= i.ips@.subrange(0, k as int + 1));
        }
        k = k + 1;
    }
    proof {
        assert(ips@ =~= i.ips@);
    }
    NetworkInterface {
        name: i.name.clone(),
        mac: i.mac,
        ips,
        is_up: i.is_up,
        is_loopback: i.is_loopback,
    }
}

impl PacketSniffer {
    /// Builds a capture session on the named interface of the catalog;
    /// `None` where no interface carries that name. The filter text is
    /// kept and applied as a predicate on decoded records.
    pub fn new(ifaces: &Vec<NetworkInterface>, interface_name: &str, filter: &str) -> (r: Option<
        PacketSniffer,
    >)
        ensures
            (r is Some) == (exists|k: int|
                0 <= k < ifaces@.len() && (#[trigger] ifaces@[k]).name@ == interface_name@),
            r is Some ==> ({
                let sn = r->0;
                &&& sn.filter@ == filter@
                &&& exists|i: int|
                    0 <= i < ifaces@.len() && (#[trigger] ifaces@[i]).name@ == interface_name@ && (
                    forall|j: int| 0 <= j < i ==> ifaces@[j].name@ != interface_name@)
                        && sn.interface.name@ == ifaces@[i].name@ && sn.interface.mac
                        == ifaces@[i].mac && sn.interface.ips@ == ifaces@[i].ips@
                        && sn.interface.is_up == ifaces@[i].is_up && sn.interface.is_loopback
                        == ifaces@[i].is_loopback
            }),
    {
        match find_interface_by_name(ifaces, interface_name) {
            Some(i) => {
                let interface = clone_interface(&ifaces[i]);
                Some(PacketSniffer { interface, filter: String::from_str(filter) })
            },
            None => None,
        }
    }

    /// Whether the filter lets a decoded record through: an empty filter
    /// accepts everything, any other filter text is an exact match on the
    /// protocol label.
    pub open spec fn spec_filter_accepts(self, info: PacketInfo) -> bool {
        self.filter@.len() == 0 || self.filter@ == info.protocol@
    }

    pub fn filter_accepts(&self, info: &PacketInfo) -> (r: bool)
        ensures
            r == self.spec_filter_accepts(*info),
    {
        self.filter.as_str().is_empty() || self.filter.eq(&info.protocol)
    }

    /// Decodes one captured frame into a record stamped with the given
    /// capture timestamp; `None` drops a malformed frame.
    pub fn process_packet(&self, packet: &[u8], timestamp: String) -> (r: Option<PacketInfo>)
        ensures
            (r is Some) == spec_frame_parses(packet@),
            r is Some ==> ({
                let rec = r->0;
                &&& rec.timestamp@ == timestamp@
                &&& rec.length == packet@.len()
                &&& rec.source@ == spec_source_text(packet@)
                &&& rec.destination@ == spec_dest_text(packet@)
                &&& rec.protocol@ == spec_protocol_label(packet@)
                &&& rec.info@ == spec_info_text(packet@)
            }),
    {
        let len = packet.len();
        if len < 14 {
            return None;
        }
        let et: u32 = (packet[12] as u32) * 256 + (packet[13] as u32);
        let mut rec = PacketInfo::new();
        rec.timestamp = timestamp;
        rec.length = len;
        if et == 0x0800 {
            if len < 34 {
                return None;
            }
            let mut src = String::new();
            push_ipv4(&mut src, packet[26], packet[27], packet[28], packet[29]);
            rec.source = src;
            let mut dst = String::new();
            push_ipv4(&mut dst, packet[30], packet[31], packet[32], packet[33]);
            rec.destination = dst;
            let proto = packet[23];
            let ihl: u8 = packet[14] % 16;
            let off: usize = 14 + 4 * (ihl as usize);
            let ghost ip = packet@.skip(14);
            let ghost t = ipv4_payload(ip);
            proof {
                if off <= len {
                    assert(t =~= packet@.skip(off as int));
                }
            }
            if proto == 6 {
                rec.protocol = String::from_str("TCP");
                if off <= len && len - off >= 20 {
                    let sport: u32 = (packet[off] as u32) * 256 + (packet[off + 1] as u32);
                    let dport: u32 = (packet[off + 2] as u32) * 256 + (packet[off + 3] as u32);
                    let seqn: u32 = (packet[off + 4] as u32) * 0x1000000 + (packet[off + 5] as u32)
                        * 0x10000 + (packet[off + 6] as u32) * 0x100 + (packet[off + 7] as u32);
                    let ackn: u32 = (packet[off + 8] as u32) * 0x1000000 + (packet[off + 9] as u32)
                        * 0x10000 + (packet[off + 10] as u32) * 0x100 + (packet[off + 11] as u32);
                    let doff: usize = 4 * ((packet[off + 12] / 16) as usize);
                    let win: u32 = (packet[off + 14] as u32) * 256 + (packet[off + 15] as u32);
                    let plen: usize = if doff <= len - off {
                        len - off - doff
                    } else {
                        0
                    };
                    let mut s = String::new();
                    push_dec(&mut s, sport as u64);
                    s.append(" → ");
                    push_dec(&mut s, dport as u64);
                    s.append(" [");
                    let fl = tcp_flags_to_str(packet[off + 13] as u16);
                    s.append(fl.as_str());
                    s.append("] Seq=");
                    push_dec(&mut s, seqn as u64);
                    s.append(" Ack=");
                    push_dec(&mut s, ackn as u64);
                    s.append(" Win=");
                    push_dec(&mut s, win as u64);
                    s.append(" Len=");
                    push_dec(&mut s, plen as u64);
                    proof {
                        assert(plen == spec_tcp_payload_len(t));
                        assert(s@ =~= spec_tcp_info(t));
                    }
                    rec.info = s;
                }
            } else if proto == 17 {
                rec.protocol = String::from_str("UDP");
                if off <= len && len - off >= 8 {
                    let sport: u32 = (packet[off] as u32) * 256 + (packet[off + 1] as u32);
                    let dport: u32 = (packet[off + 2] as u32) * 256 + (packet[off + 3] as u32);
                    let ulen: u32 = (packet[off + 4] as u32) * 256 + (packet[off + 5] as u32);
                    let mut s = String::new();
                    push_dec(&mut s, sport as u64);
                    s.append(" → ");
                    push_dec(&mut s, dport as u64);
                    s.append(" Len=");
                    push_dec(&mut s, ulen as u64);
                    proof {
                        assert(s@ =~= spec_udp_info(t));
                    }
                    rec.info = s;
                }
            } else if proto == 1 {
                rec.protocol = String::from_str("ICMP");
                if off <= len && len - off >= 8 {
                    let ty = packet[off];
                    let label: &str = if ty == 0 {
                        "Echo Reply"
                    } else if ty == 8 {
                        "Echo Request"
                    } else if ty == 3 {
                        "Destination Unreachable"
                    } else {
                        "Other ICMP"
                    };
                    rec.info = String::from_str(label);
                }
            } else {
                let mut s = String::from_str("IPv4 Protocol ");
                push_dec(&mut s, proto as u64);
                rec.protocol = s;
            }
            Some(rec)
        } else if et == 0x86DD {
            if len < 54 {
                return None;
            }
            rec.protocol = String::from_str("IPv6");
            let mut src = String::new();
            push_v6_groups(&mut src, packet, 22);
            proof {
                lemma_v6_groups_text(packet@, 22);
            }
            rec.source = src;
            let mut dst = String::new();
            push_v6_groups(&mut dst, packet, 38);
            proof {
                lemma_v6_groups_text(packet@, 38);
            }
            rec.destination = dst;
            Some(rec)
        } else if et == 0x0806 {
            rec.protocol = String::from_str("ARP");
            Some(rec)
        } else {
            let mut s = String::from_str("EtherType ");
            push_dec(&mut s, et as u64);
            rec.protocol = s;
            Some(rec)
        }
    }
}

/// Each 16-bit group of a 16-byte address slice reads the same through
/// the enclosing frame as through the slice itself.
proof fn lemma_v6_groups_text(p: Seq<u8>, base: int)
    requires
        0 <= base,
        base + 16 <= p.len(),
    ensures
        spec_ipv6_text(p.subrange(base, base + 16)) == hex_word(be16(p, base)) + ":"@ + hex_word(
            be16(p, base + 2),
        ) + ":"@ + hex_word(be16(p, base + 4)) + ":"@ + hex_word(be16(p, base + 6)) + ":"@
            + hex_word(be16(p, base + 8)) + ":"@ + hex_word(be16(p, base + 10)) + ":"@ + hex_word(
            be16(p, base + 12),
        ) + ":"@ + hex_word(be16(p, base + 14)),
{
    let g = p.subrange(base, base + 16);
    assert(be16(g, 0) == be16(p, base));
    assert(be16(g, 2) == be16(p, base + 2));
    assert(be16(g, 4) == be16(p, base + 4));
    assert(be16(g, 6) == be16(p, base + 6));
    assert(be16(g, 8) == be16(p, base + 8));
    assert(be16(g, 10) == be16(p, base + 10));
    assert(be16(g, 12) == be16(p, base + 12));
    assert(be16(g, 14) == be16(p, base + 14));
}

/// Appends the eight hex groups of the 16 bytes at `base`.
#[verifier::rlimit(60)]
fn push_v6_groups(s: &mut String, packet: &[u8], base: usize)
    requires
        base + 16 <= packet@.len(),
    ensures
        final(s)@ == old(s)@ + (hex_word(be16(packet@, base as int)) + ":"@ + hex_word(
            be16(packet@, base as int + 2),
        ) + ":"@ + hex_word(be16(packet@, base as int + 4)) + ":"@ + hex_word(
            be16(packet@, base as int + 6),
        ) + ":"@ + hex_word(be16(packet@, base as int + 8)) + ":"@ + hex_word(
            be16(packet@, base as int + 10),
        ) + ":"@ + hex_word(be16(packet@, base as int + 12)) + ":"@ + hex_word(
            be16(packet@, base as int + 14),
        )),
{
    let g0: u16 = (packet[base] as u16) * 256 + (packet[base + 1] as u16);
    let g1: u16 = (packet[base + 2] as u16) * 256 + (packet[base + 3] as u16);
    let g2: u16 = (packet[base + 4] as u16) * 256 + (packet[base + 5] as u16);
    let g3: u16 = (packet[base + 6] as u16) * 256 + (packet[base + 7] as u16);
    let g4: u16 = (packet[base + 8] as u16) * 256 + (packet[base + 9] as u16);
    let g5: u16 = (packet[base + 10] as u16) * 256 + (packet[base + 11] as u16);
    let g6: u16 = (packet[base + 12] as u16) * 256 + (packet[base + 13] as u16);
    let g7: u16 = (packet[base + 14] as u16) * 256 + (packet[base + 15] as u16);
    push_hex_word(s, g0);
    s.append(":");
    push_hex_word(s, g1);
    s.append(":");
    push_hex_word(s, g2);
    s.append(":");
    push_hex_word(s, g3);
    s.append(":");
    push_hex_word(s, g4);
    s.append(":");
    push_hex_word(s, g5);
    s.append(":");
    push_hex_word(s, g6);
    s.append(":");
    push_hex_word(s, g7);
}

} // verus!
