//! The packet crafter: assembles a full link-layer frame — Ethernet
//! header, IPv4 header, transport segment — for one of four protocol
//! modes, with every checksum computed, and produces the configured
//! number of copies. Handing the frames to the wire, and the inter-send
//! delay, are outside work.
//!
//! Frames are byte-exact against the public wire formats: Ethernet II
//! with the IPv4 ethertype, a 20-byte option-free IPv4 header with TTL
//! 64, and one of a TCP SYN segment (fixed sequence number and window,
//! pseudo-header checksum), an 8-byte UDP header with its optional
//! checksum left zero, an 8-byte ICMP echo request with a fixed
//! identifier, or the literal payload bytes in place of a transport
//! segment. Destination and source link address are both the sending
//! interface's own address: this craft mode is link-local and does not
//! resolve the true next-hop address.

use vstd::prelude::*;
use vstd::arithmetic::div_mod::lemma_fundamental_div_mod;
use crate::checksum::{checksum_insert, checksum_spec};
use crate::net::Ipv4Address;

verus! {

/// The protocol mode of a crafted packet.
#[derive(PartialEq, Eq, Structural, Debug, Clone, Copy)]
pub enum Protocol {
    Tcp,
    Udp,
    Icmp,
    Raw,
}

/// The IPv4 protocol number written into the header for each mode. Raw
/// mode borrows TCP's number, a deliberate simplification.
pub open spec fn spec_protocol_number(p: Protocol) -> u8 {
    match p {
        Protocol::Tcp => 6,
        Protocol::Udp => 17,
        Protocol::Icmp => 1,
        Protocol::Raw => 6,
    }
}

/// One crafting batch: addresses, ports, mode, payload, repeat count and
/// inter-send delay in milliseconds.
pub struct PacketCrafter {
    pub source_ip: Ipv4Address,
    pub dest_ip: Ipv4Address,
    pub source_port: u16,
    pub dest_port: u16,
    pub protocol: Protocol,
    pub payload: Vec<u8>,
    pub count: u32,
    pub delay: u32,
}

impl PacketCrafter {
    /// A well-formed batch: at least one packet, and a raw payload that
    /// fits the 16-bit IPv4 total-length field.
    pub open spec fn wf(self) -> bool {
        &&& self.count >= 1
        &&& self.protocol is Raw ==> 20 + self.payload@.len() <= 0xFFFF
    }

    /// The transport segment length fixed by each mode; only raw mode
    /// carries the payload.
    pub open spec fn spec_transport_len(self) -> int {
        match self.protocol {
            Protocol::Tcp => 20,
            Protocol::Udp => 8,
            Protocol::Icmp => 8,
            Protocol::Raw => self.payload@.len() as int,
        }
    }

    /// The TCP pseudo-header for this batch: source and destination
    /// address, a zero byte, the protocol number, and the 20-byte segment
    /// length, big-endian. Prepended only for checksum computation, never
    /// transmitted.
    pub open spec fn tcp_pseudo_header(self) -> Seq<u8> {
        seq![
            self.source_ip.a,
            self.source_ip.b,
            self.source_ip.c,
            self.source_ip.d,
            self.dest_ip.a,
            self.dest_ip.b,
            self.dest_ip.c,
            self.dest_ip.d,
            0u8,
            6u8,
            0u8,
            20u8,
        ]
    }

    /// A 20-byte TCP SYN segment of this batch: the configured ports, a
    /// fixed sequence number of 12345, no acknowledgement, data offset 5,
    /// only the SYN flag, a fixed window of 64240, no urgent pointer, and
    /// the checksum over pseudo-header plus checksum-zeroed segment.
    pub open spec fn is_tcp_syn_segment(self, seg: Seq<u8>) -> bool {
        &&& seg.len() == 20
        &&& seg[0] * 256 + seg[1] == self.source_port
        &&& seg[2] * 256 + seg[3] == self.dest_port
        &&& seg[4] == 0 && seg[5] == 0 && seg[6] * 256 + seg[7] == 12345
        &&& seg[8] == 0 && seg[9] == 0 && seg[10] == 0 && seg[11] == 0
        &&& seg[12] == 0x50
        &&& seg[13] == 0x02
        &&& seg[14] * 256 + seg[15] == 64240
        &&& seg[16] * 256 + seg[17] == checksum_spec(
            self.tcp_pseudo_header() + seg.update(16, 0u8).update(17, 0u8),
        )
        &&& checksum_spec(self.tcp_pseudo_header() + seg) == 0
        &&& seg[18] == 0 && seg[19] == 0
    }

    /// An 8-byte UDP header of this batch: the configured ports, length
    /// 8, and the checksum left zero, which the transport specification
    /// allows.
    pub open spec fn is_udp_segment(self, seg: Seq<u8>) -> bool {
        &&& seg.len() == 8
        &&& seg[0] * 256 + seg[1] == self.source_port
        &&& seg[2] * 256 + seg[3] == self.dest_port
        &&& seg[4] * 256 + seg[5] == 8
        &&& seg[6] == 0 && seg[7] == 0
    }

    /// An 8-byte ICMP echo request: type 8, code 0, a fixed identifier of
    /// 1234 and sequence number 1, and the checksum over the ICMP message
    /// alone.
    pub open spec fn is_icmp_echo_segment(self, seg: Seq<u8>) -> bool {
        &&& seg.len() == 8
        &&& seg[0] == 8 && seg[1] == 0
        &&& seg[2] * 256 + seg[3] == checksum_spec(seg.update(2, 0u8).update(3, 0u8))
        &&& checksum_spec(seg) == 0
        &&& seg[4] * 256 + seg[5] == 1234
        &&& seg[6] * 256 + seg[7] == 1
    }

    /// The transport bytes each mode puts after the IPv4 header.
    pub open spec fn is_transport_segment(self, seg: Seq<u8>) -> bool {
        match self.protocol {
            Protocol::Tcp => self.is_tcp_syn_segment(seg),
            Protocol::Udp => self.is_udp_segment(seg),
            Protocol::Icmp => self.is_icmp_echo_segment(seg),
            Protocol::Raw => seg == self.payload@,
        }
    }

    /// A full IPv4 packet of this batch: version 4, header length 5
    /// words, total length 20 plus the transport length, no
    /// fragmentation, TTL 64, the mode's protocol number, a header
    /// checksum that validates, the configured addresses, and the mode's
    /// transport segment.
    pub open spec fn is_ip_packet(self, p: Seq<u8>) -> bool {
        &&& p.len() == 20 + self.spec_transport_len()
        &&& p[0] == 0x45 && p[1] == 0
        &&& p[2] * 256 + p[3] == p.len()
        &&& p[4] == 0 && p[5] == 0 && p[6] == 0 && p[7] == 0
        &&& p[8] == 64
        &&& p[9] == spec_protocol_number(self.protocol)
        &&& p[10] * 256 + p[11] == checksum_spec(
            p.subrange(0, 20).update(10, 0u8).update(11, 0u8),
        )
        &&& checksum_spec(p.subrange(0, 20)) == 0
        &&& p[12] == self.source_ip.a && p[13] == self.source_ip.b && p[14] == self.source_ip.c
            && p[15] == self.source_ip.d
        &&& p[16] == self.dest_ip.a && p[17] == self.dest_ip.b && p[18] == self.dest_ip.c && p[19]
            == self.dest_ip.d
        &&& self.is_transport_segment(p.skip(20))
    }

    /// A full link-layer frame of this batch: destination and source both
    /// the sending interface's link address, the IPv4 ethertype, and the
    /// IPv4 packet as payload.
    pub open spec fn is_frame(self, mac: Seq<u8>, f: Seq<u8>) -> bool {
        &&& f.len() == 14 + 20 + self.spec_transport_len()
        &&& f.subrange(0, 6) == mac
        &&& f.subrange(6, 12) == mac
        &&& f[12] == 0x08 && f[13] == 0x00
        &&& self.is_ip_packet(f.skip(14))
    }

    pub fn new(
        source_ip: Ipv4Address,
        dest_ip: Ipv4Address,
        source_port: u16,
        dest_port: u16,
        protocol: Protocol,
        payload: Vec<u8>,
        count: u32,
        delay: u32,
    ) -> (r: PacketCrafter)
        ensures
            r.source_ip == source_ip,
            r.dest_ip == dest_ip,
            r.source_port == source_port,
            r.dest_port == dest_port,
            r.protocol == protocol,
            r.payload@ == payload@,
            r.count == count,
            r.delay == delay,
    {
        PacketCrafter {
            source_ip,
            dest_ip,
            source_port,
            dest_port,
            protocol,
            payload,
            count,
            delay,
        }
    }

    /// Builds the transport segment for this batch's mode, checksummed
    /// where the mode asks for it.
    pub fn transport_segment(&self) -> (r: Vec<u8>)
        ensures
            self.is_transport_segment(r@),
            r@.len() == self.spec_transport_len(),
    {
        match self.protocol {
            Protocol::Tcp => {
                let sp = self.source_port;
                let dp = self.dest_port;
                let mut v: Vec<u8> = vec![
                    self.source_ip.a,
                    self.source_ip.b,
                    self.source_ip.c,
                    self.source_ip.d,
                    self.dest_ip.a,
                    self.dest_ip.b,
                    self.dest_ip.c,
                    self.dest_ip.d,
                    0,
                    6,
                    0,
                    20,
                    (sp / 256) as u8,
                    (sp % 256) as u8,
                    (dp / 256) as u8,
                    (dp % 256) as u8,
                    0,
                    0,
                    0x30,
                    0x39,
                    0,
                    0,
                    0,
                    0,
                    0x50,
                    0x02,
                    0xFA,
                    0xF0,
                    0,
                    0,
                    0,
                    0,
                ];
                let ghost zeroed = v@;
                checksum_insert(&mut v, 28);
                let seg = sub_bytes(&v, 12, 32);
                proof {
                    lemma_u16_byte_split(sp);
                    lemma_u16_byte_split(dp);
                    assert(zeroed.update(28, 0u8).update(29, 0u8) =~= zeroed);
                    assert(self.tcp_pseudo_header() + seg@ =~= v@);
                    assert(self.tcp_pseudo_header() + seg@.update(16, 0u8).update(17, 0u8)
                        =~= zeroed);
                }
                seg
            },
            Protocol::Udp => {
                let sp = self.source_port;
                let dp = self.dest_port;
                let v: Vec<u8> = vec![
                    (sp / 256) as u8,
                    (sp % 256) as u8,
                    (dp / 256) as u8,
                    (dp % 256) as u8,
                    0,
                    8,
                    0,
                    0,
                ];
                proof {
                    lemma_u16_byte_split(sp);
                    lemma_u16_byte_split(dp);
                }
                v
            },
            Protocol::Icmp => {
                let mut v: Vec<u8> = vec![8, 0, 0, 0, 0x04, 0xD2, 0, 1];
                let ghost zeroed = v@;
                checksum_insert(&mut v, 2);
                proof {
                    assert(zeroed.update(2, 0u8).update(3, 0u8) =~= zeroed);
                    assert(v@.update(2, 0u8).update(3, 0u8) =~= zeroed);
                }
                v
            },
            Protocol::Raw => {
                let r = sub_bytes(&self.payload, 0, self.payload.len());
                proof {
                    assert(r@ =~= self.payload@);
                }
                r
            },
        }
    }

    /// Builds the full IPv4 packet: the 20-byte header with its checksum
    /// filled in, then the transport segment.
    pub fn build_ip_packet(&self) -> (r: Vec<u8>)
        requires
            self.protocol is Raw ==> 20 + self.payload@.len() <= 0xFFFF,
        ensures
            self.is_ip_packet(r@),
    {
        let seg = self.transport_segment();
        let total: u16 = match self.protocol {
            Protocol::Tcp => 40,
            Protocol::Udp => 28,
            Protocol::Icmp => 28,
            Protocol::Raw => 20 + usize_to_u16(self.payload.len()),
        };
        let proto: u8 = match self.protocol {
            Protocol::Tcp => 6,
            Protocol::Udp => 17,
            Protocol::Icmp => 1,
            Protocol::Raw => 6,
        };
        let mut v: Vec<u8> = vec![
            0x45,
            0x00,
            (total / 256) as u8,
            (total % 256) as u8,
            0,
            0,
            0,
            0,
            64,
            proto,
            0,
            0,
            self.source_ip.a,
            self.source_ip.b,
            self.source_ip.c,
            self.source_ip.d,
            self.dest_ip.a,
            self.dest_ip.b,
            self.dest_ip.c,
            self.dest_ip.d,
        ];
        let ghost zeroed_header = v@;
        checksum_insert(&mut v, 10);
        let ghost header = v@;
        append_bytes(&mut v, &seg);
        proof {
            lemma_u16_byte_split(total);
            assert(zeroed_header.update(10, 0u8).update(11, 0u8) =~= zeroed_header);
            assert(v@.subrange(0, 20) =~= header);
            assert(v@.subrange(0, 20).update(10, 0u8).update(11, 0u8) =~= zeroed_header);
            assert(v@.skip(20) =~= seg@);
        }
        v
    }

    /// Builds one full link-layer frame addressed with the given link
    /// address as both source and destination.
    pub fn build_frame(&self, mac: &[u8; 6]) -> (r: Vec<u8>)
        requires
            self.protocol is Raw ==> 20 + self.payload@.len() <= 0xFFFF,
        ensures
            self.is_frame(mac@, r@),
    {
        let mut f: Vec<u8> = vec![
            mac[0],
            mac[1],
            mac[2],
            mac[3],
            mac[4],
            mac[5],
            mac[0],
            mac[1],
            mac[2],
            mac[3],
            mac[4],
            mac[5],
            0x08,
            0x00,
        ];
        let ip = self.build_ip_packet();
        append_bytes(&mut f, &ip);
        proof {
            assert(f@.subrange(0, 6) =~= mac@);
            assert(f@.subrange(6, 12) =~= mac@);
            assert(f@.skip(14) =~= ip@);
        }
        f
    }

    /// Builds the whole batch: exactly `count` identical frames, one per
    /// intended transmission.
    pub fn build_batch(&self, mac: &[u8; 6]) -> (r: Vec<Vec<u8>>)
        requires
            self.wf(),
        ensures
            r@.len() == self.count,
            forall|i: int| 0 <= i < r@.len() ==> self.is_frame(mac@, (#[trigger] r@[i])@),
    {
        let mut frames: Vec<Vec<u8>> = Vec::new();
        let mut i: u32 = 0;
        while i < self.count
            invariant
                i <= self.count,
                frames@.len() == i,
                self.wf(),
                forall|k: int| 0 <= k < i ==> self.is_frame(mac@, (#[trigger] frames@[k])@),
            decreases self.count - i,
        {
            let frame = self.build_frame(mac);
            frames.push(frame);
            i = i + 1;
        }
        frames
    }
}

/// Splits a 16-bit value into its big-endian bytes.
proof fn lemma_u16_byte_split(x: u16)
    ensures
        ((x / 256) as u8) * 256 + ((x % 256) as u8) == x,
{
    assert((((x / 256) as u8) as u16) == x / 256 && (((x % 256) as u8) as u16) == x % 256)
        by (bit_vector);
    lemma_fundamental_div_mod(x as int, 256);
}

fn usize_to_u16(x: usize) -> (r: u16)
    requires
        x <= 0xFFFF,
    ensures
        r as int == x as int,
{
    proof {
        assert(x <= 0xFFFFusize ==> (x as u16) as usize == x) by (bit_vector);
    }
    x as u16
}

/// Copies the bytes `v[from..to]` into a fresh vector.
fn sub_bytes(v: &Vec<u8>, from: usize, to: usize) -> (r: Vec<u8>)
    requires
        from <= to <= v@.len(),
    ensures
        r@ == v@.subrange(from as int, to as int),
{
    let mut r: Vec<u8> = Vec::new();
    let mut i: usize = from;
    while i < to
        invariant
            from <= i <= to <= v@.len(),
            r@ == v@.subrange(from as int, i as int),
        decreases to - i,
    {
        r.push(v[i]);
        proof {
            assert(r@ =~= v@.subrange(from as int, i as int + 1));
        }
        i = i + 1;
    }
    r
}

/// Appends all of `s` to `v`.
fn append_bytes(v: &mut Vec<u8>, s: &Vec<u8>)
    ensures
        final(v)@ == old(v)@ + s@,
{
    let mut i: usize = 0;
    proof {
        assert(v@ =~= old(v)@ + s@.subrange(0, 0));
    }
    while i < s.len()
        invariant
            i <= s@.len(),
            v@ == old(v)@ + s@.subrange(0, i as int),
        decreases s@.len() - i,
    {
        v.push(s[i]);
        proof {
            assert(v@ =~= old(v)@ + s@.subrange(0, i as int + 1));
        }
        i = i + 1;
    }
    proof {
        assert(v@ =~= old(v)@ + s@);
    }
}

} // verus!
