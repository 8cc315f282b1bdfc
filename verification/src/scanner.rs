//! The port scanner: partitions a port range across a worker pool and
//! classifies probe outcomes into port statuses. The probes themselves
//! (raw sends, handshakes, timeouts) are outside work; the engine decides
//! what each outcome means and owns the result records. A scan produces
//! exactly one result per port of the range, in ascending port order per
//! worker.

use vstd::prelude::*;
use vstd::string::StringExecFns;
use vstd::arithmetic::div_mod::lemma_fundamental_div_mod;
use vstd::arithmetic::mul::lemma_mul_inequality;
use crate::net::{Ipv4Address, parse_ipv4, spec_parse_ipv4};
use crate::sniffer::{be16, ipv4_payload};

verus! {

/// The scan strategy.
#[derive(PartialEq, Eq, Structural, Debug, Clone, Copy)]
pub enum ScanType {
    TcpSyn,
    TcpConnect,
    Udp,
}

/// What a probe of one port concluded.
#[derive(PartialEq, Eq, Structural, Debug, Clone, Copy)]
pub enum PortStatus {
    Open,
    Closed,
    Filtered,
    Unknown,
}

/// What came back from the network for one probe: the transport-level
/// answer, or silence within the timeout.
#[derive(PartialEq, Eq, Structural, Debug, Clone, Copy)]
pub enum ProbeEvent {
    SynAck,
    Rst,
    ConnectOk,
    ConnectRefused,
    IcmpPortUnreachable,
    AppData,
    Timeout,
}

/// A fatal configuration fault, surfaced before any work starts.
#[derive(PartialEq, Eq, Structural, Debug, Clone, Copy)]
pub enum ConfigError {
    NoUsableInterface,
    MalformedTarget,
    InvalidPortRange,
    InvalidWorkerCount,
}

impl PortStatus {
    /// The status in string form, as result records carry it.
    pub open spec fn spec_label(self) -> Seq<char> {
        match self {
            PortStatus::Open => "Open"@,
            PortStatus::Closed => "Closed"@,
            PortStatus::Filtered => "Filtered"@,
            PortStatus::Unknown => "Unknown"@,
        }
    }

    pub fn label(&self) -> (r: String)
        ensures
            r@ == self.spec_label(),
    {
        match self {
            PortStatus::Open => String::from_str("Open"),
            PortStatus::Closed => String::from_str("Closed"),
            PortStatus::Filtered => String::from_str("Filtered"),
            PortStatus::Unknown => String::from_str("Unknown"),
        }
    }
}

/// How a probe outcome is read under each strategy. A SYN-ACK means open
/// and an RST means closed under a SYN scan; a completed or refused
/// handshake decides a connect scan; a UDP probe is closed on an ICMP
/// port-unreachable, open on any application answer. Silence is filtered
/// for the TCP strategies and unknown for UDP, and an answer that the
/// strategy cannot produce is read as silence.
pub open spec fn spec_classify(t: ScanType, e: ProbeEvent) -> PortStatus {
    match t {
        ScanType::TcpSyn => match e {
            ProbeEvent::SynAck => PortStatus::Open,
            ProbeEvent::Rst => PortStatus::Closed,
            _ => PortStatus::Filtered,
        },
        ScanType::TcpConnect => match e {
            ProbeEvent::ConnectOk => PortStatus::Open,
            ProbeEvent::ConnectRefused => PortStatus::Closed,
            _ => PortStatus::Filtered,
        },
        ScanType::Udp => match e {
            ProbeEvent::AppData => PortStatus::Open,
            ProbeEvent::IcmpPortUnreachable => PortStatus::Closed,
            _ => PortStatus::Unknown,
        },
    }
}

/// Classifies one probe outcome under the given strategy.
pub fn classify_response(t: ScanType, e: ProbeEvent) -> (r: PortStatus)
    ensures
        r == spec_classify(t, e),
{
    match t {
        ScanType::TcpSyn => match e {
            ProbeEvent::SynAck => PortStatus::Open,
            ProbeEvent::Rst => PortStatus::Closed,
            _ => PortStatus::Filtered,
        },
        ScanType::TcpConnect => match e {
            ProbeEvent::ConnectOk => PortStatus::Open,
            ProbeEvent::ConnectRefused => PortStatus::Closed,
            _ => PortStatus::Filtered,
        },
        ScanType::Udp => match e {
            ProbeEvent::AppData => PortStatus::Open,
            ProbeEvent::IcmpPortUnreachable => PortStatus::Closed,
            _ => PortStatus::Unknown,
        },
    }
}

/// What a captured frame answers to a SYN probe sent from `local_port`
/// to `port` on `target`: a TCP segment from that address and port back
/// to the probe's own port whose flags carry SYN+ACK means open, one
/// carrying RST means closed, and any other frame is not an answer to
/// this probe.
pub open spec fn spec_syn_probe_event(
    p: Seq<u8>,
    target: Ipv4Address,
    port: u16,
    local_port: u16,
) -> Option<ProbeEvent> {
    if p.len() >= 34 && be16(p, 12) == 0x0800 && p[23] == 6 && p[26] == target.a && p[27]
        == target.b && p[28] == target.c && p[29] == target.d && ipv4_payload(p.skip(14)).len()
        >= 20 && be16(ipv4_payload(p.skip(14)), 0) == port && be16(ipv4_payload(p.skip(14)), 2)
        == local_port {
        let flags = ipv4_payload(p.skip(14))[13];
        if flags & 0x12 == 0x12 {
            Some(ProbeEvent::SynAck)
        } else if flags & 0x04 == 0x04 {
            Some(ProbeEvent::Rst)
        } else {
            None
        }
    } else {
        None
    }
}

/// Reads a captured frame as the answer to a SYN probe sent from
/// `local_port` to `port` on `target`, or `None` for an unrelated frame.
pub fn syn_probe_event(frame: &[u8], target: Ipv4Address, port: u16, local_port: u16) -> (r:
    Option<ProbeEvent>)
    ensures
        r == spec_syn_probe_event(frame@, target, port, local_port),
{
    let len = frame.len();
    if len < 34 {
        return None;
    }
    if !((frame[12] as u32) * 256 + (frame[13] as u32) == 0x0800 && frame[23] == 6) {
        return None;
    }
    if !(frame[26] == target.a && frame[27] == target.b && frame[28] == target.c && frame[29]
        == target.d) {
        return None;
    }
    let ihl: u8 = frame[14] % 16;
    let off: usize = 14 + 4 * (ihl as usize);
    let ghost t = ipv4_payload(frame@.skip(14));
    proof {
        if off <= len {
            assert(t =~= frame@.skip(off as int));
        }
    }
    if !(off <= len && len - off >= 20) {
        return None;
    }
    let sport: u32 = (frame[off] as u32) * 256 + (frame[off + 1] as u32);
    if sport != port as u32 {
        return None;
    }
    let dport: u32 = (frame[off + 2] as u32) * 256 + (frame[off + 3] as u32);
    if dport != local_port as u32 {
        return None;
    }
    let flags = frame[off + 13];
    if flags & 0x12 == 0x12 {
        Some(ProbeEvent::SynAck)
    } else if flags & 0x04 == 0x04 {
        Some(ProbeEvent::Rst)
    } else {
        None
    }
}

fn usize_to_u32(x: usize) -> (r: u32)
    requires
        x <= 0xFFFFFFFF,
    ensures
        r as int == x as int,
{
    proof {
        assert(x <= 0xFFFFFFFFusize ==> (x as u32) as usize == x) by (bit_vector);
    }
    x as u32
}

/// Divides the port range `[lo, hi]` into `n` half-open, contiguous
/// subranges `[start, end)`. Every worker but the last gets the same
/// share; the last absorbs the remainder. With more workers than ports
/// the trailing subranges are empty.
#[verifier::rlimit(50)]
pub fn partition_ports(lo: u16, hi: u16, n: usize) -> (r: Vec<(u32, u32)>)
    requires
        lo <= hi,
        n >= 1,
    ensures
        r@.len() == n,
        r@[0].0 == lo,
        r@[n as int - 1].1 == hi + 1,
        forall|i: int| 0 <= i < n ==> lo <= (#[trigger] r@[i]).0 <= r@[i].1 <= hi + 1,
        forall|i: int| 0 <= i < n - 1 ==> (#[trigger] r@[i]).1 == r@[i + 1].0,
        forall|i: int|
            0 <= i < n - 1 ==> (#[trigger] r@[i]).1 - r@[i].0 == (hi - lo + 1) / (n as int),
        r@[n as int - 1].1 - r@[n as int - 1].0 == (hi - lo + 1) / (n as int) + (hi - lo + 1) % (
        n as int),
{
    let count: usize = (hi - lo) as usize + 1;
    let chunk: usize = count / n;
    let rem: usize = count % n;
    proof {
        lemma_fundamental_div_mod(count as int, n as int);
        lemma_mul_inequality(1, n as int, chunk as int);
    }
    let mut r: Vec<(u32, u32)> = Vec::new();
    let mut start: usize = lo as usize;
    let mut i: usize = 0;
    while i < n
        invariant
            i <= n,
            n >= 1,
            r@.len() == i,
            lo <= hi,
            count == hi - lo + 1,
            chunk == count as int / n as int,
            rem == count as int % n as int,
            count == n * chunk + rem,
            start == lo + i * chunk,
            start + chunk + rem <= hi + 1 || i == n,
            forall|k: int|
                0 <= k < i ==> (#[trigger] r@[k]).0 == lo + k * chunk && r@[k].1 == lo + (k + 1)
                    * chunk + (if k == n - 1 {
                    rem as int
                } else {
                    0int
                }),
        decreases n - i,
    {
        proof {
            assert((i + 1) * chunk == i * chunk + chunk) by (nonlinear_arith);
            lemma_mul_inequality(i as int + 1, n as int, chunk as int);
            assert((i + 1) * chunk + rem <= n * chunk + rem);
        }
        let end: usize = if i == n - 1 {
            start + chunk + rem
        } else {
            start + chunk
        };
        r.push((usize_to_u32(start), usize_to_u32(end)));
        start = start + chunk;
        i = i + 1;
        proof {
            if i < n {
                lemma_mul_inequality(i as int + 1, n as int, chunk as int);
                assert((i + 1) * chunk == i * chunk + chunk) by (nonlinear_arith);
            }
        }
    }
    proof {
        assert(r@[0].0 == lo);
        assert(r@[n as int - 1].1 == lo + n as int * chunk as int + rem as int == hi + 1);
        assert(n as int * chunk == (n as int - 1) * chunk + chunk) by (nonlinear_arith);
        assert forall|k: int| 0 <= k < n implies lo <= (#[trigger] r@[k]).0 <= r@[k].1 <= hi
            + 1 by {
            lemma_mul_inequality(k, n as int, chunk as int);
            lemma_mul_inequality(k + 1, n as int, chunk as int);
            assert(k * chunk >= 0) by (nonlinear_arith)
                requires
                    k >= 0,
                    chunk >= 0,
            ;
            assert((k + 1) * chunk == k * chunk + chunk) by (nonlinear_arith);
        }
        assert forall|k: int| 0 <= k < n - 1 implies (#[trigger] r@[k]).1 == r@[k + 1].0 by {
            assert((k + 1) * chunk == k * chunk + chunk) by (nonlinear_arith);
        }
        assert forall|k: int| 0 <= k < n - 1 implies (#[trigger] r@[k]).1 - r@[k].0 == (hi - lo + 1)
            / (n as int) by {
            assert((k + 1) * chunk == k * chunk + chunk) by (nonlinear_arith);
        }
    }
    r
}

proof fn lemma_partition_monotonic(r: Seq<(u32, u32)>, i: int, j: int)
    requires
        0 <= i <= j < r.len(),
        forall|k: int| 0 <= k < r.len() ==> (#[trigger] r[k]).0 <= r[k].1,
        forall|k: int| 0 <= k < r.len() - 1 ==> (#[trigger] r[k]).1 == r[k + 1].0,
    ensures
        r[i].0 <= r[j].0,
        r[i].1 <= r[j].1,
    decreases j - i,
{
    if i < j {
        lemma_partition_monotonic(r, i, j - 1);
        assert(r[j - 1].1 == r[j].0);
    }
}

proof fn lemma_partition_find(r: Seq<(u32, u32)>, p: int, i: int)
    requires
        0 <= i < r.len(),
        forall|k: int| 0 <= k < r.len() ==> (#[trigger] r[k]).0 <= r[k].1,
        forall|k: int| 0 <= k < r.len() - 1 ==> (#[trigger] r[k]).1 == r[k + 1].0,
        r[i].0 <= p,
        p < r[r.len() - 1].1,
    ensures
        exists|k: int| 0 <= k < r.len() && (#[trigger] r[k]).0 <= p < r[k].1,
    decreases r.len() - i,
{
    if p < r[i].1 {
        assert(0 <= i < r.len() && r[i].0 <= p < r[i].1);
    } else {
        assert(i < r.len() - 1);
        lemma_partition_find(r, p, i + 1);
    }
}

/// Some subrange of the partition holds `p`.
pub open spec fn covered(r: Seq<(u32, u32)>, p: int) -> bool {
    exists|k: int| 0 <= k < r.len() && (#[trigger] r[k]).0 <= p < r[k].1
}

/// The partition law: subranges generated for `[lo, hi]` are pairwise
/// disjoint, and their union is exactly `[lo, hi]` — every port of the
/// range lies in some subrange, and no subrange holds anything else.
pub proof fn lemma_partition_covers(r: Seq<(u32, u32)>, lo: u16, hi: u16)
    requires
        r.len() >= 1,
        r[0].0 == lo,
        r[r.len() - 1].1 == hi + 1,
        forall|k: int| 0 <= k < r.len() ==> (#[trigger] r[k]).0 <= r[k].1,
        forall|k: int| 0 <= k < r.len() - 1 ==> (#[trigger] r[k]).1 == r[k + 1].0,
    ensures
        forall|i: int, j: int| 0 <= i < j < r.len() ==> (#[trigger] r[i]).1 <= (#[trigger] r[j]).0,
        forall|p: int| lo <= p <= hi ==> #[trigger] covered(r, p),
        forall|p: int| #[trigger] covered(r, p) ==> lo <= p <= hi,
{
    assert forall|i: int, j: int| 0 <= i < j < r.len() implies (#[trigger] r[i]).1 <= (
    #[trigger] r[j]).0 by {
        lemma_partition_monotonic(r, i + 1, j);
    }
    assert forall|p: int| lo <= p <= hi implies #[trigger] covered(r, p) by {
        lemma_partition_find(r, p, 0);
    }
    assert forall|p: int| #[trigger] covered(r, p) implies lo <= p <= hi by {
        let k = choose|k: int| 0 <= k < r.len() && (#[trigger] r[k]).0 <= p < r[k].1;
        lemma_partition_monotonic(r, 0, k);
        lemma_partition_monotonic(r, k, r.len() - 1);
    }
}

/// One scan session: the target, the range, the strategy, the worker
/// count, and the results gathered so far.
pub struct PortScanner {
    pub target_ip: Ipv4Address,
    pub port_range: (u16, u16),
    pub scan_type: ScanType,
    pub threads: usize,
    pub results: Vec<(u16, String)>,
}

impl PortScanner {
    /// Builds a scanner only from a well-formed configuration, a fatal
    /// fault surfaced before any work starts: the target must be a
    /// well-formed dotted-quad address, the range must satisfy
    /// `1 <= lo <= hi`, and the worker count must be at least one. Faults
    /// are reported in that order.
    pub fn new(target: &str, port_range: (u16, u16), scan_type: ScanType, threads: usize) -> (r:
        Result<PortScanner, ConfigError>)
        ensures
            ({
                if spec_parse_ipv4(target@) is None {
                    r == Err::<PortScanner, ConfigError>(ConfigError::MalformedTarget)
                } else if !(1 <= port_range.0 <= port_range.1) {
                    r == Err::<PortScanner, ConfigError>(ConfigError::InvalidPortRange)
                } else if threads < 1 {
                    r == Err::<PortScanner, ConfigError>(ConfigError::InvalidWorkerCount)
                } else {
                    &&& r is Ok
                    &&& r->Ok_0.target_ip == spec_parse_ipv4(target@)->Some_0
                    &&& r->Ok_0.port_range == port_range
                    &&& r->Ok_0.scan_type == scan_type
                    &&& r->Ok_0.threads == threads
                    &&& r->Ok_0.results@.len() == 0
                }
            }),
    {
        let target_ip = match parse_ipv4(target) {
            Some(ip) => ip,
            None => {
                return Err(ConfigError::MalformedTarget);
            },
        };
        if !(1 <= port_range.0 && port_range.0 <= port_range.1) {
            return Err(ConfigError::InvalidPortRange);
        }
        if threads < 1 {
            return Err(ConfigError::InvalidWorkerCount);
        }
        Ok(PortScanner { target_ip, port_range, scan_type, threads, results: Vec::new() })
    }

    /// Runs one scan session over the probe outcomes, one per port of the
    /// range in ascending order. Exactly one result per port is recorded,
    /// in ascending port order, each the classification of its outcome
    /// under the session's strategy. A bad range or worker count is a
    /// fatal configuration fault: nothing is recorded.
    pub fn scan(&mut self, events: &Vec<ProbeEvent>) -> (r: Result<(), ConfigError>)
        requires
            1 <= old(self).port_range.0 <= old(self).port_range.1 ==> events@.len() == old(
                self,
            ).port_range.1 - old(self).port_range.0 + 1,
        ensures
            final(self).target_ip == old(self).target_ip,
            final(self).port_range == old(self).port_range,
            final(self).scan_type == old(self).scan_type,
            final(self).threads == old(self).threads,
            ({
                let lo = old(self).port_range.0;
                let hi = old(self).port_range.1;
                let res = final(self).results@;
                let oldres = old(self).results@;
                if !(1 <= lo <= hi) {
                    r == Err::<(), ConfigError>(ConfigError::InvalidPortRange) && res == oldres
                } else if old(self).threads < 1 {
                    r == Err::<(), ConfigError>(ConfigError::InvalidWorkerCount) && res == oldres
                } else {
                    &&& r == Ok::<(), ConfigError>(())
                    &&& res.len() == hi - lo + 1
                    &&& forall|i: int|
                        0 <= i < res.len() ==> (#[trigger] res[i]).0 == lo + i && res[i].1@
                            == spec_classify(old(self).scan_type, events@[i]).spec_label()
                }
            }),
    {
        let lo = self.port_range.0;
        let hi = self.port_range.1;
        if !(1 <= lo && lo <= hi) {
            return Err(ConfigError::InvalidPortRange);
        }
        if self.threads < 1 {
            return Err(ConfigError::InvalidWorkerCount);
        }
        let count: usize = (hi - lo) as usize + 1;
        let mut out: Vec<(u16, String)> = Vec::new();
        let mut i: usize = 0;
        while i < count
            invariant
                i <= count,
                count == hi - lo + 1,
                lo <= hi,
                events@.len() == count,
                out@.len() == i,
                forall|k: int|
                    0 <= k < i ==> (#[trigger] out@[k]).0 == lo + k && out@[k].1@ == spec_classify(
                        self.scan_type,
                        events@[k],
                    ).spec_label(),
            decreases count - i,
        {
            let port: u16 = lo + (i as u16);
            let status = classify_response(self.scan_type, events[i]);
            out.push((port, status.label()));
            i = i + 1;
        }
        self.results = out;
        Ok(())
    }

    /// A copy of the results gathered so far.
    pub fn get_results(&self) -> (r: Vec<(u16, String)>)
        ensures
            r@.len() == self.results@.len(),
            forall|i: int|
                0 <= i < r@.len() ==> (#[trigger] r@[i]).0 == self.results@[i].0 && r@[i].1@
                    == self.results@[i].1@,
    {
        let mut v: Vec<(u16, String)> = Vec::new();
        let mut i: usize = 0;
        while i < self.results.len()
            invariant
                i <= self.results@.len(),
                v@.len() == i,
                forall|k: int|
                    0 <= k < i ==> (#[trigger] v@[k]).0 == self.results@[k].0 && v@[k].1@
                        == self.results@[k].1@,
            decreases self.results@.len() - i,
        {
            let port = self.results[i].0;
            let label = self.results[i].1.clone();
            v.push((port, label));
            i = i + 1;
        }
        v
    }
}

} // verus!
