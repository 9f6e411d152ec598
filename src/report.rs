use std::collections::HashMap;
use vstd::prelude::*;
use vstd::string::StringExecFns;

use crate::stats::{DeviceConnectionStats, PortStats};

verus! {

broadcast use vstd::std_specs::hash::group_hash_axioms;

#[verifier::external_type_specification]
#[verifier::external_body]
pub struct ExInstant(std::time::Instant);

/// Relies on std::time::Instant::now for the current monotonic time; no
/// property of the value is used.
#[verifier::external_body]
fn instant_now() -> (r: std::time::Instant) {
    std::time::Instant::now()
}

/// The decimal digit `d` as a character.
pub open spec fn digit_char(d: nat) -> char {
    if d == 0 {
        '0'
    } else if d == 1 {
        '1'
    } else if d == 2 {
        '2'
    } else if d == 3 {
        '3'
    } else if d == 4 {
        '4'
    } else if d == 5 {
        '5'
    } else if d == 6 {
        '6'
    } else if d == 7 {
        '7'
    } else if d == 8 {
        '8'
    } else {
        '9'
    }
}

/// The decimal digits of `n`, without leading zeros.
pub open spec fn decimal(n: nat) -> Seq<char>
    decreases n,
{
    if n < 10 {
        seq![digit_char(n)]
    } else {
        decimal(n / 10).push(digit_char(n % 10))
    }
}

/// The dotted-quad text of `ip`, least significant octet first: the text of
/// an address held in network byte order and read as a little-endian
/// integer, as the kernel tables hold it.
pub open spec fn dotted_quad(ip: u32) -> Seq<char> {
    decimal((ip % 256) as nat) + seq!['.'] + decimal(((ip / 256) % 256) as nat) + seq!['.']
        + decimal(((ip / 0x1_0000) % 256) as nat) + seq!['.'] + decimal((ip / 0x100_0000) as nat)
}

/// The one-character text of the digit `d`.
fn digit_str(d: u32) -> (r: &'static str)
    requires
        d < 10,
    ensures
        r@ == seq![digit_char(d as nat)],
{
    proof {
        reveal_strlit("0");
        reveal_strlit("1");
        reveal_strlit("2");
        reveal_strlit("3");
        reveal_strlit("4");
        reveal_strlit("5");
        reveal_strlit("6");
        reveal_strlit("7");
        reveal_strlit("8");
        reveal_strlit("9");
    }
    let r = if d == 0 {
        "0"
    } else if d == 1 {
        "1"
    } else if d == 2 {
        "2"
    } else if d == 3 {
        "3"
    } else if d == 4 {
        "4"
    } else if d == 5 {
        "5"
    } else if d == 6 {
        "6"
    } else if d == 7 {
        "7"
    } else if d == 8 {
        "8"
    } else {
        "9"
    };
    assert(r@ =~= seq![digit_char(d as nat)]);
    r
}

/// Appends the decimal digits of `num` (below 1000) to `buf` and returns
/// how many it appended.
pub fn write_num(buf: &mut String, num: u32) -> (n: usize)
    requires
        num < 1000,
    ensures
        final(buf)@ == old(buf)@ + decimal(num as nat),
        n == decimal(num as nat).len(),
{
    proof {
        reveal_with_fuel(decimal, 3);
    }
    if num >= 100 {
        buf.append(digit_str(num / 100));
        buf.append(digit_str((num / 10) % 10));
        buf.append(digit_str(num % 10));
        proof {
            let n = num as nat;
            assert(n / 10 / 10 == n / 100) by (nonlinear_arith)
                requires
                    n >= 100,
            ;
            assert((n / 10) % 10 < 10);
            assert(decimal(n) =~= seq![
                digit_char(n / 100),
                digit_char((n / 10) % 10),
                digit_char(n % 10),
            ]);
        }
        assert(buf@ =~= old(buf)@ + decimal(num as nat));
        3
    } else if num >= 10 {
        buf.append(digit_str(num / 10));
        buf.append(digit_str(num % 10));
        proof {
            let n = num as nat;
            assert(decimal(n) =~= seq![digit_char(n / 10), digit_char(n % 10)]);
        }
        assert(buf@ =~= old(buf)@ + decimal(num as nat));
        2
    } else {
        buf.append(digit_str(num));
        assert(buf@ =~= old(buf)@ + decimal(num as nat));
        1
    }
}

/// The dotted-quad text of `ip`, least significant octet first (see
/// `dotted_quad`).
pub fn int_to_ip(ip: u32) -> (r: String)
    ensures
        r@ == dotted_quad(ip),
{
    let mut s = String::new();
    write_num(&mut s, ip % 256);
    s.append(".");
    write_num(&mut s, (ip / 256) % 256);
    s.append(".");
    write_num(&mut s, (ip / 0x1_0000) % 256);
    s.append(".");
    write_num(&mut s, ip / 0x100_0000);
    proof {
        reveal_strlit(".");
    }
    assert(s@ =~= dotted_quad(ip));
    s
}

/// An IP protocol number, named for display.
#[derive(Debug)]
pub struct Protocol(pub u8);

/// The display name of the IP protocol number `p`.
pub open spec fn protocol_label(p: u8) -> Seq<char> {
    if p == 17 {
        "UDP"@
    } else if p == 6 {
        "TCP"@
    } else if p == 1 {
        "ICMP"@
    } else if p == 58 {
        "ICMPv6"@
    } else if p == 2 {
        "IGMP"@
    } else if p == 103 {
        "PIM"@
    } else if p == 132 {
        "SCTP"@
    } else {
        "Unknown"@
    }
}

impl Protocol {
    /// The display name of the protocol.
    pub fn name(&self) -> (r: &'static str)
        ensures
            r@ == protocol_label(self.0),
    {
        match self.0 {
            17 => "UDP",
            6 => "TCP",
            1 => "ICMP",
            58 => "ICMPv6",
            2 => "IGMP",
            103 => "PIM",
            132 => "SCTP",
            _ => "Unknown",
        }
    }
}

/// The display name of a connection-state code.
pub open spec fn status_label(status: u32) -> Seq<char> {
    if status == 1 {
        "connecting"@
    } else if status == 2 {
        "established"@
    } else if status == 3 {
        "closing"@
    } else if status == 4 {
        "reset"@
    } else {
        "unknown"@
    }
}

/// The display name of a connection-state code.
pub fn connection_status_label(status: u32) -> (r: &'static str)
    ensures
        r@ == status_label(status),
{
    match status {
        1 => "connecting",
        2 => "established",
        3 => "closing",
        4 => "reset",
        _ => "unknown",
    }
}

/// The pairs are ordered by their second component (a byte count),
/// largest first.
pub open spec fn sorted_by_bytes_desc(s: Seq<(u64, u64)>) -> bool {
    forall|a: int, b: int| 0 <= a < b < s.len() ==> (#[trigger] s[a]).1 >= (#[trigger] s[b]).1
}

/// Orders `(key, bytes)` pairs by bytes, largest first; the pairs
/// themselves are kept, each as often as before. The order among equal
/// byte counts is left open.
pub fn sort_by_bytes_desc(v: &mut Vec<(u64, u64)>)
    ensures
        sorted_by_bytes_desc(final(v)@),
        final(v)@.to_multiset() == old(v)@.to_multiset(),
{
    broadcast use vstd::seq_lib::group_to_multiset_ensures, vstd::multiset::group_multiset_axioms;

    let n = v.len();
    if n < 2 {
        return;
    }
    let mut i: usize = 1;
    while i < n
        invariant
            n == v@.len(),
            1 <= i <= n,
            v@.to_multiset() == old(v)@.to_multiset(),
            forall|a: int, b: int| 0 <= a < b < i ==> (#[trigger] v@[a]).1 >= (#[trigger] v@[b]).1,
        decreases n - i,
    {
        let mut j: usize = i;
        while j > 0 && v[j - 1].1 < v[j].1
            invariant
                n == v@.len(),
                0 <= j <= i < n,
                v@.to_multiset() == old(v)@.to_multiset(),
                forall|a: int, b: int| 0 <= a < b < j ==> (#[trigger] v@[a]).1 >= (#[trigger] v@[b]).1,
                forall|a: int, b: int|
                    j <= a < b <= i ==> (#[trigger] v@[a]).1 >= (#[trigger] v@[b]).1,
                forall|a: int, b: int|
                    0 <= a < j && j < b <= i ==> (#[trigger] v@[a]).1 >= (#[trigger] v@[b]).1,
            decreases j,
        {
            let x = v[j - 1];
            let y = v[j];
            let ghost before = v@;
            v.set(j - 1, y);
            v.set(j, x);
            proof {
                assert(v@ == before.update(j - 1, y).update(j as int, x));
                let mid = before.update(j - 1, y);
                assert(mid[j as int] == y);
                let m = before.to_multiset();
                vstd::seq_lib::to_multiset_update(before, j - 1, y);
                vstd::seq_lib::to_multiset_update(mid, j as int, x);
                assert(mid.to_multiset() == m.insert(y).remove(x));
                assert(v@.to_multiset() == mid.to_multiset().insert(x).remove(y));
                assert(before[j - 1] == x);
                vstd::seq_lib::to_multiset_contains(before, x);
                assert(m.count(x) > 0);
                assert(v@.to_multiset() =~= m);
            }
            j -= 1;
        }
        proof {
            assert forall|a: int, b: int| 0 <= a < b < i + 1 implies (#[trigger] v@[a]).1 >= (
            #[trigger] v@[b]).1 by {
                if a < j && b == j && j > 0 {
                    assert(v@[a].1 >= v@[j - 1].1 || a == j - 1);
                }
            }
        }
        i += 1;
    }
}

/// The display name of a direction code: 0 ingress, anything else egress.
pub fn direction_label(direction: u32) -> (r: &'static str)
    ensures
        r@ == (if direction == 0 {
            "ingress"@
        } else {
            "egress"@
        }),
{
    if direction == 0 {
        "ingress"
    } else {
        "egress"
    }
}

/// The display name of a transport protocol number in a device-connection
/// record.
pub fn transport_label(protocol: u32) -> (r: &'static str)
    ensures
        r@ == (if protocol == 6 {
            "TCP"@
        } else if protocol == 17 {
            "UDP"@
        } else {
            "UNKNOWN"@
        }),
{
    if protocol == 6 {
        "TCP"
    } else if protocol == 17 {
        "UDP"
    } else {
        "UNKNOWN"
    }
}

/// The records of `records` whose device is `device_id`, in order.
pub open spec fn of_device(records: Seq<DeviceConnectionStats>, device_id: u32) -> Seq<
    DeviceConnectionStats,
>
    decreases records.len(),
{
    if records.len() == 0 {
        Seq::empty()
    } else {
        let rest = of_device(records.drop_last(), device_id);
        if records.last().device_id == device_id {
            rest.push(records.last())
        } else {
            rest
        }
    }
}

/// The records of `records` whose device is `device_id`, in order.
pub fn records_of_device(records: &Vec<DeviceConnectionStats>, device_id: u32) -> (r: Vec<
    DeviceConnectionStats,
>)
    ensures
        r@ == of_device(records@, device_id),
{
    let mut out: Vec<DeviceConnectionStats> = Vec::new();
    let mut i: usize = 0;
    while i < records.len()
        invariant
            i <= records@.len(),
            out@ == of_device(records@.subrange(0, i as int), device_id),
        decreases records@.len() - i,
    {
        assert(records@.subrange(0, i + 1).drop_last() =~= records@.subrange(0, i as int));
        let rec = records[i];
        if rec.device_id == device_id {
            out.push(rec);
        }
        i += 1;
    }
    assert(records@.subrange(0, records@.len() as int) =~= records@);
    out
}

/// One connection as the reporting side keeps it.
pub struct ConnectionInfo {
    pub src_ip: u32,
    pub dst_ip: u32,
    pub src_port: u16,
    pub dst_port: u16,
    /// State code: 1 connecting, 2 established, 3 closing, 4 reset.
    pub status: u32,
    pub bytes: u64,
    pub last_seen: std::time::Instant,
}

impl ConnectionInfo {
    /// The connection is established (state code 2).
    pub fn is_established(&self) -> (r: bool)
        ensures
            r == (self.status == 2),
    {
        self.status == 2
    }
}

/// The reporting side's snapshot of the tables.
pub struct TrafficStats {
    pub ip_stats: HashMap<u32, u64>,
    pub connections: HashMap<u64, ConnectionInfo>,
    pub last_update: std::time::Instant,
    pub port_stats: HashMap<u16, PortStats>,
    pub total_packets: u64,
    pub total_bytes: u64,
}

impl TrafficStats {
    /// An empty snapshot taken now.
    pub fn new() -> (r: Self)
        ensures
            r.ip_stats@ == Map::<u32, u64>::empty(),
            r.connections@ == Map::<u64, ConnectionInfo>::empty(),
            r.port_stats@ == Map::<u16, PortStats>::empty(),
            r.total_packets == 0,
            r.total_bytes == 0,
    {
        TrafficStats {
            ip_stats: HashMap::new(),
            connections: HashMap::new(),
            last_update: instant_now(),
            port_stats: HashMap::new(),
            total_packets: 0,
            total_bytes: 0,
        }
    }

    /// Takes the global counters that could be read; a counter that could
    /// not be read keeps its earlier value.
    pub fn record_totals(&mut self, total_packets: Option<u64>, total_bytes: Option<u64>)
        ensures
            final(self).total_packets == (match total_packets {
                Some(n) => n,
                None => old(self).total_packets,
            }),
            final(self).total_bytes == (match total_bytes {
                Some(n) => n,
                None => old(self).total_bytes,
            }),
            final(self).ip_stats@ == old(self).ip_stats@,
            final(self).connections@ == old(self).connections@,
            final(self).port_stats@ == old(self).port_stats@,
    {
        if let Some(n) = total_packets {
            self.total_packets = n;
        }
        if let Some(n) = total_bytes {
            self.total_bytes = n;
        }
    }

    /// Takes the record read for `port`; a record of no packets is skipped.
    pub fn record_port_stats(&mut self, port: u16, stats: PortStats)
        ensures
            final(self).port_stats@ == (if stats.packets > 0 {
                old(self).port_stats@.insert(port, stats)
            } else {
                old(self).port_stats@
            }),
            final(self).ip_stats@ == old(self).ip_stats@,
            final(self).connections@ == old(self).connections@,
            final(self).total_packets == old(self).total_packets,
            final(self).total_bytes == old(self).total_bytes,
    {
        if stats.packets > 0 {
            self.port_stats.insert(port, stats);
        }
    }
}

} // verus!
