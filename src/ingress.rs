use vstd::prelude::*;

use crate::conntrack::{
    classify_tcp_flags, conn_key, generate_conn_key, track_write, ConnectionState, TrackWrite,
};
use crate::packet::{
    be16, frame_daddr, frame_dst_port, frame_protocol, frame_saddr, frame_src_port,
    frame_tcp_flags, has_ip_header, has_tcp_header, has_udp_header, EthHdr, IpHdr, TcpHdr, UdpHdr, ETH_HDR_LEN,
    ETH_P_IP, IPPROTO_TCP, IPPROTO_UDP, IP_HDR_LEN, TCP_HDR_LEN, UDP_HDR_LEN,
};
use crate::table::{add_bytes, upsert, BoundedTable};

verus! {

/// Capacity of the per-address byte table.
pub const IP_STATS_CAPACITY: usize = 1024;

/// Capacity of the connection-state table.
pub const CONNECTION_TRACK_CAPACITY: usize = 8192;

/// Capacity of the per-connection byte table.
pub const CONNECTION_STATS_CAPACITY: usize = 8192;

/// Verdict that lets the packet continue through the stack.
pub const XDP_PASS: u32 = 2;

/// `m` after a state write `w` for the keys `fwd` and `rev`.
pub open spec fn apply_track(
    m: Map<u64, ConnectionState>,
    w: TrackWrite,
    fwd: u64,
    rev: u64,
) -> Map<u64, ConnectionState> {
    let cap = CONNECTION_TRACK_CAPACITY as nat;
    match w {
        TrackWrite::Nothing => m,
        TrackWrite::Forward(st) => upsert(m, cap, fwd, st),
        TrackWrite::Both(st) => upsert(upsert(m, cap, fwd, st), cap, rev, st),
    }
}

/// The forward connection key of a TCP frame.
pub open spec fn frame_fwd_key(s: Seq<u8>) -> u64 {
    conn_key(frame_saddr(s), frame_daddr(s), frame_src_port(s), frame_dst_port(s))
}

/// The reverse connection key of a TCP frame: the key of the swapped tuple.
pub open spec fn frame_rev_key(s: Seq<u8>) -> u64 {
    conn_key(frame_daddr(s), frame_saddr(s), frame_dst_port(s), frame_src_port(s))
}

/// The per-address byte table after the ingress pipeline sees frame `s`
/// of `len` bytes: the source address is charged for every IPv4 packet,
/// and a UDP packet charges its source and its destination once more.
pub open spec fn ingress_ip_stats(m: Map<u64, u64>, s: Seq<u8>, len: u64) -> Map<u64, u64> {
    let cap = IP_STATS_CAPACITY as nat;
    if !has_ip_header(s) {
        m
    } else {
        let m1 = add_bytes(m, cap, frame_saddr(s) as u64, len);
        if has_udp_header(s) {
            add_bytes(add_bytes(m1, cap, frame_saddr(s) as u64, len), cap, frame_daddr(s) as u64, len)
        } else {
            m1
        }
    }
}

/// The connection-state table after the ingress pipeline sees frame `s`.
pub open spec fn ingress_track(m: Map<u64, ConnectionState>, s: Seq<u8>) -> Map<
    u64,
    ConnectionState,
> {
    if has_tcp_header(s) {
        apply_track(m, track_write(frame_tcp_flags(s)), frame_fwd_key(s), frame_rev_key(s))
    } else {
        m
    }
}

/// The per-connection byte table after the ingress pipeline sees frame `s`
/// of `len` bytes: a TCP packet charges its forward key.
pub open spec fn ingress_conn_stats(m: Map<u64, u64>, s: Seq<u8>, len: u64) -> Map<u64, u64> {
    if has_tcp_header(s) {
        add_bytes(m, CONNECTION_STATS_CAPACITY as nat, frame_fwd_key(s), len)
    } else {
        m
    }
}

/// The tables that the ingress pipeline fills.
pub struct IngressTables {
    ip_stats: BoundedTable<u64>,
    connection_track: BoundedTable<ConnectionState>,
    connection_stats: BoundedTable<u64>,
}

impl IngressTables {
    /// Per-address byte counters (keys are IPv4 addresses).
    pub closed spec fn ip_stats_view(&self) -> Map<u64, u64> {
        self.ip_stats@
    }

    /// Connection key to recorded state.
    pub closed spec fn track_view(&self) -> Map<u64, ConnectionState> {
        self.connection_track@
    }

    /// Connection key to byte counter.
    pub closed spec fn conn_stats_view(&self) -> Map<u64, u64> {
        self.connection_stats@
    }

    /// Each table is within its fixed capacity.
    pub closed spec fn wf(&self) -> bool {
        &&& self.ip_stats.wf()
        &&& self.ip_stats.cap() == IP_STATS_CAPACITY
        &&& self.connection_track.wf()
        &&& self.connection_track.cap() == CONNECTION_TRACK_CAPACITY
        &&& self.connection_stats.wf()
        &&& self.connection_stats.cap() == CONNECTION_STATS_CAPACITY
    }

    /// Every table is finite and within its capacity.
    pub proof fn lemma_views_bounded(&self)
        requires
            self.wf(),
        ensures
            self.ip_stats_view().dom().finite(),
            self.ip_stats_view().len() <= IP_STATS_CAPACITY,
            self.track_view().dom().finite(),
            self.track_view().len() <= CONNECTION_TRACK_CAPACITY,
            self.conn_stats_view().dom().finite(),
            self.conn_stats_view().len() <= CONNECTION_STATS_CAPACITY,
    {
        self.ip_stats.lemma_bounded();
        self.connection_track.lemma_bounded();
        self.connection_stats.lemma_bounded();
    }

    /// Empty tables.
    pub fn new() -> (r: Self)
        ensures
            r.wf(),
            r.ip_stats_view() == Map::<u64, u64>::empty(),
            r.track_view() == Map::<u64, ConnectionState>::empty(),
            r.conn_stats_view() == Map::<u64, u64>::empty(),
    {
        IngressTables {
            ip_stats: BoundedTable::new(IP_STATS_CAPACITY),
            connection_track: BoundedTable::new(CONNECTION_TRACK_CAPACITY),
            connection_stats: BoundedTable::new(CONNECTION_STATS_CAPACITY),
        }
    }

    /// Bytes counted for the address `ip`.
    pub fn ip_bytes(&self, ip: u32) -> (r: Option<u64>)
        ensures
            r == (if self.ip_stats_view().contains_key(ip as u64) {
                Some(self.ip_stats_view()[ip as u64])
            } else {
                None
            }),
    {
        self.ip_stats.get(ip as u64)
    }

    /// State recorded for the connection key `key`.
    pub fn connection_state(&self, key: u64) -> (r: Option<ConnectionState>)
        ensures
            r == (if self.track_view().contains_key(key) {
                Some(self.track_view()[key])
            } else {
                None
            }),
    {
        self.connection_track.get(key)
    }

    /// Bytes counted for the connection key `key`.
    pub fn connection_bytes(&self, key: u64) -> (r: Option<u64>)
        ensures
            r == (if self.conn_stats_view().contains_key(key) {
                Some(self.conn_stats_view()[key])
            } else {
                None
            }),
    {
        self.connection_stats.get(key)
    }

    /// Adds `bytes` to the counter of `ip`; `Err` when the table is full and
    /// `ip` has no entry, in which case nothing changes.
    pub fn update_ip_stats(&mut self, ip: u32, bytes: u64) -> (r: Result<(), ()>)
        requires
            old(self).wf(),
        ensures
            final(self).wf(),
            final(self).ip_stats_view() == add_bytes(
                old(self).ip_stats_view(),
                IP_STATS_CAPACITY as nat,
                ip as u64,
                bytes,
            ),
            final(self).track_view() == old(self).track_view(),
            final(self).conn_stats_view() == old(self).conn_stats_view(),
            r is Ok <==> (old(self).ip_stats_view().contains_key(ip as u64)
                || old(self).ip_stats_view().len() < IP_STATS_CAPACITY),
    {
        let stats = match self.ip_stats.get(ip as u64) {
            Some(s) => s,
            None => 0,
        };
        if self.ip_stats.insert(ip as u64, stats.saturating_add(bytes)) {
            Ok(())
        } else {
            Err(())
        }
    }

    /// Adds `bytes` to the counter of the connection key `conn_key`; `Err`
    /// when the table is full and the key has no entry.
    pub fn update_connection_stats(&mut self, conn_key: u64, bytes: u64) -> (r: Result<(), ()>)
        requires
            old(self).wf(),
        ensures
            final(self).wf(),
            final(self).conn_stats_view() == add_bytes(
                old(self).conn_stats_view(),
                CONNECTION_STATS_CAPACITY as nat,
                conn_key,
                bytes,
            ),
            final(self).ip_stats_view() == old(self).ip_stats_view(),
            final(self).track_view() == old(self).track_view(),
            r is Ok <==> (old(self).conn_stats_view().contains_key(conn_key)
                || old(self).conn_stats_view().len() < CONNECTION_STATS_CAPACITY),
    {
        let stats = match self.connection_stats.get(conn_key) {
            Some(s) => s,
            None => 0,
        };
        if self.connection_stats.insert(conn_key, stats.saturating_add(bytes)) {
            Ok(())
        } else {
            Err(())
        }
    }

    /// Applies the state write `w` to the keys `fwd` and `rev`. A write
    /// refused by a full table is dropped.
    pub fn record_state(&mut self, w: TrackWrite, fwd: u64, rev: u64)
        requires
            old(self).wf(),
        ensures
            final(self).wf(),
            final(self).track_view() == apply_track(old(self).track_view(), w, fwd, rev),
            final(self).ip_stats_view() == old(self).ip_stats_view(),
            final(self).conn_stats_view() == old(self).conn_stats_view(),
    {
        match w {
            TrackWrite::Nothing => {},
            TrackWrite::Forward(st) => {
                let _ = self.connection_track.insert(fwd, st);
            },
            TrackWrite::Both(st) => {
                let _ = self.connection_track.insert(fwd, st);
                let _ = self.connection_track.insert(rev, st);
            },
        }
    }
}

/// Handles the TCP segment whose header starts at `tcp_offset` of an IPv4
/// frame from `src_ip` to `dst_ip`: charges the forward key with
/// `packet_len` bytes and records the state change that its flags call for.
/// `Err` when the frame ends before the TCP header does; nothing changes
/// then.
pub fn handle_tcp_connection(
    tables: &mut IngressTables,
    frame: &[u8],
    tcp_offset: usize,
    src_ip: u32,
    dst_ip: u32,
    packet_len: u64,
) -> (r: Result<(), ()>)
    requires
        old(tables).wf(),
    ensures
        final(tables).wf(),
        final(tables).ip_stats_view() == old(tables).ip_stats_view(),
        r is Ok <==> tcp_offset + TCP_HDR_LEN <= frame@.len(),
        r is Err ==> final(tables).track_view() == old(tables).track_view()
            && final(tables).conn_stats_view() == old(tables).conn_stats_view(),
        r matches Ok(_) ==> ({
            let s = frame@;
            let o = tcp_offset as int;
            let sp = be16(s, o) as u16;
            let dp = be16(s, o + 2) as u16;
            let fwd = conn_key(src_ip, dst_ip, sp, dp);
            let rev = conn_key(dst_ip, src_ip, dp, sp);
            &&& final(tables).conn_stats_view() == add_bytes(
                old(tables).conn_stats_view(),
                CONNECTION_STATS_CAPACITY as nat,
                fwd,
                packet_len,
            )
            &&& final(tables).track_view() == apply_track(
                old(tables).track_view(),
                track_write(s[o + 13]),
                fwd,
                rev,
            )
        }),
{
    let tcp = match TcpHdr::parse(frame, tcp_offset) {
        Some(h) => h,
        None => return Err(()),
    };
    let conn_key = generate_conn_key(src_ip, dst_ip, tcp.source, tcp.dest);
    let reverse_conn_key = generate_conn_key(dst_ip, src_ip, tcp.dest, tcp.source);
    let _ = tables.update_connection_stats(conn_key, packet_len);
    let w = classify_tcp_flags(tcp.flags);
    tables.record_state(w, conn_key, reverse_conn_key);
    Ok(())
}

/// Handles the UDP datagram whose header starts at `udp_offset` of an IPv4
/// frame: charges `packet_len` bytes to the source and to the destination
/// address. `Err` when the frame ends before the UDP header does; nothing
/// changes then.
pub fn handle_udp_connection(
    tables: &mut IngressTables,
    frame: &[u8],
    udp_offset: usize,
    src_ip: u32,
    dst_ip: u32,
    packet_len: u64,
) -> (r: Result<(), ()>)
    requires
        old(tables).wf(),
    ensures
        final(tables).wf(),
        final(tables).track_view() == old(tables).track_view(),
        final(tables).conn_stats_view() == old(tables).conn_stats_view(),
        r is Ok <==> udp_offset + UDP_HDR_LEN <= frame@.len(),
        final(tables).ip_stats_view() == (if r is Ok {
            add_bytes(
                add_bytes(
                    old(tables).ip_stats_view(),
                    IP_STATS_CAPACITY as nat,
                    src_ip as u64,
                    packet_len,
                ),
                IP_STATS_CAPACITY as nat,
                dst_ip as u64,
                packet_len,
            )
        } else {
            old(tables).ip_stats_view()
        }),
{
    match UdpHdr::parse(frame, udp_offset) {
        Some(_) => {},
        None => return Err(()),
    }
    let _ = tables.update_ip_stats(src_ip, packet_len);
    let _ = tables.update_ip_stats(dst_ip, packet_len);
    Ok(())
}

/// The ingress pipeline on one frame; `packet_len` is the length that the
/// hook reports for the packet, which is what the counters are charged.
/// The result is `Ok` with the pass verdict unless the frame is TCP or UDP
/// and ends inside its transport header, which gives `Err`. Every table
/// ends as the `ingress_*` functions describe.
pub fn try_xnet(tables: &mut IngressTables, frame: &[u8], packet_len: u64) -> (r: Result<u32, ()>)
    requires
        old(tables).wf(),
    ensures
        final(tables).wf(),
        final(tables).ip_stats_view() == ingress_ip_stats(
            old(tables).ip_stats_view(),
            frame@,
            packet_len,
        ),
        final(tables).track_view() == ingress_track(old(tables).track_view(), frame@),
        final(tables).conn_stats_view() == ingress_conn_stats(
            old(tables).conn_stats_view(),
            frame@,
            packet_len,
        ),
        r is Err <==> (has_ip_header(frame@) && (frame_protocol(frame@) == IPPROTO_TCP
            || frame_protocol(frame@) == IPPROTO_UDP) && !has_tcp_header(frame@)
            && !has_udp_header(frame@)),
        r is Ok ==> r == Ok::<u32, ()>(XDP_PASS),
{
    let eth = match EthHdr::parse(frame, 0) {
        Some(h) => h,
        None => return Ok(XDP_PASS),
    };
    if eth.eth_proto != ETH_P_IP {
        return Ok(XDP_PASS);
    }
    let ip_offset = ETH_HDR_LEN;
    let ip = match IpHdr::parse(frame, ip_offset) {
        Some(h) => h,
        None => return Ok(XDP_PASS),
    };
    let src_ip = ip.saddr;
    let dst_ip = ip.daddr;
    let protocol = ip.protocol;
    let _ = tables.update_ip_stats(src_ip, packet_len);
    if protocol == IPPROTO_TCP {
        handle_tcp_connection(tables, frame, ip_offset + IP_HDR_LEN, src_ip, dst_ip, packet_len)?;
    } else if protocol == IPPROTO_UDP {
        handle_udp_connection(tables, frame, ip_offset + IP_HDR_LEN, src_ip, dst_ip, packet_len)?;
    }
    Ok(XDP_PASS)
}

/// Entry point of the ingress pipeline: runs `try_xnet` and lets the packet
/// pass whatever happened; the pipeline never drops a packet.
pub fn xnet(tables: &mut IngressTables, frame: &[u8], packet_len: u64) -> (r: u32)
    requires
        old(tables).wf(),
    ensures
        r == XDP_PASS,
        final(tables).wf(),
        final(tables).ip_stats_view() == ingress_ip_stats(
            old(tables).ip_stats_view(),
            frame@,
            packet_len,
        ),
        final(tables).track_view() == ingress_track(old(tables).track_view(), frame@),
        final(tables).conn_stats_view() == ingress_conn_stats(
            old(tables).conn_stats_view(),
            frame@,
            packet_len,
        ),
{
    match try_xnet(tables, frame, packet_len) {
        Ok(ret) => ret,
        Err(_) => XDP_PASS,
    }
}

} // verus!
