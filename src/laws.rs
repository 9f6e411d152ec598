use vstd::prelude::*;

use crate::classifier::{
    bump_device, bump_device_connection, bump_port, clock_of, device_connection_stats_key,
    device_stats_key, has_ports, lemma_totals_exact, tc_device_connections, tc_device_stats,
    tc_ports, tc_totals, totals_slots_only, DEVICE_CONNECTION_STATS_CAPACITY,
    DEVICE_STATS_CAPACITY, PORT_STATS_CAPACITY, TOTAL_BYTES_SLOT, TOTAL_PACKETS_SLOT,
};
use crate::conntrack::{has_flag, track_write, ConnectionState, TrackWrite, TCP_ACK, TCP_SYN};
use crate::device::{device_key, is_veth_id, DeviceMapping};
use crate::ingress::{
    apply_track, frame_fwd_key, frame_rev_key, ingress_conn_stats, ingress_ip_stats,
    ingress_track, CONNECTION_TRACK_CAPACITY, IP_STATS_CAPACITY,
};
use crate::packet::{
    frame_daddr, frame_dst_port, frame_saddr, frame_src_port, frame_tcp_flags, has_ip_header,
    has_tcp_header, has_udp_header, is_ipv4_frame,
};
use crate::stats::{next_port_stats, DeviceConnectionStats, DeviceStats, PortStats};
use crate::table::{add_bytes, entry, stored_or_zero, upsert};

verus! {

/// An upsert that writes the value already stored, or that a full table
/// refuses, leaves the table as it was.
proof fn lemma_upsert_noop<V>(m: Map<u64, V>, cap: nat, k: u64, v: V)
    requires
        (m.contains_key(k) && m[k] == v) || (!m.contains_key(k) && m.len() >= cap),
    ensures
        upsert(m, cap, k, v) == m,
{
    if m.contains_key(k) {
        assert(m.insert(k, v) =~= m);
    }
}

/// The key of a reply is the reverse key of the request: for two TCP frames
/// whose addresses and ports are swapped, the forward key of each is the
/// reverse key of the other.
pub proof fn lemma_reply_keys_pair(s: Seq<u8>, t: Seq<u8>)
    requires
        has_tcp_header(s),
        has_tcp_header(t),
        frame_saddr(t) == frame_daddr(s),
        frame_daddr(t) == frame_saddr(s),
        frame_src_port(t) == frame_dst_port(s),
        frame_dst_port(t) == frame_src_port(s),
    ensures
        frame_fwd_key(t) == frame_rev_key(s),
        frame_rev_key(t) == frame_fwd_key(s),
{
}

/// A segment whose flags call for a state under both keys (SYN with ACK,
/// FIN, RST) leaves the forward and the reverse key holding that same
/// state, whenever the table has room for both keys.
pub proof fn lemma_both_keys_same_state(m: Map<u64, ConnectionState>, s: Seq<u8>)
    requires
        has_tcp_header(s),
        track_write(frame_tcp_flags(s)) is Both,
        m.dom().finite(),
        m.dom().insert(frame_fwd_key(s)).insert(frame_rev_key(s)).len()
            <= CONNECTION_TRACK_CAPACITY,
    ensures
        ({
            let st = track_write(frame_tcp_flags(s))->Both_0;
            let r = ingress_track(m, s);
            &&& r.contains_key(frame_fwd_key(s))
            &&& r.contains_key(frame_rev_key(s))
            &&& r[frame_fwd_key(s)] == st
            &&& r[frame_rev_key(s)] == st
        }),
{
    let fwd = frame_fwd_key(s);
    let rev = frame_rev_key(s);
    let cap = CONNECTION_TRACK_CAPACITY as nat;
    let d1 = m.dom().insert(fwd);
    let d2 = d1.insert(rev);
    assert(d1.subset_of(d2));
    vstd::set_lib::lemma_len_subset(d1, d2);
    assert(m.dom().subset_of(d1));
    let st = track_write(frame_tcp_flags(s))->Both_0;
    let m1 = upsert(m, cap, fwd, st);
    assert(m1 == m.insert(fwd, st));
    assert(m1.dom() =~= d1);
    if !m1.contains_key(rev) {
        assert(d2.len() == d1.len() + 1);
    }
}

/// A SYN without ACK writes `New` under the forward key and touches no
/// other key.
pub proof fn lemma_syn_forward_only(m: Map<u64, ConnectionState>, s: Seq<u8>)
    requires
        has_tcp_header(s),
        has_flag(frame_tcp_flags(s), TCP_SYN),
        !has_flag(frame_tcp_flags(s), TCP_ACK),
    ensures
        ingress_track(m, s) == upsert(
            m,
            CONNECTION_TRACK_CAPACITY as nat,
            frame_fwd_key(s),
            ConnectionState::New,
        ),
        forall|k: u64|
            k != frame_fwd_key(s) ==> (#[trigger] ingress_track(m, s).contains_key(k)
                == m.contains_key(k) && (m.contains_key(k) ==> ingress_track(m, s)[k] == m[k])),
{
}

/// Applying the same state write twice leaves the connection-state table
/// as applying it once, whatever room the table has. This is what a replay
/// of a segment does to the table (see `handle_tcp_connection`).
pub proof fn lemma_apply_track_idempotent(
    m: Map<u64, ConnectionState>,
    w: TrackWrite,
    fwd: u64,
    rev: u64,
)
    ensures
        apply_track(apply_track(m, w, fwd, rev), w, fwd, rev) == apply_track(m, w, fwd, rev),
{
    let cap = CONNECTION_TRACK_CAPACITY as nat;
    match w {
        TrackWrite::Nothing => {},
        TrackWrite::Forward(st) => {
            lemma_upsert_noop(upsert(m, cap, fwd, st), cap, fwd, st);
        },
        TrackWrite::Both(st) => {
            let m1 = upsert(m, cap, fwd, st);
            let m2 = upsert(m1, cap, rev, st);
            if m.contains_key(fwd) || m.len() < cap {
                assert(m2.contains_key(fwd) && m2[fwd] == st);
            } else {
                assert(m2.dom() =~= m.dom());
                assert(!m2.contains_key(fwd) && m2.len() >= cap);
            }
            lemma_upsert_noop(m2, cap, fwd, st);
            lemma_upsert_noop(m2, cap, rev, st);
        },
    }
}

/// Seeing the same TCP frame twice leaves the connection-state table as
/// seeing it once: replaying a state write is idempotent.
pub proof fn lemma_track_idempotent(m: Map<u64, ConnectionState>, s: Seq<u8>)
    ensures
        ingress_track(ingress_track(m, s), s) == ingress_track(m, s),
{
    if has_tcp_header(s) {
        lemma_apply_track_idempotent(
            m,
            track_write(frame_tcp_flags(s)),
            frame_fwd_key(s),
            frame_rev_key(s),
        );
    }
}

/// A frame cut short before its IPv4 header ends changes no table of the
/// ingress pipeline; a frame cut short inside its TCP header changes only
/// the source address's counter, which was charged before.
pub proof fn lemma_ingress_truncated(
    ip: Map<u64, u64>,
    track: Map<u64, ConnectionState>,
    conns: Map<u64, u64>,
    s: Seq<u8>,
    len: u64,
)
    ensures
        !has_ip_header(s) ==> ingress_ip_stats(ip, s, len) == ip && ingress_track(track, s)
            == track && ingress_conn_stats(conns, s, len) == conns,
        !has_tcp_header(s) ==> ingress_track(track, s) == track && ingress_conn_stats(
            conns,
            s,
            len,
        ) == conns,
        has_ip_header(s) && !has_udp_header(s) ==> ingress_ip_stats(ip, s, len) == add_bytes(
            ip,
            IP_STATS_CAPACITY as nat,
            frame_saddr(s) as u64,
            len,
        ),
{
}

/// A frame cut short before its transport ports end changes no table of
/// the classifier but the global counters, which were charged before: by
/// exactly one packet and `len` bytes when the frame is IPv4 (the counters
/// saturate), and not at all otherwise.
pub proof fn lemma_classifier_truncated(
    totals: Map<u64, u64>,
    ports: Map<u64, PortStats>,
    dev: Map<u64, DeviceStats>,
    conns: Map<u64, DeviceConnectionStats>,
    names: Seq<DeviceMapping>,
    ctx: Map<u64, u32>,
    s: Seq<u8>,
    id: u32,
    is_ingress: bool,
    len: u64,
    clock: u64,
)
    requires
        !has_ports(s),
        totals.dom().finite(),
        totals_slots_only(totals),
    ensures
        tc_ports(ports, s, len, clock) == ports,
        tc_device_stats(dev, names, ctx, s, id, is_ingress, len, clock) == dev,
        tc_device_connections(conns, names, ctx, s, id, is_ingress, len, clock) == conns,
        !is_ipv4_frame(s) ==> tc_totals(totals, s, len) == totals,
        is_ipv4_frame(s) ==> {
            let t = tc_totals(totals, s, len);
            &&& totals_slots_only(t)
            &&& t.contains_key(TOTAL_PACKETS_SLOT) && t.contains_key(TOTAL_BYTES_SLOT)
            &&& t[TOTAL_PACKETS_SLOT] == stored_or_zero(totals, TOTAL_PACKETS_SLOT).saturating_add(1)
            &&& t[TOTAL_BYTES_SLOT] == stored_or_zero(totals, TOTAL_BYTES_SLOT).saturating_add(len)
        },
{
    lemma_totals_exact(totals, len);
}

/// A packet on a virtual paired device is counted under the key of the
/// opposite direction to its hook; on any other device, under its hook's
/// own direction.
pub proof fn lemma_veth_direction(devices: Seq<DeviceMapping>, id: u32, is_ingress: bool)
    ensures
        is_veth_id(devices, id) ==> device_stats_key(devices, id, is_ingress) == device_key(
            id,
            !is_ingress,
        ) as u64,
        !is_veth_id(devices, id) ==> device_stats_key(devices, id, is_ingress) == device_key(
            id,
            is_ingress,
        ) as u64,
{
}

/// Counters never go down: after the ingress pipeline sees a frame, every
/// address and connection counted before is still there with at least its
/// earlier byte count.
pub proof fn lemma_ingress_counters_monotone(
    ip: Map<u64, u64>,
    conns: Map<u64, u64>,
    s: Seq<u8>,
    len: u64,
)
    ensures
        forall|k: u64|
            #[trigger] ip.contains_key(k) ==> ingress_ip_stats(ip, s, len).contains_key(k)
                && ingress_ip_stats(ip, s, len)[k] >= ip[k],
        forall|k: u64|
            #[trigger] conns.contains_key(k) ==> ingress_conn_stats(conns, s, len).contains_key(k)
                && ingress_conn_stats(conns, s, len)[k] >= conns[k],
{
}

/// Counters never go down: after the classifier sees a frame, every port
/// counted before is still there with at least its earlier packet and byte
/// counts.
pub proof fn lemma_port_counters_monotone(
    ports: Map<u64, PortStats>,
    s: Seq<u8>,
    len: u64,
    clock: u64,
)
    ensures
        forall|k: u64|
            #[trigger] ports.contains_key(k) ==> tc_ports(ports, s, len, clock).contains_key(k)
                && tc_ports(ports, s, len, clock)[k].packets >= ports[k].packets && tc_ports(
                ports,
                s,
                len,
                clock,
            )[k].bytes >= ports[k].bytes,
{
}

/// The sum of the lengths in `lens`.
pub open spec fn sum_lens(lens: Seq<u64>) -> int
    decreases lens.len(),
{
    if lens.len() == 0 {
        0
    } else {
        sum_lens(lens.drop_last()) + lens.last()
    }
}

/// `m` after one port update for each length of `lens`, the i-th at clock
/// `clocks[i]` (the two sequences have the same length).
pub open spec fn bump_port_each(m: Map<u64, PortStats>, port: u16, lens: Seq<u64>, clocks: Seq<
    u64,
>) -> Map<u64, PortStats>
    decreases lens.len(),
{
    if lens.len() == 0 {
        m
    } else {
        bump_port(
            bump_port_each(m, port, lens.drop_last(), clocks.drop_last()),
            port,
            lens.last(),
            clocks.last(),
        )
    }
}

proof fn lemma_sum_lens_prefix(lens: Seq<u64>)
    ensures
        sum_lens(lens) >= 0,
    decreases lens.len(),
{
    if lens.len() > 0 {
        lemma_sum_lens_prefix(lens.drop_last());
    }
}

/// Under one thread, `N` packets counted for a port that had no record,
/// `S` bytes in all, leave a record of `N` packets and `S` bytes, while the
/// table has room for the port and `S` fits the counter.
pub proof fn lemma_port_counts_exact(
    m: Map<u64, PortStats>,
    port: u16,
    lens: Seq<u64>,
    clocks: Seq<u64>,
)
    requires
        !m.contains_key(port as u64),
        m.len() < PORT_STATS_CAPACITY,
        clocks.len() == lens.len(),
        lens.len() <= u64::MAX,
        sum_lens(lens) <= u64::MAX,
    ensures
        lens.len() > 0 ==> ({
            let r = bump_port_each(m, port, lens, clocks);
            &&& r.contains_key(port as u64)
            &&& r[port as u64].packets == lens.len()
            &&& r[port as u64].bytes == sum_lens(lens)
        }),
        lens.len() == 0 ==> !bump_port_each(m, port, lens, clocks).contains_key(port as u64),
    decreases lens.len(),
{
    if lens.len() > 0 {
        let prefix = lens.drop_last();
        lemma_sum_lens_prefix(prefix);
        lemma_port_counts_exact(m, port, prefix, clocks.drop_last());
    }
}

/// `m` after one byte-counter update of `k` for each length of `lens`.
pub open spec fn add_bytes_each(m: Map<u64, u64>, cap: nat, k: u64, lens: Seq<u64>) -> Map<
    u64,
    u64,
>
    decreases lens.len(),
{
    if lens.len() == 0 {
        m
    } else {
        add_bytes(add_bytes_each(m, cap, k, lens.drop_last()), cap, k, lens.last())
    }
}

/// Under one thread, byte-counter updates of one key with lengths summing
/// to `S` raise its counter by exactly `S` and leave every other key as it
/// was, while the key is in the table or there is room for it and the sum
/// fits the counter. This is the per-connection and per-address law.
pub proof fn lemma_bytes_exact(m: Map<u64, u64>, cap: nat, k: u64, lens: Seq<u64>)
    requires
        m.contains_key(k) || m.len() < cap,
        stored_or_zero(m, k) + sum_lens(lens) <= u64::MAX,
    ensures
        ({
            let r = add_bytes_each(m, cap, k, lens);
            &&& (lens.len() > 0 || m.contains_key(k)) ==> r.contains_key(k)
            &&& stored_or_zero(r, k) == stored_or_zero(m, k) + sum_lens(lens)
            &&& forall|j: u64| j != k ==> #[trigger] entry(r, j) == entry(m, j)
        }),
    decreases lens.len(),
{
    if lens.len() > 0 {
        let prefix = lens.drop_last();
        lemma_sum_lens_prefix(prefix);
        lemma_bytes_exact(m, cap, k, prefix);
        let p = add_bytes_each(m, cap, k, prefix);
        assert forall|j: u64| j != k implies #[trigger] entry(add_bytes_each(m, cap, k, lens), j)
            == entry(m, j) by {
            assert(entry(p, j) == entry(m, j));
        }
    }
}

/// `m` after one device update for each length of `lens`, all for device
/// `id` seen on the hook `is_ingress`, the i-th at clock `clocks[i]`.
pub open spec fn bump_device_each(
    m: Map<u64, DeviceStats>,
    devices: Seq<DeviceMapping>,
    id: u32,
    is_ingress: bool,
    lens: Seq<u64>,
    clocks: Seq<u64>,
) -> Map<u64, DeviceStats>
    decreases lens.len(),
{
    if lens.len() == 0 {
        m
    } else {
        bump_device(
            bump_device_each(m, devices, id, is_ingress, lens.drop_last(), clocks.drop_last()),
            devices,
            id,
            is_ingress,
            lens.last(),
            clocks.last(),
        )
    }
}

/// Under one thread, `N` packets counted for one device and direction whose
/// key had no record, `S` bytes in all, leave a record of `N` packets and
/// `S` bytes stamped with the last clock, while the table has room for the
/// key and the counts fit.
pub proof fn lemma_device_counts_exact(
    m: Map<u64, DeviceStats>,
    devices: Seq<DeviceMapping>,
    id: u32,
    is_ingress: bool,
    lens: Seq<u64>,
    clocks: Seq<u64>,
)
    requires
        !m.contains_key(device_stats_key(devices, id, is_ingress)),
        m.len() < DEVICE_STATS_CAPACITY,
        clocks.len() == lens.len(),
        lens.len() <= u64::MAX,
        sum_lens(lens) <= u64::MAX,
    ensures
        ({
            let k = device_stats_key(devices, id, is_ingress);
            let r = bump_device_each(m, devices, id, is_ingress, lens, clocks);
            &&& lens.len() > 0 ==> r.contains_key(k) && r[k].packets == lens.len() && r[k].bytes
                == sum_lens(lens) && r[k].last_seen == clocks.last()
            &&& lens.len() == 0 ==> !r.contains_key(k)
        }),
    decreases lens.len(),
{
    if lens.len() > 0 {
        let prefix = lens.drop_last();
        lemma_sum_lens_prefix(prefix);
        lemma_device_counts_exact(m, devices, id, is_ingress, prefix, clocks.drop_last());
    }
}

/// `m` after one device-connection update for each length of `lens`, all
/// for the same connection on the same device and hook.
pub open spec fn bump_device_connection_each(
    m: Map<u64, DeviceConnectionStats>,
    devices: Seq<DeviceMapping>,
    id: u32,
    src_port: u16,
    dst_port: u16,
    is_ingress: bool,
    protocol: u8,
    lens: Seq<u64>,
    clocks: Seq<u64>,
) -> Map<u64, DeviceConnectionStats>
    decreases lens.len(),
{
    if lens.len() == 0 {
        m
    } else {
        bump_device_connection(
            bump_device_connection_each(
                m,
                devices,
                id,
                src_port,
                dst_port,
                is_ingress,
                protocol,
                lens.drop_last(),
                clocks.drop_last(),
            ),
            devices,
            id,
            src_port,
            dst_port,
            is_ingress,
            protocol,
            lens.last(),
            clocks.last(),
        )
    }
}

/// Under one thread, `N` packets of one connection counted on a device
/// whose key had no record, `S` bytes in all, leave a record of `N` packets
/// and `S` bytes, while the table has room for the key and the counts fit.
pub proof fn lemma_device_connection_counts_exact(
    m: Map<u64, DeviceConnectionStats>,
    devices: Seq<DeviceMapping>,
    id: u32,
    src_port: u16,
    dst_port: u16,
    is_ingress: bool,
    protocol: u8,
    lens: Seq<u64>,
    clocks: Seq<u64>,
)
    requires
        !m.contains_key(
            device_connection_stats_key(devices, id, src_port, dst_port, is_ingress, protocol),
        ),
        m.len() < DEVICE_CONNECTION_STATS_CAPACITY,
        clocks.len() == lens.len(),
        lens.len() <= u64::MAX,
        sum_lens(lens) <= u64::MAX,
    ensures
        ({
            let k = device_connection_stats_key(
                devices,
                id,
                src_port,
                dst_port,
                is_ingress,
                protocol,
            );
            let r = bump_device_connection_each(
                m,
                devices,
                id,
                src_port,
                dst_port,
                is_ingress,
                protocol,
                lens,
                clocks,
            );
            &&& lens.len() > 0 ==> r.contains_key(k) && r[k].total_packets == lens.len()
                && r[k].total_bytes == sum_lens(lens)
            &&& lens.len() == 0 ==> !r.contains_key(k)
        }),
    decreases lens.len(),
{
    if lens.len() > 0 {
        let prefix = lens.drop_last();
        lemma_sum_lens_prefix(prefix);
        lemma_device_connection_counts_exact(
            m,
            devices,
            id,
            src_port,
            dst_port,
            is_ingress,
            protocol,
            prefix,
            clocks.drop_last(),
        );
    }
}

/// The global counters and the per-port table after the classifier sees
/// each frame of `frames`, the i-th with length `lens[i]`, in order.
pub open spec fn classifier_runs(
    totals: Map<u64, u64>,
    ports: Map<u64, PortStats>,
    frames: Seq<Seq<u8>>,
    lens: Seq<u64>,
) -> (Map<u64, u64>, Map<u64, PortStats>)
    decreases frames.len(),
{
    if frames.len() == 0 || lens.len() == 0 {
        (totals, ports)
    } else {
        let (t, p) = classifier_runs(totals, ports, frames.drop_last(), lens.drop_last());
        let t2 = tc_totals(t, frames.last(), lens.last());
        (t2, tc_ports(p, frames.last(), lens.last(), clock_of(t2)))
    }
}

/// Under one thread, `N` classifier runs on TCP or UDP frames from port
/// `sp` to another port `dp`, `S` bytes in all, leave records of `N`
/// packets and `S` bytes for both ports (which had none), and raise the
/// global packet count by `N` and the global byte count by `S`, while the
/// port table has room for both ports and the counts fit.
pub proof fn lemma_classifier_counts_exact(
    totals: Map<u64, u64>,
    ports: Map<u64, PortStats>,
    frames: Seq<Seq<u8>>,
    lens: Seq<u64>,
    sp: u16,
    dp: u16,
)
    requires
        frames.len() == lens.len(),
        forall|i: int|
            0 <= i < frames.len() ==> has_ports(#[trigger] frames[i]) && frame_src_port(frames[i])
                == sp && frame_dst_port(frames[i]) == dp,
        sp != dp,
        totals.dom().finite(),
        totals_slots_only(totals),
        ports.dom().finite(),
        !ports.contains_key(sp as u64),
        !ports.contains_key(dp as u64),
        ports.len() + 2 <= PORT_STATS_CAPACITY,
        lens.len() <= u64::MAX,
        sum_lens(lens) <= u64::MAX,
        stored_or_zero(totals, TOTAL_PACKETS_SLOT) + lens.len() <= u64::MAX,
        stored_or_zero(totals, TOTAL_BYTES_SLOT) + sum_lens(lens) <= u64::MAX,
    ensures
        ({
            let (t, p) = classifier_runs(totals, ports, frames, lens);
            &&& t.dom().finite()
            &&& totals_slots_only(t)
            &&& stored_or_zero(t, TOTAL_PACKETS_SLOT) == stored_or_zero(totals, TOTAL_PACKETS_SLOT)
                + lens.len()
            &&& stored_or_zero(t, TOTAL_BYTES_SLOT) == stored_or_zero(totals, TOTAL_BYTES_SLOT)
                + sum_lens(lens)
            &&& p.dom().finite()
            &&& lens.len() > 0 ==> {
                &&& p.len() == ports.len() + 2
                &&& p.contains_key(sp as u64) && p.contains_key(dp as u64)
                &&& p[sp as u64].packets == lens.len() && p[sp as u64].bytes == sum_lens(lens)
                &&& p[dp as u64].packets == lens.len() && p[dp as u64].bytes == sum_lens(lens)
            }
            &&& lens.len() == 0 ==> p == ports
        }),
    decreases lens.len(),
{
    if lens.len() > 0 {
        let pf = frames.drop_last();
        let pl = lens.drop_last();
        lemma_sum_lens_prefix(pl);
        assert forall|i: int| 0 <= i < pf.len() implies has_ports(#[trigger] pf[i])
            && frame_src_port(pf[i]) == sp && frame_dst_port(pf[i]) == dp by {
            assert(pf[i] == frames[i]);
        }
        lemma_classifier_counts_exact(totals, ports, pf, pl, sp, dp);
        let (t, p) = classifier_runs(totals, ports, pf, pl);
        let f = frames.last();
        assert(has_ports(frames[frames.len() - 1]));
        lemma_totals_exact(t, lens.last());
        let t2 = tc_totals(t, f, lens.last());
        let c = clock_of(t2);
        let p1 = bump_port(p, sp, lens.last(), c);
        if pl.len() == 0 {
            assert(p1 == p.insert(sp as u64, next_port_stats(None, lens.last(), c)));
            assert(p1.len() == p.len() + 1);
        } else {
            assert(p1.dom() =~= p.dom());
        }
    }
}

} // verus!
