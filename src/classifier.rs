use vstd::prelude::*;
use vstd::string::StringSliceAdditionalSpecFns;

use crate::device::{
    adjust_direction_for_device, context_is_ingress, context_value, device_connection_key, device_key,
    device_name_key, effective_direction, encode_device_context, generate_connection_key,
    generate_device_key, is_veth_id, named_at, padded_name, set_outcome, DeviceMap, DeviceMapping,
    DEVICE_MAP_CAPACITY, DIRECTION_INGRESS,
};
use crate::packet::{
    frame_dst_port, frame_protocol, frame_src_port, has_tcp_header, has_udp_header,
    is_ipv4_frame, EthHdr, IpHdr, TcpHdr, UdpHdr, ETH_HDR_LEN, ETH_P_IP, IPPROTO_TCP,
    IPPROTO_UDP, IP_HDR_LEN,
};
use crate::stats::{
    bump_device_stats, bump_port_stats, next_device_connection_stats, next_device_stats,
    next_port_stats, DeviceConnectionStats, DeviceStats, PortStats,
};
use crate::table::{add_bytes, entry, stored_or_zero, upsert, BoundedTable};

verus! {

/// Capacity of the per-port table.
pub const PORT_STATS_CAPACITY: usize = 65536;

/// Capacity of the global-counter table.
pub const TOTAL_STATS_CAPACITY: usize = 2;

/// Capacity of the per-device table.
pub const DEVICE_STATS_CAPACITY: usize = 1024;

/// Capacity of the device-context table.
pub const DEVICE_CONTEXT_CAPACITY: usize = 64;

/// Capacity of the per-device-connection table.
pub const DEVICE_CONNECTION_STATS_CAPACITY: usize = 1024;

/// Slot of the global packet counter.
pub const TOTAL_PACKETS_SLOT: u64 = 0;

/// Slot of the global byte counter.
pub const TOTAL_BYTES_SLOT: u64 = 1;

/// Verdict that lets the packet continue unchanged.
pub const TC_ACT_OK: i32 = 0;

/// The frame carries TCP or UDP and holds the whole transport header.
pub open spec fn has_ports(s: Seq<u8>) -> bool {
    has_tcp_header(s) || has_udp_header(s)
}

/// The global counters after the classifier sees frame `s` of `len` bytes:
/// every IPv4 frame counts one packet and `len` bytes.
pub open spec fn tc_totals(m: Map<u64, u64>, s: Seq<u8>, len: u64) -> Map<u64, u64> {
    let cap = TOTAL_STATS_CAPACITY as nat;
    if is_ipv4_frame(s) {
        add_bytes(add_bytes(m, cap, TOTAL_PACKETS_SLOT, 1), cap, TOTAL_BYTES_SLOT, len)
    } else {
        m
    }
}

/// The global-counter table holds no key but its two slots.
pub open spec fn totals_slots_only(m: Map<u64, u64>) -> bool {
    forall|k: u64| #[trigger] m.contains_key(k) ==> k == TOTAL_PACKETS_SLOT || k == TOTAL_BYTES_SLOT
}

/// Counting a packet in a global-counter table that holds only its two
/// slots always lands: the packet slot grows by one and the byte slot by
/// `len` (both saturating), and no other key appears.
pub proof fn lemma_totals_exact(m: Map<u64, u64>, len: u64)
    requires
        m.dom().finite(),
        totals_slots_only(m),
    ensures
        ({
            let cap = TOTAL_STATS_CAPACITY as nat;
            let r = add_bytes(add_bytes(m, cap, TOTAL_PACKETS_SLOT, 1), cap, TOTAL_BYTES_SLOT, len);
            &&& r.dom().finite()
            &&& totals_slots_only(r)
            &&& r.contains_key(TOTAL_PACKETS_SLOT)
            &&& r.contains_key(TOTAL_BYTES_SLOT)
            &&& r[TOTAL_PACKETS_SLOT] == stored_or_zero(m, TOTAL_PACKETS_SLOT).saturating_add(1)
            &&& r[TOTAL_BYTES_SLOT] == stored_or_zero(m, TOTAL_BYTES_SLOT).saturating_add(len)
        }),
{
    let cap = TOTAL_STATS_CAPACITY as nat;
    let both = set![TOTAL_PACKETS_SLOT, TOTAL_BYTES_SLOT];
    assert(both.len() == 2) by {
        assert(both == set![TOTAL_PACKETS_SLOT].insert(TOTAL_BYTES_SLOT));
    }
    if !m.contains_key(TOTAL_PACKETS_SLOT) {
        let one = set![TOTAL_BYTES_SLOT];
        assert(m.dom().subset_of(one));
        vstd::set_lib::lemma_len_subset(m.dom(), one);
    }
    let m1 = add_bytes(m, cap, TOTAL_PACKETS_SLOT, 1);
    assert(m1.contains_key(TOTAL_PACKETS_SLOT));
    if !m1.contains_key(TOTAL_BYTES_SLOT) {
        let one = set![TOTAL_PACKETS_SLOT];
        assert(m1.dom().subset_of(one));
        vstd::set_lib::lemma_len_subset(m1.dom(), one);
    }
}

/// The logical clock that the records take: the global packet count.
pub open spec fn clock_of(totals: Map<u64, u64>) -> u64 {
    stored_or_zero(totals, TOTAL_PACKETS_SLOT)
}

/// `m` after one packet of `len` bytes is counted for `port`.
pub open spec fn bump_port(m: Map<u64, PortStats>, port: u16, len: u64, clock: u64) -> Map<
    u64,
    PortStats,
> {
    upsert(
        m,
        PORT_STATS_CAPACITY as nat,
        port as u64,
        next_port_stats(entry(m, port as u64), len, clock),
    )
}

/// The per-port table after the classifier sees frame `s`: both ports of
/// a TCP or UDP packet are counted, the source first.
pub open spec fn tc_ports(m: Map<u64, PortStats>, s: Seq<u8>, len: u64, clock: u64) -> Map<
    u64,
    PortStats,
> {
    if has_ports(s) {
        bump_port(bump_port(m, frame_src_port(s), len, clock), frame_dst_port(s), len, clock)
    } else {
        m
    }
}

/// The per-device key of a packet on device `id` seen on the hook
/// `is_ingress`: the key of its effective direction.
pub open spec fn device_stats_key(devices: Seq<DeviceMapping>, id: u32, is_ingress: bool) -> u64 {
    let dir = effective_direction(is_veth_id(devices, id), is_ingress);
    device_key(id, dir == DIRECTION_INGRESS) as u64
}

/// The key of a packet's record in the per-device-connection table.
pub open spec fn device_connection_stats_key(
    devices: Seq<DeviceMapping>,
    id: u32,
    src_port: u16,
    dst_port: u16,
    is_ingress: bool,
    protocol: u8,
) -> u64 {
    let dir = effective_direction(is_veth_id(devices, id), is_ingress);
    device_connection_key(id, src_port, dst_port, dir, protocol as u32) as u64
}

/// The per-device table after one packet of `len` bytes on device `id`,
/// seen on the hook `is_ingress`.
pub open spec fn bump_device(
    m: Map<u64, DeviceStats>,
    devices: Seq<DeviceMapping>,
    id: u32,
    is_ingress: bool,
    len: u64,
    clock: u64,
) -> Map<u64, DeviceStats> {
    let k = device_stats_key(devices, id, is_ingress);
    upsert(m, DEVICE_STATS_CAPACITY as nat, k, next_device_stats(entry(m, k), len, clock))
}

/// The per-device-connection table after one packet.
pub open spec fn bump_device_connection(
    m: Map<u64, DeviceConnectionStats>,
    devices: Seq<DeviceMapping>,
    id: u32,
    src_port: u16,
    dst_port: u16,
    is_ingress: bool,
    protocol: u8,
    len: u64,
    clock: u64,
) -> Map<u64, DeviceConnectionStats> {
    let dir = effective_direction(is_veth_id(devices, id), is_ingress);
    let k = device_connection_stats_key(devices, id, src_port, dst_port, is_ingress, protocol);
    upsert(
        m,
        DEVICE_CONNECTION_STATS_CAPACITY as nat,
        k,
        next_device_connection_stats(
            entry(m, k),
            id,
            src_port,
            dst_port,
            dir,
            protocol as u32,
            len,
            clock,
        ),
    )
}

/// The packet is counted for its device: it carries ports and its device
/// has an entry in the context table.
pub open spec fn device_counted(ctx: Map<u64, u32>, s: Seq<u8>, id: u32) -> bool {
    has_ports(s) && ctx.contains_key(id as u64)
}

/// The per-device table after the classifier sees frame `s` on device `id`.
pub open spec fn tc_device_stats(
    m: Map<u64, DeviceStats>,
    devices: Seq<DeviceMapping>,
    ctx: Map<u64, u32>,
    s: Seq<u8>,
    id: u32,
    is_ingress: bool,
    len: u64,
    clock: u64,
) -> Map<u64, DeviceStats> {
    if device_counted(ctx, s, id) {
        bump_device(m, devices, id, is_ingress, len, clock)
    } else {
        m
    }
}

/// The per-device-connection table after the classifier sees frame `s` on
/// device `id`.
pub open spec fn tc_device_connections(
    m: Map<u64, DeviceConnectionStats>,
    devices: Seq<DeviceMapping>,
    ctx: Map<u64, u32>,
    s: Seq<u8>,
    id: u32,
    is_ingress: bool,
    len: u64,
    clock: u64,
) -> Map<u64, DeviceConnectionStats> {
    if device_counted(ctx, s, id) {
        bump_device_connection(
            m,
            devices,
            id,
            frame_src_port(s),
            frame_dst_port(s),
            is_ingress,
            frame_protocol(s),
            len,
            clock,
        )
    } else {
        m
    }
}

/// The records of `m` under `keys`, in that order, whose device is `id`.
pub open spec fn records_of_device(
    m: Map<u64, DeviceConnectionStats>,
    keys: Seq<u64>,
    id: u32,
) -> Seq<DeviceConnectionStats>
    decreases keys.len(),
{
    if keys.len() == 0 {
        Seq::empty()
    } else {
        let rest = records_of_device(m, keys.drop_last(), id);
        if m[keys.last()].device_id == id {
            rest.push(m[keys.last()])
        } else {
            rest
        }
    }
}

/// The tables that the classifier pipeline fills, and the device tables
/// that the control plane fills for it.
pub struct TcTables {
    port_stats: BoundedTable<PortStats>,
    total_stats: BoundedTable<u64>,
    device_stats: BoundedTable<DeviceStats>,
    device_map: DeviceMap,
    device_context: BoundedTable<u32>,
    device_connection_stats: BoundedTable<DeviceConnectionStats>,
}

impl TcTables {
    pub closed spec fn ports_view(&self) -> Map<u64, PortStats> {
        self.port_stats@
    }

    pub closed spec fn totals_view(&self) -> Map<u64, u64> {
        self.total_stats@
    }

    pub closed spec fn devices_stats_view(&self) -> Map<u64, DeviceStats> {
        self.device_stats@
    }

    pub closed spec fn names_view(&self) -> Seq<DeviceMapping> {
        self.device_map@
    }

    pub closed spec fn context_view(&self) -> Map<u64, u32> {
        self.device_context@
    }

    pub closed spec fn dev_conns_view(&self) -> Map<u64, DeviceConnectionStats> {
        self.device_connection_stats@
    }

    /// Keys of the per-device-connection table, in the order first stored.
    pub closed spec fn dev_conns_keys(&self) -> Seq<u64> {
        self.device_connection_stats.keys()
    }

    /// Every table is within its fixed capacity.
    pub closed spec fn wf(&self) -> bool {
        &&& self.port_stats.wf()
        &&& self.port_stats.cap() == PORT_STATS_CAPACITY
        &&& self.total_stats.wf()
        &&& self.total_stats.cap() == TOTAL_STATS_CAPACITY
        &&& totals_slots_only(self.total_stats@)
        &&& self.device_stats.wf()
        &&& self.device_stats.cap() == DEVICE_STATS_CAPACITY
        &&& self.device_map.wf()
        &&& self.device_context.wf()
        &&& self.device_context.cap() == DEVICE_CONTEXT_CAPACITY
        &&& self.device_connection_stats.wf()
        &&& self.device_connection_stats.cap() == DEVICE_CONNECTION_STATS_CAPACITY
    }

    /// Every table is finite and within its capacity, and the global-counter
    /// table holds no key but its two slots.
    pub proof fn lemma_views_bounded(&self)
        requires
            self.wf(),
        ensures
            self.ports_view().dom().finite(),
            self.ports_view().len() <= PORT_STATS_CAPACITY,
            self.totals_view().dom().finite(),
            self.totals_view().len() <= TOTAL_STATS_CAPACITY,
            totals_slots_only(self.totals_view()),
            self.devices_stats_view().dom().finite(),
            self.devices_stats_view().len() <= DEVICE_STATS_CAPACITY,
            self.names_view().len() <= DEVICE_MAP_CAPACITY,
            self.context_view().dom().finite(),
            self.context_view().len() <= DEVICE_CONTEXT_CAPACITY,
            self.dev_conns_view().dom().finite(),
            self.dev_conns_view().len() <= DEVICE_CONNECTION_STATS_CAPACITY,
    {
        self.port_stats.lemma_bounded();
        self.total_stats.lemma_bounded();
        self.device_stats.lemma_bounded();
        self.device_context.lemma_bounded();
        self.device_connection_stats.lemma_bounded();
    }

    /// Empty tables.
    pub fn new() -> (r: Self)
        ensures
            r.wf(),
            r.ports_view() == Map::<u64, PortStats>::empty(),
            r.totals_view() == Map::<u64, u64>::empty(),
            r.devices_stats_view() == Map::<u64, DeviceStats>::empty(),
            r.names_view() == Seq::<DeviceMapping>::empty(),
            r.context_view() == Map::<u64, u32>::empty(),
            r.dev_conns_view() == Map::<u64, DeviceConnectionStats>::empty(),
    {
        TcTables {
            port_stats: BoundedTable::new(PORT_STATS_CAPACITY),
            total_stats: BoundedTable::new(TOTAL_STATS_CAPACITY),
            device_stats: BoundedTable::new(DEVICE_STATS_CAPACITY),
            device_map: DeviceMap::new(),
            device_context: BoundedTable::new(DEVICE_CONTEXT_CAPACITY),
            device_connection_stats: BoundedTable::new(DEVICE_CONNECTION_STATS_CAPACITY),
        }
    }

    /// The record of `port`, if any.
    pub fn port_stats(&self, port: u16) -> (r: Option<PortStats>)
        ensures
            r == entry(self.ports_view(), port as u64),
    {
        self.port_stats.get(port as u64)
    }

    /// The global packet count.
    pub fn total_packets(&self) -> (r: u64)
        ensures
            r == stored_or_zero(self.totals_view(), TOTAL_PACKETS_SLOT),
    {
        match self.total_stats.get(TOTAL_PACKETS_SLOT) {
            Some(n) => n,
            None => 0,
        }
    }

    /// The global byte count.
    pub fn total_bytes(&self) -> (r: u64)
        ensures
            r == stored_or_zero(self.totals_view(), TOTAL_BYTES_SLOT),
    {
        match self.total_stats.get(TOTAL_BYTES_SLOT) {
            Some(n) => n,
            None => 0,
        }
    }

    /// The per-device record under `key` (see `generate_device_key`).
    pub fn device_stats(&self, key: u32) -> (r: Option<DeviceStats>)
        ensures
            r == entry(self.devices_stats_view(), key as u64),
    {
        self.device_stats.get(key as u64)
    }

    /// The per-device-connection record under `key` (see
    /// `generate_connection_key`).
    pub fn device_connection_stats(&self, key: u32) -> (r: Option<DeviceConnectionStats>)
        ensures
            r == entry(self.dev_conns_view(), key as u64),
    {
        self.device_connection_stats.get(key as u64)
    }

    /// Maps the device name `name` (cut to sixteen bytes, padded with zeros)
    /// to `device_id`, as `DeviceMap::set` does; the result says whether the
    /// mapping was stored.
    pub fn set_device_mapping(&mut self, name: &str, device_id: u32) -> (stored: bool)
        requires
            old(self).wf(),
        ensures
            final(self).wf(),
            final(self).ports_view() == old(self).ports_view(),
            final(self).totals_view() == old(self).totals_view(),
            final(self).devices_stats_view() == old(self).devices_stats_view(),
            final(self).context_view() == old(self).context_view(),
            final(self).dev_conns_view() == old(self).dev_conns_view(),
            stored == ((exists|i: int|
                named_at(old(self).names_view(), padded_name(name.spec_bytes()), i))
                || old(self).names_view().len() < DEVICE_MAP_CAPACITY),
            set_outcome(
                old(self).names_view(),
                final(self).names_view(),
                padded_name(name.spec_bytes()),
                device_id,
            ),
    {
        let key = device_name_key(name);
        let stored = self.device_map.set(key, device_id);
        stored
    }

    /// Records `device_id` in the device-context table with a direction;
    /// a later call for the same id overwrites the earlier one. The result
    /// says whether the entry was stored.
    pub fn set_device_context(&mut self, device_id: u32, is_ingress: bool) -> (stored: bool)
        requires
            old(self).wf(),
        ensures
            final(self).wf(),
            final(self).context_view() == upsert(
                old(self).context_view(),
                DEVICE_CONTEXT_CAPACITY as nat,
                device_id as u64,
                context_value(device_id, is_ingress),
            ),
            stored == (old(self).context_view().contains_key(device_id as u64)
                || old(self).context_view().len() < DEVICE_CONTEXT_CAPACITY),
            final(self).ports_view() == old(self).ports_view(),
            final(self).totals_view() == old(self).totals_view(),
            final(self).devices_stats_view() == old(self).devices_stats_view(),
            final(self).names_view() == old(self).names_view(),
            final(self).dev_conns_view() == old(self).dev_conns_view(),
    {
        let value = encode_device_context(device_id, is_ingress);
        self.device_context.insert(device_id as u64, value)
    }

    /// The context of `device_id`: the id and whether the recorded direction
    /// is ingress, or `None` when the device is not monitored.
    pub fn get_current_device_context(&self, device_id: u32) -> (r: Option<(u32, bool)>)
        ensures
            r == (if self.context_view().contains_key(device_id as u64) {
                Some(
                    (
                        device_id,
                        (self.context_view()[device_id as u64] >> 16u32) & 1u32 == 0u32,
                    ),
                )
            } else {
                None
            }),
    {
        match self.device_context.get(device_id as u64) {
            Some(value) => Some((device_id, context_is_ingress(value))),
            None => None,
        }
    }

    /// Counts one packet of `packet_len` bytes in the global counters.
    pub fn update_totals(&mut self, packet_len: u64)
        requires
            old(self).wf(),
        ensures
            final(self).wf(),
            final(self).totals_view() == add_bytes(
                add_bytes(
                    old(self).totals_view(),
                    TOTAL_STATS_CAPACITY as nat,
                    TOTAL_PACKETS_SLOT,
                    1,
                ),
                TOTAL_STATS_CAPACITY as nat,
                TOTAL_BYTES_SLOT,
                packet_len,
            ),
            final(self).totals_view().contains_key(TOTAL_PACKETS_SLOT),
            final(self).totals_view().contains_key(TOTAL_BYTES_SLOT),
            final(self).totals_view()[TOTAL_PACKETS_SLOT] == stored_or_zero(
                old(self).totals_view(),
                TOTAL_PACKETS_SLOT,
            ).saturating_add(1),
            final(self).totals_view()[TOTAL_BYTES_SLOT] == stored_or_zero(
                old(self).totals_view(),
                TOTAL_BYTES_SLOT,
            ).saturating_add(packet_len),
            final(self).ports_view() == old(self).ports_view(),
            final(self).devices_stats_view() == old(self).devices_stats_view(),
            final(self).names_view() == old(self).names_view(),
            final(self).context_view() == old(self).context_view(),
            final(self).dev_conns_view() == old(self).dev_conns_view(),
    {
        proof {
            self.total_stats.lemma_bounded();
            lemma_totals_exact(self.total_stats@, packet_len);
        }
        let packets = self.total_packets();
        let _ = self.total_stats.insert(TOTAL_PACKETS_SLOT, packets.saturating_add(1));
        let bytes = self.total_bytes();
        let _ = self.total_stats.insert(TOTAL_BYTES_SLOT, bytes.saturating_add(packet_len));
    }

    /// Counts one packet of `packet_len` bytes for `port`, stamped with the
    /// global packet count.
    pub fn update_port_stats(&mut self, port: u16, packet_len: u64)
        requires
            old(self).wf(),
        ensures
            final(self).wf(),
            final(self).ports_view() == bump_port(
                old(self).ports_view(),
                port,
                packet_len,
                clock_of(old(self).totals_view()),
            ),
            final(self).totals_view() == old(self).totals_view(),
            final(self).devices_stats_view() == old(self).devices_stats_view(),
            final(self).names_view() == old(self).names_view(),
            final(self).context_view() == old(self).context_view(),
            final(self).dev_conns_view() == old(self).dev_conns_view(),
    {
        let clock = self.total_packets();
        let prev = self.port_stats.get(port as u64);
        let _ = self.port_stats.insert(port as u64, bump_port_stats(prev, packet_len, clock));
    }

    /// Counts one packet of `packet_len` bytes for device `device_id` seen on
    /// the hook `is_ingress`, under the key of its effective direction. A
    /// full table without the key is left unchanged and the lost update is
    /// not reported: the result is always `Ok`.
    pub fn update_device_stats(&mut self, device_id: u32, is_ingress: bool, packet_len: u64) -> (r:
        Result<(), ()>)
        requires
            old(self).wf(),
        ensures
            final(self).wf(),
            final(self).devices_stats_view() == bump_device(
                old(self).devices_stats_view(),
                old(self).names_view(),
                device_id,
                is_ingress,
                packet_len,
                clock_of(old(self).totals_view()),
            ),
            r is Ok,
            final(self).ports_view() == old(self).ports_view(),
            final(self).totals_view() == old(self).totals_view(),
            final(self).names_view() == old(self).names_view(),
            final(self).context_view() == old(self).context_view(),
            final(self).dev_conns_view() == old(self).dev_conns_view(),
    {
        let direction = adjust_direction_for_device(&self.device_map, device_id, is_ingress);
        let key = generate_device_key(device_id, direction == DIRECTION_INGRESS);
        let clock = self.total_packets();
        let prev = self.device_stats.get(key as u64);
        let _ = self.device_stats.insert(key as u64, bump_device_stats(prev, packet_len, clock));
        Ok(())
    }

    /// Counts one packet of `packet_len` bytes for the connection
    /// `src_port -> dst_port` on device `device_id`, seen on the hook
    /// `is_ingress`. A full table without the key is left unchanged and the
    /// lost update is not reported: the result is always `Ok`.
    pub fn update_device_connection_stats(
        &mut self,
        device_id: u32,
        src_port: u16,
        dst_port: u16,
        is_ingress: bool,
        protocol: u8,
        packet_len: u64,
    ) -> (r: Result<(), ()>)
        requires
            old(self).wf(),
        ensures
            final(self).wf(),
            final(self).dev_conns_view() == bump_device_connection(
                old(self).dev_conns_view(),
                old(self).names_view(),
                device_id,
                src_port,
                dst_port,
                is_ingress,
                protocol,
                packet_len,
                clock_of(old(self).totals_view()),
            ),
            r is Ok,
            final(self).ports_view() == old(self).ports_view(),
            final(self).totals_view() == old(self).totals_view(),
            final(self).devices_stats_view() == old(self).devices_stats_view(),
            final(self).names_view() == old(self).names_view(),
            final(self).context_view() == old(self).context_view(),
    {
        let direction = adjust_direction_for_device(&self.device_map, device_id, is_ingress);
        let protocol_u32 = protocol as u32;
        let key = generate_connection_key(device_id, src_port, dst_port, direction, protocol_u32);
        let clock = self.total_packets();
        let new_stats = match self.device_connection_stats.get(key as u64) {
            Some(stats) => DeviceConnectionStats {
                device_id: stats.device_id,
                src_port: stats.src_port,
                dst_port: stats.dst_port,
                direction,
                protocol: protocol_u32,
                timestamp: clock,
                total_packets: stats.total_packets.saturating_add(1),
                total_bytes: stats.total_bytes.saturating_add(packet_len),
            },
            None => DeviceConnectionStats {
                device_id,
                src_port,
                dst_port,
                direction,
                protocol: protocol_u32,
                timestamp: clock,
                total_packets: 1,
                total_bytes: packet_len,
            },
        };
        let _ = self.device_connection_stats.insert(key as u64, new_stats);
        Ok(())
    }

    /// Every record of device `device_id`, in the order their keys were
    /// first stored.
    pub fn query_device_connection_stats(&self, device_id: u32) -> (r: Vec<DeviceConnectionStats>)
        requires
            self.wf(),
        ensures
            r@ == records_of_device(self.dev_conns_view(), self.dev_conns_keys(), device_id),
    {
        let mut out: Vec<DeviceConnectionStats> = Vec::new();
        let n = self.device_connection_stats.key_count();
        let mut i: usize = 0;
        proof {
            self.device_connection_stats.lemma_keys();
        }
        while i < n
            invariant
                self.wf(),
                n == self.dev_conns_keys().len(),
                i <= n,
                forall|j: int|
                    0 <= j < n ==> self.dev_conns_view().contains_key(
                        #[trigger] self.dev_conns_keys()[j],
                    ),
                out@ == records_of_device(
                    self.dev_conns_view(),
                    self.dev_conns_keys().subrange(0, i as int),
                    device_id,
                ),
            decreases n - i,
        {
            let k = self.device_connection_stats.key_at(i);
            let ghost keys = self.dev_conns_keys();
            assert(keys.subrange(0, i + 1).drop_last() =~= keys.subrange(0, i as int));
            assert(self.dev_conns_view().contains_key(keys[i as int]));
            match self.device_connection_stats.get(k) {
                Some(stats) => {
                    if stats.device_id == device_id {
                        out.push(stats);
                    }
                },
                None => {},
            }
            i += 1;
        }
        assert(self.dev_conns_keys().subrange(0, n as int) =~= self.dev_conns_keys());
        out
    }
}

} // verus!

verus! {

/// Entry point of the classifier pipeline, for one frame of `packet_len`
/// bytes seen on device `device_id` at the hook `is_ingress`. Always lets
/// the packet continue; the tables end as the `tc_*` functions describe,
/// with the global packet count after this packet as the records' clock.
pub fn xnet_tc(
    tables: &mut TcTables,
    frame: &[u8],
    packet_len: u64,
    device_id: u32,
    is_ingress: bool,
) -> (r: i32)
    requires
        old(tables).wf(),
    ensures
        r == TC_ACT_OK,
        final(tables).wf(),
        final(tables).totals_view() == tc_totals(old(tables).totals_view(), frame@, packet_len),
        is_ipv4_frame(frame@) ==> {
            &&& final(tables).totals_view().contains_key(TOTAL_PACKETS_SLOT)
            &&& final(tables).totals_view().contains_key(TOTAL_BYTES_SLOT)
            &&& final(tables).totals_view()[TOTAL_PACKETS_SLOT] == stored_or_zero(
                old(tables).totals_view(),
                TOTAL_PACKETS_SLOT,
            ).saturating_add(1)
            &&& final(tables).totals_view()[TOTAL_BYTES_SLOT] == stored_or_zero(
                old(tables).totals_view(),
                TOTAL_BYTES_SLOT,
            ).saturating_add(packet_len)
        },
        final(tables).ports_view() == tc_ports(
            old(tables).ports_view(),
            frame@,
            packet_len,
            clock_of(final(tables).totals_view()),
        ),
        final(tables).devices_stats_view() == tc_device_stats(
            old(tables).devices_stats_view(),
            old(tables).names_view(),
            old(tables).context_view(),
            frame@,
            device_id,
            is_ingress,
            packet_len,
            clock_of(final(tables).totals_view()),
        ),
        final(tables).dev_conns_view() == tc_device_connections(
            old(tables).dev_conns_view(),
            old(tables).names_view(),
            old(tables).context_view(),
            frame@,
            device_id,
            is_ingress,
            packet_len,
            clock_of(final(tables).totals_view()),
        ),
        final(tables).names_view() == old(tables).names_view(),
        final(tables).context_view() == old(tables).context_view(),
{
    let eth = match EthHdr::parse(frame, 0) {
        Some(h) => h,
        None => return TC_ACT_OK,
    };
    if eth.eth_proto != ETH_P_IP {
        return TC_ACT_OK;
    }
    tables.update_totals(packet_len);
    let ip_offset = ETH_HDR_LEN;
    let ip = match IpHdr::parse(frame, ip_offset) {
        Some(h) => h,
        None => return TC_ACT_OK,
    };
    let protocol = ip.protocol;
    let transport_offset = ip_offset + IP_HDR_LEN;
    let (src_port, dst_port) = if protocol == IPPROTO_TCP {
        match TcpHdr::parse(frame, transport_offset) {
            Some(h) => (h.source, h.dest),
            None => return TC_ACT_OK,
        }
    } else if protocol == IPPROTO_UDP {
        match UdpHdr::parse(frame, transport_offset) {
            Some(h) => (h.source, h.dest),
            None => return TC_ACT_OK,
        }
    } else {
        return TC_ACT_OK;
    };
    tables.update_port_stats(src_port, packet_len);
    tables.update_port_stats(dst_port, packet_len);
    if let Some((id, _)) = tables.get_current_device_context(device_id) {
        let _ = tables.update_device_stats(id, is_ingress, packet_len);
        let _ = tables.update_device_connection_stats(
            id,
            src_port,
            dst_port,
            is_ingress,
            protocol,
            packet_len,
        );
    }
    TC_ACT_OK
}

} // verus!
