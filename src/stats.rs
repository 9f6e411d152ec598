use vstd::prelude::*;

verus! {

/// A fixed-size log message.
#[derive(Clone, Copy, Debug)]
pub struct LogEvent {
    pub msg: [u8; 64],
}

/// Counters of one port.
#[derive(Clone, Copy, Debug, PartialEq, Eq, Structural)]
pub struct PortStats {
    pub packets: u64,
    pub bytes: u64,
    /// Global packet count when the port was last seen.
    pub last_seen: u64,
}

/// Counters of one device in one direction.
#[derive(Clone, Copy, Debug, PartialEq, Eq, Structural)]
pub struct DeviceStats {
    pub packets: u64,
    pub bytes: u64,
    /// Global packet count when the device was last seen.
    pub last_seen: u64,
}

/// Counters of one connection seen on a device.
#[derive(Clone, Copy, Debug, PartialEq, Eq, Structural)]
pub struct DeviceConnectionStats {
    pub device_id: u32,
    pub src_port: u16,
    pub dst_port: u16,
    /// 0 ingress, 1 egress, after the device's inversion rule.
    pub direction: u32,
    pub protocol: u32,
    /// Global packet count when the connection was last seen.
    pub timestamp: u64,
    pub total_packets: u64,
    pub total_bytes: u64,
}

/// The port record after one more packet of `len` bytes at logical time
/// `clock`; `prev` is the record before, if there was one.
pub open spec fn next_port_stats(prev: Option<PortStats>, len: u64, clock: u64) -> PortStats {
    match prev {
        Some(s) => PortStats {
            packets: s.packets.saturating_add(1),
            bytes: s.bytes.saturating_add(len),
            last_seen: clock,
        },
        None => PortStats { packets: 1, bytes: len, last_seen: clock },
    }
}

/// The device record after one more packet of `len` bytes at logical time
/// `clock`.
pub open spec fn next_device_stats(prev: Option<DeviceStats>, len: u64, clock: u64) -> DeviceStats {
    match prev {
        Some(s) => DeviceStats {
            packets: s.packets.saturating_add(1),
            bytes: s.bytes.saturating_add(len),
            last_seen: clock,
        },
        None => DeviceStats { packets: 1, bytes: len, last_seen: clock },
    }
}

/// The connection record after one more packet of `len` bytes at logical
/// time `clock`. A new record takes the packet's identity; an existing one
/// keeps its device and ports and takes the fresh direction and protocol.
pub open spec fn next_device_connection_stats(
    prev: Option<DeviceConnectionStats>,
    device_id: u32,
    src_port: u16,
    dst_port: u16,
    direction: u32,
    protocol: u32,
    len: u64,
    clock: u64,
) -> DeviceConnectionStats {
    match prev {
        Some(s) => DeviceConnectionStats {
            device_id: s.device_id,
            src_port: s.src_port,
            dst_port: s.dst_port,
            direction,
            protocol,
            timestamp: clock,
            total_packets: s.total_packets.saturating_add(1),
            total_bytes: s.total_bytes.saturating_add(len),
        },
        None => DeviceConnectionStats {
            device_id,
            src_port,
            dst_port,
            direction,
            protocol,
            timestamp: clock,
            total_packets: 1,
            total_bytes: len,
        },
    }
}

/// The port record after one more packet.
pub fn bump_port_stats(prev: Option<PortStats>, len: u64, clock: u64) -> (r: PortStats)
    ensures
        r == next_port_stats(prev, len, clock),
{
    match prev {
        Some(s) => PortStats {
            packets: s.packets.saturating_add(1),
            bytes: s.bytes.saturating_add(len),
            last_seen: clock,
        },
        None => PortStats { packets: 1, bytes: len, last_seen: clock },
    }
}

/// The device record after one more packet.
pub fn bump_device_stats(prev: Option<DeviceStats>, len: u64, clock: u64) -> (r: DeviceStats)
    ensures
        r == next_device_stats(prev, len, clock),
{
    match prev {
        Some(s) => DeviceStats {
            packets: s.packets.saturating_add(1),
            bytes: s.bytes.saturating_add(len),
            last_seen: clock,
        },
        None => DeviceStats { packets: 1, bytes: len, last_seen: clock },
    }
}

} // verus!
