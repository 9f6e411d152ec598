use vstd::prelude::*;

verus! {

/// TCP flag bits as they stand in the header's flags byte.
pub const TCP_FIN: u8 = 0x01;

pub const TCP_SYN: u8 = 0x02;

pub const TCP_RST: u8 = 0x04;

pub const TCP_ACK: u8 = 0x10;

/// The lifecycle state recorded for a connection key.
#[derive(Clone, Copy, Debug, PartialEq, Eq, Structural)]
pub enum ConnectionState {
    New,
    Established,
    Closing,
    Reset,
}

impl ConnectionState {
    /// The numeric code of the state as the reporting side reads it.
    pub open spec fn code_spec(self) -> u32 {
        match self {
            ConnectionState::New => 1,
            ConnectionState::Established => 2,
            ConnectionState::Closing => 3,
            ConnectionState::Reset => 4,
        }
    }

    /// The numeric code of the state: 1 new, 2 established, 3 closing,
    /// 4 reset.
    pub fn code(&self) -> (r: u32)
        ensures
            r == self.code_spec(),
    {
        match self {
            ConnectionState::New => 1,
            ConnectionState::Established => 2,
            ConnectionState::Closing => 3,
            ConnectionState::Reset => 4,
        }
    }
}

/// The 64-bit key of the directional flow `src_ip:src_port -> dst_ip:dst_port`.
/// The source address fills the upper half and the destination address the
/// lower half; the ports are or-ed over the upper half at bits 48 and 32.
pub open spec fn conn_key(src_ip: u32, dst_ip: u32, src_port: u16, dst_port: u16) -> u64 {
    ((src_ip as u64) << 32u64) | (dst_ip as u64) | ((src_port as u64) << 48u64) | ((
    dst_port as u64) << 32u64)
}

/// The connection key of a 4-tuple.
pub fn generate_conn_key(src_ip: u32, dst_ip: u32, src_port: u16, dst_port: u16) -> (r: u64)
    ensures
        r == conn_key(src_ip, dst_ip, src_port, dst_port),
{
    let src_ip_u64 = src_ip as u64;
    let dst_ip_u64 = dst_ip as u64;
    let src_port_u64 = src_port as u64;
    let dst_port_u64 = dst_port as u64;
    (src_ip_u64 << 32u64) | dst_ip_u64 | (src_port_u64 << 48u64) | (dst_port_u64 << 32u64)
}

/// What one TCP segment writes into the connection-state table.
#[derive(Clone, Copy, Debug, PartialEq, Eq, Structural)]
pub enum TrackWrite {
    /// No state is written.
    Nothing,
    /// The state is written under the forward key only.
    Forward(ConnectionState),
    /// The state is written under the forward and the reverse key.
    Both(ConnectionState),
}

pub open spec fn has_flag(flags: u8, bit: u8) -> bool {
    flags & bit != 0
}

/// The state write of a segment with these flags, by the first rule that
/// applies: SYN alone opens, SYN with ACK establishes, ACK alone writes
/// nothing, FIN closes, RST resets.
pub open spec fn track_write(flags: u8) -> TrackWrite {
    let syn = has_flag(flags, TCP_SYN);
    let ack = has_flag(flags, TCP_ACK);
    if syn && !ack {
        TrackWrite::Forward(ConnectionState::New)
    } else if syn && ack {
        TrackWrite::Both(ConnectionState::Established)
    } else if ack {
        TrackWrite::Nothing
    } else if has_flag(flags, TCP_FIN) {
        TrackWrite::Both(ConnectionState::Closing)
    } else if has_flag(flags, TCP_RST) {
        TrackWrite::Both(ConnectionState::Reset)
    } else {
        TrackWrite::Nothing
    }
}

/// The state write of a segment with these flags.
pub fn classify_tcp_flags(flags: u8) -> (r: TrackWrite)
    ensures
        r == track_write(flags),
{
    let syn = (flags & TCP_SYN) != 0;
    let ack = (flags & TCP_ACK) != 0;
    let fin = (flags & TCP_FIN) != 0;
    let rst = (flags & TCP_RST) != 0;
    if syn && !ack {
        TrackWrite::Forward(ConnectionState::New)
    } else if syn && ack {
        TrackWrite::Both(ConnectionState::Established)
    } else if ack && !syn {
        TrackWrite::Nothing
    } else if fin {
        TrackWrite::Both(ConnectionState::Closing)
    } else if rst {
        TrackWrite::Both(ConnectionState::Reset)
    } else {
        TrackWrite::Nothing
    }
}

} // verus!
