use vstd::prelude::*;

verus! {

/// Length of an Ethernet header.
pub const ETH_HDR_LEN: usize = 14;

/// Length of an IPv4 header without options.
pub const IP_HDR_LEN: usize = 20;

/// Length of a TCP header without options.
pub const TCP_HDR_LEN: usize = 20;

/// Length of a UDP header.
pub const UDP_HDR_LEN: usize = 8;

/// Ethertype of IPv4.
pub const ETH_P_IP: u16 = 0x0800;

/// IP protocol number of TCP.
pub const IPPROTO_TCP: u8 = 6;

/// IP protocol number of UDP.
pub const IPPROTO_UDP: u8 = 17;

/// Big-endian 16-bit value of the bytes `s[i]`, `s[i + 1]`.
pub open spec fn be16(s: Seq<u8>, i: int) -> int {
    s[i] as int * 256 + s[i + 1] as int
}

/// Big-endian 32-bit value of the bytes `s[i] .. s[i + 4]`.
pub open spec fn be32(s: Seq<u8>, i: int) -> int {
    s[i] as int * 16777216 + s[i + 1] as int * 65536 + s[i + 2] as int * 256 + s[i + 3] as int
}

/// Offset of the IPv4 header in a frame.
pub const IP_OFFSET: usize = 14;

/// Offset of the transport header in a frame whose IPv4 header has no options.
pub const L4_OFFSET: usize = 34;

/// The frame holds an Ethernet header whose ethertype is IPv4.
pub open spec fn is_ipv4_frame(s: Seq<u8>) -> bool {
    s.len() >= ETH_HDR_LEN && be16(s, 12) == ETH_P_IP
}

/// The frame is IPv4 and holds a whole IPv4 header.
pub open spec fn has_ip_header(s: Seq<u8>) -> bool {
    is_ipv4_frame(s) && s.len() >= L4_OFFSET
}

/// The IP protocol number of an IPv4 frame.
pub open spec fn frame_protocol(s: Seq<u8>) -> u8 {
    s[IP_OFFSET + 9]
}

/// The source address of an IPv4 frame.
pub open spec fn frame_saddr(s: Seq<u8>) -> u32 {
    be32(s, IP_OFFSET + 12) as u32
}

/// The destination address of an IPv4 frame.
pub open spec fn frame_daddr(s: Seq<u8>) -> u32 {
    be32(s, IP_OFFSET + 16) as u32
}

/// The frame is IPv4 with protocol TCP and holds a whole TCP header.
pub open spec fn has_tcp_header(s: Seq<u8>) -> bool {
    has_ip_header(s) && frame_protocol(s) == IPPROTO_TCP && s.len() >= L4_OFFSET + TCP_HDR_LEN
}

/// The frame is IPv4 with protocol UDP and holds a whole UDP header.
pub open spec fn has_udp_header(s: Seq<u8>) -> bool {
    has_ip_header(s) && frame_protocol(s) == IPPROTO_UDP && s.len() >= L4_OFFSET + UDP_HDR_LEN
}

/// The source port of the transport header (TCP and UDP place it alike).
pub open spec fn frame_src_port(s: Seq<u8>) -> u16 {
    be16(s, L4_OFFSET as int) as u16
}

/// The destination port of the transport header.
pub open spec fn frame_dst_port(s: Seq<u8>) -> u16 {
    be16(s, L4_OFFSET + 2) as u16
}

/// The flags byte of the TCP header.
pub open spec fn frame_tcp_flags(s: Seq<u8>) -> u8 {
    s[L4_OFFSET + 13]
}

/// Reads a big-endian `u16` at `i`.
pub fn read_be16(buf: &[u8], i: usize) -> (r: u16)
    requires
        i + 2 <= buf@.len(),
    ensures
        r as int == be16(buf@, i as int),
{
    (buf[i] as u16) * 256 + buf[i + 1] as u16
}

/// Reads a big-endian `u32` at `i`.
pub fn read_be32(buf: &[u8], i: usize) -> (r: u32)
    requires
        i + 4 <= buf@.len(),
    ensures
        r as int == be32(buf@, i as int),
{
    (buf[i] as u32) * 16777216 + (buf[i + 1] as u32) * 65536 + (buf[i + 2] as u32) * 256
        + buf[i + 3] as u32
}


/// Ethernet header, multi-byte fields in host order.
pub struct EthHdr {
    pub eth_dmac: [u8; 6],
    pub eth_smac: [u8; 6],
    pub eth_proto: u16,
}

/// IPv4 header without options, multi-byte fields in host order.
pub struct IpHdr {
    pub version_ihl: u8,
    pub tos: u8,
    pub tot_len: u16,
    pub id: u16,
    pub frag_off: u16,
    pub ttl: u8,
    pub protocol: u8,
    pub check: u16,
    pub saddr: u32,
    pub daddr: u32,
}

/// TCP header without options, multi-byte fields in host order.
pub struct TcpHdr {
    pub source: u16,
    pub dest: u16,
    pub seq: u32,
    pub ack_seq: u32,
    pub doff_reserved: u8,
    pub flags: u8,
    pub window: u16,
    pub check: u16,
    pub urg_ptr: u16,
}

/// UDP header, multi-byte fields in host order.
pub struct UdpHdr {
    pub source: u16,
    pub dest: u16,
    pub len: u16,
    pub check: u16,
}

impl EthHdr {
    /// `self` is the Ethernet header that starts at `off` in `s`.
    pub open spec fn decodes(&self, s: Seq<u8>, off: int) -> bool {
        &&& self.eth_dmac@ == s.subrange(off, off + 6)
        &&& self.eth_smac@ == s.subrange(off + 6, off + 12)
        &&& self.eth_proto as int == be16(s, off + 12)
    }

    /// The Ethernet header at `off`, or `None` when the buffer ends first.
    pub fn parse(buf: &[u8], off: usize) -> (r: Option<EthHdr>)
        ensures
            r is Some <==> off as int + ETH_HDR_LEN as int <= buf@.len(),
            r matches Some(h) ==> h.decodes(buf@, off as int),
    {
        if off > buf.len() || buf.len() - off < ETH_HDR_LEN {
            return None;
        }
        let h = EthHdr {
            eth_dmac: [buf[off], buf[off + 1], buf[off + 2], buf[off + 3], buf[off + 4], buf[off + 5]],
            eth_smac: [
                buf[off + 6],
                buf[off + 7],
                buf[off + 8],
                buf[off + 9],
                buf[off + 10],
                buf[off + 11],
            ],
            eth_proto: read_be16(buf, off + 12),
        };
        assert(h.eth_dmac@ =~= buf@.subrange(off as int, off + 6));
        assert(h.eth_smac@ =~= buf@.subrange(off + 6, off + 12));
        Some(h)
    }
}

impl IpHdr {
    /// `self` is the IPv4 header that starts at `off` in `s`.
    pub open spec fn decodes(&self, s: Seq<u8>, off: int) -> bool {
        &&& self.version_ihl == s[off]
        &&& self.tos == s[off + 1]
        &&& self.tot_len as int == be16(s, off + 2)
        &&& self.id as int == be16(s, off + 4)
        &&& self.frag_off as int == be16(s, off + 6)
        &&& self.ttl == s[off + 8]
        &&& self.protocol == s[off + 9]
        &&& self.check as int == be16(s, off + 10)
        &&& self.saddr as int == be32(s, off + 12)
        &&& self.daddr as int == be32(s, off + 16)
    }

    /// The IPv4 header at `off`, or `None` when the buffer ends first.
    pub fn parse(buf: &[u8], off: usize) -> (r: Option<IpHdr>)
        ensures
            r is Some <==> off as int + IP_HDR_LEN as int <= buf@.len(),
            r matches Some(h) ==> h.decodes(buf@, off as int),
    {
        if off > buf.len() || buf.len() - off < IP_HDR_LEN {
            return None;
        }
        Some(
            IpHdr {
                version_ihl: buf[off],
                tos: buf[off + 1],
                tot_len: read_be16(buf, off + 2),
                id: read_be16(buf, off + 4),
                frag_off: read_be16(buf, off + 6),
                ttl: buf[off + 8],
                protocol: buf[off + 9],
                check: read_be16(buf, off + 10),
                saddr: read_be32(buf, off + 12),
                daddr: read_be32(buf, off + 16),
            },
        )
    }
}

impl TcpHdr {
    /// `self` is the TCP header that starts at `off` in `s`.
    pub open spec fn decodes(&self, s: Seq<u8>, off: int) -> bool {
        &&& self.source as int == be16(s, off)
        &&& self.dest as int == be16(s, off + 2)
        &&& self.seq as int == be32(s, off + 4)
        &&& self.ack_seq as int == be32(s, off + 8)
        &&& self.doff_reserved == s[off + 12]
        &&& self.flags == s[off + 13]
        &&& self.window as int == be16(s, off + 14)
        &&& self.check as int == be16(s, off + 16)
        &&& self.urg_ptr as int == be16(s, off + 18)
    }

    /// The TCP header at `off`, or `None` when the buffer ends first.
    pub fn parse(buf: &[u8], off: usize) -> (r: Option<TcpHdr>)
        ensures
            r is Some <==> off as int + TCP_HDR_LEN as int <= buf@.len(),
            r matches Some(h) ==> h.decodes(buf@, off as int),
    {
        if off > buf.len() || buf.len() - off < TCP_HDR_LEN {
            return None;
        }
        Some(
            TcpHdr {
                source: read_be16(buf, off),
                dest: read_be16(buf, off + 2),
                seq: read_be32(buf, off + 4),
                ack_seq: read_be32(buf, off + 8),
                doff_reserved: buf[off + 12],
                flags: buf[off + 13],
                window: read_be16(buf, off + 14),
                check: read_be16(buf, off + 16),
                urg_ptr: read_be16(buf, off + 18),
            },
        )
    }
}

impl UdpHdr {
    /// `self` is the UDP header that starts at `off` in `s`.
    pub open spec fn decodes(&self, s: Seq<u8>, off: int) -> bool {
        &&& self.source as int == be16(s, off)
        &&& self.dest as int == be16(s, off + 2)
        &&& self.len as int == be16(s, off + 4)
        &&& self.check as int == be16(s, off + 6)
    }

    /// The UDP header at `off`, or `None` when the buffer ends first.
    pub fn parse(buf: &[u8], off: usize) -> (r: Option<UdpHdr>)
        ensures
            r is Some <==> off as int + UDP_HDR_LEN as int <= buf@.len(),
            r matches Some(h) ==> h.decodes(buf@, off as int),
    {
        if off > buf.len() || buf.len() - off < UDP_HDR_LEN {
            return None;
        }
        Some(
            UdpHdr {
                source: read_be16(buf, off),
                dest: read_be16(buf, off + 2),
                len: read_be16(buf, off + 4),
                check: read_be16(buf, off + 6),
            },
        )
    }
}

} // verus!
