use xnet::classifier::TcTables;
use xnet::conntrack::{classify_tcp_flags, ConnectionState, TrackWrite};
use xnet::device::{
    adjust_direction_for_device, device_name_key, generate_connection_key, generate_device_key,
    DeviceMap,
};
use xnet::packet::{read_be16, read_be32, EthHdr, IpHdr, TcpHdr, UdpHdr};
use xnet::report::{
    connection_status_label, direction_label, int_to_ip, records_of_device, sort_by_bytes_desc,
    transport_label, write_num, Protocol, TrafficStats,
};
use xnet::stats::{DeviceConnectionStats, PortStats};

#[test]
fn big_endian_reads() {
    let b = [0x12u8, 0x34, 0x56, 0x78];
    assert_eq!(read_be16(&b, 0), 0x1234);
    assert_eq!(read_be16(&b, 2), 0x5678);
    assert_eq!(read_be32(&b, 0), 0x1234_5678);
}

#[test]
fn headers_need_their_bytes() {
    let b = [0u8; 20];
    assert!(EthHdr::parse(&b, 6).is_some());
    assert!(EthHdr::parse(&b, 7).is_none());
    assert!(IpHdr::parse(&b, 0).is_some());
    assert!(IpHdr::parse(&b, 1).is_none());
    assert!(TcpHdr::parse(&b, 0).is_some());
    assert!(TcpHdr::parse(&b, 100).is_none());
    assert!(UdpHdr::parse(&b, 12).is_some());
    assert!(UdpHdr::parse(&b, 13).is_none());
}

#[test]
fn header_fields_decode() {
    let mut b = vec![0u8; 14];
    b[0] = 0xaa;
    b[11] = 0xbb;
    b[12] = 0x08;
    let e = EthHdr::parse(&b, 0).unwrap();
    assert_eq!(e.eth_dmac[0], 0xaa);
    assert_eq!(e.eth_smac[5], 0xbb);
    assert_eq!(e.eth_proto, 0x0800);
    let ip = [0x45u8, 0, 0, 40, 0, 1, 0, 0, 64, 6, 0xab, 0xcd, 192, 168, 1, 2, 10, 0, 0, 1];
    let h = IpHdr::parse(&ip, 0).unwrap();
    assert_eq!((h.version_ihl, h.tot_len, h.id, h.ttl, h.protocol), (0x45, 40, 1, 64, 6));
    assert_eq!(h.check, 0xabcd);
    assert_eq!(h.saddr, 0xc0a8_0102);
    assert_eq!(h.daddr, 0x0a00_0001);
    let tcp = [0x04u8, 0xd2, 0, 80, 0, 0, 0, 1, 0, 0, 0, 2, 0x50, 0x12, 0xff, 0xff, 0, 0, 0, 0];
    let t = TcpHdr::parse(&tcp, 0).unwrap();
    assert_eq!((t.source, t.dest, t.seq, t.ack_seq, t.flags, t.window), (1234, 80, 1, 2, 0x12, 0xffff));
    let udp = [0x13u8, 0x88, 0, 53, 0, 8, 0, 0];
    let u = UdpHdr::parse(&udp, 0).unwrap();
    assert_eq!((u.source, u.dest, u.len), (5000, 53, 8));
}

#[test]
fn flag_precedence() {
    assert_eq!(classify_tcp_flags(0x02), TrackWrite::Forward(ConnectionState::New));
    assert_eq!(classify_tcp_flags(0x12), TrackWrite::Both(ConnectionState::Established));
    assert_eq!(classify_tcp_flags(0x10), TrackWrite::Nothing);
    assert_eq!(classify_tcp_flags(0x11), TrackWrite::Nothing);
    assert_eq!(classify_tcp_flags(0x01), TrackWrite::Both(ConnectionState::Closing));
    assert_eq!(classify_tcp_flags(0x05), TrackWrite::Both(ConnectionState::Closing));
    assert_eq!(classify_tcp_flags(0x04), TrackWrite::Both(ConnectionState::Reset));
    assert_eq!(classify_tcp_flags(0x03), TrackWrite::Forward(ConnectionState::New));
    assert_eq!(classify_tcp_flags(0x00), TrackWrite::Nothing);
    assert_eq!(ConnectionState::Reset.code(), 4);
    assert_eq!(ConnectionState::New.code(), 1);
}

#[test]
fn device_keys() {
    assert_eq!(generate_device_key(7, true), 14);
    assert_eq!(generate_device_key(7, false), 15);
    assert_eq!(generate_device_key(0x8000_0000, false), 1);
    assert_eq!(generate_connection_key(7, 1234, 80, 1, 6), 1632634073);
    assert_eq!(generate_connection_key(7, 1234, 80, 1, 17), 290456793);
}

#[test]
fn device_names() {
    let k = device_name_key("veth0");
    assert_eq!(&k[..5], b"veth0");
    assert!(k[5..].iter().all(|&b| b == 0));
    let long = device_name_key("abcdefghijklmnopqrstuvwxyz");
    assert_eq!(&long, b"abcdefghijklmnop");
}

#[test]
fn device_map_scan() {
    let mut m = DeviceMap::new();
    assert!(m.set(device_name_key("eth0"), 2));
    assert!(m.set(device_name_key("vethab"), 5));
    assert!(m.is_veth_device(5));
    assert!(!m.is_veth_device(2));
    assert!(!m.is_veth_device(9));
    assert_eq!(m.get_device_name_from_id(2), Some(device_name_key("eth0")));
    assert_eq!(m.get_device_name_from_id(9), None);
    assert_eq!(adjust_direction_for_device(&m, 5, true), 1);
    assert_eq!(adjust_direction_for_device(&m, 5, false), 0);
    assert_eq!(adjust_direction_for_device(&m, 2, true), 0);
    assert_eq!(adjust_direction_for_device(&m, 2, false), 1);
    // Renaming in place: the name now maps to another id.
    assert!(m.set(device_name_key("vethab"), 6));
    assert!(!m.is_veth_device(5));
    assert!(m.is_veth_device(6));
}

#[test]
fn device_map_capacity() {
    let mut tc = TcTables::new();
    for i in 0..64u32 {
        assert!(tc.set_device_mapping(&format!("dev{}", i), i));
    }
    assert!(!tc.set_device_mapping("veth-extra", 100));
    assert!(tc.set_device_mapping("dev3", 300));
}

#[test]
fn device_context_lookup() {
    let mut tc = TcTables::new();
    assert_eq!(tc.get_current_device_context(3), None);
    tc.set_device_context(3, false);
    assert_eq!(tc.get_current_device_context(3), Some((3, false)));
    tc.set_device_context(3, true);
    assert_eq!(tc.get_current_device_context(3), Some((3, true)));
}

#[test]
fn dotted_quads() {
    assert_eq!(int_to_ip(0x0100_000a), "10.0.0.1");
    assert_eq!(int_to_ip(0x0200_000a), "10.0.0.2");
    assert_eq!(int_to_ip(0xff01_a8c0), "192.168.1.255");
    assert_eq!(int_to_ip(u32::from_le_bytes([172, 16, 254, 7])), "172.16.254.7");
    assert_eq!(int_to_ip(0), "0.0.0.0");
    let mut s = String::from("x");
    assert_eq!(write_num(&mut s, 255), 3);
    assert_eq!(write_num(&mut s, 40), 2);
    assert_eq!(write_num(&mut s, 0), 1);
    assert_eq!(s, "x255400");
}

#[test]
fn labels() {
    assert_eq!(Protocol(17).name(), "UDP");
    assert_eq!(Protocol(6).name(), "TCP");
    assert_eq!(Protocol(58).name(), "ICMPv6");
    assert_eq!(Protocol(200).name(), "Unknown");
    assert_eq!(connection_status_label(2), "established");
    assert_eq!(connection_status_label(9), "unknown");
}

#[test]
fn snapshot_records() {
    let mut s = TrafficStats::new();
    assert_eq!((s.total_packets, s.total_bytes), (0, 0));
    s.record_totals(Some(5), None);
    assert_eq!((s.total_packets, s.total_bytes), (5, 0));
    s.record_port_stats(80, PortStats { packets: 0, bytes: 0, last_seen: 0 });
    assert!(s.port_stats.is_empty());
    s.record_port_stats(80, PortStats { packets: 2, bytes: 9, last_seen: 4 });
    assert_eq!(s.port_stats.get(&80).unwrap().bytes, 9);
}

#[test]
fn record_labels() {
    assert_eq!(direction_label(0), "ingress");
    assert_eq!(direction_label(1), "egress");
    assert_eq!(transport_label(6), "TCP");
    assert_eq!(transport_label(17), "UDP");
    assert_eq!(transport_label(1), "UNKNOWN");
}

fn rec(device_id: u32, src_port: u16) -> DeviceConnectionStats {
    DeviceConnectionStats {
        device_id,
        src_port,
        dst_port: 80,
        direction: 0,
        protocol: 6,
        timestamp: 0,
        total_packets: 1,
        total_bytes: 1,
    }
}

#[test]
fn device_record_filter() {
    let all = vec![rec(1, 10), rec(2, 11), rec(1, 12), rec(3, 13)];
    let ones = records_of_device(&all, 1);
    assert_eq!(ones.len(), 2);
    assert_eq!((ones[0].src_port, ones[1].src_port), (10, 12));
    assert!(records_of_device(&all, 9).is_empty());
}

#[test]
fn ranking_by_bytes() {
    let mut v = vec![(1u64, 5u64), (2, 50), (3, 0), (4, 50), (5, 7)];
    sort_by_bytes_desc(&mut v);
    let bytes: Vec<u64> = v.iter().map(|p| p.1).collect();
    assert_eq!(bytes, vec![50, 50, 7, 5, 0]);
    let mut keys: Vec<u64> = v.iter().map(|p| p.0).collect();
    keys.sort();
    assert_eq!(keys, vec![1, 2, 3, 4, 5]);
}

#[test]
fn device_mapping_keeps_other_entries() {
    let mut m = DeviceMap::new();
    assert!(m.set(device_name_key("eth0"), 2));
    assert!(m.set(device_name_key("eth1"), 3));
    assert!(m.set(device_name_key("eth0"), 9));
    assert_eq!(m.get_device_name_from_id(3), Some(device_name_key("eth1")));
    assert_eq!(m.get_device_name_from_id(9), Some(device_name_key("eth0")));
    assert_eq!(m.get_device_name_from_id(2), None);
}
