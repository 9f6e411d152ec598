use xnet::classifier::{xnet_tc, TcTables, TC_ACT_OK};
use xnet::conntrack::{generate_conn_key, ConnectionState};
use xnet::device::generate_device_key;
use xnet::ingress::{xnet, IngressTables, XDP_PASS};

const SYN: u8 = 0x02;
const ACK: u8 = 0x10;
const FIN: u8 = 0x01;
const RST: u8 = 0x04;

const A: u32 = 0x0A00_0001; // 10.0.0.1
const B: u32 = 0x0A00_0002; // 10.0.0.2

fn ipv4_frame(src: u32, dst: u32, protocol: u8, l4: &[u8]) -> Vec<u8> {
    let mut f = vec![0u8; 12];
    f.extend_from_slice(&[0x08, 0x00]);
    f.extend_from_slice(&[0x45, 0, 0, 40, 0, 0, 0, 0, 64, protocol, 0, 0]);
    f.extend_from_slice(&src.to_be_bytes());
    f.extend_from_slice(&dst.to_be_bytes());
    f.extend_from_slice(l4);
    f
}

fn tcp_frame(src: u32, dst: u32, sp: u16, dp: u16, flags: u8) -> Vec<u8> {
    let mut tcp = Vec::new();
    tcp.extend_from_slice(&sp.to_be_bytes());
    tcp.extend_from_slice(&dp.to_be_bytes());
    tcp.extend_from_slice(&[0; 8]);
    tcp.push(0x50);
    tcp.push(flags);
    tcp.extend_from_slice(&[0; 6]);
    ipv4_frame(src, dst, 6, &tcp)
}

fn udp_frame(src: u32, dst: u32, sp: u16, dp: u16) -> Vec<u8> {
    let mut udp = Vec::new();
    udp.extend_from_slice(&sp.to_be_bytes());
    udp.extend_from_slice(&dp.to_be_bytes());
    udp.extend_from_slice(&[0, 8, 0, 0]);
    ipv4_frame(src, dst, 17, &udp)
}

#[test]
fn three_packet_connection_scenario() {
    let mut ingress = IngressTables::new();
    let mut tc = TcTables::new();
    for (len, flags) in [(60u64, SYN), (1500, ACK), (40, FIN)] {
        let f = tcp_frame(A, B, 1234, 80, flags);
        assert_eq!(xnet(&mut ingress, &f, len), XDP_PASS);
        assert_eq!(xnet_tc(&mut tc, &f, len, 1, true), TC_ACT_OK);
    }
    let fwd = generate_conn_key(A, B, 1234, 80);
    assert_eq!(ingress.connection_state(fwd), Some(ConnectionState::Closing));
    assert_eq!(ingress.connection_bytes(fwd), Some(1600));
    assert_eq!(tc.port_stats(1234).unwrap().packets, 3);
    assert_eq!(tc.port_stats(80).unwrap().packets, 3);
    assert_eq!(tc.port_stats(80).unwrap().bytes, 1600);
    assert_eq!(tc.port_stats(80).unwrap().last_seen, 3);
    assert_eq!(tc.total_packets(), 3);
    assert_eq!(tc.total_bytes(), 1600);
    assert_eq!(ingress.ip_bytes(A), Some(1600));
}

#[test]
fn veth_ingress_counts_as_egress() {
    let mut tc = TcTables::new();
    assert!(tc.set_device_mapping("veth0", 7));
    assert!(tc.set_device_context(7, true));
    assert!(tc.set_device_context(7, false));
    let f = tcp_frame(A, B, 1234, 80, ACK);
    xnet_tc(&mut tc, &f, 100, 7, true);
    assert!(tc.device_stats(15).is_some());
    assert!(tc.device_stats(14).is_none());
    let st = tc.device_stats(15).unwrap();
    assert_eq!((st.packets, st.bytes, st.last_seen), (1, 100, 1));
    let conns = tc.query_device_connection_stats(7);
    assert_eq!(conns.len(), 1);
    let conn = conns[0];
    assert_eq!(conn.direction, 1);
    assert_eq!(conn.protocol, 6);
    assert_eq!((conn.src_port, conn.dst_port), (1234, 80));
}

#[test]
fn physical_device_keeps_direction() {
    let mut tc = TcTables::new();
    assert!(tc.set_device_mapping("eth0", 3));
    assert!(tc.set_device_context(3, true));
    let f = tcp_frame(A, B, 1234, 80, ACK);
    xnet_tc(&mut tc, &f, 100, 3, true);
    xnet_tc(&mut tc, &f, 50, 3, false);
    assert_eq!(tc.device_stats(6).unwrap().bytes, 100);
    assert_eq!(tc.device_stats(7).unwrap().bytes, 50);
    assert_eq!(generate_device_key(3, true), 6);
}

#[test]
fn unmonitored_device_updates_only_globals_and_ports() {
    let mut tc = TcTables::new();
    let f = tcp_frame(A, B, 1234, 80, ACK);
    xnet_tc(&mut tc, &f, 100, 9, true);
    assert_eq!(tc.total_packets(), 1);
    assert!(tc.port_stats(1234).is_some());
    assert!(tc.device_stats(18).is_none());
    assert!(tc.device_stats(19).is_none());
    assert!(tc.query_device_connection_stats(9).is_empty());
}

#[test]
fn syn_then_syn_ack_then_replay() {
    let mut t = IngressTables::new();
    let fwd = generate_conn_key(A, B, 1234, 80);
    let rev = generate_conn_key(B, A, 80, 1234);
    xnet(&mut t, &tcp_frame(A, B, 1234, 80, SYN), 60);
    assert_eq!(t.connection_state(fwd), Some(ConnectionState::New));
    assert_eq!(t.connection_state(rev), None);
    xnet(&mut t, &tcp_frame(A, B, 1234, 80, SYN | ACK), 60);
    assert_eq!(t.connection_state(fwd), Some(ConnectionState::Established));
    assert_eq!(t.connection_state(rev), Some(ConnectionState::Established));
    xnet(&mut t, &tcp_frame(A, B, 1234, 80, SYN | ACK), 60);
    assert_eq!(t.connection_state(fwd), Some(ConnectionState::Established));
    assert_eq!(t.connection_state(rev), Some(ConnectionState::Established));
}

#[test]
fn fin_and_rst_write_both_keys() {
    let mut t = IngressTables::new();
    let fwd = generate_conn_key(A, B, 1234, 80);
    let rev = generate_conn_key(B, A, 80, 1234);
    xnet(&mut t, &tcp_frame(A, B, 1234, 80, FIN), 40);
    assert_eq!(t.connection_state(fwd), Some(ConnectionState::Closing));
    assert_eq!(t.connection_state(rev), Some(ConnectionState::Closing));
    xnet(&mut t, &tcp_frame(A, B, 1234, 80, RST), 40);
    assert_eq!(t.connection_state(fwd), Some(ConnectionState::Reset));
    assert_eq!(t.connection_state(rev), Some(ConnectionState::Reset));
    // ACK with FIN is data: no state write.
    xnet(&mut t, &tcp_frame(A, B, 1234, 80, FIN | ACK), 40);
    assert_eq!(t.connection_state(fwd), Some(ConnectionState::Reset));
}

#[test]
fn reply_key_is_reverse_key() {
    let mut t = IngressTables::new();
    xnet(&mut t, &tcp_frame(B, A, 80, 1234, SYN), 60);
    let rev_of_request = generate_conn_key(B, A, 80, 1234);
    assert_eq!(t.connection_state(rev_of_request), Some(ConnectionState::New));
    assert_eq!(generate_conn_key(A, B, 1234, 80), 0x0ed2_0051_0a00_0002);
    assert_eq!(generate_conn_key(B, A, 80, 1234), 0x0a50_04d2_0a00_0001);
}

#[test]
fn truncated_frames_pass_unchanged() {
    let full = tcp_frame(A, B, 1234, 80, SYN);
    let mut t = IngressTables::new();
    let mut tc = TcTables::new();
    for cut in [0usize, 10, 13] {
        assert_eq!(xnet(&mut t, &full[..cut], 60), XDP_PASS);
        assert_eq!(xnet_tc(&mut tc, &full[..cut], 60, 1, true), TC_ACT_OK);
    }
    assert_eq!(tc.total_packets(), 0);
    // Ethernet header whole, IPv4 header cut: the classifier has counted
    // the packet globally, the ingress pipeline nothing.
    xnet(&mut t, &full[..30], 60);
    xnet_tc(&mut tc, &full[..30], 60, 1, true);
    assert_eq!(t.ip_bytes(A), None);
    assert_eq!(tc.total_packets(), 1);
    assert_eq!(tc.total_bytes(), 60);
    // TCP header cut: only the source address is charged.
    xnet(&mut t, &full[..40], 60);
    xnet_tc(&mut tc, &full[..40], 60, 1, true);
    assert_eq!(t.ip_bytes(A), Some(60));
    assert_eq!(t.connection_state(generate_conn_key(A, B, 1234, 80)), None);
    assert_eq!(t.connection_bytes(generate_conn_key(A, B, 1234, 80)), None);
    assert_eq!(tc.total_packets(), 2);
    assert!(tc.port_stats(1234).is_none());
}

#[test]
fn non_ipv4_frame_is_ignored() {
    let mut f = tcp_frame(A, B, 1234, 80, SYN);
    f[12] = 0x86;
    f[13] = 0xdd;
    let mut t = IngressTables::new();
    let mut tc = TcTables::new();
    xnet(&mut t, &f, 60);
    xnet_tc(&mut tc, &f, 60, 1, true);
    assert_eq!(t.ip_bytes(A), None);
    assert_eq!(tc.total_packets(), 0);
}

#[test]
fn packets_on_one_port_add_up() {
    let mut tc = TcTables::new();
    let lens = [64u64, 128, 1500, 9000, 1];
    for len in lens {
        xnet_tc(&mut tc, &udp_frame(A, B, 5353, 53), len, 1, true);
    }
    let st = tc.port_stats(53).unwrap();
    assert_eq!(st.packets, lens.len() as u64);
    assert_eq!(st.bytes, lens.iter().sum::<u64>());
}

#[test]
fn udp_charges_both_addresses() {
    let mut t = IngressTables::new();
    xnet(&mut t, &udp_frame(A, B, 5000, 53), 100);
    assert_eq!(t.ip_bytes(A), Some(200));
    assert_eq!(t.ip_bytes(B), Some(100));
    let mut tc = TcTables::new();
    xnet_tc(&mut tc, &udp_frame(A, B, 5000, 53), 100, 1, true);
    assert_eq!(tc.port_stats(5000).unwrap().bytes, 100);
    assert_eq!(tc.port_stats(53).unwrap().packets, 1);
}

#[test]
fn other_protocols_skip_port_stats() {
    let f = ipv4_frame(A, B, 1, &[8, 0, 0, 0, 0, 0, 0, 0]);
    let mut tc = TcTables::new();
    xnet_tc(&mut tc, &f, 84, 1, true);
    assert_eq!(tc.total_packets(), 1);
    assert!(tc.port_stats(0x0800).is_none());
    let mut t = IngressTables::new();
    xnet(&mut t, &f, 84);
    assert_eq!(t.ip_bytes(A), Some(84));
}

#[test]
fn full_address_table_drops_new_keys() {
    let mut t = IngressTables::new();
    for i in 0..1024u32 {
        assert!(t.update_ip_stats(i, 1).is_ok());
    }
    assert!(t.update_ip_stats(5000, 1).is_err());
    assert_eq!(t.ip_bytes(5000), None);
    assert!(t.update_ip_stats(7, 1).is_ok());
    assert_eq!(t.ip_bytes(7), Some(2));
}

#[test]
fn counters_saturate() {
    let mut t = IngressTables::new();
    assert!(t.update_ip_stats(1, u64::MAX - 1).is_ok());
    assert!(t.update_ip_stats(1, 10).is_ok());
    assert_eq!(t.ip_bytes(1), Some(u64::MAX));
}

#[test]
fn device_connection_record_takes_fresh_direction() {
    let mut tc = TcTables::new();
    assert!(tc.set_device_context(4, true));
    assert!(tc.update_device_connection_stats(4, 1000, 2000, true, 17, 10).is_ok());
    assert!(tc.update_device_connection_stats(4, 1000, 2000, true, 17, 15).is_ok());
    assert!(tc.update_device_connection_stats(4, 1000, 2001, true, 6, 1).is_ok());
    assert!(tc.update_device_connection_stats(5, 1000, 2000, true, 6, 1).is_ok());
    let recs = tc.query_device_connection_stats(4);
    assert_eq!(recs.len(), 2);
    let st = recs[0];
    assert_eq!((st.total_packets, st.total_bytes, st.direction, st.protocol), (2, 25, 0, 17));
    assert_eq!((recs[1].dst_port, recs[1].total_packets), (2001, 1));
}

#[test]
fn full_device_tables_swallow_new_keys() {
    let mut tc = TcTables::new();
    for id in 0..1024u32 {
        assert!(tc.update_device_stats(id, true, 1).is_ok());
        assert!(tc.update_device_connection_stats(id, 1, 2, true, 6, 1).is_ok());
    }
    // Both tables are full: a new key is dropped, yet the result is Ok.
    assert!(tc.update_device_stats(5000, true, 1).is_ok());
    assert!(tc.device_stats(10000).is_none());
    assert!(tc.update_device_connection_stats(5000, 1, 2, true, 6, 1).is_ok());
    assert!(tc.query_device_connection_stats(5000).is_empty());
    // An existing key still counts.
    assert!(tc.update_device_stats(3, true, 4).is_ok());
    assert_eq!(tc.device_stats(6).unwrap().packets, 2);
}

#[test]
fn globals_count_every_ipv4_frame() {
    let mut tc = TcTables::new();
    let f = tcp_frame(A, B, 1, 2, ACK);
    for len in [10u64, 20, 30] {
        xnet_tc(&mut tc, &f, len, 1, true);
        xnet_tc(&mut tc, &f[..20], len, 1, true);
    }
    assert_eq!(tc.total_packets(), 6);
    assert_eq!(tc.total_bytes(), 120);
    assert_eq!(tc.port_stats(1).unwrap().packets, 3);
    assert_eq!(tc.port_stats(1).unwrap().last_seen, 5);
}
