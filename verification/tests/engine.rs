use netracer::admission::{classify_and_filter, AdmissionConfig};
use netracer::flow::Address;
use netracer::store::{FlowStore, RecordOutcome};

fn addr(src: &str, dst: &str, protocol: &str, port: &str) -> Address {
    Address {
        src: src.to_owned(),
        dst: dst.to_owned(),
        protocol: protocol.to_owned(),
        port: port.to_owned(),
    }
}

/// A minimal Ethernet+IPv4 frame with the given protocol and transport header.
fn ipv4_frame(proto: u8, src: [u8; 4], dst: [u8; 4], transport: &[u8]) -> Vec<u8> {
    let mut f = vec![0u8; 12];
    f.push(0x08);
    f.push(0x00);
    let mut ip = vec![0x45u8, 0, 0, 0, 0, 0, 0, 0, 64, proto, 0, 0];
    ip.extend_from_slice(&src);
    ip.extend_from_slice(&dst);
    f.extend_from_slice(&ip);
    f.extend_from_slice(transport);
    f
}

fn tcp_header(src_port: u16, dst_port: u16, flags: u8) -> Vec<u8> {
    let mut t = vec![0u8; 20];
    t[0] = (src_port >> 8) as u8;
    t[1] = (src_port & 0xff) as u8;
    t[2] = (dst_port >> 8) as u8;
    t[3] = (dst_port & 0xff) as u8;
    t[12] = 0x50;
    t[13] = flags;
    t
}

fn udp_header(src_port: u16, dst_port: u16) -> Vec<u8> {
    let mut t = vec![0u8; 8];
    t[0] = (src_port >> 8) as u8;
    t[1] = (src_port & 0xff) as u8;
    t[2] = (dst_port >> 8) as u8;
    t[3] = (dst_port & 0xff) as u8;
    t
}

#[test]
fn tcp_syn_is_admitted_with_canonical_key() {
    let frame = ipv4_frame(6, [10, 0, 0, 1], [192, 168, 1, 20], &tcp_header(40000, 80, 0x02));
    let cfg = AdmissionConfig { max_dst_udp_port: 65535, min_src_udp_port: 2048 };
    let key = classify_and_filter(&frame, &cfg).expect("SYN frame must be admitted");
    assert_eq!(key.src, "10.0.0.1");
    assert_eq!(key.dst, "192.168.1.20");
    assert_eq!(key.protocol, "TCP");
    assert_eq!(key.port, "80");
}

#[test]
fn tcp_syn_ack_is_never_admitted() {
    let frame = ipv4_frame(6, [10, 0, 0, 1], [192, 168, 1, 20], &tcp_header(80, 40000, 0x12));
    let cfg = AdmissionConfig { max_dst_udp_port: 65535, min_src_udp_port: 2048 };
    assert!(classify_and_filter(&frame, &cfg).is_none());
}

#[test]
fn tcp_plain_ack_is_not_admitted() {
    let frame = ipv4_frame(6, [10, 0, 0, 1], [192, 168, 1, 20], &tcp_header(40000, 80, 0x10));
    let cfg = AdmissionConfig { max_dst_udp_port: 65535, min_src_udp_port: 2048 };
    assert!(classify_and_filter(&frame, &cfg).is_none());
}

#[test]
fn udp_high_destination_port_is_rejected_regardless_of_source() {
    let cfg = AdmissionConfig { max_dst_udp_port: 49151, min_src_udp_port: 1024 };
    for src_port in [1u16, 1024, 2000, 65535] {
        let frame = ipv4_frame(17, [10, 0, 0, 1], [10, 0, 0, 2], &udp_header(src_port, 50000));
        assert!(classify_and_filter(&frame, &cfg).is_none());
    }
}

#[test]
fn udp_low_destination_port_from_high_source_is_admitted() {
    let cfg = AdmissionConfig { max_dst_udp_port: 49151, min_src_udp_port: 1024 };
    let frame = ipv4_frame(17, [10, 0, 0, 1], [10, 0, 0, 2], &udp_header(2000, 80));
    let key = classify_and_filter(&frame, &cfg).expect("in-range UDP frame must be admitted");
    assert_eq!(key.protocol, "UDP");
    assert_eq!(key.port, "80");
}

#[test]
fn udp_low_source_port_is_rejected() {
    let cfg = AdmissionConfig { max_dst_udp_port: 49151, min_src_udp_port: 1024 };
    let frame = ipv4_frame(17, [10, 0, 0, 1], [10, 0, 0, 2], &udp_header(53, 80));
    assert!(classify_and_filter(&frame, &cfg).is_none());
}

#[test]
fn non_ipv4_and_malformed_frames_are_dropped() {
    let cfg = AdmissionConfig { max_dst_udp_port: 65535, min_src_udp_port: 2048 };
    // Too short for an Ethernet header.
    assert!(classify_and_filter(&[0u8; 10], &cfg).is_none());
    // ARP ethertype.
    let mut arp = vec![0u8; 12];
    arp.extend_from_slice(&[0x08, 0x06]);
    arp.extend_from_slice(&[0u8; 28]);
    assert!(classify_and_filter(&arp, &cfg).is_none());
    // IPv4 but ICMP.
    let frame = ipv4_frame(1, [10, 0, 0, 1], [10, 0, 0, 2], &[0u8; 8]);
    assert!(classify_and_filter(&frame, &cfg).is_none());
    // IPv4 TCP with a truncated transport header.
    let frame = ipv4_frame(6, [10, 0, 0, 1], [10, 0, 0, 2], &[0u8; 10]);
    assert!(classify_and_filter(&frame, &cfg).is_none());
}

#[test]
fn ipv4_options_shift_the_transport_header() {
    // IHL of 6: one 32-bit option word before the TCP header.
    let mut f = vec![0u8; 12];
    f.push(0x08);
    f.push(0x00);
    let mut ip = vec![0x46u8, 0, 0, 0, 0, 0, 0, 0, 64, 6, 0, 0];
    ip.extend_from_slice(&[10, 0, 0, 1]);
    ip.extend_from_slice(&[10, 0, 0, 2]);
    ip.extend_from_slice(&[0, 0, 0, 0]);
    f.extend_from_slice(&ip);
    f.extend_from_slice(&tcp_header(40000, 443, 0x02));
    let cfg = AdmissionConfig { max_dst_udp_port: 65535, min_src_udp_port: 2048 };
    let key = classify_and_filter(&f, &cfg).expect("SYN behind options must be admitted");
    assert_eq!(key.port, "443");
}

#[test]
fn recording_twice_keeps_the_first_timestamp() {
    let mut store = FlowStore::new();
    let k = addr("10.0.0.1", "192.168.1.20", "TCP", "80");
    let first = store.record(addr("10.0.0.1", "192.168.1.20", "TCP", "80"), 100);
    assert!(matches!(first, RecordOutcome::Inserted));
    let second = store.record(addr("10.0.0.1", "192.168.1.20", "TCP", "80"), 200);
    assert!(matches!(second, RecordOutcome::AlreadyPresent));
    let rows = store.scan_all();
    assert_eq!(rows.len(), 1);
    assert!(rows[0].addr.same_flow(&k));
    assert_eq!(rows[0].time, 100);
    assert_eq!(rows[0].max_speed, 0);
    assert_eq!(rows[0].avg_speed, 0);
}

#[test]
fn keys_differing_only_in_port_are_two_flows() {
    let mut store = FlowStore::new();
    let first = store.record(addr("10.0.0.1", "192.168.1.20", "TCP", "80"), 100);
    let second = store.record(addr("10.0.0.1", "192.168.1.20", "TCP", "443"), 100);
    assert!(matches!(first, RecordOutcome::Inserted));
    assert!(matches!(second, RecordOutcome::Inserted));
    assert_eq!(store.scan_all().len(), 2);
}

#[test]
fn contains_follows_the_recorded_keys() {
    let mut store = FlowStore::new();
    let k = addr("10.0.0.1", "10.0.0.2", "UDP", "53");
    assert!(!store.contains(&k));
    store.record(addr("10.0.0.1", "10.0.0.2", "UDP", "53"), 7);
    assert!(store.contains(&k));
    assert!(!store.contains(&addr("10.0.0.1", "10.0.0.2", "UDP", "54")));
}

#[test]
fn capture_path_end_to_end() {
    // A SYN, its retransmission, and a distinct flow on another port.
    let cfg = AdmissionConfig { max_dst_udp_port: 65535, min_src_udp_port: 2048 };
    let mut store = FlowStore::new();
    let frames = [
        ipv4_frame(6, [10, 0, 0, 1], [192, 168, 1, 20], &tcp_header(40000, 80, 0x02)),
        ipv4_frame(6, [10, 0, 0, 1], [192, 168, 1, 20], &tcp_header(40001, 80, 0x02)),
        ipv4_frame(6, [10, 0, 0, 1], [192, 168, 1, 20], &tcp_header(40000, 443, 0x02)),
    ];
    let mut t = 0u64;
    for frame in &frames {
        if let Some(key) = classify_and_filter(frame, &cfg) {
            store.record(key, t);
        }
        t += 1;
    }
    let rows = store.scan_all();
    assert_eq!(rows.len(), 2);
    assert_eq!(rows[0].addr.port, "80");
    assert_eq!(rows[0].time, 0);
    assert_eq!(rows[1].addr.port, "443");
    assert_eq!(rows[1].time, 2);
}

#[test]
fn to_key_joins_the_four_fields() {
    let k = addr("10.0.0.1", "192.168.1.20", "TCP", "80");
    assert_eq!(k.to_key(), "10.0.0.1_192.168.1.20_TCP_80");
}

#[test]
fn key_names_is_the_single_index_name() {
    let names = Address::key_names();
    assert_eq!(names.len(), 1);
    assert_eq!(names[0], "Address");
}

#[test]
fn default_config_matches_the_documented_bounds() {
    let cfg = AdmissionConfig::default();
    assert_eq!(cfg.max_dst_udp_port, 65535);
    assert_eq!(cfg.min_src_udp_port, 2048);
}
