//! Rewriting and checksum behaviour on concrete packets.

use shredder::checksum::checksum_range;
use shredder::engine::{process_packet, PacketDisposition};
use shredder::packet::parse;
use shredder::rewrite::rewrite;
use shredder::table::{AddressTable, Application, Direction};

fn ip(a: u8, b: u8, c: u8, d: u8) -> u32 {
    ((a as u32) << 24) | ((b as u32) << 16) | ((c as u32) << 8) | (d as u32)
}

/// Independent one's-complement check: sums the 16-bit big-endian words of
/// `bytes` (odd trailing byte padded with zero) and folds the carries.
fn fold_words(chunks: &[&[u8]]) -> u16 {
    let mut sum: u64 = 0;
    for bytes in chunks {
        let mut i = 0;
        while i + 1 < bytes.len() {
            sum += 256 * (bytes[i] as u64) + bytes[i + 1] as u64;
            i += 2;
        }
        if i < bytes.len() {
            sum += 256 * (bytes[i] as u64);
        }
    }
    while sum > 0xFFFF {
        sum = (sum & 0xFFFF) + (sum >> 16);
    }
    sum as u16
}

/// A 40-byte SYN: 20-byte IP header, 20-byte TCP header, no payload.
fn syn_packet(src: [u8; 4], dst: [u8; 4]) -> Vec<u8> {
    let mut p = vec![
        0x45, 0x00, 0x00, 0x28, // version/IHL, TOS, total length 40
        0x00, 0x00, 0x00, 0x00, // identification, flags/fragment
        0x40, 0x06, 0x00, 0x00, // TTL 64, protocol TCP, checksum 0
        0, 0, 0, 0, // source
        0, 0, 0, 0, // destination
        0x1F, 0x90, 0x00, 0x50, // ports 8080 -> 80
        0x00, 0x00, 0x00, 0x01, // sequence number
        0x00, 0x00, 0x00, 0x00, // acknowledgment number
        0x50, 0x02, 0x72, 0x10, // data offset 5, SYN, window
        0x00, 0x00, 0x00, 0x00, // checksum 0, urgent pointer
    ];
    p[12..16].copy_from_slice(&src);
    p[16..20].copy_from_slice(&dst);
    p
}

fn example_table() -> AddressTable {
    let apps = vec![Application {
        name: "example".to_string(),
        dest: ip(93, 184, 216, 34),
        phony: None,
        origin: None,
        ports: None,
        state: 0,
    }];
    AddressTable::resolve(apps, ip(10, 0, 0, 5), ip(10, 0, 0, 1), 10).unwrap()
}

#[test]
fn resolved_phony_takes_table_position() {
    let table = example_table();
    assert_eq!(table.len(), 1);
    assert_eq!(table.entry(0).phony, ip(10, 0, 0, 10));
    assert_eq!(table.entry(0).origin, ip(10, 0, 0, 5));
    assert_eq!(table.entry(0).dest, ip(93, 184, 216, 34));
}

#[test]
fn ip_checksum_known_value() {
    let header: Vec<u8> = vec![
        0x45, 0x00, 0x00, 0x3C, 0x1C, 0x46, 0x40, 0x00, 0x40, 0x06, 0x00, 0x00, 0xAC, 0x10,
        0x0A, 0x63, 0xAC, 0x10, 0x0A, 0x0C,
    ];
    assert_eq!(checksum_range(&header, 0, 20), 0xB1E6);
}

#[test]
fn outbound_syn_scenario() {
    // An outbound SYN from the origin, addressed (after the firewall's
    // destination rewrite) to the phony, leaves as phony -> peer with both
    // checksums freshly computed.
    let table = example_table();
    let packet = syn_packet([10, 0, 0, 5], [10, 0, 0, 10]);
    match process_packet(&table, packet) {
        PacketDisposition::Forward { app_index, direction, packet: out } => {
            assert_eq!(app_index, 0);
            assert_eq!(direction, Direction::Outbound);
            assert_eq!(&out[12..16], &[10, 0, 0, 10][..]);
            assert_eq!(&out[16..20], &[93, 184, 216, 34][..]);
            // lengths and payload shape untouched
            assert_eq!(out.len(), 40);
            assert_eq!(&out[0..10], &syn_packet([0, 0, 0, 0], [0, 0, 0, 0])[0..10]);
            // exact recomputed checksums
            assert_eq!(&out[10..12], &[0x3A, 0xEC][..]);
            assert_eq!(&out[36..38], &[0xDE, 0x0C][..]);
        }
        _ => panic!("expected a forwarded packet"),
    }
}

#[test]
fn final_header_words_fold_to_all_ones() {
    let table = example_table();
    let packet = syn_packet([10, 0, 0, 5], [10, 0, 0, 10]);
    match process_packet(&table, packet) {
        PacketDisposition::Forward { packet: out, .. } => {
            // IP header verification over the final bytes
            assert_eq!(fold_words(&[&out[0..20]]), 0xFFFF);
            // TCP verification: pseudo-header of the final addresses,
            // protocol and segment length, then the final segment
            let pseudo = [
                out[12], out[13], out[14], out[15], out[16], out[17], out[18], out[19], 0, 6,
                0x00, 0x14,
            ];
            assert_eq!(fold_words(&[&pseudo, &out[20..40]]), 0xFFFF);
        }
        _ => panic!("expected a forwarded packet"),
    }
}

#[test]
fn inbound_reply_rewritten_to_origin() {
    let table = example_table();
    let reply = syn_packet([93, 184, 216, 34], [10, 0, 0, 10]);
    match process_packet(&table, reply) {
        PacketDisposition::Forward { app_index, direction, packet: out } => {
            assert_eq!(app_index, 0);
            assert_eq!(direction, Direction::Inbound);
            assert_eq!(&out[12..16], &[10, 0, 0, 10][..]);
            assert_eq!(&out[16..20], &[10, 0, 0, 5][..]);
            assert_eq!(fold_words(&[&out[0..20]]), 0xFFFF);
        }
        _ => panic!("expected a forwarded packet"),
    }
}

#[test]
fn round_trip_payload_unchanged() {
    // Outbound request and synthetic reply each carry a payload; rewriting
    // in both directions delivers the conversation's bytes unchanged.
    let table = example_table();

    let mut request = syn_packet([10, 0, 0, 5], [10, 0, 0, 10]);
    request.extend_from_slice(b"hello");
    request[3] = 45; // total length 40 + 5
    let mut reply = syn_packet([93, 184, 216, 34], [10, 0, 0, 10]);
    reply.extend_from_slice(b"world");
    reply[3] = 45;

    match process_packet(&table, request) {
        PacketDisposition::Forward { packet: out, .. } => {
            assert_eq!(&out[40..45], &b"hello"[..]);
            assert_eq!(&out[20..36], &syn_packet([0, 0, 0, 0], [0, 0, 0, 0])[20..36]);
        }
        _ => panic!("expected a forwarded packet"),
    }
    match process_packet(&table, reply) {
        PacketDisposition::Forward { packet: back, .. } => {
            assert_eq!(&back[40..45], &b"world"[..]);
            assert_eq!(&back[20..36], &syn_packet([0, 0, 0, 0], [0, 0, 0, 0])[20..36]);
        }
        _ => panic!("expected a forwarded packet"),
    }
}

#[test]
fn tcp_too_short_gets_ip_rewrite_only() {
    // Protocol says TCP but the declared length has no room for a TCP
    // header: the IP layer is still rewritten and the rest left alone.
    let table = example_table();
    let mut packet = syn_packet([10, 0, 0, 5], [10, 0, 0, 10]);
    packet.truncate(24);
    packet[3] = 24; // total length 24: only 4 payload bytes
    match process_packet(&table, packet) {
        PacketDisposition::Forward { packet: out, .. } => {
            assert_eq!(&out[12..16], &[10, 0, 0, 10][..]);
            assert_eq!(&out[16..20], &[93, 184, 216, 34][..]);
            assert_eq!(fold_words(&[&out[0..20]]), 0xFFFF);
            // the four trailing bytes kept as they were
            assert_eq!(&out[20..24], &[0x1F, 0x90, 0x00, 0x50][..]);
        }
        _ => panic!("expected a forwarded packet"),
    }
}

#[test]
fn direct_rewrite_matches_directions() {
    let table = example_table();
    let mut outbound = syn_packet([10, 0, 0, 5], [10, 0, 0, 10]);
    rewrite(&mut outbound, table.entry(0), Direction::Outbound);
    assert_eq!(&outbound[12..16], &[10, 0, 0, 10][..]);
    assert_eq!(&outbound[16..20], &[93, 184, 216, 34][..]);

    let mut inbound = syn_packet([93, 184, 216, 34], [10, 0, 0, 10]);
    rewrite(&mut inbound, table.entry(0), Direction::Inbound);
    assert_eq!(&inbound[12..16], &[10, 0, 0, 10][..]);
    assert_eq!(&inbound[16..20], &[10, 0, 0, 5][..]);
}

#[test]
fn parse_extracts_fields() {
    let packet = syn_packet([10, 0, 0, 5], [10, 0, 0, 10]);
    let h = parse(&packet).unwrap();
    assert_eq!(h.version, 4);
    assert_eq!(h.ihl, 5);
    assert_eq!(h.total_length, 40);
    assert_eq!(h.protocol, 6);
    assert_eq!(h.source, ip(10, 0, 0, 5));
    assert_eq!(h.destination, ip(10, 0, 0, 10));
    let tcp = h.tcp.unwrap();
    assert_eq!(tcp.source_port, 8080);
    assert_eq!(tcp.destination_port, 80);
}
