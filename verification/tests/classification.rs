//! Classification, malformed input, and configuration resolution.

use shredder::engine::{process_packet, PacketDisposition};
use shredder::packet::{parse, ParseError};
use shredder::table::{
    resolve_config, AddressTable, Application, ConfigError, ConfigFile, Direction,
    MAX_WORKER_THREADS,
};

fn ip(a: u8, b: u8, c: u8, d: u8) -> u32 {
    ((a as u32) << 24) | ((b as u32) << 16) | ((c as u32) << 8) | (d as u32)
}

fn app(name: &str, dest: u32, phony: Option<u32>, origin: Option<u32>) -> Application {
    Application {
        name: name.to_string(),
        dest,
        phony,
        origin,
        ports: None,
        state: 0,
    }
}

fn minimal_packet(src: [u8; 4], dst: [u8; 4], protocol: u8) -> Vec<u8> {
    let mut p = vec![0u8; 20];
    p[0] = 0x45;
    p[2] = 0;
    p[3] = 20;
    p[9] = protocol;
    p[12..16].copy_from_slice(&src);
    p[16..20].copy_from_slice(&dst);
    p
}

#[test]
fn buffer_shorter_than_header_is_malformed() {
    let table = AddressTable::resolve(vec![], ip(10, 0, 0, 5), ip(10, 0, 0, 1), 10).unwrap();
    let short = vec![0x45u8; 19];
    assert_eq!(parse(&short), Err(ParseError::Malformed));
    assert!(matches!(
        process_packet(&table, short),
        PacketDisposition::Malformed
    ));
}

#[test]
fn header_length_past_buffer_is_malformed() {
    // IHL of 15 words claims a 60-byte header in a 20-byte buffer.
    let mut p = minimal_packet([10, 0, 0, 5], [10, 0, 0, 10], 6);
    p[0] = 0x4F;
    assert_eq!(parse(&p), Err(ParseError::Malformed));
}

#[test]
fn total_length_past_buffer_is_malformed() {
    let mut p = minimal_packet([10, 0, 0, 5], [10, 0, 0, 10], 6);
    p[3] = 21;
    assert_eq!(parse(&p), Err(ParseError::Malformed));
}

#[test]
fn header_length_below_minimum_is_malformed() {
    let mut p = minimal_packet([10, 0, 0, 5], [10, 0, 0, 10], 6);
    p[0] = 0x44;
    assert_eq!(parse(&p), Err(ParseError::Malformed));
}

#[test]
fn unmatched_packet_is_dropped() {
    let apps = vec![app("a", ip(93, 184, 216, 34), None, None)];
    let table = AddressTable::resolve(apps, ip(10, 0, 0, 5), ip(10, 0, 0, 1), 10).unwrap();
    let p = minimal_packet([10, 0, 0, 7], [10, 0, 0, 10], 6);
    assert!(matches!(
        process_packet(&table, p),
        PacketDisposition::NoMatch
    ));
}

#[test]
fn matched_non_tcp_is_recognized_and_dropped() {
    let apps = vec![app("a", ip(93, 184, 216, 34), None, None)];
    let table = AddressTable::resolve(apps, ip(10, 0, 0, 5), ip(10, 0, 0, 1), 10).unwrap();
    let p = minimal_packet([10, 0, 0, 5], [10, 0, 0, 10], 17);
    assert!(matches!(
        process_packet(&table, p),
        PacketDisposition::Ignored { app_index: 0 }
    ));
}

#[test]
fn lookup_picks_first_matching_entry() {
    let apps = vec![
        app("first", ip(93, 184, 216, 34), Some(ip(10, 0, 0, 10)), Some(ip(10, 0, 0, 5))),
        app("second", ip(93, 184, 216, 35), Some(ip(10, 0, 0, 11)), Some(ip(10, 0, 0, 5))),
    ];
    let table = AddressTable::resolve(apps, ip(10, 0, 0, 5), ip(10, 0, 0, 1), 10).unwrap();
    assert_eq!(
        table.lookup(ip(10, 0, 0, 5), ip(10, 0, 0, 10)),
        Some((0, Direction::Outbound))
    );
    assert_eq!(
        table.lookup(ip(93, 184, 216, 35), ip(10, 0, 0, 11)),
        Some((1, Direction::Inbound))
    );
    assert_eq!(table.lookup(ip(10, 0, 0, 5), ip(10, 0, 0, 12)), None);
}

#[test]
fn duplicate_phony_is_rejected() {
    let apps = vec![
        app("a", ip(93, 184, 216, 34), Some(ip(10, 0, 0, 10)), None),
        app("b", ip(93, 184, 216, 35), Some(ip(10, 0, 0, 10)), None),
    ];
    let r = AddressTable::resolve(apps, ip(10, 0, 0, 5), ip(10, 0, 0, 1), 10);
    assert!(matches!(r, Err(ConfigError::DuplicateMapping)));
}

#[test]
fn phony_range_cannot_run_past_last_octet() {
    let apps = vec![
        app("a", ip(93, 184, 216, 34), None, None),
        app("b", ip(93, 184, 216, 35), None, None),
    ];
    let r = AddressTable::resolve(apps, ip(10, 0, 0, 5), ip(10, 0, 0, 1), 255);
    assert!(matches!(r, Err(ConfigError::PhonyRangeExhausted)));
}

fn base_config(num_threads: usize, phony_range_start: Option<u8>) -> ConfigFile {
    ConfigFile {
        name: "shredder-tun".to_string(),
        num_threads,
        origin: ip(10, 0, 0, 5),
        address: ip(10, 0, 0, 1),
        subnet_mask: ip(255, 255, 255, 0),
        mtu: 1500,
        phony_range_start,
        applications: vec![app("a", ip(93, 184, 216, 34), None, None)],
    }
}

#[test]
fn thread_limit_is_enforced() {
    let r = resolve_config(base_config(MAX_WORKER_THREADS + 1, Some(10)));
    assert!(matches!(r, Err(ConfigError::ThreadLimitExceeded)));
    assert!(resolve_config(base_config(MAX_WORKER_THREADS, Some(10))).is_ok());
}

#[test]
fn default_range_start_is_one_past_interface_address() {
    let rc = resolve_config(base_config(4, None)).unwrap();
    assert_eq!(rc.phony_range_start, 2);
    assert_eq!(rc.table.entry(0).phony, ip(10, 0, 0, 2));
    assert_eq!(rc.num_threads, 4);
    assert_eq!(rc.mtu, 1500);
}

#[test]
fn explicit_addresses_are_kept() {
    let mut c = base_config(4, Some(10));
    c.applications = vec![app(
        "a",
        ip(93, 184, 216, 34),
        Some(ip(10, 0, 0, 77)),
        Some(ip(10, 0, 0, 6)),
    )];
    let rc = resolve_config(c).unwrap();
    assert_eq!(rc.table.entry(0).phony, ip(10, 0, 0, 77));
    assert_eq!(rc.table.entry(0).origin, ip(10, 0, 0, 6));
}
