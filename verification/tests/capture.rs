use realms_core::capture::{conn_file_name, Capture, Direction, TickMetrics};

#[test]
fn capture_lifecycle_disabled_init_write_reopen_noop() {
    let mut c = Capture::new();
    assert!(!c.is_enabled());
    assert!(c.open_conn(1).is_none());
    assert!(!c.capture_conn(1, Direction::Inbound, b"abc"));
    assert!(!c.close_conn(1));

    c.init("dir".to_string());
    assert!(c.is_enabled());
    let (i, o) = c.open_conn(7).expect("enabled");
    assert_eq!(i, "conn_000007_in.bin");
    assert_eq!(o, "conn_000007_out.bin");
    c.register(7);
    assert!(c.capture_conn(7, Direction::Inbound, b"\xfd\x01"));
    assert!(c.capture_conn(7, Direction::Outbound, b"\xff\x0a"));
    assert!(!c.capture_conn(7, Direction::Inbound, b""), "empty data");
    assert!(c.close_conn(7));
    assert!(!c.capture_conn(8, Direction::Inbound, b"x"), "never opened");
    assert!(!c.capture_conn(3, Direction::Inbound, b"early"));
    c.register(3);
    assert!(c.capture_conn(3, Direction::Inbound, b"a"));
    c.close_conn(3);
    assert!(!c.capture_conn(3, Direction::Inbound, b"late"), "after close");
    c.register(3);
    assert!(c.capture_conn(3, Direction::Inbound, b"b"));

    c.init("dir2".to_string());
    assert_eq!(c.dir().map(|d| d.as_str()), Some("dir2"));
    assert!(!c.capture_conn(3, Direction::Inbound, b"b"), "re-init forgets connections");

    let m = TickMetrics {
        ticks: 3,
        intents_processed: 7,
        mobs_spawned: 11,
        mobs_despawned: 2,
        events_emitted: 5,
        last_tick_ms: 42,
    };
    let first = c.record_metrics(m, false).unwrap();
    let second = c.record_metrics(m, true).unwrap();
    let mut csv = String::from_utf8(first).unwrap();
    csv.push_str(&String::from_utf8(second).unwrap());
    let lines: Vec<&str> = csv.lines().collect();
    assert_eq!(lines.len(), 3);
    assert_eq!(lines[0], "ticks,intents_processed,mobs_spawned,mobs_despawned,events_emitted,tick_ms");
    assert_eq!(lines[1], "3,7,11,2,5,42");
    assert_eq!(lines[2], "3,7,11,2,5,42");
}

#[test]
fn direction_tags_and_file_names() {
    assert_eq!(Direction::Inbound.tag(), "in");
    assert_eq!(Direction::Outbound.tag(), "out");
    assert_eq!(conn_file_name(0, Direction::Inbound), "conn_000000_in.bin");
    assert_eq!(conn_file_name(1234567, Direction::Outbound), "conn_1234567_out.bin");
    assert_eq!(conn_file_name(u32::MAX, Direction::Inbound), "conn_4294967295_in.bin");
}

#[test]
fn disabled_capture_records_no_metrics() {
    let c = Capture::new();
    let m = TickMetrics { ticks: 0, intents_processed: 0, mobs_spawned: 0, mobs_despawned: 0, events_emitted: 0, last_tick_ms: 0 };
    assert!(c.record_metrics(m, false).is_none());
}
