use realms_core::entry::{
    channel_status_packet, check_name, create_check, delete_allowed, empire_byte, empire_check,
    first_packet, job_initial_points, new_character_stats, parse_listen, race_to_job,
    random_empire_byte, rename_check, select_kind, CreateCheck, EmpireCheck, FirstPacket,
    ListenError, RenameCheck, SelectKind, CG_CHANGE_NAME, CG_CHARACTER_CREATE,
    CG_CHARACTER_DELETE, CG_CHARACTER_SELECT, CG_EMPIRE, CG_PONG, CG_TIME_SYNC,
    GC_RESPOND_CHANNELSTATUS,
};
use realms_core::random::RandomSource;

fn empire_byte_checks() {
    let mut rng = RandomSource::new();
    assert_eq!(random_empire_byte(&mut rng, Some(1)), 1);
    assert_eq!(random_empire_byte(&mut rng, Some(3)), 3);
    assert_eq!(random_empire_byte(&mut rng, Some(2)), 2);
    for src in [None, Some(0), Some(4), Some(-1)] {
        let e = random_empire_byte(&mut rng, src);
        assert!((1..=3).contains(&e), "empire random 1..3: {e} ({src:?})");
    }
    let mut seen = std::collections::HashSet::new();
    for _ in 0..50 {
        seen.insert(random_empire_byte(&mut rng, None));
    }
    assert!(seen.len() >= 2, "{seen:?}");
}

#[test]
fn channel_empire_byte_parity() {
    empire_byte_checks();
}

#[test]
fn entry_empire_byte_parity() {
    empire_byte_checks();
}

#[test]
fn empire_byte_exact_values() {
    assert_eq!(empire_byte(None, 0), 1);
    assert_eq!(empire_byte(None, 1), 2);
    assert_eq!(empire_byte(Some(0), 5), 3);
    assert_eq!(empire_byte(Some(2), 5), 2);
}

fn rand32_body() {
    let mut rng = RandomSource::new();
    for _ in 0..100 {
        assert_ne!(rng.rand32(), 0);
    }
}

#[test]
fn channel_rand32_never_zero() {
    rand32_body();
}

#[test]
fn mod_rand32_never_zero() {
    rand32_body();
}

fn parse_listen_body() {
    assert_eq!(parse_listen("172.25.104.175:30003").unwrap(), ("172.25.104.175".to_string(), 30003));
    assert_eq!(parse_listen("127.0.0.1:0").unwrap().1, 0);
    assert!(parse_listen("sinpuerto").is_err());
    assert!(parse_listen("a:b:c").is_err());
}

#[test]
fn channel_parse_listen_addr_port() {
    parse_listen_body();
}

#[test]
fn mod_parse_listen_addr_port() {
    parse_listen_body();
}

#[test]
fn parse_listen_errors_and_edges() {
    assert_eq!(parse_listen("sinpuerto"), Err(ListenError::NoPort));
    assert_eq!(parse_listen("a:b:c"), Err(ListenError::BadPort));
    assert_eq!(parse_listen("h:65536"), Err(ListenError::BadPort));
    assert_eq!(parse_listen("h:"), Err(ListenError::BadPort));
    assert_eq!(parse_listen("h:+7").unwrap().1, 7);
    assert_eq!(parse_listen("::1:8080").unwrap(), ("::1".to_string(), 8080));
}

#[test]
fn select_kind_accepts_lane_e_headers() {
    assert_eq!(select_kind(CG_CHARACTER_CREATE), SelectKind::Create);
    assert_eq!(select_kind(CG_CHARACTER_DELETE), SelectKind::Delete);
    assert_eq!(select_kind(CG_EMPIRE), SelectKind::Empire);
    assert_eq!(select_kind(CG_CHANGE_NAME), SelectKind::ChangeName);
    assert_eq!(select_kind(CG_CHARACTER_SELECT), SelectKind::Select);
    assert_eq!(select_kind(CG_TIME_SYNC), SelectKind::Keepalive);
    assert_eq!(select_kind(CG_PONG), SelectKind::Keepalive);
    assert_eq!(select_kind(0x7f), SelectKind::Other);
}

#[test]
fn check_name_validation() {
    assert!(check_name("Warrior"));
    assert!(check_name("a1B2"));
    assert!(check_name(&"x".repeat(24)));
    assert!(!check_name(""));
    assert!(!check_name("a"));
    assert!(!check_name(&"x".repeat(25)));
    assert!(!check_name("Warrior!"));
    assert!(!check_name("War rior"));
    assert!(!check_name("ñandu"));
}

#[test]
fn race_to_job_parity() {
    assert_eq!(race_to_job(0), Some(0));
    assert_eq!(race_to_job(4), Some(0));
    assert_eq!(race_to_job(1), Some(1));
    assert_eq!(race_to_job(5), Some(1));
    assert_eq!(race_to_job(2), Some(2));
    assert_eq!(race_to_job(6), Some(2));
    assert_eq!(race_to_job(3), Some(3));
    assert_eq!(race_to_job(7), Some(3));
    assert_eq!(race_to_job(8), None);
    assert_eq!(race_to_job(255), None);
}

#[test]
fn job_initial_points_parity() {
    let (st, ht, dx, iq, max_hp, max_sp, hph, sph, stamina) = job_initial_points(0);
    assert_eq!((st, ht, dx, iq), (6, 4, 3, 3));
    assert_eq!(max_hp + i32::from(ht) * hph, 760);
    assert_eq!(max_sp + i32::from(iq) * sph, 260);
    assert_eq!(stamina, 800);
    let (st, ht, dx, iq, max_hp, max_sp, hph, sph, _) = job_initial_points(1);
    assert_eq!((st, ht, dx, iq), (4, 3, 6, 3));
    assert_eq!(max_hp + i32::from(ht) * hph, 770);
    assert_eq!(max_sp + i32::from(iq) * sph, 260);
    let (st, ht, dx, iq, max_hp, _, hph, _, _) = job_initial_points(2);
    assert_eq!((st, ht, dx, iq), (5, 3, 3, 5));
    assert_eq!(max_hp + i32::from(ht) * hph, 770);
    let (st, ht, dx, iq, max_hp, _, hph, _, _) = job_initial_points(3);
    assert_eq!((st, ht, dx, iq), (3, 4, 3, 6));
    assert_eq!(max_hp + i32::from(ht) * hph, 860);
    let s = new_character_stats(3);
    assert_eq!((s.hp, s.mp, s.stamina), (860, 320, 800));
}

#[test]
fn channel_status_packet_wire() {
    let pkt = channel_status_packet("127.0.0.1:30003", false);
    assert_eq!(pkt.len(), 9);
    assert_eq!(pkt[0], GC_RESPOND_CHANNELSTATUS);
    assert_eq!(i32::from_le_bytes([pkt[1], pkt[2], pkt[3], pkt[4]]), 1);
    assert_eq!(u16::from_le_bytes([pkt[5], pkt[6]]), 30003);
    assert_eq!(pkt[7], 1);
    assert_eq!(pkt[8], 1);
    let off = channel_status_packet("127.0.0.1:30003", true);
    assert_eq!(off[7], 0);
    assert_eq!(channel_status_packet("", false)[5..7], [0, 0]);
}

#[test]
fn first_packet_of_a_connection() {
    assert_eq!(first_packet(0xfc), FirstPacket::Keepalive);
    assert_eq!(first_packet(0x64), FirstPacket::MarkConnection);
    assert_eq!(first_packet(0x68), FirstPacket::MarkConnection);
    assert_eq!(first_packet(0xce), FirstPacket::StateCheck);
    assert_eq!(first_packet(111), FirstPacket::Login);
    assert_eq!(first_packet(0x01), FirstPacket::Unexpected);
}

#[test]
fn create_checks_in_order() {
    assert_eq!(create_check(5, "Good", 0, 0, "acc"), CreateCheck::Close);
    assert_eq!(create_check(0, "a", 0, 0, "acc"), CreateCheck::Fail(0));
    assert_eq!(create_check(0, "Good", 2, 0, "acc"), CreateCheck::Fail(0));
    assert_eq!(create_check(0, "Good", 1, 8, "acc"), CreateCheck::Fail(0));
    assert_eq!(create_check(0, "acc", 0, 0, "acc"), CreateCheck::Fail(1));
    assert_eq!(create_check(4, "Good", 1, 6, "acc"), CreateCheck::Proceed(2));
}

#[test]
fn delete_needs_the_social_id_tail() {
    let mut code = [0u8; 8];
    code[..7].copy_from_slice(b"4567890");
    assert!(delete_allowed(0, true, "1234567890", &code));
    assert!(!delete_allowed(0, false, "1234567890", &code), "empty slot");
    assert!(!delete_allowed(5, true, "1234567890", &code), "slot out of range");
    assert!(!delete_allowed(0, true, "123456", &code), "short social id");
    let mut short = [0u8; 8];
    short[..6].copy_from_slice(b"456789");
    assert!(!delete_allowed(0, true, "1234567890", &short), "short code");
}

#[test]
fn empire_and_rename_checks() {
    assert_eq!(empire_check(4, None, false), EmpireCheck::Close);
    assert_eq!(empire_check(2, Some(1), true), EmpireCheck::Close);
    assert_eq!(empire_check(2, Some(1), false), EmpireCheck::Proceed);
    assert_eq!(empire_check(0, Some(0), true), EmpireCheck::Proceed);
    assert_eq!(rename_check(5, true, true, "Good"), RenameCheck::Close);
    assert_eq!(rename_check(0, false, true, "Good"), RenameCheck::Close);
    assert_eq!(rename_check(0, true, false, "Good"), RenameCheck::Ignore);
    assert_eq!(rename_check(0, true, true, "x"), RenameCheck::Fail(0));
    assert_eq!(rename_check(0, true, true, "Good"), RenameCheck::Proceed);
}
