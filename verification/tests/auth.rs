use realms_core::auth::{
    auth_packet, auth_reply, auth_reply_parts, encode_channel_list, AuthReplyPart, panama_key, ActiveLogins, AuthPacket, ChannelCfg,
    LoginKeys, LoginRefusal, GC_CHANNEL_LIST,
};
use realms_core::login::{extract_lang, is_valid_login_string, normalize_login};

#[test]
fn login_string_validation_parity() {
    assert!(is_valid_login_string("test"));
    assert!(is_valid_login_string("ab"));
    assert!(!is_valid_login_string("a"));
    assert!(!is_valid_login_string(""));
    assert!(!is_valid_login_string("a b"));
    assert!(!is_valid_login_string("test_"));
    assert!(!is_valid_login_string("tést"));
}

#[test]
fn normalize_login_trim_and_lower() {
    let mut raw = [0u8; 31];
    raw[..6].copy_from_slice(b" Test ");
    assert_eq!(normalize_login(&raw), "test");
    let mut raw2 = [0u8; 31];
    raw2[..4].copy_from_slice(b"TEST");
    raw2[4] = 0;
    assert_eq!(normalize_login(&raw2), "test");
}

#[test]
fn extract_lang_parity() {
    assert_eq!(extract_lang(b"es\0"), Some("es".into()));
    assert_eq!(extract_lang(b"ES\0"), Some("es".into()));
    assert_eq!(extract_lang(b"de\0"), Some("de".into()));
    assert_eq!(extract_lang(b"\0\0\0"), None);
    assert_eq!(extract_lang(b"a\0\0"), None);
    assert_eq!(extract_lang(b"esx"), None);
    assert_eq!(extract_lang(b"e1\0"), None);
}

#[test]
fn login_key_never_zero_and_unique() {
    let mut keys = LoginKeys::new();
    let k1 = keys.unique_login_key();
    let k2 = keys.unique_login_key();
    assert_ne!(k1, 0);
    assert_ne!(k1, k2);
    assert!(k1 <= i32::MAX as u32, "1..INT_MAX");
}

#[test]
fn channel_list_wire_exact() {
    let channels = vec![ChannelCfg {
        name: "CH-1".into(),
        ip: "172.25.104.175".into(),
        port: 30003,
        players: 7,
    }];
    let b = encode_channel_list(&channels, 100, 200, 300);
    assert_eq!(b.len(), 152);
    assert_eq!(b[0], GC_CHANNEL_LIST);
    assert_eq!(b[1], 1);
    assert_eq!(u16::from_le_bytes([b[2], b[3]]), 100);
    assert_eq!(u16::from_le_bytes([b[4], b[5]]), 200);
    assert_eq!(u16::from_le_bytes([b[6], b[7]]), 300);
    assert_eq!(&b[8..13], b"CH-1\0");
    assert_eq!(&b[8 + 16..8 + 16 + 15], b"172.25.104.175\0");
    assert_eq!(u16::from_le_bytes([b[8 + 32], b[8 + 33]]), 30003);
    assert_eq!(u16::from_le_bytes([b[8 + 34], b[8 + 35]]), 7);
    assert!(b[8 + 36..].iter().all(|&x| x == 0));
}

#[test]
fn channel_list_truncates() {
    let channels = (0..6)
        .map(|i| ChannelCfg {
            name: format!("channel-number-{i}"),
            ip: "172.255.255.255".into(),
            port: 30_000 + i as u16,
            players: 0,
        })
        .collect::<Vec<_>>();
    let b = encode_channel_list(&channels, 100, 100, 100);
    assert_eq!(b[1], 4);
    assert_eq!(&b[8..23], b"channel-number-");
    assert_eq!(&b[8 + 3 * 36..8 + 3 * 36 + 7], b"channel");
    assert!(b[8 + 4 * 36..].iter().all(|&x| x == 0));
}

#[test]
fn channel_list_empty() {
    let b = encode_channel_list(&[], 100, 100, 100);
    assert_eq!(b[0], GC_CHANNEL_LIST);
    assert_eq!(b[1], 0);
    assert_eq!(u16::from_le_bytes([b[2], b[3]]), 100);
    assert!(b[8..].iter().all(|&x| x == 0));
}

#[test]
fn admission_checks_in_order() {
    let mut held = ActiveLogins::new();
    assert_eq!(held.admit_login(Some(2), 1, "test", false).err(), Some(LoginRefusal::VersionMismatch));
    assert_eq!(held.admit_login(None, 1, "a", false).err(), Some(LoginRefusal::NoId));
    assert_eq!(held.admit_login(None, 1, "test", true).err(), Some(LoginRefusal::Shutdown));
    let g = held.admit_login(Some(1), 1, "test", false).expect("first session");
    assert!(held.contains("test"));
    assert_eq!(held.admit_login(None, 1, "test", false).err(), Some(LoginRefusal::Already));
    held.release(g);
    assert!(!held.contains("test"));
    assert!(held.admit_login(None, 1, "test", false).is_ok());
    assert_eq!(LoginRefusal::Already.status(), "ALREADY");
    assert_eq!(LoginRefusal::NoId.status(), "NOID");
    assert_eq!(LoginRefusal::Shutdown.status(), "SHUTDOWN");
}

#[test]
fn auth_reply_key_only_on_success() {
    let mut keys = LoginKeys::new();
    assert_eq!(auth_reply(&mut keys, false), (0, 0));
    let (k, r) = auth_reply(&mut keys, true);
    assert_eq!(r, 1);
    assert!(k >= 1 && k <= 0x7FFF_FFFF);
    assert!(keys.contains(k));
}

#[test]
fn panama_key_xors_client_keys() {
    assert_eq!(panama_key(0x1234, [0, 0, 0, 0]), 0x1234);
    assert_eq!(panama_key(0xFF00, [0x0F, 0xF0, 0, 0x0100]), 0xFF00 ^ 0x0F ^ 0xF0 ^ 0x0100);
}

#[test]
fn auth_packet_dispatch() {
    assert_eq!(auth_packet(0xfc), AuthPacket::Keepalive);
    assert_eq!(auth_packet(0xfe), AuthPacket::Keepalive);
    assert_eq!(auth_packet(111), AuthPacket::Login);
    assert_eq!(auth_packet(132), AuthPacket::LocaleRequest);
    assert_eq!(auth_packet(0x7f), AuthPacket::Unexpected);
}

#[test]
fn auth_reply_order() {
    assert_eq!(auth_reply_parts(false, 3, true, true, true), vec![AuthReplyPart::AuthSuccess]);
    assert_eq!(
        auth_reply_parts(true, 2, true, true, true),
        vec![AuthReplyPart::Panama(0), AuthReplyPart::Panama(1), AuthReplyPart::HybridKeys, AuthReplyPart::Sdb, AuthReplyPart::ChannelList, AuthReplyPart::AuthSuccess]
    );
    assert_eq!(auth_reply_parts(true, 0, false, false, false), vec![AuthReplyPart::AuthSuccess]);
    assert_eq!(auth_reply_parts(true, 1, false, true, false), vec![AuthReplyPart::Panama(0), AuthReplyPart::Sdb, AuthReplyPart::AuthSuccess]);
}

#[test]
fn login_normalized_with_unicode_spaces() {
    let mut raw = [0u8; 31];
    let s = "\u{3000}AbC\t".as_bytes();
    raw[..s.len()].copy_from_slice(s);
    assert_eq!(normalize_login(&raw), "abc");
}
