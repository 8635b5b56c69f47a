use realms_core::chat::{
    chat_payload, chat_text, gc_chat, shout_ready, ChatPeers, ChatPlan, WhisperPlan, CHAT_MSG_MAX,
    CHAT_TYPE_SHOUT, CHAT_TYPE_TALKING, GC_CHAT, GC_WHISPER, WHISPER_CHAT, WHISPER_FIXED,
    WHISPER_NOT_EXIST,
};
use realms_core::chat::{last_shout_after, plan_chat};

fn outbox() -> (tokio::sync::mpsc::UnboundedSender<Vec<u8>>, tokio::sync::mpsc::UnboundedReceiver<Vec<u8>>) {
    tokio::sync::mpsc::unbounded_channel()
}

#[test]
fn chat_text_strips_trailing_nul_before_command_parse() {
    let stripped = chat_text(b"/warp 100 200\0", CHAT_MSG_MAX);
    assert_eq!(stripped, b"/warp 100 200");
    match plan_chat(&[3, 0, 0, CHAT_TYPE_TALKING, b'/', b'w', b'a', b'r', b'p', b' ', b'1', 0], "x", 1, 1, None, 0) {
        ChatPlan::Command(t) => assert_eq!(t, "warp 1"),
        _ => panic!("a command"),
    }
}

#[test]
fn find_player_resolves_goto_target() {
    let mut peers = ChatPeers::new();
    let (tx_a, _rx_a) = outbox();
    let (tx_b, _rx_b) = outbox();
    let a = peers.register_peer(331, "Wisp".to_string(), 35, 100, 200, 1, tx_a);
    let b = peers.register_peer(332, "Target".to_string(), 36, 500, 500, 1, tx_b);
    assert_eq!(peers.find_player("wisp"), Some((331, 35, 100, 200)));
    assert_eq!(peers.find_player("TARGET"), Some((332, 36, 500, 500)));
    assert_eq!(peers.find_player("nadie"), None);
    peers.release(a);
    peers.release(b);
    assert_eq!(peers.find_player("target"), None);
}

#[test]
fn chat_payload_and_packet_shape() {
    let p = chat_payload("Alice", b"hola");
    assert_eq!(p, b"Alice : hola");
    let pkt = gc_chat(CHAT_TYPE_TALKING, 0x01020304, 1, &p);
    assert_eq!(pkt[0], GC_CHAT);
    assert_eq!(u16::from_le_bytes([pkt[1], pkt[2]]) as usize, pkt.len());
    assert_eq!(&pkt[4..8], &[4, 3, 2, 1]);
    assert_eq!(pkt[8], 1);
    assert_eq!(&pkt[9..], b"Alice : hola");
    let long = vec![b'x'; 600];
    assert_eq!(chat_payload("Long", &long).len(), 512, "cut at 512");
}

#[test]
fn chat_caps_message_length() {
    let mut pkt = vec![3u8, 0, 0, CHAT_TYPE_TALKING];
    pkt.extend(std::iter::repeat(b'x').take(600));
    match plan_chat(&pkt, "Long", 9, 1, None, 0) {
        ChatPlan::Talk(echo) => {
            assert_eq!(&echo[9..16], b"Long : ");
            assert_eq!(echo.len(), 9 + 4 + 3 + 485);
        }
        _ => panic!("talk"),
    }
}

#[test]
fn shout_cooldown_and_id_zero() {
    let mut pkt = vec![3u8, 0, 0, CHAT_TYPE_SHOUT];
    pkt.extend_from_slice(b"guerra!");
    match plan_chat(&pkt, "Shouter", 77, 2, None, 1000) {
        ChatPlan::Shout(b) => {
            assert_eq!(&b[4..8], &[0, 0, 0, 0], "id 0");
            assert_eq!(&b[9..], b"Shouter : guerra!");
        }
        _ => panic!("shout"),
    }
    assert!(matches!(plan_chat(&pkt, "Shouter", 77, 2, Some(1000), 15_999), ChatPlan::ShoutCooldown));
    assert!(matches!(plan_chat(&pkt, "Shouter", 77, 2, Some(1000), 16_000), ChatPlan::Shout(_)));
    assert!(!shout_ready(Some(1000), 999), "clock went back");
    assert!(matches!(plan_chat(&[3, 0, 0], "x", 1, 1, None, 0), ChatPlan::Malformed));
}

fn whisper(target: &str, msg: &[u8]) -> Vec<u8> {
    let mut p = vec![19u8, 0, 0];
    let mut name = [0u8; 25];
    name[..target.len()].copy_from_slice(target.as_bytes());
    p.extend_from_slice(&name);
    p.push(0);
    p.truncate(28);
    p.extend_from_slice(msg);
    p
}

#[test]
fn whisper_resolves_target_case_insensitive() {
    let mut peers = ChatPeers::new();
    let (tx, _rx) = outbox();
    let (tx2, _rx2) = outbox();
    let _g = peers.register_peer(10, "Target".to_string(), 1, 0, 0, 1, tx);
    let _h = peers.register_peer(11, "Whisperer".to_string(), 1, 0, 0, 1, tx2);
    match peers.plan_whisper(&whisper("target", b"hola bob\0"), 11, "Whisperer") {
        WhisperPlan::Deliver { to, to_recipient, to_sender } => {
            assert_eq!(to, 10);
            assert_eq!(to_recipient[0], GC_WHISPER);
            assert_eq!(to_recipient[3], WHISPER_CHAT);
            assert_eq!(&to_recipient[4..13], b"Whisperer");
            assert_eq!(&to_recipient[29..], b"hola bob");
            assert_eq!(&to_sender[4..10], b"target");
            assert_eq!(to_sender[10], 0);
            assert_eq!(&to_sender[29..], b"hola bob");
        }
        _ => panic!("delivered"),
    }
}

#[test]
fn whisper_to_nonexistent_notifies_sender() {
    let peers = ChatPeers::new();
    match peers.plan_whisper(&whisper("Ghost", b"hi"), 1, "Me") {
        WhisperPlan::NotExist(reply) => {
            assert_eq!(reply[0], GC_WHISPER);
            assert_eq!(reply[3], WHISPER_NOT_EXIST);
            assert_eq!(&reply[4..9], b"Ghost");
            assert_eq!(reply.len(), WHISPER_FIXED);
        }
        _ => panic!("not exist"),
    }
}

#[test]
fn whisper_caps_message_length_and_ignores_self() {
    let mut peers = ChatPeers::new();
    let (tx, _rx) = outbox();
    let _g = peers.register_peer(5, "B".to_string(), 1, 0, 0, 1, tx);
    let big = vec![b'y'; 700];
    match peers.plan_whisper(&whisper("B", &big), 6, "A") {
        WhisperPlan::Deliver { to_recipient, .. } => {
            assert_eq!(to_recipient.len(), WHISPER_FIXED + 512);
            assert_eq!(u16::from_le_bytes([to_recipient[1], to_recipient[2]]) as usize, WHISPER_FIXED + 512);
        }
        _ => panic!("delivered"),
    }
    assert!(matches!(peers.plan_whisper(&whisper("B", b"x"), 5, "B"), WhisperPlan::Ignore));
    assert!(matches!(peers.plan_whisper(&whisper("B", b""), 6, "A"), WhisperPlan::Ignore));
    assert!(matches!(peers.plan_whisper(&[19, 0, 0], 6, "A"), WhisperPlan::Ignore));
}

#[test]
fn chat_broadcast_reaches_in_range_and_skips_far() {
    let mut peers = ChatPeers::new();
    let (tx_a, _ra) = outbox();
    let (tx_b, mut rb) = outbox();
    let (tx_c, mut rc) = outbox();
    let (tx_d, mut rd) = outbox();
    let _a = peers.register_peer(1, "Alice".to_string(), 10, 1000, 1000, 1, tx_a);
    let _b = peers.register_peer(2, "Bob".to_string(), 10, 1000 + 5500, 1000, 1, tx_b);
    let _c = peers.register_peer(3, "Carl".to_string(), 10, 1000 + 5501, 1000, 1, tx_c);
    let _d = peers.register_peer(4, "Dave".to_string(), 11, 1000, 1000, 1, tx_d);
    assert_eq!(peers.in_range_of(1, 10, 1000, 1000), vec![2]);
    assert_eq!(peers.broadcast_in_range(1, 10, 1000, 1000, b"pkt"), 1);
    assert_eq!(rb.try_recv().unwrap(), b"pkt");
    assert!(rc.try_recv().is_err());
    assert!(rd.try_recv().is_err());
    peers.update_position(3, 2000, 1000);
    assert_eq!(peers.in_range_of(1, 10, 1000, 1000), vec![2, 3]);
    assert_eq!(peers.peer_name(2).as_deref(), Some("Bob"));
    assert_eq!(peers.peer_empire(2), 1);
    assert_eq!(peers.peer_empire(99), 0);
    assert!(!peers.send_to_vid(99, b"x"));
}

#[test]
fn a_shout_starts_the_cooldown() {
    let mut pkt = vec![3u8, 0, 0, CHAT_TYPE_SHOUT];
    pkt.extend_from_slice(b"war!\0");
    let last = None;
    let p = plan_chat(&pkt, "Shouter", 77, 2, last, 5_000);
    let last = last_shout_after(&p, last, 5_000);
    assert_eq!(last, Some(5_000));
    let p = plan_chat(&pkt, "Shouter", 77, 2, last, 10_000);
    assert!(matches!(p, ChatPlan::ShoutCooldown));
    assert_eq!(last_shout_after(&p, last, 10_000), Some(5_000));
    let mut talk = pkt.clone();
    talk[3] = CHAT_TYPE_TALKING;
    let p = plan_chat(&talk, "Shouter", 77, 2, last, 11_000);
    assert_eq!(last_shout_after(&p, last, 11_000), Some(5_000));
}

#[test]
fn chat_recipients_by_plan() {
    let mut peers = ChatPeers::new();
    let (t1, _r1) = outbox();
    let (t2, _r2) = outbox();
    let (t3, _r3) = outbox();
    let _a = peers.register_peer(101, "Alice".to_string(), 10, 100, 100, 1, t1);
    let _b = peers.register_peer(102, "Bob".to_string(), 10, 300, 400, 1, t2);
    let _c = peers.register_peer(103, "Carol".to_string(), 10, 9000, 9000, 1, t3);
    let talk = ChatPlan::Talk(vec![]);
    assert_eq!(peers.chat_recipients(&talk, CHAT_TYPE_TALKING, 101, 10, 100, 100), vec![102]);
    assert_eq!(peers.chat_recipients(&talk, CHAT_TYPE_SHOUT, 101, 10, 100, 100), Vec::<u32>::new());
    let shout = ChatPlan::Shout(vec![]);
    assert_eq!(peers.chat_recipients(&shout, CHAT_TYPE_SHOUT, 101, 10, 100, 100), vec![101, 102, 103]);
    assert_eq!(peers.chat_recipients(&ChatPlan::ShoutCooldown, CHAT_TYPE_SHOUT, 101, 10, 100, 100), Vec::<u32>::new());
}
