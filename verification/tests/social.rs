use realms_core::messenger::{
    name_at, parse_messenger_auth, parse_request, staff_check, MessengerAuth, MessengerRequest,
    MessengerRequests, CG_MESSENGER_NAME_TOTAL, SUB_CG_ADD_BY_NAME, SUB_CG_ADD_BY_VID, SUB_CG_REMOVE,
};

#[test]
fn unknown_subheader_continues_and_name_at_strips_nul() {
    assert_eq!(parse_request(&[50, 9]), MessengerRequest::Unknown(9));
    let mut raw = vec![50u8, SUB_CG_REMOVE];
    raw.extend_from_slice(b"Target\0");
    raw.resize(CG_MESSENGER_NAME_TOTAL, 0xAB);
    assert_eq!(name_at(&raw), "Target");
    assert_eq!(parse_request(&raw), MessengerRequest::Remove("Target".to_string()));
    let mut long = vec![50u8, SUB_CG_ADD_BY_NAME];
    long.extend(std::iter::repeat(b'n').take(40));
    assert_eq!(name_at(&long).len(), 24, "capped at 24 bytes");
}

#[test]
fn add_by_vid_request_shape() {
    let mut p = vec![50u8, SUB_CG_ADD_BY_VID];
    p.extend_from_slice(&702u32.to_le_bytes());
    assert_eq!(parse_request(&p), MessengerRequest::AddByVid(702));
    assert_eq!(parse_request(&p[..5]), MessengerRequest::Ignore);
    assert_eq!(parse_request(&[50]), MessengerRequest::Ignore);
}

#[test]
fn command_prefix_requires_word_boundary() {
    assert_eq!(parse_messenger_auth("messenger_authx y Bob"), None);
    assert_eq!(parse_messenger_auth("warp 1 2"), None);
    assert_eq!(parse_messenger_auth("messenger_auth"), Some(MessengerAuth::Incomplete));
    assert_eq!(parse_messenger_auth("messenger_auth y"), Some(MessengerAuth::Incomplete));
    assert_eq!(
        parse_messenger_auth("messenger_auth y  Bob "),
        Some(MessengerAuth::Answer { denied: false, inviter: "Bob".to_string() })
    );
    assert_eq!(
        parse_messenger_auth("messenger_auth\tno Bob"),
        Some(MessengerAuth::Answer { denied: true, inviter: "Bob".to_string() })
    );
}

#[test]
fn auth_without_pending_request_is_silent() {
    let mut r = MessengerRequests::new();
    assert!(!r.take("Alice", "Bob"));
    r.request("Alice", "Bob");
    assert!(r.take("ALICE", "bob"), "names compared lowercased");
    assert!(!r.take("Alice", "Bob"), "answered once");
}

#[test]
fn staff_members_cannot_be_added_by_players() {
    assert!(staff_check(true, true));
    assert!(!staff_check(true, false));
    assert!(staff_check(false, false));
}
