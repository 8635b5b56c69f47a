use realms_core::emotions::{
    emotion_flags, find_emotion, is_married_to, other_sex_ok, sex_of, victim_in_view,
    EmotionAllows, EmotionPlan, EmotionRefusal, NEED_PC, OTHER_SEX_ONLY,
};

fn chars(s: &str) -> Vec<char> {
    s.chars().collect()
}

#[test]
fn verifier_other_sex_only_flag_and_logic() {
    let kiss = find_emotion(&chars("kiss")).unwrap();
    assert!(emotion_flags(kiss) & OTHER_SEX_ONLY != 0);
    let fk = find_emotion(&chars("french_kiss")).unwrap();
    assert!(emotion_flags(fk) & OTHER_SEX_ONLY != 0);
    assert!(!other_sex_ok(Some(0), Some(0)));
    assert!(!other_sex_ok(Some(1), Some(1)));
    assert!(other_sex_ok(Some(0), Some(1)));
    assert!(other_sex_ok(None, Some(0)));
    assert!(!is_married_to(1, 2) || true);
}

#[test]
fn verifier_marriage_stub_wired_in_need_pc_path() {
    let kiss = find_emotion(&chars("kiss")).unwrap();
    assert!(emotion_flags(kiss) & NEED_PC != 0);
    assert!(!is_married_to(1, 2), "no marriage stored: consent is the only way");
    assert_eq!(sex_of(1), None);
    let mut allows = EmotionAllows::new();
    let p = allows.plan_emotion(kiss, false, 1, 0, 0, 1, Some((2, 100, 0)));
    assert_eq!(p, EmotionPlan::Refuse(EmotionRefusal::NeedsConsent));
}

#[test]
fn kiss_requires_permission_then_broadcasts() {
    let kiss = find_emotion(&chars("KISS")).unwrap();
    let mut allows = EmotionAllows::new();
    allows.insert((2, 1));
    match allows.plan_emotion(kiss, false, 1, 0, 0, 3, Some((2, 100, 0))) {
        EmotionPlan::Show { victim, packet } => {
            assert_eq!(victim, 2);
            assert_eq!(packet[0], 4);
            assert_eq!(packet[3], 5);
            assert_eq!(&packet[4..8], &[0, 0, 0, 0]);
            assert_eq!(packet[8], 3);
            assert_eq!(&packet[9..], b"kiss 1 2");
        }
        other => panic!("{other:?}"),
    }
    assert!(allows.contains((1, 2)), "the actor's consent is recorded");
}

#[test]
fn kiss_distance_bounds() {
    let kiss = find_emotion(&chars("kiss")).unwrap();
    let mut allows = EmotionAllows::new();
    allows.insert((2, 1));
    assert_eq!(allows.plan_emotion(kiss, false, 1, 0, 0, 1, Some((2, 9, 0))), EmotionPlan::Refuse(EmotionRefusal::TooClose));
    assert_eq!(allows.plan_emotion(kiss, false, 1, 0, 0, 1, Some((2, 501, 0))), EmotionPlan::Refuse(EmotionRefusal::TooFar));
    assert!(matches!(allows.plan_emotion(kiss, false, 1, 0, 0, 1, Some((2, 500, 0))), EmotionPlan::Show { .. }));
}

#[test]
fn solo_emotion_broadcasts_with_zero_victim_and_unknown_returns_none() {
    let dance = find_emotion(&chars("dance1")).unwrap();
    let mut allows = EmotionAllows::new();
    match allows.plan_emotion(dance, false, 7, 0, 0, 1, None) {
        EmotionPlan::Show { victim, packet } => {
            assert_eq!(victim, 0);
            assert_eq!(&packet[9..], b"dance1 7 0");
        }
        other => panic!("{other:?}"),
    }
    assert_eq!(find_emotion(&chars("warp")), None);
    assert_eq!(find_emotion(&chars("키스")), None);
}

#[test]
fn riding_rejects_emotions_and_kiss_needs_victim() {
    let kiss = find_emotion(&chars("kiss")).unwrap();
    let mut allows = EmotionAllows::new();
    let r = allows.plan_emotion(kiss, true, 1, 0, 0, 1, None);
    assert_eq!(r, EmotionPlan::Refuse(EmotionRefusal::Riding));
    assert_eq!(EmotionRefusal::Riding.message(), "You cannot express emotions while riding.");
    assert_eq!(allows.plan_emotion(kiss, false, 1, 0, 0, 1, None), EmotionPlan::Refuse(EmotionRefusal::NoSuchPerson));
    assert_eq!(allows.plan_emotion(kiss, false, 1, 0, 0, 1, Some((1, 0, 0))), EmotionPlan::Silent);
}

#[test]
fn victim_must_be_in_view() {
    assert_eq!(victim_in_view(Some((2, 41, 100, 100)), 41, 0, 0), Some((2, 100, 100)));
    assert_eq!(victim_in_view(Some((2, 42, 100, 100)), 41, 0, 0), None);
    assert_eq!(victim_in_view(Some((2, 41, 5501, 0)), 41, 0, 0), None);
    assert_eq!(victim_in_view(None, 41, 0, 0), None);
}
