use realms_core::gm::{
    gm_info, gm_stat, gm_stat_minus, job_initial_stat, master_type_for_level, set_stat,
    skill_blob_or_default, skillup_allowed, skillup_apply, stat_value, walk_mode_packet,
    warp_units, CharacterStats, StatPoint, PLAYER_SKILL_SIZE, SKILL_MAX_NUM,
};

#[test]
fn skillup_vnum_zero_is_noop() {
    let mut blob = vec![0u8; 255 * PLAYER_SKILL_SIZE];
    blob[PLAYER_SKILL_SIZE] = 1;
    blob[PLAYER_SKILL_SIZE + 1] = 20;
    let before = blob.clone();
    assert_eq!(skillup_apply(&mut blob, 0), None);
    assert_eq!(blob, before);
    assert_eq!(skillup_apply(&mut blob, 1), Some(21));
}

#[test]
fn skillup_writes_master_type_on_threshold_cross() {
    let mut blob = vec![0u8; 255 * PLAYER_SKILL_SIZE];
    blob[PLAYER_SKILL_SIZE + 1] = 19;
    assert_eq!(skillup_apply(&mut blob, 1), Some(20));
    assert_eq!(blob[PLAYER_SKILL_SIZE + 1], 20);
    assert_eq!(blob[PLAYER_SKILL_SIZE], 1);
    blob[PLAYER_SKILL_SIZE + 1] = 29;
    blob[PLAYER_SKILL_SIZE] = 1;
    assert_eq!(skillup_apply(&mut blob, 1), Some(30));
    assert_eq!(blob[PLAYER_SKILL_SIZE], 2);
    blob[PLAYER_SKILL_SIZE + 1] = 39;
    blob[PLAYER_SKILL_SIZE] = 2;
    assert_eq!(skillup_apply(&mut blob, 1), Some(40));
    assert_eq!(blob[PLAYER_SKILL_SIZE], 3);
    assert_eq!(skillup_apply(&mut blob, 1), Some(40));
    assert_eq!(blob[PLAYER_SKILL_SIZE + 1], 40);
    assert_eq!(blob[PLAYER_SKILL_SIZE], 3);
    blob[PLAYER_SKILL_SIZE + 1] = 5;
    blob[PLAYER_SKILL_SIZE] = 0;
    assert_eq!(skillup_apply(&mut blob, 1), Some(6));
    assert_eq!(blob[PLAYER_SKILL_SIZE], 0);
}

fn stats(job: i16) -> CharacterStats {
    CharacterStats { job, st: 30, ht: 30, dx: 30, iq: 30, stat_point: 10, stat_reset_count: 3 }
}

#[test]
fn stat_job_floors_and_accessors() {
    let w = stats(0);
    assert_eq!(job_initial_stat(w.job, StatPoint::St), 6);
    assert_eq!(job_initial_stat(w.job, StatPoint::Ht), 4);
    assert_eq!(job_initial_stat(w.job, StatPoint::Dx), 3);
    assert_eq!(job_initial_stat(w.job, StatPoint::Iq), 3);
    let a = stats(1);
    assert_eq!(job_initial_stat(a.job, StatPoint::St), 4);
    assert_eq!(job_initial_stat(a.job, StatPoint::Dx), 6);
    let s = stats(2);
    assert_eq!(job_initial_stat(s.job, StatPoint::Iq), 5);
    let sh = stats(3);
    assert_eq!(job_initial_stat(sh.job, StatPoint::Ht), 4);
    assert_eq!(job_initial_stat(sh.job, StatPoint::Iq), 6);
    let mut r = stats(1);
    assert_eq!(stat_value(&r, StatPoint::St), 30);
    let v = stat_value(&r, StatPoint::St) + 5;
    set_stat(&mut r, StatPoint::St, v);
    assert_eq!(stat_value(&r, StatPoint::St), 35);
}

#[test]
fn master_grades() {
    assert_eq!(master_type_for_level(0), 0);
    assert_eq!(master_type_for_level(19), 0);
    assert_eq!(master_type_for_level(20), 1);
    assert_eq!(master_type_for_level(30), 2);
    assert_eq!(master_type_for_level(40), 3);
    assert_eq!(master_type_for_level(255), 3);
}

#[test]
fn stat_points_added_and_taken_back() {
    let mut s = stats(0);
    assert_eq!(gm_stat(&mut s, StatPoint::St, 20), None, "not enough points");
    assert_eq!(gm_stat(&mut s, StatPoint::St, 5), Some(5));
    assert_eq!((s.st, s.stat_point), (35, 5));
    s.st = 88;
    assert_eq!(gm_stat(&mut s, StatPoint::St, 5), Some(2), "capped at 90");
    assert_eq!((s.st, s.stat_point), (90, 3));
    assert_eq!(gm_stat(&mut s, StatPoint::St, 1), None, "at the cap");
    let mut t = stats(0);
    t.st = 8;
    assert_eq!(gm_stat_minus(&mut t, StatPoint::St, 5), Some(2), "floor 6");
    assert_eq!((t.st, t.stat_point, t.stat_reset_count), (6, 12, 1));
    assert_eq!(gm_stat_minus(&mut t, StatPoint::St, 5), None, "at the floor");
    t.stat_reset_count = 0;
    t.ht = 20;
    assert_eq!(gm_stat_minus(&mut t, StatPoint::Ht, 1), None, "no reset left");
}

#[test]
fn skillup_gate_and_blob() {
    assert!(!skillup_allowed(None, 1, 1));
    assert!(!skillup_allowed(Some(255), 1, 1));
    assert!(!skillup_allowed(Some(1), 0, 1));
    assert!(!skillup_allowed(Some(1), 1, 0));
    assert!(skillup_allowed(Some(1), 1, 1));
    assert_eq!(skill_blob_or_default(None).len(), SKILL_MAX_NUM * PLAYER_SKILL_SIZE);
    assert!(skill_blob_or_default(Some(vec![1, 2, 3])).iter().all(|&b| b == 0));
}

#[test]
fn walk_mode_info_and_warp() {
    assert_eq!(walk_mode_packet(0x01020304, true), [111, 4, 3, 2, 1, 1]);
    assert_eq!(walk_mode_packet(7, false)[5], 0);
    let info = gm_info(9, 2, b"No such command");
    assert_eq!(info[0], 4);
    assert_eq!(info[3], 1);
    assert_eq!(&info[9..], b"No such command");
    assert_eq!(warp_units(10, -20), (1000, -2000));
    assert_eq!(warp_units(i32::MAX, i32::MIN), (i32::MAX, i32::MIN));
}

#[test]
fn restart_only_when_dead() {
    assert!(realms_core::gm::restart_allowed(0));
    assert!(realms_core::gm::restart_allowed(-5));
    assert!(!realms_core::gm::restart_allowed(1));
}
