use realms_core::entry::{
    next_phase, phase_step, ChannelPhase, PhaseStep, SelectKind, CG_CHARACTER_CREATE, CG_CHARACTER_SELECT,
    CG_ENTERGAME, CG_LOGIN3, CG_MARK_LOGIN, CG_STATE_CHECKER,
};
use realms_core::locale::{answers_locale_request, CG_LOCALE_REQUEST};

#[test]
fn channel_phases_follow_their_order() {
    let s = phase_step(ChannelPhase::Login, CG_LOGIN3);
    assert_eq!(s, PhaseStep::CheckLogin);
    assert_eq!(next_phase(ChannelPhase::Login, s, true), Some(ChannelPhase::Select));
    assert_eq!(next_phase(ChannelPhase::Login, s, false), None);
    assert_eq!(phase_step(ChannelPhase::Login, CG_MARK_LOGIN), PhaseStep::Close);
    assert_eq!(phase_step(ChannelPhase::Login, CG_STATE_CHECKER), PhaseStep::AnswerStatusAndClose);
    assert_eq!(phase_step(ChannelPhase::Login, CG_ENTERGAME), PhaseStep::Close);
    let c = phase_step(ChannelPhase::Select, CG_CHARACTER_CREATE);
    assert_eq!(c, PhaseStep::SelectRequest(SelectKind::Create));
    assert_eq!(next_phase(ChannelPhase::Select, c, true), Some(ChannelPhase::Select));
    let sel = phase_step(ChannelPhase::Select, CG_CHARACTER_SELECT);
    assert_eq!(sel, PhaseStep::LoadCharacter);
    assert_eq!(next_phase(ChannelPhase::Select, sel, true), Some(ChannelPhase::Loading));
    assert_eq!(next_phase(ChannelPhase::Select, sel, false), None);
    let e = phase_step(ChannelPhase::Loading, CG_ENTERGAME);
    assert_eq!(next_phase(ChannelPhase::Loading, e, true), Some(ChannelPhase::Game));
    assert_eq!(phase_step(ChannelPhase::Loading, CG_LOGIN3), PhaseStep::Close);
    let g = phase_step(ChannelPhase::Game, CG_LOCALE_REQUEST);
    assert_eq!(next_phase(ChannelPhase::Game, g, false), Some(ChannelPhase::Game));
}

#[test]
fn locale_is_not_served_in_the_game() {
    assert!(answers_locale_request(ChannelPhase::Login, false));
    assert!(answers_locale_request(ChannelPhase::Loading, false));
    assert!(!answers_locale_request(ChannelPhase::Game, false));
    assert!(answers_locale_request(ChannelPhase::Game, true));
}
