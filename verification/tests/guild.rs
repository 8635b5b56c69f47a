use realms_core::guild::{
    answer_text, create_error_text, guild_by_id, guild_of, invite_error_text, parse_guild_request,
    plan_invite, plan_invite_answer, AnswerPlan, CreateResult, GuildMembers, GuildRequest,
    InvitePlan,
};

fn roster() -> Vec<GuildMembers> {
    vec![
        GuildMembers { id: 1, members: vec![900, 901] },
        GuildMembers { id: 2, members: vec![912] },
    ]
}

#[test]
fn guild_request_layouts() {
    let mut create = vec![80, 1];
    create.extend_from_slice(b"Valientes");
    create.resize(15, 0);
    assert_eq!(parse_guild_request(&create), GuildRequest::Create("Valientes".to_string()));
    let mut long = vec![80, 1];
    long.extend_from_slice(b"ABCDEFGHIJKLMNOP");
    assert_eq!(parse_guild_request(&long), GuildRequest::Create("ABCDEFGHIJKLM".to_string()));
    assert_eq!(parse_guild_request(&[80, 0, 0x10, 0x27, 0, 0]), GuildRequest::Invite(10000));
    assert_eq!(parse_guild_request(&[80, 0, 1, 0]), GuildRequest::Ignore);
    assert_eq!(parse_guild_request(&[80, 11, 2, 0, 0, 0, 1]), GuildRequest::Answer(2, true));
    assert_eq!(parse_guild_request(&[80, 11, 2, 0, 0, 0, 0]), GuildRequest::Answer(2, false));
    assert_eq!(parse_guild_request(&[80, 11, 2, 0, 0, 0]), GuildRequest::Ignore);
    assert_eq!(parse_guild_request(&[80, 7]), GuildRequest::Unknown(7));
    assert_eq!(parse_guild_request(&[80]), GuildRequest::Ignore);
}

#[test]
fn guild_lookup_by_member_and_id() {
    let gs = roster();
    assert_eq!(guild_of(&gs, 901), Some(0));
    assert_eq!(guild_of(&gs, 912), Some(1));
    assert_eq!(guild_of(&gs, 5), None);
    assert_eq!(guild_by_id(&gs, 2), Some(1));
    assert_eq!(guild_by_id(&gs, 3), None);
}

#[test]
fn invite_rules() {
    let gs = roster();
    assert_eq!(plan_invite(&gs, 900, 913, false), InvitePlan::PlayerNotFound);
    assert_eq!(plan_invite(&gs, 900, 912, true), InvitePlan::AlreadyInGuild);
    assert_eq!(plan_invite(&gs, 5, 913, true), InvitePlan::NotInGuild);
    assert_eq!(plan_invite(&gs, 900, 913, true), InvitePlan::Invite(0));
    assert_eq!(invite_error_text(InvitePlan::PlayerNotFound), Some("<Guild> Cannot find the player."));
    assert_eq!(invite_error_text(InvitePlan::AlreadyInGuild), Some("<Guild> The player is already in a guild."));
    assert_eq!(invite_error_text(InvitePlan::NotInGuild), Some("<Guild> You are not in a guild."));
    assert_eq!(invite_error_text(InvitePlan::Invite(0)), None);
}

#[test]
fn invite_answer_rules() {
    let gs = roster();
    assert_eq!(plan_invite_answer(&gs, 9, true, 913), AnswerPlan::UnknownGuild);
    assert_eq!(plan_invite_answer(&gs, 1, false, 913), AnswerPlan::Declined(0));
    assert_eq!(plan_invite_answer(&gs, 1, true, 912), AnswerPlan::AlreadyInGuild(0));
    assert_eq!(plan_invite_answer(&gs, 2, true, 913), AnswerPlan::Join(1));
    assert_eq!(answer_text(AnswerPlan::Join(1), true), Some("<Guild> You have joined the guild."));
    assert_eq!(answer_text(AnswerPlan::Join(1), false), None);
    assert_eq!(answer_text(AnswerPlan::AlreadyInGuild(0), false), Some("<Guild> The player is already in a guild."));
    assert_eq!(answer_text(AnswerPlan::Declined(0), false), None);
}

#[test]
fn create_error_lines() {
    assert_eq!(create_error_text(CreateResult::Created), None);
    assert_eq!(create_error_text(CreateResult::DuplicateName), Some("<Guild> A guild with that name already exists."));
    assert_eq!(create_error_text(CreateResult::InvalidName), Some("<Guild> The guild name is invalid."));
}
