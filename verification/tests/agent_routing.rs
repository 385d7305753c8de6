use yaobow_shared::agent_routing::{
    menu_refusal, pal4_command_route, plan_mode_control, AgentCommandKind, ModeControl,
    ModeControlPlan, Pal4CommandRoute, TimeControl,
};
use yaobow_shared::director_logic::AgentErrorKind;
use yaobow_shared::modes::Pal4ModeIntent;

#[test]
fn bridge_and_session_commands_never_reach_a_director() {
    for story in [false, true] {
        assert_eq!(
            pal4_command_route(AgentCommandKind::PauseTime, story),
            Pal4CommandRoute::Bridge
        );
        assert_eq!(
            pal4_command_route(AgentCommandKind::LogTail, story),
            Pal4CommandRoute::Bridge
        );
        assert_eq!(
            pal4_command_route(AgentCommandKind::ChooseDialog, story),
            Pal4CommandRoute::Session
        );
        assert_eq!(
            pal4_command_route(AgentCommandKind::EnterLoadGame, story),
            Pal4CommandRoute::ModeControl
        );
    }
}

#[test]
fn scene_commands_need_a_story_director() {
    assert_eq!(
        pal4_command_route(AgentCommandKind::GetSceneObjects, true),
        Pal4CommandRoute::Story
    );
    assert_eq!(
        pal4_command_route(AgentCommandKind::GetSceneObjects, false),
        Pal4CommandRoute::Menu
    );
    assert_eq!(pal4_command_route(AgentCommandKind::GetState, false), Pal4CommandRoute::Menu);
}

#[test]
fn the_menu_answers_only_state_requests() {
    assert!(menu_refusal(AgentCommandKind::GetState).is_none());
    let refused = menu_refusal(AgentCommandKind::TeleportPlayer).unwrap();
    assert_eq!(refused.kind, AgentErrorKind::NotImplemented);
    assert_eq!(
        refused.message,
        "command not available outside story mode (no active PAL4 playthrough)"
    );
}

#[test]
fn mode_control_needs_a_mounted_playthrough() {
    assert!(matches!(
        plan_mode_control(ModeControl::Exit, None),
        Ok(ModeControlPlan::Exit)
    ));
    let err = plan_mode_control(ModeControl::NewGame, None).err().unwrap();
    assert_eq!(err.kind, AgentErrorKind::Internal);
    assert_eq!(
        err.message,
        "PAL4 launch asset path not set yet (no playthrough has been mounted)"
    );
    match plan_mode_control(ModeControl::LoadGame(3), Some("/pal4".to_string())) {
        Ok(ModeControlPlan::Enter(Pal4ModeIntent::StoryFromSave { asset_path, slot })) => {
            assert_eq!(asset_path, "/pal4");
            assert_eq!(slot, 3);
        }
        other => panic!("unexpected plan {other:?}"),
    }
    match plan_mode_control(ModeControl::NewGame, Some("/pal4".to_string())) {
        Ok(ModeControlPlan::Enter(Pal4ModeIntent::Story { asset_path })) => {
            assert_eq!(asset_path, "/pal4")
        }
        other => panic!("unexpected plan {other:?}"),
    }
}

#[test]
fn fixed_steps_need_a_paused_clock() {
    let mut time = TimeControl { paused: false, requested_steps: 0 };
    let err = time.request_steps(3).err().unwrap();
    assert_eq!(err.kind, AgentErrorKind::Conflict);
    assert_eq!(err.message, "must pause time before requesting fixed-step frames");
    assert_eq!(time.requested_steps, 0);

    time.set_paused(true);
    assert!(time.request_steps(3).is_ok());
    assert!(time.request_steps(0).is_ok());
    assert_eq!(time.requested_steps, 3);
    assert!(time.request_steps(u32::MAX).is_ok());
    assert_eq!(time.requested_steps, u32::MAX);

    time.set_paused(false);
    assert!(!time.paused);
    assert_eq!(time.requested_steps, 0);
}
