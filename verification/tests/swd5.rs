use yaobow_shared::swd5::{
    dialog_snapshot, dialog_text, eval_allow_list, eval_host_fn, eval_rejection_message,
    swd5_route, Swd5HostFn, Swd5Route,
};
use yaobow_shared::agent_routing::AgentCommandKind;

#[test]
fn dialog_snapshot_maps_talkmsg_speaker_to_avatar() {
    let snap = dialog_snapshot(Some(("景天".into(), "你是谁？".into())));
    assert!(snap.open);
    assert_eq!(snap.avatar, "景天");
    assert_eq!(snap.text, "你是谁？");
    assert!(snap.choices.is_empty(), "SWD5 has no select-dialog");
}

#[test]
fn dialog_snapshot_storymsg_has_no_speaker() {
    let snap = dialog_snapshot(Some((String::new(), "旁白".into())));
    assert!(snap.open);
    assert_eq!(snap.avatar, "");
    assert_eq!(snap.text, "旁白");
}

#[test]
fn dialog_snapshot_closed_when_no_message() {
    let snap = dialog_snapshot(None);
    assert!(!snap.open);
    assert_eq!(snap.text, "");
}

#[test]
fn eval_allow_list_rejects_unknown_function() {
    let msg = eval_rejection_message("giAddMoney");
    assert!(msg.contains("giAddMoney"));
    assert!(msg.contains("chang_map"), "message lists the allow-list");
    assert!(!eval_allow_list().contains(&"giAddMoney"));
}

#[test]
fn eval_allow_list_contains_only_safe_host_functions() {
    for name in eval_allow_list() {
        assert!(!name.starts_with("sleep"), "{name} would block the VM");
        assert_ne!(name, "anykey", "anykey reads input, not state");
    }
}

#[test]
fn eval_rejection_message_lists_the_whole_allow_list() {
    assert_eq!(
        eval_rejection_message("x"),
        "'x' is not in the SWD5 script_eval allow-list (chang_map, story_music, \
         story_music_off, play_sound, stop_sound, play_movie, openstorypic, \
         closestorypic, dark, undark)"
    );
}

#[test]
fn eval_names_resolve_to_host_functions() {
    assert_eq!(eval_host_fn("chang_map"), Some(Swd5HostFn::ChangMap));
    assert_eq!(eval_host_fn("undark"), Some(Swd5HostFn::Undark));
    assert_eq!(eval_host_fn("closestorypic"), Some(Swd5HostFn::CloseStoryPic));
    assert_eq!(eval_host_fn("sleep"), None);
    assert_eq!(eval_host_fn("Chang_map"), None);
}

#[test]
fn talk_message_wins_over_story_message() {
    assert_eq!(
        dialog_text(Some(("a".into(), "b".into())), Some("c".into())),
        Some(("a".to_string(), "b".to_string()))
    );
    assert_eq!(dialog_text(None, Some("c".into())), Some((String::new(), "c".to_string())));
    assert_eq!(dialog_text(None, None), None);
}

#[test]
fn role_dependent_commands_report_the_real_blocker() {
    match swd5_route(AgentCommandKind::GetSceneObjects) {
        Swd5Route::NotImplemented(m) => assert!(m.contains("role"), "{m}"),
        _ => panic!("expected not_implemented"),
    }
    assert!(matches!(swd5_route(AgentCommandKind::PauseTime), Swd5Route::Serve));
    assert!(matches!(swd5_route(AgentCommandKind::AdvanceDialog), Swd5Route::Serve));
    assert!(matches!(swd5_route(AgentCommandKind::LogTail), Swd5Route::Internal(_)));
    match swd5_route(AgentCommandKind::TraceDrain) {
        Swd5Route::NotImplemented(m) => {
            assert_eq!(m, "SWD5-family Lua VM has no trace adapter yet")
        }
        _ => panic!("expected not_implemented"),
    }
}
