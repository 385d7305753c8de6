use yaobow_shared::app_state::DialogAvatarSide;
use yaobow_shared::director_logic::{
    avatar_label, begin_pending_fire, fail_pending_fires, queue_pending_fire, fire_timeout_frames, globals_window, poll_pending_fires,
    resolve_object_interaction, resolve_scene_trigger, save_load_hotkey, state_inventory,
    trigger_shape, AgentErrorKind, EdgeTrigger, HotkeyAction, ScriptBinding,
};
use yaobow_shared::agent_routing::{pal4_session_refusal, AgentCommandKind};
use yaobow_shared::persistent_state::Pal4PersistentState;

#[test]
fn fire_timeouts_convert_to_frames() {
    assert_eq!(fire_timeout_frames(None), 300);
    assert_eq!(fire_timeout_frames(Some(1000)), 60);
    assert_eq!(fire_timeout_frames(Some(1)), 1);
    assert_eq!(fire_timeout_frames(Some(0)), 0);
    assert_eq!(fire_timeout_frames(Some(u64::MAX)), 10800);
}

#[test]
fn pending_fire_settles_after_two_idle_frames() {
    let fire = begin_pending_fire(7u32, "t1".to_string(), true, 40, Some(1000));
    assert_eq!(fire.max_frames, 60);
    let (replies, keep) = poll_pending_fires(vec![fire], true, 50);
    assert!(replies.is_empty());
    assert_eq!(keep.len(), 1);
    assert_eq!(keep[0].idle_streak, 1);
    let (replies, keep) = poll_pending_fires(keep, true, 55);
    assert!(keep.is_empty());
    assert_eq!(replies.len(), 1);
    let (env, reply) = &replies[0];
    assert_eq!(*env, 7);
    assert_eq!(reply.name, "t1");
    assert!(reply.settled);
    assert_eq!(reply.waited_frames, 2);
    assert_eq!(reply.trace_seq_start, Some(40));
    assert_eq!(reply.trace_seq_end, Some(55));
}

#[test]
fn busy_frames_restart_the_streak_and_the_timeout_answers() {
    let fire = begin_pending_fire(1u8, "t2".to_string(), false, 0, Some(50));
    assert_eq!(fire.max_frames, 3);
    let (r, keep) = poll_pending_fires(vec![fire], true, 0);
    assert!(r.is_empty());
    let (r, keep) = poll_pending_fires(keep, false, 0);
    assert!(r.is_empty());
    assert_eq!(keep[0].idle_streak, 0);
    let (r, keep) = poll_pending_fires(keep, false, 0);
    assert!(keep.is_empty());
    assert!(!r[0].1.settled);
    assert_eq!(r[0].1.waited_frames, 3);
    assert_eq!(r[0].1.trace_seq_start, None);
}

#[test]
fn save_hotkeys_win_over_load_hotkeys() {
    let mut keys = [false; 8];
    assert_eq!(save_load_hotkey(keys), HotkeyAction::Nothing);
    keys[1] = true;
    assert_eq!(save_load_hotkey(keys), HotkeyAction::Load(2));
    keys[6] = true;
    assert_eq!(save_load_hotkey(keys), HotkeyAction::Save(3));
    keys[4] = true;
    assert_eq!(save_load_hotkey(keys), HotkeyAction::Save(1));
}

#[test]
fn edge_trigger_fires_once_per_press() {
    let mut t = EdgeTrigger { prev: false };
    assert!(t.poll(true));
    assert!(!t.poll(true));
    assert!(!t.poll(false));
    assert!(t.poll(true));
}

#[test]
fn globals_window_is_clamped() {
    assert_eq!(globals_window(10, 2, Some(3)), (2, 5));
    assert_eq!(globals_window(10, 8, Some(5)), (8, 10));
    assert_eq!(globals_window(10, 20, None), (10, 10));
    assert_eq!(globals_window(10, 4, None), (4, 10));
    assert_eq!(globals_window(10, 1, Some(usize::MAX)), (1, 10));
}

fn bindings() -> Vec<ScriptBinding> {
    vec![
        ScriptBinding { name: Some("door".to_string()), function: "open_door".to_string() },
        ScriptBinding { name: None, function: "hidden".to_string() },
        ScriptBinding { name: Some("empty".to_string()), function: String::new() },
        ScriptBinding { name: Some("door".to_string()), function: "second".to_string() },
    ]
}

#[test]
fn trigger_resolution_reports_each_refusal() {
    let b = bindings();
    assert_eq!(resolve_scene_trigger(false, true, &b, "door").ok(), Some("open_door".to_string()));
    let e = resolve_scene_trigger(true, true, &b, "door").err().unwrap();
    assert_eq!(e.kind, AgentErrorKind::Conflict);
    assert_eq!(
        e.message,
        "a script is currently running; wait for it to finish before firing a trigger"
    );
    let e = resolve_scene_trigger(false, false, &b, "door").err().unwrap();
    assert_eq!(e.message, "no scene is loaded; load a block before firing triggers");
    let e = resolve_scene_trigger(false, true, &b, "nope").err().unwrap();
    assert_eq!(e.kind, AgentErrorKind::BadRequest);
    assert_eq!(e.message, "unknown trigger name: nope");
    let e = resolve_scene_trigger(false, true, &b, "empty").err().unwrap();
    assert_eq!(e.message, "trigger empty has no script function bound");
}

#[test]
fn object_interaction_reports_each_refusal() {
    let b = bindings();
    assert_eq!(
        resolve_object_interaction(false, true, Some(&b), "door").ok(),
        Some("open_door".to_string())
    );
    let e = resolve_object_interaction(false, true, None, "door").err().unwrap();
    assert_eq!(e.kind, AgentErrorKind::Conflict);
    assert_eq!(e.message, "no GOB loaded for the current block");
    let e = resolve_object_interaction(true, true, None, "door").err().unwrap();
    assert_eq!(
        e.message,
        "a script is currently running; wait for it to finish before interacting"
    );
    let e = resolve_object_interaction(false, false, Some(&b), "door").err().unwrap();
    assert_eq!(e.message, "no scene is loaded; load a block before interacting with objects");
    let e = resolve_object_interaction(false, true, Some(&b), "x").err().unwrap();
    assert_eq!(e.message, "unknown object name: x");
    let e = resolve_object_interaction(false, true, Some(&b), "empty").err().unwrap();
    assert_eq!(
        e.message,
        "object empty has no examine handler (research_function is empty)"
    );
}

#[test]
fn labels_for_agents() {
    assert_eq!(trigger_shape(4), "plane");
    assert_eq!(trigger_shape(8), "box");
    assert_eq!(trigger_shape(5), "other");
    assert_eq!(avatar_label(DialogAvatarSide::Left), "left");
    assert_eq!(avatar_label(DialogAvatarSide::Right), "right");
}

#[test]
fn agent_inventory_lists_positive_counts() {
    let state: Pal4PersistentState<[f32; 3], f32, [f32; 16]> = Pal4PersistentState::from_parts(
        "OpenPAL4".to_string(),
        0,
        0,
        0,
        String::new(),
        String::new(),
        None,
        None,
        false,
        None,
        vec![],
        vec![(3, 0), (1, 4), (2, -1), (5, 2)],
        vec![],
    );
    assert_eq!(state_inventory(&state), vec![(1, 4), (5, 2)]);
}

#[test]
fn pal4_session_refuses_what_it_does_not_serve() {
    for kind in [
        AgentCommandKind::GetState,
        AgentCommandKind::SaveSlot,
        AgentCommandKind::LoadSlot,
        AgentCommandKind::InteractObject,
        AgentCommandKind::ChooseWorldMap,
        AgentCommandKind::TraceDrain,
    ] {
        assert!(pal4_session_refusal(kind).is_none(), "{kind:?}");
    }
    for kind in [
        AgentCommandKind::KeyInput,
        AgentCommandKind::Screenshot,
        AgentCommandKind::SetCamera,
        AgentCommandKind::ExitGame,
        AgentCommandKind::SetDebugCamera,
    ] {
        let failure = pal4_session_refusal(kind).expect("refused");
        assert_eq!(failure.kind, AgentErrorKind::NotImplemented);
        assert_eq!(failure.message, "command not implemented by the PAL4 session");
    }
}

#[test]
fn torn_down_fires_are_refused_in_order() {
    let fires = vec![
        begin_pending_fire(1u8, "a".to_string(), false, 0, None),
        begin_pending_fire(2u8, "b".to_string(), true, 5, Some(100)),
    ];
    let replies = fail_pending_fires(fires);
    assert_eq!(replies.len(), 2);
    assert_eq!(replies[0].0, 1);
    assert_eq!(replies[1].0, 2);
    for (_, failure) in &replies {
        assert_eq!(failure.kind, AgentErrorKind::Conflict);
        assert_eq!(failure.message, "mode changed before trigger settled");
    }
    assert!(fail_pending_fires(Vec::<yaobow_shared::director_logic::PendingFire<u8>>::new()).is_empty());
}

#[test]
fn a_fire_whose_dispatch_fails_is_answered_at_once() {
    let mut pending = Vec::new();
    let answer = queue_pending_fire(&mut pending, 4u8, "t".to_string(), false, 3, None, Err("unknown trigger"));
    assert_eq!(answer, Some((4, "unknown trigger")));
    assert!(pending.is_empty());
    let answer = queue_pending_fire(&mut pending, 5u8, "u".to_string(), true, 9, Some(1000), Ok::<(), &str>(()));
    assert_eq!(answer, None);
    assert_eq!(pending.len(), 1);
    assert_eq!(pending[0].env, 5);
    assert_eq!(pending[0].name, "u");
    assert_eq!(pending[0].start_seq, 9);
    assert_eq!((pending[0].waited_frames, pending[0].idle_streak, pending[0].max_frames), (0, 0, 60));
}
