use std::cell::RefCell;
use std::rc::Rc;

use yaobow_shared::persistent_state::Pal4PersistentState;
use yaobow_shared::session::{slot_label, Pal4Session, RuntimeSnapshot};
use yaobow_shared::transition::swap_pal4_scene;

type Session = Pal4Session<[f32; 3], f32, [f32; 16]>;
type Handle = Rc<RefCell<Session>>;

#[test]
fn save_runtime_folds_scene_derived_values_into_state() {
    let mut session = Session::new();
    session
        .state_mut()
        .set_scene("m05".to_string(), "3".to_string());
    session.state_mut().set_leader(2);
    session.state_mut().set_player_locked(true);

    let persist = session.save_runtime(-1, Some([1.0, 2.0, 3.0]), Some(90.0), None, vec![7, 8, 9]);
    assert!(!persist);

    let state = session.state();
    assert_eq!(state.scene_name(), "m05");
    assert_eq!(state.block_name(), "3");
    assert_eq!(state.leader(), 2);
    let pos = state.position().expect("position set");
    assert_eq!((pos[0], pos[1], pos[2]), (1.0, 2.0, 3.0));
    assert_eq!(state.direction(), Some(90.0));
    assert!(state.player_locked());
    assert_eq!(state.script_globals(), &[7, 8, 9]);
}

#[test]
fn shared_handle_mutation_is_visible_through_other_clones() {
    let handle: Handle = Rc::new(RefCell::new(Session::new()));
    let director_view = handle.clone();
    let app_view = handle.clone();

    director_view.borrow_mut().state_mut().add_money(500);
    director_view
        .borrow_mut()
        .state_mut()
        .set_scene("m07".to_string(), "2".to_string());

    assert_eq!(app_view.borrow().state().money(), 500);
    assert_eq!(app_view.borrow().state().scene_name(), "m07");
    assert_eq!(app_view.borrow().state().block_name(), "2");
}

#[test]
fn session_survives_story_battle_story_round_trip() {
    let owner: Handle = Rc::new(RefCell::new(Session::new()));
    {
        let story_a = owner.clone();
        story_a.borrow_mut().state_mut().add_money(500);
        story_a
            .borrow_mut()
            .state_mut()
            .set_scene("m07".to_string(), "2".to_string());
    }
    let story_b = owner.clone();
    assert_eq!(
        story_b.borrow().state().money(),
        500,
        "money must survive the story->battle->story round trip"
    );
    assert_eq!(story_b.borrow().state().scene_name(), "m07");
    assert_eq!(story_b.borrow().state().block_name(), "2");
}

#[test]
#[should_panic(expected = "already borrowed")]
fn nested_borrow_panics_documents_the_hazard() {
    let handle: Handle = Rc::new(RefCell::new(Session::new()));
    let _held = handle.borrow();
    handle.borrow_mut().state_mut().add_money(1);
}

#[test]
fn new_session_uses_the_pal4_save_namespace() {
    let session = Session::default();
    assert_eq!(session.app_name(), "OpenPAL4");
    assert_eq!(session.state().money(), 0);
}

#[test]
fn save_to_a_slot_asks_for_a_write() {
    let mut session = Session::new();
    assert!(session.save_runtime(2, None, None, Some([1.0; 16]), vec![]));
    assert_eq!(session.state().camera(), Some(&[1.0; 16]));
}

#[test]
fn loading_a_save_returns_what_was_saved() {
    let mut saved = Session::new();
    saved
        .state_mut()
        .set_scene("q01".to_string(), "Q01".to_string());
    saved.state_mut().set_leader(1);
    saved.save_runtime(1, Some([4.0, 5.0, 6.0]), Some(30.0), Some([2.0; 16]), vec![11, 12]);

    let on_disk: Pal4PersistentState<[f32; 3], f32, [f32; 16]> = Pal4PersistentState::from_parts(
        saved.app_name().to_string(),
        saved.state().money(),
        saved.state().quest_percentage(),
        saved.state().leader(),
        saved.state().scene_name().to_string(),
        saved.state().block_name().to_string(),
        saved.state().position(),
        saved.state().direction(),
        saved.state().player_locked(),
        saved.state().camera().cloned(),
        saved
            .state()
            .player_entries()
            .iter()
            .map(|(slot, p)| (*slot, p.clone()))
            .collect(),
        saved
            .state()
            .inventory_iter()
            .iter()
            .map(|(id, count)| (*id, *count))
            .collect(),
        saved.state().script_globals().to_vec(),
    );

    let mut session = Session::new();
    let snap: RuntimeSnapshot<[f32; 3], f32, [f32; 16]> = session.adopt_loaded(on_disk);
    assert_eq!(snap.scene_name, "q01");
    assert_eq!(snap.block_name, "Q01");
    assert_eq!(snap.leader, 1);
    assert_eq!(snap.position, Some([4.0, 5.0, 6.0]));
    assert_eq!(snap.direction, Some(30.0));
    assert_eq!(snap.camera, Some([2.0; 16]));
    assert_eq!(snap.script_globals, vec![11, 12]);
    assert!(!snap.player_locked);
    assert_eq!(session.state().scene_name(), "q01");
}

#[test]
fn replace_state_swaps_the_whole_state() {
    let mut session = Session::new();
    let mut other: Pal4PersistentState<[f32; 3], f32, [f32; 16]> =
        Pal4PersistentState::new("Other".to_string());
    other.add_money(9);
    session.replace_state(other);
    assert_eq!(session.app_name(), "Other");
    assert_eq!(session.state().money(), 9);
}

#[test]
fn scene_swap_records_scene_and_hands_back_leader_and_lock() {
    let mut session = Session::new();
    session.state_mut().set_leader(3);
    session.state_mut().set_player_locked(true);
    let outcome = swap_pal4_scene(&mut session, "m10", "2", Ok::<(), String>(())).unwrap();
    assert_eq!(outcome.leader, 3);
    assert!(outcome.player_locked);
    assert_eq!(session.state().scene_name(), "m10");
    assert_eq!(session.state().block_name(), "2");
}

#[test]
fn a_failed_scene_load_leaves_the_session_alone() {
    let mut session = Session::new();
    session.state_mut().set_scene("q01".to_string(), "1".to_string());
    let err = swap_pal4_scene(&mut session, "m10", "2", Err("no such scene".to_string()));
    assert_eq!(err, Err("no such scene".to_string()));
    assert_eq!(session.state().scene_name(), "q01");
    assert_eq!(session.state().block_name(), "1");
}

#[test]
fn default_snapshot_is_empty() {
    let snap: RuntimeSnapshot<[f32; 3], f32, [f32; 16]> = RuntimeSnapshot::default();
    assert_eq!(snap.scene_name, "");
    assert_eq!(snap.leader, 0);
    assert!(snap.position.is_none());
    assert!(snap.script_globals.is_empty());
}

#[test]
fn session_wraps_a_loaded_state() {
    let mut state = Pal4PersistentState::<[f32; 3], f32, [f32; 16]>::new("OpenPAL4".to_string());
    state.add_money(42);
    state.set_scene("Q01".to_string(), "Q01Y".to_string());
    let session = Session::from_state(state);
    assert_eq!(session.state().money(), 42);
    assert_eq!(session.state().scene_name(), "Q01");
    assert_eq!(session.app_name(), "OpenPAL4");
}

#[test]
fn load_screen_rows_name_the_slot() {
    assert_eq!(slot_label(2, Some("Q01 / Q01Y")), "Slot 2 - Q01 / Q01Y");
    assert_eq!(slot_label(4, None), "Slot 4 - (empty)");
    assert_eq!(slot_label(-1, None), "Slot -1 - (empty)");
}
