use yaobow_shared::app_state::{
    camera_run_plan, camera_run_started, camera_running_after, inventory_snapshot, lock_player, map_player,
    party_snapshot, CameraRunPlan, DialogAvatarSide, DialogStateSnapshot,
    IPal4ActorControllerImpl, Pal4GameContext, Pal4Prompts, PartySnapshot, SoundTable,
    DEFAULT_DIALOG_CHOICE, SOUND_ID_LIMIT,
};
use yaobow_shared::persistent_state::Pal4PersistentState;

type State = Pal4PersistentState<[f32; 3], f32, [f32; 16]>;

#[test]
fn party_snapshot_lists_every_slot_in_order() {
    let mut state = State::new("OpenPAL4".to_string());
    state.set_player_level(1, 12);
    state.set_in_team(1, true);
    let rows = party_snapshot(&state);
    assert_eq!(rows.len(), 4);
    for (i, row) in rows.iter().enumerate() {
        assert_eq!(row.slot, i);
    }
    assert_eq!(
        rows[1],
        PartySnapshot {
            slot: 1,
            level: 12,
            hp: 0,
            max_hp: 0,
            mp: 0,
            max_mp: 0,
            in_team: true
        }
    );
    assert_eq!(rows[0].level, 1);
}

#[test]
fn inventory_snapshot_is_sorted_by_id() {
    let mut state = State::new("OpenPAL4".to_string());
    state.add_equipment(5, 1);
    state.add_equipment(2, 3);
    assert_eq!(inventory_snapshot(&state), vec![(2, 3), (5, 1)]);
}

#[test]
fn dialog_pick_lasts_one_dialog() {
    let mut p = Pal4Prompts::new();
    p.push_dialog_choice("yes".to_string());
    p.push_dialog_choice("no".to_string());
    assert_eq!(p.dialog_choices(), &["yes".to_string(), "no".to_string()]);
    p.buffer_dialog_choice(2);
    assert_eq!(p.take_dialog_choice(), 2);
    assert!(p.dialog_choices().is_empty());
    assert_eq!(p.take_dialog_choice(), DEFAULT_DIALOG_CHOICE);
    assert_eq!(DEFAULT_DIALOG_CHOICE, 1);
}

#[test]
fn world_map_choice_is_taken_once_and_closes_the_map() {
    let mut p = Pal4Prompts::new();
    p.open_world_map();
    assert!(p.world_map_open());
    assert_eq!(p.take_world_map_choice(), None);
    assert!(p.world_map_open());
    p.buffer_world_map_choice("m01".to_string(), "1".to_string());
    assert_eq!(
        p.take_world_map_choice(),
        Some(("m01".to_string(), "1".to_string()))
    );
    assert!(!p.world_map_open());
    assert_eq!(p.take_world_map_choice(), None);
}

#[test]
fn script_player_minus_one_is_the_leader() {
    assert_eq!(map_player(-1, 3), 3);
    assert_eq!(map_player(2, 3), 2);
}

#[test]
fn game_context_reports_the_leader_as_int() {
    let mut ctx: Pal4GameContext<u8> = Pal4GameContext::create(vec![1, 2]);
    assert_eq!(ctx.current_leader(), 0);
    ctx.set_current_leader(2);
    assert_eq!(ctx.current_leader(), 2);
    assert_eq!(ctx.event_triggers(), &[1, 2]);
}

#[test]
fn sound_ids_skip_live_sounds_and_wrap() {
    let mut t: SoundTable<&str> = SoundTable::new();
    let a = t.find_next_sound_id();
    assert_eq!(a, 0);
    t.insert(a, "a");
    let b = t.find_next_sound_id();
    assert_eq!(b, 1);
    t.insert(b, "b");
    assert!(t.contains(0) && t.contains(1) && !t.contains(2));
    assert_eq!(t.remove(0), Some("a"));
    assert_eq!(t.remove(0), None);
    // The search continues from the last id and finds 1 busy, then 2.
    assert_eq!(t.find_next_sound_id(), 2);
    // Near the end of the range the search wraps to the free id 0.
    t.insert(SOUND_ID_LIMIT - 1, "z");
    let mut t2: SoundTable<&str> = SoundTable::new();
    t2.insert(SOUND_ID_LIMIT - 1, "z");
    t2.insert(0, "y");
    for _ in 0..(SOUND_ID_LIMIT - 2) {
        let id = t2.find_next_sound_id();
        t2.insert(id, "x");
    }
    assert_eq!(t2.len(), SOUND_ID_LIMIT as usize);
    assert!(t2.contains(5));
    let mut drained = t.drain();
    drained.sort();
    assert_eq!(drained, vec![(1, "b"), (SOUND_ID_LIMIT - 1, "z")]);
    assert_eq!(t.len(), 0);
}

#[test]
fn dialog_snapshot_holds_text_and_side() {
    let snap = DialogStateSnapshot {
        open: true,
        text: "hi".to_string(),
        avatar: DialogAvatarSide::Right,
    };
    assert!(snap.open);
    assert_eq!(snap.avatar, DialogAvatarSide::Right);
}

#[test]
fn camera_runs_snap_animate_or_do_nothing() {
    assert_eq!(camera_run_plan(None), CameraRunPlan::Keep);
    assert_eq!(camera_run_plan(Some((0, false, true))), CameraRunPlan::Stop);
    assert_eq!(camera_run_plan(Some((3, true, true))), CameraRunPlan::Snap);
    assert_eq!(camera_run_plan(Some((3, false, false))), CameraRunPlan::Snap);
    assert_eq!(camera_run_plan(Some((1, false, true))), CameraRunPlan::Snap);
    assert_eq!(camera_run_plan(Some((4, false, true))), CameraRunPlan::Animate);
    assert!(camera_run_started(CameraRunPlan::Animate));
    assert!(!camera_run_started(camera_run_plan(Some((1, false, true)))));
    assert!(!camera_run_started(CameraRunPlan::Snap));
    assert!(!camera_run_started(CameraRunPlan::Keep));
}

#[test]
fn a_missing_entry_leaves_the_run_in_flight_and_an_empty_one_stops_it() {
    assert!(camera_running_after(CameraRunPlan::Keep, true));
    assert!(!camera_running_after(CameraRunPlan::Keep, false));
    assert!(!camera_running_after(CameraRunPlan::Stop, true));
    assert!(!camera_running_after(CameraRunPlan::Snap, true));
    assert!(camera_running_after(CameraRunPlan::Animate, false));
}

struct RecordingController {
    last: Option<bool>,
}

impl IPal4ActorControllerImpl for RecordingController {
    fn control_locked(&self) -> bool {
        self.last == Some(true)
    }

    fn lock_control(&mut self, lock: bool) {
        self.last = Some(lock);
    }
}

#[test]
fn locking_the_player_reaches_the_controller() {
    let mut controller = Some(RecordingController { last: None });
    let mut locked = false;
    lock_player(&mut locked, &mut controller, true);
    assert!(locked);
    assert_eq!(controller.as_ref().unwrap().last, Some(true));
    lock_player(&mut locked, &mut controller, false);
    assert!(!locked);
    assert_eq!(controller.as_ref().unwrap().last, Some(false));
    let mut none: Option<RecordingController> = None;
    lock_player(&mut locked, &mut none, true);
    assert!(locked);
    assert!(none.is_none());
}
