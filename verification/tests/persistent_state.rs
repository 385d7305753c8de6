use yaobow_shared::app_state::inventory_snapshot;
use yaobow_shared::persistent_state::{Pal4PersistentState, PlayerState, PLAYER_COUNT};

type State = Pal4PersistentState<[f32; 3], f32, [f32; 16]>;

fn fresh() -> State {
    State::new("OpenPAL4".to_string())
}

#[test]
fn summary_with_scene_and_block() {
    let mut state = fresh();
    state.set_scene("m01".to_string(), "1".to_string());
    state.add_quest_percentage(42);
    assert_eq!(state.summary(), "m01/1 - Quest 42%");
}

#[test]
fn summary_with_scene_no_block() {
    let mut state = fresh();
    state.set_scene("m01".to_string(), String::new());
    assert_eq!(state.summary(), "m01 - Quest 0%");
}

#[test]
fn summary_without_scene() {
    let state = fresh();
    assert_eq!(state.summary(), "Quest 0%");
}

#[test]
fn fresh_state_has_default_party() {
    let state = fresh();
    assert_eq!(state.app_name(), "OpenPAL4");
    assert_eq!(state.money(), 0);
    for slot in 0..PLAYER_COUNT {
        assert_eq!(state.player_level(slot), 1);
        assert!(!state.player(slot).unwrap().in_team);
    }
    assert!(state.player(PLAYER_COUNT).is_none());
    assert_eq!(state.player_level(PLAYER_COUNT), 1);
}

#[test]
fn money_saturates_and_payment_clamps_at_zero() {
    let mut state = fresh();
    state.add_money(500);
    assert!(state.pay_money(200));
    assert_eq!(state.money(), 300);
    assert!(!state.pay_money(1000));
    assert_eq!(state.money(), 0);
    state.add_money(i32::MAX);
    state.add_money(10);
    assert_eq!(state.money(), i32::MAX);
}

#[test]
fn add_then_pay_back_restores_money() {
    let mut state = fresh();
    state.add_money(70);
    state.add_money(30);
    assert!(state.pay_money(30));
    assert_eq!(state.money(), 70);
}

#[test]
fn quest_percentage_is_clamped() {
    let mut state = fresh();
    state.add_quest_percentage(150);
    assert_eq!(state.quest_percentage(), 100);
    state.add_quest_percentage(-300);
    assert_eq!(state.quest_percentage(), 0);
}

#[test]
fn equipment_counts_never_go_negative() {
    let mut state = fresh();
    state.add_equipment(7, 3);
    assert!(state.has_equipment(7));
    assert_eq!(state.equipment_count(7), 3);
    state.remove_equipment(7, 5);
    assert!(!state.has_equipment(7));
    assert_eq!(state.equipment_count(7), 0);
    assert!(state.inventory_iter().is_empty());
    assert!(inventory_snapshot(&state).is_empty());
}

#[test]
fn add_then_remove_equipment_restores_inventory() {
    let mut state = fresh();
    state.add_equipment(9, 2);
    state.add_equipment(4, 1);
    state.add_equipment(9, 5);
    state.remove_equipment(9, 5);
    assert_eq!(inventory_snapshot(&state), vec![(4, 1), (9, 2)]);
}

#[test]
fn inventory_is_listed_in_id_order() {
    let mut state = fresh();
    state.add_equipment(30, 1);
    state.add_equipment(10, 2);
    state.add_equipment(20, 3);
    assert_eq!(inventory_snapshot(&state), vec![(10, 2), (20, 3), (30, 1)]);
    assert_eq!(state.inventory_iter().len(), 3);
}

#[test]
fn player_records_change_per_slot() {
    let mut state = fresh();
    state.set_player_level(2, 9);
    state.set_in_team(2, true);
    state.add_skill(2, 100);
    state.add_skill(2, 100);
    state.add_player_equip(2, 5);
    state.add_player_equip(2, 5);
    let p = state.player(2).unwrap();
    assert_eq!(p.level, 9);
    assert!(p.in_team);
    assert_eq!(p.skills, vec![100]);
    assert_eq!(p.equipment, vec![5]);
    assert_eq!(state.player_level(1), 1);
    // A slot outside the party gets a record on first change.
    state.set_player_level(6, 3);
    assert_eq!(state.player_level(6), 3);
}

#[test]
fn full_hp_and_mp_copy_the_maximum() {
    let mut record = PlayerState::default();
    record.max_hp = 120;
    record.max_mp = 40;
    let mut state = State::from_parts(
        "OpenPAL4".to_string(),
        0,
        0,
        0,
        String::new(),
        String::new(),
        None,
        None,
        false,
        None,
        vec![(0, record)],
        vec![],
        vec![],
    );
    state.set_full_hp(0);
    state.set_full_mp(0);
    let p = state.player(0).unwrap();
    assert_eq!((p.hp, p.mp), (120, 40));
}

#[test]
fn from_parts_keeps_the_last_entry_per_key() {
    let state = State::from_parts(
        "OpenPAL4".to_string(),
        5,
        6,
        1,
        "m02".to_string(),
        "3".to_string(),
        Some([1.0, 2.0, 3.0]),
        Some(45.0),
        true,
        None,
        vec![],
        vec![(3, 1), (1, 2), (3, 7)],
        vec![1, 2],
    );
    assert_eq!(inventory_snapshot(&state), vec![(1, 2), (3, 7)]);
    assert_eq!(state.money(), 5);
    assert_eq!(state.quest_percentage(), 6);
    assert_eq!(state.leader(), 1);
    assert_eq!(state.position(), Some([1.0, 2.0, 3.0]));
    assert_eq!(state.direction(), Some(45.0));
    assert!(state.player_locked());
    assert_eq!(state.script_globals(), &[1, 2]);
    assert!(state.player(0).is_none());
}

#[test]
fn scalar_fields_are_set_and_read_back() {
    let mut state = fresh();
    state.set_leader(3);
    state.set_player_locked(true);
    state.set_camera(Some([0.5; 16]));
    state.set_script_globals(vec![4, 5]);
    assert_eq!(state.leader(), 3);
    assert!(state.player_locked());
    assert_eq!(state.camera(), Some(&[0.5; 16]));
    assert_eq!(state.script_globals(), &[4, 5]);
}
