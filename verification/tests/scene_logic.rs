use yaobow_shared::scene_logic::{
    duplicate_name_indices, fired_event_function, get_player_metadata, interactable_objects, is_trigger_region,
    npc_starts_visible, object_index_by_name, object_listing, plan_gob_object, GobEntryFacts,
    GobListingFacts, GobObjectKind, GobObjectPlan, LoaderStage, ObjectAnimation, Player,
    SceneLoadCursor, StageProgress,
};

#[test]
fn players_have_names_and_actor_models() {
    assert_eq!(Player::YunTianhe.name(), "YunTianhe");
    assert_eq!(Player::HanLingsha.name(), "HanLingsha");
    assert_eq!(Player::LiuMengli.name(), "LiuMengli");
    assert_eq!(Player::MurongZiying.name(), "MurongZiying");
    assert_eq!(Player::YunTianhe.actor_name(), "101");
    assert_eq!(Player::HanLingsha.actor_name(), "103");
    assert_eq!(Player::LiuMengli.actor_name(), "106");
    assert_eq!(Player::MurongZiying.actor_name(), "105");
    assert_eq!(get_player_metadata(0), Player::YunTianhe);
    assert_eq!(get_player_metadata(3), Player::MurongZiying);
}

#[test]
fn loader_runs_stages_in_order_with_progress() {
    let mut c = SceneLoadCursor::new();
    let expected = [
        (LoaderStage::Bsp, 20),
        (LoaderStage::SkyClipWater, 35),
        (LoaderStage::FloorWall, 50),
        (LoaderStage::PlayersEventsController, 70),
        (LoaderStage::Npcs, 85),
        (LoaderStage::GobObjects, 95),
    ];
    for (stage, percent) in expected {
        assert_eq!(c.current(), Some(stage));
        assert_eq!(c.complete(true), StageProgress { percent, done: false });
    }
    assert_eq!(c.current(), Some(LoaderStage::Finalize));
    assert_eq!(c.complete(true), StageProgress { percent: 100, done: true });
    assert_eq!(c.current(), None);
    assert_eq!(c.complete(true), StageProgress { percent: 100, done: false });
}

#[test]
fn a_failed_stage_finishes_the_loader() {
    let mut c = SceneLoadCursor::new();
    assert_eq!(c.complete(true), StageProgress { percent: 20, done: false });
    assert_eq!(c.complete(false), StageProgress { percent: 35, done: true });
    assert_eq!(c.current(), None);
}

fn facts(kind: GobObjectKind) -> GobEntryFacts {
    GobEntryFacts {
        kind,
        names_decoded: true,
        initially_hidden: false,
        hidden_cutscene_prop: false,
        action_default_play: false,
        action_play_times: None,
        action_holding_end: false,
    }
}

#[test]
fn gob_effects_and_sounds_spawn_nothing() {
    assert_eq!(plan_gob_object(facts(GobObjectKind::Effect)), GobObjectPlan::Skip);
    assert_eq!(plan_gob_object(facts(GobObjectKind::Sound)), GobObjectPlan::Skip);
    let mut f = facts(GobObjectKind::Generic);
    f.names_decoded = false;
    assert_eq!(plan_gob_object(f), GobObjectPlan::Skip);
}

#[test]
fn gob_markers_and_cutscene_props_start_hidden() {
    assert_eq!(
        plan_gob_object(facts(GobObjectKind::Marker)),
        GobObjectPlan::Spawn { marker: true, visible: false, enabled: true, animation: None }
    );
    let mut f = facts(GobObjectKind::Generic);
    f.hidden_cutscene_prop = true;
    assert_eq!(
        plan_gob_object(f),
        GobObjectPlan::Spawn { marker: false, visible: false, enabled: false, animation: None }
    );
    let mut f = facts(GobObjectKind::Generic);
    f.initially_hidden = true;
    assert_eq!(
        plan_gob_object(f),
        GobObjectPlan::Spawn { marker: false, visible: false, enabled: true, animation: None }
    );
}

#[test]
fn gob_actions_loop_unless_a_count_is_given() {
    let mut f = facts(GobObjectKind::Action);
    f.action_default_play = true;
    f.action_holding_end = true;
    assert_eq!(
        plan_gob_object(f),
        GobObjectPlan::Spawn {
            marker: false,
            visible: true,
            enabled: true,
            animation: Some(ObjectAnimation { looping: true, hold_end: false })
        }
    );
    f.action_play_times = Some(2);
    assert_eq!(
        plan_gob_object(f),
        GobObjectPlan::Spawn {
            marker: false,
            visible: true,
            enabled: true,
            animation: Some(ObjectAnimation { looping: false, hold_end: true })
        }
    );
    f.action_default_play = false;
    assert_eq!(
        plan_gob_object(f),
        GobObjectPlan::Spawn { marker: false, visible: true, enabled: true, animation: None }
    );
}

#[test]
fn only_quads_and_boxes_are_trigger_regions() {
    assert!(is_trigger_region(4));
    assert!(is_trigger_region(8));
    assert!(!is_trigger_region(3));
    assert!(!is_trigger_region(0));
}

#[test]
fn npc_visibility_flag() {
    assert!(npc_starts_visible(1));
    assert!(!npc_starts_visible(0));
    assert!(!npc_starts_visible(2));
}

#[test]
fn object_lookup_finds_the_first_match() {
    let names = vec!["door001".to_string(), "box".to_string(), "door001".to_string()];
    assert_eq!(object_index_by_name(&names, "door001"), Some(0));
    assert_eq!(object_index_by_name(&names, "box"), Some(1));
    assert_eq!(object_index_by_name(&names, "nope"), None);
    assert_eq!(duplicate_name_indices(&names), vec![2]);
    assert!(duplicate_name_indices(&vec!["a".to_string(), "b".to_string()]).is_empty());
}

#[test]
fn only_objects_with_a_research_function_are_interactable() {
    let gob_index = vec![1usize, 0, 2, 5];
    let research = vec!["".to_string(), "look_box".to_string(), "open_door".to_string()];
    assert_eq!(interactable_objects(&gob_index, &research), vec![(0, 1), (2, 2)]);
    assert!(interactable_objects(&vec![0usize], &research).is_empty());
}

#[test]
fn listing_prefers_the_live_object() {
    let entry = GobListingFacts {
        name: "door001".to_string(),
        kind: Some("Door".to_string()),
        research_function: "open_door".to_string(),
        position: (1i32, 2i32),
    };
    let names = vec!["box".to_string(), "door001".to_string(), "door001".to_string()];
    let live = vec![((0, 0), true), ((7, 8), true), ((9, 9), false)];
    let listing = object_listing(&entry, &names, &live);
    assert_eq!(listing.name, "door001");
    assert_eq!(listing.kind, "Door");
    assert_eq!(listing.research_function, "open_door");
    assert_eq!(listing.position, (7, 8));
    assert!(listing.visible);
}

#[test]
fn listing_of_an_unloaded_entry_is_hidden_at_its_load_position() {
    let entry = GobListingFacts {
        name: "ghost".to_string(),
        kind: None,
        research_function: String::new(),
        position: (3i32, 4i32),
    };
    let names = vec!["box".to_string()];
    let live = vec![((0, 0), true)];
    let listing = object_listing(&entry, &names, &live);
    assert_eq!(listing.kind, "unknown");
    assert_eq!(listing.position, (3, 4));
    assert!(!listing.visible);
}

#[test]
fn a_fired_region_runs_its_event_function() {
    let functions = vec![Some("evt_door".to_string()), None, Some("evt_bridge".to_string())];
    assert_eq!(fired_event_function(Some(2), &functions), Some("evt_bridge".to_string()));
    assert_eq!(fired_event_function(Some(0), &functions), Some("evt_door".to_string()));
    assert_eq!(fired_event_function(Some(1), &functions), None);
    assert_eq!(fired_event_function(Some(3), &functions), None);
    assert_eq!(fired_event_function(None, &functions), None);
}

#[test]
fn a_whole_loader_run_finishes_once_and_then_stays_full() {
    let mut cursor = SceneLoadCursor::new();
    let outcomes = [true, true, true, false, true, true, true, true];
    let progress: Vec<StageProgress> = outcomes.iter().map(|ok| cursor.complete(*ok)).collect();
    let percents: Vec<u32> = progress.iter().map(|p| p.percent).collect();
    let done: Vec<bool> = progress.iter().map(|p| p.done).collect();
    assert_eq!(percents, vec![20, 35, 50, 70, 100, 100, 100, 100]);
    assert_eq!(done, vec![false, false, false, true, false, false, false, false]);
}
